//! What each setting of a configuration comes to: the value that is written
//! where it can be used, the documented default where nothing is written, and
//! the nearest usable value otherwise.
use vstd::prelude::*;

use crate::config;
use crate::config::bindings;
use crate::config::colors;
use crate::config::colors::Rgba;
use crate::config::decoration;
use crate::config::decoration::{
    BackendFileConfig, DecorationFileConfig, DecorationMode, EffectsFileConfig, FontWeight,
    OutputOutlineConfig, TitleAlign,
};
use crate::config::merge;
use crate::config::numbers;
use crate::config::numbers::{Number, NumberOf, Real};
use crate::config::outputs;
use crate::config::outputs::{
    OutputConfigOf, OutputMode, OutputPosition, OutputRuleFile, PositionValue, Transform,
};
use crate::config::raw::{BackgroundFileConfig, ConfigFile};
use crate::config::settings;
use crate::config::settings::{AccelProfile, BackgroundKindOf, WindowPlacement};
use crate::config::types;
use crate::config::types::{KeyCombo, ModKey};
use crate::config::warnings;
use crate::config::warnings::Severity;
use crate::config::window_rules;
use crate::config::window_rules::WindowRuleFile;
use crate::config::Config;
use crate::text;

verus! {

// ── Numbers ──────────────────────────────────────────────────────────

/// Is `r` what a setting that must not be negative comes to? Zero stands in for
/// what is negative and for what is not a number.
pub open spec fn not_negative(o: Option<Number>, default: u64, r: Real) -> bool {
    match o {
        None => r.bits == default,
        Some(n) => if n.value.bits <= 0x7ff0_0000_0000_0000 || n.value.bits
            == 0x8000_0000_0000_0000 {
            r == n.value
        } else {
            r.bits == 0
        },
    }
}

/// Is `r` what a setting between 0 and 1 comes to? The nearer end stands in for
/// what is outside, and 0 for what is not a number.
pub open spec fn between_0_and_1(o: Option<Number>, default: u64, r: Real) -> bool {
    match o {
        None => r.bits == default,
        Some(n) => if n.value.bits <= 0x3ff0_0000_0000_0000 || n.value.bits
            == 0x8000_0000_0000_0000 {
            r == n.value
        } else if n.value.bits <= 0x7ff0_0000_0000_0000 {
            r.bits == 0x3ff0_0000_0000_0000
        } else {
            r.bits == 0
        },
    }
}

/// Is `r` what a speed between -1 and 1 comes to? The nearer end stands in for
/// what is outside, and -1 for what is not a number.
pub open spec fn between_minus_1_and_1(o: Option<Number>, r: Real) -> bool {
    match o {
        None => r.bits == 0,
        Some(n) => if n.value.bits <= 0x3ff0_0000_0000_0000 || 0x8000_0000_0000_0000
            <= n.value.bits <= 0xbff0_0000_0000_0000 {
            r == n.value
        } else if n.value.bits <= 0x7ff0_0000_0000_0000 {
            r.bits == 0x3ff0_0000_0000_0000
        } else {
            r.bits == 0xbff0_0000_0000_0000
        },
    }
}

/// Is `r` what a whole number that must not be negative comes to?
pub open spec fn whole(o: Option<i32>, default: i32, r: i32) -> bool {
    match o {
        None => r == default,
        Some(n) => r == (if n < 0 {
            0
        } else {
            n as int
        }),
    }
}

/// Each number of the navigation is the one that is written for it, held to its
/// range, or its default.
#[verifier::rlimit(60)]
pub proof fn lemma_numbers_of_navigation(
    c: Config,
    raw: ConfigFile,
    home: Option<Seq<char>>,
    table: Seq<(Seq<char>, u32)>,
)
    requires
        config::config_from(c, raw, home, table),
    ensures
        ({
            let (n, e) = (raw.navigation, raw.navigation.edge_pan);
            &&& not_negative(n.trackpad_speed, 0x3ff8_0000_0000_0000, c.trackpad_speed)
            &&& not_negative(n.mouse_speed, 0x3ff0_0000_0000_0000, c.mouse_speed)
            &&& not_negative(n.touch_speed, 0x3ff0_0000_0000_0000, c.touch_speed)
            &&& not_negative(n.pan_step, 0x4059_0000_0000_0000, c.pan_step)
            &&& not_negative(e.zone, 0x4059_0000_0000_0000, c.edge_zone)
            &&& not_negative(e.speed_min, 0x4010_0000_0000_0000, c.edge_pan_min)
            &&& not_negative(e.speed_max, 0x4024_0000_0000_0000, c.edge_pan_max)
            &&& not_negative(e.cursor_zone, 0x4034_0000_0000_0000, c.edge_pan_cursor_zone)
            &&& between_0_and_1(n.drift, 0x3fe0_0000_0000_0000, c.drift)
            &&& whole(n.nudge_step, 20, c.nudge_step)
        }),
{
}

/// Each number of zooming, snapping and gestures is the one that is written for
/// it, held to its range, or its default.
#[verifier::rlimit(60)]
pub proof fn lemma_numbers_of_zoom_and_snap(
    c: Config,
    raw: ConfigFile,
    home: Option<Seq<char>>,
    table: Seq<(Seq<char>, u32)>,
)
    requires
        config::config_from(c, raw, home, table),
    ensures
        ({
            let (z, s) = (raw.zoom, raw.snap);
            &&& not_negative(z.step, 0x3ff1_9999_9999_999a, c.zoom_step)
            &&& not_negative(z.touch_speed, 0x3ff0_0000_0000_0000, c.zoom_touch_speed)
            &&& not_negative(z.fit_padding, 0x4054_0000_0000_0000, c.zoom_fit_padding)
            &&& not_negative(s.gap, 0x4028_0000_0000_0000, c.snap_gap)
            &&& not_negative(s.distance, 0x4038_0000_0000_0000, c.snap_distance)
            &&& not_negative(s.break_force, 0x4040_0000_0000_0000, c.snap_break_force)
        }),
        ({
            let (g, t) = (raw.gestures, c.gesture_thresholds);
            &&& not_negative(g.swipe_threshold, 0x4028_0000_0000_0000, t.swipe_distance)
            &&& not_negative(g.pinch_in_threshold, 0x3feb_3333_3333_3333, t.pinch_in_scale)
            &&& not_negative(g.pinch_out_threshold, 0x3ff2_6666_6666_6666, t.pinch_out_scale)
        }),
{
}

/// Each number of the cursor and of the devices is the one that is written for
/// it, held to its range, or its default.
#[verifier::rlimit(60)]
pub proof fn lemma_numbers_of_devices(
    c: Config,
    raw: ConfigFile,
    home: Option<Seq<char>>,
    table: Seq<(Seq<char>, u32)>,
)
    requires
        config::config_from(c, raw, home, table),
    ensures
        between_0_and_1(
            raw.cursor.inactive_opacity,
            0x3fe0_0000_0000_0000,
            c.inactive_cursor_opacity,
        ),
        between_minus_1_and_1(raw.input.trackpad.accel_speed, c.trackpad.accel_speed),
        between_minus_1_and_1(raw.input.mouse.accel_speed, c.mouse_device.accel_speed),
        whole(raw.input.keyboard.repeat_delay, 200, c.repeat_delay),
        whole(raw.input.keyboard.repeat_rate, 25, c.repeat_rate),
        c.cursor_size == (match raw.cursor.size {
            Some(n) => if n > 0 {
                Some(n)
            } else {
                None
            },
            None => None,
        }),
{
    assert(c.trackpad@.accel_speed == c.trackpad.accel_speed);
}

/// The speed of the camera is never zero or less: what would freeze it, and what
/// is not a number, is three tenths, and what is above 1 is 1.
pub proof fn lemma_camera_never_freezes(o: Option<Number>)
    ensures
        ({
            let r = settings::animation_speed_of(o);
            &&& 0 < r.bits <= 0x3ff0_0000_0000_0000
            &&& match o {
                Some(n) => if 0 < n.value.bits <= 0x3ff0_0000_0000_0000 {
                    r == n.value
                } else if 0 < n.value.bits <= 0x7ff0_0000_0000_0000 {
                    r.bits == 0x3ff0_0000_0000_0000
                } else {
                    r.bits == 0x3fd3_3333_3333_3333
                },
                None => r.bits == 0x3fd3_3333_3333_3333,
            }
        }),
{
}

/// A number that is used as it is written is not complained of, and one that is
/// not is complained of once.
pub proof fn lemma_changed_numbers_warn(n: Number, field: Seq<char>)
    ensures
        ({
            let v = n@;
            let (zero, one) = (decoration::number(0, "0"@), decoration::number(
                0x3ff0_0000_0000_0000,
                "1"@,
            ));
            &&& decoration::floored_warning(v, field).len() == (if decoration::floored(v) == v.value
                || v.value.bits <= 0x7ff0_0000_0000_0000 {
                0nat
            } else {
                1
            })
            &&& decoration::clamped_warning(v, zero, one, field).len() == (if decoration::clamped(
                v,
                zero,
                one,
            ) == v.value {
                0nat
            } else {
                1
            })
            &&& settings::animation_speed_warning(Some(n)).len() == (
            if settings::animation_speed_of(Some(n)) == n.value {
                0nat
            } else {
                1
            })
        }),
{
    assert(n@.value == n.value);
}

// ── Switches ─────────────────────────────────────────────────────────

/// Is `r` a switch that is on unless it is turned off?
pub open spec fn on_unless_off(o: Option<bool>, r: bool) -> bool {
    r == (o != Some(false))
}

/// Is `r` a switch that is off unless it is turned on?
pub open spec fn off_unless_on(o: Option<bool>, r: bool) -> bool {
    r == (o == Some(true))
}

/// Each switch of a configuration is its own entry, or the documented default.
pub proof fn lemma_switches(
    c: Config,
    raw: ConfigFile,
    home: Option<Seq<char>>,
    table: Seq<(Seq<char>, u32)>,
)
    requires
        config::config_from(c, raw, home, table),
    ensures
        off_unless_on(raw.focus_follows_mouse, c.focus_follows_mouse),
        off_unless_on(raw.navigation.edge_pan.cursor_pan, c.edge_pan_cursor),
        on_unless_off(raw.navigation.auto_navigate_on_close, c.auto_navigate_on_close),
        on_unless_off(raw.zoom.reset_on_new_window, c.zoom_reset_on_new_window),
        on_unless_off(raw.zoom.reset_on_activation, c.zoom_reset_on_activation),
        on_unless_off(raw.snap.enabled, c.snap_enabled),
        off_unless_on(raw.snap.corners, c.snap_corners),
        off_unless_on(raw.snap.centers, c.snap_centers),
        ({
            let k = raw.input.keyboard;
            &&& on_unless_off(k.layout_independent, c.layout_independent)
            &&& off_unless_on(k.remember_layout_per_window, c.remember_layout_per_window)
            &&& on_unless_off(k.num_lock, c.num_lock)
            &&& off_unless_on(k.caps_lock, c.caps_lock)
        }),
        ({
            let m = raw.mouse;
            &&& on_unless_off(m.resize_on_border, c.resize_on_border)
            &&& off_unless_on(m.decoration_resize_snapped, c.decoration_resize_snapped)
            &&& off_unless_on(m.decoration_fit_snapped, c.decoration_fit_snapped)
        }),
        ({
            let t = raw.input.trackpad;
            &&& on_unless_off(t.tap_to_click, c.trackpad.tap_to_click)
            &&& on_unless_off(t.natural_scroll, c.trackpad.natural_scroll)
            &&& on_unless_off(t.tap_and_drag, c.trackpad.tap_and_drag)
            &&& on_unless_off(t.disable_while_typing, c.trackpad.disable_while_typing)
        }),
        off_unless_on(raw.input.mouse.natural_scroll, c.mouse_device.natural_scroll),
        on_unless_off(raw.input.touch.enable, c.touch.enable),
        ({
            let (b, d) = (raw.background, c.background);
            &&& off_unless_on(b.mirror_tile, d.mirror_tile)
            &&& off_unless_on(b.cache_shader, d.cache_shader)
            &&& off_unless_on(b.transparent_shader, d.transparent_shader)
            &&& d.cache_budget_mb == (match b.cache_budget_mb {
                Some(n) => n,
                None => 128,
            })
        }),
        c.xwayland_enabled == raw.xwayland.enabled,
{
    assert(c.trackpad@.tap_to_click == c.trackpad.tap_to_click);
    assert(c.touch@.enable == c.touch.enable);
    assert(c.background@.mirror_tile == c.background.mirror_tile);
}

/// Each switch of the effects and of the backend is its own entry, or off.
pub proof fn lemma_effects_and_backend(e: EffectsFileConfig, b: BackendFileConfig)
    ensures
        ({
            let r = decoration::effects_of(e);
            &&& off_unless_on(e.animate_blur, r.animate_blur)
            &&& not_negative(e.blur_strength, 0x3ff1_9999_9999_999a, r.blur_strength)
            &&& match e.blur_radius {
                Some(n) => r.blur_radius == n,
                None => r.blur_radius == 2,
            }
        }),
        ({
            let r = decoration::backend_of(b);
            &&& off_unless_on(b.wait_for_frame_completion, r.wait_for_frame_completion)
            &&& off_unless_on(b.disable_direct_scanout, r.disable_direct_scanout)
            &&& off_unless_on(b.disable_hardware_cursor, r.disable_hardware_cursor)
            &&& match b.max_capture_fps {
                Some(n) => r.max_capture_fps == n,
                None => r.max_capture_fps == 0,
            }
        }),
{
}

/// The anchors are those that are written with the vertical axis turned over,
/// or the one at the middle of the canvas.
#[verifier::rlimit(40)]
pub proof fn lemma_anchors_are_turned(
    c: Config,
    raw: ConfigFile,
    home: Option<Seq<char>>,
    table: Seq<(Seq<char>, u32)>,
    i: int,
)
    requires
        config::config_from(c, raw, home, table),
    ensures
        match raw.navigation.anchors {
            Some(v) => c.nav_anchors@.len() == v@.len() && (0 <= i < v@.len() ==> {
                &&& c.nav_anchors@[i].0 == v@[i].0
                &&& c.nav_anchors@[i].1 != v@[i].1
                &&& numbers::negated(c.nav_anchors@[i].1) == v@[i].1
            }),
            None => c.nav_anchors@.len() == 1 && c.nav_anchors@[0].0.bits == 0
                && c.nav_anchors@[0].1.bits == 0x8000_0000_0000_0000,
        },
{
    assert(c.nav_anchors@ == config::anchors_of(raw.navigation.anchors));
}

/// The names of the settings tell themselves apart.
proof fn lemma_setting_words()
    ensures
        "alt"@.len() == 3,
        "super"@.len() == 5,
        "cursor"@.len() == 6 && "cursor"@[0] == 'c' && "cursor"@[1] == 'u',
        "auto"@.len() == 4 && "auto"@[0] == 'a',
        "center"@.len() == 6 && "center"@[0] == 'c' && "center"@[1] == 'e',
        "left"@.len() == 4 && "left"@[0] == 'l',
        "flat"@.len() == 4 && "flat"@[0] == 'f',
        "adaptive"@.len() == 8,
        "none"@.len() == 4 && "none"@[0] == 'n',
        "shader"@.len() == 6 && "shader"@[0] == 's' && "shader"@[1] == 'h',
        "tile"@.len() == 4 && "tile"@[0] == 't',
        "wallpaper"@.len() == 9,
        "default"@.len() == 7 && "default"@[0] == 'd',
        "client"@.len() == 6 && "client"@[0] == 'c' && "client"@[1] == 'l',
        "minimal"@.len() == 7 && "minimal"@[0] == 'm',
        "server"@.len() == 6 && "server"@[0] == 's' && "server"@[1] == 'e',
{
    reveal_strlit("alt");
    reveal_strlit("super");
    reveal_strlit("cursor");
    reveal_strlit("auto");
    reveal_strlit("center");
    reveal_strlit("left");
    reveal_strlit("flat");
    reveal_strlit("adaptive");
    reveal_strlit("none");
    reveal_strlit("shader");
    reveal_strlit("tile");
    reveal_strlit("wallpaper");
    reveal_strlit("default");
    reveal_strlit("client");
    reveal_strlit("minimal");
    reveal_strlit("server");
}

// ── Names ────────────────────────────────────────────────────────────

/// The name that a placement is written with.
pub open spec fn placement_name(p: WindowPlacement) -> Seq<char> {
    match p {
        WindowPlacement::Center => "center"@,
        WindowPlacement::Cursor => "cursor"@,
        WindowPlacement::Auto => "auto"@,
    }
}

/// The name that a profile is written with.
pub open spec fn profile_name(p: AccelProfile) -> Seq<char> {
    match p {
        AccelProfile::Flat => "flat"@,
        AccelProfile::Adaptive => "adaptive"@,
    }
}

/// The name that a mode of decoration is written with.
pub open spec fn mode_name(m: DecorationMode) -> Seq<char> {
    match m {
        DecorationMode::Client => "client"@,
        DecorationMode::Server => "server"@,
        DecorationMode::Minimal => "minimal"@,
        DecorationMode::Bare => "none"@,
    }
}

/// A choice that is written by its name is the one that is used, without a
/// warning; the mode `server` alone cannot be the default one.
pub proof fn lemma_choices_go_by_their_names(
    s: String,
    k: ModKey,
    place: WindowPlacement,
    profile: AccelProfile,
    other: AccelProfile,
    mode: DecorationMode,
    before: Seq<char>,
    after: Seq<char>,
)
    ensures
        s@ == "alt"@ ==> settings::mod_key_of(Some(s)) == ModKey::Alt,
        s@ == "super"@ ==> settings::mod_key_of(Some(s)) == ModKey::Super,
        settings::mod_key_warning(Some(s)).len() == (if s@ == "alt"@ || s@ == "super"@ {
            0nat
        } else {
            1
        }),
        s@ == placement_name(place) ==> settings::placement_of(Some(s)) == place
            && settings::placement_warning(Some(s)).len() == 0,
        s@ == profile_name(profile) ==> settings::profile_of(Some(s), other) == profile
            && settings::profile_warning(Some(s), before, after).len() == 0,
        s@ == mode_name(mode) && mode != DecorationMode::Server
            ==> decoration::default_mode_of(Some(s)) == mode && decoration::default_mode_warning(
            Some(s),
        ).len() == 0,
        s@ == "server"@ ==> decoration::default_mode_warning(Some(s)).len() == 1,
        s@ == "left"@ ==> decoration::title_align_of(Some(s)) == TitleAlign::Left
            && decoration::title_align_warning(Some(s)).len() == 0,
        s@ == "center"@ ==> decoration::title_align_of(Some(s)) == TitleAlign::Center
            && decoration::title_align_warning(Some(s)).len() == 0,
{
    lemma_setting_words();
}

/// A choice that is not written by a name, or not at all, is the default one;
/// what is written is warned of.
pub proof fn lemma_other_choices_are_the_default(
    s: String,
    profile: AccelProfile,
    before: Seq<char>,
    after: Seq<char>,
)
    ensures
        settings::mod_key_of(None) == ModKey::Super && settings::mod_key_warning(None).len() == 0,
        s@ != "alt"@ ==> settings::mod_key_of(Some(s)) == ModKey::Super,
        settings::placement_of(None) == WindowPlacement::Center
            && settings::placement_warning(None).len() == 0,
        (forall|p: WindowPlacement| s@ != #[trigger] placement_name(p)) ==> settings::placement_of(
            Some(s),
        ) == WindowPlacement::Center && settings::placement_warning(Some(s)).len() == 1,
        settings::profile_of(None, profile) == profile && settings::profile_warning(
            None,
            before,
            after,
        ).len() == 0,
        (forall|p: AccelProfile| s@ != #[trigger] profile_name(p)) ==> settings::profile_of(
            Some(s),
            profile,
        ) == profile && settings::profile_warning(Some(s), before, after).len() == 1,
        decoration::default_mode_of(None) == DecorationMode::Client
            && decoration::default_mode_warning(None).len() == 0,
        (forall|m: DecorationMode| m != DecorationMode::Server ==> s@ != #[trigger] mode_name(m))
            ==> decoration::default_mode_of(Some(s)) == DecorationMode::Client
            && decoration::default_mode_warning(Some(s)).len() == 1,
        decoration::title_align_of(None) == TitleAlign::Center && decoration::title_align_warning(
            None,
        ).len() == 0,
        s@ != "left"@ ==> decoration::title_align_of(Some(s)) == TitleAlign::Center,
        s@ != "left"@ && s@ != "center"@ ==> decoration::title_align_warning(Some(s)).len() == 1,
{
    assert(placement_name(WindowPlacement::Center) == "center"@);
    assert(placement_name(WindowPlacement::Cursor) == "cursor"@);
    assert(placement_name(WindowPlacement::Auto) == "auto"@);
    assert(profile_name(AccelProfile::Flat) == "flat"@);
    assert(profile_name(AccelProfile::Adaptive) == "adaptive"@);
    assert(mode_name(DecorationMode::Client) == "client"@);
    assert(mode_name(DecorationMode::Minimal) == "minimal"@);
    assert(mode_name(DecorationMode::Bare) == "none"@);
}

/// The devices of a configuration have the profiles that are written for them;
/// by default a trackpad is adaptive and a mouse is flat. `none` is the same as
/// nothing for the method of clicking, the output of a touch screen and the
/// theme of the cursor.
pub proof fn lemma_devices(
    c: Config,
    raw: ConfigFile,
    home: Option<Seq<char>>,
    table: Seq<(Seq<char>, u32)>,
)
    requires
        config::config_from(c, raw, home, table),
    ensures
        ({
            let (t, m) = (raw.input.trackpad.accel_profile, raw.input.mouse.accel_profile);
            &&& c.trackpad.accel_profile == (if t is Some && t->0@ == "flat"@ {
                AccelProfile::Flat
            } else {
                AccelProfile::Adaptive
            })
            &&& c.mouse_device.accel_profile == (if m is Some && m->0@ == "adaptive"@ {
                AccelProfile::Adaptive
            } else {
                AccelProfile::Flat
            })
        }),
        ({
            let given = |o: Option<String>, r: Option<String>|
                match r {
                    Some(v) => o is Some && o->0@ == v@ && v@ != "none"@,
                    None => o is Some ==> o->0@ == "none"@,
                };
            &&& given(raw.input.trackpad.click_method, c.trackpad.click_method)
            &&& given(raw.input.touch.map_to_output, c.touch.map_to_output)
            &&& given(raw.cursor.theme, c.cursor_theme)
        }),
        ({
            let (k, l) = (raw.input.keyboard, c.keyboard_layout);
            let given = |o: Option<String>, default: Seq<char>, r: Seq<char>|
                r == (match o {
                    Some(s) => s@,
                    None => default,
                });
            &&& given(k.layout, "us"@, l.layout@)
            &&& given(k.variant, ""@, l.variant@)
            &&& given(k.options, ""@, l.options@)
            &&& given(k.model, ""@, l.model@)
        }),
{
    lemma_setting_words();
    assert(c.trackpad@.accel_profile == c.trackpad.accel_profile);
    assert(c.trackpad@.click_method == types::opt_text(c.trackpad.click_method));
    assert(c.touch@.map_to_output == types::opt_text(c.touch.map_to_output));
    assert(c.keyboard_layout@.layout == c.keyboard_layout.layout@);
    assert(c.keyboard_layout@.variant == c.keyboard_layout.variant@);
    assert(c.keyboard_layout@.options == c.keyboard_layout.options@);
    assert(c.keyboard_layout@.model == c.keyboard_layout.model@);
}

// ── Paths ────────────────────────────────────────────────────────────

/// A path that begins with `~/` goes on from the home directory, and any other
/// path, or one without a home directory to go by, is left as it is.
pub proof fn lemma_tilde_is_the_home(rest: Seq<char>, path: Seq<char>, home: Seq<char>)
    ensures
        settings::expanded(seq!['~', '/'] + rest, Some(home)) == home + seq!['/'] + rest,
        settings::expanded(path, None) == path,
        !(path.len() >= 2 && path.take(2) == seq!['~', '/']) ==> settings::expanded(
            path,
            Some(home),
        ) == path,
{
    reveal_strlit("/");
    let p = seq!['~', '/'] + rest;
    assert(p.skip(2) == rest);
    assert("/"@ == seq!['/']);
    if path.len() >= 2 && path[0] == '~' && path[1] == '/' {
        assert(path.take(2) == seq!['~', '/']);
    }
}

/// A path that is given is used, whatever the directories are; otherwise the
/// configuration is in the directory for configurations, or in `.config` of the
/// home directory, or of the current one. There is one slash between a directory
/// and what is in it.
pub proof fn lemma_where_the_configuration_is(
    p: Seq<char>,
    config_home: Option<Seq<char>>,
    home: Option<Seq<char>>,
    dir: Seq<char>,
    h: Seq<char>,
)
    ensures
        settings::config_path_of(Some(p), config_home, home) == settings::expanded(p, home),
        dir.len() > 0 && dir.last() != '/' ==> settings::config_path_of(None, Some(dir), home)
            == dir + "/driftwm/config.toml"@,
        settings::config_path_of(None, Some(dir.push('/')), home) == dir
            + "/driftwm/config.toml"@,
        settings::config_path_of(None, None, Some(h)) == h + "/.config/driftwm/config.toml"@,
        settings::config_path_of(None, None, None) == "./.config/driftwm/config.toml"@,
{
    reveal_strlit("/driftwm/config.toml");
    reveal_strlit("driftwm/config.toml");
    reveal_strlit("/.config/driftwm/config.toml");
    reveal_strlit("./.config/driftwm/config.toml");
    reveal_strlit("/.config");
    reveal_strlit(".");
    reveal_strlit("/");
    assert("/"@ + "driftwm/config.toml"@ == "/driftwm/config.toml"@);
    assert(dir + "/"@ + "driftwm/config.toml"@ == dir + "/driftwm/config.toml"@);
    assert(dir.push('/') + "driftwm/config.toml"@ == dir + "/driftwm/config.toml"@);
    assert(h + "/.config"@ + "/"@ + "driftwm/config.toml"@ == h
        + "/.config/driftwm/config.toml"@);
    assert("."@ + "/.config"@ + "/"@ + "driftwm/config.toml"@
        == "./.config/driftwm/config.toml"@);
}

/// A background is of the kind that is written, from the file that is written
/// for it; the built-in one stands in where there is no kind, an unknown kind, or
/// no file for a kind that needs one, with a warning in the latter two cases.
pub proof fn lemma_backgrounds(b: BackgroundFileConfig, home: Option<Seq<char>>)
    ensures
        ({
            let r = settings::background_of(b, home);
            let said = settings::background_warning(b).len();
            match b.kind {
                None => r == BackgroundKindOf::<Seq<char>>::BuiltIn && said == 0,
                Some(k) => {
                    let needs = k@ == "shader"@ || k@ == "tile"@ || k@ == "wallpaper"@;
                    &&& k@ == "default"@ ==> r == BackgroundKindOf::<Seq<char>>::BuiltIn && said
                        == 0
                    &&& k@ == "none"@ ==> r == BackgroundKindOf::<Seq<char>>::Empty && said == 0
                    &&& needs && b.path is Some ==> said == 0
                    &&& k@ == "shader"@ && b.path is Some ==> match r {
                        BackgroundKindOf::Shader { path, texture } => {
                            &&& path == settings::expanded(b.path->0@, home)
                            &&& texture is Some == b.texture is Some
                            &&& texture is Some ==> texture->0 == settings::expanded(
                                b.texture->0@,
                                home,
                            )
                        },
                        _ => false,
                    }
                    &&& k@ == "tile"@ && b.path is Some ==> r == BackgroundKindOf::Tile(
                        settings::expanded(b.path->0@, home),
                    )
                    &&& k@ == "wallpaper"@ && b.path is Some ==> r == BackgroundKindOf::Wallpaper(
                        settings::expanded(b.path->0@, home),
                    )
                    &&& needs && b.path is None ==> r == BackgroundKindOf::<Seq<char>>::BuiltIn
                        && said == 1
                    &&& !needs && k@ != "default"@ && k@ != "none"@ ==> r == BackgroundKindOf::<
                        Seq<char>,
                    >::BuiltIn && said == 1
                },
            }
        }),
{
    lemma_setting_words();
}

// ── Colors ───────────────────────────────────────────────────────────

/// A digit of a color, in small letters or capitals.
pub open spec fn hex_char(n: int, capital: bool) -> char {
    if n < 10 {
        ((('0' as int) + n) as char)
    } else if capital {
        ((('A' as int) + n - 10) as char)
    } else {
        ((('a' as int) + n - 10) as char)
    }
}

/// The two digits of a part of a color, the high one first.
pub open spec fn hex_pair(v: u8, capital: bool) -> Seq<char> {
    seq![hex_char((v / 16) as int, capital), hex_char((v % 16) as int, capital)]
}

proof fn lemma_hex_pair(v: u8, capital: bool)
    ensures
        colors::hex_byte(hex_pair(v, capital)[0], hex_pair(v, capital)[1]) == Some(v),
{
    assert(v == 16 * (v / 16) + v % 16);
}

/// A color that is written as red, green and blue, and after those how opaque it
/// is, is read back, in small letters or capitals; one without the last part is
/// opaque. A text without the leading mark, or of another length, is no color.
pub proof fn lemma_written_color_reads_back(c: Rgba, capital: bool, s: Seq<char>)
    ensures
        ({
            let rgb = seq!['#'] + hex_pair(c.r, capital) + hex_pair(c.g, capital) + hex_pair(
                c.b,
                capital,
            );
            &&& colors::color_of(rgb + hex_pair(c.a, capital)) == Some(c)
            &&& colors::color_of(rgb) == Some(Rgba { r: c.r, g: c.g, b: c.b, a: 255 })
        }),
        s.len() != 7 && s.len() != 9 ==> colors::color_of(s) is None,
        s.len() > 0 && s[0] != '#' ==> colors::color_of(s) is None,
{
    lemma_hex_pair(c.r, capital);
    lemma_hex_pair(c.g, capital);
    lemma_hex_pair(c.b, capital);
    lemma_hex_pair(c.a, capital);
}

/// A letter past `f`, or a sign that is no digit, spoils a color at its place.
pub proof fn lemma_color_needs_digits(s: Seq<char>, i: int)
    requires
        0 < i < s.len(),
        !('0' <= s[i] && s[i] <= '9'),
        !('a' <= s[i] && s[i] <= 'f'),
        !('A' <= s[i] && s[i] <= 'F'),
        s[i] != '+',
    ensures
        colors::color_of(s) is None,
{
    if s.len() == 7 || s.len() == 9 {
        assert(i == 1 || i == 2 || i == 3 || i == 4 || i == 5 || i == 6 || i == 7 || i == 8);
    }
}

// ── Decorations ──────────────────────────────────────────────────────

/// Is `r` the color that is written, or the default where there is none that can
/// be read?
pub open spec fn color_given(o: Option<String>, default: Rgba, r: Rgba) -> bool {
    match o {
        Some(s) => match colors::color_of(s@) {
            Some(c) => r == c,
            None => r == default,
        },
        None => r == default,
    }
}

/// Each part of the decorations is the one that is written for it, or its
/// default; sizes are held to their range.
pub proof fn lemma_decorations(d: DecorationFileConfig)
    ensures
        ({
            let r = decoration::decorations_of(d);
            let gray = |n: u8| Rgba { r: n, g: n, b: n, a: 0xff };
            let least = |o: Option<i32>, default: int, min: int|
                match o {
                    Some(n) => if n < min {
                        min
                    } else {
                        n as int
                    },
                    None => default,
                };
            &&& color_given(d.bg_color, gray(0x30), r.bg_color)
            &&& color_given(d.fg_color, gray(0xff), r.fg_color)
            &&& color_given(d.border_color, gray(0x44), r.border_color)
            &&& color_given(d.border_color_focused, gray(0x88), r.border_color_focused)
            &&& r.corner_radius == least(d.corner_radius, 10, 0)
            &&& r.border_width == least(d.border_width, 0, 0)
            &&& r.title_bar_height == least(d.title_bar_height, 25, 1)
            &&& on_unless_off(d.shadow, r.shadow)
            &&& r.font == (match d.font {
                Some(s) => s@,
                None => "sans-serif"@,
            })
            &&& r.font_size == (match d.font_size {
                Some(n) => if n == 0 {
                    1
                } else {
                    n as int
                },
                None => 11,
            })
        }),
{
}

/// Each part of the outline is the one that is written for it, or its default.
pub proof fn lemma_outline(o: OutputOutlineConfig)
    ensures
        ({
            let r = decoration::outline_of(o);
            &&& color_given(o.color, (Rgba { r: 0xff, g: 0xff, b: 0xff, a: 0xff }), r.color)
            &&& r.thickness == (match o.thickness {
                Some(n) => if n < 0 {
                    0
                } else {
                    n as int
                },
                None => 1,
            })
            &&& between_0_and_1(o.opacity, 0x3fe0_0000_0000_0000, r.opacity)
        }),
        config::outline_of(Some(o)) == decoration::outline_of(o),
        config::outline_of(None).thickness == 1,
        config::outline_of(None).opacity.bits == 0x3fe0_0000_0000_0000,
        config::outline_of(None).color == (Rgba { r: 0xff, g: 0xff, b: 0xff, a: 0xff }),
{
}

/// The names of the weights tell themselves apart.
proof fn lemma_weight_words()
    ensures
        "thin"@.len() == 4 && "thin"@[0] == 't',
        "hairline"@.len() == 8 && "hairline"@[0] == 'h',
        "extralight"@.len() == 10 && "extralight"@[0] == 'e' && "extralight"@[5] == 'l',
        "extra-light"@.len() == 11,
        "ultralight"@.len() == 10 && "ultralight"@[0] == 'u',
        "light"@.len() == 5 && "light"@[0] == 'l',
        "normal"@.len() == 6 && "normal"@[0] == 'n',
        "regular"@.len() == 7,
        "medium"@.len() == 6 && "medium"@[0] == 'm',
        "semibold"@.len() == 8 && "semibold"@[0] == 's',
        "semi-bold"@.len() == 9 && "semi-bold"@[0] == 's',
        "demibold"@.len() == 8 && "demibold"@[0] == 'd',
        "bold"@.len() == 4 && "bold"@[0] == 'b',
        "extrabold"@.len() == 9 && "extrabold"@[0] == 'e',
        "extra-bold"@.len() == 10 && "extra-bold"@[0] == 'e' && "extra-bold"@[5] == '-',
        "ultrabold"@.len() == 9 && "ultrabold"@[0] == 'u',
        "black"@.len() == 5 && "black"@[0] == 'b',
        "heavy"@.len() == 5 && "heavy"@[0] == 'h',
{
    reveal_strlit("thin");
    reveal_strlit("hairline");
    reveal_strlit("extralight");
    reveal_strlit("extra-light");
    reveal_strlit("ultralight");
    reveal_strlit("light");
    reveal_strlit("normal");
    reveal_strlit("regular");
    reveal_strlit("medium");
    reveal_strlit("semibold");
    reveal_strlit("semi-bold");
    reveal_strlit("demibold");
    reveal_strlit("bold");
    reveal_strlit("extrabold");
    reveal_strlit("extra-bold");
    reveal_strlit("ultrabold");
    reveal_strlit("black");
    reveal_strlit("heavy");
}

/// The name that a weight is written with.
pub open spec fn weight_name(w: FontWeight) -> Seq<char> {
    match w {
        FontWeight::Thin => "thin"@,
        FontWeight::ExtraLight => "extralight"@,
        FontWeight::Light => "light"@,
        FontWeight::Normal => "normal"@,
        FontWeight::Medium => "medium"@,
        FontWeight::SemiBold => "semibold"@,
        FontWeight::Bold => "bold"@,
        FontWeight::ExtraBold => "extrabold"@,
        FontWeight::Black => "black"@,
    }
}

/// Each weight goes by its name and by those that mean the same, and by no
/// other.
pub proof fn lemma_weights_go_by_their_names(w: FontWeight, s: Seq<char>)
    ensures
        decoration::weight_word(weight_name(w)) == Some(w),
        decoration::weight_word("hairline"@) == Some(FontWeight::Thin),
        decoration::weight_word("extra-light"@) == Some(FontWeight::ExtraLight),
        decoration::weight_word("ultralight"@) == Some(FontWeight::ExtraLight),
        decoration::weight_word("regular"@) == Some(FontWeight::Normal),
        decoration::weight_word("semi-bold"@) == Some(FontWeight::SemiBold),
        decoration::weight_word("demibold"@) == Some(FontWeight::SemiBold),
        decoration::weight_word("extra-bold"@) == Some(FontWeight::ExtraBold),
        decoration::weight_word("ultrabold"@) == Some(FontWeight::ExtraBold),
        decoration::weight_word("heavy"@) == Some(FontWeight::Black),
        s.len() < 4 || s.len() > 11 ==> decoration::weight_word(s) is None,
{
    lemma_weight_words();
}

/// The weight of the titles is the one that is named, in any case and with white
/// space around it, or the medium one; a name that is none is warned of.
pub proof fn lemma_title_weight(s: String, w: FontWeight)
    ensures
        text::lowercase(text::trimmed(s@)) == weight_name(w) ==> decoration::font_weight_of(Some(s))
            == w && decoration::font_weight_warning(Some(s)).len() == 0,
        decoration::weight_word(text::lowercase(text::trimmed(s@))) is None
            ==> decoration::font_weight_of(Some(s)) == FontWeight::Medium
            && decoration::font_weight_warning(Some(s)).len() == 1,
        decoration::font_weight_of(None) == FontWeight::Medium,
        decoration::font_weight_warning(None).len() == 0,
{
    lemma_weights_go_by_their_names(w, s@);
}

/// The names of the transforms tell themselves apart.
proof fn lemma_transform_words()
    ensures
        "normal"@.len() == 6,
        "90"@.len() == 2,
        "180"@.len() == 3 && "180"@[0] == '1',
        "270"@.len() == 3 && "270"@[0] == '2',
        "flipped"@.len() == 7,
        "flipped-90"@.len() == 10,
        "flipped-180"@.len() == 11 && "flipped-180"@[8] == '1',
        "flipped-270"@.len() == 11 && "flipped-270"@[8] == '2',
{
    reveal_strlit("normal");
    reveal_strlit("90");
    reveal_strlit("180");
    reveal_strlit("270");
    reveal_strlit("flipped");
    reveal_strlit("flipped-90");
    reveal_strlit("flipped-180");
    reveal_strlit("flipped-270");
}

// ── Outputs ──────────────────────────────────────────────────────────

/// The name that a transform is written with.
pub open spec fn transform_name(t: Transform) -> Seq<char> {
    match t {
        Transform::Normal => "normal"@,
        Transform::Rotated90 => "90"@,
        Transform::Rotated180 => "180"@,
        Transform::Rotated270 => "270"@,
        Transform::Flipped => "flipped"@,
        Transform::Flipped90 => "flipped-90"@,
        Transform::Flipped180 => "flipped-180"@,
        Transform::Flipped270 => "flipped-270"@,
    }
}

/// Each transform goes by its name, and no other text is one.
pub proof fn lemma_transforms_go_by_their_names(t: Transform, s: Seq<char>)
    ensures
        outputs::transform_of(transform_name(t)) == Ok::<Transform, Seq<char>>(t),
        outputs::transform_of(s) matches Ok(u) ==> s == transform_name(u),
{
    lemma_transform_words();
}

/// Coordinates that fit are kept, and others are kept up to multiples of what a
/// coordinate can hold.
pub proof fn lemma_coordinates(n: i64)
    ensures
        i32::MIN <= n <= i32::MAX ==> outputs::low_bits(n) == n,
        (outputs::low_bits(n) - n) % 0x1_0000_0000 == 0,
{
}

/// A position is `auto` or two whole numbers, the horizontal one first, and
/// anything else is an error.
pub proof fn lemma_positions(v: PositionValue)
    ensures
        match outputs::output_position_of(v) {
            Ok(OutputPosition::Auto) => v matches PositionValue::Text(s) && s@ == "auto"@,
            Ok(OutputPosition::Fixed(x, y)) => v matches PositionValue::Array(a) && a@.len() == 2
                && a@[0] is Some && a@[1] is Some && x == outputs::low_bits(a@[0]->0) && y
                == outputs::low_bits(a@[1]->0),
            Err(_) => match v {
                PositionValue::Text(s) => s@ != "auto"@,
                PositionValue::Array(a) => a@.len() != 2 || a@[0] is None || a@[1] is None,
                PositionValue::Other => true,
            },
        },
{
}

/// An output is taken as it is written where each of its parts can be read, with
/// no transform, an automatic position and the preferred mode where nothing is
/// written; a scale of zero or less is an error.
pub proof fn lemma_output_of_an_entry(r: OutputRuleFile)
    ensures
        match outputs::output_rule_of(r) {
            Ok(c) => {
                &&& c.name == r.name@
                &&& match r.scale {
                    Some(n) => c.scale == Some(n.value) && n.value.bits != 0 && !(
                    0x8000_0000_0000_0000 <= n.value.bits <= 0xfff0_0000_0000_0000),
                    None => c.scale is None,
                }
                &&& match r.transform {
                    Some(s) => c.transform is Some && s@ == transform_name(c.transform->0),
                    None => c.transform is None,
                }
                &&& match r.position {
                    Some(v) => outputs::output_position_of(v) == Ok::<_, Seq<char>>(c.position),
                    None => c.position == OutputPosition::Auto,
                }
                &&& match r.mode {
                    Some(s) => outputs::output_mode_of(s@) == Ok::<_, Seq<char>>(c.mode),
                    None => c.mode == OutputMode::Preferred,
                }
            },
            Err(_) => {
                ||| r.scale is Some && (r.scale->0.value.bits == 0 || 0x8000_0000_0000_0000
                    <= r.scale->0.value.bits <= 0xfff0_0000_0000_0000)
                ||| r.transform is Some && outputs::transform_of(r.transform->0@) is Err
                ||| r.position is Some && outputs::output_position_of(r.position->0) is Err
                ||| r.mode is Some && outputs::output_mode_of(r.mode->0@) is Err
            },
        },
{
    if let Some(s) = r.transform {
        lemma_transforms_go_by_their_names(Transform::Normal, s@);
    }
}

/// The first usable entry for each name is kept, in the order of the entries.
pub proof fn lemma_first_output_of_a_name_is_kept(
    w: Seq<(Severity, Seq<char>)>,
    entries: Seq<OutputRuleFile>,
    i: int,
)
    requires
        0 <= i < entries.len(),
        outputs::output_rule_of(entries[i]) is Ok,
        forall|j: int|
            0 <= j < i && outputs::output_rule_of(#[trigger] entries[j]) is Ok
                ==> outputs::output_rule_of(entries[j])->Ok_0.name != outputs::output_rule_of(
                entries[i],
            )->Ok_0.name,
    ensures
        settings::outputs_after(w, entries).0.contains(outputs::output_rule_of(entries[i])->Ok_0),
    decreases entries.len(),
{
    let rest = entries.drop_last();
    let c = outputs::output_rule_of(entries[i])->Ok_0;
    let before = settings::outputs_after(w, rest).0;
    if i == entries.len() - 1 {
        lemma_outputs_come_from_entries(w, rest);
        assert(!settings::has_output(before, c.name)) by {
            if settings::has_output(before, c.name) {
                let k = choose|k: int|
                    0 <= k < before.len() && (#[trigger] before[k]).name == c.name;
                let j = choose|j: int|
                    0 <= j < rest.len() && outputs::output_rule_of(#[trigger] rest[j])
                        == Ok::<_, Seq<char>>(before[k]);
                assert(entries[j] == rest[j]);
            }
        }
        let after = settings::outputs_after(w, entries).0;
        assert(after == before.push(c));
        assert(after[before.len() as int] == c);
    } else {
        assert(rest[i] == entries[i]);
        assert forall|j: int|
            0 <= j < i && outputs::output_rule_of(#[trigger] rest[j]) is Ok implies
            outputs::output_rule_of(rest[j])->Ok_0.name != c.name by {
            assert(rest[j] == entries[j]);
        }
        lemma_first_output_of_a_name_is_kept(w, rest, i);
        let k = choose|k: int| 0 <= k < before.len() && before[k] == c;
        let after = settings::outputs_after(w, entries).0;
        assert(after[k] == c);
    }
}

/// Every output comes from an entry that can be used.
pub proof fn lemma_outputs_come_from_entries(
    w: Seq<(Severity, Seq<char>)>,
    entries: Seq<OutputRuleFile>,
)
    ensures
        forall|k: int|
            0 <= k < settings::outputs_after(w, entries).0.len() ==> exists|j: int|
                0 <= j < entries.len() && outputs::output_rule_of(#[trigger] entries[j]) == Ok::<
                    _,
                    Seq<char>,
                >((#[trigger] settings::outputs_after(w, entries).0[k])),
    decreases entries.len(),
{
    if entries.len() > 0 {
        let rest = entries.drop_last();
        lemma_outputs_come_from_entries(w, rest);
        let (before, after) = (
            settings::outputs_after(w, rest).0,
            settings::outputs_after(w, entries).0,
        );
        assert forall|k: int| 0 <= k < after.len() implies exists|j: int|
            0 <= j < entries.len() && outputs::output_rule_of(#[trigger] entries[j]) == Ok::<
                _,
                Seq<char>,
            >((#[trigger] after[k])) by {
            if k < before.len() {
                let j = choose|j: int|
                    0 <= j < rest.len() && outputs::output_rule_of(#[trigger] rest[j]) == Ok::<
                        _,
                        Seq<char>,
                    >(before[k]);
                assert(entries[j] == rest[j]);
                assert(after[k] == before[k]);
            } else {
                assert(entries[entries.len() - 1] == entries.last());
            }
        }
    }
}

// ── Rules ────────────────────────────────────────────────────────────

/// How many of the first entries are rules.
pub open spec fn rules_among(
    entries: Seq<WindowRuleFile>,
    n: int,
    mod_key: ModKey,
    table: Seq<(Seq<char>, u32)>,
) -> nat
    decreases n,
{
    if n <= 0 {
        0
    } else {
        rules_among(entries, n - 1, mod_key, table) + (if window_rules::window_rule_of(
            entries[n - 1],
            mod_key,
            table,
        ) is Some {
            1nat
        } else {
            0
        })
    }
}

proof fn lemma_rules_among_prefix(
    a: Seq<WindowRuleFile>,
    b: Seq<WindowRuleFile>,
    n: int,
    mod_key: ModKey,
    table: Seq<(Seq<char>, u32)>,
)
    requires
        n <= a.len(),
        n <= b.len(),
        forall|j: int| 0 <= j < n ==> a[j] == b[j],
    ensures
        rules_among(a, n, mod_key, table) == rules_among(b, n, mod_key, table),
    decreases n,
{
    if n > 0 {
        lemma_rules_among_prefix(a, b, n - 1, mod_key, table);
    }
}

/// Each entry that is a rule is kept, in the order of the entries, and there are
/// no others.
pub proof fn lemma_rules_keep_their_order(
    w: Seq<(Severity, Seq<char>)>,
    entries: Seq<WindowRuleFile>,
    mod_key: ModKey,
    table: Seq<(Seq<char>, u32)>,
    i: int,
)
    ensures
        ({
            let rules = settings::rules_after(w, entries, mod_key, table).0;
            &&& rules.len() == rules_among(entries, entries.len() as int, mod_key, table)
            &&& 0 <= i < entries.len() ==> match window_rules::window_rule_of(
                entries[i],
                mod_key,
                table,
            ) {
                Some(r) => rules_among(entries, i, mod_key, table) < rules.len() && rules[
                    rules_among(entries, i, mod_key, table) as int
                ] == r,
                None => true,
            }
        }),
    decreases entries.len(),
{
    if entries.len() > 0 {
        let rest = entries.drop_last();
        lemma_rules_keep_their_order(w, rest, mod_key, table, i);
        lemma_rules_among_prefix(rest, entries, rest.len() as int, mod_key, table);
        if 0 <= i < rest.len() {
            assert(rest[i] == entries[i]);
            lemma_rules_among_prefix(rest, entries, i, mod_key, table);
        }
    }
}

// ── Environment ──────────────────────────────────────────────────────

/// The names of the variables tell themselves apart.
proof fn lemma_variable_words()
    ensures
        "MOZ_ENABLE_WAYLAND"@.len() == 18,
        "QT_QPA_PLATFORM"@.len() == 15 && "QT_QPA_PLATFORM"@[0] == 'Q',
        "SDL_VIDEODRIVER"@.len() == 15 && "SDL_VIDEODRIVER"@[0] == 'S',
        "GDK_BACKEND"@.len() == 11,
        "ELECTRON_OZONE_PLATFORM_HINT"@.len() == 28,
        "XCURSOR_THEME"@.len() == 13,
        "XCURSOR_SIZE"@.len() == 12,
{
    reveal_strlit("MOZ_ENABLE_WAYLAND");
    reveal_strlit("QT_QPA_PLATFORM");
    reveal_strlit("SDL_VIDEODRIVER");
    reveal_strlit("GDK_BACKEND");
    reveal_strlit("ELECTRON_OZONE_PLATFORM_HINT");
    reveal_strlit("XCURSOR_THEME");
    reveal_strlit("XCURSOR_SIZE");
}

/// What a variable is before the file has its say.
pub open spec fn variable_default(raw: ConfigFile, name: Seq<char>) -> Option<Seq<char>> {
    if name == "MOZ_ENABLE_WAYLAND"@ {
        Some("1"@)
    } else if name == "QT_QPA_PLATFORM"@ {
        Some("wayland;xcb"@)
    } else if name == "SDL_VIDEODRIVER"@ {
        Some("wayland,x11"@)
    } else if name == "GDK_BACKEND"@ {
        Some("wayland,x11"@)
    } else if name == "ELECTRON_OZONE_PLATFORM_HINT"@ {
        Some("wayland"@)
    } else if name == "XCURSOR_THEME"@ && raw.cursor.theme is Some && raw.cursor.theme->0@
        != "none"@ {
        Some(raw.cursor.theme->0@)
    } else if name == "XCURSOR_SIZE"@ && raw.cursor.size is Some && raw.cursor.size->0 > 0 {
        Some(text::int_text(raw.cursor.size->0 as int))
    } else {
        None
    }
}

/// A variable of a program that is started is the last one that the file sets
/// for its name, and otherwise the one that the toolkits or the cursor ask for.
pub proof fn lemma_environment(raw: ConfigFile, name: Seq<char>, i: int)
    requires
        -1 <= i < raw.env@.len(),
        forall|j: int| i < j < raw.env@.len() ==> (#[trigger] raw.env@[j]).0@ != name,
        i >= 0 ==> raw.env@[i].0@ == name,
    ensures
        bindings::bound(settings::child_env_of(raw), name) == (if i >= 0 {
            Some(raw.env@[i].1@)
        } else {
            variable_default(raw, name)
        }),
{
    lemma_variable_words();
    let base = settings::toolkit_defaults();
    let theme = settings::unless_none(raw.cursor.theme);
    let themed = settings::with_var(base, "XCURSOR_THEME"@, theme);
    let size = match settings::cursor_size_of(raw.cursor.size) {
        Some(n) => Some(text::int_text(n as int)),
        None => None,
    };
    let sized = settings::with_var(themed, "XCURSOR_SIZE"@, size);
    assert(bindings::distinct(base)) by {
        assert forall|a: int, b: int| 0 <= a < b < base.len() implies base[a].0 != base[b].0 by {
            assert(b == 1 || b == 2 || b == 3 || b == 4);
            assert(a == 0 || a == 1 || a == 2 || a == 3);
        }
    }
    bindings::lemma_index_of(base, name, 0);
    let k = bindings::index_of(base, name, 0);
    assert(base.len() == 5);
    assert(bindings::bound(base, name) == (if name == "XCURSOR_THEME"@ || name
        == "XCURSOR_SIZE"@ {
        None
    } else {
        variable_default(raw, name)
    })) by {
        assert(k == 0 || k == 1 || k == 2 || k == 3 || k == 4 || k == 5);
        assert(base[0].0 == "MOZ_ENABLE_WAYLAND"@ && base[1].0 == "QT_QPA_PLATFORM"@
            && base[2].0 == "SDL_VIDEODRIVER"@ && base[3].0 == "GDK_BACKEND"@ && base[4].0
            == "ELECTRON_OZONE_PLATFORM_HINT"@);
    }
    if let Some(t) = theme {
        bindings::lemma_bound_after_bind(base, "XCURSOR_THEME"@, t, name);
    }
    if let Some(n) = size {
        bindings::lemma_bound_after_bind(themed, "XCURSOR_SIZE"@, n, name);
    }
    let list = merge::table_views(raw.env@);
    assert forall|j: int| i < j < list.len() implies (#[trigger] list[j]).0 != name by {
        assert(raw.env@[j].0@ != name);
    }
    bindings::lemma_bound_after_list(sized, list, name, i);
}

} // verus!
