//! Configuration: the binding grammar, the processed settings and the rules
//! that turn a parsed file into them.
use vstd::prelude::*;

pub mod binding_laws;
pub mod bindings;
pub mod colors;
pub mod decoration;
pub mod default_laws;
pub mod defaults;
pub mod grammar_laws;
pub mod laws;
pub mod merge;
pub mod numbers;
pub mod outputs;
pub mod parse;
pub mod patterns;
pub mod raw;
pub mod rule_laws;
pub mod setting_laws;
pub mod settings;
pub mod types;
pub mod warning_laws;
pub mod warnings;
pub mod window_rules;

pub use crate::config::bindings::{BindingContext, BindingMap, ContextBindings, ContextOf};
pub use crate::config::decoration::{
    BackendConfig, DecorationConfig, DecorationMode, EffectsConfig, FontWeight,
    OutputOutlineSettings, TitleAlign,
};
pub use crate::config::numbers::{Number, Real};
pub use crate::config::outputs::{OutputConfig, OutputMode, OutputPosition, Transform};
pub use crate::config::parse::{
    parse_action, parse_direction, parse_gesture_binding, parse_gesture_config_entry,
    parse_gesture_trigger, parse_key_combo, parse_mouse_action, parse_mouse_binding,
    parse_tap_combo, KeysymTable,
};
pub use crate::config::raw::ConfigFile;
pub use crate::config::settings::{
    config_path, expand_tilde, BackgroundConfig, BackgroundKind, GestureThresholds,
    KeyboardLayout, MouseDeviceSettings, TouchSettings, TrackpadSettings, WindowPlacement,
};
pub use crate::config::types::{
    Action, ContinuousAction, Direction, GestureBinding, GestureConfigEntry, GestureTrigger,
    KeyCombo, Keysym, LayoutSwitch, ModKey, Modifiers, ModifiersState, MouseAction, MouseBinding,
    MouseTrigger, ThresholdAction,
};
pub use crate::config::window_rules::{AppliedWindowRule, PassKeys, WindowRule};

use crate::config::decoration::{
    parse_backend_config, parse_decoration_config, parse_effects_config, parse_output_outline,
    OutputOutlineConfig,
};
use crate::config::defaults::{
    default_bindings, default_gesture_bindings, default_mouse_bindings, default_touch_bindings,
};
use crate::config::merge::{
    cycle_hold, merge_gesture, merge_keys, merge_mouse, merge_touch, parse_disabled,
    warn_conflicts, DisabledDefaults,
};
use crate::config::raw::Table;
use crate::config::settings::{
    build_child_env, drop_none, parse_animation_speed, parse_background, parse_keyboard_layout,
    parse_limits, parse_mod_key, parse_mouse_device, parse_outputs, parse_placement, parse_rules,
    parse_speeds, parse_thresholds, parse_touch, parse_trackpad, warn_renamed, find_output, Limits,
    Speeds,
};
use crate::config::types::{ActionOf, GestureConfigEntryOf, MouseActionOf};
use crate::config::warnings::{sorted_messages, Severity, Warnings};
use crate::config::window_rules::{find_positioned, find_rule, merge_rules, WindowRuleOf};
use crate::text;

verus! {

/// The processed configuration.
#[derive(Debug, PartialEq)]
pub struct Config {
    pub mod_key: ModKey,
    pub focus_follows_mouse: bool,
    /// Multiplier for trackpad scroll and gesture pan deltas. 1.0 = raw trackpad.
    pub trackpad_speed: Real,
    /// Multiplier for mouse drag pan (Mod+LMB or LMB on canvas). 1.0 = direct.
    pub mouse_speed: Real,
    /// Multiplier for touchscreen pan gestures.
    pub touch_speed: Real,
    /// Scroll momentum on a 0–1 scale: 0 = off, 0.5 = default, 1 = floatiest.
    pub drift: Real,
    /// Pixels per keyboard nudge (Mod+Shift+Arrow).
    pub nudge_step: i32,
    /// Pixels per keyboard pan (Mod+Ctrl+Arrow).
    pub pan_step: Real,
    /// Keyboard repeat delay (ms) and rate (keys/sec).
    pub repeat_delay: i32,
    pub repeat_rate: i32,
    /// Edge auto-pan: activation zone width in pixels from viewport edge.
    pub edge_zone: Real,
    /// Edge auto-pan: speed range (px/frame). Quadratic ramp from min to max.
    pub edge_pan_min: Real,
    pub edge_pan_max: Real,
    /// Pan the viewport when the bare cursor touches a screen edge.
    pub edge_pan_cursor: bool,
    /// Cursor edge-pan activation zone, px from the edge.
    pub edge_pan_cursor_zone: Real,
    /// Base lerp factor for camera animation, in (0, 1]. Lower = smoother;
    /// 1 = instant; 0 would freeze the camera.
    pub animation_speed: Real,
    /// On close, pan the camera to the newly focused window. When false, focus
    /// only moves to an already-visible window.
    pub auto_navigate_on_close: bool,
    /// Modifiers held during window cycling, derived from the
    /// `cycle-windows forward` binding. Releasing them commits the selection.
    pub cycle_hold: Modifiers,
    /// Zoom step multiplier per keypress. 1.1 = 10% per press.
    pub zoom_step: Real,
    /// Touchscreen gesture zoom speed multiplier.
    pub zoom_touch_speed: Real,
    /// Padding (screen pixels) around the bounding box for zoom-to-fit.
    pub zoom_fit_padding: Real,
    /// Animate zoom back to 1.0 when a new window is mapped.
    pub zoom_reset_on_new_window: bool,
    /// Animate zoom back to 1.0 when an off-screen window requests activation.
    pub zoom_reset_on_activation: bool,
    pub snap_enabled: bool,
    pub snap_gap: Real,
    pub snap_distance: Real,
    pub snap_break_force: Real,
    pub snap_corners: bool,
    pub snap_centers: bool,
    pub background: BackgroundConfig,
    pub trackpad: TrackpadSettings,
    pub mouse_device: MouseDeviceSettings,
    pub touch: TouchSettings,
    pub gesture_thresholds: GestureThresholds,
    pub layout_independent: bool,
    pub keyboard_layout: KeyboardLayout,
    /// Restore each window's last-used keyboard layout when it regains focus.
    pub remember_layout_per_window: bool,
    pub autostart: Vec<String>,
    pub cursor_theme: Option<String>,
    pub cursor_size: Option<u32>,
    /// Cursor opacity on non-active outputs (0.0 = hidden, 1.0 = full).
    pub inactive_cursor_opacity: Real,
    pub decorations: DecorationConfig,
    pub output_outline: OutputOutlineSettings,
    pub nav_anchors: Vec<(Real, Real)>,
    pub backend: BackendConfig,
    pub effects: EffectsConfig,
    pub window_rules: Vec<WindowRule>,
    pub xwayland_enabled: bool,
    pub xwayland_path: String,
    pub window_placement: WindowPlacement,
    pub env: Table,
    /// Environment of child processes. Layers (later wins): toolkit defaults,
    /// `XCURSOR_*`, user `[env]`.
    pub child_env: Table,
    pub output_configs: Vec<OutputConfig>,
    pub bindings: BindingMap<KeyCombo, Action>,
    /// Tap-modifier bindings: a bare modifier chord (`alt+shift`) that fires
    /// its action when the chord is pressed and released with no other key on
    /// top. Keyed by the exact modifier set.
    pub tap_bindings: BindingMap<Modifiers, Action>,
    pub mouse: ContextBindings<MouseBinding, MouseAction>,
    /// Dragging a window's edge or corner resizes it via the invisible resize
    /// border.
    pub resize_on_border: bool,
    /// Resizing a window by dragging its edge propagates to every window
    /// connected to it via snap adjacency.
    pub decoration_resize_snapped: bool,
    /// Maximizing via the window decoration propagates to every window
    /// connected via snap adjacency.
    pub decoration_fit_snapped: bool,
    pub gestures: ContextBindings<GestureBinding, GestureConfigEntry>,
    pub touch_gestures: ContextBindings<GestureTrigger, GestureConfigEntry>,
    pub num_lock: bool,
    pub caps_lock: bool,
}

// ── What a file stands for ───────────────────────────────────────────

/// The warnings before any binding is read.
pub open spec fn early_warnings(raw: ConfigFile) -> Seq<(Severity, Seq<char>)> {
    merge::disabled_warnings(
        warnings::silent() + settings::mod_key_warning(raw.mod_key) + settings::placement_warning(
            raw.window_placement,
        ),
        merge::opt_list(raw.disable_defaults),
    )
}

/// The key bindings, the tap bindings and the warnings after the
/// `[keybindings]` table.
pub open spec fn keys_state(raw: ConfigFile, table: Seq<(Seq<char>, u32)>) -> (
    Seq<(KeyCombo, ActionOf<Seq<char>>)>,
    Seq<(Modifiers, ActionOf<Seq<char>>)>,
    Seq<(Severity, Seq<char>)>,
) {
    let mod_key = settings::mod_key_of(raw.mod_key);
    let start = if merge::disabled_of(merge::opt_list(raw.disable_defaults)).keys {
        Seq::empty()
    } else {
        bindings::bind_all(Seq::empty(), normal_keys(defaults::default_keys(mod_key)))
    };
    merge::keys_after(
        (start, Seq::empty(), early_warnings(raw)),
        merge::opt_table(raw.keybindings),
        mod_key,
        table,
    )
}

/// Key bindings with every combo in the form under which it is stored.
pub open spec fn normal_keys(list: Seq<(KeyCombo, ActionOf<Seq<char>>)>) -> Seq<
    (KeyCombo, ActionOf<Seq<char>>),
> {
    list.map_values(|p: (KeyCombo, ActionOf<Seq<char>>)| (types::normal_combo(p.0), p.1))
}

/// No binding in any context.
pub open spec fn unbound<K, W>() -> ContextOf<Seq<(K, W)>> {
    ContextOf { on_window: Seq::empty(), on_canvas: Seq::empty(), anywhere: Seq::empty() }
}

/// The mouse bindings and the warnings after the `[mouse]` tables.
pub open spec fn mouse_state(raw: ConfigFile, table: Seq<(Seq<char>, u32)>) -> (
    ContextOf<Seq<(MouseBinding, MouseActionOf<Seq<char>>)>>,
    Seq<(Severity, Seq<char>)>,
) {
    let mod_key = settings::mod_key_of(raw.mod_key);
    let start = if merge::disabled_of(merge::opt_list(raw.disable_defaults)).mouse {
        unbound()
    } else {
        defaults::default_mouse(mod_key)
    };
    merge::mouse_merged((start, keys_state(raw, table).2), raw.mouse.bindings, mod_key)
}

/// The gesture bindings and the warnings after the `[gestures]` tables.
pub open spec fn gesture_state(raw: ConfigFile, table: Seq<(Seq<char>, u32)>) -> (
    ContextOf<Seq<(GestureBinding, GestureConfigEntryOf<Seq<char>>)>>,
    Seq<(Severity, Seq<char>)>,
) {
    let mod_key = settings::mod_key_of(raw.mod_key);
    let start = if merge::disabled_of(merge::opt_list(raw.disable_defaults)).gestures {
        unbound()
    } else {
        defaults::default_gesture(mod_key)
    };
    merge::gesture_merged((start, mouse_state(raw, table).1), raw.gestures.bindings, mod_key)
}

/// The touch bindings and the warnings after the `[touch]` tables.
pub open spec fn touch_state(raw: ConfigFile, table: Seq<(Seq<char>, u32)>) -> (
    ContextOf<Seq<(GestureTrigger, GestureConfigEntryOf<Seq<char>>)>>,
    Seq<(Severity, Seq<char>)>,
) {
    merge::touch_merged(
        (defaults::default_touch(), gesture_state(raw, table).1),
        raw.touch,
    )
}

/// The warnings after the input devices and the gesture thresholds.
pub open spec fn device_warnings(raw: ConfigFile, table: Seq<(Seq<char>, u32)>) -> Seq<
    (Severity, Seq<char>),
> {
    settings::thresholds_warnings(
        settings::mouse_device_warnings(
            settings::trackpad_warnings(
                touch_state(raw, table).1 + settings::background_warning(raw.background),
                raw.input.trackpad,
            ),
            raw.input.mouse,
        ),
        raw,
    )
}

/// The warnings after tap conflicts and decorations.
pub open spec fn decorated_warnings(raw: ConfigFile, table: Seq<(Seq<char>, u32)>) -> Seq<
    (Severity, Seq<char>),
> {
    decoration::decoration_warnings(
        merge::conflict_warnings(
            device_warnings(raw, table),
            keys_state(raw, table).1,
            settings::text_or(raw.input.keyboard.options, ""@),
        ),
        raw.decorations,
    )
}

/// The window rules and the warnings after them.
pub open spec fn rules_state(raw: ConfigFile, table: Seq<(Seq<char>, u32)>) -> (
    Seq<WindowRuleOf<Seq<char>, Seq<KeyCombo>>>,
    Seq<(Severity, Seq<char>)>,
) {
    settings::rules_after(
        decorated_warnings(raw, table),
        settings::entries_of(raw.window_rules),
        settings::mod_key_of(raw.mod_key),
        table,
    )
}

/// The outputs and the warnings after them.
pub open spec fn outputs_state(raw: ConfigFile, table: Seq<(Seq<char>, u32)>) -> (
    Seq<outputs::OutputConfigOf<Seq<char>>>,
    Seq<(Severity, Seq<char>)>,
) {
    settings::outputs_after(rules_state(raw, table).1, settings::entries_of(raw.outputs))
}

/// All the warnings that a file gives, in the order in which they come up.
pub open spec fn all_warnings(raw: ConfigFile, table: Seq<(Seq<char>, u32)>) -> Seq<
    (Severity, Seq<char>),
> {
    let limits = settings::limits_warnings(section_warnings(raw, table), raw);
    match raw.outline {
        Some(o) => decoration::outline_warnings(limits, o),
        None => limits,
    }
}

/// The anchor points with the file's upward axis turned downward.
pub open spec fn anchors_of(o: Option<Vec<(Real, Real)>>) -> Seq<(Real, Real)> {
    match o {
        Some(v) => v@.map_values(|p: (Real, Real)| (p.0, numbers::negated(p.1))),
        None => seq![(Real { bits: 0 }, numbers::negated(Real { bits: 0 }))],
    }
}

/// The outline that an optional section asks for.
pub open spec fn outline_of(o: Option<decoration::OutputOutlineConfig>) -> OutputOutlineSettings {
    match o {
        Some(c) => decoration::outline_of(c),
        None => decoration::default_outline(),
    }
}

/// The bindings of a configuration are those of the file, and no key is bound
/// twice.
pub open spec fn bindings_from(c: Config, raw: ConfigFile, table: Seq<(Seq<char>, u32)>) -> bool {
    &&& c.mod_key == settings::mod_key_of(raw.mod_key)
    &&& c.bindings@ == keys_state(raw, table).0
    &&& c.tap_bindings@ == keys_state(raw, table).1
    &&& c.mouse@ == mouse_state(raw, table).0
    &&& c.gestures@ == gesture_state(raw, table).0
    &&& c.touch_gestures@ == touch_state(raw, table).0
    &&& c.cycle_hold == merge::cycle_hold_of(c.bindings@)
    &&& bindings::distinct(c.bindings@)
    &&& bindings::distinct(c.tap_bindings@)
    &&& bindings::contexts_distinct(c.mouse@)
    &&& bindings::contexts_distinct(c.gestures@)
    &&& bindings::contexts_distinct(c.touch_gestures@)
}

/// The numeric settings of a configuration are those of the file.
pub open spec fn numbers_from(c: Config, raw: ConfigFile) -> bool {
    let s = settings::speeds_of(raw);
    let l = settings::limits_of(raw);
    &&& c.trackpad_speed == s.trackpad_speed
    &&& c.mouse_speed == s.mouse_speed
    &&& c.touch_speed == s.touch_speed
    &&& c.drift == s.drift
    &&& c.animation_speed == settings::animation_speed_of(raw.navigation.animation_speed)
    &&& c.nudge_step == l.nudge_step
    &&& c.pan_step == l.pan_step
    &&& c.repeat_delay == l.repeat_delay
    &&& c.repeat_rate == l.repeat_rate
    &&& c.edge_zone == l.edge_zone
    &&& c.edge_pan_min == l.edge_pan_min
    &&& c.edge_pan_max == l.edge_pan_max
    &&& c.edge_pan_cursor_zone == l.edge_pan_cursor_zone
    &&& c.zoom_step == l.zoom_step
    &&& c.zoom_touch_speed == l.zoom_touch_speed
    &&& c.zoom_fit_padding == l.zoom_fit_padding
    &&& c.snap_gap == l.snap_gap
    &&& c.snap_distance == l.snap_distance
    &&& c.snap_break_force == l.snap_break_force
    &&& c.inactive_cursor_opacity == l.inactive_cursor_opacity
    &&& c.gesture_thresholds == settings::thresholds_of(raw)
    &&& c.nav_anchors@ == anchors_of(raw.navigation.anchors)
    &&& c.cursor_size == settings::cursor_size_of(raw.cursor.size)
    &&& c.output_outline == outline_of(raw.outline)
    &&& c.backend == decoration::backend_of(raw.backend)
    &&& c.effects == decoration::effects_of(raw.effects)
}

/// The switches of a configuration are those of the file.
pub open spec fn switches_from(c: Config, raw: ConfigFile) -> bool {
    &&& c.focus_follows_mouse == decoration::or_else(raw.focus_follows_mouse, false)
    &&& c.edge_pan_cursor == decoration::or_else(raw.navigation.edge_pan.cursor_pan, false)
    &&& c.auto_navigate_on_close == decoration::or_else(raw.navigation.auto_navigate_on_close, true)
    &&& c.zoom_reset_on_new_window == decoration::or_else(raw.zoom.reset_on_new_window, true)
    &&& c.zoom_reset_on_activation == decoration::or_else(raw.zoom.reset_on_activation, true)
    &&& c.snap_enabled == decoration::or_else(raw.snap.enabled, true)
    &&& c.snap_corners == decoration::or_else(raw.snap.corners, false)
    &&& c.snap_centers == decoration::or_else(raw.snap.centers, false)
    &&& c.layout_independent == decoration::or_else(raw.input.keyboard.layout_independent, true)
    &&& c.remember_layout_per_window == decoration::or_else(raw.input.keyboard.remember_layout_per_window, false)
    &&& c.resize_on_border == decoration::or_else(raw.mouse.resize_on_border, true)
    &&& c.decoration_resize_snapped == decoration::or_else(raw.mouse.decoration_resize_snapped, false)
    &&& c.decoration_fit_snapped == decoration::or_else(raw.mouse.decoration_fit_snapped, false)
    &&& c.num_lock == decoration::or_else(raw.input.keyboard.num_lock, true)
    &&& c.caps_lock == decoration::or_else(raw.input.keyboard.caps_lock, false)
    &&& c.window_placement == settings::placement_of(raw.window_placement)
    &&& c.xwayland_enabled == raw.xwayland.enabled
}

/// The settings of a configuration that hold text are those of the file.
pub open spec fn texts_from(
    c: Config,
    raw: ConfigFile,
    home: Option<Seq<char>>,
    table: Seq<(Seq<char>, u32)>,
) -> bool {
    &&& c.background@ == settings::background_config_of(raw.background, home)
    &&& c.trackpad@ == settings::trackpad_of(raw.input.trackpad)
    &&& c.mouse_device == settings::mouse_device_of(raw.input.mouse)
    &&& c.touch@ == settings::touch_of(raw.input.touch)
    &&& c.keyboard_layout@ == settings::keyboard_layout_of(raw.input.keyboard)
    &&& text::string_views(c.autostart@) == merge::opt_list(raw.autostart)
    &&& types::opt_text(c.cursor_theme) == settings::unless_none(raw.cursor.theme)
    &&& c.decorations@ == decoration::decorations_of(raw.decorations)
    &&& window_rules::rule_models(c.window_rules@) == rules_state(raw, table).0
    &&& settings::output_models(c.output_configs@) == outputs_state(raw, table).0
    &&& c.xwayland_path@ == settings::expanded(raw.xwayland.path@, home)
    &&& merge::table_views(c.env@) == merge::table_views(raw.env@)
    &&& merge::table_views(c.child_env@) == settings::child_env_of(raw)
}

/// Is `c` the configuration that the file stands for?
pub open spec fn config_from(
    c: Config,
    raw: ConfigFile,
    home: Option<Seq<char>>,
    table: Seq<(Seq<char>, u32)>,
) -> bool {
    &&& bindings_from(c, raw, table)
    &&& numbers_from(c, raw)
    &&& switches_from(c, raw)
    &&& texts_from(c, raw, home, table)
}

fn clone_strings(o: &Option<Vec<String>>) -> (r: Vec<String>)
    ensures
        text::string_views(r@) == merge::opt_list(*o),
{
    let mut out: Vec<String> = Vec::new();
    proof {
        assert(text::string_views(out@) =~= Seq::<Seq<char>>::empty());
    }
    if let Some(v) = o {
        let n: usize = v.len();
        let mut i: usize = 0;
        while i < n
            invariant
                i <= n,
                n == v@.len(),
                out@ == v@.take(i as int),
            decreases n - i,
        {
            let s: String = v[i].clone();
            out.push(s);
            i = i + 1;
        }
        proof {
            assert(v@.take(n as int) =~= v@);
        }
    }
    out
}

fn clone_table(t: &Table) -> (r: Table)
    ensures
        r@ == t@,
{
    let mut out: Table = Vec::new();
    let n: usize = t.len();
    let mut i: usize = 0;
    while i < n
        invariant
            i <= n,
            n == t@.len(),
            out@ == t@.take(i as int),
        decreases n - i,
    {
        let p: (String, String) = (t[i].0.clone(), t[i].1.clone());
        out.push(p);
        i = i + 1;
    }
    out
}

fn turn_anchors(o: &Option<Vec<(Real, Real)>>) -> (r: Vec<(Real, Real)>)
    ensures
        r@ == anchors_of(*o),
{
    match o {
        None => {
            let zero: Real = Real { bits: 0 };
            vec![(zero, zero.negate())]
        },
        Some(v) => {
            let mut out: Vec<(Real, Real)> = Vec::new();
            let n: usize = v.len();
            let mut i: usize = 0;
            while i < n
                invariant
                    i <= n,
                    n == v@.len(),
                    out@ == v@.take(i as int).map_values(
                        |p: (Real, Real)| (p.0, numbers::negated(p.1)),
                    ),
                decreases n - i,
            {
                out.push((v[i].0, v[i].1.negate()));
                proof {
                    assert(out@ =~= v@.take(i + 1).map_values(
                        |p: (Real, Real)| (p.0, numbers::negated(p.1)),
                    ));
                }
                i = i + 1;
            }
            proof {
                assert(v@.take(n as int) =~= v@);
            }
            out
        },
    }
}

/// The default key bindings, each in the form under which it is stored.
fn default_key_map(mod_key: ModKey) -> (r: BindingMap<KeyCombo, Action>)
    ensures
        r@ == bindings::bind_all(Seq::empty(), normal_keys(defaults::default_keys(mod_key))),
        bindings::distinct(r@),
{
    let list: Vec<(KeyCombo, Action)> = default_bindings(mod_key);
    let ghost all = bindings::entry_models(list@);
    let mut normal: Vec<(KeyCombo, Action)> = Vec::new();
    proof {
        assert(bindings::entry_models(normal@) =~= normal_keys(all.take(0)));
    }
    for p in it: list
        invariant
            all == bindings::entry_models(it.seq()),
            bindings::entry_models(normal@) == normal_keys(all.take(it.index() as int)),
    {
        let ghost before = normal@;
        let (k, a): (KeyCombo, Action) = p;
        let mut combo: KeyCombo = k;
        combo.normalize();
        normal.push((combo, a));
        proof {
            let i = it.index() as int;
            assert(all[i] == (k, a@));
            assert(bindings::entry_models(normal@) =~= bindings::entry_models(before).push(
                (types::normal_combo(k), a@),
            ));
            assert(normal_keys(all.take(i + 1)) =~= normal_keys(all.take(i)).push(
                (types::normal_combo(k), a@),
            ));
        }
    }
    proof {
        assert(all.take(all.len() as int) =~= all);
    }
    BindingMap::collect(normal)
}

fn parse_outline(o: &Option<OutputOutlineConfig>, errors: &mut Warnings) -> (r:
    OutputOutlineSettings)
    requires
        o is Some ==> colors::opt_readable(o->0.color),
    ensures
        r == outline_of(*o),
        warnings::warned(final(errors)@) == match *o {
            Some(c) => decoration::outline_warnings(warnings::warned(old(errors)@), c),
            None => warnings::warned(old(errors)@),
        },
{
    match o {
        Some(c) => parse_output_outline(c, errors),
        None => OutputOutlineSettings {
            color: colors::Rgba { r: 0xff, g: 0xff, b: 0xff, a: 0xff },
            thickness: 1,
            opacity: Real { bits: decoration::HALF },
        },
    }
}

/// The bindings, and what has to be known to read them.
struct BindingSettings {
    mod_key: ModKey,
    window_placement: WindowPlacement,
    keys: BindingMap<KeyCombo, Action>,
    taps: BindingMap<Modifiers, Action>,
    mouse: ContextBindings<MouseBinding, MouseAction>,
    gestures: ContextBindings<GestureBinding, GestureConfigEntry>,
    touch_gestures: ContextBindings<GestureTrigger, GestureConfigEntry>,
}

fn parse_bindings(raw: &ConfigFile, keysyms: &KeysymTable, errors: &mut Warnings) -> (r:
    BindingSettings)
    requires
        warnings::warned(old(errors)@) == warnings::silent(),
    ensures
        r.mod_key == settings::mod_key_of(raw.mod_key),
        r.window_placement == settings::placement_of(raw.window_placement),
        r.keys@ == keys_state(*raw, keysyms@).0,
        r.taps@ == keys_state(*raw, keysyms@).1,
        r.mouse@ == mouse_state(*raw, keysyms@).0,
        r.gestures@ == gesture_state(*raw, keysyms@).0,
        r.touch_gestures@ == touch_state(*raw, keysyms@).0,
        bindings::distinct(r.keys@),
        bindings::distinct(r.taps@),
        bindings::contexts_distinct(r.mouse@),
        bindings::contexts_distinct(r.gestures@),
        bindings::contexts_distinct(r.touch_gestures@),
        warnings::warned(final(errors)@) == touch_state(*raw, keysyms@).1,
{
    let mod_key: ModKey = parse_mod_key(&raw.mod_key, errors);
    let window_placement: WindowPlacement = parse_placement(&raw.window_placement, errors);
    let disabled: DisabledDefaults = parse_disabled(&raw.disable_defaults, errors);
    let mut keys: BindingMap<KeyCombo, Action> = if disabled.keys {
        BindingMap::new()
    } else {
        default_key_map(mod_key)
    };
    let mut taps: BindingMap<Modifiers, Action> = BindingMap::new();
    merge_keys(&raw.keybindings, mod_key, keysyms, &mut keys, &mut taps, errors);
    let mut mouse: ContextBindings<MouseBinding, MouseAction> = if disabled.mouse {
        ContextOf::empty()
    } else {
        default_mouse_bindings(mod_key)
    };
    merge_mouse(&raw.mouse.bindings, mod_key, &mut mouse, errors);
    let mut gestures: ContextBindings<GestureBinding, GestureConfigEntry> = if disabled.gestures {
        ContextOf::empty()
    } else {
        default_gesture_bindings(mod_key)
    };
    merge_gesture(&raw.gestures.bindings, mod_key, &mut gestures, errors);
    let mut touch_gestures: ContextBindings<GestureTrigger, GestureConfigEntry> =
        default_touch_bindings();
    merge_touch(&raw.touch, &mut touch_gestures, errors);
    BindingSettings { mod_key, window_placement, keys, taps, mouse, gestures, touch_gestures }
}

/// The sections that are processed one after the other.
struct SectionSettings {
    background: BackgroundConfig,
    trackpad: TrackpadSettings,
    mouse_device: MouseDeviceSettings,
    gesture_thresholds: GestureThresholds,
    keyboard_layout: KeyboardLayout,
    decorations: DecorationConfig,
    window_rules: Vec<WindowRule>,
    output_configs: Vec<OutputConfig>,
    effects: EffectsConfig,
    speeds: Speeds,
    animation_speed: Real,
}

/// The warnings before the steps, distances and delays.
pub open spec fn section_warnings(raw: ConfigFile, table: Seq<(Seq<char>, u32)>) -> Seq<
    (Severity, Seq<char>),
> {
    settings::renamed_warnings(
        settings::speeds_warnings(
            outputs_state(raw, table).1 + decoration::effects_warnings(raw.effects),
            raw,
        ) + settings::animation_speed_warning(raw.navigation.animation_speed),
        raw,
    )
}

fn parse_sections(
    raw: &ConfigFile,
    home: Option<&str>,
    keysyms: &KeysymTable,
    bound: &BindingSettings,
    errors: &mut Warnings,
) -> (r: SectionSettings)
    requires
        raw::file_readable(*raw),
        bound.mod_key == settings::mod_key_of(raw.mod_key),
        bound.taps@ == keys_state(*raw, keysyms@).1,
        warnings::warned(old(errors)@) == touch_state(*raw, keysyms@).1,
    ensures
        r.background@ == settings::background_config_of(raw.background, parse::opt_str(home)),
        r.trackpad@ == settings::trackpad_of(raw.input.trackpad),
        r.mouse_device == settings::mouse_device_of(raw.input.mouse),
        r.gesture_thresholds == settings::thresholds_of(*raw),
        r.keyboard_layout@ == settings::keyboard_layout_of(raw.input.keyboard),
        r.decorations@ == decoration::decorations_of(raw.decorations),
        window_rules::rule_models(r.window_rules@) == rules_state(*raw, keysyms@).0,
        settings::output_models(r.output_configs@) == outputs_state(*raw, keysyms@).0,
        r.effects == decoration::effects_of(raw.effects),
        r.speeds == settings::speeds_of(*raw),
        r.animation_speed == settings::animation_speed_of(raw.navigation.animation_speed),
        warnings::warned(final(errors)@) == section_warnings(*raw, keysyms@),
{
    let background: BackgroundConfig = parse_background(&raw.background, home, errors);
    let trackpad: TrackpadSettings = parse_trackpad(&raw.input.trackpad, errors);
    let mouse_device: MouseDeviceSettings = parse_mouse_device(&raw.input.mouse, errors);
    let gesture_thresholds: GestureThresholds = parse_thresholds(raw, errors);
    let keyboard_layout: KeyboardLayout = parse_keyboard_layout(&raw.input.keyboard);
    warn_conflicts(&bound.taps, keyboard_layout.options.as_str(), errors);
    let decorations: DecorationConfig = parse_decoration_config(&raw.decorations, errors);
    let window_rules: Vec<WindowRule> = parse_rules(
        &raw.window_rules,
        bound.mod_key,
        keysyms,
        errors,
    );
    let output_configs: Vec<OutputConfig> = parse_outputs(&raw.outputs, errors);
    let effects: EffectsConfig = parse_effects_config(&raw.effects, errors);
    let speeds: Speeds = parse_speeds(raw, errors);
    let animation_speed: Real = parse_animation_speed(&raw.navigation.animation_speed, errors);
    warn_renamed(raw, errors);
    SectionSettings {
        background,
        trackpad,
        mouse_device,
        gesture_thresholds,
        keyboard_layout,
        decorations,
        window_rules,
        output_configs,
        effects,
        speeds,
        animation_speed,
    }
}

/// What reading the configuration file came to.
#[derive(Debug, PartialEq, Eq)]
pub enum ConfigSource {
    /// It was read and parsed.
    File(ConfigFile),
    /// It was read, but is no valid configuration: why.
    Malformed(String),
    /// There is none.
    Missing,
    /// It could not be read: why.
    Unreadable(String),
}

/// Is `c` the configuration of a file that sets nothing?
pub open spec fn is_default(c: Config) -> bool {
    exists|raw: ConfigFile|
        raw::is_empty_file(raw) && #[trigger] config_from(c, raw, None, Seq::empty())
}

/// The warning that comes of reading the file, if any.
pub open spec fn source_warnings(source: ConfigSource, path: Seq<char>) -> Seq<Seq<char>> {
    match source {
        ConfigSource::Malformed(e) => seq!["config error: "@ + e@],
        ConfigSource::Unreadable(e) => seq![
            "config: failed to read "@ + path + ": "@ + e@,
        ],
        _ => Seq::empty(),
    }
}

proof fn lemma_string_views_join(a: Seq<String>, b: Seq<String>)
    ensures
        text::string_views(a + b) == text::string_views(a) + text::string_views(b),
{
    assert(text::string_views(a + b) =~= text::string_views(a) + text::string_views(b));
}

impl Config {
    /// Build the configuration from what reading the file at `path` came to: a
    /// missing file gives the defaults and no warning, a malformed or unreadable
    /// one the defaults and the one warning about the file itself, whatever the
    /// home directory and the key table.
    pub fn load_from_collect(
        source: &ConfigSource,
        path: &str,
        home: Option<&str>,
        keysyms: &KeysymTable,
    ) -> (r: (Config, Vec<String>))
        requires
            *source matches ConfigSource::File(raw) ==> raw::file_readable(raw),
        ensures
            match *source {
                ConfigSource::File(raw) => config_from(r.0, raw, parse::opt_str(home), keysyms@)
                    && text::string_views(r.1@) == warnings::by_severity(
                    all_warnings(raw, keysyms@),
                ),
                _ => is_default(r.0) && text::string_views(r.1@) == source_warnings(
                    *source,
                    path@,
                ),
            },
    {
        let mut messages: Vec<String> = Vec::new();
        let empty: ConfigFile = ConfigFile::empty();
        let raw: &ConfigFile = match source {
            ConfigSource::File(raw) => raw,
            _ => &empty,
        };
        let (config, mut more) = Config::from_raw_collect(raw, home, keysyms);
        match source {
            ConfigSource::Malformed(e) => {
                let mut m: String = "config error: ".to_owned();
                m.append(e.as_str());
                messages.push(m);
            },
            ConfigSource::Unreadable(e) => {
                messages.push(text::join4("config: failed to read ", path, ": ", e.as_str()));
            },
            _ => {},
        }
        let ghost first = messages@;
        let ghost rest = more@;
        proof {
            assert(text::string_views(first) =~= source_warnings(*source, path@));
            lemma_string_views_join(first, rest);
        }
        messages.append(&mut more);
        proof {
            assert(messages@ == first + rest);
        }
        let r: (Config, Vec<String>) = (config, messages);
        proof {
            if !(source is File) {
                laws::lemma_empty_file_is_silent(empty, keysyms@);
                laws::lemma_empty_files_agree(r.0, empty, empty, parse::opt_str(home), keysyms@);
                assert(config_from(r.0, empty, None, Seq::empty()));
                assert(text::string_views(r.1@) =~= source_warnings(*source, path@));
            } else {
                assert(text::string_views(r.1@) =~= text::string_views(rest));
            }
        }
        r
    }

    /// The same without the warnings.
    pub fn load_from(
        source: &ConfigSource,
        path: &str,
        home: Option<&str>,
        keysyms: &KeysymTable,
    ) -> (r: Config)
        requires
            *source matches ConfigSource::File(raw) ==> raw::file_readable(raw),
        ensures
            match *source {
                ConfigSource::File(raw) => config_from(r, raw, parse::opt_str(home), keysyms@),
                _ => is_default(r),
            },
    {
        Config::load_from_collect(source, path, home, keysyms).0
    }

    /// Build a configuration from a parsed (but unvalidated) file, with the
    /// warnings that it gives, most actionable first. `home` is the home
    /// directory; `keysyms` holds the symbols of the key names that the file
    /// mentions.
    pub fn from_raw_collect(raw: &ConfigFile, home: Option<&str>, keysyms: &KeysymTable) -> (r: (
        Config,
        Vec<String>,
    ))
        requires
            raw::file_readable(*raw),
        ensures
            config_from(r.0, *raw, parse::opt_str(home), keysyms@),
            text::string_views(r.1@) == warnings::by_severity(all_warnings(*raw, keysyms@)),
    {
        let mut errors: Warnings = Vec::new();
        proof {
            assert(warnings::warned(errors@) =~= warnings::silent());
        }
        let bound: BindingSettings = parse_bindings(raw, keysyms, &mut errors);
        let sections: SectionSettings = parse_sections(raw, home, keysyms, &bound, &mut errors);
        let limits: Limits = parse_limits(raw, &mut errors);
        let output_outline: OutputOutlineSettings = parse_outline(&raw.outline, &mut errors);
        let messages: Vec<String> = sorted_messages(&errors);

        let config = Config {
            mod_key: bound.mod_key,
            trackpad_speed: sections.speeds.trackpad_speed,
            mouse_speed: sections.speeds.mouse_speed,
            touch_speed: sections.speeds.touch_speed,
            drift: sections.speeds.drift,
            nudge_step: limits.nudge_step,
            pan_step: limits.pan_step,
            repeat_delay: limits.repeat_delay,
            repeat_rate: limits.repeat_rate,
            edge_zone: limits.edge_zone,
            edge_pan_min: limits.edge_pan_min,
            edge_pan_max: limits.edge_pan_max,
            edge_pan_cursor_zone: limits.edge_pan_cursor_zone,
            zoom_step: limits.zoom_step,
            zoom_touch_speed: limits.zoom_touch_speed,
            zoom_fit_padding: limits.zoom_fit_padding,
            snap_gap: limits.snap_gap,
            snap_distance: limits.snap_distance,
            snap_break_force: limits.snap_break_force,
            inactive_cursor_opacity: limits.inactive_cursor_opacity,
            animation_speed: sections.animation_speed,
            cycle_hold: cycle_hold(&bound.keys),
            focus_follows_mouse: raw.focus_follows_mouse.unwrap_or(false),
            edge_pan_cursor: raw.navigation.edge_pan.cursor_pan.unwrap_or(false),
            auto_navigate_on_close: raw.navigation.auto_navigate_on_close.unwrap_or(true),
            zoom_reset_on_new_window: raw.zoom.reset_on_new_window.unwrap_or(true),
            zoom_reset_on_activation: raw.zoom.reset_on_activation.unwrap_or(true),
            snap_enabled: raw.snap.enabled.unwrap_or(true),
            snap_corners: raw.snap.corners.unwrap_or(false),
            snap_centers: raw.snap.centers.unwrap_or(false),
            layout_independent: raw.input.keyboard.layout_independent.unwrap_or(true),
            remember_layout_per_window: raw.input.keyboard.remember_layout_per_window.unwrap_or(false),
            resize_on_border: raw.mouse.resize_on_border.unwrap_or(true),
            decoration_resize_snapped: raw.mouse.decoration_resize_snapped.unwrap_or(false),
            decoration_fit_snapped: raw.mouse.decoration_fit_snapped.unwrap_or(false),
            num_lock: raw.input.keyboard.num_lock.unwrap_or(true),
            caps_lock: raw.input.keyboard.caps_lock.unwrap_or(false),
            background: sections.background,
            trackpad: sections.trackpad,
            mouse_device: sections.mouse_device,
            touch: parse_touch(&raw.input.touch),
            gesture_thresholds: sections.gesture_thresholds,
            keyboard_layout: sections.keyboard_layout,
            autostart: clone_strings(&raw.autostart),
            cursor_theme: drop_none(&raw.cursor.theme),
            cursor_size: settings::nonzero_size(raw.cursor.size),
            decorations: sections.decorations,
            output_outline,
            nav_anchors: turn_anchors(&raw.navigation.anchors),
            backend: parse_backend_config(&raw.backend),
            effects: sections.effects,
            window_rules: sections.window_rules,
            xwayland_enabled: raw.xwayland.enabled,
            xwayland_path: expand_tilde(raw.xwayland.path.as_str(), home),
            window_placement: bound.window_placement,
            env: clone_table(&raw.env),
            child_env: build_child_env(raw),
            output_configs: sections.output_configs,
            bindings: bound.keys,
            tap_bindings: bound.taps,
            mouse: bound.mouse,
            gestures: bound.gestures,
            touch_gestures: bound.touch_gestures,
        };
        (config, messages)
    }

    /// Build a configuration from a parsed file, without its warnings.
    pub fn from_raw(raw: &ConfigFile, home: Option<&str>, keysyms: &KeysymTable) -> (r: Config)
        requires
            raw::file_readable(*raw),
        ensures
            config_from(r, *raw, parse::opt_str(home), keysyms@),
    {
        Config::from_raw_collect(raw, home, keysyms).0
    }

    /// What a key press is bound to.
    pub fn lookup(&self, modifiers: &ModifiersState, sym: Keysym) -> (r: Option<&Action>)
        ensures
            bindings::opt_view(r) == bindings::bound(
                self.bindings@,
                types::normal_combo(
                    KeyCombo { modifiers: types::modifiers_from(*modifiers), sym },
                ),
            ),
    {
        let mut combo: KeyCombo = KeyCombo { modifiers: Modifiers::from_state(modifiers), sym };
        combo.normalize();
        self.bindings.get(&combo)
    }

    /// What a completed modifier chord is bound to.
    pub fn tap_lookup(&self, mods: &Modifiers) -> (r: Option<&Action>)
        ensures
            bindings::opt_view(r) == bindings::bound(self.tap_bindings@, *mods),
    {
        self.tap_bindings.get(mods)
    }

    /// What a mouse button is bound to in a context.
    pub fn mouse_button_lookup_ctx(
        &self,
        modifiers: &ModifiersState,
        button: u32,
        context: BindingContext,
    ) -> (r: Option<&MouseAction>)
        ensures
            bindings::opt_view(r) == bindings::bound_in(
                self.mouse@,
                (MouseBinding {
                    modifiers: types::modifiers_from(*modifiers),
                    trigger: MouseTrigger::Button(button),
                }),
                context,
            ),
    {
        let binding: MouseBinding = MouseBinding {
            modifiers: Modifiers::from_state(modifiers),
            trigger: MouseTrigger::Button(button),
        };
        self.mouse.lookup(&binding, context)
    }

    /// What scrolling is bound to in a context: fingers on a trackpad and
    /// every other source are bound apart.
    pub fn mouse_scroll_lookup_ctx(
        &self,
        modifiers: &ModifiersState,
        source: AxisSource,
        context: BindingContext,
    ) -> (r: Option<&MouseAction>)
        ensures
            bindings::opt_view(r) == bindings::bound_in(
                self.mouse@,
                (MouseBinding {
                    modifiers: types::modifiers_from(*modifiers),
                    trigger: if source == AxisSource::Finger {
                        MouseTrigger::TrackpadScroll
                    } else {
                        MouseTrigger::WheelScroll
                    },
                }),
                context,
            ),
    {
        let trigger: MouseTrigger = match source {
            AxisSource::Finger => MouseTrigger::TrackpadScroll,
            _ => MouseTrigger::WheelScroll,
        };
        let binding: MouseBinding = MouseBinding {
            modifiers: Modifiers::from_state(modifiers),
            trigger,
        };
        self.mouse.lookup(&binding, context)
    }

    /// What a trackpad gesture is bound to in a context.
    pub fn gesture_lookup(
        &self,
        modifiers: &ModifiersState,
        trigger: &GestureTrigger,
        context: BindingContext,
    ) -> (r: Option<&GestureConfigEntry>)
        ensures
            bindings::opt_view(r) == bindings::bound_in(
                self.gestures@,
                (GestureBinding {
                    modifiers: types::modifiers_from(*modifiers),
                    trigger: *trigger,
                }),
                context,
            ),
    {
        let binding: GestureBinding = GestureBinding {
            modifiers: Modifiers::from_state(modifiers),
            trigger: *trigger,
        };
        self.gestures.lookup(&binding, context)
    }

    /// What a touch gesture is bound to in a context.
    pub fn touch_lookup(&self, trigger: &GestureTrigger, context: BindingContext) -> (r: Option<
        &GestureConfigEntry,
    >)
        ensures
            bindings::opt_view(r) == bindings::bound_in(self.touch_gestures@, *trigger, context),
    {
        self.touch_gestures.lookup(trigger, context)
    }

    /// The output settings for a connector name (`eDP-1`).
    pub fn output_config(&self, connector_name: &str) -> (r: Option<&OutputConfig>)
        ensures
            match r {
                Some(c) => {
                    let i = settings::output_index(
                        settings::output_models(self.output_configs@),
                        connector_name@,
                        0,
                    );
                    0 <= i < self.output_configs@.len() && *c == self.output_configs@[i]
                        && c.name@ == connector_name@
                },
                None => !settings::has_output(
                    settings::output_models(self.output_configs@),
                    connector_name@,
                ),
            },
    {
        let i: usize = find_output(&self.output_configs, connector_name);
        proof {
            settings::lemma_output_index(
                settings::output_models(self.output_configs@),
                connector_name@,
                0,
            );
        }
        if i < self.output_configs.len() {
            Some(&self.output_configs[i])
        } else {
            None
        }
    }

    /// The first window rule that matches.
    pub fn match_window_rule(&self, app_id: &str, title: &str) -> (r: Option<&WindowRule>)
        ensures
            ({
                let i = window_rules::first_match(
                    window_rules::rule_models(self.window_rules@),
                    app_id@,
                    title@,
                    0,
                );
                match r {
                    Some(rule) => 0 <= i < self.window_rules@.len() && *rule
                        == self.window_rules@[i],
                    None => i == self.window_rules@.len(),
                }
            }),
    {
        let i: usize = find_rule(&self.window_rules, app_id, title);
        if i < self.window_rules.len() {
            Some(&self.window_rules[i])
        } else {
            None
        }
    }

    /// The `n`th window rule (from 0) that matches and has a position. Layer
    /// surfaces with the same namespace get successive ones.
    pub fn match_window_rule_nth(&self, app_id: &str, title: &str, n: usize) -> (r: Option<
        &WindowRule,
    >)
        ensures
            ({
                let i = window_rules::nth_positioned(
                    window_rules::rule_models(self.window_rules@),
                    app_id@,
                    title@,
                    n as nat,
                    0,
                );
                match r {
                    Some(rule) => 0 <= i < self.window_rules@.len() && *rule
                        == self.window_rules@[i],
                    None => i == self.window_rules@.len(),
                }
            }),
    {
        let i: usize = find_positioned(&self.window_rules, app_id, title, n);
        if i < self.window_rules.len() {
            Some(&self.window_rules[i])
        } else {
            None
        }
    }

    /// All the window rules that match, merged in order: later rules override
    /// the settings of earlier ones, flags stay on.
    pub fn resolve_window_rules(&self, app_id: &str, title: &str) -> (r: Option<AppliedWindowRule>)
        ensures
            window_rules::opt_applied(r) == window_rules::applied_upto(
                window_rules::rule_models(self.window_rules@),
                app_id@,
                title@,
                None,
                self.window_rules@.len() as int,
            ),
    {
        merge_rules(&self.window_rules, app_id, title, None)
    }

    /// Variant of `resolve_window_rules` for one instance of a canvas layer:
    /// of the matching rules with a position only the instance's own takes
    /// part, the others still merge in.
    pub fn resolve_window_rules_for_layer_instance(
        &self,
        app_id: &str,
        title: &str,
        instance_idx: usize,
    ) -> (r: Option<AppliedWindowRule>)
        ensures
            ({
                let rules = window_rules::rule_models(self.window_rules@);
                window_rules::opt_applied(r) == window_rules::applied_upto(
                    rules,
                    app_id@,
                    title@,
                    Some(
                        window_rules::nth_positioned(
                            rules,
                            app_id@,
                            title@,
                            instance_idx as nat,
                            0,
                        ),
                    ),
                    self.window_rules@.len() as int,
                )
            }),
    {
        let own: usize = find_positioned(&self.window_rules, app_id, title, instance_idx);
        merge_rules(&self.window_rules, app_id, title, Some(own))
    }
}

/// The configuration of an empty file.
impl Default for Config {
    fn default() -> (r: Self)
        ensures
            is_default(r),
    {
        let raw: ConfigFile = ConfigFile::empty();
        let keysyms: KeysymTable = KeysymTable { entries: Vec::new() };
        proof {
            assert(keysyms@ =~= Seq::empty());
        }
        Config::from_raw(&raw, None, &keysyms)
    }
}

/// Where a scroll event comes from.
#[derive(Clone, Copy, Debug, PartialEq, Eq, Structural)]
pub enum AxisSource {
    Finger,
    Continuous,
    Wheel,
    WheelTilt,
}

} // verus!
