//! The processed configuration, and how it comes from a parsed file.
use vstd::prelude::*;

use crate::config::bindings;
use crate::config::decoration;
use crate::config::decoration::{clamp_unit, floor_number, take_number, ONE};
use crate::config::defaults;
use crate::config::merge;
use crate::config::numbers;
use crate::config::numbers::{Number, NumberOf, Real};
use crate::config::outputs;
use crate::config::outputs::{parse_output_rule, OutputConfig, OutputConfigOf, OutputRuleFile};
use crate::config::parse;
use crate::config::parse::{key_name, KeysymTable};
use crate::config::raw;
use crate::config::raw::{
    BackgroundFileConfig, ConfigFile, KeyboardConfig, MouseDeviceFileConfig, Table,
    TouchDeviceFileConfig, TrackpadConfig,
};
use crate::config::types;
use crate::config::types::{KeyCombo, ModKey};
use crate::config::warnings;
use crate::config::warnings::{clamp_warn, collect_warn, non_negative, Severity, Warnings};
use crate::config::window_rules;
use crate::config::window_rules::{parse_window_rule, WindowRule, WindowRuleFile, WindowRuleOf};
use crate::text;
use crate::text::{chars_of, join3, show_i64, text_eq};

verus! {

// ── Names that select a setting ──────────────────────────────────────

pub open spec fn mod_key_of(o: Option<String>) -> ModKey {
    match o {
        Some(s) => if s@ == "alt"@ {
            ModKey::Alt
        } else {
            ModKey::Super
        },
        None => ModKey::Super,
    }
}

pub open spec fn mod_key_warning(o: Option<String>) -> Seq<(Severity, Seq<char>)> {
    match o {
        Some(s) => if s@ == "alt"@ || s@ == "super"@ {
            warnings::silent()
        } else {
            warnings::rejected("config: unknown mod_key '"@ + s@ + "', using super"@)
        },
        None => warnings::silent(),
    }
}

pub(crate) fn parse_mod_key(o: &Option<String>, errors: &mut Warnings) -> (r: ModKey)
    ensures
        r == mod_key_of(*o),
        warnings::warned(final(errors)@) == warnings::warned(old(errors)@) + mod_key_warning(*o),
{
    proof {
        warnings::lemma_silent(warnings::warned(errors@));
    }
    match o {
        None => ModKey::Super,
        Some(s) => {
            if text_eq(s.as_str(), "alt") {
                ModKey::Alt
            } else if text_eq(s.as_str(), "super") {
                ModKey::Super
            } else {
                collect_warn(
                    errors,
                    join3("config: unknown mod_key '", s.as_str(), "', using super"),
                );
                ModKey::Super
            }
        },
    }
}

/// Where a newly mapped window goes.
#[derive(Clone, Copy, Debug, PartialEq, Eq, Structural)]
pub enum WindowPlacement {
    Center,
    Cursor,
    Auto,
}

pub open spec fn placement_of(o: Option<String>) -> WindowPlacement {
    match o {
        Some(s) => if s@ == "cursor"@ {
            WindowPlacement::Cursor
        } else if s@ == "auto"@ {
            WindowPlacement::Auto
        } else {
            WindowPlacement::Center
        },
        None => WindowPlacement::Center,
    }
}

pub open spec fn placement_warning(o: Option<String>) -> Seq<(Severity, Seq<char>)> {
    match o {
        Some(s) => if s@ == "cursor"@ || s@ == "auto"@ || s@ == "center"@ {
            warnings::silent()
        } else {
            warnings::rejected("config: unknown window_placement '"@ + s@ + "', using center"@)
        },
        None => warnings::silent(),
    }
}

pub(crate) fn parse_placement(o: &Option<String>, errors: &mut Warnings) -> (r: WindowPlacement)
    ensures
        r == placement_of(*o),
        warnings::warned(final(errors)@) == warnings::warned(old(errors)@) + placement_warning(*o),
{
    proof {
        warnings::lemma_silent(warnings::warned(errors@));
    }
    match o {
        None => WindowPlacement::Center,
        Some(s) => {
            if text_eq(s.as_str(), "cursor") {
                WindowPlacement::Cursor
            } else if text_eq(s.as_str(), "auto") {
                WindowPlacement::Auto
            } else if text_eq(s.as_str(), "center") {
                WindowPlacement::Center
            } else {
                collect_warn(
                    errors,
                    join3("config: unknown window_placement '", s.as_str(), "', using center"),
                );
                WindowPlacement::Center
            }
        },
    }
}

/// Pointer acceleration profile.
#[derive(Clone, Copy, Debug, PartialEq, Eq, Structural)]
pub enum AccelProfile {
    Flat,
    Adaptive,
}

/// The profile that a text names, or the device's default.
pub open spec fn profile_of(o: Option<String>, default: AccelProfile) -> AccelProfile {
    match o {
        Some(s) => if s@ == "flat"@ {
            AccelProfile::Flat
        } else if s@ == "adaptive"@ {
            AccelProfile::Adaptive
        } else {
            default
        },
        None => default,
    }
}

pub open spec fn profile_warning(o: Option<String>, before: Seq<char>, after: Seq<char>) -> Seq<
    (Severity, Seq<char>),
> {
    match o {
        Some(s) => if s@ == "flat"@ || s@ == "adaptive"@ {
            warnings::silent()
        } else {
            warnings::rejected(before + s@ + after)
        },
        None => warnings::silent(),
    }
}

fn parse_profile(
    o: &Option<String>,
    default: AccelProfile,
    before: &str,
    after: &str,
    errors: &mut Warnings,
) -> (r: AccelProfile)
    ensures
        r == profile_of(*o, default),
        warnings::warned(final(errors)@) == warnings::warned(old(errors)@) + profile_warning(
            *o,
            before@,
            after@,
        ),
{
    proof {
        warnings::lemma_silent(warnings::warned(errors@));
    }
    match o {
        None => default,
        Some(s) => {
            if text_eq(s.as_str(), "flat") {
                AccelProfile::Flat
            } else if text_eq(s.as_str(), "adaptive") {
                AccelProfile::Adaptive
            } else {
                collect_warn(errors, join3(before, s.as_str(), after));
                default
            }
        },
    }
}

// ── Paths ────────────────────────────────────────────────────────────

/// A path with a leading `~/` replaced by the home directory, where it is
/// known.
pub open spec fn expanded(path: Seq<char>, home: Option<Seq<char>>) -> Seq<char> {
    if path.len() >= 2 && path[0] == '~' && path[1] == '/' && home is Some {
        home->0 + "/"@ + path.skip(2)
    } else {
        path
    }
}

/// Replace a leading `~/` by the home directory, where it is known.
pub fn expand_tilde(path: &str, home: Option<&str>) -> (r: String)
    ensures
        r@ == expanded(path@, parse::opt_str(home)),
{
    let v: Vec<char> = chars_of(path);
    if v.len() >= 2 && v[0] == '~' && v[1] == '/' {
        if let Some(h) = home {
            let rest: &str = path.substring_char(2, v.len());
            return join3(h, "/", rest);
        }
    }
    path.to_owned()
}

/// The configuration file's path: an explicit one, else `driftwm/config.toml`
/// under the configuration directory, which is `.config` under the home
/// directory unless it is set.
pub open spec fn config_path_of(
    explicit: Option<Seq<char>>,
    config_home: Option<Seq<char>>,
    home: Option<Seq<char>>,
) -> Seq<char> {
    match explicit {
        Some(p) => expanded(p, home),
        None => {
            let dir = match config_home {
                Some(d) => d,
                None => (match home {
                    Some(h) => h,
                    None => "."@,
                }) + "/.config"@,
            };
            joined_path(dir, "driftwm/config.toml"@)
        },
    }
}

/// A relative path under a directory.
pub open spec fn joined_path(dir: Seq<char>, rest: Seq<char>) -> Seq<char> {
    if dir.len() == 0 || dir.last() == '/' {
        dir + rest
    } else {
        dir + "/"@ + rest
    }
}

/// The configuration file's path, from the values of `DRIFTWM_CONFIG`,
/// `XDG_CONFIG_HOME` and `HOME`.
pub fn config_path(explicit: Option<&str>, config_home: Option<&str>, home: Option<&str>) -> (r:
    String)
    ensures
        r@ == config_path_of(
            parse::opt_str(explicit),
            parse::opt_str(config_home),
            parse::opt_str(home),
        ),
{
    if let Some(p) = explicit {
        return expand_tilde(p, home);
    }
    let dir: String = match config_home {
        Some(d) => d.to_owned(),
        None => {
            let mut d: String = match home {
                Some(h) => h.to_owned(),
                None => ".".to_owned(),
            };
            d.append("/.config");
            d
        },
    };
    let v: Vec<char> = chars_of(dir.as_str());
    let mut path: String = dir;
    if v.len() > 0 && v[v.len() - 1] != '/' {
        path.append("/");
    }
    path.append("driftwm/config.toml");
    path
}

// ── Background ───────────────────────────────────────────────────────

/// What is drawn behind the windows.
#[derive(Debug, PartialEq, Eq)]
pub enum BackgroundKindOf<S> {
    /// The built-in dot grid.
    BuiltIn,
    Shader { path: S, texture: Option<S> },
    Tile(S),
    Wallpaper(S),
    /// Nothing: an external wallpaper daemon draws it.
    Empty,
}

pub type BackgroundKind = BackgroundKindOf<String>;

impl View for BackgroundKindOf<String> {
    type V = BackgroundKindOf<Seq<char>>;

    open spec fn view(&self) -> BackgroundKindOf<Seq<char>> {
        match *self {
            BackgroundKindOf::BuiltIn => BackgroundKindOf::BuiltIn,
            BackgroundKindOf::Shader { path, texture } => BackgroundKindOf::Shader {
                path: path@,
                texture: types::opt_text(texture),
            },
            BackgroundKindOf::Tile(p) => BackgroundKindOf::Tile(p@),
            BackgroundKindOf::Wallpaper(p) => BackgroundKindOf::Wallpaper(p@),
            BackgroundKindOf::Empty => BackgroundKindOf::Empty,
        }
    }
}

/// The background that a section asks for.
pub open spec fn background_of(raw: BackgroundFileConfig, home: Option<Seq<char>>) -> BackgroundKindOf<
    Seq<char>,
> {
    match raw.kind {
        None => BackgroundKindOf::BuiltIn,
        Some(t) => match raw.path {
            Some(p) => if t@ == "shader"@ {
                BackgroundKindOf::Shader {
                    path: expanded(p@, home),
                    texture: match raw.texture {
                        Some(x) => Some(expanded(x@, home)),
                        None => None,
                    },
                }
            } else if t@ == "tile"@ {
                BackgroundKindOf::Tile(expanded(p@, home))
            } else if t@ == "wallpaper"@ {
                BackgroundKindOf::Wallpaper(expanded(p@, home))
            } else if t@ == "default"@ {
                BackgroundKindOf::BuiltIn
            } else if t@ == "none"@ {
                BackgroundKindOf::Empty
            } else {
                BackgroundKindOf::BuiltIn
            },
            None => if t@ == "default"@ {
                BackgroundKindOf::BuiltIn
            } else if t@ == "none"@ {
                BackgroundKindOf::Empty
            } else {
                BackgroundKindOf::BuiltIn
            },
        },
    }
}

pub open spec fn background_warning(raw: BackgroundFileConfig) -> Seq<(Severity, Seq<char>)> {
    match raw.kind {
        None => warnings::silent(),
        Some(t) => if t@ == "default"@ || t@ == "none"@ {
            warnings::silent()
        } else if raw.path is None {
            warnings::rejected(
                "config: [background] type=\""@ + t@ + "\" requires `path`, using default"@,
            )
        } else if t@ == "shader"@ || t@ == "tile"@ || t@ == "wallpaper"@ {
            warnings::silent()
        } else {
            warnings::rejected(
                "config: [background] unknown type \""@ + t@ + "\", using default"@,
            )
        },
    }
}

/// Process the kind of background that a section asks for.
pub fn resolve_background_kind(
    raw: &BackgroundFileConfig,
    home: Option<&str>,
    errors: &mut Warnings,
) -> (r: BackgroundKind)
    ensures
        r@ == background_of(*raw, parse::opt_str(home)),
        warnings::warned(final(errors)@) == warnings::warned(old(errors)@) + background_warning(
            *raw,
        ),
{
    proof {
        warnings::lemma_silent(warnings::warned(errors@));
        lemma_background_names();
    }
    let kind: &str = match &raw.kind {
        None => {
            return BackgroundKind::BuiltIn;
        },
        Some(t) => t.as_str(),
    };
    match &raw.path {
        Some(p) => {
            if text_eq(kind, "shader") {
                let texture: Option<String> = match &raw.texture {
                    Some(x) => Some(expand_tilde(x.as_str(), home)),
                    None => None,
                };
                BackgroundKind::Shader { path: expand_tilde(p.as_str(), home), texture }
            } else if text_eq(kind, "tile") {
                BackgroundKind::Tile(expand_tilde(p.as_str(), home))
            } else if text_eq(kind, "wallpaper") {
                BackgroundKind::Wallpaper(expand_tilde(p.as_str(), home))
            } else if text_eq(kind, "default") {
                BackgroundKind::BuiltIn
            } else if text_eq(kind, "none") {
                BackgroundKind::Empty
            } else {
                collect_warn(
                    errors,
                    join3("config: [background] unknown type \"", kind, "\", using default"),
                );
                BackgroundKind::BuiltIn
            }
        },
        None => {
            if text_eq(kind, "default") {
                BackgroundKind::BuiltIn
            } else if text_eq(kind, "none") {
                BackgroundKind::Empty
            } else {
                collect_warn(
                    errors,
                    join3("config: [background] type=\"", kind, "\" requires `path`, using default"),
                );
                BackgroundKind::BuiltIn
            }
        },
    }
}

proof fn lemma_background_names()
    ensures
        "shader"@ != "default"@,
        "shader"@ != "none"@,
        "tile"@ != "default"@,
        "tile"@ != "none"@,
        "wallpaper"@ != "default"@,
        "wallpaper"@ != "none"@,
{
    reveal_strlit("shader");
    reveal_strlit("tile");
    reveal_strlit("wallpaper");
    reveal_strlit("default");
    reveal_strlit("none");
    assert("shader"@[0] != "default"@[0]);
    assert("shader"@[0] != "none"@[0]);
    assert("tile"@[0] != "default"@[0]);
    assert("tile"@[0] != "none"@[0]);
    assert("wallpaper"@[0] != "default"@[0]);
    assert("wallpaper"@[0] != "none"@[0]);
}

/// Processed `[background]` settings.
#[derive(Debug, PartialEq, Eq)]
pub struct BackgroundConfigOf<S> {
    pub kind: BackgroundKindOf<S>,
    pub mirror_tile: bool,
    pub cache_shader: bool,
    pub transparent_shader: bool,
    pub cache_budget_mb: u32,
}

pub type BackgroundConfig = BackgroundConfigOf<String>;

impl View for BackgroundConfigOf<String> {
    type V = BackgroundConfigOf<Seq<char>>;

    open spec fn view(&self) -> BackgroundConfigOf<Seq<char>> {
        BackgroundConfigOf {
            kind: self.kind@,
            mirror_tile: self.mirror_tile,
            cache_shader: self.cache_shader,
            transparent_shader: self.transparent_shader,
            cache_budget_mb: self.cache_budget_mb,
        }
    }
}

pub open spec fn background_config_of(
    raw: BackgroundFileConfig,
    home: Option<Seq<char>>,
) -> BackgroundConfigOf<Seq<char>> {
    BackgroundConfigOf {
        kind: background_of(raw, home),
        mirror_tile: decoration::or_else(raw.mirror_tile, false),
        cache_shader: decoration::or_else(raw.cache_shader, false),
        transparent_shader: decoration::or_else(raw.transparent_shader, false),
        cache_budget_mb: decoration::or_else(raw.cache_budget_mb, 128),
    }
}

pub(crate) fn parse_background(raw: &BackgroundFileConfig, home: Option<&str>, errors: &mut Warnings) -> (r:
    BackgroundConfig)
    ensures
        r@ == background_config_of(*raw, parse::opt_str(home)),
        warnings::warned(final(errors)@) == warnings::warned(old(errors)@) + background_warning(
            *raw,
        ),
{
    BackgroundConfig {
        kind: resolve_background_kind(raw, home, errors),
        mirror_tile: raw.mirror_tile.unwrap_or(false),
        cache_shader: raw.cache_shader.unwrap_or(false),
        transparent_shader: raw.transparent_shader.unwrap_or(false),
        cache_budget_mb: raw.cache_budget_mb.unwrap_or(128),
    }
}

// ── Input devices ────────────────────────────────────────────────────

/// -1.0
pub const MINUS_ONE: u64 = 0xbff0_0000_0000_0000;

/// An acceleration speed between -1 and 1.
pub open spec fn accel_of(o: Option<Number>) -> Real {
    decoration::clamped(
        decoration::number_or(o, decoration::number(0, "0"@)),
        decoration::number(MINUS_ONE, "-1"@),
        decoration::number(ONE, "1"@),
    )
}

pub open spec fn accel_warning(o: Option<Number>, field: Seq<char>) -> Seq<(Severity, Seq<char>)> {
    decoration::clamped_warning(
        decoration::number_or(o, decoration::number(0, "0"@)),
        decoration::number(MINUS_ONE, "-1"@),
        decoration::number(ONE, "1"@),
        field,
    )
}

fn parse_accel(o: &Option<Number>, field: &str, errors: &mut Warnings) -> (r: Real)
    ensures
        r == accel_of(*o),
        warnings::warned(final(errors)@) == warnings::warned(old(errors)@) + accel_warning(
            *o,
            field@,
        ),
{
    clamp_warn(
        take_number(o, 0, "0"),
        Number::new(MINUS_ONE, "-1"),
        Number::new(ONE, "1"),
        field,
        errors,
    ).value
}

/// An optional text, unless it is `none`, which means the same as unset.
pub open spec fn unless_none(o: Option<String>) -> Option<Seq<char>> {
    match o {
        Some(s) => if s@ == "none"@ {
            None
        } else {
            Some(s@)
        },
        None => None,
    }
}

pub(crate) fn drop_none(o: &Option<String>) -> (r: Option<String>)
    ensures
        types::opt_text(r) == unless_none(*o),
{
    match o {
        Some(s) => {
            if text_eq(s.as_str(), "none") {
                None
            } else {
                Some(s.clone())
            }
        },
        None => None,
    }
}

/// Processed trackpad settings.
#[derive(Debug, PartialEq, Eq)]
pub struct TrackpadSettingsOf<S> {
    pub tap_to_click: bool,
    pub natural_scroll: bool,
    pub tap_and_drag: bool,
    pub accel_speed: Real,
    pub accel_profile: AccelProfile,
    pub click_method: Option<S>,
    pub disable_while_typing: bool,
}

pub type TrackpadSettings = TrackpadSettingsOf<String>;

impl View for TrackpadSettingsOf<String> {
    type V = TrackpadSettingsOf<Seq<char>>;

    open spec fn view(&self) -> TrackpadSettingsOf<Seq<char>> {
        TrackpadSettingsOf {
            tap_to_click: self.tap_to_click,
            natural_scroll: self.natural_scroll,
            tap_and_drag: self.tap_and_drag,
            accel_speed: self.accel_speed,
            accel_profile: self.accel_profile,
            click_method: types::opt_text(self.click_method),
            disable_while_typing: self.disable_while_typing,
        }
    }
}

pub open spec fn trackpad_of(t: TrackpadConfig) -> TrackpadSettingsOf<Seq<char>> {
    TrackpadSettingsOf {
        tap_to_click: decoration::or_else(t.tap_to_click, true),
        natural_scroll: decoration::or_else(t.natural_scroll, true),
        tap_and_drag: decoration::or_else(t.tap_and_drag, true),
        accel_speed: accel_of(t.accel_speed),
        accel_profile: profile_of(t.accel_profile, AccelProfile::Adaptive),
        click_method: unless_none(t.click_method),
        disable_while_typing: decoration::or_else(t.disable_while_typing, true),
    }
}

pub open spec fn trackpad_warnings(w: Seq<(Severity, Seq<char>)>, t: TrackpadConfig) -> Seq<
    (Severity, Seq<char>),
> {
    w + profile_warning(
        t.accel_profile,
        "config: unknown trackpad accel_profile '"@,
        "', using adaptive"@,
    ) + accel_warning(t.accel_speed, "trackpad.accel_speed"@)
}

pub(crate) fn parse_trackpad(t: &TrackpadConfig, errors: &mut Warnings) -> (r: TrackpadSettings)
    ensures
        r@ == trackpad_of(*t),
        warnings::warned(final(errors)@) == trackpad_warnings(warnings::warned(old(errors)@), *t),
{
    let accel_profile: AccelProfile = parse_profile(
        &t.accel_profile,
        AccelProfile::Adaptive,
        "config: unknown trackpad accel_profile '",
        "', using adaptive",
        errors,
    );
    let accel_speed: Real = parse_accel(&t.accel_speed, "trackpad.accel_speed", errors);
    TrackpadSettings {
        tap_to_click: t.tap_to_click.unwrap_or(true),
        natural_scroll: t.natural_scroll.unwrap_or(true),
        tap_and_drag: t.tap_and_drag.unwrap_or(true),
        accel_speed,
        accel_profile,
        click_method: drop_none(&t.click_method),
        disable_while_typing: t.disable_while_typing.unwrap_or(true),
    }
}

/// Processed mouse device settings.
#[derive(Clone, Copy, Debug, PartialEq, Eq, Structural)]
pub struct MouseDeviceSettings {
    pub accel_speed: Real,
    pub accel_profile: AccelProfile,
    pub natural_scroll: bool,
}

pub open spec fn mouse_device_of(m: MouseDeviceFileConfig) -> MouseDeviceSettings {
    MouseDeviceSettings {
        accel_speed: accel_of(m.accel_speed),
        accel_profile: profile_of(m.accel_profile, AccelProfile::Flat),
        natural_scroll: decoration::or_else(m.natural_scroll, false),
    }
}

pub open spec fn mouse_device_warnings(
    w: Seq<(Severity, Seq<char>)>,
    m: MouseDeviceFileConfig,
) -> Seq<(Severity, Seq<char>)> {
    w + profile_warning(
        m.accel_profile,
        "config: unknown mouse accel_profile '"@,
        "', using flat"@,
    ) + accel_warning(m.accel_speed, "mouse.accel_speed"@)
}

pub(crate) fn parse_mouse_device(m: &MouseDeviceFileConfig, errors: &mut Warnings) -> (r: MouseDeviceSettings)
    ensures
        r == mouse_device_of(*m),
        warnings::warned(final(errors)@) == mouse_device_warnings(
            warnings::warned(old(errors)@),
            *m,
        ),
{
    let accel_profile: AccelProfile = parse_profile(
        &m.accel_profile,
        AccelProfile::Flat,
        "config: unknown mouse accel_profile '",
        "', using flat",
        errors,
    );
    let accel_speed: Real = parse_accel(&m.accel_speed, "mouse.accel_speed", errors);
    MouseDeviceSettings {
        accel_speed,
        accel_profile,
        natural_scroll: m.natural_scroll.unwrap_or(false),
    }
}

/// Processed touchscreen settings.
#[derive(Debug, PartialEq, Eq)]
pub struct TouchSettingsOf<S> {
    pub enable: bool,
    pub map_to_output: Option<S>,
}

pub type TouchSettings = TouchSettingsOf<String>;

impl View for TouchSettingsOf<String> {
    type V = TouchSettingsOf<Seq<char>>;

    open spec fn view(&self) -> TouchSettingsOf<Seq<char>> {
        TouchSettingsOf { enable: self.enable, map_to_output: types::opt_text(self.map_to_output) }
    }
}

pub open spec fn touch_of(t: TouchDeviceFileConfig) -> TouchSettingsOf<Seq<char>> {
    TouchSettingsOf {
        enable: decoration::or_else(t.enable, true),
        map_to_output: unless_none(t.map_to_output),
    }
}

pub(crate) fn parse_touch(t: &TouchDeviceFileConfig) -> (r: TouchSettings)
    ensures
        r@ == touch_of(*t),
{
    TouchSettings {
        enable: t.enable.unwrap_or(true),
        map_to_output: drop_none(&t.map_to_output),
    }
}

/// Keyboard layout names.
#[derive(Debug, PartialEq, Eq)]
pub struct KeyboardLayoutOf<S> {
    pub layout: S,
    pub variant: S,
    pub options: S,
    pub model: S,
}

pub type KeyboardLayout = KeyboardLayoutOf<String>;

impl View for KeyboardLayoutOf<String> {
    type V = KeyboardLayoutOf<Seq<char>>;

    open spec fn view(&self) -> KeyboardLayoutOf<Seq<char>> {
        KeyboardLayoutOf {
            layout: self.layout@,
            variant: self.variant@,
            options: self.options@,
            model: self.model@,
        }
    }
}

/// An optional text, or the default.
pub open spec fn text_or(o: Option<String>, default: Seq<char>) -> Seq<char> {
    match o {
        Some(s) => s@,
        None => default,
    }
}

fn take_text(o: &Option<String>, default: &str) -> (r: String)
    ensures
        r@ == text_or(*o, default@),
{
    match o {
        Some(s) => s.clone(),
        None => default.to_owned(),
    }
}

pub open spec fn keyboard_layout_of(k: KeyboardConfig) -> KeyboardLayoutOf<Seq<char>> {
    KeyboardLayoutOf {
        layout: text_or(k.layout, "us"@),
        variant: text_or(k.variant, ""@),
        options: text_or(k.options, ""@),
        model: text_or(k.model, ""@),
    }
}

pub(crate) fn parse_keyboard_layout(k: &KeyboardConfig) -> (r: KeyboardLayout)
    ensures
        r@ == keyboard_layout_of(*k),
{
    KeyboardLayout {
        layout: take_text(&k.layout, "us"),
        variant: take_text(&k.variant, ""),
        options: take_text(&k.options, ""),
        model: take_text(&k.model, ""),
    }
}

// ── Numbers ──────────────────────────────────────────────────────────

/// A number clamped between 0 and 1.
pub open spec fn unit(v: NumberOf<Seq<char>>) -> Real {
    decoration::clamped(v, decoration::number(0, "0"@), decoration::number(ONE, "1"@))
}

pub open spec fn unit_warning(v: NumberOf<Seq<char>>, field: Seq<char>) -> Seq<
    (Severity, Seq<char>),
> {
    decoration::clamped_warning(
        v,
        decoration::number(0, "0"@),
        decoration::number(ONE, "1"@),
        field,
    )
}

/// An integer floored at zero.
pub open spec fn floored_i32(v: i32) -> i32 {
    if v < 0 {
        0
    } else {
        v
    }
}

fn floor_i32(v: i32, field: &str, errors: &mut Warnings) -> (r: i32)
    ensures
        r == floored_i32(v),
        warnings::warned(final(errors)@) == warnings::warned(old(errors)@)
            + warnings::negative_warning(v, field@),
{
    non_negative(v, field, errors)
}

/// When a threshold gesture fires.
#[derive(Clone, Copy, Debug, PartialEq, Eq, Structural)]
pub struct GestureThresholds {
    pub swipe_distance: Real,
    pub pinch_in_scale: Real,
    pub pinch_out_scale: Real,
}

pub open spec fn thresholds_of(raw: ConfigFile) -> GestureThresholds {
    GestureThresholds {
        swipe_distance: decoration::floored(decoration::number_or(raw.gestures.swipe_threshold, decoration::number(0x4028000000000000, "12"@))),
        pinch_in_scale: decoration::floored(decoration::number_or(raw.gestures.pinch_in_threshold, decoration::number(0x3feb333333333333, "0.85"@))),
        pinch_out_scale: decoration::floored(decoration::number_or(raw.gestures.pinch_out_threshold, decoration::number(0x3ff2666666666666, "1.15"@))),
    }
}

/// The warnings `w`, followed by those of the settings above.
pub open spec fn thresholds_warnings(
    w: Seq<(Severity, Seq<char>)>,
    raw: ConfigFile,
) -> Seq<(Severity, Seq<char>)> {
    w + decoration::floored_warning(decoration::number_or(raw.gestures.swipe_threshold, decoration::number(0x4028000000000000, "12"@)), "gestures.swipe_threshold"@) + decoration::floored_warning(decoration::number_or(raw.gestures.pinch_in_threshold, decoration::number(0x3feb333333333333, "0.85"@)), "gestures.pinch_in_threshold"@) + decoration::floored_warning(decoration::number_or(raw.gestures.pinch_out_threshold, decoration::number(0x3ff2666666666666, "1.15"@)), "gestures.pinch_out_threshold"@)
}

pub(crate) fn parse_thresholds(raw: &ConfigFile, errors: &mut Warnings) -> (r: GestureThresholds)
    ensures
        r == thresholds_of(*raw),
        warnings::warned(final(errors)@) == thresholds_warnings(warnings::warned(old(errors)@), *raw),
{
    let swipe_distance: Real = floor_number(
        take_number(&raw.gestures.swipe_threshold, 0x4028000000000000, "12"),
        "gestures.swipe_threshold",
        errors,
    );
    let pinch_in_scale: Real = floor_number(
        take_number(&raw.gestures.pinch_in_threshold, 0x3feb333333333333, "0.85"),
        "gestures.pinch_in_threshold",
        errors,
    );
    let pinch_out_scale: Real = floor_number(
        take_number(&raw.gestures.pinch_out_threshold, 0x3ff2666666666666, "1.15"),
        "gestures.pinch_out_threshold",
        errors,
    );
    GestureThresholds { swipe_distance, pinch_in_scale, pinch_out_scale }
}

/// Speeds of panning and of the momentum after it.
#[derive(Clone, Copy, Debug, PartialEq, Eq, Structural)]
pub struct Speeds {
    pub trackpad_speed: Real,
    pub mouse_speed: Real,
    pub touch_speed: Real,
    pub drift: Real,
}

pub open spec fn speeds_of(raw: ConfigFile) -> Speeds {
    Speeds {
        trackpad_speed: decoration::floored(decoration::number_or(raw.navigation.trackpad_speed, decoration::number(0x3ff8000000000000, "1.5"@))),
        mouse_speed: decoration::floored(decoration::number_or(raw.navigation.mouse_speed, decoration::number(0x3ff0000000000000, "1"@))),
        touch_speed: decoration::floored(decoration::number_or(raw.navigation.touch_speed, decoration::number(0x3ff0000000000000, "1"@))),
        drift: unit(decoration::number_or(raw.navigation.drift, decoration::number(0x3fe0000000000000, "0.5"@))),
    }
}

/// The warnings `w`, followed by those of the settings above.
pub open spec fn speeds_warnings(
    w: Seq<(Severity, Seq<char>)>,
    raw: ConfigFile,
) -> Seq<(Severity, Seq<char>)> {
    w + decoration::floored_warning(decoration::number_or(raw.navigation.trackpad_speed, decoration::number(0x3ff8000000000000, "1.5"@)), "navigation.trackpad_speed"@) + decoration::floored_warning(decoration::number_or(raw.navigation.mouse_speed, decoration::number(0x3ff0000000000000, "1"@)), "navigation.mouse_speed"@) + decoration::floored_warning(decoration::number_or(raw.navigation.touch_speed, decoration::number(0x3ff0000000000000, "1"@)), "navigation.touch_speed"@) + unit_warning(decoration::number_or(raw.navigation.drift, decoration::number(0x3fe0000000000000, "0.5"@)), "navigation.drift"@)
}

pub(crate) fn parse_speeds(raw: &ConfigFile, errors: &mut Warnings) -> (r: Speeds)
    ensures
        r == speeds_of(*raw),
        warnings::warned(final(errors)@) == speeds_warnings(warnings::warned(old(errors)@), *raw),
{
    let trackpad_speed: Real = floor_number(
        take_number(&raw.navigation.trackpad_speed, 0x3ff8000000000000, "1.5"),
        "navigation.trackpad_speed",
        errors,
    );
    let mouse_speed: Real = floor_number(
        take_number(&raw.navigation.mouse_speed, 0x3ff0000000000000, "1"),
        "navigation.mouse_speed",
        errors,
    );
    let touch_speed: Real = floor_number(
        take_number(&raw.navigation.touch_speed, 0x3ff0000000000000, "1"),
        "navigation.touch_speed",
        errors,
    );
    let drift: Real = clamp_unit(
        take_number(&raw.navigation.drift, 0x3fe0000000000000, "0.5"),
        "navigation.drift",
        errors,
    );
    Speeds { trackpad_speed, mouse_speed, touch_speed, drift }
}

/// Steps, distances and delays with no upper limit, and the cursor opacity.
#[derive(Clone, Copy, Debug, PartialEq, Eq, Structural)]
pub struct Limits {
    pub nudge_step: i32,
    pub pan_step: Real,
    pub repeat_delay: i32,
    pub repeat_rate: i32,
    pub edge_zone: Real,
    pub edge_pan_min: Real,
    pub edge_pan_max: Real,
    pub edge_pan_cursor_zone: Real,
    pub zoom_step: Real,
    pub zoom_touch_speed: Real,
    pub zoom_fit_padding: Real,
    pub snap_gap: Real,
    pub snap_distance: Real,
    pub snap_break_force: Real,
    pub inactive_cursor_opacity: Real,
}

pub open spec fn limits_of(raw: ConfigFile) -> Limits {
    Limits {
        nudge_step: floored_i32(decoration::or_else(raw.navigation.nudge_step, 20)),
        pan_step: decoration::floored(decoration::number_or(raw.navigation.pan_step, decoration::number(0x4059000000000000, "100"@))),
        repeat_delay: floored_i32(decoration::or_else(raw.input.keyboard.repeat_delay, 200)),
        repeat_rate: floored_i32(decoration::or_else(raw.input.keyboard.repeat_rate, 25)),
        edge_zone: decoration::floored(decoration::number_or(raw.navigation.edge_pan.zone, decoration::number(0x4059000000000000, "100"@))),
        edge_pan_min: decoration::floored(decoration::number_or(raw.navigation.edge_pan.speed_min, decoration::number(0x4010000000000000, "4"@))),
        edge_pan_max: decoration::floored(decoration::number_or(raw.navigation.edge_pan.speed_max, decoration::number(0x4024000000000000, "10"@))),
        edge_pan_cursor_zone: decoration::floored(decoration::number_or(raw.navigation.edge_pan.cursor_zone, decoration::number(0x4034000000000000, "20"@))),
        zoom_step: decoration::floored(decoration::number_or(raw.zoom.step, decoration::number(0x3ff199999999999a, "1.1"@))),
        zoom_touch_speed: decoration::floored(decoration::number_or(raw.zoom.touch_speed, decoration::number(0x3ff0000000000000, "1"@))),
        zoom_fit_padding: decoration::floored(decoration::number_or(raw.zoom.fit_padding, decoration::number(0x4054000000000000, "80"@))),
        snap_gap: decoration::floored(decoration::number_or(raw.snap.gap, decoration::number(0x4028000000000000, "12"@))),
        snap_distance: decoration::floored(decoration::number_or(raw.snap.distance, decoration::number(0x4038000000000000, "24"@))),
        snap_break_force: decoration::floored(decoration::number_or(raw.snap.break_force, decoration::number(0x4040000000000000, "32"@))),
        inactive_cursor_opacity: unit(decoration::number_or(raw.cursor.inactive_opacity, decoration::number(0x3fe0000000000000, "0.5"@))),
    }
}

/// The warnings `w`, followed by those of the settings above.
pub open spec fn limits_warnings(
    w: Seq<(Severity, Seq<char>)>,
    raw: ConfigFile,
) -> Seq<(Severity, Seq<char>)> {
    w + warnings::negative_warning(decoration::or_else(raw.navigation.nudge_step, 20), "navigation.nudge_step"@) + decoration::floored_warning(decoration::number_or(raw.navigation.pan_step, decoration::number(0x4059000000000000, "100"@)), "navigation.pan_step"@) + warnings::negative_warning(decoration::or_else(raw.input.keyboard.repeat_delay, 200), "input.keyboard.repeat_delay"@) + warnings::negative_warning(decoration::or_else(raw.input.keyboard.repeat_rate, 25), "input.keyboard.repeat_rate"@) + decoration::floored_warning(decoration::number_or(raw.navigation.edge_pan.zone, decoration::number(0x4059000000000000, "100"@)), "navigation.edge_pan.zone"@) + decoration::floored_warning(decoration::number_or(raw.navigation.edge_pan.speed_min, decoration::number(0x4010000000000000, "4"@)), "navigation.edge_pan.speed_min"@) + decoration::floored_warning(decoration::number_or(raw.navigation.edge_pan.speed_max, decoration::number(0x4024000000000000, "10"@)), "navigation.edge_pan.speed_max"@) + decoration::floored_warning(decoration::number_or(raw.navigation.edge_pan.cursor_zone, decoration::number(0x4034000000000000, "20"@)), "navigation.edge_pan.cursor_zone"@) + decoration::floored_warning(decoration::number_or(raw.zoom.step, decoration::number(0x3ff199999999999a, "1.1"@)), "zoom.step"@) + decoration::floored_warning(decoration::number_or(raw.zoom.touch_speed, decoration::number(0x3ff0000000000000, "1"@)), "zoom.touch_speed"@) + decoration::floored_warning(decoration::number_or(raw.zoom.fit_padding, decoration::number(0x4054000000000000, "80"@)), "zoom.fit_padding"@) + decoration::floored_warning(decoration::number_or(raw.snap.gap, decoration::number(0x4028000000000000, "12"@)), "snap.gap"@) + decoration::floored_warning(decoration::number_or(raw.snap.distance, decoration::number(0x4038000000000000, "24"@)), "snap.distance"@) + decoration::floored_warning(decoration::number_or(raw.snap.break_force, decoration::number(0x4040000000000000, "32"@)), "snap.break_force"@) + unit_warning(decoration::number_or(raw.cursor.inactive_opacity, decoration::number(0x3fe0000000000000, "0.5"@)), "cursor.inactive_opacity"@)
}

pub(crate) fn parse_limits(raw: &ConfigFile, errors: &mut Warnings) -> (r: Limits)
    ensures
        r == limits_of(*raw),
        warnings::warned(final(errors)@) == limits_warnings(warnings::warned(old(errors)@), *raw),
{
    let nudge_step: i32 = floor_i32(raw.navigation.nudge_step.unwrap_or(20), "navigation.nudge_step", errors);
    let pan_step: Real = floor_number(
        take_number(&raw.navigation.pan_step, 0x4059000000000000, "100"),
        "navigation.pan_step",
        errors,
    );
    let repeat_delay: i32 = floor_i32(raw.input.keyboard.repeat_delay.unwrap_or(200), "input.keyboard.repeat_delay", errors);
    let repeat_rate: i32 = floor_i32(raw.input.keyboard.repeat_rate.unwrap_or(25), "input.keyboard.repeat_rate", errors);
    let edge_zone: Real = floor_number(
        take_number(&raw.navigation.edge_pan.zone, 0x4059000000000000, "100"),
        "navigation.edge_pan.zone",
        errors,
    );
    let edge_pan_min: Real = floor_number(
        take_number(&raw.navigation.edge_pan.speed_min, 0x4010000000000000, "4"),
        "navigation.edge_pan.speed_min",
        errors,
    );
    let edge_pan_max: Real = floor_number(
        take_number(&raw.navigation.edge_pan.speed_max, 0x4024000000000000, "10"),
        "navigation.edge_pan.speed_max",
        errors,
    );
    let edge_pan_cursor_zone: Real = floor_number(
        take_number(&raw.navigation.edge_pan.cursor_zone, 0x4034000000000000, "20"),
        "navigation.edge_pan.cursor_zone",
        errors,
    );
    let zoom_step: Real = floor_number(
        take_number(&raw.zoom.step, 0x3ff199999999999a, "1.1"),
        "zoom.step",
        errors,
    );
    let zoom_touch_speed: Real = floor_number(
        take_number(&raw.zoom.touch_speed, 0x3ff0000000000000, "1"),
        "zoom.touch_speed",
        errors,
    );
    let zoom_fit_padding: Real = floor_number(
        take_number(&raw.zoom.fit_padding, 0x4054000000000000, "80"),
        "zoom.fit_padding",
        errors,
    );
    let snap_gap: Real = floor_number(
        take_number(&raw.snap.gap, 0x4028000000000000, "12"),
        "snap.gap",
        errors,
    );
    let snap_distance: Real = floor_number(
        take_number(&raw.snap.distance, 0x4038000000000000, "24"),
        "snap.distance",
        errors,
    );
    let snap_break_force: Real = floor_number(
        take_number(&raw.snap.break_force, 0x4040000000000000, "32"),
        "snap.break_force",
        errors,
    );
    let inactive_cursor_opacity: Real = clamp_unit(
        take_number(&raw.cursor.inactive_opacity, 0x3fe0000000000000, "0.5"),
        "cursor.inactive_opacity",
        errors,
    );
    Limits { nudge_step, pan_step, repeat_delay, repeat_rate, edge_zone, edge_pan_min, edge_pan_max, edge_pan_cursor_zone, zoom_step, zoom_touch_speed, zoom_fit_padding, snap_gap, snap_distance, snap_break_force, inactive_cursor_opacity }
}

/// 0.3
pub const THREE_TENTHS: u64 = 0x3fd3_3333_3333_3333;

/// Is an animation speed unusable? At zero the camera never reaches its
/// target, so it is rejected like what is negative or not a number.
pub open spec fn freezes(n: Real) -> bool {
    numbers::real_rank(n) is None || numbers::real_rank(n)->0 <= 0
}

pub open spec fn animation_speed_of(o: Option<Number>) -> Real {
    match o {
        Some(n) => if freezes(n.value) {
            Real { bits: THREE_TENTHS }
        } else {
            unit(n@)
        },
        None => unit(decoration::number(THREE_TENTHS, "0.3"@)),
    }
}

pub open spec fn animation_speed_warning(o: Option<Number>) -> Seq<(Severity, Seq<char>)> {
    match o {
        Some(n) => if freezes(n.value) {
            warnings::rejected(
                "config: navigation.animation_speed "@ + n.text@
                    + " must be in (0, 1] (0 freezes the camera), using 0.3"@,
            )
        } else {
            unit_warning(n@, "navigation.animation_speed"@)
        },
        None => unit_warning(
            decoration::number(THREE_TENTHS, "0.3"@),
            "navigation.animation_speed"@,
        ),
    }
}

pub(crate) fn parse_animation_speed(o: &Option<Number>, errors: &mut Warnings) -> (r: Real)
    ensures
        r == animation_speed_of(*o),
        warnings::warned(final(errors)@) == warnings::warned(old(errors)@)
            + animation_speed_warning(*o),
{
    match o {
        Some(n) => {
            let zero: Real = Real { bits: 0 };
            if !zero.less(&n.value) {
                collect_warn(
                    errors,
                    join3(
                        "config: navigation.animation_speed ",
                        n.text.as_str(),
                        " must be in (0, 1] (0 freezes the camera), using 0.3",
                    ),
                );
                Real { bits: THREE_TENTHS }
            } else {
                clamp_unit(n.duplicate(), "navigation.animation_speed", errors)
            }
        },
        None => clamp_unit(
            Number::new(THREE_TENTHS, "0.3"),
            "navigation.animation_speed",
            errors,
        ),
    }
}

/// A warning where a setting was given under its former name.
pub open spec fn renamed_warning(given: bool, msg: Seq<char>) -> Seq<(Severity, Seq<char>)> {
    if given {
        warnings::rejected(msg)
    } else {
        warnings::silent()
    }
}

/// The warnings `w`, followed by those about settings under former names.
pub open spec fn renamed_warnings(w: Seq<(Severity, Seq<char>)>, raw: ConfigFile) -> Seq<
    (Severity, Seq<char>),
> {
    w + renamed_warning(
        raw.navigation.friction is Some,
        "config: [navigation] friction was renamed to drift — use 0 (off) to 1 (floatiest), default 0.5"@,
    ) + renamed_warning(
        raw.snap.same_edge is Some,
        "config: [snap] same_edge was renamed to corners"@,
    ) + renamed_warning(
        raw.snap.edge_center is Some,
        "config: [snap] edge_center was renamed to centers"@,
    )
}

fn warn_if(given: bool, msg: &str, errors: &mut Warnings)
    ensures
        warnings::warned(final(errors)@) == warnings::warned(old(errors)@) + renamed_warning(
            given,
            msg@,
        ),
{
    proof {
        warnings::lemma_silent(warnings::warned(errors@));
    }
    if given {
        collect_warn(errors, msg.to_owned());
    }
}

pub(crate) fn warn_renamed(raw: &ConfigFile, errors: &mut Warnings)
    ensures
        warnings::warned(final(errors)@) == renamed_warnings(warnings::warned(old(errors)@), *raw),
{
    warn_if(
        raw.navigation.friction.is_some(),
        "config: [navigation] friction was renamed to drift — use 0 (off) to 1 (floatiest), default 0.5",
        errors,
    );
    warn_if(
        raw.snap.same_edge.is_some(),
        "config: [snap] same_edge was renamed to corners",
        errors,
    );
    warn_if(
        raw.snap.edge_center.is_some(),
        "config: [snap] edge_center was renamed to centers",
        errors,
    );
}

// ── Window rules and outputs ─────────────────────────────────────────

/// The rules that entries stand for, in order, without those that stand for
/// none, and the warnings `w` followed by theirs.
pub open spec fn rules_after(
    w: Seq<(Severity, Seq<char>)>,
    entries: Seq<WindowRuleFile>,
    mod_key: ModKey,
    table: Seq<(Seq<char>, u32)>,
) -> (Seq<WindowRuleOf<Seq<char>, Seq<KeyCombo>>>, Seq<(Severity, Seq<char>)>)
    decreases entries.len(),
{
    if entries.len() == 0 {
        (Seq::empty(), w)
    } else {
        let (rules, w1) = rules_after(w, entries.drop_last(), mod_key, table);
        let w2 = window_rules::window_rule_warnings(w1, entries.last(), mod_key, table);
        match window_rules::window_rule_of(entries.last(), mod_key, table) {
            Some(r) => (rules.push(r), w2),
            None => (rules, w2),
        }
    }
}

/// The entries of an optional list: one that is absent is empty.
pub open spec fn entries_of<T>(o: Option<Vec<T>>) -> Seq<T> {
    match o {
        Some(v) => v@,
        None => Seq::empty(),
    }
}

pub(crate) fn parse_rules(
    o: &Option<Vec<WindowRuleFile>>,
    mod_key: ModKey,
    keysyms: &KeysymTable,
    errors: &mut Warnings,
) -> (r: Vec<WindowRule>)
    requires
        raw::rules_readable(entries_of(*o)),
    ensures
        (window_rules::rule_models(r@), warnings::warned(final(errors)@)) == rules_after(
            warnings::warned(old(errors)@),
            entries_of(*o),
            mod_key,
            keysyms@,
        ),
{
    let mut rules: Vec<WindowRule> = Vec::new();
    proof {
        assert(window_rules::rule_models(rules@) =~= Seq::empty());
    }
    if let Some(v) = o {
        let n: usize = v.len();
        let ghost start = warnings::warned(errors@);
        let mut i: usize = 0;
        while i < n
            invariant
                i <= n,
                n == v@.len(),
                raw::rules_readable(v@),
                (window_rules::rule_models(rules@), warnings::warned(errors@)) == rules_after(
                    start,
                    v@.take(i as int),
                    mod_key,
                    keysyms@,
                ),
            decreases n - i,
        {
            proof {
                assert(v@.take(i + 1).drop_last() =~= v@.take(i as int));
            }
            let ghost before = rules@;
            match parse_window_rule(&v[i], mod_key, keysyms, errors) {
                Some(rule) => {
                    rules.push(rule);
                    proof {
                        assert(window_rules::rule_models(rules@) =~= window_rules::rule_models(
                            before,
                        ).push(rule@));
                    }
                },
                None => {},
            }
            i = i + 1;
        }
        proof {
            assert(v@.take(n as int) =~= v@);
        }
    }
    rules
}

/// Is there an output of the given name?
pub open spec fn has_output(configs: Seq<OutputConfigOf<Seq<char>>>, name: Seq<char>) -> bool {
    exists|i: int| 0 <= i < configs.len() && (#[trigger] configs[i]).name == name
}

/// The outputs that entries stand for, in order, and the warnings `w` followed
/// by theirs. Of two entries for one name the first is kept.
pub open spec fn outputs_after(w: Seq<(Severity, Seq<char>)>, entries: Seq<OutputRuleFile>) -> (
    Seq<OutputConfigOf<Seq<char>>>,
    Seq<(Severity, Seq<char>)>,
)
    decreases entries.len(),
{
    if entries.len() == 0 {
        (Seq::empty(), w)
    } else {
        let (configs, w1) = outputs_after(w, entries.drop_last());
        match outputs::output_rule_of(entries.last()) {
            Ok(c) => if has_output(configs, c.name) {
                (
                    configs,
                    w1 + warnings::rejected(
                        "config: duplicate [[outputs]] name '"@ + c.name + "', keeping first"@,
                    ),
                )
            } else {
                (configs.push(c), w1)
            },
            Err(e) => (
                configs,
                w1 + warnings::rejected("config: bad [[outputs]] entry: "@ + e),
            ),
        }
    }
}

/// Models of a list of outputs.
pub open spec fn output_models(v: Seq<OutputConfig>) -> Seq<OutputConfigOf<Seq<char>>> {
    v.map_values(|c: OutputConfig| c@)
}

/// The index of the first output of the given name at or after `i`, or the
/// length.
pub open spec fn output_index(configs: Seq<OutputConfigOf<Seq<char>>>, name: Seq<char>, i: int) -> int
    decreases configs.len() - i,
{
    if i >= configs.len() {
        configs.len() as int
    } else if configs[i].name == name {
        i
    } else {
        output_index(configs, name, i + 1)
    }
}

pub proof fn lemma_output_index(configs: Seq<OutputConfigOf<Seq<char>>>, name: Seq<char>, i: int)
    requires
        0 <= i <= configs.len(),
    ensures
        i <= output_index(configs, name, i) <= configs.len(),
        output_index(configs, name, i) < configs.len() ==> configs[output_index(
            configs,
            name,
            i,
        )].name == name,
        forall|j: int| i <= j < output_index(configs, name, i) ==> (#[trigger] configs[j]).name
            != name,
    decreases configs.len() - i,
{
    if i < configs.len() && configs[i].name != name {
        lemma_output_index(configs, name, i + 1);
    }
}

pub(crate) fn find_output(configs: &Vec<OutputConfig>, name: &str) -> (r: usize)
    ensures
        r == output_index(output_models(configs@), name@, 0),
        r <= configs@.len(),
{
    let n: usize = configs.len();
    let ghost all = output_models(configs@);
    let mut i: usize = 0;
    while i < n
        invariant
            i <= n,
            n == configs@.len(),
            all == output_models(configs@),
            output_index(all, name@, 0) == output_index(all, name@, i as int),
        decreases n - i,
    {
        proof {
            assert(all[i as int] == configs@[i as int]@);
        }
        if text_eq(configs[i].name.as_str(), name) {
            return i;
        }
        i = i + 1;
    }
    n
}

pub(crate) fn parse_outputs(o: &Option<Vec<OutputRuleFile>>, errors: &mut Warnings) -> (r: Vec<OutputConfig>)
    ensures
        (output_models(r@), warnings::warned(final(errors)@)) == outputs_after(
            warnings::warned(old(errors)@),
            entries_of(*o),
        ),
{
    let mut configs: Vec<OutputConfig> = Vec::new();
    proof {
        assert(output_models(configs@) =~= Seq::empty());
    }
    if let Some(v) = o {
        let n: usize = v.len();
        let ghost start = warnings::warned(errors@);
        let mut i: usize = 0;
        while i < n
            invariant
                i <= n,
                n == v@.len(),
                (output_models(configs@), warnings::warned(errors@)) == outputs_after(
                    start,
                    v@.take(i as int),
                ),
            decreases n - i,
        {
            proof {
                assert(v@.take(i + 1).drop_last() =~= v@.take(i as int));
            }
            let ghost before = configs@;
            match parse_output_rule(&v[i]) {
                Ok(c) => {
                    proof {
                        lemma_output_index(output_models(before), c.name@, 0);
                        assert(output_models(before).len() == before.len());
                    }
                    if find_output(&configs, c.name.as_str()) < configs.len() {
                        collect_warn(
                            errors,
                            join3(
                                "config: duplicate [[outputs]] name '",
                                c.name.as_str(),
                                "', keeping first",
                            ),
                        );
                    } else {
                        configs.push(c);
                        proof {
                            assert(output_models(configs@) =~= output_models(before).push(c@));
                        }
                    }
                },
                Err(e) => {
                    let mut m: String = "config: bad [[outputs]] entry: ".to_owned();
                    m.append(e.as_str());
                    collect_warn(errors, m);
                },
            }
            i = i + 1;
        }
        proof {
            assert(v@.take(n as int) =~= v@);
        }
    }
    configs
}

// ── Environment of child processes ───────────────────────────────────

/// Environment variables that toolkits fall back on.
pub open spec fn toolkit_defaults() -> Seq<(Seq<char>, Seq<char>)> {
    seq![
        ("MOZ_ENABLE_WAYLAND"@, "1"@),
        ("QT_QPA_PLATFORM"@, "wayland;xcb"@),
        ("SDL_VIDEODRIVER"@, "wayland,x11"@),
        ("GDK_BACKEND"@, "wayland,x11"@),
        ("ELECTRON_OZONE_PLATFORM_HINT"@, "wayland"@),
    ]
}

/// The environment with one variable set, where there is a value for it.
pub open spec fn with_var(
    env: Seq<(Seq<char>, Seq<char>)>,
    name: Seq<char>,
    value: Option<Seq<char>>,
) -> Seq<(Seq<char>, Seq<char>)> {
    match value {
        Some(v) => bindings::bind(env, name, v),
        None => env,
    }
}

/// The cursor size, unless it is 0, which means the same as unset.
pub open spec fn cursor_size_of(o: Option<u32>) -> Option<u32> {
    if o == Some(0u32) {
        None
    } else {
        o
    }
}

pub(crate) fn nonzero_size(o: Option<u32>) -> (r: Option<u32>)
    ensures
        r == cursor_size_of(o),
{
    match o {
        Some(n) => {
            if n == 0 {
                None
            } else {
                Some(n)
            }
        },
        None => None,
    }
}

/// The environment of child processes. Later layers win: toolkit defaults,
/// the cursor's variables, the user's own.
pub open spec fn child_env_of(raw: ConfigFile) -> Seq<(Seq<char>, Seq<char>)> {
    let size = match cursor_size_of(raw.cursor.size) {
        Some(n) => Some(text::int_text(n as int)),
        None => None,
    };
    bindings::bind_all(
        with_var(
            with_var(toolkit_defaults(), "XCURSOR_THEME"@, unless_none(raw.cursor.theme)),
            "XCURSOR_SIZE"@,
            size,
        ),
        merge::table_views(raw.env@),
    )
}

fn set_var(env: &mut Table, name: &str, value: &str)
    ensures
        merge::table_views(final(env)@) == bindings::bind(
            merge::table_views(old(env)@),
            name@,
            value@,
        ),
{
    let n: usize = env.len();
    let ghost all = merge::table_views(env@);
    let mut i: usize = 0;
    while i < n
        invariant
            i <= n,
            n == env@.len(),
            all == merge::table_views(env@),
            bindings::index_of(all, name@, 0) == bindings::index_of(all, name@, i as int),
            env@ == old(env)@,
        decreases n - i,
    {
        proof {
            assert(all[i as int] == (env@[i as int].0@, env@[i as int].1@));
        }
        if text_eq(env[i].0.as_str(), name) {
            env.set(i, (name.to_owned(), value.to_owned()));
            proof {
                assert(merge::table_views(env@) =~= bindings::bind(all, name@, value@));
            }
            return;
        }
        i = i + 1;
    }
    env.push((name.to_owned(), value.to_owned()));
    proof {
        assert(merge::table_views(env@) =~= bindings::bind(all, name@, value@));
    }
}

fn toolkit_env() -> (r: Table)
    ensures
        merge::table_views(r@) == toolkit_defaults(),
{
    let r: Table = vec![
        ("MOZ_ENABLE_WAYLAND".to_owned(), "1".to_owned()),
        ("QT_QPA_PLATFORM".to_owned(), "wayland;xcb".to_owned()),
        ("SDL_VIDEODRIVER".to_owned(), "wayland,x11".to_owned()),
        ("GDK_BACKEND".to_owned(), "wayland,x11".to_owned()),
        ("ELECTRON_OZONE_PLATFORM_HINT".to_owned(), "wayland".to_owned()),
    ];
    proof {
        assert(merge::table_views(r@) =~= toolkit_defaults());
    }
    r
}

/// Build the environment of child processes.
pub fn build_child_env(raw: &ConfigFile) -> (r: Table)
    ensures
        merge::table_views(r@) == child_env_of(*raw),
{
    let mut env: Table = toolkit_env();
    if let Some(theme) = drop_none(&raw.cursor.theme) {
        set_var(&mut env, "XCURSOR_THEME", theme.as_str());
    }
    if let Some(n) = raw.cursor.size {
        if n != 0 {
            let shown: String = show_i64(n as i64);
            set_var(&mut env, "XCURSOR_SIZE", shown.as_str());
        }
    }
    let n: usize = raw.env.len();
    let ghost all = merge::table_views(raw.env@);
    let ghost start = merge::table_views(env@);
    let mut i: usize = 0;
    while i < n
        invariant
            i <= n,
            n == raw.env@.len(),
            all == merge::table_views(raw.env@),
            merge::table_views(env@) == bindings::bind_all(start, all.take(i as int)),
        decreases n - i,
    {
        proof {
            assert(all.take(i + 1).drop_last() =~= all.take(i as int));
            assert(all.take(i + 1).last() == (raw.env@[i as int].0@, raw.env@[i as int].1@));
        }
        set_var(&mut env, raw.env[i].0.as_str(), raw.env[i].1.as_str());
        i = i + 1;
    }
    proof {
        assert(all.take(n as int) =~= all);
    }
    env
}

// ── Key names ────────────────────────────────────────────────────────

/// The last parts of a list of combo texts.
pub open spec fn last_parts(keys: Seq<Seq<char>>) -> Seq<Seq<char>> {
    keys.map_values(|k: Seq<char>| parse::last_part(k))
}

/// The key names that a binding table mentions.
pub open spec fn table_names(entries: Seq<(Seq<char>, Seq<char>)>) -> Seq<Seq<char>> {
    entries.map_values(|e: (Seq<char>, Seq<char>)| parse::last_part(e.0))
}

/// The key names that a window rule mentions.
pub open spec fn pass_key_names(r: WindowRuleFile) -> Seq<Seq<char>> {
    match r.pass_keys {
        Some(window_rules::PassKeysFile::Keys(strs)) => last_parts(text::string_views(strs@)),
        _ => Seq::empty(),
    }
}

/// The key names that window rules mention.
pub open spec fn rule_key_names(rules: Seq<WindowRuleFile>) -> Seq<Seq<char>>
    decreases rules.len(),
{
    if rules.len() == 0 {
        Seq::empty()
    } else {
        rule_key_names(rules.drop_last()) + pass_key_names(rules.last())
    }
}

/// The key names that a file mentions: their symbols have to be known to read
/// it.
pub open spec fn key_names_of(raw: ConfigFile) -> Seq<Seq<char>> {
    table_names(merge::opt_table(raw.keybindings)) + rule_key_names(entries_of(raw.window_rules))
}

fn push_pass_names(r: &WindowRuleFile, names: &mut Vec<String>)
    ensures
        text::string_views(final(names)@) == text::string_views(old(names)@) + pass_key_names(*r),
{
    let ghost start = text::string_views(names@);
    if let Some(window_rules::PassKeysFile::Keys(strs)) = &r.pass_keys {
        let n: usize = strs.len();
        let ghost all = last_parts(text::string_views(strs@));
        let mut i: usize = 0;
        proof {
            assert(start + all.take(0) =~= start);
        }
        while i < n
            invariant
                i <= n,
                n == strs@.len(),
                all == last_parts(text::string_views(strs@)),
                text::string_views(names@) == start + all.take(i as int),
            decreases n - i,
        {
            let ghost before = names@;
            let s: String = key_name(strs[i].as_str()).to_owned();
            names.push(s);
            proof {
                assert(all[i as int] == s@);
                assert(text::string_views(names@) =~= text::string_views(before).push(s@));
                assert(all.take(i + 1) =~= all.take(i as int).push(s@));
                assert(start + all.take(i + 1) =~= (start + all.take(i as int)).push(s@));
            }
            i = i + 1;
        }
        proof {
            assert(all.take(n as int) =~= all);
        }
    } else {
        proof {
            assert(start + pass_key_names(*r) =~= start);
        }
    }
}

fn push_table_names(t: &Option<Table>, names: &mut Vec<String>)
    ensures
        text::string_views(final(names)@) == text::string_views(old(names)@) + table_names(
            merge::opt_table(*t),
        ),
{
    let ghost start = text::string_views(names@);
    if let Some(v) = t {
        let n: usize = v.len();
        let ghost all = table_names(merge::table_views(v@));
        let mut i: usize = 0;
        proof {
            assert(start + all.take(0) =~= start);
        }
        while i < n
            invariant
                i <= n,
                n == v@.len(),
                all == table_names(merge::table_views(v@)),
                text::string_views(names@) == start + all.take(i as int),
            decreases n - i,
        {
            let ghost before = names@;
            let s: String = key_name(v[i].0.as_str()).to_owned();
            names.push(s);
            proof {
                assert(all[i as int] == s@);
                assert(text::string_views(names@) =~= text::string_views(before).push(s@));
                assert(all.take(i + 1) =~= all.take(i as int).push(s@));
                assert(start + all.take(i + 1) =~= (start + all.take(i as int)).push(s@));
            }
            i = i + 1;
        }
        proof {
            assert(all.take(n as int) =~= all);
        }
    } else {
        proof {
            assert(start + table_names(merge::opt_table(*t)) =~= start);
        }
    }
}

impl ConfigFile {
    /// The key names that the file mentions.
    pub fn key_names(&self) -> (r: Vec<String>)
        ensures
            text::string_views(r@) == key_names_of(*self),
    {
        let mut names: Vec<String> = Vec::new();
        push_table_names(&self.keybindings, &mut names);
        let ghost start = text::string_views(names@);
        proof {
            assert(start =~= table_names(merge::opt_table(self.keybindings)));
            assert(start + Seq::<Seq<char>>::empty() =~= start);
        }
        if let Some(rules) = &self.window_rules {
            let n: usize = rules.len();
            let mut i: usize = 0;
            proof {
                assert(start + rule_key_names(rules@.take(0)) =~= start);
            }
            while i < n
                invariant
                    i <= n,
                    n == rules@.len(),
                    text::string_views(names@) == start + rule_key_names(rules@.take(i as int)),
                decreases n - i,
            {
                proof {
                    assert(rules@.take(i + 1).drop_last() =~= rules@.take(i as int));
                    assert((start + rule_key_names(rules@.take(i as int))) + pass_key_names(
                        rules@[i as int],
                    ) =~= start + rule_key_names(rules@.take(i + 1)));
                }
                push_pass_names(&rules[i], &mut names);
                i = i + 1;
            }
            proof {
                assert(rules@.take(n as int) =~= rules@);
            }
        }
        names
    }
}

} // verus!
