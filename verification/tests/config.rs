use driftwm::config::bindings::BindingContext;
use driftwm::config::numbers::{Number, Real};
use driftwm::config::outputs::{OutputRuleFile, PositionValue};
use driftwm::config::patterns::{parse_pattern, pattern_from, Pattern};
use driftwm::config::raw::{ConfigFile, ContextTables};
use driftwm::config::warnings::{clamp_warn, non_negative, Warnings};
use driftwm::config::window_rules::{PassKeysFile, WindowRuleFile};
use driftwm::config::{
    config_path, expand_tilde, Action, AxisSource, BackgroundKind, Config, ConfigSource,
    DecorationMode, Direction,
    GestureConfigEntry, GestureTrigger, KeyCombo, Keysym, KeysymTable, LayoutSwitch, ModKey,
    Modifiers, ModifiersState, MouseAction, OutputMode, OutputPosition, PassKeys, ThresholdAction,
    Transform, WindowPlacement,
};
use toml::{Table, Value};

fn num(v: f64) -> Number {
    Number::new(v.to_bits(), &format!("{v}"))
}

fn f(r: Real) -> f64 {
    f64::from_bits(r.bits)
}

fn table<'a>(t: &'a Table, path: &[&str]) -> Option<&'a Table> {
    let mut cur = t;
    for p in path {
        cur = cur.get(*p)?.as_table()?;
    }
    Some(cur)
}

fn text(t: Option<&Table>, key: &str) -> Option<String> {
    t?.get(key)?.as_str().map(|s| s.to_string())
}

fn flag(t: Option<&Table>, key: &str) -> Option<bool> {
    t?.get(key)?.as_bool()
}

fn float(t: Option<&Table>, key: &str) -> Option<Number> {
    t?.get(key)?.as_float().map(num)
}

fn pairs(t: Option<&Table>) -> Option<Vec<(String, String)>> {
    t.map(|t| {
        t.iter()
            .map(|(k, v)| (k.clone(), v.as_str().unwrap().to_string()))
            .collect()
    })
}

fn contexts(t: &Table, name: &str) -> ContextTables {
    ContextTables {
        on_window: pairs(table(t, &[name, "on-window"])),
        on_canvas: pairs(table(t, &[name, "on-canvas"])),
        anywhere: pairs(table(t, &[name, "anywhere"])),
    }
}

fn output(t: &Table) -> OutputRuleFile {
    OutputRuleFile {
        name: text(Some(t), "name").unwrap(),
        scale: float(Some(t), "scale"),
        transform: text(Some(t), "transform"),
        position: t.get("position").map(|v| match v {
            Value::String(s) => PositionValue::Text(s.clone()),
            Value::Array(a) => PositionValue::Array(a.iter().map(|v| v.as_integer()).collect()),
            _ => PositionValue::Other,
        }),
        mode: text(Some(t), "mode"),
    }
}

/// The settings of a TOML text that the tests below use.
fn parse(toml_str: &str) -> ConfigFile {
    let t: Table = toml::from_str(toml_str).unwrap();
    let mut raw = ConfigFile::empty();
    let trackpad = table(&t, &["input", "trackpad"]);
    raw.input.trackpad.accel_speed = float(trackpad, "accel_speed");
    let keyboard = table(&t, &["input", "keyboard"]);
    raw.input.keyboard.options = text(keyboard, "options");
    raw.input.keyboard.remember_layout_per_window = flag(keyboard, "remember_layout_per_window");
    raw.decorations.font_weight = text(table(&t, &["decorations"]), "font_weight");
    let navigation = table(&t, &["navigation"]);
    raw.navigation.drift = float(navigation, "drift");
    raw.navigation.trackpad_speed = float(navigation, "trackpad_speed");
    raw.navigation.animation_speed = float(navigation, "animation_speed");
    raw.keybindings = pairs(table(&t, &["keybindings"]));
    raw.mouse.bindings = contexts(&t, "mouse");
    raw.gestures.bindings = contexts(&t, "gestures");
    raw.touch = contexts(&t, "touch");
    if let Some(Value::Array(a)) = t.get("outputs") {
        raw.outputs = Some(a.iter().map(|v| output(v.as_table().unwrap())).collect());
    }
    raw
}

fn keysyms() -> KeysymTable {
    KeysymTable {
        entries: vec![
            ("q".into(), 0x71),
            ("x".into(), 0x78),
            ("tab".into(), 0xff09),
        ],
    }
}

fn collect(raw: &ConfigFile) -> (Config, Vec<String>) {
    Config::from_raw_collect(raw, Some("/home/me"), &keysyms())
}

fn from_toml_collect(toml_str: &str) -> (Config, Vec<String>) {
    collect(&parse(toml_str))
}

fn from_toml(toml_str: &str) -> Config {
    from_toml_collect(toml_str).0
}

fn held(logo: bool, alt: bool, shift: bool, ctrl: bool) -> ModifiersState {
    ModifiersState {
        ctrl,
        alt,
        shift,
        caps_lock: true,
        logo,
        num_lock: true,
        iso_level3_shift: true,
        iso_level5_shift: false,
    }
}

#[test]
fn clamp_warn_in_range_is_silent() {
    let mut errors: Warnings = Vec::new();
    assert_eq!(clamp_warn(5, 0, 10, "x", &mut errors), 5);
    assert!(errors.is_empty());
}

#[test]
fn clamp_warn_below_min_clamps_and_collects() {
    let mut errors: Warnings = Vec::new();
    assert_eq!(clamp_warn(-3, 0, 10, "x", &mut errors), 0);
    assert_eq!(errors.len(), 1);
    assert_eq!(errors[0].1, "config: x -3 below minimum 0, using 0");
}

#[test]
fn clamp_warn_above_max_clamps_and_collects() {
    let mut errors: Warnings = Vec::new();
    assert_eq!(
        f(clamp_warn(num(99.0), num(0.0), num(1.0), "x", &mut errors).value),
        1.0
    );
    assert_eq!(errors.len(), 1);
    assert_eq!(errors[0].1, "config: x 99 above maximum 1, using 1");
}

#[test]
fn non_negative_passes_through_when_positive() {
    let mut errors: Warnings = Vec::new();
    assert_eq!(f(non_negative(num(3.5), "x", &mut errors).value), 3.5);
    assert_eq!(non_negative(0, "y", &mut errors), 0);
    assert!(errors.is_empty());
}

#[test]
fn non_negative_floors_and_collects_when_negative() {
    let mut errors: Warnings = Vec::new();
    assert_eq!(f(non_negative(num(-2.0), "x", &mut errors).value), 0.0);
    assert_eq!(non_negative(-7, "y", &mut errors), 0);
    assert_eq!(errors.len(), 2);
    assert_eq!(errors[0].1, "config: x -2 is negative, using 0");
}

#[test]
fn nan_is_treated_as_invalid_not_silently_passed() {
    let mut errors: Warnings = Vec::new();
    assert_eq!(
        f(clamp_warn(num(f64::NAN), num(0.0), num(1.0), "x", &mut errors).value),
        0.0
    );
    assert_eq!(f(non_negative(num(f64::NAN), "y", &mut errors).value), 0.0);
    assert_eq!(errors.len(), 2);
}

#[test]
fn rejections_sort_before_clamps_for_error_bar() {
    // accel_speed is parsed before [decorations], so without severity
    // ordering the auto-clamped value would occupy the bar's first slot.
    let toml_str = r#"
        [input.trackpad]
        accel_speed = 5.0

        [decorations]
        font_weight = "bogus"
    "#;
    let (_config, warnings) = from_toml_collect(toml_str);
    assert!(warnings[0].contains("font_weight"), "got: {warnings:?}");
    assert!(warnings.iter().any(|w| w.contains("accel_speed")));
}

#[test]
fn out_of_range_navigation_values_warn_and_clamp() {
    let toml_str = r#"
        [navigation]
        drift = 5.0
        trackpad_speed = -2.0
    "#;
    let (config, warnings) = from_toml_collect(toml_str);
    assert_eq!(f(config.drift), 1.0);
    assert_eq!(f(config.trackpad_speed), 0.0);
    assert!(warnings.iter().any(|w| w.contains("navigation.drift")));
    assert!(warnings
        .iter()
        .any(|w| w.contains("navigation.trackpad_speed")));
}

#[test]
fn animation_speed_zero_falls_back_to_default() {
    let toml_str = r#"
        [navigation]
        animation_speed = 0.0
    "#;
    let (config, warnings) = from_toml_collect(toml_str);
    assert_eq!(f(config.animation_speed), 0.3);
    assert!(warnings.iter().any(|w| w.contains("animation_speed")));
}

#[test]
fn parse_output_rule_negative_scale() {
    let toml_str = r#"
        [[outputs]]
        name = "eDP-1"
        scale = -1.0
    "#;
    let config = from_toml(toml_str);
    assert!(config.output_configs.is_empty());
}

#[test]
fn parse_output_rule_zero_scale() {
    let toml_str = r#"
        [[outputs]]
        name = "eDP-1"
        scale = 0.0
    "#;
    let config = from_toml(toml_str);
    assert!(config.output_configs.is_empty());
}

#[test]
fn parse_output_rule_valid() {
    let toml_str = r#"
        [[outputs]]
        name = "eDP-1"
        scale = 1.5
        transform = "90"
        mode = "2560x1440@144"
        position = [1920, 0]
    "#;
    let config = from_toml(toml_str);
    assert_eq!(config.output_configs.len(), 1);
    let oc = &config.output_configs[0];
    assert_eq!(oc.name, "eDP-1");
    assert_eq!(oc.scale.map(f), Some(1.5));
    assert_eq!(oc.transform, Some(Transform::Rotated90));
    assert_eq!(oc.mode, OutputMode::SizeRefresh(2560, 1440, 144));
    assert_eq!(oc.position, OutputPosition::Fixed(1920, 0));
}

#[test]
fn parse_output_rule_defaults() {
    let toml_str = r#"
        [[outputs]]
        name = "HDMI-A-1"
    "#;
    let config = from_toml(toml_str);
    assert_eq!(config.output_configs.len(), 1);
    let oc = &config.output_configs[0];
    assert_eq!(oc.scale, None);
    assert_eq!(oc.transform, None);
    assert_eq!(oc.mode, OutputMode::Preferred);
    assert_eq!(oc.position, OutputPosition::Auto);
}

#[test]
fn duplicate_output_names_keeps_first() {
    let toml_str = r#"
        [[outputs]]
        name = "eDP-1"
        scale = 1.5

        [[outputs]]
        name = "eDP-1"
        scale = 2.0
    "#;
    let config = from_toml(toml_str);
    assert_eq!(config.output_configs.len(), 1);
    assert_eq!(config.output_configs[0].scale.map(f), Some(1.5));
}

#[test]
fn output_config_lookup() {
    let toml_str = r#"
        [[outputs]]
        name = "eDP-1"
        scale = 1.5

        [[outputs]]
        name = "HDMI-A-1"
        scale = 1.0
    "#;
    let config = from_toml(toml_str);
    assert!(config.output_config("eDP-1").is_some());
    assert!(config.output_config("HDMI-A-1").is_some());
    assert!(config.output_config("DP-2").is_none());
}

#[test]
fn no_outputs_section_produces_empty_vec() {
    let config = from_toml("");
    assert!(config.output_configs.is_empty());
}

#[test]
fn remember_layout_per_window_parses_from_toml() {
    let toml_str = r#"
        [input.keyboard]
        remember_layout_per_window = true
    "#;
    let config = from_toml(toml_str);
    assert!(config.remember_layout_per_window);
}

#[test]
fn remember_layout_per_window_omitted_in_toml_defaults_false() {
    let config = from_toml("");
    assert!(!config.remember_layout_per_window);
}

#[test]
fn modifier_only_keybinding_parses_as_tap() {
    let toml_str = r#"
        [keybindings]
        "alt+shift" = "switch-layout next"
    "#;
    let config = from_toml(toml_str);
    let mods = Modifiers {
        alt: true,
        shift: true,
        ..Modifiers::empty()
    };
    assert!(matches!(
        config.tap_lookup(&mods),
        Some(Action::SwitchLayout(LayoutSwitch::Next))
    ));
}

#[test]
fn normal_keybinding_is_not_a_tap() {
    let toml_str = r#"
        [keybindings]
        "mod+q" = "close-window"
    "#;
    let config = from_toml(toml_str);
    assert!(config.tap_bindings.entries.is_empty());
}

#[test]
fn tap_binding_conflicting_with_xkb_option_warns() {
    let toml_str = r#"
        [keybindings]
        "alt+shift" = "switch-layout next"

        [input.keyboard]
        options = "grp:alt_shift_toggle"
    "#;
    let (_config, warnings) = from_toml_collect(toml_str);
    assert!(
        warnings
            .iter()
            .any(|w| w.contains("grp:alt_shift_toggle") && w.contains("tap binding")),
        "got: {warnings:?}"
    );
}

#[test]
fn tap_binding_conflict_warns_for_side_specific_toggle() {
    // grp:lalt_lshift_toggle still consumes alt+shift — the warning names the
    // actual option token, not a hard-coded one.
    let toml_str = r#"
        [keybindings]
        "alt+shift" = "switch-layout next"

        [input.keyboard]
        options = "grp:lalt_lshift_toggle,compose:ralt"
    "#;
    let (_config, warnings) = from_toml_collect(toml_str);
    assert!(
        warnings
            .iter()
            .any(|w| w.contains("grp:lalt_lshift_toggle")),
        "got: {warnings:?}"
    );
}

#[test]
fn tap_binding_with_nonconflicting_xkb_option_does_not_warn() {
    let toml_str = r#"
        [keybindings]
        "alt+shift" = "switch-layout next"

        [input.keyboard]
        options = "grp:caps_toggle"
    "#;
    let (_config, warnings) = from_toml_collect(toml_str);
    assert!(
        !warnings.iter().any(|w| w.contains("tap binding")),
        "got: {warnings:?}"
    );
}

#[test]
fn defaults_without_a_file() {
    let c = Config::default();
    assert_eq!(c, from_toml(""));
    assert_eq!(c.mod_key, ModKey::Super);
    assert_eq!(c.window_placement, WindowPlacement::Center);
    assert_eq!(f(c.trackpad_speed), 1.5);
    assert_eq!(f(c.mouse_speed), 1.0);
    assert_eq!(f(c.touch_speed), 1.0);
    assert_eq!(f(c.drift), 0.5);
    assert_eq!(c.nudge_step, 20);
    assert_eq!(f(c.pan_step), 100.0);
    assert_eq!((c.repeat_delay, c.repeat_rate), (200, 25));
    assert_eq!(
        (f(c.edge_zone), f(c.edge_pan_min), f(c.edge_pan_max)),
        (100.0, 4.0, 10.0)
    );
    assert_eq!(f(c.edge_pan_cursor_zone), 20.0);
    assert_eq!(
        (f(c.zoom_step), f(c.zoom_touch_speed), f(c.zoom_fit_padding)),
        (1.1, 1.0, 80.0)
    );
    assert_eq!(
        (f(c.snap_gap), f(c.snap_distance), f(c.snap_break_force)),
        (12.0, 24.0, 32.0)
    );
    assert_eq!(f(c.inactive_cursor_opacity), 0.5);
    assert_eq!(f(c.gesture_thresholds.swipe_distance), 12.0);
    assert_eq!(f(c.gesture_thresholds.pinch_in_scale), 0.85);
    assert_eq!(f(c.gesture_thresholds.pinch_out_scale), 1.15);
    assert_eq!(f(c.effects.blur_strength), 1.1);
    assert_eq!(c.effects.blur_radius, 2);
    assert_eq!(c.background.cache_budget_mb, 128);
    assert_eq!(c.xwayland_path, "xwayland-satellite");
    assert_eq!(c.keyboard_layout.layout, "us");
    assert_eq!(c.bindings.entries.len(), 57);
    assert_eq!(
        c.cycle_hold,
        Modifiers {
            alt: true,
            ..Modifiers::empty()
        }
    );
    let anchor = c.nav_anchors[0];
    assert_eq!((f(anchor.0), f(anchor.1)), (0.0, 0.0));
    assert!(f(anchor.1).is_sign_negative());
    assert!(c.child_env.contains(&("QT_QPA_PLATFORM".into(), "wayland;xcb".into())));
}

#[test]
fn default_keys_are_found_in_either_case() {
    let c = Config::default();
    let mods = held(true, false, false, false);
    for raw in [0x71, 0x51] {
        assert_eq!(c.lookup(&mods, Keysym { raw }), Some(&Action::CloseWindow));
    }
    assert_eq!(
        c.lookup(&held(true, true, false, false), Keysym { raw: 0xff52 }),
        Some(&Action::SendToOutput(Direction::Up))
    );
    assert_eq!(c.lookup(&mods, Keysym { raw: 0x79 }), None);
}

#[test]
fn send_to_output_keys_are_left_out_with_alt_as_mod_key() {
    let mut raw = ConfigFile::empty();
    raw.mod_key = Some("alt".into());
    let (c, warnings) = collect(&raw);
    assert!(warnings.is_empty());
    assert_eq!(c.bindings.entries.len(), 53);
    assert_eq!(
        c.lookup(&held(false, true, false, false), Keysym { raw: 0xff52 }),
        Some(&Action::CenterNearest(Direction::Up))
    );
}

#[test]
fn none_removes_a_binding_and_a_new_one_replaces_it() {
    let c = from_toml(
        r#"
        [keybindings]
        "mod+q" = "none"
        "mod+x" = "quit"
    "#,
    );
    let mods = held(true, false, false, false);
    assert_eq!(c.lookup(&mods, Keysym { raw: 0x71 }), None);
    assert_eq!(c.lookup(&mods, Keysym { raw: 0x78 }), Some(&Action::Quit));
}

#[test]
fn the_hold_modifier_follows_the_forward_cycle_binding() {
    let c = from_toml(
        r#"
        [keybindings]
        "alt+tab" = "none"
        "mod+tab" = "cycle-windows forward"
    "#,
    );
    assert_eq!(
        c.cycle_hold,
        Modifiers {
            logo: true,
            ..Modifiers::empty()
        }
    );
    let bare = from_toml(
        r#"
        [keybindings]
        "alt+tab" = "none"
        "tab" = "cycle-windows forward"
    "#,
    );
    assert_eq!(
        bare.cycle_hold,
        Modifiers {
            alt: true,
            ..Modifiers::empty()
        }
    );
}

#[test]
fn bad_bindings_are_reported_with_their_reason() {
    let (_, warnings) = from_toml_collect(
        r#"
        [keybindings]
        "mod+nokey" = "quit"
        "hyper+q" = "quit"
        "mod+q" = "frobnicate"
        "alt+shift" = "frobnicate"

        [mouse.anywhere]
        "mod+scroll" = "zoom"
        "mod+left" = "frobnicate"

        [gestures.anywhere]
        "mod+swipe" = "zoom"
        "3-finger-swipe" = "zoom"

        [touch.anywhere]
        "9-finger-tap" = "quit"
        "2-finger-tap" = "zoom"
    "#,
    );
    let expected = [
        "config: invalid action 'frobnicate': unknown action: frobnicate",
        "config: invalid key combo 'hyper+q': unknown modifier: hyper",
        "config: invalid action 'frobnicate': unknown action: frobnicate",
        "config: invalid key combo 'mod+nokey': unknown keysym: nokey",
        "config: invalid mouse action 'frobnicate': unknown action: frobnicate",
        "config: invalid mouse binding 'mod+scroll': unknown mouse trigger: scroll",
        "config: invalid gesture binding '3-finger-swipe' = 'zoom': zoom requires a pinch trigger (needs scale from input)",
        "config: invalid gesture binding 'mod+swipe': no gesture trigger found in 'mod+swipe' (expected N-finger-...)",
        "config: invalid touch binding '2-finger-tap' = 'zoom': tap/doubletap triggers only accept threshold actions, not 'zoom'",
        "config: invalid touch binding '9-finger-tap': finger count must be 1-5, got 9",
    ];
    let mut got = warnings.clone();
    got.sort();
    let mut want: Vec<String> = expected.iter().map(|s| s.to_string()).collect();
    want.sort();
    assert_eq!(got, want);
}

#[test]
fn contexts_fall_back_to_anywhere() {
    let c = Config::default();
    let none = held(false, false, false, false);
    assert_eq!(
        c.mouse_scroll_lookup_ctx(&none, AxisSource::Finger, BindingContext::OnCanvas),
        Some(&MouseAction::PanViewport)
    );
    assert_eq!(
        c.mouse_scroll_lookup_ctx(&none, AxisSource::Wheel, BindingContext::OnCanvas),
        Some(&MouseAction::Zoom)
    );
    assert_eq!(
        c.mouse_button_lookup_ctx(&none, 0x110, BindingContext::OnWindow),
        None
    );
    assert_eq!(
        c.mouse_button_lookup_ctx(&held(true, false, false, false), 0x110, BindingContext::OnWindow),
        Some(&MouseAction::PanViewport)
    );
    assert_eq!(
        c.gesture_lookup(&none, &GestureTrigger::Hold { fingers: 4 }, BindingContext::OnWindow),
        Some(&GestureConfigEntry::Threshold(ThresholdAction::Fixed(
            Action::CenterWindow
        )))
    );
    // On-window bindings never leak to the canvas.
    let hold_swipe = GestureTrigger::HoldSwipe { fingers: 3 };
    assert!(c.touch_lookup(&hold_swipe, BindingContext::OnWindow).is_some());
    assert!(c.touch_lookup(&hold_swipe, BindingContext::OnCanvas).is_none());
    assert!(c.touch_lookup(&hold_swipe, BindingContext::Anywhere).is_none());
}

#[test]
fn disabled_defaults_start_from_nothing() {
    let mut raw = ConfigFile::empty();
    raw.disable_defaults = Some(vec!["keys".into(), "gestures".into(), "taps".into()]);
    let (c, warnings) = collect(&raw);
    assert!(c.bindings.entries.is_empty());
    assert!(c.gestures.anywhere.entries.is_empty());
    assert!(!c.mouse.anywhere.entries.is_empty());
    assert_eq!(
        warnings,
        vec!["config: unknown bindings.disable_defaults category 'taps' (expected \"keys\", \"mouse\", or \"gestures\")"]
    );
}

#[test]
fn backgrounds_resolve_by_type() {
    let kind = |t: Option<&str>, p: Option<&str>| {
        let mut raw = ConfigFile::empty();
        raw.background.kind = t.map(|s| s.to_string());
        raw.background.path = p.map(|s| s.to_string());
        raw.background.texture = Some("~/img.jpg".into());
        let (c, w) = collect(&raw);
        (c.background.kind, w)
    };
    assert_eq!(kind(None, Some("~/a")).0, BackgroundKind::BuiltIn);
    assert_eq!(
        kind(Some("shader"), Some("~/bg.glsl")).0,
        BackgroundKind::Shader {
            path: "/home/me/bg.glsl".into(),
            texture: Some("/home/me/img.jpg".into())
        }
    );
    assert_eq!(kind(Some("tile"), Some("/t.png")).0, BackgroundKind::Tile("/t.png".into()));
    assert_eq!(
        kind(Some("wallpaper"), Some("w.jpg")).0,
        BackgroundKind::Wallpaper("w.jpg".into())
    );
    assert_eq!(kind(Some("none"), None), (BackgroundKind::Empty, vec![]));
    assert_eq!(
        kind(Some("tile"), None),
        (
            BackgroundKind::BuiltIn,
            vec!["config: [background] type=\"tile\" requires `path`, using default".to_string()]
        )
    );
    assert_eq!(
        kind(Some("plaid"), Some("x")),
        (
            BackgroundKind::BuiltIn,
            vec!["config: [background] unknown type \"plaid\", using default".to_string()]
        )
    );
}

#[test]
fn child_env_layers_override_in_order() {
    let mut raw = ConfigFile::empty();
    raw.cursor.theme = Some("Adwaita".into());
    raw.cursor.size = Some(48);
    raw.env = vec![
        ("GDK_BACKEND".into(), "x11".into()),
        ("XCURSOR_SIZE".into(), "24".into()),
    ];
    let (c, _) = collect(&raw);
    let get = |k: &str| c.child_env.iter().find(|(n, _)| n == k).map(|(_, v)| v.as_str());
    assert_eq!(get("GDK_BACKEND"), Some("x11"));
    assert_eq!(get("XCURSOR_THEME"), Some("Adwaita"));
    assert_eq!(get("XCURSOR_SIZE"), Some("24"));
    assert_eq!(get("MOZ_ENABLE_WAYLAND"), Some("1"));
    raw.env.clear();
    raw.cursor.size = Some(0);
    raw.cursor.theme = Some("none".into());
    let (c, _) = collect(&raw);
    assert_eq!((c.cursor_theme.clone(), c.cursor_size), (None, None));
    assert!(!c.child_env.iter().any(|(n, _)| n.starts_with("XCURSOR")));
}

#[test]
fn paths_expand_and_default() {
    assert_eq!(expand_tilde("~/x", Some("/h")), "/h/x");
    assert_eq!(expand_tilde("~/x", None), "~/x");
    assert_eq!(expand_tilde("~x", Some("/h")), "~x");
    assert_eq!(config_path(Some("~/c.toml"), None, Some("/h")), "/h/c.toml");
    assert_eq!(config_path(None, Some("/cfg/"), Some("/h")), "/cfg/driftwm/config.toml");
    assert_eq!(config_path(None, None, Some("/h")), "/h/.config/driftwm/config.toml");
    assert_eq!(config_path(None, None, None), "./.config/driftwm/config.toml");
}

fn rule(app_id: &str) -> WindowRuleFile {
    WindowRuleFile {
        app_id: Some(app_id.into()),
        ..WindowRuleFile::default()
    }
}

#[test]
fn window_rules_merge_in_order() {
    let mut raw = ConfigFile::empty();
    raw.window_rules = Some(vec![
        WindowRuleFile {
            widget: true,
            decoration: Some("none".into()),
            opacity: Some(num(0.5)),
            pass_keys: Some(PassKeysFile::Keys(vec!["ctrl+q".into(), "mod+nokey".into()])),
            ..rule("*")
        },
        WindowRuleFile {
            decoration: Some("server".into()),
            size: Some((800, 600)),
            ..rule("fo*t")
        },
        WindowRuleFile {
            title: Some("/^Call/".into()),
            pinned_to_screen: true,
            pass_keys: Some(PassKeysFile::Bool(true)),
            ..rule("/[a-z]+oo./")
        },
        WindowRuleFile::default(),
        WindowRuleFile {
            size: Some((0, 5)),
            border_color: Some("#12".into()),
            ..rule("/(/")
        },
    ]);
    let (c, warnings) = collect(&raw);
    assert_eq!(c.window_rules.len(), 4);
    let a = c.resolve_window_rules("foot", "shell").unwrap();
    assert!(a.widget && !a.pinned_to_screen);
    assert_eq!(a.decoration, Some(DecorationMode::Server));
    assert_eq!(a.opacity.map(f), Some(0.5));
    assert_eq!(a.size, Some((800, 600)));
    assert_eq!(
        a.pass_keys,
        PassKeys::Only(vec![KeyCombo {
            modifiers: Modifiers {
                ctrl: true,
                ..Modifiers::empty()
            },
            sym: Keysym { raw: 0x71 },
        }])
    );
    let call = c.resolve_window_rules("foot", "Call with Ann").unwrap();
    assert!(call.pinned_to_screen);
    assert_eq!(call.pass_keys, PassKeys::All);
    assert_eq!(
        c.match_window_rule("foot", "x").map(|r| r.widget),
        Some(true)
    );
    assert!(warnings
        .iter()
        .any(|w| w == "config: window rule has no match criteria (app_id/title), skipping"));
    assert!(warnings
        .iter()
        .any(|w| w.starts_with("config: invalid regex '/(/': ") && w.ends_with("treating as literal glob")));
    assert!(warnings
        .iter()
        .any(|w| w == "config: window rule size must be positive, got [0, 5]"));
    assert!(warnings
        .iter()
        .any(|w| w == "config: window rule border_color '#12' invalid, ignoring"));
    assert!(warnings
        .iter()
        .any(|w| w == "config: pass_keys invalid key combo 'mod+nokey': unknown keysym: nokey"));
    // What does not compile is a literal glob.
    assert!(c.resolve_window_rules("/(/", "").unwrap().widget);
}

#[test]
fn layer_instances_get_successive_positioned_rules() {
    let mut raw = ConfigFile::empty();
    raw.window_rules = Some(vec![
        WindowRuleFile {
            blur: Some(true),
            ..rule("*")
        },
        WindowRuleFile {
            position: Some((1, 1)),
            corner_radius: Some(-4),
            ..rule("waybar")
        },
        WindowRuleFile {
            position: Some((2, 2)),
            ..rule("waybar")
        },
    ]);
    let (c, _) = collect(&raw);
    assert_eq!(c.match_window_rule_nth("waybar", "", 0).unwrap().position, Some((1, 1)));
    assert_eq!(c.match_window_rule_nth("waybar", "", 1).unwrap().position, Some((2, 2)));
    assert!(c.match_window_rule_nth("waybar", "", 2).is_none());
    let first = c
        .resolve_window_rules_for_layer_instance("waybar", "", 0)
        .unwrap();
    assert_eq!((first.position, first.corner_radius, first.blur), (Some((1, 1)), Some(0), true));
    let second = c
        .resolve_window_rules_for_layer_instance("waybar", "", 1)
        .unwrap();
    assert_eq!((second.position, second.corner_radius, second.blur), (Some((2, 2)), None, true));
    let none = c
        .resolve_window_rules_for_layer_instance("waybar", "", 7)
        .unwrap();
    assert_eq!((none.position, none.blur), (None, true));
}

#[test]
fn key_names_are_those_the_file_mentions() {
    let mut raw = parse(
        r#"
        [keybindings]
        "mod+Shift+Up" = "quit"
    "#,
    );
    raw.window_rules = Some(vec![WindowRuleFile {
        pass_keys: Some(PassKeysFile::Keys(vec!["ctrl + F1".into()])),
        ..rule("*")
    }]);
    assert_eq!(raw.key_names(), vec!["Up".to_string(), "F1".to_string()]);
}

#[test]
fn colors_that_cut_a_character_cannot_be_read() {
    let mut raw = ConfigFile::empty();
    assert!(raw.is_readable());
    raw.decorations.bg_color = Some("#1é345".into());
    assert!(!raw.is_readable());
    raw.decorations.bg_color = Some("#éé12".into());
    assert!(raw.is_readable());
    raw.decorations.bg_color = Some("#zzé12".into());
    assert!(raw.is_readable());
    let (c, w) = collect(&raw);
    assert_eq!(w, vec!["config: invalid bg_color color '#zzé12', using default"]);
    assert_eq!(c.decorations, Config::default().decorations);
    raw.decorations.bg_color = Some("#11223344".into());
    raw.decorations.fg_color = Some("#+fA0b1".into());
    let (c, w) = collect(&raw);
    assert!(w.is_empty());
    assert_eq!(
        (c.decorations.bg_color.r, c.decorations.bg_color.a),
        (0x11, 0x44)
    );
    assert_eq!(
        (c.decorations.fg_color.r, c.decorations.fg_color.g, c.decorations.fg_color.b),
        (0x0f, 0xa0, 0xb1)
    );
}

#[test]
fn a_missing_or_bad_file_gives_the_defaults() {
    let table = keysyms();
    let load = |source: &ConfigSource| Config::load_from_collect(source, "/c.toml", None, &table);
    let (config, warnings) = load(&ConfigSource::Missing);
    assert_eq!(config.decorations, Config::default().decorations);
    assert!(warnings.is_empty());
    let (_, warnings) = load(&ConfigSource::Malformed("expected `=`".to_string()));
    assert_eq!(warnings, vec!["config error: expected `=`"]);
    let (_, warnings) = load(&ConfigSource::Unreadable("denied".to_string()));
    assert_eq!(warnings, vec!["config: failed to read /c.toml: denied"]);
    let bad = parse("[navigation]\ndrift = 5.0\n");
    let (config, warnings) = load(&ConfigSource::File(bad));
    assert_eq!(f(config.drift), 1.0);
    assert!(warnings[0].contains("navigation.drift"));
    let source = ConfigSource::File(parse("[navigation]\ndrift = 0.25\n"));
    assert_eq!(f(Config::load_from(&source, "/c.toml", None, &table).drift), 0.25);
}

#[test]
fn what_does_not_compile_is_a_literal_glob() {
    let mut errors: Warnings = Vec::new();
    let bad = pattern_from("/a(/", Some("unclosed group".to_string()), &mut errors);
    assert_eq!(bad, Pattern::Glob("/a(/".to_string()));
    assert_eq!(
        errors[0].1,
        "config: invalid regex '/a(/': unclosed group, treating as literal glob"
    );
    let good = pattern_from("/a+/", None, &mut errors);
    assert_eq!(good, Pattern::Regex("a+".to_string()));
    assert_eq!(errors.len(), 1);
    assert!(good.matches_with("b", Some(true)));
    assert!(!good.matches_with("a", Some(false)) && !good.matches_with("a", None));
    assert!(good.matches("xaay") && !good.matches("b"));
    assert!(bad.matches_with("/a(/", None));
    let parsed = parse_pattern("/a(/", &mut errors);
    assert_eq!(parsed, Pattern::Glob("/a(/".to_string()));
    assert_eq!(errors.len(), 2);
    assert_eq!(parse_pattern("/", &mut errors), Pattern::Glob("/".to_string()));
}

#[test]
fn defaults_do_not_depend_on_home_or_keys() {
    let none = KeysymTable { entries: vec![] };
    let some = keysyms();
    let sources = [
        (ConfigSource::Missing, 0),
        (ConfigSource::Malformed("bad".to_string()), 1),
        (ConfigSource::Unreadable("denied".to_string()), 1),
    ];
    for (source, count) in sources {
        for (home, table) in [(None, &none), (Some("/home/me"), &some)] {
            let (config, warnings) = Config::load_from_collect(&source, "/c", home, table);
            assert_eq!(config, Config::default());
            assert_eq!(warnings.len(), count);
        }
    }
}

/// One entry of `[keybindings]` touches its own combo and nothing else.
#[test]
fn one_key_binding_merges_with_the_defaults() {
    let one = |key: &str, action: &str| {
        let mut raw = ConfigFile::empty();
        raw.keybindings = Some(vec![(key.to_string(), action.to_string())]);
        collect(&raw)
    };
    let default = Config::default();
    let count = default.bindings.entries.len();
    let q = KeyCombo {
        modifiers: Modifiers { logo: true, ..Modifiers::empty() },
        sym: Keysym { raw: 0x71 },
    };
    assert!(default.bindings.get(&q).is_some());

    let (c, warnings) = one("mod+q", "none");
    assert!(c.bindings.get(&q).is_none() && warnings.is_empty());
    assert_eq!(c.bindings.entries.len(), count - 1);

    let (c, warnings) = one("mod+q", "zoom-in");
    assert_eq!(c.bindings.get(&q), Some(&Action::ZoomIn));
    assert!(warnings.is_empty());
    assert_eq!(c.bindings.entries.len(), count);
    assert_eq!((c.mouse, c.gestures), (default.mouse, default.gestures));

    let (c, warnings) = one("mod+q", "fly");
    assert_eq!(c.bindings, default.bindings);
    assert_eq!(warnings.len(), 1);
    assert!(warnings[0].starts_with("config: invalid action 'fly'"));

    let (c, warnings) = one("mod+", "zoom-in");
    assert_eq!((c.bindings, warnings.len()), (default.bindings, 1));

    let (c, warnings) = one("mod+shift", "zoom-in");
    assert_eq!((c.tap_bindings.entries.len(), warnings.len()), (1, 0));
}
