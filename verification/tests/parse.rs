use driftwm::config::parse::{
    action_names, parse_action, parse_gesture_config_entry, parse_key_combo, parse_tap_combo,
    removed_actions, KeysymTable,
};
use driftwm::config::types::{Action, GestureTrigger, ModKey, Modifiers};

/// Symbols that the keyboard library finds for the names used below.
fn keysyms() -> KeysymTable {
    KeysymTable {
        entries: vec![("q".into(), 0x71), ("iso_level5_shift".into(), 0xfe11)],
    }
}

/// Exhaustive on purpose: a new Action variant fails to compile here until it
/// is named, and its name must join the catalog.
fn action_name(action: &Action) -> &'static str {
    match action {
        Action::Exec(_) => "exec",
        Action::ExecTerminal => "exec-terminal",
        Action::ExecLauncher => "exec-launcher",
        Action::Spawn(_) => "spawn",
        Action::CloseWindow => "close-window",
        Action::SuspendWindow => "suspend-window",
        Action::NudgeWindow(_) => "nudge-window",
        Action::PanViewport(_) => "pan-viewport",
        Action::CenterWindow => "center-window",
        Action::CenterNearest(_) => "center-nearest",
        Action::CycleWindows { .. } => "cycle-windows",
        Action::HomeToggle => "home-toggle",
        Action::GoToBookmark(_) => "go-to-bookmark",
        Action::SetBookmark(_) => "set-bookmark",
        Action::MoveToBookmark(_) => "move-to-bookmark",
        Action::ZoomIn => "zoom-in",
        Action::ZoomOut => "zoom-out",
        Action::ZoomReset => "zoom-reset",
        Action::ZoomToFit => "zoom-to-fit",
        Action::ZoomToFitSnapped => "zoom-to-fit-snapped",
        Action::ToggleFullscreen => "toggle-fullscreen",
        Action::FitWindow => "fit-window",
        Action::FitWindowSnapped => "fit-window-snapped",
        Action::FillWindow => "fill-window",
        Action::SendToOutput(_) => "send-to-output",
        Action::SendCursorToOutput(_) => "send-cursor-to-output",
        Action::FocusCenter => "focus-center",
        Action::TogglePinToScreen => "toggle-pin-to-screen",
        Action::SwitchLayout(_) => "switch-layout",
        Action::ReloadConfig => "reload-config",
        Action::ToggleCursorPan => "toggle-cursor-pan",
        Action::Quit => "quit",
    }
}

#[test]
fn bookmark_actions_parse_with_name() {
    assert_eq!(
        parse_action("go-to-bookmark 1"),
        Ok(Action::GoToBookmark("1".into()))
    );
    assert_eq!(
        parse_action("set-bookmark home"),
        Ok(Action::SetBookmark("home".into()))
    );
    // The whole trimmed remainder is the name, so spaces are allowed in it.
    assert_eq!(
        parse_action("move-to-bookmark my desk"),
        Ok(Action::MoveToBookmark("my desk".into()))
    );
}

#[test]
fn bookmark_actions_reject_missing_name() {
    assert!(parse_action("go-to-bookmark").is_err());
    assert!(parse_action("set-bookmark").is_err());
    assert!(parse_action("move-to-bookmark").is_err());
    // Whitespace-only argument is empty after trimming.
    assert!(parse_action("go-to-bookmark   ").is_err());
}

#[test]
fn action_names_round_trip_to_their_variant() {
    for (name, sample) in action_names() {
        let parsed = parse_action(sample)
            .unwrap_or_else(|e| panic!("sample {sample:?} for {name} failed to parse: {e}"));
        assert_eq!(
            action_name(&parsed),
            name,
            "sample {sample:?} parsed to a variant whose name is not {name:?}"
        );
    }
}

#[test]
fn removed_actions_keep_their_migration_message_everywhere() {
    for name in removed_actions() {
        let err = parse_action(name)
            .expect_err("a removed action must be rejected, not silently parsed");
        assert!(
            !action_names().iter().any(|(n, _)| *n == name),
            "{name} is removed, so it must not stay in the documented catalog"
        );
        let trigger = GestureTrigger::Swipe { fingers: 4 };
        assert_eq!(parse_gesture_config_entry(&trigger, name), Err(err));
    }
}

#[test]
fn mod3_combines_with_other_modifiers_in_a_combo() {
    let combo = parse_key_combo("mod3+shift+q", ModKey::Alt, &keysyms()).unwrap();
    assert_eq!(
        combo.modifiers,
        Modifiers {
            mod3: true,
            shift: true,
            ..Modifiers::empty()
        }
    );
}

#[test]
fn bare_mod3_shift_combo_is_recognized_as_a_tap_binding() {
    let mods = parse_tap_combo("mod3+shift", ModKey::Alt)
        .expect("a modifier-only combo must be recognized as a tap binding")
        .unwrap();
    assert_eq!(
        mods,
        Modifiers {
            mod3: true,
            shift: true,
            ..Modifiers::empty()
        }
    );
}

#[test]
fn mod_plus_iso_level5_shift_parses_as_a_key_binding_not_a_tap() {
    // "iso_level5_shift" is a real keysym, not a modifier alias.
    assert!(parse_tap_combo("mod+iso_level5_shift", ModKey::Alt).is_none());
    let combo = parse_key_combo("mod+iso_level5_shift", ModKey::Alt, &keysyms()).unwrap();
    assert_eq!(combo.sym.raw, 0xfe11);
    assert_eq!(
        combo.modifiers,
        Modifiers {
            alt: true,
            ..Modifiers::empty()
        }
    );
}

#[test]
fn tap_order_and_repetition_do_not_matter() {
    let tap = |s: &str| parse_tap_combo(s, ModKey::Super).expect("a tap").expect("modifiers");
    let expected = tap("ctrl+shift+alt");
    assert!(expected.ctrl && expected.shift && expected.alt && !expected.logo);
    assert_eq!(tap("alt+ctrl+shift"), expected);
    assert_eq!(tap("shift+alt+ctrl+shift"), expected);
    assert_eq!(tap("mod+shift"), tap("shift+super"));
    assert_ne!(tap("mod+shift"), expected);
}
