//! What holds of the configuration as a whole.
use vstd::prelude::*;

use crate::config;
use crate::config::bindings;
use crate::config::decoration;
use crate::config::merge;
use crate::config::numbers;
use crate::config::numbers::Ranked;
use crate::config::outputs;
use crate::config::outputs::{OutputMode, OutputRuleFile};
use crate::config::parse;
use crate::config::raw;
use crate::config::raw::ConfigFile;
use crate::config::settings;
use crate::config::types;
use crate::config::types::{
    ActionOf, GestureConfigEntryOf, GestureTrigger, KeyCombo, ModKey, Modifiers, ThresholdActionOf,
};
use crate::config::warnings;
use crate::config::warnings::Severity;
use crate::config::window_rules;
use crate::config::window_rules::{PassKeysFile, WindowRuleFile, WindowRuleOf};
use crate::config::Config;
use crate::text;

verus! {

// ── Actions ──────────────────────────────────────────────────────────

/// The name under which an action is written.
pub open spec fn action_name(a: ActionOf<Seq<char>>) -> Seq<char> {
    match a {
        ActionOf::Exec(_) => "exec"@,
        ActionOf::ExecTerminal => "exec-terminal"@,
        ActionOf::ExecLauncher => "exec-launcher"@,
        ActionOf::Spawn(_) => "spawn"@,
        ActionOf::CloseWindow => "close-window"@,
        ActionOf::SuspendWindow => "suspend-window"@,
        ActionOf::NudgeWindow(_) => "nudge-window"@,
        ActionOf::PanViewport(_) => "pan-viewport"@,
        ActionOf::CenterWindow => "center-window"@,
        ActionOf::FocusCenter => "focus-center"@,
        ActionOf::CenterNearest(_) => "center-nearest"@,
        ActionOf::CycleWindows { .. } => "cycle-windows"@,
        ActionOf::HomeToggle => "home-toggle"@,
        ActionOf::GoToBookmark(_) => "go-to-bookmark"@,
        ActionOf::SetBookmark(_) => "set-bookmark"@,
        ActionOf::MoveToBookmark(_) => "move-to-bookmark"@,
        ActionOf::ZoomIn => "zoom-in"@,
        ActionOf::ZoomOut => "zoom-out"@,
        ActionOf::ZoomReset => "zoom-reset"@,
        ActionOf::ZoomToFit => "zoom-to-fit"@,
        ActionOf::ZoomToFitSnapped => "zoom-to-fit-snapped"@,
        ActionOf::ToggleFullscreen => "toggle-fullscreen"@,
        ActionOf::FitWindow => "fit-window"@,
        ActionOf::FitWindowSnapped => "fit-window-snapped"@,
        ActionOf::FillWindow => "fill-window"@,
        ActionOf::SendToOutput(_) => "send-to-output"@,
        ActionOf::SendCursorToOutput(_) => "send-cursor-to-output"@,
        ActionOf::TogglePinToScreen => "toggle-pin-to-screen"@,
        ActionOf::SwitchLayout(_) => "switch-layout"@,
        ActionOf::ReloadConfig => "reload-config"@,
        ActionOf::ToggleCursorPan => "toggle-cursor-pan"@,
        ActionOf::Quit => "quit"@,
    }
}

/// The catalog has a name for every action.
proof fn lemma_name_in_catalog(a: ActionOf<Seq<char>>)
    ensures
        parse::in_catalog(action_name(a)),
{
    let c = parse::catalog();
    assert(c[0].0 == "center-nearest"@);
    assert(c[1].0 == "center-window"@);
    assert(c[2].0 == "close-window"@);
    assert(c[3].0 == "cycle-windows"@);
    assert(c[4].0 == "exec"@);
    assert(c[5].0 == "exec-launcher"@);
    assert(c[6].0 == "exec-terminal"@);
    assert(c[7].0 == "fill-window"@);
    assert(c[8].0 == "fit-window"@);
    assert(c[9].0 == "fit-window-snapped"@);
    assert(c[10].0 == "focus-center"@);
    assert(c[11].0 == "go-to-bookmark"@);
    assert(c[12].0 == "home-toggle"@);
    assert(c[13].0 == "move-to-bookmark"@);
    assert(c[14].0 == "nudge-window"@);
    assert(c[15].0 == "pan-viewport"@);
    assert(c[16].0 == "quit"@);
    assert(c[17].0 == "reload-config"@);
    assert(c[18].0 == "send-cursor-to-output"@);
    assert(c[19].0 == "send-to-output"@);
    assert(c[20].0 == "set-bookmark"@);
    assert(c[21].0 == "spawn"@);
    assert(c[22].0 == "suspend-window"@);
    assert(c[23].0 == "switch-layout"@);
    assert(c[24].0 == "toggle-cursor-pan"@);
    assert(c[25].0 == "toggle-fullscreen"@);
    assert(c[26].0 == "toggle-pin-to-screen"@);
    assert(c[27].0 == "zoom-in"@);
    assert(c[28].0 == "zoom-out"@);
    assert(c[29].0 == "zoom-reset"@);
    assert(c[30].0 == "zoom-to-fit"@);
    assert(c[31].0 == "zoom-to-fit-snapped"@);
}

/// What parses as an action carries that action's name, and the name is in the
/// catalog.
pub proof fn lemma_actions_are_cataloged(s: Seq<char>)
    ensures
        parse::action_of(s) matches Ok(a) ==> parse::action_parts(s).0 == action_name(a)
            && parse::in_catalog(parse::action_parts(s).0),
{
    if let Ok(a) = parse::action_of(s) {
        lemma_name_in_catalog(a);
    }
}

/// Text without whitespace, and not empty.
pub open spec fn one_word(s: Seq<char>) -> bool {
    s.len() > 0 && forall|i: int| 0 <= i < s.len() ==> !text::white(#[trigger] s[i])
}

/// Text that starts and ends with something other than whitespace.
pub open spec fn trim_text(s: Seq<char>) -> bool {
    s.len() > 0 && !text::white(s[0]) && !text::white(s.last())
}

/// A single word is an action's name, with no argument.
pub proof fn lemma_bare_action(name: Seq<char>)
    requires
        one_word(name),
    ensures
        parse::action_parts(name) == (name, None::<Seq<char>>),
{
    text::lemma_find_white_is(name, 0, name.len() as int);
}

/// A word, a space and a text are an action's name and argument.
pub proof fn lemma_action_with_argument(name: Seq<char>, arg: Seq<char>)
    requires
        one_word(name),
        trim_text(arg),
    ensures
        parse::action_parts(name + " "@ + arg) == (name, Some(arg)),
{
    reveal_strlit(" ");
    let s = name + " "@ + arg;
    let n = name.len() as int;
    assert(s.len() == n + 1 + arg.len());
    assert(s[0] == name[0]);
    assert(s.last() == arg.last());
    assert forall|j: int| 0 <= j < n implies !text::white(s[j]) by {
        assert(s[j] == name[j]);
    }
    assert(s[n] == ' ');
    text::lemma_find_white_is(s, 0, n);
    assert(s.take(n) =~= name);
    assert(s.skip(n + 1) =~= arg);
}

/// A lowercase ASCII word is what trimming and lowering it gives.
proof fn lemma_plain_word(w: Seq<char>)
    requires
        w.len() > 0,
        forall|i: int| 0 <= i < w.len() ==> 'a' <= #[trigger] w[i] <= 'z',
    ensures
        text::lowercase(text::trimmed(w)) == w,
{
    assert(!text::white(w[0]) && !text::white(w.last()));
    text::lemma_already_lower(w);
}

/// The names that take an argument, and the one that was removed, by their
/// lengths and first letters.
proof fn lemma_argument_names()
    ensures
        "center-nearest"@.len() == 14 && "center-nearest"@[0] == 'c' && "center-nearest"@[1] == 'e',
        "cycle-windows"@.len() == 13 && "cycle-windows"@[0] == 'c' && "cycle-windows"@[1] == 'y',
        "exec"@.len() == 4 && "exec"@[0] == 'e' && "exec"@[1] == 'x',
        "go-to-bookmark"@.len() == 14 && "go-to-bookmark"@[0] == 'g' && "go-to-bookmark"@[1] == 'o',
        "move-to-bookmark"@.len() == 16 && "move-to-bookmark"@[0] == 'm' && "move-to-bookmark"@[1] == 'o',
        "nudge-window"@.len() == 12 && "nudge-window"@[0] == 'n' && "nudge-window"@[1] == 'u',
        "pan-viewport"@.len() == 12 && "pan-viewport"@[0] == 'p' && "pan-viewport"@[1] == 'a',
        "send-cursor-to-output"@.len() == 21 && "send-cursor-to-output"@[0] == 's' && "send-cursor-to-output"@[1] == 'e',
        "send-to-output"@.len() == 14 && "send-to-output"@[0] == 's' && "send-to-output"@[1] == 'e',
        "set-bookmark"@.len() == 12 && "set-bookmark"@[0] == 's' && "set-bookmark"@[1] == 'e',
        "spawn"@.len() == 5 && "spawn"@[0] == 's' && "spawn"@[1] == 'p',
        "switch-layout"@.len() == 13 && "switch-layout"@[0] == 's' && "switch-layout"@[1] == 'w',
        "go-to"@.len() == 5 && "go-to"@[0] == 'g' && "go-to"@[1] == 'o',
{
    reveal_strlit("center-nearest");
    reveal_strlit("cycle-windows");
    reveal_strlit("exec");
    reveal_strlit("go-to-bookmark");
    reveal_strlit("move-to-bookmark");
    reveal_strlit("nudge-window");
    reveal_strlit("pan-viewport");
    reveal_strlit("send-cursor-to-output");
    reveal_strlit("send-to-output");
    reveal_strlit("set-bookmark");
    reveal_strlit("spawn");
    reveal_strlit("switch-layout");
    reveal_strlit("go-to");
}

/// The sample of a catalog entry starts with the entry's name, and parses to
/// the action of that name.
pub proof fn lemma_samples_parse_to_their_action(i: int)
    requires
        0 <= i < parse::catalog().len(),
    ensures
        parse::action_parts(parse::catalog()[i].1).0 == parse::catalog()[i].0,
        parse::action_of(parse::catalog()[i].1) matches Ok(a) && action_name(a)
            == parse::catalog()[i].0,
{
    reveal_strlit(" ");
    lemma_argument_names();
    lemma_actions_are_cataloged(parse::catalog()[i].1);
    if i == 0 {
        reveal_strlit("center-nearest");
        reveal_strlit("center-nearest up");
        reveal_strlit("up");
        lemma_action_with_argument("center-nearest"@, "up"@);
        assert("center-nearest up"@ =~= "center-nearest"@ + " "@ + "up"@);
        lemma_plain_word("up"@);
    } else if i == 1 {
        reveal_strlit("center-window");
        lemma_bare_action("center-window"@);
        assert("center-window"@[0] == 'c' && "center-window"@[1] == 'e');
    } else if i == 2 {
        reveal_strlit("close-window");
        lemma_bare_action("close-window"@);
        assert("close-window"@[0] == 'c' && "close-window"@[1] == 'l');
    } else if i == 3 {
        reveal_strlit("cycle-windows");
        reveal_strlit("cycle-windows forward");
        reveal_strlit("forward");
        lemma_action_with_argument("cycle-windows"@, "forward"@);
        assert("cycle-windows forward"@ =~= "cycle-windows"@ + " "@ + "forward"@);
    } else if i == 4 {
        reveal_strlit("exec");
        reveal_strlit("exec foo");
        reveal_strlit("foo");
        lemma_action_with_argument("exec"@, "foo"@);
        assert("exec foo"@ =~= "exec"@ + " "@ + "foo"@);
    } else if i == 5 {
        reveal_strlit("exec-launcher");
        lemma_bare_action("exec-launcher"@);
        assert("exec-launcher"@[0] == 'e' && "exec-launcher"@[1] == 'x');
    } else if i == 6 {
        reveal_strlit("exec-terminal");
        lemma_bare_action("exec-terminal"@);
        assert("exec-terminal"@[0] == 'e' && "exec-terminal"@[1] == 'x');
    } else if i == 7 {
        reveal_strlit("fill-window");
        lemma_bare_action("fill-window"@);
        assert("fill-window"@[0] == 'f' && "fill-window"@[1] == 'i');
    } else if i == 8 {
        reveal_strlit("fit-window");
        lemma_bare_action("fit-window"@);
        assert("fit-window"@[0] == 'f' && "fit-window"@[1] == 'i');
    } else if i == 9 {
        reveal_strlit("fit-window-snapped");
        lemma_bare_action("fit-window-snapped"@);
        assert("fit-window-snapped"@[0] == 'f' && "fit-window-snapped"@[1] == 'i');
    } else if i == 10 {
        reveal_strlit("focus-center");
        lemma_bare_action("focus-center"@);
        assert("focus-center"@[0] == 'f' && "focus-center"@[1] == 'o');
    } else if i == 11 {
        reveal_strlit("go-to-bookmark");
        reveal_strlit("go-to-bookmark 1");
        reveal_strlit("1");
        lemma_action_with_argument("go-to-bookmark"@, "1"@);
        assert("go-to-bookmark 1"@ =~= "go-to-bookmark"@ + " "@ + "1"@);
    } else if i == 12 {
        reveal_strlit("home-toggle");
        lemma_bare_action("home-toggle"@);
        assert("home-toggle"@[0] == 'h' && "home-toggle"@[1] == 'o');
    } else if i == 13 {
        reveal_strlit("move-to-bookmark");
        reveal_strlit("move-to-bookmark 1");
        reveal_strlit("1");
        lemma_action_with_argument("move-to-bookmark"@, "1"@);
        assert("move-to-bookmark 1"@ =~= "move-to-bookmark"@ + " "@ + "1"@);
    } else if i == 14 {
        reveal_strlit("nudge-window");
        reveal_strlit("nudge-window up");
        reveal_strlit("up");
        lemma_action_with_argument("nudge-window"@, "up"@);
        assert("nudge-window up"@ =~= "nudge-window"@ + " "@ + "up"@);
        lemma_plain_word("up"@);
    } else if i == 15 {
        reveal_strlit("pan-viewport");
        reveal_strlit("pan-viewport up");
        reveal_strlit("up");
        lemma_action_with_argument("pan-viewport"@, "up"@);
        assert("pan-viewport up"@ =~= "pan-viewport"@ + " "@ + "up"@);
        lemma_plain_word("up"@);
    } else if i == 16 {
        reveal_strlit("quit");
        lemma_bare_action("quit"@);
        assert("quit"@[0] == 'q' && "quit"@[1] == 'u');
    } else if i == 17 {
        reveal_strlit("reload-config");
        lemma_bare_action("reload-config"@);
        assert("reload-config"@[0] == 'r' && "reload-config"@[1] == 'e');
    } else if i == 18 {
        reveal_strlit("send-cursor-to-output");
        reveal_strlit("send-cursor-to-output up");
        reveal_strlit("up");
        lemma_action_with_argument("send-cursor-to-output"@, "up"@);
        assert("send-cursor-to-output up"@ =~= "send-cursor-to-output"@ + " "@ + "up"@);
        lemma_plain_word("up"@);
    } else if i == 19 {
        reveal_strlit("send-to-output");
        reveal_strlit("send-to-output up");
        reveal_strlit("up");
        lemma_action_with_argument("send-to-output"@, "up"@);
        assert("send-to-output up"@ =~= "send-to-output"@ + " "@ + "up"@);
        lemma_plain_word("up"@);
    } else if i == 20 {
        reveal_strlit("set-bookmark");
        reveal_strlit("set-bookmark 1");
        reveal_strlit("1");
        lemma_action_with_argument("set-bookmark"@, "1"@);
        assert("set-bookmark 1"@ =~= "set-bookmark"@ + " "@ + "1"@);
    } else if i == 21 {
        reveal_strlit("spawn");
        reveal_strlit("spawn foo");
        reveal_strlit("foo");
        lemma_action_with_argument("spawn"@, "foo"@);
        assert("spawn foo"@ =~= "spawn"@ + " "@ + "foo"@);
    } else if i == 22 {
        reveal_strlit("suspend-window");
        lemma_bare_action("suspend-window"@);
        assert("suspend-window"@[0] == 's' && "suspend-window"@[1] == 'u');
    } else if i == 23 {
        reveal_strlit("switch-layout");
        reveal_strlit("switch-layout next");
        reveal_strlit("next");
        lemma_action_with_argument("switch-layout"@, "next"@);
        assert("switch-layout next"@ =~= "switch-layout"@ + " "@ + "next"@);
        lemma_plain_word("next"@);
    } else if i == 24 {
        reveal_strlit("toggle-cursor-pan");
        lemma_bare_action("toggle-cursor-pan"@);
        assert("toggle-cursor-pan"@[0] == 't' && "toggle-cursor-pan"@[1] == 'o');
    } else if i == 25 {
        reveal_strlit("toggle-fullscreen");
        lemma_bare_action("toggle-fullscreen"@);
        assert("toggle-fullscreen"@[0] == 't' && "toggle-fullscreen"@[1] == 'o');
    } else if i == 26 {
        reveal_strlit("toggle-pin-to-screen");
        lemma_bare_action("toggle-pin-to-screen"@);
        assert("toggle-pin-to-screen"@[0] == 't' && "toggle-pin-to-screen"@[1] == 'o');
    } else if i == 27 {
        reveal_strlit("zoom-in");
        lemma_bare_action("zoom-in"@);
        assert("zoom-in"@[0] == 'z' && "zoom-in"@[1] == 'o');
    } else if i == 28 {
        reveal_strlit("zoom-out");
        lemma_bare_action("zoom-out"@);
        assert("zoom-out"@[0] == 'z' && "zoom-out"@[1] == 'o');
    } else if i == 29 {
        reveal_strlit("zoom-reset");
        lemma_bare_action("zoom-reset"@);
        assert("zoom-reset"@[0] == 'z' && "zoom-reset"@[1] == 'o');
    } else if i == 30 {
        reveal_strlit("zoom-to-fit");
        lemma_bare_action("zoom-to-fit"@);
        assert("zoom-to-fit"@[0] == 'z' && "zoom-to-fit"@[1] == 'o');
    } else if i == 31 {
        reveal_strlit("zoom-to-fit-snapped");
        lemma_bare_action("zoom-to-fit-snapped"@);
        assert("zoom-to-fit-snapped"@[0] == 'z' && "zoom-to-fit-snapped"@[1] == 'o');
    }
}

/// A removed action is in no catalog, and its migration message survives in
/// every swipe and touch binding.
pub proof fn lemma_removed_actions_keep_their_message(
    name: Seq<char>,
    trigger: GestureTrigger,
)
    requires
        parse::is_removed(name),
    ensures
        !parse::in_catalog(name),
        parse::action_of(name) == Err::<ActionOf<Seq<char>>, Seq<char>>(parse::removed_message()),
        parse::gesture_entry_of(trigger, name) == Err::<GestureConfigEntryOf<Seq<char>>, Seq<char>>(
            parse::removed_message(),
        ),
        parse::touch_entry_of(trigger, name) == Err::<GestureConfigEntryOf<Seq<char>>, Seq<char>>(
            parse::removed_message(),
        ),
        parse::mouse_action_of(name) is Err,
{
    reveal_strlit("go-to");
    assert(one_word("go-to"@));
    lemma_bare_action("go-to"@);
    assert(text::trimmed("go-to"@) == "go-to"@);
    text::lemma_find_white_is("go-to"@, 0, 5);
    assert("go-to"@.take(5) =~= "go-to"@);
    assert(parse::first_word("go-to"@) == "go-to"@);
    reveal_strlit("center-nearest");
    reveal_strlit("center-window");
    reveal_strlit("close-window");
    reveal_strlit("cycle-windows");
    reveal_strlit("exec");
    reveal_strlit("exec-launcher");
    reveal_strlit("exec-terminal");
    reveal_strlit("fill-window");
    reveal_strlit("fit-window");
    reveal_strlit("fit-window-snapped");
    reveal_strlit("focus-center");
    reveal_strlit("go-to-bookmark");
    reveal_strlit("home-toggle");
    reveal_strlit("move-to-bookmark");
    reveal_strlit("nudge-window");
    reveal_strlit("pan-viewport");
    reveal_strlit("quit");
    reveal_strlit("reload-config");
    reveal_strlit("send-cursor-to-output");
    reveal_strlit("send-to-output");
    reveal_strlit("set-bookmark");
    reveal_strlit("spawn");
    assert("go-to"@[0] != "spawn"@[0]);
    reveal_strlit("suspend-window");
    reveal_strlit("switch-layout");
    reveal_strlit("toggle-cursor-pan");
    reveal_strlit("toggle-fullscreen");
    reveal_strlit("toggle-pin-to-screen");
    reveal_strlit("zoom-in");
    reveal_strlit("zoom-out");
    reveal_strlit("zoom-reset");
    reveal_strlit("zoom-to-fit");
    reveal_strlit("zoom-to-fit-snapped");
    reveal_strlit("move-window");
    reveal_strlit("move-snapped-windows");
    reveal_strlit("resize-window");
    reveal_strlit("resize-window-snapped");
    reveal_strlit("zoom");
}

// ── Gestures ─────────────────────────────────────────────────────────

/// The finger count of a gesture.
pub open spec fn fingers_of(t: GestureTrigger) -> u32 {
    match t {
        GestureTrigger::Swipe { fingers } => fingers,
        GestureTrigger::SwipeUp { fingers } => fingers,
        GestureTrigger::SwipeDown { fingers } => fingers,
        GestureTrigger::SwipeLeft { fingers } => fingers,
        GestureTrigger::SwipeRight { fingers } => fingers,
        GestureTrigger::DoubletapSwipe { fingers } => fingers,
        GestureTrigger::HoldSwipe { fingers } => fingers,
        GestureTrigger::DoubletapHoldSwipe { fingers } => fingers,
        GestureTrigger::Pinch { fingers } => fingers,
        GestureTrigger::PinchIn { fingers } => fingers,
        GestureTrigger::PinchOut { fingers } => fingers,
        GestureTrigger::Hold { fingers } => fingers,
        GestureTrigger::Tap { fingers } => fingers,
        GestureTrigger::Doubletap { fingers } => fingers,
    }
}

/// Trackpad gestures have two to five fingers and are never taps; touch
/// gestures have one to five and are never holds.
pub proof fn lemma_finger_counts(s: Seq<char>)
    ensures
        parse::gesture_trigger_of(s) matches Ok(t) ==> 2 <= fingers_of(t) <= 5 && !(t is Tap)
            && !(t is Doubletap),
        parse::touch_trigger_of(s) matches Ok(t) ==> 1 <= fingers_of(t) <= 5 && !(t is Hold),
{
}

/// What follows the fingers frame by frame stays with the triggers that
/// measure it: zoom with pinches, window grabs with the armed swipes, and
/// nothing with one-shot triggers.
pub proof fn lemma_entries_fit_their_trigger(trigger: GestureTrigger, s: Seq<char>)
    ensures
        parse::gesture_entry_of(trigger, s) matches Ok(GestureConfigEntryOf::Continuous(c)) ==> (
        match trigger {
            GestureTrigger::Swipe { .. } => !(c is Zoom),
            GestureTrigger::Pinch { .. } => c is Zoom,
            GestureTrigger::DoubletapSwipe { .. }
            | GestureTrigger::HoldSwipe { .. }
            | GestureTrigger::DoubletapHoldSwipe { .. } => parse::grabs_window(c),
            _ => false,
        }),
        parse::gesture_entry_of(trigger, s) matches Ok(
            GestureConfigEntryOf::Threshold(ThresholdActionOf::CenterNearest),
        ) ==> trigger is Swipe || trigger is SwipeUp || trigger is SwipeDown || trigger is SwipeLeft
            || trigger is SwipeRight,
        trigger is Tap || trigger is Doubletap ==> parse::gesture_entry_of(trigger, s) is Err
            && !(parse::touch_entry_of(trigger, s) matches Ok(GestureConfigEntryOf::Continuous(_))),
{
}

// ── User bindings ────────────────────────────────────────────────────

/// The combo under which a `[keybindings]` key is stored, where it is no tap.
pub open spec fn stored_combo(key: Seq<char>, mod_key: ModKey, table: Seq<(Seq<char>, u32)>) -> Option<
    KeyCombo,
> {
    if parse::tap_of(key, mod_key) is Some {
        None
    } else {
        match parse::key_combo_of(key, mod_key, table) {
            Ok(c) => Some(types::normal_combo(c)),
            Err(_) => None,
        }
    }
}

/// An entry binds its combo to its action, `none` unbinds it, and no other
/// combo is touched.
pub proof fn lemma_entry_binds_its_combo(
    keys: Seq<(KeyCombo, ActionOf<Seq<char>>)>,
    taps: Seq<(Modifiers, ActionOf<Seq<char>>)>,
    w: Seq<(Severity, Seq<char>)>,
    entry: (Seq<char>, Seq<char>),
    mod_key: ModKey,
    table: Seq<(Seq<char>, u32)>,
    other: KeyCombo,
)
    requires
        bindings::distinct(keys),
    ensures
        ({
            let after = merge::key_step((keys, taps, w), entry, mod_key, table).0;
            match stored_combo(entry.0, mod_key, table) {
                Some(combo) => {
                    &&& entry.1 == "none"@ ==> bindings::bound(after, combo) is None
                    &&& entry.1 != "none"@ ==> (parse::action_of(entry.1) matches Ok(a)
                        ==> bindings::bound(after, combo) == Some(a))
                    &&& other != combo ==> bindings::bound(after, other) == bindings::bound(
                        keys,
                        other,
                    )
                },
                None => after == keys,
            }
        }),
{
    if let Some(combo) = stored_combo(entry.0, mod_key, table) {
        bindings::lemma_bound_after_unbind(keys, combo, other);
        if let Ok(a) = parse::action_of(entry.1) {
            bindings::lemma_bound_after_bind(keys, combo, a, other);
        }
    }
}

// ── Key names ────────────────────────────────────────────────────────

/// Two tables hold the same symbol for every name of a list.
pub open spec fn agree(
    a: Seq<(Seq<char>, u32)>,
    b: Seq<(Seq<char>, u32)>,
    names: Seq<Seq<char>>,
) -> bool {
    forall|i: int|
        0 <= i < names.len() ==> parse::keysym_named(a, #[trigger] names[i])
            == parse::keysym_named(b, names[i])
}

proof fn lemma_keys_agree(
    st: (
        Seq<(KeyCombo, ActionOf<Seq<char>>)>,
        Seq<(Modifiers, ActionOf<Seq<char>>)>,
        Seq<(Severity, Seq<char>)>,
    ),
    entries: Seq<(Seq<char>, Seq<char>)>,
    mod_key: ModKey,
    a: Seq<(Seq<char>, u32)>,
    b: Seq<(Seq<char>, u32)>,
)
    requires
        agree(a, b, settings::table_names(entries)),
    ensures
        merge::keys_after(st, entries, mod_key, a) == merge::keys_after(st, entries, mod_key, b),
    decreases entries.len(),
{
    if entries.len() > 0 {
        let before = entries.drop_last();
        let names = settings::table_names(entries);
        assert forall|i: int| 0 <= i < settings::table_names(before).len() implies
            parse::keysym_named(a, #[trigger] settings::table_names(before)[i])
            == parse::keysym_named(b, settings::table_names(before)[i]) by {
            assert(settings::table_names(before)[i] == names[i]);
        }
        lemma_keys_agree(st, before, mod_key, a, b);
        assert(names[entries.len() - 1] == parse::last_part(entries.last().0));
    }
}

proof fn lemma_combos_agree(
    w: Seq<(Severity, Seq<char>)>,
    keys: Seq<Seq<char>>,
    mod_key: ModKey,
    a: Seq<(Seq<char>, u32)>,
    b: Seq<(Seq<char>, u32)>,
)
    requires
        agree(a, b, settings::last_parts(keys)),
    ensures
        window_rules::pass_combos(keys, mod_key, a) == window_rules::pass_combos(keys, mod_key, b),
        window_rules::pass_warnings(w, keys, mod_key, a) == window_rules::pass_warnings(
            w,
            keys,
            mod_key,
            b,
        ),
    decreases keys.len(),
{
    if keys.len() > 0 {
        let before = keys.drop_last();
        let names = settings::last_parts(keys);
        assert forall|i: int| 0 <= i < settings::last_parts(before).len() implies
            parse::keysym_named(a, #[trigger] settings::last_parts(before)[i])
            == parse::keysym_named(b, settings::last_parts(before)[i]) by {
            assert(settings::last_parts(before)[i] == names[i]);
        }
        lemma_combos_agree(w, before, mod_key, a, b);
        assert(names[keys.len() - 1] == parse::last_part(keys.last()));
    }
}

proof fn lemma_rules_agree(
    w: Seq<(Severity, Seq<char>)>,
    rules: Seq<WindowRuleFile>,
    mod_key: ModKey,
    a: Seq<(Seq<char>, u32)>,
    b: Seq<(Seq<char>, u32)>,
)
    requires
        agree(a, b, settings::rule_key_names(rules)),
    ensures
        settings::rules_after(w, rules, mod_key, a) == settings::rules_after(w, rules, mod_key, b),
    decreases rules.len(),
{
    if rules.len() > 0 {
        let before = settings::rule_key_names(rules.drop_last());
        let own = settings::pass_key_names(rules.last());
        let names = settings::rule_key_names(rules);
        assert forall|i: int| 0 <= i < before.len() implies parse::keysym_named(
            a,
            #[trigger] before[i],
        ) == parse::keysym_named(b, before[i]) by {
            assert(before[i] == names[i]);
        }
        assert forall|i: int| 0 <= i < own.len() implies parse::keysym_named(a, #[trigger] own[i])
            == parse::keysym_named(b, own[i]) by {
            assert(own[i] == names[before.len() + i]);
        }
        lemma_rules_agree(w, rules.drop_last(), mod_key, a, b);
        let w1 = settings::rules_after(w, rules.drop_last(), mod_key, a).1;
        let w2 = w1 + window_rules::rule_mode_warning(rules.last().decoration);
        if let Some(PassKeysFile::Keys(strs)) = rules.last().pass_keys {
            lemma_combos_agree(w2, text::string_views(strs@), mod_key, a, b);
        }
    }
}

/// A configuration depends on the symbol table only through the key names that
/// the file mentions: two tables that agree on those give the same bindings,
/// the same rules and the same warnings.
pub proof fn lemma_only_mentioned_keys_matter(
    raw: ConfigFile,
    a: Seq<(Seq<char>, u32)>,
    b: Seq<(Seq<char>, u32)>,
)
    requires
        agree(a, b, settings::key_names_of(raw)),
    ensures
        config::keys_state(raw, a) == config::keys_state(raw, b),
        config::rules_state(raw, a) == config::rules_state(raw, b),
        config::all_warnings(raw, a) == config::all_warnings(raw, b),
{
    let tn = settings::table_names(merge::opt_table(raw.keybindings));
    let rn = settings::rule_key_names(settings::entries_of(raw.window_rules));
    let names = settings::key_names_of(raw);
    assert forall|i: int| 0 <= i < tn.len() implies parse::keysym_named(a, #[trigger] tn[i])
        == parse::keysym_named(b, tn[i]) by {
        assert(tn[i] == names[i]);
    }
    assert forall|i: int| 0 <= i < rn.len() implies parse::keysym_named(a, #[trigger] rn[i])
        == parse::keysym_named(b, rn[i]) by {
        assert(rn[i] == names[tn.len() + i]);
    }
    let mod_key = settings::mod_key_of(raw.mod_key);
    let start = if merge::disabled_of(merge::opt_list(raw.disable_defaults)).keys {
        Seq::empty()
    } else {
        bindings::bind_all(
            Seq::empty(),
            config::normal_keys(config::defaults::default_keys(mod_key)),
        )
    };
    lemma_keys_agree(
        (start, Seq::empty(), config::early_warnings(raw)),
        merge::opt_table(raw.keybindings),
        mod_key,
        a,
        b,
    );
    lemma_rules_agree(
        config::decorated_warnings(raw, a),
        settings::entries_of(raw.window_rules),
        mod_key,
        a,
        b,
    );
}

// ── Warnings ─────────────────────────────────────────────────────────

proof fn lemma_message_counts(w: Seq<(Severity, Seq<char>)>)
    ensures
        warnings::messages(w, Severity::Rejected).len() + warnings::messages(
            w,
            Severity::Corrected,
        ).len() == w.len(),
    decreases w.len(),
{
    if w.len() > 0 {
        lemma_message_counts(w.drop_last());
    }
}

proof fn lemma_some_message(w: Seq<(Severity, Seq<char>)>, severity: Severity, i: int)
    requires
        0 <= i < w.len(),
        w[i].0 == severity,
    ensures
        warnings::messages(w, severity).len() > 0,
    decreases w.len(),
{
    if i < w.len() - 1 {
        lemma_some_message(w.drop_last(), severity, i);
    }
}

proof fn lemma_message_origin(w: Seq<(Severity, Seq<char>)>, severity: Severity, k: int)
    requires
        0 <= k < warnings::messages(w, severity).len(),
    ensures
        exists|i: int|
            0 <= i < w.len() && (#[trigger] w[i]) == (severity, warnings::messages(w, severity)[k]),
    decreases w.len(),
{
    if w.len() > 0 {
        let before = warnings::messages(w.drop_last(), severity);
        if k < before.len() {
            lemma_message_origin(w.drop_last(), severity, k);
            let i = choose|i: int|
                0 <= i < w.drop_last().len() && (#[trigger] w.drop_last()[i]) == (
                    severity,
                    before[k],
                );
            assert(w[i] == (severity, before[k]));
        } else {
            assert(w[w.len() - 1] == (severity, warnings::messages(w, severity)[k]));
        }
    }
}

/// Every warning is displayed, and where a value was rejected, the first
/// message is about a rejected value.
pub proof fn lemma_rejections_come_first(w: Seq<(Severity, Seq<char>)>)
    ensures
        warnings::by_severity(w).len() == w.len(),
        (exists|i: int| 0 <= i < w.len() && (#[trigger] w[i]).0 == Severity::Rejected) ==> exists|
            j: int,
        |
            0 <= j < w.len() && (#[trigger] w[j]) == (
                Severity::Rejected,
                warnings::by_severity(w)[0],
            ),
{
    lemma_message_counts(w);
    if exists|i: int| 0 <= i < w.len() && (#[trigger] w[i]).0 == Severity::Rejected {
        let i = choose|i: int| 0 <= i < w.len() && (#[trigger] w[i]).0 == Severity::Rejected;
        lemma_some_message(w, Severity::Rejected, i);
        lemma_message_origin(w, Severity::Rejected, 0);
        assert(warnings::by_severity(w)[0] == warnings::messages(w, Severity::Rejected)[0]);
    }
}

/// Clamping lands in the range, keeps what is in it, and warns exactly when it
/// changes the value.
pub proof fn lemma_clamp_lands_in_range<T: Ranked>(value: T, min: T, max: T, field: Seq<char>)
    requires
        min.rank() is Some,
        max.rank() is Some,
        min.rank()->0 <= max.rank()->0,
    ensures
        ({
            let r = warnings::clamp_of(value, min, max);
            &&& r.rank() is Some
            &&& min.rank()->0 <= r.rank()->0 <= max.rank()->0
            &&& warnings::clamp_of(r, min, max) == r
            &&& warnings::clamp_warning(value, min, max, field).len() == 0 <==> r.rank()
                == value.rank()
        }),
{
}

// ── Outputs ──────────────────────────────────────────────────────────

/// No two outputs share a name, and of two entries for one name the earlier
/// one stays.
pub proof fn lemma_outputs_have_distinct_names(
    w: Seq<(Severity, Seq<char>)>,
    entries: Seq<OutputRuleFile>,
)
    ensures
        ({
            let out = settings::outputs_after(w, entries).0;
            forall|i: int, j: int|
                0 <= i < j < out.len() ==> (#[trigger] out[i]).name != (#[trigger] out[j]).name
        }),
        entries.len() > 0 ==> settings::outputs_after(w, entries.drop_last()).0.is_prefix_of(
            settings::outputs_after(w, entries).0,
        ),
    decreases entries.len(),
{
    if entries.len() > 0 {
        lemma_outputs_have_distinct_names(w, entries.drop_last());
        let before = settings::outputs_after(w, entries.drop_last()).0;
        let out = settings::outputs_after(w, entries).0;
        if let Ok(c) = outputs::output_rule_of(entries.last()) {
            assert forall|i: int, j: int| 0 <= i < j < out.len() implies (#[trigger] out[i]).name
                != (#[trigger] out[j]).name by {
                if j == before.len() {
                    assert(out[i] == before[i]);
                }
            }
        }
    }
}

// ── Window rules ─────────────────────────────────────────────────────

/// Something applies to a window exactly when some rule matches it.
pub proof fn lemma_applied_iff_matched(
    rules: Seq<WindowRuleOf<Seq<char>, Seq<KeyCombo>>>,
    app_id: Seq<char>,
    title: Seq<char>,
    n: int,
)
    requires
        0 <= n <= rules.len(),
    ensures
        window_rules::applied_upto(rules, app_id, title, None, n) is Some <==> exists|i: int|
            0 <= i < n && #[trigger] window_rules::rule_matches(rules[i], app_id, title),
    decreases n,
{
    if n > 0 {
        lemma_applied_iff_matched(rules, app_id, title, n - 1);
        if window_rules::rule_matches(rules[n - 1], app_id, title) {
            assert(window_rules::takes_part(rules, n - 1, None));
        } else if exists|i: int|
            0 <= i < n && #[trigger] window_rules::rule_matches(rules[i], app_id, title) {
            let i = choose|i: int|
                0 <= i < n && #[trigger] window_rules::rule_matches(rules[i], app_id, title);
            assert(i < n - 1);
        }
    }
}

/// A flag that one matching rule switches on stays on.
pub proof fn lemma_flags_are_sticky(
    rules: Seq<WindowRuleOf<Seq<char>, Seq<KeyCombo>>>,
    app_id: Seq<char>,
    title: Seq<char>,
    n: int,
    i: int,
)
    requires
        0 <= i < n <= rules.len(),
        window_rules::rule_matches(rules[i], app_id, title),
    ensures
        ({
            let a = window_rules::applied_upto(rules, app_id, title, None, n);
            &&& a is Some
            &&& rules[i].widget ==> a->0.widget
            &&& rules[i].pinned_to_screen ==> a->0.pinned_to_screen
            &&& rules[i].blur ==> a->0.blur
            &&& rules[i].pass_keys is All ==> a->0.pass_keys is All
        }),
    decreases n,
{
    if i < n - 1 {
        lemma_flags_are_sticky(rules, app_id, title, n - 1, i);
    } else {
        assert(window_rules::takes_part(rules, n - 1, None));
    }
}

/// The last matching rule that sets something decides it.
pub proof fn lemma_later_rules_override(
    rules: Seq<WindowRuleOf<Seq<char>, Seq<KeyCombo>>>,
    app_id: Seq<char>,
    title: Seq<char>,
    n: int,
    i: int,
)
    requires
        0 <= i < n <= rules.len(),
        window_rules::rule_matches(rules[i], app_id, title),
    ensures
        ({
            let a = window_rules::applied_upto(rules, app_id, title, None, n);
            &&& a is Some
            &&& rules[i].decoration is Some && (forall|j: int|
                i < j < n && #[trigger] window_rules::rule_matches(rules[j], app_id, title)
                    ==> rules[j].decoration is None) ==> a->0.decoration == rules[i].decoration
            &&& rules[i].opacity is Some && (forall|j: int|
                i < j < n && #[trigger] window_rules::rule_matches(rules[j], app_id, title)
                    ==> rules[j].opacity is None) ==> a->0.opacity == rules[i].opacity
            &&& rules[i].position is Some && (forall|j: int|
                i < j < n && #[trigger] window_rules::rule_matches(rules[j], app_id, title)
                    ==> rules[j].position is None) ==> a->0.position == rules[i].position
            &&& rules[i].size is Some && (forall|j: int|
                i < j < n && #[trigger] window_rules::rule_matches(rules[j], app_id, title)
                    ==> rules[j].size is None) ==> a->0.size == rules[i].size
        }),
    decreases n,
{
    if i < n - 1 {
        lemma_later_rules_override(rules, app_id, title, n - 1, i);
    } else {
        assert(window_rules::takes_part(rules, n - 1, None));
    }
}

/// Of the matching rules with a position, only the instance's own takes part;
/// a rule without one takes part for every instance.
pub proof fn lemma_instances_are_separate(
    rules: Seq<WindowRuleOf<Seq<char>, Seq<KeyCombo>>>,
    own: int,
    i: int,
)
    ensures
        rules[i].position is Some ==> (window_rules::takes_part(rules, i, Some(own)) <==> i == own),
        rules[i].position is None ==> window_rules::takes_part(rules, i, Some(own)),
{
}

// ── Taps ─────────────────────────────────────────────────────────────

/// Does a lowercase word name a modifier?
pub open spec fn names_modifier(w: Seq<char>) -> bool {
    w == "mod"@ || w == "alt"@ || w == "super"@ || w == "logo"@ || w == "ctrl"@ || w == "control"@
        || w == "shift"@ || w == "mod3"@
}

/// The modifiers that a lowercase word names by itself.
pub open spec fn named_by(w: Seq<char>, mod_key: ModKey) -> Modifiers {
    Modifiers {
        ctrl: w == "ctrl"@ || w == "control"@,
        alt: w == "alt"@ || (w == "mod"@ && mod_key is Alt),
        shift: w == "shift"@,
        logo: w == "super"@ || w == "logo"@ || (w == "mod"@ && mod_key is Super),
        mod3: w == "mod3"@ || (w == "mod"@ && mod_key is Mod3),
    }
}

/// Is a flag set if and only if some word names it?
pub open spec fn flags_of(m: Modifiers, parts: Seq<Seq<char>>, mod_key: ModKey) -> bool {
    &&& m.ctrl == exists|i: int|
        0 <= i < parts.len() && named_by(text::lowercase(#[trigger] parts[i]), mod_key).ctrl
    &&& m.alt == exists|i: int|
        0 <= i < parts.len() && named_by(text::lowercase(#[trigger] parts[i]), mod_key).alt
    &&& m.shift == exists|i: int|
        0 <= i < parts.len() && named_by(text::lowercase(#[trigger] parts[i]), mod_key).shift
    &&& m.logo == exists|i: int|
        0 <= i < parts.len() && named_by(text::lowercase(#[trigger] parts[i]), mod_key).logo
    &&& m.mod3 == exists|i: int|
        0 <= i < parts.len() && named_by(text::lowercase(#[trigger] parts[i]), mod_key).mod3
}

/// Does every word name a modifier?
pub open spec fn all_modifiers(parts: Seq<Seq<char>>) -> bool {
    forall|i: int| 0 <= i < parts.len() ==> names_modifier(text::lowercase(#[trigger] parts[i]))
}

proof fn lemma_one_word(m: Modifiers, w: Seq<char>, mod_key: ModKey)
    ensures
        parse::with_modifier(m, w, mod_key) is Ok == names_modifier(w),
        parse::with_modifier(m, w, mod_key) matches Ok(r) ==> {
            let n = named_by(w, mod_key);
            r == (Modifiers {
                ctrl: m.ctrl || n.ctrl,
                alt: m.alt || n.alt,
                shift: m.shift || n.shift,
                logo: m.logo || n.logo,
                mod3: m.mod3 || n.mod3,
            })
        },
{
    reveal_strlit("mod");
    reveal_strlit("alt");
    reveal_strlit("super");
    reveal_strlit("logo");
    reveal_strlit("ctrl");
    reveal_strlit("control");
    reveal_strlit("shift");
    reveal_strlit("mod3");
    assert("mod"@[0] == 'm' && "alt"@[0] == 'a' && "super"@[0] == 's' && "super"@[1] == 'u'
        && "logo"@[0] == 'l' && "ctrl"@[0] == 'c' && "control"@[0] == 'c' && "shift"@[0] == 's'
        && "shift"@[1] == 'h' && "mod3"@[0] == 'm' && "mod"@.len() == 3 && "mod3"@.len() == 4);
}

/// Words are modifiers if and only if each names one, and each flag is set if and
/// only if some word names it.
pub proof fn lemma_words(parts: Seq<Seq<char>>, mod_key: ModKey)
    ensures
        parse::modifiers_of(parts, mod_key) is Ok == all_modifiers(parts),
        parse::modifiers_of(parts, mod_key) matches Ok(m) ==> flags_of(m, parts, mod_key),
    decreases parts.len(),
{
    if parts.len() > 0 {
        let front = parts.drop_last();
        let w = text::lowercase(parts.last());
        lemma_words(front, mod_key);
        assert(parts[parts.len() - 1] == parts.last());
        assert forall|i: int| 0 <= i < front.len() implies #[trigger] front[i] == parts[i] by {}
        if let Ok(m) = parse::modifiers_of(front, mod_key) {
            lemma_one_word(m, w, mod_key);
            assert(all_modifiers(parts) == names_modifier(w)) by {
                if names_modifier(w) {
                    assert forall|i: int| 0 <= i < parts.len() implies names_modifier(
                        text::lowercase(#[trigger] parts[i]),
                    ) by {
                        if i < front.len() {
                            assert(front[i] == parts[i]);
                        }
                    }
                }
            }
            if let Ok(r) = parse::modifiers_of(parts, mod_key) {
                lemma_flags_grow(m, r, parts, mod_key);
            }
        } else {
            let k = choose|k: int|
                0 <= k < front.len() && !names_modifier(text::lowercase(#[trigger] front[k]));
            assert(front[k] == parts[k]);
        }
    }
}

proof fn lemma_flags_grow(m: Modifiers, r: Modifiers, parts: Seq<Seq<char>>, mod_key: ModKey)
    requires
        parts.len() > 0,
        flags_of(m, parts.drop_last(), mod_key),
        ({
            let n = named_by(text::lowercase(parts.last()), mod_key);
            r == (Modifiers {
                ctrl: m.ctrl || n.ctrl,
                alt: m.alt || n.alt,
                shift: m.shift || n.shift,
                logo: m.logo || n.logo,
                mod3: m.mod3 || n.mod3,
            })
        }),
    ensures
        flags_of(r, parts, mod_key),
{
    let front = parts.drop_last();
    let last = parts.len() - 1;
    assert(parts[last] == parts.last());
    assert forall|i: int| 0 <= i < front.len() implies #[trigger] front[i] == parts[i] by {}
    let pick = |f: spec_fn(Modifiers) -> bool, q: Seq<Seq<char>>|
        exists|i: int|
            0 <= i < q.len() && f(named_by(text::lowercase(#[trigger] q[i]), mod_key));
    assert forall|f: spec_fn(Modifiers) -> bool| #[trigger] pick(f, parts) == (pick(f, front) || f(
        named_by(text::lowercase(parts.last()), mod_key),
    )) by {
        if pick(f, front) {
            let i = choose|i: int|
                0 <= i < front.len() && f(named_by(text::lowercase(#[trigger] front[i]), mod_key));
            assert(front[i] == parts[i]);
        }
        if f(named_by(text::lowercase(parts.last()), mod_key)) {
            assert(f(named_by(text::lowercase(parts[last]), mod_key)));
        }
        if pick(f, parts) {
            let i = choose|i: int|
                0 <= i < parts.len() && f(named_by(text::lowercase(#[trigger] parts[i]), mod_key));
            if i < last {
                assert(front[i] == parts[i]);
            }
        }
    }
    let ctrl = |n: Modifiers| n.ctrl;
    let alt = |n: Modifiers| n.alt;
    let shift = |n: Modifiers| n.shift;
    let logo = |n: Modifiers| n.logo;
    let mod3 = |n: Modifiers| n.mod3;
    assert(pick(ctrl, parts) == (pick(ctrl, front) || ctrl(
        named_by(text::lowercase(parts.last()), mod_key),
    )));
    assert(pick(alt, parts) == (pick(alt, front) || alt(
        named_by(text::lowercase(parts.last()), mod_key),
    )));
    assert(pick(shift, parts) == (pick(shift, front) || shift(
        named_by(text::lowercase(parts.last()), mod_key),
    )));
    assert(pick(logo, parts) == (pick(logo, front) || logo(
        named_by(text::lowercase(parts.last()), mod_key),
    )));
    assert(pick(mod3, parts) == (pick(mod3, front) || mod3(
        named_by(text::lowercase(parts.last()), mod_key),
    )));
}

/// A combo is a tap if and only if every `+`-separated token names a modifier,
/// and each flag of the tap is set if and only if some token names it. It is
/// then no key combo, as long as its last token is no key name.
pub proof fn lemma_tap_flags(s: Seq<char>, mod_key: ModKey, table: Seq<(Seq<char>, u32)>)
    ensures
        parse::tap_of(s, mod_key) is Some == all_modifiers(text::split_trimmed(s, '+')),
        parse::tap_of(s, mod_key) matches Some(m) ==> flags_of(
            m,
            text::split_trimmed(s, '+'),
            mod_key,
        ),
        parse::keysym_named(table, parse::last_part(s)) == 0 ==> parse::key_combo_of(
            s,
            mod_key,
            table,
        ) is Err,
{
    lemma_words(text::split_trimmed(s, '+'), mod_key);
}

/// Is every token of one text, in any case, a token of the other?
pub open spec fn tokens_among(a: Seq<char>, b: Seq<char>) -> bool {
    let p = text::split_trimmed(a, '+');
    let q = text::split_trimmed(b, '+');
    forall|i: int|
        0 <= i < p.len() ==> exists|j: int|
            0 <= j < q.len() && text::lowercase(#[trigger] p[i]) == text::lowercase(#[trigger] q[j])
}

/// The order and repetition of the tokens of a tap do not matter.
pub proof fn lemma_tap_order_is_free(a: Seq<char>, b: Seq<char>, mod_key: ModKey)
    requires
        tokens_among(a, b),
        tokens_among(b, a),
    ensures
        parse::tap_of(a, mod_key) == parse::tap_of(b, mod_key),
{
    let p = text::split_trimmed(a, '+');
    let q = text::split_trimmed(b, '+');
    lemma_words(p, mod_key);
    lemma_words(q, mod_key);
    lemma_words_among(p, q, mod_key);
    lemma_words_among(q, p, mod_key);
}

proof fn lemma_words_among(p: Seq<Seq<char>>, q: Seq<Seq<char>>, mod_key: ModKey)
    requires
        forall|i: int|
            0 <= i < p.len() ==> exists|j: int|
                0 <= j < q.len() && text::lowercase(#[trigger] p[i]) == text::lowercase(
                    #[trigger] q[j],
                ),
    ensures
        all_modifiers(q) ==> all_modifiers(p),
        forall|m: Modifiers, n: Modifiers|
            #![trigger flags_of(m, p, mod_key), flags_of(n, q, mod_key)]
            flags_of(m, p, mod_key) && flags_of(n, q, mod_key) ==> (m.ctrl ==> n.ctrl) && (m.alt
                ==> n.alt) && (m.shift ==> n.shift) && (m.logo ==> n.logo) && (m.mod3 ==> n.mod3),
{
    if all_modifiers(q) {
        assert forall|i: int| 0 <= i < p.len() implies names_modifier(
            text::lowercase(#[trigger] p[i]),
        ) by {
            let j = choose|j: int|
                0 <= j < q.len() && text::lowercase(p[i]) == text::lowercase(#[trigger] q[j]);
            assert(names_modifier(text::lowercase(q[j])));
        }
    }
}

// ── Output modes ─────────────────────────────────────────────────────

/// A size as a mode is written.
pub open spec fn size_text(w: i32, h: i32) -> Seq<char> {
    text::int_text(w as int) + seq!['x'] + text::int_text(h as int)
}

/// A written size, alone or with a refresh rate, reads back as itself.
pub proof fn lemma_written_mode_reads_back(w: i32, h: i32, hz: u32)
    ensures
        outputs::output_mode_of(size_text(w, h)) == Ok::<OutputMode, Seq<char>>(
            OutputMode::Size(w, h),
        ),
        outputs::output_mode_of(size_text(w, h) + seq!['@'] + text::int_text(hz as int)) == Ok::<
            OutputMode,
            Seq<char>,
        >(OutputMode::SizeRefresh(w, h, hz)),
{
    let (tw, th) = (text::int_text(w as int), text::int_text(h as int));
    let thz = text::int_text(hz as int);
    let size = size_text(w, h);
    let full = size + seq!['@'] + thz;
    text::lemma_displayed_number_reads_back(w as int);
    text::lemma_displayed_number_reads_back(h as int);
    text::lemma_displayed_number_reads_back(hz as int);
    text::lemma_cut_around_first(tw, 'x', th);
    assert forall|i: int| 0 <= i < size.len() implies #[trigger] size[i] != '@' by {
        if i < tw.len() {
            assert(size[i] == tw[i]);
        } else if i > tw.len() {
            assert(size[i] == th[i - tw.len() - 1]);
        }
    }
    text::lemma_no_cut(size, '@');
    text::lemma_cut_around_first(size, '@', thz);
    reveal_strlit("preferred");
    assert("preferred"@[0] == 'p');
    assert(tw.len() > 0) by {
        if w < 0 {
            text::lemma_nat_text((-(w as int)) as nat);
        } else {
            text::lemma_nat_text(w as nat);
        }
    }
    assert(size[0] == tw[0] && full[0] == tw[0]);
}

/// Every mode but "preferred" has an `x` before its first `@`.
pub proof fn lemma_mode_needs_an_x(s: Seq<char>)
    requires
        s != "preferred"@,
        forall|i: int|
            0 <= i < text::find_char(s, '@', 0) ==> #[trigger] s[i] != 'x',
    ensures
        outputs::output_mode_of(s) is Err,
{
    text::lemma_find_char(s, '@', 0);
    let k = text::find_char(s, '@', 0);
    let res = s.take(k);
    assert forall|i: int| 0 <= i < res.len() implies #[trigger] res[i] != 'x' by {
        assert(res[i] == s[i]);
    }
    text::lemma_no_cut(res, 'x');
    if k >= s.len() {
        assert(res =~= s);
    }
}

// ── Defaults ─────────────────────────────────────────────────────────

/// The file without its `[keybindings]` table.
pub open spec fn without_keys(raw: ConfigFile) -> ConfigFile {
    ConfigFile { keybindings: None, ..raw }
}

/// The key bindings that every file starts from.
pub open spec fn first_keys() -> Seq<(KeyCombo, ActionOf<Seq<char>>)> {
    bindings::bind_all(
        Seq::empty(),
        config::normal_keys(config::defaults::default_keys(ModKey::Super)),
    )
}

/// A file that sets key bindings alone takes nothing else from the key table,
/// and warns only about them.
proof fn lemma_keys_alone(raw: ConfigFile, table: Seq<(Seq<char>, u32)>)
    requires
        raw::is_empty_file(without_keys(raw)),
    ensures
        config::keys_state(raw, table) == merge::keys_after(
            (first_keys(), Seq::empty(), warnings::silent()),
            merge::opt_table(raw.keybindings),
            ModKey::Super,
            table,
        ),
        config::mouse_state(raw, table) == (
            config::defaults::default_mouse(ModKey::Super),
            config::keys_state(raw, table).2,
        ),
        config::gesture_state(raw, table) == (
            config::defaults::default_gesture(ModKey::Super),
            config::keys_state(raw, table).2,
        ),
        config::touch_state(raw, table) == (
            config::defaults::default_touch(),
            config::keys_state(raw, table).2,
        ),
{
    assert(config::early_warnings(raw) =~= warnings::silent());
    assert(merge::opt_table(raw::no_tables().on_window).len() == 0);
    assert(merge::opt_table(raw::no_tables().on_canvas).len() == 0);
    assert(merge::opt_table(raw::no_tables().anywhere).len() == 0);
}

/// The warnings of a file that sets key bindings alone: those about the
/// bindings, and those about taps that cannot fire.
proof fn lemma_keys_alone_warn(raw: ConfigFile, table: Seq<(Seq<char>, u32)>)
    requires
        raw::is_empty_file(without_keys(raw)),
    ensures
        ({
            let w = merge::conflict_warnings(
                config::keys_state(raw, table).2,
                config::keys_state(raw, table).1,
                ""@,
            );
            &&& config::rules_state(raw, table) == (
                Seq::<WindowRuleOf<Seq<char>, Seq<KeyCombo>>>::empty(),
                w,
            )
            &&& config::outputs_state(raw, table) == (
                Seq::<outputs::OutputConfigOf<Seq<char>>>::empty(),
                w,
            )
            &&& config::all_warnings(raw, table) == w
        }),
{
    lemma_keys_alone(raw, table);
    let w = config::keys_state(raw, table).2;
    assert forall|w: Seq<(Severity, Seq<char>)>| #[trigger] (w + warnings::silent()) == w by {
        warnings::lemma_silent(w);
    }
    assert(settings::trackpad_warnings(w, raw.input.trackpad) == w);
    assert(settings::mouse_device_warnings(w, raw.input.mouse) == w);
    assert(settings::thresholds_warnings(w, raw) == w);
    assert(config::device_warnings(raw, table) == w);
    let v = merge::conflict_warnings(w, config::keys_state(raw, table).1, ""@);
    assert(decoration::decoration_warnings(v, raw.decorations) == v);
    assert(config::decorated_warnings(raw, table) == v);
    assert(settings::entries_of(raw.window_rules).len() == 0);
    assert(settings::entries_of(raw.outputs).len() == 0);
    assert(decoration::effects_warnings(raw.effects) == warnings::silent());
    assert(settings::speeds_warnings(v, raw) == v);
    assert(settings::animation_speed_warning(raw.navigation.animation_speed)
        == warnings::silent());
    assert(settings::renamed_warnings(v, raw) == v);
    assert(config::section_warnings(raw, table) == v);
    assert(settings::limits_warnings(v, raw) == v);
}

proof fn lemma_empty_keys(raw: ConfigFile, table: Seq<(Seq<char>, u32)>)
    requires
        raw::is_empty_file(raw),
    ensures
        without_keys(raw) == raw,
        config::keys_state(raw, table) == (
            first_keys(),
            Seq::<(Modifiers, ActionOf<Seq<char>>)>::empty(),
            warnings::silent(),
        ),
{
    assert(without_keys(raw) == raw);
    lemma_keys_alone(raw, table);
    assert(merge::opt_table(raw.keybindings).len() == 0);
}

/// A file that sets nothing gives no warning, whatever the key table.
pub proof fn lemma_empty_file_is_silent(raw: ConfigFile, table: Seq<(Seq<char>, u32)>)
    requires
        raw::is_empty_file(raw),
    ensures
        config::all_warnings(raw, table) == warnings::silent(),
        warnings::by_severity(config::all_warnings(raw, table)) == Seq::<Seq<char>>::empty(),
{
    lemma_empty_keys(raw, table);
    lemma_keys_alone_warn(raw, table);
    assert(warnings::by_severity(warnings::silent()) =~= Seq::<Seq<char>>::empty());
}

/// Is every setting of a configuration but its key and tap bindings that of a
/// file that sets nothing?
pub open spec fn default_but_keys(c: Config) -> bool {
    exists|e: ConfigFile|
        raw::is_empty_file(e) && #[trigger] config::texts_from(c, e, None, Seq::empty())
            && config::numbers_from(c, e) && config::switches_from(c, e) && c.mod_key
            == ModKey::Super && c.mouse@ == config::defaults::default_mouse(ModKey::Super)
            && c.gestures@ == config::defaults::default_gesture(ModKey::Super)
            && c.touch_gestures@ == config::defaults::default_touch()
}

/// Files that differ in their key bindings alone agree on everything else.
proof fn lemma_rest_agrees(
    c: Config,
    a: ConfigFile,
    b: ConfigFile,
    home: Option<Seq<char>>,
    table: Seq<(Seq<char>, u32)>,
)
    requires
        raw::is_empty_file(without_keys(a)),
        raw::is_empty_file(without_keys(b)),
    ensures
        config::numbers_from(c, a) == config::numbers_from(c, b),
        config::switches_from(c, a) == config::switches_from(c, b),
        config::texts_from(c, a, home, table) == config::texts_from(c, b, None, Seq::empty()),
{
    lemma_keys_alone_warn(a, table);
    lemma_keys_alone_warn(b, Seq::empty());
    reveal_strlit("xwayland-satellite");
    assert("xwayland-satellite"@[0] == 'x');
    assert(settings::expanded(a.xwayland.path@, home) == settings::expanded(b.xwayland.path@, None));
    assert(merge::table_views(a.env@) =~= merge::table_views(b.env@));
    assert(settings::child_env_of(a) == settings::child_env_of(b));
}

/// All files that set nothing stand for the same configurations, whatever the
/// home directory and the key table.
pub proof fn lemma_empty_files_agree(
    c: Config,
    a: ConfigFile,
    b: ConfigFile,
    home: Option<Seq<char>>,
    table: Seq<(Seq<char>, u32)>,
)
    requires
        raw::is_empty_file(a),
        raw::is_empty_file(b),
    ensures
        config::config_from(c, a, home, table) == config::config_from(c, b, None, Seq::empty()),
{
    lemma_empty_keys(a, table);
    lemma_empty_keys(b, Seq::empty());
    lemma_rest_agrees(c, a, b, home, table);
    lemma_keys_alone(a, table);
    lemma_keys_alone(b, Seq::empty());
    assert(config::bindings_from(c, a, table) == config::bindings_from(c, b, Seq::empty()));
}

/// Without keyboard options no tap is in conflict.
proof fn lemma_no_options_no_conflict(mods: Modifiers)
    ensures
        merge::tap_conflict(mods, ""@) is None,
{
    reveal_strlit("");
    reveal_strlit("shift");
    let none = ""@;
    let opts = text::split_trimmed(none, ',');
    text::lemma_find_char(none, ',', 0);
    assert(text::split(none, ',').len() == 1);
    assert(opts.len() == 1);
    assert(opts[0] =~= Seq::empty());
    assert(!text::has_text(opts[0], "shift"@));
    assert(merge::conflict_from(mods, opts, 1) is None);
}

/// Does a file set nothing but one key binding?
pub open spec fn sets_one_key(raw: ConfigFile, entry: (Seq<char>, Seq<char>)) -> bool {
    raw::is_empty_file(without_keys(raw)) && merge::opt_table(raw.keybindings) == seq![entry]
}

/// A file with one `[keybindings]` entry keeps every default but that of the
/// entry's combo: an action binds it and `none` unbinds it, both without a
/// warning, and any other text leaves it as it was, with exactly one warning. A
/// bare modifier chord binds a tap instead, and a key that is no combo changes
/// nothing, with exactly one warning. `c` is the configuration of the file, `d`
/// that of a file that sets nothing.
pub proof fn lemma_one_key_merges_with_defaults(
    c: Config,
    d: Config,
    raw: ConfigFile,
    entry: (Seq<char>, Seq<char>),
    home: Option<Seq<char>>,
    table: Seq<(Seq<char>, u32)>,
)
    requires
        sets_one_key(raw, entry),
        config::config_from(c, raw, home, table),
        config::is_default(d),
    ensures
        default_but_keys(c),
        default_but_keys(d),
        d.bindings@ == first_keys(),
        ({
            let (key, action) = entry;
            let messages = warnings::by_severity(config::all_warnings(raw, table));
            let parsed = parse::action_of(action);
            match parse::tap_of(key, ModKey::Super) {
                None => match parse::key_combo_of(key, ModKey::Super, table) {
                    Ok(k) => {
                        let combo = types::normal_combo(k);
                        &&& c.tap_bindings@ == d.tap_bindings@
                        &&& action == "none"@ ==> c.bindings@ == bindings::unbind(
                            d.bindings@,
                            combo,
                        ) && messages.len() == 0
                        &&& action != "none"@ ==> match parsed {
                            Ok(a) => c.bindings@ == bindings::bind(d.bindings@, combo, a)
                                && messages.len() == 0,
                            Err(e) => c.bindings@ == d.bindings@ && messages == seq![
                                "config: invalid action '"@ + action + "': "@ + e,
                            ],
                        }
                    },
                    Err(e) => c.bindings@ == d.bindings@ && c.tap_bindings@ == d.tap_bindings@
                        && messages == seq!["config: invalid key combo '"@ + key + "': "@ + e],
                },
                Some(mods) => {
                    &&& c.bindings@ == d.bindings@
                    &&& action == "none"@ ==> c.tap_bindings@ == d.tap_bindings@ && messages.len()
                        == 0
                    &&& action != "none"@ ==> match parsed {
                        Ok(a) => c.tap_bindings@ == bindings::bind(d.tap_bindings@, mods, a)
                            && messages.len() == 0,
                        Err(e) => c.tap_bindings@ == d.tap_bindings@ && messages == seq![
                            "config: invalid action '"@ + action + "': "@ + e,
                        ],
                    }
                },
            }
        }),
{
    let e = choose|e: ConfigFile|
        raw::is_empty_file(e) && #[trigger] config::config_from(d, e, None, Seq::empty());
    lemma_empty_keys(e, Seq::empty());
    lemma_keys_alone(e, Seq::empty());
    lemma_keys_alone(raw, table);
    lemma_keys_alone_warn(raw, table);
    lemma_rest_agrees(c, raw, e, home, table);
    assert(config::texts_from(d, e, None, Seq::empty()));
    assert(config::texts_from(c, e, None, Seq::empty()));
    let start = (
        first_keys(),
        Seq::<(Modifiers, ActionOf<Seq<char>>)>::empty(),
        warnings::silent(),
    );
    assert(seq![entry].drop_last() =~= Seq::empty());
    assert(merge::keys_after(start, seq![entry].drop_last(), ModKey::Super, table) == start);
    let st = merge::key_step(start, entry, ModKey::Super, table);
    assert(config::keys_state(raw, table) == st);
    let taps = st.1;
    if taps.len() > 0 {
        assert(taps.len() == 1);
        lemma_no_options_no_conflict(taps.last().0);
        assert(merge::conflict_warnings(st.2, taps.drop_last(), ""@) == st.2);
    }
    assert(merge::conflict_warnings(st.2, taps, ""@) == st.2);
    assert forall|m: Seq<char>| #[trigger]
        warnings::by_severity(warnings::silent() + warnings::rejected(m)) == seq![m] by {
        lemma_one_warning(m);
    }
    assert(warnings::by_severity(warnings::silent()) =~= Seq::<Seq<char>>::empty());
}

proof fn lemma_one_warning(m: Seq<char>)
    ensures
        warnings::by_severity(warnings::silent() + warnings::rejected(m)) == seq![m],
{
    let w = warnings::silent() + warnings::rejected(m);
    assert(w =~= seq![(Severity::Rejected, m)]);
    assert(w.drop_last() =~= warnings::silent());
    assert(warnings::messages(w.drop_last(), Severity::Rejected) =~= Seq::<Seq<char>>::empty());
    assert(warnings::messages(w.drop_last(), Severity::Corrected) =~= Seq::<Seq<char>>::empty());
    assert(warnings::by_severity(w) =~= seq![m]);
}

/// The same, combo by combo: the entry's combo is bound to its action or to
/// nothing, and every other combo to what it is bound to by default.
pub proof fn lemma_one_key_changes_one_combo(
    c: Config,
    d: Config,
    raw: ConfigFile,
    entry: (Seq<char>, Seq<char>),
    home: Option<Seq<char>>,
    table: Seq<(Seq<char>, u32)>,
    other: KeyCombo,
)
    requires
        sets_one_key(raw, entry),
        config::config_from(c, raw, home, table),
        config::is_default(d),
    ensures
        match stored_combo(entry.0, ModKey::Super, table) {
            Some(combo) => {
                &&& bindings::bound(c.bindings@, combo) == (if entry.1 == "none"@ {
                    None
                } else {
                    match parse::action_of(entry.1) {
                        Ok(a) => Some(a),
                        Err(_) => bindings::bound(d.bindings@, combo),
                    }
                })
                &&& other != combo ==> bindings::bound(c.bindings@, other) == bindings::bound(
                    d.bindings@,
                    other,
                )
            },
            None => c.bindings@ == d.bindings@,
        },
{
    lemma_one_key_merges_with_defaults(c, d, raw, entry, home, table);
    if let Some(combo) = stored_combo(entry.0, ModKey::Super, table) {
        bindings::lemma_bound_after_unbind(d.bindings@, combo, other);
        if let Ok(a) = parse::action_of(entry.1) {
            bindings::lemma_bound_after_bind(d.bindings@, combo, a, other);
        }
    }
}

} // verus!
