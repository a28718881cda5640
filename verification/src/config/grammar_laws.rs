//! What the words of the configuration grammar mean: each of them is the name of
//! one thing, and reads back as that.
use vstd::prelude::*;

use crate::config::laws;
use crate::config::parse;
use crate::config::types::{
    ActionOf, ContinuousAction, Direction, GestureBinding, GestureConfigEntryOf, GestureTrigger,
    KeyCombo, LayoutSwitch, ModKey, Modifiers, MouseActionOf, MouseBinding, MouseTrigger,
    ThresholdActionOf,
};
use crate::text;

verus! {

/// Is a text a word of visible ASCII characters without capitals?
pub open spec fn small_word(w: Seq<char>) -> bool {
    w.len() > 0 && forall|i: int|
        0 <= i < w.len() ==> 0x21 <= #[trigger] w[i] as int && (w[i] as int) < 0x7f && !('A' <= w[i]
            <= 'Z')
}

/// Trimming and lowering change nothing of such a word.
proof fn lemma_small_word(w: Seq<char>)
    requires
        small_word(w),
    ensures
        text::trimmed(w) == w,
        text::lowercase(w) == w,
        laws::one_word(w),
        laws::trim_text(w),
{
    assert(!text::white(w[0]) && !text::white(w.last()));
    text::lemma_already_lower(w);
}

// ── Directions ───────────────────────────────────────────────────────

/// The name of a direction.
pub open spec fn direction_name(d: Direction) -> Seq<char> {
    match d {
        Direction::Up => "up"@,
        Direction::Down => "down"@,
        Direction::Left => "left"@,
        Direction::Right => "right"@,
        Direction::UpLeft => "up-left"@,
        Direction::UpRight => "up-right"@,
        Direction::DownLeft => "down-left"@,
        Direction::DownRight => "down-right"@,
    }
}

/// The names of the directions differ.
proof fn lemma_direction_words()
    ensures
        "up"@.len() == 2,
        "down"@.len() == 4 && "down"@[0] == 'd',
        "left"@.len() == 4 && "left"@[0] == 'l',
        "right"@.len() == 5,
        "up-left"@.len() == 7,
        "up-right"@.len() == 8,
        "down-left"@.len() == 9,
        "down-right"@.len() == 10,
{
    reveal_strlit("up");
    reveal_strlit("down");
    reveal_strlit("left");
    reveal_strlit("right");
    reveal_strlit("up-left");
    reveal_strlit("up-right");
    reveal_strlit("down-left");
    reveal_strlit("down-right");
}

/// A text names a direction if and only if it is the direction's name, in any
/// case and with any whitespace round it.
pub proof fn lemma_directions_go_by_their_names(s: Seq<char>, d: Direction)
    ensures
        parse::direction_of(s) == Ok::<Direction, Seq<char>>(d) <==> text::lowercase(
            text::trimmed(s),
        ) == direction_name(d),
        parse::direction_of(direction_name(d)) == Ok::<Direction, Seq<char>>(d),
        small_word(direction_name(d)),
{
    lemma_direction_words();
    reveal_strlit("up");
    reveal_strlit("down");
    reveal_strlit("left");
    reveal_strlit("right");
    reveal_strlit("up-left");
    reveal_strlit("up-right");
    reveal_strlit("down-left");
    reveal_strlit("down-right");
    assert(small_word(direction_name(d)));
    lemma_small_word(direction_name(d));
}

// ── Actions ──────────────────────────────────────────────────────────

/// The argument that an action is written with, if it takes one.
pub open spec fn argument_text(a: ActionOf<Seq<char>>) -> Option<Seq<char>> {
    match a {
        ActionOf::Exec(c) => Some(c),
        ActionOf::Spawn(c) => Some(c),
        ActionOf::NudgeWindow(d) => Some(direction_name(d)),
        ActionOf::PanViewport(d) => Some(direction_name(d)),
        ActionOf::CenterNearest(d) => Some(direction_name(d)),
        ActionOf::SendToOutput(d) => Some(direction_name(d)),
        ActionOf::SendCursorToOutput(d) => Some(direction_name(d)),
        ActionOf::CycleWindows { backward } => Some(
            if backward {
                "backward"@
            } else {
                "forward"@
            },
        ),
        ActionOf::GoToBookmark(n) => Some(n),
        ActionOf::SetBookmark(n) => Some(n),
        ActionOf::MoveToBookmark(n) => Some(n),
        ActionOf::SwitchLayout(LayoutSwitch::Next) => Some("next"@),
        ActionOf::SwitchLayout(LayoutSwitch::Prev) => Some("prev"@),
        ActionOf::SwitchLayout(LayoutSwitch::Index(n)) => Some(text::int_text(n as int)),
        _ => None,
    }
}

/// An action as it is written.
pub open spec fn action_text(a: ActionOf<Seq<char>>) -> Seq<char> {
    match argument_text(a) {
        Some(x) => laws::action_name(a) + " "@ + x,
        None => laws::action_name(a),
    }
}

/// Can an action be written? A command or a bookmark's name has to be a text
/// that starts and ends with something visible.
pub open spec fn writable(a: ActionOf<Seq<char>>) -> bool {
    argument_text(a) matches Some(x) ==> laws::trim_text(x)
}

/// The names of the actions differ.
proof fn lemma_action_words()
    ensures
        "exec"@.len() == 4 && "exec"@[0] == 'e',
        "exec-terminal"@.len() == 13 && "exec-terminal"@[0] == 'e' && "exec-terminal"@[5] == 't',
        "exec-launcher"@.len() == 13 && "exec-launcher"@[0] == 'e' && "exec-launcher"@[5] == 'l',
        "spawn"@.len() == 5 && "spawn"@[0] == 's',
        "close-window"@.len() == 12 && "close-window"@[0] == 'c',
        "suspend-window"@.len() == 14 && "suspend-window"@[0] == 's' && "suspend-window"@[1] == 'u',
        "nudge-window"@.len() == 12 && "nudge-window"@[0] == 'n',
        "pan-viewport"@.len() == 12 && "pan-viewport"@[0] == 'p',
        "center-window"@.len() == 13 && "center-window"@[0] == 'c' && "center-window"@[1] == 'e',
        "focus-center"@.len() == 12 && "focus-center"@[0] == 'f',
        "center-nearest"@.len() == 14 && "center-nearest"@[0] == 'c',
        "cycle-windows"@.len() == 13 && "cycle-windows"@[0] == 'c' && "cycle-windows"@[1] == 'y',
        "home-toggle"@.len() == 11 && "home-toggle"@[0] == 'h',
        "go-to-bookmark"@.len() == 14 && "go-to-bookmark"@[0] == 'g',
        "set-bookmark"@.len() == 12 && "set-bookmark"@[0] == 's',
        "move-to-bookmark"@.len() == 16,
        "zoom-in"@.len() == 7,
        "zoom-out"@.len() == 8,
        "zoom-reset"@.len() == 10 && "zoom-reset"@[0] == 'z',
        "zoom-to-fit"@.len() == 11 && "zoom-to-fit"@[0] == 'z',
        "zoom-to-fit-snapped"@.len() == 19,
        "toggle-fullscreen"@.len() == 17 && "toggle-fullscreen"@[7] == 'f',
        "fit-window"@.len() == 10 && "fit-window"@[0] == 'f',
        "fit-window-snapped"@.len() == 18,
        "fill-window"@.len() == 11 && "fill-window"@[0] == 'f',
        "send-to-output"@.len() == 14 && "send-to-output"@[0] == 's' && "send-to-output"@[1] == 'e',
        "send-cursor-to-output"@.len() == 21 && "send-cursor-to-output"@[0] == 's',
        "toggle-pin-to-screen"@.len() == 20 && "toggle-pin-to-screen"@[0] == 't',
        "switch-layout"@.len() == 13 && "switch-layout"@[0] == 's',
        "reload-config"@.len() == 13 && "reload-config"@[0] == 'r' && "reload-config"@[2] == 'l',
        "toggle-cursor-pan"@.len() == 17 && "toggle-cursor-pan"@[7] == 'c',
        "quit"@.len() == 4 && "quit"@[0] == 'q',
        "go-to"@.len() == 5 && "go-to"@[0] == 'g',
        "zoom"@.len() == 4 && "zoom"@[0] == 'z',
        "move-window"@.len() == 11 && "move-window"@[0] == 'm',
        "move-snapped-windows"@.len() == 20 && "move-snapped-windows"@[0] == 'm',
        "resize-window"@.len() == 13 && "resize-window"@[0] == 'r' && "resize-window"@[2] == 's',
        "resize-window-snapped"@.len() == 21 && "resize-window-snapped"@[0] == 'r',
{
    reveal_strlit("exec");
    reveal_strlit("exec-terminal");
    reveal_strlit("exec-launcher");
    reveal_strlit("spawn");
    reveal_strlit("close-window");
    reveal_strlit("suspend-window");
    reveal_strlit("nudge-window");
    reveal_strlit("pan-viewport");
    reveal_strlit("center-window");
    reveal_strlit("focus-center");
    reveal_strlit("center-nearest");
    reveal_strlit("cycle-windows");
    reveal_strlit("home-toggle");
    reveal_strlit("go-to-bookmark");
    reveal_strlit("set-bookmark");
    reveal_strlit("move-to-bookmark");
    reveal_strlit("zoom-in");
    reveal_strlit("zoom-out");
    reveal_strlit("zoom-reset");
    reveal_strlit("zoom-to-fit");
    reveal_strlit("zoom-to-fit-snapped");
    reveal_strlit("toggle-fullscreen");
    reveal_strlit("fit-window");
    reveal_strlit("fit-window-snapped");
    reveal_strlit("fill-window");
    reveal_strlit("send-to-output");
    reveal_strlit("send-cursor-to-output");
    reveal_strlit("toggle-pin-to-screen");
    reveal_strlit("switch-layout");
    reveal_strlit("reload-config");
    reveal_strlit("toggle-cursor-pan");
    reveal_strlit("quit");
    reveal_strlit("go-to");
    reveal_strlit("zoom");
    reveal_strlit("move-window");
    reveal_strlit("move-snapped-windows");
    reveal_strlit("resize-window");
    reveal_strlit("resize-window-snapped");
}

/// The name of an action is a small word.
proof fn lemma_action_name_is_a_word(a: ActionOf<Seq<char>>)
    ensures
        small_word(laws::action_name(a)),
{
    reveal_strlit("exec");
    reveal_strlit("exec-terminal");
    reveal_strlit("exec-launcher");
    reveal_strlit("spawn");
    reveal_strlit("close-window");
    reveal_strlit("suspend-window");
    reveal_strlit("nudge-window");
    reveal_strlit("pan-viewport");
    reveal_strlit("center-window");
    reveal_strlit("focus-center");
    reveal_strlit("center-nearest");
    reveal_strlit("cycle-windows");
    reveal_strlit("home-toggle");
    reveal_strlit("go-to-bookmark");
    reveal_strlit("set-bookmark");
    reveal_strlit("move-to-bookmark");
    reveal_strlit("zoom-in");
    reveal_strlit("zoom-out");
    reveal_strlit("zoom-reset");
    reveal_strlit("zoom-to-fit");
    reveal_strlit("zoom-to-fit-snapped");
    reveal_strlit("toggle-fullscreen");
    reveal_strlit("fit-window");
    reveal_strlit("fit-window-snapped");
    reveal_strlit("fill-window");
    reveal_strlit("send-to-output");
    reveal_strlit("send-cursor-to-output");
    reveal_strlit("toggle-pin-to-screen");
    reveal_strlit("switch-layout");
    reveal_strlit("reload-config");
    reveal_strlit("toggle-cursor-pan");
    reveal_strlit("quit");
    reveal_strlit("go-to");
}

proof fn lemma_argument_reads_back(a: ActionOf<Seq<char>>)
    requires
        writable(a),
        argument_text(a) is Some,
    ensures
        parse::named_action(laws::action_name(a), argument_text(a)) == Ok::<
            ActionOf<Seq<char>>,
            Seq<char>,
        >(a),
{
    lemma_action_words();
    match a {
        ActionOf::NudgeWindow(d)
        | ActionOf::PanViewport(d)
        | ActionOf::CenterNearest(d)
        | ActionOf::SendToOutput(d)
        | ActionOf::SendCursorToOutput(d) => {
            lemma_directions_go_by_their_names(direction_name(d), d);
        },
        ActionOf::CycleWindows { .. } => {
            reveal_strlit("forward");
            reveal_strlit("backward");
            assert("forward"@.len() == 7 && "backward"@.len() == 8);
        },
        ActionOf::SwitchLayout(l) => {
            reveal_strlit("next");
            reveal_strlit("prev");
            reveal_strlit("previous");
            assert("next"@[0] == 'n' && "prev"@[0] == 'p' && "previous"@[0] == 'p');
            match l {
                LayoutSwitch::Index(n) => {
                    let t = text::int_text(n as int);
                    text::lemma_displayed_number_reads_back(n as int);
                    text::lemma_nat_text(n as nat);
                    assert(text::digit(t[0]));
                    assert(small_word(t)) by {
                        assert forall|i: int| 0 <= i < t.len() implies 0x21 <= #[trigger] t[i]
                            as int && (t[i] as int) < 0x7f && !('A' <= t[i] <= 'Z') by {
                            assert(text::digit(t[i]));
                        }
                    }
                    lemma_small_word(t);
                },
                LayoutSwitch::Next => {
                    lemma_small_word("next"@);
                },
                LayoutSwitch::Prev => {
                    lemma_small_word("prev"@);
                },
            }
        },
        _ => {},
    }
}

/// An action reads back from the way it is written: its name, and after a space
/// its argument.
pub proof fn lemma_written_action_reads_back(a: ActionOf<Seq<char>>)
    requires
        writable(a),
    ensures
        parse::action_of(action_text(a)) == Ok::<ActionOf<Seq<char>>, Seq<char>>(a),
{
    lemma_action_name_is_a_word(a);
    lemma_small_word(laws::action_name(a));
    match argument_text(a) {
        Some(x) => {
            laws::lemma_action_with_argument(laws::action_name(a), x);
            lemma_argument_reads_back(a);
        },
        None => {
            laws::lemma_bare_action(laws::action_name(a));
            lemma_action_words();
        },
    }
}

/// An action that takes an argument is nothing without one.
pub proof fn lemma_missing_argument_is_an_error(a: ActionOf<Seq<char>>)
    requires
        argument_text(a) is Some,
    ensures
        parse::action_of(laws::action_name(a)) is Err,
{
    lemma_action_name_is_a_word(a);
    lemma_small_word(laws::action_name(a));
    laws::lemma_bare_action(laws::action_name(a));
    lemma_action_words();
}

/// The name of an action that follows the fingers or the mouse.
pub open spec fn continuous_name(c: ContinuousAction) -> Seq<char> {
    match c {
        ContinuousAction::PanViewport => "pan-viewport"@,
        ContinuousAction::Zoom => "zoom"@,
        ContinuousAction::MoveWindow => "move-window"@,
        ContinuousAction::MoveSnappedWindows => "move-snapped-windows"@,
        ContinuousAction::ResizeWindow => "resize-window"@,
        ContinuousAction::ResizeWindowSnapped => "resize-window-snapped"@,
    }
}

/// A word names an action that follows the fingers if and only if it is the
/// action's name.
pub proof fn lemma_continuous_actions_go_by_their_names(w: Seq<char>, c: ContinuousAction)
    ensures
        parse::continuous_of(w) == Some(c) <==> w == continuous_name(c),
        small_word(continuous_name(c)),
{
    lemma_action_words();
    reveal_strlit("pan-viewport");
    reveal_strlit("zoom");
    reveal_strlit("move-window");
    reveal_strlit("move-snapped-windows");
    reveal_strlit("resize-window");
    reveal_strlit("resize-window-snapped");
}

/// A mouse action as it is written.
pub open spec fn mouse_action_text(m: MouseActionOf<Seq<char>>) -> Seq<char> {
    match m {
        MouseActionOf::MoveWindow => "move-window"@,
        MouseActionOf::MoveSnappedWindows => "move-snapped-windows"@,
        MouseActionOf::ResizeWindow => "resize-window"@,
        MouseActionOf::ResizeWindowSnapped => "resize-window-snapped"@,
        MouseActionOf::PanViewport => "pan-viewport"@,
        MouseActionOf::Zoom => "zoom"@,
        MouseActionOf::CenterNearest => "center-nearest"@,
        MouseActionOf::Action(a) => action_text(a),
    }
}

/// A written action starts and ends with something visible, and is no name that
/// stands for itself.
proof fn lemma_action_text(a: ActionOf<Seq<char>>)
    requires
        writable(a),
    ensures
        text::trimmed(action_text(a)) == action_text(a),
        parse::continuous_of(action_text(a)) is None,
        action_text(a) != "center-nearest"@,
{
    let n = laws::action_name(a);
    let s = action_text(a);
    lemma_action_name_is_a_word(a);
    lemma_small_word(n);
    lemma_action_words();
    reveal_strlit(" ");
    reveal_strlit("center-nearest");
    assert(small_word("center-nearest"@));
    if let Some(c) = parse::continuous_of(s) {
        lemma_continuous_actions_go_by_their_names(s, c);
    }
    assert(s[0] == n[0]);
    match argument_text(a) {
        Some(x) => {
            assert(s[n.len() as int] == ' ');
            assert(!small_word(s));
            assert(s.last() == x.last());
        },
        None => {},
    }
    assert(!text::white(s[0]) && !text::white(s.last()));
}

/// A mouse action reads back from the way it is written.
pub proof fn lemma_written_mouse_action_reads_back(m: MouseActionOf<Seq<char>>)
    requires
        m matches MouseActionOf::Action(a) ==> writable(a),
    ensures
        parse::mouse_action_of(mouse_action_text(m)) == Ok::<MouseActionOf<Seq<char>>, Seq<char>>(
            m,
        ),
{
    lemma_action_words();
    match m {
        MouseActionOf::Action(a) => {
            lemma_action_text(a);
            lemma_written_action_reads_back(a);
        },
        _ => {
            reveal_strlit("pan-viewport");
            reveal_strlit("zoom");
            reveal_strlit("move-window");
            reveal_strlit("move-snapped-windows");
            reveal_strlit("resize-window");
            reveal_strlit("resize-window-snapped");
            reveal_strlit("center-nearest");
            assert(small_word(mouse_action_text(m)));
            lemma_small_word(mouse_action_text(m));
        },
    }
}

// ── Mouse triggers ───────────────────────────────────────────────────

/// The name of a mouse trigger, for the buttons that have one.
pub open spec fn mouse_trigger_name(t: MouseTrigger) -> Option<Seq<char>> {
    match t {
        MouseTrigger::Button(b) => if b == 0x110 {
            Some("left"@)
        } else if b == 0x111 {
            Some("right"@)
        } else if b == 0x112 {
            Some("middle"@)
        } else {
            None
        },
        MouseTrigger::TrackpadScroll => Some("trackpad-scroll"@),
        MouseTrigger::WheelScroll => Some("wheel-scroll"@),
        MouseTrigger::WheelUp => Some("wheel-up"@),
        MouseTrigger::WheelDown => Some("wheel-down"@),
    }
}

/// The names of the mouse triggers differ.
proof fn lemma_mouse_words()
    ensures
        "left"@.len() == 4,
        "right"@.len() == 5,
        "middle"@.len() == 6,
        "trackpad-scroll"@.len() == 15,
        "wheel-scroll"@.len() == 12,
        "wheel-up"@.len() == 8,
        "wheel-down"@.len() == 10,
{
    reveal_strlit("left");
    reveal_strlit("right");
    reveal_strlit("middle");
    reveal_strlit("trackpad-scroll");
    reveal_strlit("wheel-scroll");
    reveal_strlit("wheel-up");
    reveal_strlit("wheel-down");
}

/// A mouse binding is modifiers and a trigger, joined by plus signs: each flag is
/// set if and only if a word before the last names it, and the last word is the
/// name of the trigger, in any case. Every such text is one.
pub proof fn lemma_mouse_bindings_go_by_their_words(
    s: Seq<char>,
    mod_key: ModKey,
    t: MouseTrigger,
)
    ensures
        ({
            let parts = text::split_trimmed(s, '+');
            let front = parts.drop_last();
            &&& parse::mouse_binding_of(s, mod_key) matches Ok(b) ==> laws::flags_of(
                b.modifiers,
                front,
                mod_key,
            ) && mouse_trigger_name(b.trigger) == Some(text::lowercase(parts.last()))
            &&& laws::all_modifiers(front) && mouse_trigger_name(t) == Some(
                text::lowercase(parts.last()),
            ) ==> (parse::mouse_binding_of(s, mod_key) matches Ok(b) && b.trigger == t)
            &&& !laws::all_modifiers(front) ==> parse::mouse_binding_of(s, mod_key) is Err
        }),
{
    lemma_mouse_words();
    laws::lemma_words(text::split_trimmed(s, '+').drop_last(), mod_key);
}

// ── Key combos ───────────────────────────────────────────────────────

/// The symbol of a key name is the one of the first entry for it, and none where
/// there is no entry.
pub proof fn lemma_first_symbol_counts(table: Seq<(Seq<char>, u32)>, name: Seq<char>, i: int)
    requires
        0 <= i <= table.len(),
        forall|j: int| 0 <= j < i ==> (#[trigger] table[j]).0 != name,
        i < table.len() ==> table[i].0 == name,
    ensures
        parse::keysym_named(table, name) == (if i < table.len() {
            table[i].1
        } else {
            0
        }),
    decreases table.len(),
{
    if table.len() > 0 && i > 0 {
        let rest = table.drop_first();
        assert(table[0].0 != name);
        assert forall|j: int| 0 <= j < i - 1 implies (#[trigger] rest[j]).0 != name by {
            assert(rest[j] == table[j + 1]);
        }
        lemma_first_symbol_counts(rest, name, i - 1);
    }
}

/// A key combo is modifiers and a key, joined by plus signs: each flag is set if
/// and only if a word before the last names it, and the key is the last word's
/// symbol. It is one if and only if the words name modifiers and the key has a
/// symbol.
pub proof fn lemma_key_combos_go_by_their_words(
    s: Seq<char>,
    mod_key: ModKey,
    table: Seq<(Seq<char>, u32)>,
)
    ensures
        ({
            let parts = text::split_trimmed(s, '+');
            let front = parts.drop_last();
            let raw = parse::keysym_named(table, parts.last());
            &&& parse::key_combo_of(s, mod_key, table) matches Ok(c) ==> laws::flags_of(
                c.modifiers,
                front,
                mod_key,
            ) && c.sym.raw == raw
            &&& parse::key_combo_of(s, mod_key, table) is Ok <==> laws::all_modifiers(front) && raw
                != 0
        }),
{
    laws::lemma_words(text::split_trimmed(s, '+').drop_last(), mod_key);
}

// ── Gesture triggers ─────────────────────────────────────────────────

/// The kind of a gesture as it is written.
pub open spec fn kind_name(t: GestureTrigger) -> Seq<char> {
    match t {
        GestureTrigger::Swipe { .. } => "swipe"@,
        GestureTrigger::SwipeUp { .. } => "swipe-up"@,
        GestureTrigger::SwipeDown { .. } => "swipe-down"@,
        GestureTrigger::SwipeLeft { .. } => "swipe-left"@,
        GestureTrigger::SwipeRight { .. } => "swipe-right"@,
        GestureTrigger::DoubletapSwipe { .. } => "doubletap-swipe"@,
        GestureTrigger::HoldSwipe { .. } => "hold-swipe"@,
        GestureTrigger::DoubletapHoldSwipe { .. } => "doubletap-hold-swipe"@,
        GestureTrigger::Pinch { .. } => "pinch"@,
        GestureTrigger::PinchIn { .. } => "pinch-in"@,
        GestureTrigger::PinchOut { .. } => "pinch-out"@,
        GestureTrigger::Hold { .. } => "hold"@,
        GestureTrigger::Tap { .. } => "tap"@,
        GestureTrigger::Doubletap { .. } => "doubletap"@,
    }
}

/// A gesture trigger as it is written.
pub open spec fn trigger_text(t: GestureTrigger) -> Seq<char> {
    text::int_text(laws::fingers_of(t) as int) + "-finger-"@ + kind_name(t)
}

/// Is a trigger one of the trackpad?
pub open spec fn of_trackpad(t: GestureTrigger) -> bool {
    2 <= laws::fingers_of(t) <= 5 && !(t is HoldSwipe || t is DoubletapHoldSwipe || t is Tap
        || t is Doubletap)
}

/// Is a trigger one of the touchscreen?
pub open spec fn of_touchscreen(t: GestureTrigger) -> bool {
    1 <= laws::fingers_of(t) <= 5 && !(t is Hold)
}

/// The names of the gestures differ.
proof fn lemma_kind_words()
    ensures
        "swipe"@.len() == 5 && "swipe"@[0] == 's',
        "swipe-up"@.len() == 8 && "swipe-up"@[0] == 's',
        "swipe-down"@.len() == 10 && "swipe-down"@[0] == 's' && "swipe-down"@[6] == 'd',
        "swipe-left"@.len() == 10 && "swipe-left"@[0] == 's' && "swipe-left"@[6] == 'l',
        "swipe-right"@.len() == 11,
        "doubletap-swipe"@.len() == 15,
        "hold-swipe"@.len() == 10 && "hold-swipe"@[0] == 'h',
        "doubletap-hold-swipe"@.len() == 20,
        "pinch"@.len() == 5 && "pinch"@[0] == 'p',
        "pinch-in"@.len() == 8 && "pinch-in"@[0] == 'p',
        "pinch-out"@.len() == 9 && "pinch-out"@[0] == 'p',
        "hold"@.len() == 4,
        "tap"@.len() == 3,
        "doubletap"@.len() == 9 && "doubletap"@[0] == 'd',
{
    reveal_strlit("swipe");
    reveal_strlit("swipe-up");
    reveal_strlit("swipe-down");
    reveal_strlit("swipe-left");
    reveal_strlit("swipe-right");
    reveal_strlit("doubletap-swipe");
    reveal_strlit("hold-swipe");
    reveal_strlit("doubletap-hold-swipe");
    reveal_strlit("pinch");
    reveal_strlit("pinch-in");
    reveal_strlit("pinch-out");
    reveal_strlit("hold");
    reveal_strlit("tap");
    reveal_strlit("doubletap");
}

proof fn lemma_kind_name_is_a_word(t: GestureTrigger)
    ensures
        small_word(kind_name(t)),
{
    reveal_strlit("swipe");
    reveal_strlit("swipe-up");
    reveal_strlit("swipe-down");
    reveal_strlit("swipe-left");
    reveal_strlit("swipe-right");
    reveal_strlit("doubletap-swipe");
    reveal_strlit("hold-swipe");
    reveal_strlit("doubletap-hold-swipe");
    reveal_strlit("pinch");
    reveal_strlit("pinch-in");
    reveal_strlit("pinch-out");
    reveal_strlit("hold");
    reveal_strlit("tap");
    reveal_strlit("doubletap");
}

proof fn lemma_trigger_text(t: GestureTrigger)
    requires
        1 <= laws::fingers_of(t) <= 5,
    ensures
        small_word(trigger_text(t)),
        text::split_once_text(trigger_text(t), "-finger-"@) == Some(
            (text::int_text(laws::fingers_of(t) as int), kind_name(t)),
        ),
        text::unsigned(text::int_text(laws::fingers_of(t) as int), u32::MAX as nat) == Some(
            laws::fingers_of(t) as nat,
        ),
{
    let n = laws::fingers_of(t) as int;
    let (d, k, s) = (text::int_text(n), kind_name(t), trigger_text(t));
    lemma_kind_name_is_a_word(t);
    text::lemma_displayed_number_reads_back(n);
    reveal_strlit("-finger-");
    let f = "-finger-"@;
    assert(d =~= seq![((('0' as int) + n) as char)]);
    assert(text::digit(d[0]));
    assert forall|i: int| 0 <= i < s.len() implies 0x21 <= #[trigger] s[i] as int && (s[i] as int)
        < 0x7f && !('A' <= s[i] <= 'Z') by {
        if i == 0 {
            assert(s[i] == d[0]);
        } else if i < 9 {
            assert(s[i] == f[i - 1]);
        } else {
            assert(s[i] == k[i - 9]);
        }
    }
    assert(f.len() == 8);
    assert(!text::occurs_at(s, f, 0)) by {
        if text::occurs_at(s, f, 0) {
            assert(s.subrange(0, 8)[0] == s[0]);
            assert(f[0] == '-');
        }
    }
    assert(s.subrange(1, 9) =~= f);
    text::lemma_find_text_is(s, f, 0, 1);
    assert(s.take(1) =~= d);
    assert(s.skip(9) =~= k);
}

/// A trackpad gesture reads back from the way it is written.
pub proof fn lemma_written_gesture_reads_back(t: GestureTrigger)
    requires
        of_trackpad(t),
    ensures
        parse::gesture_trigger_of(trigger_text(t)) == Ok::<GestureTrigger, Seq<char>>(t),
{
    lemma_trigger_text(t);
    lemma_small_word(trigger_text(t));
    lemma_kind_words();
}

/// A touchscreen gesture reads back from the way it is written.
pub proof fn lemma_written_touch_reads_back(t: GestureTrigger)
    requires
        of_touchscreen(t),
    ensures
        parse::touch_trigger_of(trigger_text(t)) == Ok::<GestureTrigger, Seq<char>>(t),
{
    lemma_trigger_text(t);
    lemma_small_word(trigger_text(t));
    lemma_kind_words();
}

/// What reads as a trackpad gesture is one, and its text ends with its kind after
/// its number of fingers.
pub proof fn lemma_gesture_words(s: Seq<char>)
    ensures
        parse::gesture_trigger_of(s) matches Ok(t) ==> of_trackpad(t) && (text::split_once_text(
            text::lowercase(text::trimmed(s)),
            "-finger-"@,
        ) matches Some((n, k)) && k == kind_name(t) && text::unsigned(n, u32::MAX as nat) == Some(
            laws::fingers_of(t) as nat,
        )),
        parse::touch_trigger_of(s) matches Ok(t) ==> of_touchscreen(t) && (text::split_once_text(
            text::lowercase(text::trimmed(s)),
            "-finger-"@,
        ) matches Some((n, k)) && k == kind_name(t) && text::unsigned(n, u32::MAX as nat) == Some(
            laws::fingers_of(t) as nat,
        )),
{
}

// ── What gestures are bound to ───────────────────────────────────────

/// May a gesture be bound to what follows the fingers?
pub open spec fn may_follow(t: GestureTrigger, c: ContinuousAction) -> bool {
    match t {
        GestureTrigger::Swipe { .. } => c != ContinuousAction::Zoom,
        GestureTrigger::Pinch { .. } => c == ContinuousAction::Zoom,
        GestureTrigger::DoubletapSwipe { .. }
        | GestureTrigger::HoldSwipe { .. }
        | GestureTrigger::DoubletapHoldSwipe { .. } => c == ContinuousAction::MoveWindow || c
            == ContinuousAction::MoveSnappedWindows || c == ContinuousAction::ResizeWindow || c
            == ContinuousAction::ResizeWindowSnapped,
        _ => false,
    }
}

/// A gesture takes what follows the fingers where it can be followed, and
/// refuses it otherwise; on both devices.
pub proof fn lemma_gesture_bound_to_following(t: GestureTrigger, c: ContinuousAction)
    ensures
        may_follow(t, c) ==> parse::gesture_entry_of(t, continuous_name(c)) == Ok::<
            GestureConfigEntryOf<Seq<char>>,
            Seq<char>,
        >(GestureConfigEntryOf::Continuous(c)),
        !may_follow(t, c) ==> parse::gesture_entry_of(t, continuous_name(c)) is Err,
        may_follow(t, c) ==> parse::touch_entry_of(t, continuous_name(c)) == Ok::<
            GestureConfigEntryOf<Seq<char>>,
            Seq<char>,
        >(GestureConfigEntryOf::Continuous(c)),
        !may_follow(t, c) ==> parse::touch_entry_of(t, continuous_name(c)) is Err,
{
    let w = continuous_name(c);
    lemma_continuous_actions_go_by_their_names(w, c);
    lemma_small_word(w);
    lemma_action_words();
}

/// May a gesture be bound to an action that is done once?
pub open spec fn may_fire(t: GestureTrigger, touchscreen: bool) -> bool {
    match t {
        GestureTrigger::Swipe { .. }
        | GestureTrigger::SwipeUp { .. }
        | GestureTrigger::SwipeDown { .. }
        | GestureTrigger::SwipeLeft { .. }
        | GestureTrigger::SwipeRight { .. }
        | GestureTrigger::PinchIn { .. }
        | GestureTrigger::PinchOut { .. }
        | GestureTrigger::Hold { .. } => true,
        GestureTrigger::Tap { .. } | GestureTrigger::Doubletap { .. } => touchscreen,
        _ => false,
    }
}

/// A gesture that is over at some point takes every action, and one that only
/// follows the fingers takes none; the nearest window can only be asked for by a
/// swipe, which has a direction.
pub proof fn lemma_gesture_bound_to_action(t: GestureTrigger, a: ActionOf<Seq<char>>)
    requires
        writable(a),
    ensures
        ({
            let fixed = Ok::<GestureConfigEntryOf<Seq<char>>, Seq<char>>(
                GestureConfigEntryOf::Threshold(ThresholdActionOf::Fixed(a)),
            );
            &&& may_fire(t, false) ==> parse::gesture_entry_of(t, action_text(a)) == fixed
            &&& !may_fire(t, false) ==> parse::gesture_entry_of(t, action_text(a)) is Err
            &&& may_fire(t, true) ==> parse::touch_entry_of(t, action_text(a)) == fixed
            &&& !may_fire(t, true) ==> parse::touch_entry_of(t, action_text(a)) is Err
        }),
        ({
            let nearest = Ok::<GestureConfigEntryOf<Seq<char>>, Seq<char>>(
                GestureConfigEntryOf::Threshold(ThresholdActionOf::CenterNearest),
            );
            let directed = t is Swipe || t is SwipeUp || t is SwipeDown || t is SwipeLeft
                || t is SwipeRight;
            &&& directed ==> parse::gesture_entry_of(t, "center-nearest"@) == nearest
                && parse::touch_entry_of(t, "center-nearest"@) == nearest
            &&& !directed ==> parse::gesture_entry_of(t, "center-nearest"@) is Err
                && parse::touch_entry_of(t, "center-nearest"@) is Err
        }),
{
    lemma_action_text(a);
    lemma_written_action_reads_back(a);
    reveal_strlit("center-nearest");
    assert(small_word("center-nearest"@));
    lemma_small_word("center-nearest"@);
    lemma_action_words();
}

} // verus!
