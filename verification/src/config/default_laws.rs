//! What an empty configuration binds.
use vstd::prelude::*;

use crate::config;
use crate::config::bindings;
use crate::config::bindings::BindingContext;
use crate::config::defaults;
use crate::config::types;
use crate::config::types::{
    ActionOf, ContinuousAction, Direction, GestureBinding, GestureConfigEntryOf, GestureTrigger,
    KeyCombo, Keysym, ModKey, Modifiers, MouseActionOf, MouseBinding, MouseTrigger,
    ThresholdActionOf,
};
use crate::text;

verus! {

/// What a combo of modifiers and a symbol is bound to by default.
pub open spec fn key_default(mod_key: ModKey, m: Modifiers, raw: u32) -> Option<
    ActionOf<Seq<char>>,
> {
    bindings::bound(
        bindings::bind_all(Seq::empty(), config::normal_keys(defaults::default_keys(mod_key))),
        KeyCombo { modifiers: m, sym: Keysym { raw } },
    )
}

/// The mod key alone, with other modifiers held too.
pub open spec fn held(mod_key: ModKey, shift: bool, ctrl: bool, alt: bool) -> Modifiers {
    Modifiers {
        ctrl,
        alt: alt || mod_key is Alt,
        shift,
        logo: mod_key is Super,
        mod3: mod_key is Mod3,
    }
}

proof fn lemma_nth_default(mod_key: ModKey, i: int)
    requires
        0 <= i < defaults::default_keys(mod_key).len(),
        forall|j: int|
            i < j < defaults::default_keys(mod_key).len() ==> types::normal_combo(
                (#[trigger] defaults::default_keys(mod_key)[j]).0,
            ) != types::normal_combo(defaults::default_keys(mod_key)[i].0),
    ensures
        bindings::bound(
            bindings::bind_all(Seq::empty(), config::normal_keys(defaults::default_keys(mod_key))),
            types::normal_combo(defaults::default_keys(mod_key)[i].0),
        ) == Some(defaults::default_keys(mod_key)[i].1),
{
    let list = defaults::default_keys(mod_key);
    let stored = config::normal_keys(list);
    assert forall|j: int| i < j < stored.len() implies (#[trigger] stored[j]).0
        != stored[i].0 by {
        assert(types::normal_combo(list[j].0) != types::normal_combo(list[i].0));
    }
    bindings::lemma_last_listed_is_bound(stored, i);
}

/// The arrow key of a direction.
pub open spec fn arrow(d: Direction) -> u32 {
    match d {
        Direction::Up => 0xff52,
        Direction::Down => 0xff54,
        Direction::Left => 0xff51,
        _ => 0xff53,
    }
}

/// The arrow keys act in their own direction: the mod key alone goes to the
/// nearest window there, with shift the window is nudged there, with control the
/// view pans there, and with Alt the window is sent to the output there, unless
/// Alt is the mod key itself.
pub proof fn lemma_arrow_keys(mod_key: ModKey, d: Direction)
    requires
        d is Up || d is Down || d is Left || d is Right,
    ensures
        key_default(mod_key, held(mod_key, false, false, false), arrow(d)) == Some(
            ActionOf::<Seq<char>>::CenterNearest(d),
        ),
        key_default(mod_key, held(mod_key, true, false, false), arrow(d)) == Some(
            ActionOf::<Seq<char>>::NudgeWindow(d),
        ),
        key_default(mod_key, held(mod_key, false, true, false), arrow(d)) == Some(
            ActionOf::<Seq<char>>::PanViewport(d),
        ),
        !(mod_key is Alt) ==> key_default(mod_key, held(mod_key, false, false, true), arrow(d))
            == Some(ActionOf::<Seq<char>>::SendToOutput(d)),
{
    let n: int = if d is Up {
        0
    } else if d is Down {
        1
    } else if d is Left {
        2
    } else {
        3
    };
    let list = defaults::default_keys(mod_key);
    assert(list.len() >= 53);
    lemma_nth_default(mod_key, 23 + n);
    lemma_nth_default(mod_key, 4 + n);
    lemma_nth_default(mod_key, 8 + n);
    if !(mod_key is Alt) {
        assert(list.len() == 57);
        lemma_nth_default(mod_key, 53 + n);
    }
}

/// The mod key and a letter launch, close and find windows.
pub proof fn lemma_launch_keys(mod_key: ModKey)
    ensures
        key_default(mod_key, held(mod_key, false, false, false), 0xff0d) == Some(
            ActionOf::<Seq<char>>::ExecTerminal,
        ),
        key_default(mod_key, held(mod_key, false, false, false), 0x64) == Some(
            ActionOf::<Seq<char>>::ExecLauncher,
        ),
        key_default(mod_key, held(mod_key, false, false, false), 0x71) == Some(
            ActionOf::<Seq<char>>::CloseWindow,
        ),
        key_default(mod_key, held(mod_key, false, false, false), 0x65) == Some(
            ActionOf::<Seq<char>>::ToggleCursorPan,
        ),
        key_default(mod_key, held(mod_key, false, false, false), 0x61) == Some(
            ActionOf::<Seq<char>>::HomeToggle,
        ),
        key_default(mod_key, held(mod_key, false, false, false), 0x63) == Some(
            ActionOf::<Seq<char>>::CenterWindow,
        ),
        key_default(mod_key, held(mod_key, false, false, false), 0x78) == Some(
            ActionOf::<Seq<char>>::FocusCenter,
        ),
{
    assert(defaults::default_keys(mod_key).len() >= 53);
    lemma_nth_default(mod_key, 0);
    lemma_nth_default(mod_key, 1);
    lemma_nth_default(mod_key, 2);
    lemma_nth_default(mod_key, 3);
    lemma_nth_default(mod_key, 12);
    lemma_nth_default(mod_key, 21);
    lemma_nth_default(mod_key, 22);
}

/// The mod key zooms with the signs and digits of zooming.
pub proof fn lemma_zoom_keys(mod_key: ModKey)
    ensures
        key_default(mod_key, held(mod_key, false, false, false), 0x3d) == Some(
            ActionOf::<Seq<char>>::ZoomIn,
        ),
        key_default(mod_key, held(mod_key, false, false, false), 0x2d) == Some(
            ActionOf::<Seq<char>>::ZoomOut,
        ),
        key_default(mod_key, held(mod_key, false, false, false), 0x30) == Some(
            ActionOf::<Seq<char>>::ZoomReset,
        ),
        key_default(mod_key, held(mod_key, false, false, false), 0x7a) == Some(
            ActionOf::<Seq<char>>::ZoomReset,
        ),
        key_default(mod_key, held(mod_key, false, false, false), 0x77) == Some(
            ActionOf::<Seq<char>>::ZoomToFit,
        ),
        key_default(mod_key, held(mod_key, true, false, false), 0x77) == Some(
            ActionOf::<Seq<char>>::ZoomToFitSnapped,
        ),
{
    assert(defaults::default_keys(mod_key).len() >= 53);
    lemma_nth_default(mod_key, 29);
    lemma_nth_default(mod_key, 30);
    lemma_nth_default(mod_key, 31);
    lemma_nth_default(mod_key, 32);
    lemma_nth_default(mod_key, 33);
    lemma_nth_default(mod_key, 34);
}

/// The mod key and a letter change how the window is shown.
pub proof fn lemma_window_keys(mod_key: ModKey)
    ensures
        key_default(mod_key, held(mod_key, false, false, false), 0x66) == Some(
            ActionOf::<Seq<char>>::ToggleFullscreen,
        ),
        key_default(mod_key, held(mod_key, false, false, false), 0x6d) == Some(
            ActionOf::<Seq<char>>::FitWindow,
        ),
        key_default(mod_key, held(mod_key, true, false, false), 0x6d) == Some(
            ActionOf::<Seq<char>>::FitWindowSnapped,
        ),
        key_default(mod_key, held(mod_key, false, false, false), 0x74) == Some(
            ActionOf::<Seq<char>>::TogglePinToScreen,
        ),
        key_default(mod_key, held(mod_key, true, true, false), 0x71) == Some(
            ActionOf::<Seq<char>>::Quit,
        ),
{
    assert(defaults::default_keys(mod_key).len() >= 53);
    lemma_nth_default(mod_key, 35);
    lemma_nth_default(mod_key, 36);
    lemma_nth_default(mod_key, 37);
    lemma_nth_default(mod_key, 38);
    lemma_nth_default(mod_key, 39);
}

/// Alt and Tab cycle through the windows, forward, and with shift backward,
/// whatever the mod key.
pub proof fn lemma_cycle_keys(mod_key: ModKey, shift: bool)
    ensures
        key_default(
            mod_key,
            Modifiers { ctrl: false, alt: true, shift, logo: false, mod3: false },
            0xff09,
        ) == Some(ActionOf::<Seq<char>>::CycleWindows { backward: shift }),
{
    assert(defaults::default_keys(mod_key).len() >= 53);
    lemma_nth_default(mod_key, 27);
    lemma_nth_default(mod_key, 28);
}

/// The digits one to four go to the bookmark of their number, and with shift set
/// it.
pub proof fn lemma_bookmark_keys(mod_key: ModKey, n: int)
    requires
        1 <= n <= 4,
    ensures
        key_default(mod_key, held(mod_key, false, false, false), (0x30 + n) as u32) == Some(
            ActionOf::GoToBookmark(text::int_text(n)),
        ),
        key_default(mod_key, held(mod_key, true, false, false), (0x30 + n) as u32) == Some(
            ActionOf::SetBookmark(text::int_text(n)),
        ),
{
    assert(defaults::default_keys(mod_key).len() >= 53);
    reveal_strlit("1");
    reveal_strlit("2");
    reveal_strlit("3");
    reveal_strlit("4");
    assert(text::int_text(n) =~= seq![((('0' as int) + n) as char)]);
    assert("1"@ =~= seq!['1'] && "2"@ =~= seq!['2'] && "3"@ =~= seq!['3'] && "4"@ =~= seq!['4']);
    lemma_nth_default(mod_key, 12 + n);
    lemma_nth_default(mod_key, 16 + n);
}

/// The keys of the keyboard for sound, brightness, players and the screen work
/// without the mod key; the mod key and L lock the screen.
pub proof fn lemma_system_keys(mod_key: ModKey)
    ensures
        ({
            let none = Modifiers {
                ctrl: false,
                alt: false,
                shift: false,
                logo: false,
                mod3: false,
            };
            let shift = Modifiers { shift: true, ..none };
            let spawns = |m: Modifiers, raw: u32, command: Seq<char>|
                key_default(mod_key, m, raw) == Some(ActionOf::Spawn(command));
            &&& spawns(none, 0x1008ff13, "wpctl set-volume @DEFAULT_AUDIO_SINK@ 5%+"@)
            &&& spawns(none, 0x1008ff11, "wpctl set-volume @DEFAULT_AUDIO_SINK@ 5%-"@)
            &&& spawns(none, 0x1008ff12, "wpctl set-mute @DEFAULT_AUDIO_SINK@ toggle"@)
            &&& spawns(none, 0x1008ff02, "brightnessctl set +5%"@)
            &&& spawns(none, 0x1008ff03, "brightnessctl set 5%-"@)
            &&& spawns(none, 0x1008ff14, "playerctl play-pause"@)
            &&& spawns(none, 0x1008ff31, "playerctl play-pause"@)
            &&& spawns(none, 0x1008ff17, "playerctl next"@)
            &&& spawns(none, 0x1008ff16, "playerctl previous"@)
            &&& spawns(none, 0x1008ff15, "playerctl stop"@)
            &&& spawns(none, 0xff61, "grim - | wl-copy"@)
            &&& spawns(shift, 0xff61, "grim -g \"$(slurp -d)\" - | wl-copy"@)
            &&& spawns(
                held(mod_key, false, false, false),
                0x6c,
                "swaylock -f -c 000000 -kl"@,
            )
        }),
{
    assert(defaults::default_keys(mod_key).len() >= 53);
    lemma_nth_default(mod_key, 40);
    lemma_nth_default(mod_key, 41);
    lemma_nth_default(mod_key, 42);
    lemma_nth_default(mod_key, 43);
    lemma_nth_default(mod_key, 44);
    lemma_nth_default(mod_key, 45);
    lemma_nth_default(mod_key, 46);
    lemma_nth_default(mod_key, 47);
    lemma_nth_default(mod_key, 48);
    lemma_nth_default(mod_key, 49);
    lemma_nth_default(mod_key, 50);
    lemma_nth_default(mod_key, 51);
    lemma_nth_default(mod_key, 52);
}

/// Nothing else is bound: there are as many keys as these laws name.
pub proof fn lemma_count_of_keys(mod_key: ModKey)
    ensures
        defaults::default_keys(mod_key).len() == (if mod_key is Alt {
            53nat
        } else {
            57
        }),
{
}

// ── Mouse ────────────────────────────────────────────────────────────

/// The modifiers that are held.
pub open spec fn only(alt: bool, shift: bool) -> Modifiers {
    Modifiers { ctrl: false, alt, shift, logo: false, mod3: false }
}

/// What a button or a scroll over a window is bound to by default.
pub open spec fn mouse_default(
    mod_key: ModKey,
    cx: BindingContext,
    modifiers: Modifiers,
    trigger: MouseTrigger,
) -> Option<MouseActionOf<Seq<char>>> {
    let list = match cx {
        BindingContext::OnWindow => defaults::default_mouse(mod_key).on_window,
        BindingContext::OnCanvas => defaults::default_mouse(mod_key).on_canvas,
        BindingContext::Anywhere => defaults::default_mouse(mod_key).anywhere,
    };
    bindings::bound(list, MouseBinding { modifiers, trigger })
}

/// Alt and a button move, resize or fit the window under the pointer, with shift
/// together with those snapped to it; the mod key and the middle button make it
/// fullscreen.
pub proof fn lemma_mouse_on_windows(mod_key: ModKey)
    ensures
        ({
            let on = |m: Modifiers, b: u32|
                mouse_default(mod_key, BindingContext::OnWindow, m, MouseTrigger::Button(b));
            &&& on(only(true, false), 0x110) == Some(MouseActionOf::<Seq<char>>::MoveWindow)
            &&& on(only(true, true), 0x110) == Some(MouseActionOf::<Seq<char>>::MoveSnappedWindows)
            &&& on(only(true, false), 0x111) == Some(MouseActionOf::<Seq<char>>::ResizeWindow)
            &&& on(only(true, true), 0x111) == Some(
                MouseActionOf::<Seq<char>>::ResizeWindowSnapped,
            )
            &&& on(only(true, true), 0x112) == Some(
                MouseActionOf::Action(ActionOf::<Seq<char>>::FitWindowSnapped),
            )
            &&& on(held(mod_key, false, false, false), 0x112) == Some(
                MouseActionOf::Action(ActionOf::<Seq<char>>::ToggleFullscreen),
            )
            &&& !(mod_key is Alt) ==> on(only(true, false), 0x112) == Some(
                MouseActionOf::Action(ActionOf::<Seq<char>>::FitWindow),
            )
        }),
{
    let list = defaults::mouse_on_window(mod_key);
    assert(list.len() == 7);
    bindings::lemma_last_listed_is_bound(list, 0);
    bindings::lemma_last_listed_is_bound(list, 1);
    bindings::lemma_last_listed_is_bound(list, 2);
    bindings::lemma_last_listed_is_bound(list, 3);
    bindings::lemma_last_listed_is_bound(list, 5);
    bindings::lemma_last_listed_is_bound(list, 6);
    if !(mod_key is Alt) {
        bindings::lemma_last_listed_is_bound(list, 4);
    }
}

/// On empty canvas a drag and the trackpad pan the view and the wheel zooms it;
/// with the mod key they do so everywhere, and with control a click goes to the
/// nearest window.
pub proof fn lemma_mouse_on_canvas(mod_key: ModKey)
    ensures
        ({
            let m = held(mod_key, false, false, false);
            let there = |t: MouseTrigger|
                mouse_default(mod_key, BindingContext::OnCanvas, only(false, false), t);
            let everywhere = |m: Modifiers, t: MouseTrigger|
                mouse_default(mod_key, BindingContext::Anywhere, m, t);
            let pan = Some(MouseActionOf::<Seq<char>>::PanViewport);
            let zoom = Some(MouseActionOf::<Seq<char>>::Zoom);
            &&& there(MouseTrigger::Button(0x110)) == pan
            &&& there(MouseTrigger::TrackpadScroll) == pan
            &&& there(MouseTrigger::WheelScroll) == zoom
            &&& everywhere(m, MouseTrigger::Button(0x110)) == pan
            &&& everywhere(m, MouseTrigger::TrackpadScroll) == pan
            &&& everywhere(m, MouseTrigger::WheelScroll) == zoom
            &&& everywhere(
                held(mod_key, false, true, false),
                MouseTrigger::Button(0x110),
            ) == Some(MouseActionOf::<Seq<char>>::CenterNearest)
        }),
{
    let list = defaults::mouse_on_canvas(mod_key);
    assert(list.len() == 3);
    bindings::lemma_last_listed_is_bound(list, 0);
    bindings::lemma_last_listed_is_bound(list, 1);
    bindings::lemma_last_listed_is_bound(list, 2);
    let all = defaults::mouse_anywhere(mod_key);
    assert(all.len() == 4);
    bindings::lemma_last_listed_is_bound(all, 0);
    bindings::lemma_last_listed_is_bound(all, 1);
    bindings::lemma_last_listed_is_bound(all, 2);
    bindings::lemma_last_listed_is_bound(all, 3);
}

// ── Gestures ─────────────────────────────────────────────────────────

/// What a trackpad gesture is bound to by default.
pub open spec fn gesture_default(
    mod_key: ModKey,
    cx: BindingContext,
    modifiers: Modifiers,
    trigger: GestureTrigger,
) -> Option<GestureConfigEntryOf<Seq<char>>> {
    let list = match cx {
        BindingContext::OnWindow => defaults::default_gesture(mod_key).on_window,
        BindingContext::OnCanvas => defaults::default_gesture(mod_key).on_canvas,
        BindingContext::Anywhere => defaults::default_gesture(mod_key).anywhere,
    };
    bindings::bound(list, GestureBinding { modifiers, trigger })
}

/// An action that a gesture fires.
pub open spec fn once(a: ActionOf<Seq<char>>) -> Option<GestureConfigEntryOf<Seq<char>>> {
    Some(GestureConfigEntryOf::Threshold(ThresholdActionOf::Fixed(a)))
}

/// What follows a gesture.
pub open spec fn along(c: ContinuousAction) -> Option<GestureConfigEntryOf<Seq<char>>> {
    Some(GestureConfigEntryOf::Continuous(c))
}

/// Trackpad gestures over a window: Alt resizes it with three fingers, fits it
/// with a pinch of two and makes it fullscreen with one of three, with shift
/// together with those snapped to it; a drag after a double tap moves it.
pub proof fn lemma_gestures_on_windows(mod_key: ModKey)
    ensures
        ({
            let on = |m: Modifiers, t: GestureTrigger|
                gesture_default(mod_key, BindingContext::OnWindow, m, t);
            &&& on(only(true, false), GestureTrigger::Swipe { fingers: 3 }) == along(
                ContinuousAction::ResizeWindow,
            )
            &&& on(only(true, true), GestureTrigger::Swipe { fingers: 3 }) == along(
                ContinuousAction::ResizeWindowSnapped,
            )
            &&& on(only(false, false), GestureTrigger::DoubletapSwipe { fingers: 3 }) == along(
                ContinuousAction::MoveWindow,
            )
            &&& on(only(true, false), GestureTrigger::PinchIn { fingers: 2 }) == once(
                ActionOf::FitWindow,
            )
            &&& on(only(true, false), GestureTrigger::PinchOut { fingers: 2 }) == once(
                ActionOf::FitWindow,
            )
            &&& on(only(true, true), GestureTrigger::PinchIn { fingers: 2 }) == once(
                ActionOf::FitWindowSnapped,
            )
            &&& on(only(true, true), GestureTrigger::PinchOut { fingers: 2 }) == once(
                ActionOf::FitWindowSnapped,
            )
            &&& on(only(true, false), GestureTrigger::PinchIn { fingers: 3 }) == once(
                ActionOf::ToggleFullscreen,
            )
            &&& on(only(true, false), GestureTrigger::PinchOut { fingers: 3 }) == once(
                ActionOf::ToggleFullscreen,
            )
        }),
{
    let list = defaults::gesture_on_window(mod_key);
    assert(list.len() == 9);
    bindings::lemma_last_listed_is_bound(list, 0);
    bindings::lemma_last_listed_is_bound(list, 1);
    bindings::lemma_last_listed_is_bound(list, 2);
    bindings::lemma_last_listed_is_bound(list, 3);
    bindings::lemma_last_listed_is_bound(list, 4);
    bindings::lemma_last_listed_is_bound(list, 5);
    bindings::lemma_last_listed_is_bound(list, 6);
    bindings::lemma_last_listed_is_bound(list, 7);
    bindings::lemma_last_listed_is_bound(list, 8);
}

/// Trackpad gestures everywhere: three fingers pan and pinch to zoom, four go to
/// the nearest window, closing four fingers shows everything and opening them
/// goes home, and resting four centers the window; with the mod key three
/// fingers do what four do, and two zoom.
pub proof fn lemma_gestures_everywhere(mod_key: ModKey)
    ensures
        ({
            let m = held(mod_key, false, false, false);
            let none = only(false, false);
            let all = |m: Modifiers, t: GestureTrigger|
                gesture_default(mod_key, BindingContext::Anywhere, m, t);
            let nearest = Some(
                GestureConfigEntryOf::<Seq<char>>::Threshold(ThresholdActionOf::CenterNearest),
            );
            &&& gesture_default(
                mod_key,
                BindingContext::OnCanvas,
                none,
                GestureTrigger::Pinch { fingers: 2 },
            ) == along(ContinuousAction::Zoom)
            &&& all(m, GestureTrigger::Pinch { fingers: 2 }) == along(ContinuousAction::Zoom)
            &&& all(none, GestureTrigger::Swipe { fingers: 3 }) == along(
                ContinuousAction::PanViewport,
            )
            &&& all(none, GestureTrigger::Pinch { fingers: 3 }) == along(ContinuousAction::Zoom)
            &&& all(none, GestureTrigger::Swipe { fingers: 4 }) == nearest
            &&& all(m, GestureTrigger::Swipe { fingers: 3 }) == nearest
            &&& all(none, GestureTrigger::PinchIn { fingers: 4 }) == once(ActionOf::ZoomToFit)
            &&& all(none, GestureTrigger::PinchOut { fingers: 4 }) == once(ActionOf::HomeToggle)
            &&& all(m, GestureTrigger::PinchIn { fingers: 4 }) == once(ActionOf::ZoomToFitSnapped)
            &&& all(m, GestureTrigger::PinchIn { fingers: 3 }) == once(ActionOf::ZoomToFit)
            &&& all(m, GestureTrigger::PinchOut { fingers: 3 }) == once(ActionOf::HomeToggle)
            &&& all(none, GestureTrigger::Hold { fingers: 4 }) == once(ActionOf::CenterWindow)
            &&& all(m, GestureTrigger::Hold { fingers: 3 }) == once(ActionOf::CenterWindow)
        }),
{
    let list = defaults::gesture_anywhere(mod_key);
    assert(list.len() == 12);
    bindings::lemma_last_listed_is_bound(list, 0);
    bindings::lemma_last_listed_is_bound(list, 1);
    bindings::lemma_last_listed_is_bound(list, 2);
    bindings::lemma_last_listed_is_bound(list, 3);
    bindings::lemma_last_listed_is_bound(list, 4);
    bindings::lemma_last_listed_is_bound(list, 5);
    bindings::lemma_last_listed_is_bound(list, 6);
    bindings::lemma_last_listed_is_bound(list, 7);
    bindings::lemma_last_listed_is_bound(list, 8);
    bindings::lemma_last_listed_is_bound(list, 9);
    bindings::lemma_last_listed_is_bound(list, 10);
    bindings::lemma_last_listed_is_bound(list, 11);
    bindings::lemma_last_listed_is_bound(defaults::gesture_on_canvas(mod_key), 0);
}

/// Touch gestures: fingers on the canvas pan, two of them zoom; three pan and
/// zoom everywhere and center a window with a tap; four and five go to the
/// nearest window, show everything when they close and go home when they open;
/// on a window three fit it with a double tap, move it after one, resize it
/// after a dwell, and move it with those snapped to it after both.
pub proof fn lemma_touch_everywhere(n: u32)
    requires
        n == 4 || n == 5,
    ensures
        ({
            let d = defaults::default_touch();
            let nearest = Some(
                GestureConfigEntryOf::<Seq<char>>::Threshold(ThresholdActionOf::CenterNearest),
            );
            let all = |t: GestureTrigger| bindings::bound(d.anywhere, t);
            let canvas = |t: GestureTrigger| bindings::bound(d.on_canvas, t);
            let window = |t: GestureTrigger| bindings::bound(d.on_window, t);
            &&& all(GestureTrigger::Swipe { fingers: n }) == nearest
            &&& all(GestureTrigger::PinchIn { fingers: n }) == once(ActionOf::ZoomToFit)
            &&& all(GestureTrigger::PinchOut { fingers: n }) == once(ActionOf::HomeToggle)
            &&& all(GestureTrigger::Swipe { fingers: 3 }) == along(ContinuousAction::PanViewport)
            &&& all(GestureTrigger::Pinch { fingers: 3 }) == along(ContinuousAction::Zoom)
            &&& all(GestureTrigger::Tap { fingers: 3 }) == once(ActionOf::CenterWindow)
            &&& canvas(GestureTrigger::Swipe { fingers: 1 }) == along(
                ContinuousAction::PanViewport,
            )
            &&& canvas(GestureTrigger::Swipe { fingers: 2 }) == along(
                ContinuousAction::PanViewport,
            )
            &&& canvas(GestureTrigger::Pinch { fingers: 2 }) == along(ContinuousAction::Zoom)
            &&& window(GestureTrigger::Doubletap { fingers: 3 }) == once(ActionOf::FitWindow)
            &&& window(GestureTrigger::DoubletapSwipe { fingers: 3 }) == along(
                ContinuousAction::MoveWindow,
            )
            &&& window(GestureTrigger::HoldSwipe { fingers: 3 }) == along(
                ContinuousAction::ResizeWindow,
            )
            &&& window(GestureTrigger::DoubletapHoldSwipe { fingers: 3 }) == along(
                ContinuousAction::MoveSnappedWindows,
            )
        }),
{
    let a = defaults::touch_anywhere();
    let c = defaults::touch_on_canvas();
    let w = defaults::touch_on_window();
    assert(a.len() == 9 && c.len() == 3 && w.len() == 4);
    bindings::lemma_last_listed_is_bound(a, 0);
    bindings::lemma_last_listed_is_bound(a, 1);
    bindings::lemma_last_listed_is_bound(a, 2);
    bindings::lemma_last_listed_is_bound(a, 3);
    bindings::lemma_last_listed_is_bound(a, 4);
    bindings::lemma_last_listed_is_bound(a, 5);
    bindings::lemma_last_listed_is_bound(a, 6);
    bindings::lemma_last_listed_is_bound(a, 7);
    bindings::lemma_last_listed_is_bound(a, 8);
    bindings::lemma_last_listed_is_bound(c, 0);
    bindings::lemma_last_listed_is_bound(c, 1);
    bindings::lemma_last_listed_is_bound(c, 2);
    bindings::lemma_last_listed_is_bound(w, 0);
    bindings::lemma_last_listed_is_bound(w, 1);
    bindings::lemma_last_listed_is_bound(w, 2);
    bindings::lemma_last_listed_is_bound(w, 3);
}

} // verus!
