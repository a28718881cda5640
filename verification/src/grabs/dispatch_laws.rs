//! What the touch grab does with the events and decisions that reach it, said
//! of the events themselves.
use vstd::prelude::*;

use crate::config::bindings::ContextOf;
use crate::config::numbers::Real;
use crate::config::types::{ContinuousAction, GestureConfigEntryOf, GestureTrigger};
use crate::geometry::Size;
use crate::grabs::touch_fingers;
use crate::grabs::touch_fingers::ScreenPos;
use crate::grabs::touch_gesture_grab;
use crate::grabs::touch_gesture_grab::{
    Contact, ContactKind, EffectOf, HeldTouchEvent, Place, SlotDown, TouchGestureGrabOf,
    TouchSessionOf, WindowGrab,
};
use crate::grabs::touch_plan::PlanOf;
use crate::grabs::touch_recognizer::{DecisionOf, Reading, TouchKind, TouchRecognizerOf};

verus! {

// ── Density ──────────────────────────────────────────────────────────

/// A density from one and a half up to, but not, twenty dots is plausible.
pub proof fn lemma_plausible_densities(bits: u64)
    ensures
        touch_gesture_grab::plausible(Some(Real { bits })) <==> 0x3ff8_0000_0000_0000 <= bits
            < 0x4034_0000_0000_0000,
        !touch_gesture_grab::plausible(None),
{
}

/// The density is that of the digitizer if it is plausible, else that of the
/// output if that is, else four dots; without a mode that has a size it is four.
pub proof fn lemma_which_density_counts(
    mode: Option<Size>,
    digitizer: Option<Real>,
    output: Option<Real>,
)
    ensures
        ({
            let r = touch_gesture_grab::density_of(mode, digitizer, output);
            let usable = mode is Some && mode->0.w > 0 && mode->0.h > 0;
            let (d, o) = (
                touch_gesture_grab::plausible(digitizer),
                touch_gesture_grab::plausible(output),
            );
            &&& usable && d ==> Some(r) == digitizer
            &&& usable && !d && o ==> Some(r) == output
            &&& !usable || (!d && !o) ==> r.bits == 0x4010_0000_0000_0000
        }),
{
}

// ── Contacts ─────────────────────────────────────────────────────────

proof fn lemma_slots_without(slots: Seq<SlotDown>, slot: i32, other: i32)
    ensures
        touch_gesture_grab::slot_down(touch_gesture_grab::slots_without(slots, slot), slot) is None,
        other != slot ==> touch_gesture_grab::slot_down(
            touch_gesture_grab::slots_without(slots, slot),
            other,
        ) == touch_gesture_grab::slot_down(slots, other),
    decreases slots.len(),
{
    if slots.len() > 0 {
        lemma_slots_without(slots.drop_last(), slot, other);
        let before = touch_gesture_grab::slots_without(slots.drop_last(), slot);
        assert(before.push(slots.last()).drop_last() == before);
    }
}

/// A finger that comes down is kept with its focus, and with the offset of its
/// surface where it is over screen space; a finger that moves changes nothing,
/// and one that is lifted is forgotten. No other finger is touched by that.
pub proof fn lemma_fingers_are_kept(slots: Seq<SlotDown>, c: Contact, other: i32)
    ensures
        ({
            let (now, later) = (
                touch_gesture_grab::slots_at(slots, c),
                touch_gesture_grab::slots_after(slots, c),
            );
            let at = |s: Seq<SlotDown>, slot: i32| touch_gesture_grab::slot_down(s, slot);
            &&& other != c.slot ==> at(now, other) == at(slots, other) && at(later, other) == at(
                slots,
                other,
            )
            &&& match c.kind {
                ContactKind::Down { delta, focus, over_screen_space, .. } => {
                    &&& now == later
                    &&& at(now, c.slot) matches Some(d) && d.slot == c.slot && d.focus == focus && (
                    d.screen_delta is Some <==> focus is Some && over_screen_space) && (
                    d.screen_delta is Some ==> d.screen_delta == Some(delta))
                },
                ContactKind::Motion { .. } => now == slots && later == slots,
                ContactKind::Up => now == slots && at(later, c.slot) is None,
            }
        }),
{
    lemma_slots_without(slots, c.slot, other);
    if let ContactKind::Down { delta, focus, over_screen_space, .. } = c.kind {
        let kept = touch_gesture_grab::slots_without(slots, c.slot);
        let now = touch_gesture_grab::slots_at(slots, c);
        assert(now.drop_last() == kept);
    }
}

/// The recognizer sees every event with its own time, finger and place on the
/// screen; a finger that comes down on something of an app is said to.
pub proof fn lemma_what_the_recognizer_sees(c: Contact)
    ensures
        ({
            let i = touch_gesture_grab::input_of(c);
            &&& i.time_ms == c.time && i.slot == c.slot
            &&& match c.kind {
                ContactKind::Down { screen, focus, .. } => i.kind matches TouchKind::Down {
                    location,
                    app_owns_hit,
                } && location == screen && app_owns_hit == (focus is Some),
                ContactKind::Motion { screen, .. } => i.kind matches TouchKind::Motion { location }
                    && location == screen,
                ContactKind::Up => i.kind is Up,
            }
        }),
{
}

/// The finger, time and focus that an effect delivers, if it delivers a touch.
pub open spec fn delivered<S>(e: EffectOf<S>) -> Option<(i32, u32)> {
    match e {
        EffectOf::Down { slot, time, .. } => Some((slot, time)),
        EffectOf::Motion { slot, time, .. } => Some((slot, time)),
        EffectOf::Up { slot, time } => Some((slot, time)),
        _ => None,
    }
}

/// An event that is forwarded reaches the app as the same event: the same
/// finger, time and kind. A finger that comes down brings its focus, and one that
/// moves has the focus that it came down with.
pub proof fn lemma_forwarded_events(slots: Seq<SlotDown>, c: Contact)
    ensures
        ({
            let e = touch_gesture_grab::forwarded(slots, c);
            let known = touch_gesture_grab::slot_down(slots, c.slot);
            &&& delivered(e) == Some((c.slot, c.time))
            &&& match c.kind {
                ContactKind::Down { location: at, focus: on, .. } => e matches EffectOf::Down {
                    focus,
                    location,
                    ..
                } && focus == on && location == at,
                ContactKind::Motion { location: at, screen } => e matches EffectOf::Motion {
                    focus,
                    place,
                    ..
                } && (known is Some ==> focus == known->0.focus) && (known is None ==> focus
                    is None) && (known is Some && known->0.screen_delta is Some ==> place
                    == Place::Shifted { at: screen, offset: known->0.screen_delta->0 }) && (!(known
                    is Some && known->0.screen_delta is Some) ==> place == Place::Canvas(at)),
                ContactKind::Up => e is Up,
            }
        }),
{
}

/// An event that is consumed is the same event for nobody: the same finger, time
/// and kind, without a focus.
pub proof fn lemma_consumed_events(c: Contact)
    ensures
        ({
            let e = touch_gesture_grab::consumed(c);
            &&& delivered(e) == Some((c.slot, c.time))
            &&& match c.kind {
                ContactKind::Down { location: at, .. } => e matches EffectOf::Down {
                    focus,
                    location,
                    ..
                } && focus is None && location == at,
                ContactKind::Motion { location: at, .. } => e matches EffectOf::Motion {
                    focus,
                    place,
                    ..
                } && focus is None && place == Place::Canvas(at),
                ContactKind::Up => e is Up,
            }
        }),
        ({
            let e = touch_gesture_grab::passed(c);
            &&& delivered(e) == Some((c.slot, c.time))
            &&& c.kind matches ContactKind::Down { location: at, focus: on, .. } ==> (
            e matches EffectOf::Down { focus, location, .. } && focus == on && location == at)
            &&& !(c.kind is Down) ==> e == touch_gesture_grab::consumed(c)
        }),
{
}

/// An event that was withheld is delivered later as it would have been at once,
/// but that motion follows the focus of its finger by itself.
pub proof fn lemma_withheld_events(slots: Seq<SlotDown>, c: Contact)
    ensures
        ({
            let later = touch_gesture_grab::delivery(touch_gesture_grab::held_event(slots, c));
            let at_once = touch_gesture_grab::forwarded(slots, c);
            &&& !(c.kind is Motion) ==> later == at_once
            &&& c.kind is Motion ==> (later matches EffectOf::Motion { slot, focus, place, time }
                && at_once matches EffectOf::Motion { slot: s, place: p, time: t, .. } && slot == s
                && place == p && time == t && focus is None)
        }),
{
}

/// Withheld events are delivered in their order and closed by a frame, and with
/// none withheld nothing is delivered.
pub proof fn lemma_flushing_keeps_the_order(b: Seq<HeldTouchEvent>, e: HeldTouchEvent, i: int)
    ensures
        touch_gesture_grab::flushed(None).len() == 0,
        touch_gesture_grab::flushed(Some(b)).len() == b.len() + 1,
        touch_gesture_grab::flushed(Some(b)).last() is Frame,
        0 <= i < b.len() ==> touch_gesture_grab::flushed(Some(b))[i]
            == touch_gesture_grab::delivery(b[i]),
        touch_gesture_grab::withheld(None, e) == seq![e],
        touch_gesture_grab::withheld(Some(b), e) == b.push(e),
{
}

/// Before an app is told to forget a sequence, every finger that it has, but the
/// one of the event, is moved to where it is, in the order in which they came
/// down.
pub proof fn lemma_replayed_fingers(
    slots: Seq<SlotDown>,
    points: Seq<(i32, ScreenPos)>,
    c: Contact,
    i: int,
)
    requires
        0 <= i < slots.len(),
    ensures
        ({
            let s = slots[i];
            let out = touch_gesture_grab::replayed(slots, points, c);
            let at = touch_fingers::position(points, s.slot);
            s.slot != c.slot && s.focus is Some && at is Some ==> out.contains(
                EffectOf::Motion {
                    slot: s.slot,
                    focus: None,
                    place: match s.screen_delta {
                        Some(offset) => Place::Shifted { at: at->0, offset },
                        None => Place::Under(at->0),
                    },
                    time: c.time,
                },
            )
        }),
    decreases slots.len(),
{
    let front = slots.drop_last();
    let before = touch_gesture_grab::replayed(front, points, c);
    let out = touch_gesture_grab::replayed(slots, points, c);
    let s = slots[i];
    let at = touch_fingers::position(points, s.slot);
    if s.slot != c.slot && s.focus is Some && at is Some {
        let e = EffectOf::<Seq<char>>::Motion {
            slot: s.slot,
            focus: None,
            place: match s.screen_delta {
                Some(offset) => Place::Shifted { at: at->0, offset },
                None => Place::Under(at->0),
            },
            time: c.time,
        };
        if i < front.len() {
            lemma_replayed_fingers(front, points, c, i);
            let k = choose|k: int| 0 <= k < before.len() && before[k] == e;
            assert(out[k] == e);
        } else {
            assert(out[before.len() as int] == e);
        }
    }
}

/// Nothing else is replayed: no finger of the event, and none without a focus.
pub proof fn lemma_only_held_fingers_are_replayed(
    slots: Seq<SlotDown>,
    points: Seq<(i32, ScreenPos)>,
    c: Contact,
)
    ensures
        ({
            let out = touch_gesture_grab::replayed(slots, points, c);
            &&& out.len() <= slots.len()
            &&& forall|k: int|
                0 <= k < out.len() ==> (#[trigger] out[k] matches EffectOf::Motion {
                    slot,
                    focus,
                    time,
                    ..
                } && slot != c.slot && focus is None && time == c.time)
        }),
    decreases slots.len(),
{
    if slots.len() > 0 {
        lemma_only_held_fingers_are_replayed(slots.drop_last(), points, c);
    }
}

// ── Decisions ────────────────────────────────────────────────────────

/// Each decision has its own effect: to forward or consume delivers the event,
/// to flush delivers what is withheld, to cancel ends with the app being told,
/// and to pan, zoom, fire, grab, coast or tap does just that.
pub proof fn lemma_effect_of_a_decision(
    s: TouchSessionOf<Seq<HeldTouchEvent>>,
    slots: Seq<SlotDown>,
    points: Seq<(i32, ScreenPos)>,
    c: Contact,
    d: DecisionOf<Seq<char>>,
)
    ensures
        ({
            let out = touch_gesture_grab::carry_step(s, slots, points, c, d).1;
            let only = |e: EffectOf<Seq<char>>| out.len() == 1 && out[0] == e;
            match d {
                DecisionOf::Forward => only(touch_gesture_grab::forwarded(slots, c)),
                DecisionOf::Consume => only(touch_gesture_grab::consumed(c)),
                DecisionOf::Hold => out.len() == 0,
                DecisionOf::Discard => out.len() == 0,
                DecisionOf::Flush => out == touch_gesture_grab::flushed(s.holdback),
                DecisionOf::CancelAppSequence => out.len() > 0 && out.last() is CancelApp
                    && out.drop_last() == touch_gesture_grab::replayed(slots, points, c),
                DecisionOf::PreExitFullscreen => match c.kind {
                    ContactKind::Down { fullscreen: Some(w), .. } => only(
                        EffectOf::ExitFullscreen(w),
                    ),
                    _ => out.len() == 0,
                },
                DecisionOf::Pan(delta) => only(EffectOf::Pan { delta, time: c.time }),
                DecisionOf::Zoom { scale, anchor } => only(EffectOf::Zoom { scale, anchor }),
                DecisionOf::FireThreshold(a) => only(EffectOf::Execute(a)),
                DecisionOf::StartWindowGrab { action } => only(EffectOf::StartWindowGrab(action)),
                DecisionOf::Momentum => only(EffectOf::Momentum),
                DecisionOf::Tap { focus_at, outcome, .. } => only(
                    EffectOf::Tap { focus_at, outcome },
                ),
                DecisionOf::UnsetGrab => only(EffectOf::Unset),
            }
        }),
{
    if d is CancelAppSequence {
        let r = touch_gesture_grab::replayed(slots, points, c);
        assert(r.push(EffectOf::CancelApp).drop_last() == r);
    }
}

/// What outlives an event changes only as it is decided: events are withheld by
/// a hold alone, and let go of by a flush, a discard or the end of the grab; a
/// tap alone sets its time; leaving fullscreen alone is remembered, until the
/// grab ends; and whether events are being replayed is nobody's decision.
pub proof fn lemma_what_a_decision_keeps(
    s: TouchSessionOf<Seq<HeldTouchEvent>>,
    slots: Seq<SlotDown>,
    points: Seq<(i32, ScreenPos)>,
    c: Contact,
    d: DecisionOf<Seq<char>>,
)
    ensures
        ({
            let r = touch_gesture_grab::carry_step(s, slots, points, c, d).0;
            let ends = d is UnsetGrab;
            &&& r.replaying == s.replaying
            &&& d is Hold ==> r.holdback == Some(
                touch_gesture_grab::withheld(
                    s.holdback,
                    touch_gesture_grab::held_event(slots, c),
                ),
            )
            &&& d is Flush || d is Discard || ends ==> r.holdback is None
            &&& !(d is Hold || d is Flush || d is Discard || ends) ==> r.holdback == s.holdback
            &&& d matches DecisionOf::Tap { set_last_tap, .. } ==> r.last_tap == set_last_tap
            &&& !(d is Tap) ==> r.last_tap == s.last_tap
            &&& ends ==> r.pre_exited is None
            &&& d is PreExitFullscreen ==> (c.kind matches ContactKind::Down {
                fullscreen: Some(w),
                ..
            } ==> r.pre_exited == Some(w))
            &&& !ends && !(d is PreExitFullscreen) ==> r.pre_exited == s.pre_exited
        }),
{
}

/// While withheld events are being delivered, the grab passes everything through
/// and decides nothing.
pub proof fn lemma_replaying_passes_through(
    g: TouchGestureGrabOf<
        Seq<SlotDown>,
        TouchRecognizerOf<Seq<(i32, ScreenPos)>, PlanOf<Seq<char>>>,
    >,
    s: TouchSessionOf<Seq<HeldTouchEvent>>,
    touch: ContextOf<Seq<(GestureTrigger, GestureConfigEntryOf<Seq<char>>)>>,
    c: Contact,
    r: Reading,
)
    requires
        s.replaying,
    ensures
        ({
            let (after, session, out) = touch_gesture_grab::contact_step(g, s, touch, c, r);
            after == g && session == s && out.len() == 1 && delivered(out[0]) == Some(
                (c.slot, c.time),
            )
        }),
{
}

// ── Grabs ────────────────────────────────────────────────────────────

/// A drag that moves is handed to a move and one that resizes to a resize, with
/// the cluster where the action says so; nothing else is a window grab.
pub proof fn lemma_window_grabs(a: ContinuousAction, r: Option<WindowGrab>)
    requires
        call_ensures(touch_gesture_grab::window_grab, (a,), r),
    ensures
        (r matches Some(WindowGrab::Move { .. })) <==> (a is MoveWindow || a is MoveSnappedWindows),
        (r matches Some(WindowGrab::Resize { .. })) <==> (a is ResizeWindow
            || a is ResizeWindowSnapped),
        r matches Some(WindowGrab::Move { cluster }) ==> cluster == (a is MoveSnappedWindows),
        r matches Some(WindowGrab::Resize { snapped }) ==> snapped == (a is ResizeWindowSnapped),
{
}

} // verus!
