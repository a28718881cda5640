//! What holds of every touch sequence.
use vstd::prelude::*;

use crate::config::bindings;
use crate::config::bindings::{BindingContext, ContextOf};
use crate::config::defaults;
use crate::config::laws;
use crate::config::numbers;
use crate::config::numbers::Real;
use crate::config::types::{GestureConfigEntryOf, GestureTrigger};
use crate::grabs::touch_fingers;
use crate::grabs::touch_fingers::ScreenPos;
use crate::grabs::touch_plan;
use crate::grabs::touch_plan::PlanOf;
use crate::grabs::touch_recognizer;
use crate::grabs::touch_recognizer::{
    DecisionOf, GestureState, PanelScale, Reading, TouchInput, TouchKind, TouchRecognizerOf,
};

verus! {

/// An event with what surrounds it.
#[derive(Clone, Copy, Debug, PartialEq, Eq, Structural)]
pub struct TouchEvent {
    pub input: TouchInput,
    pub last_tap: Option<u32>,
    pub holdback: bool,
    pub reading: Reading,
}

/// What an event makes of a sequence, and what it decides.
pub open spec fn event_step(
    m: TouchRecognizerOf<Seq<(i32, ScreenPos)>, PlanOf<Seq<char>>>,
    touch: ContextOf<Seq<(GestureTrigger, GestureConfigEntryOf<Seq<char>>)>>,
    e: TouchEvent,
) -> (
    TouchRecognizerOf<Seq<(i32, ScreenPos)>, PlanOf<Seq<char>>>,
    Seq<DecisionOf<Seq<char>>>,
) {
    touch_recognizer::step(m, touch, e.input, e.last_tap, e.holdback, e.reading)
}

/// What events make of a sequence one after the other, and all they decide.
pub open spec fn run(
    m: TouchRecognizerOf<Seq<(i32, ScreenPos)>, PlanOf<Seq<char>>>,
    touch: ContextOf<Seq<(GestureTrigger, GestureConfigEntryOf<Seq<char>>)>>,
    events: Seq<TouchEvent>,
) -> (
    TouchRecognizerOf<Seq<(i32, ScreenPos)>, PlanOf<Seq<char>>>,
    Seq<DecisionOf<Seq<char>>>,
)
    decreases events.len(),
{
    if events.len() == 0 {
        (m, Seq::empty())
    } else {
        let (before, decided) = run(m, touch, events.drop_last());
        let (after, more) = event_step(before, touch, events.last());
        (after, decided + more)
    }
}

/// Does a decision claim the sequence for a gesture?
pub open spec fn claims(d: DecisionOf<Seq<char>>) -> bool {
    match d {
        DecisionOf::CancelAppSequence
        | DecisionOf::FireThreshold(_)
        | DecisionOf::Pan(_)
        | DecisionOf::Zoom { .. }
        | DecisionOf::StartWindowGrab { .. }
        | DecisionOf::PreExitFullscreen
        | DecisionOf::Tap { .. }
        | DecisionOf::Momentum
        | DecisionOf::Discard => true,
        _ => false,
    }
}

/// Does no decision of a list claim the sequence?
pub open spec fn no_claims(ds: Seq<DecisionOf<Seq<char>>>) -> bool {
    forall|i: int| 0 <= i < ds.len() ==> !claims(#[trigger] ds[i])
}

/// May an event of this kind decide this?
pub open spec fn may_decide(kind: TouchKind, d: DecisionOf<Seq<char>>) -> bool {
    match kind {
        TouchKind::Down { .. } => match d {
            DecisionOf::Forward
            | DecisionOf::Consume
            | DecisionOf::Hold
            | DecisionOf::Discard
            | DecisionOf::CancelAppSequence
            | DecisionOf::PreExitFullscreen => true,
            _ => false,
        },
        TouchKind::Motion { .. } => match d {
            DecisionOf::Forward
            | DecisionOf::Consume
            | DecisionOf::Hold
            | DecisionOf::Pan(_)
            | DecisionOf::Zoom { .. }
            | DecisionOf::FireThreshold(_)
            | DecisionOf::StartWindowGrab { .. } => true,
            _ => false,
        },
        TouchKind::Up => match d {
            DecisionOf::Forward
            | DecisionOf::Hold
            | DecisionOf::Flush
            | DecisionOf::Momentum
            | DecisionOf::Tap { .. }
            | DecisionOf::UnsetGrab => true,
            _ => false,
        },
    }
}

/// Each kind of event decides only what can be carried out for it.
pub proof fn lemma_decisions_fit_their_event(
    m: TouchRecognizerOf<Seq<(i32, ScreenPos)>, PlanOf<Seq<char>>>,
    touch: ContextOf<Seq<(GestureTrigger, GestureConfigEntryOf<Seq<char>>)>>,
    e: TouchEvent,
)
    ensures
        event_step(m, touch, e).1.len() > 0,
        forall|i: int|
            0 <= i < event_step(m, touch, e).1.len() ==> may_decide(
                e.input.kind,
                #[trigger] event_step(m, touch, e).1[i],
            ),
{
}

/// What is withheld is only delivered together with the lift that delivers it:
/// a flush directly follows a hold, and a claim that drops the buffer never
/// flushes.
pub proof fn lemma_flush_follows_hold(
    m: TouchRecognizerOf<Seq<(i32, ScreenPos)>, PlanOf<Seq<char>>>,
    touch: ContextOf<Seq<(GestureTrigger, GestureConfigEntryOf<Seq<char>>)>>,
    e: TouchEvent,
)
    ensures
        forall|i: int|
            0 <= i < event_step(m, touch, e).1.len() && (#[trigger] event_step(
                m,
                touch,
                e,
            ).1[i]) is Flush ==> i > 0 && event_step(m, touch, e).1[i - 1] is Hold,
        forall|i: int, j: int|
            0 <= i < event_step(m, touch, e).1.len() && 0 <= j < event_step(m, touch, e).1.len()
                && (#[trigger] event_step(m, touch, e).1[i]) is Flush ==> !((
            #[trigger] event_step(m, touch, e).1[j]) is Discard),
{
    lemma_decisions_fit_their_event(m, touch, e);
}

/// Does a list hold at most one fired threshold?
pub open spec fn fires_at_most_once(ds: Seq<DecisionOf<Seq<char>>>) -> bool {
    forall|i: int, j: int|
        0 <= i < j < ds.len() ==> !((#[trigger] ds[i]) is FireThreshold && (
        #[trigger] ds[j]) is FireThreshold)
}

/// Does a list hold no fired threshold?
pub open spec fn fires_never(ds: Seq<DecisionOf<Seq<char>>>) -> bool {
    forall|i: int| 0 <= i < ds.len() ==> !((#[trigger] ds[i]) is FireThreshold)
}

/// Has a one-shot fired?
pub open spec fn fired(s: GestureState) -> bool {
    s.nav_fired_swipe || s.nav_fired_pinch
}

proof fn lemma_fire_navigate(
    m: TouchRecognizerOf<Seq<(i32, ScreenPos)>, PlanOf<Seq<char>>>,
    r: Reading,
)
    ensures
        fires_at_most_once(touch_recognizer::navigate_step(m, r).1),
        fired(m.state) ==> fires_never(touch_recognizer::navigate_step(m, r).1) && fired(
            touch_recognizer::navigate_step(m, r).0.state,
        ),
        !fired(touch_recognizer::navigate_step(m, r).0.state) ==> fires_never(
            touch_recognizer::navigate_step(m, r).1,
        ),
{
}

proof fn lemma_fire_seek(
    m: TouchRecognizerOf<Seq<(i32, ScreenPos)>, PlanOf<Seq<char>>>,
    time: u32,
    r: Reading,
)
    ensures
        fires_never(touch_recognizer::seek_step(m, time, r).1),
        fired(touch_recognizer::seek_step(m, time, r).0.state) == fired(m.state),
{
}

proof fn lemma_fire_run(
    m: TouchRecognizerOf<Seq<(i32, ScreenPos)>, PlanOf<Seq<char>>>,
    r: Reading,
)
    ensures
        fires_never(touch_recognizer::run_step(m, r).1),
        fired(touch_recognizer::run_step(m, r).0.state) == fired(m.state),
{
}

proof fn lemma_fire_step(
    m: TouchRecognizerOf<Seq<(i32, ScreenPos)>, PlanOf<Seq<char>>>,
    touch: ContextOf<Seq<(GestureTrigger, GestureConfigEntryOf<Seq<char>>)>>,
    e: TouchEvent,
)
    ensures
        fires_at_most_once(event_step(m, touch, e).1),
        !(e.input.kind is Down) && fired(m.state) ==> fires_never(event_step(m, touch, e).1)
            && fired(event_step(m, touch, e).0.state),
        !(e.input.kind is Down) && !fired(event_step(m, touch, e).0.state) ==> fires_never(
            event_step(m, touch, e).1,
        ),
        e.input.kind is Down ==> fires_never(event_step(m, touch, e).1),
{
    lemma_decisions_fit_their_event(m, touch, e);
    let out = event_step(m, touch, e).1;
    if let TouchKind::Motion { location } = e.input.kind {
        let d = TouchRecognizerOf {
            points: touch_fingers::placed(m.points, e.input.slot, location),
            ..m
        };
        lemma_fire_navigate(d, e.reading);
        lemma_fire_seek(d, e.input.time_ms, e.reading);
        lemma_fire_run(d, e.reading);
        assert(fires_never(seq![DecisionOf::<Seq<char>>::Consume]));
        assert(fires_never(seq![DecisionOf::<Seq<char>>::Hold]));
        assert(fires_never(seq![DecisionOf::<Seq<char>>::Forward]));
    } else {
        assert(fires_never(out));
    }
}

proof fn lemma_fires_without_down(
    m: TouchRecognizerOf<Seq<(i32, ScreenPos)>, PlanOf<Seq<char>>>,
    touch: ContextOf<Seq<(GestureTrigger, GestureConfigEntryOf<Seq<char>>)>>,
    events: Seq<TouchEvent>,
)
    requires
        forall|i: int| 0 <= i < events.len() ==> !((#[trigger] events[i]).input.kind is Down),
    ensures
        fires_at_most_once(run(m, touch, events).1),
        fired(m.state) ==> fires_never(run(m, touch, events).1),
        fired(m.state) ==> fired(run(m, touch, events).0.state),
        !fired(run(m, touch, events).0.state) ==> fires_never(run(m, touch, events).1),
    decreases events.len(),
{
    if events.len() > 0 {
        let front = events.drop_last();
        assert forall|i: int| 0 <= i < front.len() implies !((
        #[trigger] front[i]).input.kind is Down) by {
            assert(front[i] == events[i]);
        }
        lemma_fires_without_down(m, touch, front);
        let (before, decided) = run(m, touch, front);
        assert(!(events[events.len() - 1].input.kind is Down));
        lemma_fire_step(before, touch, events.last());
        let more = event_step(before, touch, events.last()).1;
        let all = decided + more;
        assert forall|i: int, j: int| 0 <= i < j < all.len() implies !((
        #[trigger] all[i]) is FireThreshold && (#[trigger] all[j]) is FireThreshold) by {
            if j < decided.len() {
                assert(all[i] == decided[i] && all[j] == decided[j]);
            } else if i >= decided.len() {
                assert(all[i] == more[i - decided.len()] && all[j] == more[j - decided.len()]);
            } else {
                assert(all[i] == decided[i] && all[j] == more[j - decided.len()]);
            }
        }
        assert forall|i: int| 0 <= i < all.len() && (fired(m.state) || !fired(
            run(m, touch, events).0.state,
        )) implies !((#[trigger] all[i]) is FireThreshold) by {
            if i < decided.len() {
                assert(all[i] == decided[i]);
            } else {
                assert(all[i] == more[i - decided.len()]);
            }
        }
    }
}

proof fn lemma_downs_never_fire(
    m: TouchRecognizerOf<Seq<(i32, ScreenPos)>, PlanOf<Seq<char>>>,
    touch: ContextOf<Seq<(GestureTrigger, GestureConfigEntryOf<Seq<char>>)>>,
    events: Seq<TouchEvent>,
)
    requires
        forall|i: int| 0 <= i < events.len() ==> (#[trigger] events[i]).input.kind is Down,
    ensures
        fires_never(run(m, touch, events).1),
    decreases events.len(),
{
    if events.len() > 0 {
        let front = events.drop_last();
        assert forall|i: int| 0 <= i < front.len() implies (
        #[trigger] front[i]).input.kind is Down by {
            assert(front[i] == events[i]);
        }
        lemma_downs_never_fire(m, touch, front);
        let (before, decided) = run(m, touch, front);
        assert(events[events.len() - 1].input.kind is Down);
        lemma_fire_step(before, touch, events.last());
        let more = event_step(before, touch, events.last()).1;
        let all = decided + more;
        assert forall|i: int| 0 <= i < all.len() implies !((
        #[trigger] all[i]) is FireThreshold) by {
            if i < decided.len() {
                assert(all[i] == decided[i]);
            } else {
                assert(all[i] == more[i - decided.len()]);
            }
        }
    }
}

proof fn lemma_run_splits(
    m: TouchRecognizerOf<Seq<(i32, ScreenPos)>, PlanOf<Seq<char>>>,
    touch: ContextOf<Seq<(GestureTrigger, GestureConfigEntryOf<Seq<char>>)>>,
    a: Seq<TouchEvent>,
    b: Seq<TouchEvent>,
)
    ensures
        run(m, touch, a + b).0 == run(run(m, touch, a).0, touch, b).0,
        run(m, touch, a + b).1 == run(m, touch, a).1 + run(run(m, touch, a).0, touch, b).1,
    decreases b.len(),
{
    let mid = run(m, touch, a);
    if b.len() == 0 {
        assert(a + b =~= a);
        assert(mid.1 + Seq::<DecisionOf<Seq<char>>>::empty() =~= mid.1);
    } else {
        lemma_run_splits(m, touch, a, b.drop_last());
        assert((a + b).drop_last() =~= a + b.drop_last());
        assert((a + b).last() == b.last());
        let tail = run(mid.0, touch, b.drop_last());
        let more = event_step(tail.0, touch, b.last()).1;
        assert((mid.1 + tail.1) + more =~= mid.1 + (tail.1 + more));
    }
}

/// A gesture that plants its fingers and then only moves and lifts them fires
/// at most one threshold: never both a swipe and a pinch, never one twice.
pub proof fn lemma_one_shot_fires_once(
    m: TouchRecognizerOf<Seq<(i32, ScreenPos)>, PlanOf<Seq<char>>>,
    touch: ContextOf<Seq<(GestureTrigger, GestureConfigEntryOf<Seq<char>>)>>,
    downs: Seq<TouchEvent>,
    rest: Seq<TouchEvent>,
)
    requires
        forall|i: int| 0 <= i < downs.len() ==> (#[trigger] downs[i]).input.kind is Down,
        forall|i: int| 0 <= i < rest.len() ==> !((#[trigger] rest[i]).input.kind is Down),
    ensures
        fires_at_most_once(run(m, touch, downs + rest).1),
{
    lemma_run_splits(m, touch, downs, rest);
    lemma_downs_never_fire(m, touch, downs);
    let mid = run(m, touch, downs);
    lemma_fires_without_down(mid.0, touch, rest);
    let tail = run(mid.0, touch, rest);
    let all = mid.1 + tail.1;
    assert forall|i: int, j: int| 0 <= i < j < all.len() implies !((
    #[trigger] all[i]) is FireThreshold && (#[trigger] all[j]) is FireThreshold) by {
        if i < mid.1.len() {
            assert(all[i] == mid.1[i]);
        } else {
            assert(all[i] == tail.1[i - mid.1.len()] && all[j] == tail.1[j - mid.1.len()]);
        }
    }
}

proof fn lemma_blocked_step(
    m: TouchRecognizerOf<Seq<(i32, ScreenPos)>, PlanOf<Seq<char>>>,
    touch: ContextOf<Seq<(GestureTrigger, GestureConfigEntryOf<Seq<char>>)>>,
    e: TouchEvent,
)
    requires
        m.state.claims_blocked,
        !m.state.ever_active,
    ensures
        event_step(m, touch, e).0.state.claims_blocked,
        !event_step(m, touch, e).0.state.ever_active,
        no_claims(event_step(m, touch, e).1),
{
    reveal(touch_recognizer::after_down);
}

/// Once a finger lifted while the sequence was still the app's, nothing claims
/// it anymore, whatever follows. (Leaves out sequences that a lower tier had
/// already panned: those can still coast.)
pub proof fn lemma_blocked_stays_with_app(
    m: TouchRecognizerOf<Seq<(i32, ScreenPos)>, PlanOf<Seq<char>>>,
    touch: ContextOf<Seq<(GestureTrigger, GestureConfigEntryOf<Seq<char>>)>>,
    events: Seq<TouchEvent>,
)
    requires
        m.state.claims_blocked,
        !m.state.ever_active,
    ensures
        run(m, touch, events).0.state.claims_blocked,
        !run(m, touch, events).0.state.ever_active,
        no_claims(run(m, touch, events).1),
    decreases events.len(),
{
    if events.len() > 0 {
        lemma_blocked_stays_with_app(m, touch, events.drop_last());
        let (before, decided) = run(m, touch, events.drop_last());
        lemma_blocked_step(before, touch, events.last());
        lemma_no_claims_join(decided, event_step(before, touch, events.last()).1);
    }
}

proof fn lemma_no_claims_join(a: Seq<DecisionOf<Seq<char>>>, b: Seq<DecisionOf<Seq<char>>>)
    requires
        no_claims(a),
        no_claims(b),
    ensures
        no_claims(a + b),
{
    assert forall|i: int| 0 <= i < (a + b).len() implies !claims(#[trigger] (a + b)[i]) by {
        if i < a.len() {
            assert((a + b)[i] == a[i]);
        } else {
            assert((a + b)[i] == b[i - a.len()]);
        }
    }
}

/// The first lift of a sequence that is still the app's blocks every claim.
pub proof fn lemma_early_lift_blocks(
    m: TouchRecognizerOf<Seq<(i32, ScreenPos)>, PlanOf<Seq<char>>>,
    touch: ContextOf<Seq<(GestureTrigger, GestureConfigEntryOf<Seq<char>>)>>,
    e: TouchEvent,
)
    requires
        m.plan == touch_plan::no_plan(),
        e.input.kind is Up,
        touch_fingers::position(m.points, e.input.slot) is Some,
    ensures
        event_step(m, touch, e).0.state.claims_blocked,
        no_claims(event_step(m, touch, e).1),
{
}

/// Does a sequence stay with nothing bound from its start through events?
pub open spec fn stays_unbound(
    m: TouchRecognizerOf<Seq<(i32, ScreenPos)>, PlanOf<Seq<char>>>,
    touch: ContextOf<Seq<(GestureTrigger, GestureConfigEntryOf<Seq<char>>)>>,
    events: Seq<TouchEvent>,
) -> bool {
    forall|k: int|
        0 <= k <= events.len() ==> (#[trigger] run(m, touch, events.take(k))).0.plan
            == touch_plan::no_plan()
}

proof fn lemma_still_unbound_step(
    m: TouchRecognizerOf<Seq<(i32, ScreenPos)>, PlanOf<Seq<char>>>,
    touch: ContextOf<Seq<(GestureTrigger, GestureConfigEntryOf<Seq<char>>)>>,
    e: TouchEvent,
)
    requires
        m.plan == touch_plan::no_plan(),
        event_step(m, touch, e).0.plan == touch_plan::no_plan(),
        !m.state.ever_active,
    ensures
        !event_step(m, touch, e).0.state.ever_active,
        no_claims(event_step(m, touch, e).1),
{
    reveal(touch_recognizer::after_down);
}

proof fn lemma_unbound_run(
    m: TouchRecognizerOf<Seq<(i32, ScreenPos)>, PlanOf<Seq<char>>>,
    touch: ContextOf<Seq<(GestureTrigger, GestureConfigEntryOf<Seq<char>>)>>,
    events: Seq<TouchEvent>,
)
    requires
        stays_unbound(m, touch, events),
        !m.state.ever_active,
    ensures
        run(m, touch, events).0.plan == touch_plan::no_plan(),
        !run(m, touch, events).0.state.ever_active,
        no_claims(run(m, touch, events).1),
    decreases events.len(),
{
    assert(events.take(events.len() as int) =~= events);
    assert(run(m, touch, events.take(events.len() as int)).0.plan == touch_plan::no_plan());
    if events.len() > 0 {
        let front = events.drop_last();
        assert forall|k: int| 0 <= k <= front.len() implies (#[trigger] run(
            m,
            touch,
            front.take(k),
        )).0.plan == touch_plan::no_plan() by {
            assert(front.take(k) =~= events.take(k));
            assert(run(m, touch, events.take(k)).0.plan == touch_plan::no_plan());
        }
        lemma_unbound_run(m, touch, front);
        let (before, decided) = run(m, touch, front);
        lemma_still_unbound_step(before, touch, events.last());
        lemma_no_claims_join(decided, event_step(before, touch, events.last()).1);
    }
}

/// A sequence in which a finger lifts while nothing was bound yet is the app's
/// from the first event to the last: none claims it, whatever follows the lift.
pub proof fn lemma_early_lift_keeps_the_app(
    panel: PanelScale,
    touch: ContextOf<Seq<(GestureTrigger, GestureConfigEntryOf<Seq<char>>)>>,
    before: Seq<TouchEvent>,
    lift: TouchEvent,
    tail: Seq<TouchEvent>,
)
    requires
        stays_unbound(touch_recognizer::fresh(panel), touch, before),
        lift.input.kind is Up,
        touch_fingers::position(
            run(touch_recognizer::fresh(panel), touch, before).0.points,
            lift.input.slot,
        ) is Some,
    ensures
        no_claims(run(touch_recognizer::fresh(panel), touch, before.push(lift) + tail).1),
        run(
            touch_recognizer::fresh(panel),
            touch,
            before.push(lift) + tail,
        ).0.state.claims_blocked,
{
    let m = touch_recognizer::fresh(panel);
    lemma_unbound_run(m, touch, before);
    let (mid, decided) = run(m, touch, before);
    lemma_early_lift_blocks(mid, touch, lift);
    assert(before.push(lift).drop_last() =~= before);
    let lifted = event_step(mid, touch, lift);
    lemma_no_claims_join(decided, lifted.1);
    lemma_blocked_stays_with_app(lifted.0, touch, tail);
    lemma_run_splits(m, touch, before.push(lift), tail);
    lemma_no_claims_join(
        run(m, touch, before.push(lift)).1,
        run(lifted.0, touch, tail).1,
    );
}

/// By default one finger on a window, and two, are the app's.
pub proof fn lemma_default_leaves_two_fingers_to_apps(n: u32)
    requires
        n <= 2,
    ensures
        touch_plan::plan_at(defaults::default_touch(), BindingContext::OnWindow, n)
            == touch_plan::no_plan(),
{
    reveal(touch_plan::plan_at);
    assert forall|t: GestureTrigger| #[trigger] laws::fingers_of(t) <= 2 implies bindings::bound_in(
        defaults::default_touch(),
        t,
        BindingContext::OnWindow,
    ) is None by {
        bindings::lemma_unlisted_is_unbound(defaults::touch_on_window(), t);
        bindings::lemma_unlisted_is_unbound(defaults::touch_anywhere(), t);
    }
    assert(laws::fingers_of(GestureTrigger::Swipe { fingers: n }) == n);
    assert(laws::fingers_of(GestureTrigger::SwipeUp { fingers: n }) == n);
    assert(laws::fingers_of(GestureTrigger::SwipeDown { fingers: n }) == n);
    assert(laws::fingers_of(GestureTrigger::SwipeLeft { fingers: n }) == n);
    assert(laws::fingers_of(GestureTrigger::SwipeRight { fingers: n }) == n);
    assert(laws::fingers_of(GestureTrigger::DoubletapSwipe { fingers: n }) == n);
    assert(laws::fingers_of(GestureTrigger::HoldSwipe { fingers: n }) == n);
    assert(laws::fingers_of(GestureTrigger::DoubletapHoldSwipe { fingers: n }) == n);
    assert(laws::fingers_of(GestureTrigger::Pinch { fingers: n }) == n);
    assert(laws::fingers_of(GestureTrigger::PinchIn { fingers: n }) == n);
    assert(laws::fingers_of(GestureTrigger::PinchOut { fingers: n }) == n);
    assert(laws::fingers_of(GestureTrigger::Tap { fingers: n }) == n);
    assert(laws::fingers_of(GestureTrigger::Doubletap { fingers: n }) == n);
}

/// The states before and after each of a row of calls, with what each call
/// returned.
pub open spec fn calls(
    states: Seq<TouchRecognizerOf<Seq<(i32, ScreenPos)>, PlanOf<Seq<char>>>>,
    touch: ContextOf<Seq<(GestureTrigger, GestureConfigEntryOf<Seq<char>>)>>,
    events: Seq<TouchEvent>,
    returned: Seq<Seq<DecisionOf<Seq<char>>>>,
) -> bool {
    &&& states.len() == events.len() + 1
    &&& returned.len() == events.len()
    &&& forall|i: int|
        #![trigger returned[i]]
        0 <= i < events.len() ==> (states[i + 1], returned[i]) == event_step(
            states[i],
            touch,
            events[i],
        )
}

/// A row of calls makes the run of their events: it ends in the run's state,
/// and what it returns is, in order, what the run decides.
pub proof fn lemma_calls_make_the_run(
    states: Seq<TouchRecognizerOf<Seq<(i32, ScreenPos)>, PlanOf<Seq<char>>>>,
    touch: ContextOf<Seq<(GestureTrigger, GestureConfigEntryOf<Seq<char>>)>>,
    events: Seq<TouchEvent>,
    returned: Seq<Seq<DecisionOf<Seq<char>>>>,
)
    requires
        calls(states, touch, events, returned),
    ensures
        run(states[0], touch, events) == (states.last(), returned.flatten()),
    decreases events.len(),
{
    returned.lemma_flatten_and_flatten_alt_are_equivalent();
    if events.len() == 0 {
        assert(returned.flatten() =~= Seq::empty());
    } else {
        let n = events.len() - 1;
        let (s, r) = (states.drop_last(), returned.drop_last());
        assert forall|i: int| #![trigger r[i]] 0 <= i < n implies (s[i + 1], r[i]) == event_step(
            s[i],
            touch,
            events.drop_last()[i],
        ) by {
            assert(r[i] == returned[i]);
        }
        lemma_calls_make_the_run(s, touch, events.drop_last(), r);
        assert((states[n + 1], returned[n]) == event_step(states[n], touch, events[n]));
        r.lemma_flatten_and_flatten_alt_are_equivalent();
    }
}

proof fn lemma_blocked_calls(
    states: Seq<TouchRecognizerOf<Seq<(i32, ScreenPos)>, PlanOf<Seq<char>>>>,
    touch: ContextOf<Seq<(GestureTrigger, GestureConfigEntryOf<Seq<char>>)>>,
    events: Seq<TouchEvent>,
    returned: Seq<Seq<DecisionOf<Seq<char>>>>,
    from: int,
    i: int,
)
    requires
        calls(states, touch, events, returned),
        0 <= from <= i < events.len(),
        states[from].state.claims_blocked,
        !states[from].state.ever_active,
    ensures
        no_claims(returned[i]),
        states[i + 1].state.claims_blocked,
        !states[i + 1].state.ever_active,
    decreases i - from,
{
    if from < i {
        lemma_blocked_calls(states, touch, events, returned, from, i - 1);
    }
    assert((states[i + 1], returned[i]) == event_step(states[i], touch, events[i]));
    lemma_blocked_step(states[i], touch, events[i]);
}

/// Two fingers land on a window where one and two are unbound, and one lifts:
/// no call then or later claims the sequence, whatever fingers follow. `states`
/// and `returned` are those of the calls, from a new recognizer on.
pub proof fn lemma_lifted_pair_stays_with_app(
    panel: PanelScale,
    states: Seq<TouchRecognizerOf<Seq<(i32, ScreenPos)>, PlanOf<Seq<char>>>>,
    touch: ContextOf<Seq<(GestureTrigger, GestureConfigEntryOf<Seq<char>>)>>,
    events: Seq<TouchEvent>,
    returned: Seq<Seq<DecisionOf<Seq<char>>>>,
    i: int,
)
    requires
        touch_plan::plan_at(touch, BindingContext::OnWindow, 1) == touch_plan::no_plan(),
        touch_plan::plan_at(touch, BindingContext::OnWindow, 2) == touch_plan::no_plan(),
        states.len() > 0,
        states[0] == touch_recognizer::fresh(panel),
        calls(states, touch, events, returned),
        events.len() >= 3,
        events[0].input.kind matches TouchKind::Down { app_owns_hit: true, .. },
        events[1].input.kind is Down,
        events[2].input.kind is Up,
        events[0].input.slot != events[1].input.slot,
        events[2].input.slot == events[0].input.slot || events[2].input.slot
            == events[1].input.slot,
        0 <= i < events.len(),
    ensures
        no_claims(returned[i]),
        i >= 2 ==> states[i + 1].state.claims_blocked,
{
    let (a, b) = (events[0].input.slot, events[1].input.slot);
    assert((states[1], returned[0]) == event_step(states[0], touch, events[0]));
    assert((states[2], returned[1]) == event_step(states[1], touch, events[1]));
    assert((states[3], returned[2]) == event_step(states[2], touch, events[2]));
    reveal(touch_recognizer::after_down);
    touch_fingers::lemma_pair(states[0].points, a, b);
    assert(states[1].points.len() == 1);
    assert(states[1].plan == touch_plan::no_plan());
    assert(states[2].points.len() == 2);
    assert(states[2].plan == touch_plan::no_plan());
    lemma_early_lift_blocks(states[2], touch, events[2]);
    if i >= 3 {
        lemma_blocked_calls(states, touch, events, returned, 3, i);
    }
}

/// Is nothing bound for any number of fingers in any context?
pub open spec fn nothing_bound(
    touch: ContextOf<Seq<(GestureTrigger, GestureConfigEntryOf<Seq<char>>)>>,
) -> bool {
    forall|cx: BindingContext, n: u32|
        n <= touch_plan::MAX_BOUND_FINGERS ==> #[trigger] touch_plan::plan_at(touch, cx, n)
            == touch_plan::no_plan()
}

proof fn lemma_unbound_step(
    m: TouchRecognizerOf<Seq<(i32, ScreenPos)>, PlanOf<Seq<char>>>,
    touch: ContextOf<Seq<(GestureTrigger, GestureConfigEntryOf<Seq<char>>)>>,
    e: TouchEvent,
)
    requires
        nothing_bound(touch),
        m.plan == touch_plan::no_plan(),
    ensures
        event_step(m, touch, e).0.plan == touch_plan::no_plan(),
        no_claims(event_step(m, touch, e).1),
{
    reveal(touch_recognizer::after_down);
}

/// With every tier unbound, nothing is ever claimed: every event reaches the
/// app.
pub proof fn lemma_unbound_never_claims(
    m: TouchRecognizerOf<Seq<(i32, ScreenPos)>, PlanOf<Seq<char>>>,
    touch: ContextOf<Seq<(GestureTrigger, GestureConfigEntryOf<Seq<char>>)>>,
    events: Seq<TouchEvent>,
)
    requires
        nothing_bound(touch),
        m.plan == touch_plan::no_plan(),
    ensures
        run(m, touch, events).0.plan == touch_plan::no_plan(),
        no_claims(run(m, touch, events).1),
    decreases events.len(),
{
    if events.len() > 0 {
        lemma_unbound_never_claims(m, touch, events.drop_last());
        let (before, decided) = run(m, touch, events.drop_last());
        lemma_unbound_step(before, touch, events.last());
        lemma_no_claims_join(decided, event_step(before, touch, events.last()).1);
    }
}

/// Does a reading stay below every gate of a panel?
pub open spec fn still(panel: PanelScale, r: Reading) -> bool {
    &&& numbers::less(r.moved, panel.dead_zone)
    &&& numbers::less(r.spread_delta, panel.pinch_delta)
    &&& numbers::less(r.start_delta, panel.pinch_delta)
    &&& numbers::less(r.swipe_progress, Real { bits: touch_recognizer::ONE })
}

/// Does a decision move the view or fire?
pub open spec fn moves(d: DecisionOf<Seq<char>>) -> bool {
    d is Pan || d is Zoom || d is FireThreshold || d is StartWindowGrab
}

/// Does no decision of a list move the view or fire?
pub open spec fn moves_never(ds: Seq<DecisionOf<Seq<char>>>) -> bool {
    forall|i: int| 0 <= i < ds.len() ==> !moves(#[trigger] ds[i])
}

proof fn lemma_still_down(
    m: TouchRecognizerOf<Seq<(i32, ScreenPos)>, PlanOf<Seq<char>>>,
    touch: ContextOf<Seq<(GestureTrigger, GestureConfigEntryOf<Seq<char>>)>>,
    slot: i32,
    location: ScreenPos,
    app_owns_hit: bool,
    time: u32,
    last_tap: Option<u32>,
    r: Reading,
)
    requires
        !m.state.active,
        m.state.pinch_streak == 0,
    ensures
        ({
            let after = touch_recognizer::down_step(
                m,
                touch,
                slot,
                location,
                app_owns_hit,
                time,
                last_tap,
                r,
            ).0.state;
            !after.active && after.pinch_streak == 0 && after.panel == m.state.panel
        }),
{
    reveal(touch_recognizer::after_down);
}

proof fn lemma_still_navigate(
    m: TouchRecognizerOf<Seq<(i32, ScreenPos)>, PlanOf<Seq<char>>>,
    r: Reading,
)
    requires
        !m.state.active,
        m.state.pinch_streak == 0,
        still(m.state.panel, r),
    ensures
        ({
            let (after, out) = touch_recognizer::navigate_step(m, r);
            !after.state.active && after.state.pinch_streak == 0 && after.state.panel
                == m.state.panel && moves_never(out)
        }),
{
    assert(moves_never(seq![DecisionOf::<Seq<char>>::Consume]));
}

proof fn lemma_still_seek(
    m: TouchRecognizerOf<Seq<(i32, ScreenPos)>, PlanOf<Seq<char>>>,
    time: u32,
    r: Reading,
)
    requires
        !m.state.active,
        m.state.pinch_streak == 0,
        still(m.state.panel, r),
    ensures
        ({
            let (after, out) = touch_recognizer::seek_step(m, time, r);
            after == m && moves_never(out)
        }),
{
    assert(moves_never(seq![DecisionOf::<Seq<char>>::Consume]));
}

proof fn lemma_still_step(
    m: TouchRecognizerOf<Seq<(i32, ScreenPos)>, PlanOf<Seq<char>>>,
    touch: ContextOf<Seq<(GestureTrigger, GestureConfigEntryOf<Seq<char>>)>>,
    e: TouchEvent,
)
    requires
        !m.state.active,
        m.state.pinch_streak == 0,
        still(m.state.panel, e.reading),
    ensures
        !event_step(m, touch, e).0.state.active,
        event_step(m, touch, e).0.state.pinch_streak == 0,
        event_step(m, touch, e).0.state.panel == m.state.panel,
        forall|i: int|
            0 <= i < event_step(m, touch, e).1.len() ==> !moves(
                #[trigger] event_step(m, touch, e).1[i],
            ),
{
    lemma_decisions_fit_their_event(m, touch, e);
    match e.input.kind {
        TouchKind::Down { location, app_owns_hit } => {
            lemma_still_down(
                m,
                touch,
                e.input.slot,
                location,
                app_owns_hit,
                e.input.time_ms,
                e.last_tap,
                e.reading,
            );
        },
        TouchKind::Motion { location } => {
            let d = TouchRecognizerOf {
                points: touch_fingers::placed(m.points, e.input.slot, location),
                ..m
            };
            lemma_still_navigate(d, e.reading);
            lemma_still_seek(d, e.input.time_ms, e.reading);
        },
        TouchKind::Up => {},
    }
}

/// Below the gates nothing happens: as long as the fingers stay within the dead
/// zone, keep their spread and complete no swipe, the view does not move, no
/// threshold fires and no window is grabbed.
pub proof fn lemma_dead_zone_is_inert(
    m: TouchRecognizerOf<Seq<(i32, ScreenPos)>, PlanOf<Seq<char>>>,
    touch: ContextOf<Seq<(GestureTrigger, GestureConfigEntryOf<Seq<char>>)>>,
    events: Seq<TouchEvent>,
)
    requires
        !m.state.active,
        m.state.pinch_streak == 0,
        forall|i: int| 0 <= i < events.len() ==> still(m.state.panel, (#[trigger] events[i]).reading),
    ensures
        !run(m, touch, events).0.state.active,
        run(m, touch, events).0.state.pinch_streak == 0,
        run(m, touch, events).0.state.panel == m.state.panel,
        forall|i: int|
            0 <= i < run(m, touch, events).1.len() ==> !moves(
                #[trigger] run(m, touch, events).1[i],
            ),
    decreases events.len(),
{
    if events.len() > 0 {
        let front = events.drop_last();
        assert forall|i: int| 0 <= i < front.len() implies still(
            m.state.panel,
            (#[trigger] front[i]).reading,
        ) by {
            assert(front[i] == events[i]);
        }
        lemma_dead_zone_is_inert(m, touch, front);
        let (before, decided) = run(m, touch, front);
        assert(still(m.state.panel, events[events.len() - 1].reading));
        lemma_still_step(before, touch, events.last());
        let more = event_step(before, touch, events.last()).1;
        let all = decided + more;
        assert forall|i: int| 0 <= i < all.len() implies !moves(#[trigger] all[i]) by {
            if i < decided.len() {
                assert(all[i] == decided[i]);
            } else {
                assert(all[i] == more[i - decided.len()]);
            }
        }
    }
}

proof fn lemma_cancel_down(
    m: TouchRecognizerOf<Seq<(i32, ScreenPos)>, PlanOf<Seq<char>>>,
    touch: ContextOf<Seq<(GestureTrigger, GestureConfigEntryOf<Seq<char>>)>>,
    slot: i32,
    location: ScreenPos,
    app_owns_hit: bool,
    time: u32,
    last_tap: Option<u32>,
    r: Reading,
)
    ensures
        ({
            let (after, out) = touch_recognizer::down_step(
                m,
                touch,
                slot,
                location,
                app_owns_hit,
                time,
                last_tap,
                r,
            );
            &&& m.state.system_cancelled ==> after.state.system_cancelled
            &&& after.state.ever_active == m.state.ever_active
            &&& forall|i: int|
                0 <= i < out.len() && (#[trigger] out[i]) is CancelAppSequence
                    ==> !m.state.system_cancelled && i == 1 && after.state.system_cancelled
        }),
{
    reveal(touch_recognizer::after_down);
}

proof fn lemma_latches_motion(
    m: TouchRecognizerOf<Seq<(i32, ScreenPos)>, PlanOf<Seq<char>>>,
    time: u32,
    r: Reading,
)
    ensures
        touch_recognizer::navigate_step(m, r).0.state.system_cancelled == m.state.system_cancelled,
        touch_recognizer::seek_step(m, time, r).0.state.system_cancelled
            == m.state.system_cancelled,
        touch_recognizer::run_step(m, r).0.state.system_cancelled == m.state.system_cancelled,
        m.state.ever_active ==> touch_recognizer::navigate_step(m, r).0.state.ever_active,
        m.state.ever_active ==> touch_recognizer::seek_step(m, time, r).0.state.ever_active,
        m.state.ever_active ==> touch_recognizer::run_step(m, r).0.state.ever_active,
{
}

proof fn lemma_tap_up(
    m: TouchRecognizerOf<Seq<(i32, ScreenPos)>, PlanOf<Seq<char>>>,
    slot: i32,
    time: u32,
    holdback: bool,
    last_tap: Option<u32>,
    r: Reading,
)
    ensures
        ({
            let (after, out) = touch_recognizer::up_step(m, slot, time, holdback, last_tap, r);
            &&& after.state.system_cancelled == m.state.system_cancelled
            &&& after.state.ever_active == m.state.ever_active
            &&& forall|i: int|
                0 <= i < out.len() && (#[trigger] out[i]) is Tap ==> !m.state.ever_active
        }),
{
}

proof fn lemma_cancel_step(
    m: TouchRecognizerOf<Seq<(i32, ScreenPos)>, PlanOf<Seq<char>>>,
    touch: ContextOf<Seq<(GestureTrigger, GestureConfigEntryOf<Seq<char>>)>>,
    e: TouchEvent,
)
    ensures
        m.state.system_cancelled ==> event_step(m, touch, e).0.state.system_cancelled,
        m.state.ever_active ==> event_step(m, touch, e).0.state.ever_active,
        forall|i: int|
            0 <= i < event_step(m, touch, e).1.len() && (#[trigger] event_step(
                m,
                touch,
                e,
            ).1[i]) is CancelAppSequence ==> !m.state.system_cancelled && i == 1 && event_step(
                m,
                touch,
                e,
            ).0.state.system_cancelled,
        forall|i: int|
            0 <= i < event_step(m, touch, e).1.len() && (#[trigger] event_step(
                m,
                touch,
                e,
            ).1[i]) is Tap ==> !m.state.ever_active,
{
    lemma_decisions_fit_their_event(m, touch, e);
    match e.input.kind {
        TouchKind::Down { location, app_owns_hit } => {
            lemma_cancel_down(
                m,
                touch,
                e.input.slot,
                location,
                app_owns_hit,
                e.input.time_ms,
                e.last_tap,
                e.reading,
            );
        },
        TouchKind::Motion { location } => {
            let d = TouchRecognizerOf {
                points: touch_fingers::placed(m.points, e.input.slot, location),
                ..m
            };
            lemma_latches_motion(d, e.input.time_ms, e.reading);
        },
        TouchKind::Up => {
            lemma_tap_up(
                m,
                e.input.slot,
                e.input.time_ms,
                e.holdback,
                e.last_tap,
                e.reading,
            );
        },
    }
}

/// A sequence is taken from its app at most once, and not at all once it was.
pub proof fn lemma_app_is_cancelled_once(
    m: TouchRecognizerOf<Seq<(i32, ScreenPos)>, PlanOf<Seq<char>>>,
    touch: ContextOf<Seq<(GestureTrigger, GestureConfigEntryOf<Seq<char>>)>>,
    events: Seq<TouchEvent>,
)
    ensures
        m.state.system_cancelled ==> run(m, touch, events).0.state.system_cancelled,
        forall|i: int|
            0 <= i < run(m, touch, events).1.len() && (#[trigger] run(
                m,
                touch,
                events,
            ).1[i]) is CancelAppSequence ==> !m.state.system_cancelled && run(
                m,
                touch,
                events,
            ).0.state.system_cancelled,
        forall|i: int, j: int|
            0 <= i < j < run(m, touch, events).1.len() ==> !((#[trigger] run(
                m,
                touch,
                events,
            ).1[i]) is CancelAppSequence && (#[trigger] run(
                m,
                touch,
                events,
            ).1[j]) is CancelAppSequence),
    decreases events.len(),
{
    if events.len() > 0 {
        lemma_app_is_cancelled_once(m, touch, events.drop_last());
        let (before, decided) = run(m, touch, events.drop_last());
        lemma_cancel_step(before, touch, events.last());
        let more = event_step(before, touch, events.last()).1;
        let all = decided + more;
        assert forall|i: int| 0 <= i < all.len() && (
        #[trigger] all[i]) is CancelAppSequence implies !m.state.system_cancelled && run(
            m,
            touch,
            events,
        ).0.state.system_cancelled by {
            if i < decided.len() {
                assert(all[i] == decided[i]);
            } else {
                assert(all[i] == more[i - decided.len()]);
            }
        }
        assert forall|i: int, j: int| 0 <= i < j < all.len() implies !((
        #[trigger] all[i]) is CancelAppSequence && (#[trigger] all[j]) is CancelAppSequence) by {
            if j < decided.len() {
                assert(all[i] == decided[i] && all[j] == decided[j]);
            } else if i >= decided.len() {
                assert(all[i] == more[i - decided.len()] && all[j] == more[j - decided.len()]);
            } else {
                assert(all[i] == decided[i] && all[j] == more[j - decided.len()]);
            }
        }
    }
}

/// A sequence that ever left the dead zone is no tap.
pub proof fn lemma_drag_never_taps(
    m: TouchRecognizerOf<Seq<(i32, ScreenPos)>, PlanOf<Seq<char>>>,
    touch: ContextOf<Seq<(GestureTrigger, GestureConfigEntryOf<Seq<char>>)>>,
    events: Seq<TouchEvent>,
)
    requires
        m.state.ever_active,
    ensures
        run(m, touch, events).0.state.ever_active,
        forall|i: int|
            0 <= i < run(m, touch, events).1.len() ==> !((#[trigger] run(
                m,
                touch,
                events,
            ).1[i]) is Tap),
    decreases events.len(),
{
    if events.len() > 0 {
        lemma_drag_never_taps(m, touch, events.drop_last());
        let (before, decided) = run(m, touch, events.drop_last());
        lemma_cancel_step(before, touch, events.last());
        let more = event_step(before, touch, events.last()).1;
        let all = decided + more;
        assert forall|i: int| 0 <= i < all.len() implies !((#[trigger] all[i]) is Tap) by {
            if i < decided.len() {
                assert(all[i] == decided[i]);
            } else {
                assert(all[i] == more[i - decided.len()]);
            }
        }
    }
}

/// Zoom engages only with every finger of the gesture down, and a pinch is a
/// zoom, never a window grab.
pub proof fn lemma_zoom_needs_every_finger(
    m: TouchRecognizerOf<Seq<(i32, ScreenPos)>, PlanOf<Seq<char>>>,
    touch: ContextOf<Seq<(GestureTrigger, GestureConfigEntryOf<Seq<char>>)>>,
    e: TouchEvent,
)
    ensures
        !m.state.zoom_engaged && event_step(m, touch, e).0.state.zoom_engaged
            ==> touch_recognizer::all_down(event_step(m, touch, e).0) && m.plan.pinch is Some,
        forall|i: int|
            0 <= i < event_step(m, touch, e).1.len() && (#[trigger] event_step(
                m,
                touch,
                e,
            ).1[i]) is StartWindowGrab ==> !event_step(m, touch, e).0.state.zoom_engaged,
        forall|i: int|
            0 <= i < event_step(m, touch, e).1.len() && (#[trigger] event_step(
                m,
                touch,
                e,
            ).1[i]) is Zoom ==> m.state.zoom_engaged,
{
    reveal(touch_recognizer::after_down);
}

/// A tap and a dwell take the binding for both; without one they take the
/// binding for the tap, and a dwell alone never takes one of the tap's. After a
/// tap, the binding for a dwell alone is never taken: without one of the tap's
/// own, only a swipe that is bound to a window grab is.
pub proof fn lemma_grab_order(p: PlanOf<Seq<char>>, armed: bool, held: bool)
    ensures
        armed && held && p.doubletap_hold_swipe is Some ==> touch_recognizer::grab_for(
            p,
            armed,
            held,
        ) == p.doubletap_hold_swipe,
        armed && p.doubletap_swipe is Some && (!held || p.doubletap_hold_swipe is None)
            ==> touch_recognizer::grab_for(p, armed, held) == p.doubletap_swipe,
        !armed && held && p.hold_swipe is Some ==> touch_recognizer::grab_for(p, armed, held)
            == p.hold_swipe,
        armed && p.doubletap_swipe is None && !(held && p.doubletap_hold_swipe is Some)
            ==> touch_recognizer::grab_for(p, armed, held) == touch_recognizer::grab_for(
            p,
            false,
            false,
        ),
        !armed && !held ==> (touch_recognizer::grab_for(p, armed, held) matches Some(a)
            ==> p.swipe == Some(GestureConfigEntryOf::<Seq<char>>::Continuous(a))),
        touch_recognizer::pans(p) && !armed && !held ==> touch_recognizer::grab_for(
            p,
            armed,
            held,
        ) is None,
{
}

} // verus!
