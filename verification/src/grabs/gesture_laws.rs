//! What each touch gesture does: which binding a swipe, a pinch, a tap or a
//! drag takes, and when pan and zoom follow the fingers.
use vstd::prelude::*;

use crate::config::bindings;
use crate::config::bindings::{BindingContext, ContextOf};
use crate::config::default_laws;
use crate::config::defaults;
use crate::config::laws;
use crate::config::numbers;
use crate::config::numbers::Real;
use crate::config::types;
use crate::config::types::{
    ActionOf, ContinuousAction, Direction, GestureConfigEntryOf, GestureTrigger, ThresholdActionOf,
};
use crate::grabs::touch_fingers;
use crate::grabs::touch_fingers::ScreenPos;
use crate::grabs::touch_laws;
use crate::grabs::touch_laws::TouchEvent;
use crate::grabs::touch_plan;
use crate::grabs::touch_plan::PlanOf;
use crate::grabs::touch_recognizer;
use crate::grabs::touch_recognizer::{DecisionOf, Reading, TapOutcomeOf, TouchKind, TouchRecognizerOf};

verus! {

/// A touch sequence.
pub type Sequence = TouchRecognizerOf<Seq<(i32, ScreenPos)>, PlanOf<Seq<char>>>;

/// The touch bindings of a configuration.
pub type TouchBindings = ContextOf<Seq<(GestureTrigger, GestureConfigEntryOf<Seq<char>>)>>;

/// Is `action` what a bound one-shot stands for, given where the fingers went?
pub open spec fn stands_for(
    bound: ThresholdActionOf<Seq<char>>,
    toward: Direction,
    action: ActionOf<Seq<char>>,
) -> bool {
    match bound {
        ThresholdActionOf::CenterNearest => action == ActionOf::<Seq<char>>::CenterNearest(toward),
        ThresholdActionOf::Fixed(a) => action == a,
    }
}

/// Is `out` what an event decides that fires a binding, or nothing where there
/// is none?
pub open spec fn fires(
    out: Seq<DecisionOf<Seq<char>>>,
    bound: Option<ThresholdActionOf<Seq<char>>>,
    toward: Direction,
) -> bool {
    match bound {
        Some(b) => out.len() == 2 && out[0] is Consume && (out[1] matches DecisionOf::FireThreshold(
            a,
        ) && stands_for(b, toward, a)),
        None => out == seq![DecisionOf::<Seq<char>>::Consume],
    }
}

/// Does a plan make a gesture follow the fingers, as opposed to firing once?
pub open spec fn follows_fingers(p: PlanOf<Seq<char>>) -> bool {
    let one_shot_swipe = (p.swipe matches Some(GestureConfigEntryOf::Threshold(_)))
        || p.swipe_up is Some || p.swipe_down is Some || p.swipe_left is Some || p.swipe_right
        is Some;
    ||| p.swipe matches Some(GestureConfigEntryOf::Continuous(_))
    ||| p.doubletap_swipe is Some
    ||| p.hold_swipe is Some
    ||| p.doubletap_hold_swipe is Some
    ||| (p.pinch is Some && !one_shot_swipe)
}

/// Does a plan bind something that fires once?
pub open spec fn binds_one_shot(p: PlanOf<Seq<char>>) -> bool {
    ||| p.swipe matches Some(GestureConfigEntryOf::Threshold(_))
    ||| p.swipe_up is Some
    ||| p.swipe_down is Some
    ||| p.swipe_left is Some
    ||| p.swipe_right is Some
    ||| p.pinch_in is Some
    ||| p.pinch_out is Some
}

/// Is an event the motion of a finger of a gesture that has claimed the
/// sequence?
pub open spec fn moves_gesture(m: Sequence, e: TouchEvent) -> bool {
    &&& e.input.kind is Motion
    &&& touch_fingers::position(m.points, e.input.slot) is Some
    &&& !e.holdback
    &&& !m.state.claims_blocked
}

/// Is an event a motion that can still complete a one-shot gesture?
pub open spec fn moves_one_shot(m: Sequence, e: TouchEvent) -> bool {
    &&& moves_gesture(m, e)
    &&& !follows_fingers(m.plan)
    &&& binds_one_shot(m.plan)
    &&& !m.state.nav_fired_swipe
    &&& !m.state.nav_fired_pinch
}

/// Has the pinch of a one-shot gesture been there, with every finger, for this
/// frame and the one before?
pub open spec fn pinch_confirmed(m: Sequence, touch: TouchBindings, e: TouchEvent) -> bool {
    &&& touch_laws::event_step(m, touch, e).0.points.len() >= m.state.max_fingers
    &&& numbers::at_least(e.reading.start_delta, m.state.panel.pinch_delta)
    &&& m.state.pinch_streak >= 1
}

/// Is the pinch complete, and at least as far along as the swipe?
pub open spec fn pinch_complete(m: Sequence, touch: TouchBindings, e: TouchEvent) -> bool {
    &&& pinch_confirmed(m, touch, e)
    &&& numbers::at_least(e.reading.pinch_progress, Real { bits: 0x3ff0_0000_0000_0000 })
    &&& numbers::at_least(e.reading.pinch_progress, e.reading.swipe_progress)
}

/// Is the swipe complete, with no pinch in its way?
pub open spec fn swipe_complete(m: Sequence, touch: TouchBindings, e: TouchEvent) -> bool {
    &&& !pinch_complete(m, touch, e)
    &&& numbers::at_least(e.reading.swipe_progress, Real { bits: 0x3ff0_0000_0000_0000 })
    &&& pinch_confirmed(m, touch, e) ==> numbers::less(
        e.reading.pinch_progress,
        Real { bits: 0x3fd9_9999_9999_999a },
    )
}

/// The plan with nothing bound follows nothing and fires nothing.
proof fn lemma_nothing_bound(p: PlanOf<Seq<char>>)
    ensures
        follows_fingers(p) == touch_plan::simultaneous(p),
        binds_one_shot(p) == (touch_plan::translation_threshold(p) || touch_plan::scale_threshold(
            p,
        )),
        p == touch_plan::no_plan() ==> !follows_fingers(p) && !binds_one_shot(p),
{
}

// ── One-shot gestures ────────────────────────────────────────────────

/// A completed pinch fires what closing is bound to where the fingers closed,
/// and what opening is bound to where they opened.
pub proof fn lemma_pinch_fires_its_own_binding(m: Sequence, touch: TouchBindings, e: TouchEvent)
    requires
        moves_one_shot(m, e),
        pinch_complete(m, touch, e),
    ensures
        ({
            let closed = numbers::less(
                e.reading.pinch_scale,
                Real { bits: 0x3ff0_0000_0000_0000 },
            );
            fires(
                touch_laws::event_step(m, touch, e).1,
                if closed {
                    m.plan.pinch_in
                } else {
                    m.plan.pinch_out
                },
                e.reading.direction,
            )
        }),
        touch_laws::event_step(m, touch, e).1.len() == 2 ==> touch_laws::event_step(
            m,
            touch,
            e,
        ).0.state.nav_fired_pinch,
{
    lemma_nothing_bound(m.plan);
}

/// A completed swipe fires the binding of its own direction, and the one for
/// any direction where its own has none.
pub proof fn lemma_swipe_fires_its_own_direction(m: Sequence, touch: TouchBindings, e: TouchEvent)
    requires
        moves_one_shot(m, e),
        swipe_complete(m, touch, e),
    ensures
        ({
            let any = match m.plan.swipe {
                Some(GestureConfigEntryOf::Threshold(a)) => Some(a),
                _ => None,
            };
            let own = match e.reading.direction {
                Direction::Up => m.plan.swipe_up,
                Direction::Down => m.plan.swipe_down,
                Direction::Left => m.plan.swipe_left,
                Direction::Right => m.plan.swipe_right,
                _ => None,
            };
            fires(
                touch_laws::event_step(m, touch, e).1,
                if own is Some {
                    own
                } else {
                    any
                },
                e.reading.direction,
            )
        }),
        touch_laws::event_step(m, touch, e).1.len() == 2 ==> touch_laws::event_step(
            m,
            touch,
            e,
        ).0.state.nav_fired_swipe,
{
    lemma_nothing_bound(m.plan);
}

/// A one-shot fires only by a completed pinch or a completed swipe, and a motion
/// that completes neither is consumed.
pub proof fn lemma_only_completed_gestures_fire(m: Sequence, touch: TouchBindings, e: TouchEvent)
    ensures
        forall|i: int|
            0 <= i < touch_laws::event_step(m, touch, e).1.len() && (
            #[trigger] touch_laws::event_step(m, touch, e).1[i]) is FireThreshold
                ==> moves_one_shot(m, e) && (pinch_complete(m, touch, e) || swipe_complete(
                m,
                touch,
                e,
            )),
        moves_one_shot(m, e) && !pinch_complete(m, touch, e) && !swipe_complete(m, touch, e)
            ==> touch_laws::event_step(m, touch, e).1 == seq![DecisionOf::<Seq<char>>::Consume],
        moves_one_shot(m, e) && pinch_confirmed(m, touch, e) ==> touch_laws::event_step(
            m,
            touch,
            e,
        ).0.state.pinch_streak >= 2,
{
    lemma_nothing_bound(m.plan);
    touch_laws::lemma_decisions_fit_their_event(m, touch, e);
}

// ── Pan and zoom ─────────────────────────────────────────────────────

/// Is an event the motion of a gesture that follows the fingers?
pub open spec fn moves_followed(m: Sequence, e: TouchEvent) -> bool {
    moves_gesture(m, e) && follows_fingers(m.plan)
}

/// Does the motion of a live gesture zoom?
pub open spec fn zooms(m: Sequence, touch: TouchBindings, e: TouchEvent) -> bool {
    &&& m.plan.pinch is Some
    &&& touch_laws::event_step(m, touch, e).0.points.len() >= 2
    &&& m.state.zoom_engaged
    &&& !numbers::at_least(Real { bits: 0x3ff0_0000_0000_0000 }, m.state.last_spread)
    &&& numbers::less(Real { bits: 0x3f94_7ae1_47ae_147b }, e.reading.spread_ratio)
}

/// Past the dead zone the viewport pans by what the fingers' middle moved, where
/// a swipe is bound to panning, and zooms round it by what their spread changed,
/// once zoom is engaged; neither keeps the other from happening, and nothing
/// else happens.
pub proof fn lemma_live_motion_pans_and_zooms(m: Sequence, touch: TouchBindings, e: TouchEvent)
    requires
        moves_followed(m, e),
        m.state.active,
    ensures
        ({
            let pans = m.plan.swipe == Some(
                GestureConfigEntryOf::<Seq<char>>::Continuous(ContinuousAction::PanViewport),
            );
            let nothing = Seq::<DecisionOf<Seq<char>>>::empty();
            touch_laws::event_step(m, touch, e).1 == seq![DecisionOf::<Seq<char>>::Consume] + (
            if pans {
                seq![DecisionOf::<Seq<char>>::Pan(e.reading.centroid_delta)]
            } else {
                nothing
            }) + (if zooms(m, touch, e) {
                seq![
                    DecisionOf::<Seq<char>>::Zoom {
                        scale: e.reading.spread_scale,
                        anchor: e.reading.centroid,
                    },
                ]
            } else {
                nothing
            })
        }),
        zooms(m, touch, e) ==> touch_laws::event_step(m, touch, e).0.state.last_spread
            == e.reading.spread,
{
    lemma_nothing_bound(m.plan);
}

/// Pan and zoom happen in no other way.
pub proof fn lemma_only_live_motion_pans_and_zooms(
    m: Sequence,
    touch: TouchBindings,
    e: TouchEvent,
)
    ensures
        forall|i: int|
            0 <= i < touch_laws::event_step(m, touch, e).1.len() && ((
            #[trigger] touch_laws::event_step(m, touch, e).1[i]) is Pan || touch_laws::event_step(
                m,
                touch,
                e,
            ).1[i] is Zoom) ==> moves_followed(m, e) && m.state.active,
{
    lemma_nothing_bound(m.plan);
    touch_laws::lemma_decisions_fit_their_event(m, touch, e);
}

/// Has the spread changed enough, for the fingers that are down, to be a pinch?
pub open spec fn spread_is_pinch(m: Sequence, r: Reading) -> bool {
    &&& numbers::less(m.state.panel.min_spread, m.state.last_spread)
    &&& numbers::at_least(
        r.spread_ratio,
        if m.state.max_fingers >= 3 {
            Real { bits: 0x3fc9_9999_9999_999a }
        } else {
            Real { bits: 0x3fb4_7ae1_47ae_147b }
        },
    )
    &&& numbers::at_least(r.spread_delta, m.state.panel.pinch_delta)
}

/// A gesture that follows the fingers leaves the dead zone by travel, or by a
/// pinch where zoom is bound; until it does, nothing changes but where its
/// finger is. Zoom is engaged at once if and only if a pinch with every finger
/// broke it.
pub proof fn lemma_leaving_the_dead_zone(m: Sequence, touch: TouchBindings, e: TouchEvent)
    requires
        moves_followed(m, e),
        !m.state.active,
    ensures
        ({
            let (after, out) = touch_laws::event_step(m, touch, e);
            let pinch = m.plan.pinch is Some && after.points.len() >= 2 && spread_is_pinch(
                m,
                e.reading,
            );
            let leaves = !numbers::less(e.reading.moved, m.state.panel.dead_zone) || pinch;
            &&& after.state.active == leaves
            &&& after.state.ever_active == (m.state.ever_active || leaves)
            &&& !leaves ==> after.state == m.state && out == seq![
                DecisionOf::<Seq<char>>::Consume,
            ]
            &&& leaves ==> after.state.zoom_engaged == (pinch && after.points.len()
                >= m.state.max_fingers)
            &&& leaves ==> after.state.last_centroid == e.reading.centroid
                && after.state.last_spread == e.reading.spread
        }),
{
    lemma_nothing_bound(m.plan);
}

/// Zoom engages on a live gesture if and only if the spread has been that of a
/// pinch with every finger for this frame and the one before; a frame without
/// it starts the count anew. The change so far is not zoomed.
pub proof fn lemma_zoom_engages_after_two_frames(m: Sequence, touch: TouchBindings, e: TouchEvent)
    requires
        moves_followed(m, e),
        m.state.active,
        m.plan.pinch is Some,
        touch_laws::event_step(m, touch, e).0.points.len() >= 2,
        !m.state.zoom_engaged,
    ensures
        ({
            let after = touch_laws::event_step(m, touch, e).0;
            let pinch = after.points.len() >= m.state.max_fingers && spread_is_pinch(m, e.reading);
            &&& after.state.zoom_engaged == (pinch && m.state.pinch_streak >= 1)
            &&& !pinch ==> after.state.pinch_streak == 0
            &&& pinch ==> after.state.pinch_streak >= 1
            &&& after.state.zoom_engaged ==> after.state.last_spread == e.reading.spread
        }),
{
    lemma_nothing_bound(m.plan);
}

// ── Window grabs ─────────────────────────────────────────────────────

/// The grab that a drag starts: a drag after a tap takes the binding for that,
/// the one for a dwell too if it lasted 350 ms; a drag without a tap that
/// lasted that long takes the binding for a dwell; and otherwise a swipe that is
/// bound to a window grab is one.
pub open spec fn grab_of(p: PlanOf<Seq<char>>, tapped: bool, dwelt: bool) -> Option<
    ContinuousAction,
> {
    let plain = match p.swipe {
        Some(GestureConfigEntryOf::Continuous(ContinuousAction::MoveWindow)) => Some(
            ContinuousAction::MoveWindow,
        ),
        Some(GestureConfigEntryOf::Continuous(ContinuousAction::MoveSnappedWindows)) => Some(
            ContinuousAction::MoveSnappedWindows,
        ),
        Some(GestureConfigEntryOf::Continuous(ContinuousAction::ResizeWindow)) => Some(
            ContinuousAction::ResizeWindow,
        ),
        Some(GestureConfigEntryOf::Continuous(ContinuousAction::ResizeWindowSnapped)) => Some(
            ContinuousAction::ResizeWindowSnapped,
        ),
        _ => None,
    };
    match (tapped, dwelt) {
        (true, true) => if p.doubletap_hold_swipe is Some {
            p.doubletap_hold_swipe
        } else if p.doubletap_swipe is Some {
            p.doubletap_swipe
        } else {
            plain
        },
        (true, false) => if p.doubletap_swipe is Some {
            p.doubletap_swipe
        } else {
            plain
        },
        (false, true) => if p.hold_swipe is Some {
            p.hold_swipe
        } else {
            plain
        },
        (false, false) => plain,
    }
}

/// A drag becomes a window grab as it leaves the dead zone without a pinch, and
/// only then; it is the grab that the tap before it and its dwell ask for.
pub proof fn lemma_drag_becomes_its_grab(m: Sequence, touch: TouchBindings, e: TouchEvent)
    ensures
        ({
            let (after, out) = touch_laws::event_step(m, touch, e);
            let dwelt = e.input.time_ms >= m.state.tap_start_time + 350;
            let leaves = moves_followed(m, e) && !m.state.active && after.state.active;
            let grab = grab_of(m.plan, m.state.armed_for_move, dwelt);
            &&& leaves && !after.state.zoom_engaged && grab is Some ==> out == seq![
                DecisionOf::<Seq<char>>::Consume,
                DecisionOf::<Seq<char>>::StartWindowGrab { action: grab->0 },
            ]
            &&& leaves && (after.state.zoom_engaged || grab is None) ==> out == seq![
                DecisionOf::<Seq<char>>::Consume,
            ]
            &&& forall|i: int|
                0 <= i < out.len() && (#[trigger] out[i]) is StartWindowGrab ==> leaves
        }),
{
    lemma_nothing_bound(m.plan);
    touch_laws::lemma_decisions_fit_their_event(m, touch, e);
}

// ── Lifts ────────────────────────────────────────────────────────────

/// Was there a tap less than 300 ms before a time?
pub open spec fn tapped_before(last_tap: Option<u32>, now: u32) -> bool {
    last_tap matches Some(t) && now < t + 300
}

/// Is a lift of the last finger a tap?
pub open spec fn is_clean_tap(m: Sequence, e: TouchEvent) -> bool {
    &&& !e.holdback
    &&& !m.state.claims_blocked
    &&& !m.state.ever_active
    &&& m.plan.tap is Some || m.plan.doubletap is Some
    &&& e.input.time_ms <= m.state.tap_start_time + 250
}

/// The lift of the last finger of a sequence coasts after a pan without zoom,
/// taps if it was short and never left the dead zone, and ends the grab; a tap
/// shortly after another is a double tap, and takes what that is bound to.
pub proof fn lemma_last_lift(m: Sequence, touch: TouchBindings, e: TouchEvent)
    requires
        e.input.kind is Up,
        touch_fingers::position(m.points, e.input.slot) is Some,
        touch_laws::event_step(m, touch, e).0.points.len() == 0,
    ensures
        ({
            let out = touch_laws::event_step(m, touch, e).1;
            let coasts = !e.holdback && m.state.ever_active && !m.state.zoom_engaged && m.plan.swipe
                == Some(
                GestureConfigEntryOf::<Seq<char>>::Continuous(ContinuousAction::PanViewport),
            );
            let head = if e.holdback {
                seq![DecisionOf::<Seq<char>>::Hold, DecisionOf::<Seq<char>>::Flush]
            } else {
                seq![DecisionOf::<Seq<char>>::Forward]
            };
            let end = seq![DecisionOf::<Seq<char>>::UnsetGrab];
            &&& coasts && !is_clean_tap(m, e) ==> out == head + seq![
                DecisionOf::<Seq<char>>::Momentum,
            ] + end
            &&& !coasts && !is_clean_tap(m, e) ==> out == head + end
            &&& is_clean_tap(m, e) ==> {
                &&& out.len() == 3
                &&& out[0] is Forward
                &&& out[2] is UnsetGrab
                &&& out[1] matches DecisionOf::Tap { focus_at, set_last_tap, outcome } && {
                    &&& focus_at == m.state.start_centroid
                    &&& if tapped_before(e.last_tap, e.input.time_ms) {
                        &&& set_last_tap is None
                        &&& match m.plan.doubletap {
                            Some(b) => outcome matches TapOutcomeOf::Fire(a) && stands_for(
                                b,
                                e.reading.direction,
                                a,
                            ),
                            None => outcome is Nothing,
                        }
                    } else {
                        &&& set_last_tap == Some(e.input.time_ms)
                        &&& match m.plan.tap {
                            Some(ThresholdActionOf::Fixed(ActionOf::CenterWindow)) => outcome
                                == TapOutcomeOf::<Seq<char>>::DeferCenter { delay_ms: 300 },
                            Some(b) => outcome matches TapOutcomeOf::Fire(a) && stands_for(
                                b,
                                e.reading.direction,
                                a,
                            ),
                            None => outcome is Nothing,
                        }
                    }
                }
            }
        }),
{
    let out = touch_laws::event_step(m, touch, e).1;
    let head = if e.holdback {
        seq![DecisionOf::<Seq<char>>::Hold, DecisionOf::<Seq<char>>::Flush]
    } else {
        seq![DecisionOf::<Seq<char>>::Forward]
    };
    let end = seq![DecisionOf::<Seq<char>>::UnsetGrab];
    if !is_clean_tap(m, e) {
        assert(out =~= head + end || out =~= head + seq![DecisionOf::<Seq<char>>::Momentum] + end);
    }
}

/// A lift that leaves fingers down is the app's, and measures pan and zoom anew
/// from the fingers that stay.
pub proof fn lemma_lift_of_one_of_several(m: Sequence, touch: TouchBindings, e: TouchEvent)
    requires
        e.input.kind is Up,
        touch_laws::event_step(m, touch, e).0.points.len() > 0,
    ensures
        ({
            let (after, out) = touch_laws::event_step(m, touch, e);
            let withheld = e.holdback && touch_fingers::position(m.points, e.input.slot) is Some;
            &&& out == (if withheld {
                seq![DecisionOf::<Seq<char>>::Hold, DecisionOf::<Seq<char>>::Flush]
            } else {
                seq![DecisionOf::<Seq<char>>::Forward]
            })
            &&& after.state.last_centroid == e.reading.centroid
            &&& after.state.last_spread == e.reading.spread
            &&& after.plan == m.plan
            &&& after.state.max_fingers == m.state.max_fingers
        }),
{
}

// ── Fingers going down ───────────────────────────────────────────────

/// What a finger that goes down makes of a sequence: the most fingers so far
/// count, the first one decides whose the gesture is and whether a tap came
/// before it, and a new most takes the bindings for that many, five at most.
pub proof fn lemma_finger_down(m: Sequence, touch: TouchBindings, e: TouchEvent)
    requires
        e.input.kind is Down,
        touch_laws::event_step(m, touch, e).0.points.len() <= usize::MAX,
    ensures
        ({
            let after = touch_laws::event_step(m, touch, e).0;
            let n = after.points.len();
            let first = n == 1;
            let more = n > m.state.max_fingers;
            let tier: u32 = if after.state.max_fingers <= 5 {
                after.state.max_fingers as u32
            } else {
                5
            };
            &&& after.state.max_fingers == (if more {
                n as int
            } else {
                m.state.max_fingers as int
            })
            &&& after.state.context == (if !first {
                m.state.context
            } else if e.input.kind->app_owns_hit {
                BindingContext::OnWindow
            } else {
                BindingContext::OnCanvas
            })
            &&& after.state.app_owns == (if first {
                e.input.kind->app_owns_hit
            } else {
                m.state.app_owns
            })
            &&& after.state.armed_for_move == (if first {
                tapped_before(e.last_tap, e.input.time_ms)
            } else {
                m.state.armed_for_move
            })
            &&& more ==> after.plan == touch_plan::plan_at(touch, after.state.context, tier)
            &&& !more ==> after.plan == m.plan
            &&& after.state.claims_blocked == m.state.claims_blocked
        }),
{
    reveal(touch_recognizer::after_down);
}

/// What a finger that goes down decides: nothing is claimed of a blocked
/// sequence; with nothing bound the finger is the app's, but withheld while more
/// fingers are bound to something; with something bound the gesture claims the
/// sequence, takes it from an app that has it, and leaves fullscreen as the
/// third or the fourth finger comes, if what is bound would end it.
pub proof fn lemma_finger_down_claims(m: Sequence, touch: TouchBindings, e: TouchEvent)
    requires
        e.input.kind is Down,
        touch_laws::event_step(m, touch, e).0.points.len() <= usize::MAX,
    ensures
        ({
            let (after, out) = touch_laws::event_step(m, touch, e);
            let (was, is) = (m.state.max_fingers, after.state.max_fingers);
            let nothing = Seq::<DecisionOf<Seq<char>>>::empty();
            let crosses = (was < 3 && is >= 3) || (was < 4 && is >= 4);
            let unbound = after.plan == touch_plan::no_plan();
            let takes = after.state.app_owns && !m.state.system_cancelled;
            &&& m.state.claims_blocked || (unbound && !after.state.higher_tier_bound) ==> out
                == seq![DecisionOf::<Seq<char>>::Forward]
            &&& !m.state.claims_blocked && unbound && after.state.higher_tier_bound ==> out
                == seq![DecisionOf::<Seq<char>>::Hold]
            &&& !m.state.claims_blocked && !unbound ==> {
                &&& out == seq![DecisionOf::<Seq<char>>::Discard] + (if takes {
                    seq![DecisionOf::<Seq<char>>::CancelAppSequence]
                } else {
                    nothing
                }) + seq![DecisionOf::<Seq<char>>::Consume] + (if crosses
                    && touch_plan::plan_ends_fullscreen(after.plan) {
                    seq![DecisionOf::<Seq<char>>::PreExitFullscreen]
                } else {
                    nothing
                })
                &&& after.state.system_cancelled == (m.state.system_cancelled || takes)
                &&& after.state.last_centroid == e.reading.centroid
                &&& after.state.last_spread == e.reading.spread
                &&& crosses || after.points.len() == 1 ==> {
                    &&& !after.state.active
                    &&& !after.state.zoom_engaged
                    &&& after.state.tap_start_time == e.input.time_ms
                    &&& after.state.start_centroid == e.reading.centroid
                    &&& after.state.start_spread == e.reading.spread
                    &&& !after.state.nav_fired_swipe
                    &&& !after.state.nav_fired_pinch
                    &&& after.state.pinch_streak == 0
                }
                &&& !(crosses || after.points.len() == 1) ==> {
                    &&& after.state.active == m.state.active
                    &&& after.state.tap_start_time == m.state.tap_start_time
                    &&& after.state.start_centroid == m.state.start_centroid
                }
            }
            &&& is > was ==> after.state.higher_tier_bound == exists|k: u32|
                is < k <= 5 && #[trigger] touch_plan::plan_at(touch, after.state.context, k)
                    != touch_plan::no_plan()
            &&& is == was ==> after.state.higher_tier_bound == m.state.higher_tier_bound
        }),
{
    reveal(touch_recognizer::after_down);
}

// ── Plans ────────────────────────────────────────────────────────────

/// What a trigger is bound to in a context, and anywhere where not there.
pub open spec fn entry_at(touch: TouchBindings, cx: BindingContext, t: GestureTrigger) -> Option<
    GestureConfigEntryOf<Seq<char>>,
> {
    let own = match cx {
        BindingContext::OnWindow => bindings::bound(touch.on_window, t),
        BindingContext::OnCanvas => bindings::bound(touch.on_canvas, t),
        BindingContext::Anywhere => bindings::bound(touch.anywhere, t),
    };
    if own is Some {
        own
    } else {
        bindings::bound(touch.anywhere, t)
    }
}

/// Is `part` the one-shot that an entry holds?
pub open spec fn one_shot_in(
    part: Option<ThresholdActionOf<Seq<char>>>,
    entry: Option<GestureConfigEntryOf<Seq<char>>>,
) -> bool {
    match entry {
        Some(GestureConfigEntryOf::Threshold(a)) => part == Some(a),
        _ => part is None,
    }
}

/// Is `part` what an entry holds that follows the fingers?
pub open spec fn continuous_in(
    part: Option<ContinuousAction>,
    entry: Option<GestureConfigEntryOf<Seq<char>>>,
) -> bool {
    match entry {
        Some(GestureConfigEntryOf::Continuous(a)) => part == Some(a),
        _ => part is None,
    }
}

/// Each part of the plan for some fingers is what its own trigger with that many
/// fingers is bound to.
pub proof fn lemma_plan_takes_each_binding(touch: TouchBindings, cx: BindingContext, n: u32)
    ensures
        ({
            let p = touch_plan::plan_at(touch, cx, n);
            let at = |t: GestureTrigger| entry_at(touch, cx, t);
            &&& p.swipe == at(GestureTrigger::Swipe { fingers: n })
            &&& one_shot_in(p.swipe_up, at(GestureTrigger::SwipeUp { fingers: n }))
            &&& one_shot_in(p.swipe_down, at(GestureTrigger::SwipeDown { fingers: n }))
            &&& one_shot_in(p.swipe_left, at(GestureTrigger::SwipeLeft { fingers: n }))
            &&& one_shot_in(p.swipe_right, at(GestureTrigger::SwipeRight { fingers: n }))
            &&& one_shot_in(p.pinch_in, at(GestureTrigger::PinchIn { fingers: n }))
            &&& one_shot_in(p.pinch_out, at(GestureTrigger::PinchOut { fingers: n }))
            &&& one_shot_in(p.tap, at(GestureTrigger::Tap { fingers: n }))
            &&& one_shot_in(p.doubletap, at(GestureTrigger::Doubletap { fingers: n }))
            &&& continuous_in(p.pinch, at(GestureTrigger::Pinch { fingers: n }))
            &&& continuous_in(p.doubletap_swipe, at(GestureTrigger::DoubletapSwipe { fingers: n }))
            &&& continuous_in(p.hold_swipe, at(GestureTrigger::HoldSwipe { fingers: n }))
            &&& continuous_in(
                p.doubletap_hold_swipe,
                at(GestureTrigger::DoubletapHoldSwipe { fingers: n }),
            )
        }),
{
    reveal(touch_plan::plan_at);
}

proof fn lemma_unbound_at(n: u32, cx: BindingContext, t: GestureTrigger)
    requires
        n == 4 || n == 5,
        laws::fingers_of(t) == n,
        !(t is Swipe || t is PinchIn || t is PinchOut),
    ensures
        entry_at(defaults::default_touch(), cx, t) is None,
{
    bindings::lemma_unlisted_is_unbound(defaults::touch_on_window(), t);
    bindings::lemma_unlisted_is_unbound(defaults::touch_on_canvas(), t);
    bindings::lemma_unlisted_is_unbound(defaults::touch_anywhere(), t);
}

/// The default plan of four and five fingers, wherever they land: a swipe goes to
/// the nearest window, closing shows everything, opening goes home, and nothing
/// else is bound.
pub proof fn lemma_default_of_four_fingers(n: u32, cx: BindingContext)
    requires
        n == 4 || n == 5,
    ensures
        ({
            let p = touch_plan::plan_at(defaults::default_touch(), cx, n);
            &&& p.swipe == Some(
                GestureConfigEntryOf::<Seq<char>>::Threshold(ThresholdActionOf::CenterNearest),
            )
            &&& p.pinch_in == Some(ThresholdActionOf::Fixed(ActionOf::<Seq<char>>::ZoomToFit))
            &&& p.pinch_out == Some(ThresholdActionOf::Fixed(ActionOf::<Seq<char>>::HomeToggle))
            &&& !follows_fingers(p)
            &&& p.tap is None && p.doubletap is None
            &&& p.swipe_up is None && p.swipe_down is None
            &&& p.swipe_left is None && p.swipe_right is None
        }),
{
    let touch = defaults::default_touch();
    lemma_plan_takes_each_binding(touch, cx, n);
    default_laws::lemma_touch_everywhere(n);
    let (s, i, o) = (
        GestureTrigger::Swipe { fingers: n },
        GestureTrigger::PinchIn { fingers: n },
        GestureTrigger::PinchOut { fingers: n },
    );
    bindings::lemma_unlisted_is_unbound(defaults::touch_on_window(), s);
    bindings::lemma_unlisted_is_unbound(defaults::touch_on_canvas(), s);
    bindings::lemma_unlisted_is_unbound(defaults::touch_on_window(), i);
    bindings::lemma_unlisted_is_unbound(defaults::touch_on_canvas(), i);
    bindings::lemma_unlisted_is_unbound(defaults::touch_on_window(), o);
    bindings::lemma_unlisted_is_unbound(defaults::touch_on_canvas(), o);
    lemma_unbound_at(n, cx, GestureTrigger::SwipeUp { fingers: n });
    lemma_unbound_at(n, cx, GestureTrigger::SwipeDown { fingers: n });
    lemma_unbound_at(n, cx, GestureTrigger::SwipeLeft { fingers: n });
    lemma_unbound_at(n, cx, GestureTrigger::SwipeRight { fingers: n });
    lemma_unbound_at(n, cx, GestureTrigger::Pinch { fingers: n });
    lemma_unbound_at(n, cx, GestureTrigger::DoubletapSwipe { fingers: n });
    lemma_unbound_at(n, cx, GestureTrigger::HoldSwipe { fingers: n });
    lemma_unbound_at(n, cx, GestureTrigger::DoubletapHoldSwipe { fingers: n });
    lemma_unbound_at(n, cx, GestureTrigger::Tap { fingers: n });
    lemma_unbound_at(n, cx, GestureTrigger::Doubletap { fingers: n });
}

/// By default, four or five fingers that close show everything, and that open go
/// home; a swipe of theirs goes to the nearest window where they went.
pub proof fn lemma_default_navigation(m: Sequence, e: TouchEvent, n: u32, cx: BindingContext)
    requires
        n == 4 || n == 5,
        m.plan == touch_plan::plan_at(defaults::default_touch(), cx, n),
        moves_gesture(m, e),
        !m.state.nav_fired_swipe,
        !m.state.nav_fired_pinch,
    ensures
        ({
            let touch = defaults::default_touch();
            let out = touch_laws::event_step(m, touch, e).1;
            let one = Real { bits: 0x3ff0_0000_0000_0000 };
            let fired = |a: ActionOf<Seq<char>>|
                out == seq![
                    DecisionOf::<Seq<char>>::Consume,
                    DecisionOf::<Seq<char>>::FireThreshold(a),
                ];
            &&& pinch_complete(m, touch, e) && numbers::less(e.reading.pinch_scale, one) ==> fired(
                ActionOf::ZoomToFit,
            )
            &&& pinch_complete(m, touch, e) && numbers::less(one, e.reading.pinch_scale) ==> fired(
                ActionOf::HomeToggle,
            )
            &&& swipe_complete(m, touch, e) ==> fired(ActionOf::CenterNearest(e.reading.direction))
        }),
{
    let touch = defaults::default_touch();
    lemma_default_of_four_fingers(n, cx);
    if pinch_complete(m, touch, e) {
        lemma_pinch_fires_its_own_binding(m, touch, e);
    }
    if swipe_complete(m, touch, e) {
        lemma_swipe_fires_its_own_direction(m, touch, e);
    }
}

// ── Whose an event is ────────────────────────────────────────────────

/// The motion of a finger that is not known is nobody's; one that is withheld
/// stays withheld; one of a blocked sequence, or of one that nothing is bound for,
/// is the app's; and every other is the gesture's. The finger is where it moved
/// to after that.
pub proof fn lemma_whose_motion_is(m: Sequence, touch: TouchBindings, e: TouchEvent)
    requires
        e.input.kind is Motion,
    ensures
        ({
            let (after, out) = touch_laws::event_step(m, touch, e);
            let known = touch_fingers::position(m.points, e.input.slot) is Some;
            let unbound = m.plan == touch_plan::no_plan();
            let apps = m.state.claims_blocked || unbound;
            &&& !known ==> out == seq![DecisionOf::<Seq<char>>::Consume] && after == m
            &&& known && e.holdback ==> out == seq![DecisionOf::<Seq<char>>::Hold]
            &&& known && !e.holdback && apps ==> out == seq![DecisionOf::<Seq<char>>::Forward]
            &&& known && !e.holdback && !apps ==> out.len() > 0 && out[0] is Consume
            &&& known && !e.holdback && !apps && !follows_fingers(m.plan) && !binds_one_shot(m.plan)
                ==> out == seq![DecisionOf::<Seq<char>>::Consume]
            &&& known && (e.holdback || apps) ==> after.state == m.state
            &&& after.plan == m.plan
            &&& known ==> after.points == touch_fingers::placed(
                m.points,
                e.input.slot,
                e.input.kind->Motion_location,
            )
        }),
{
    lemma_nothing_bound(m.plan);
}

/// A sequence is blocked by the lift of a finger while nothing is bound for it,
/// and by nothing else: not by a finger that is not known, and not by one that
/// goes down or moves. Once blocked it stays so.
pub proof fn lemma_what_blocks_a_sequence(m: Sequence, touch: TouchBindings, e: TouchEvent)
    ensures
        touch_laws::event_step(m, touch, e).0.state.claims_blocked == (m.state.claims_blocked || (
        e.input.kind is Up && touch_fingers::position(m.points, e.input.slot) is Some && m.plan
            == touch_plan::no_plan())),
{
    reveal(touch_recognizer::after_down);
}

/// Does a bound one-shot end fullscreen?
pub open spec fn one_shot_ends(part: Option<ThresholdActionOf<Seq<char>>>) -> bool {
    match part {
        Some(ThresholdActionOf::CenterNearest) => true,
        Some(ThresholdActionOf::Fixed(a)) => types::ends_fullscreen(a),
        None => false,
    }
}

/// A plan ends fullscreen if and only if something that follows the fingers is
/// bound, or a one-shot that ends it.
pub proof fn lemma_which_plans_end_fullscreen(p: PlanOf<Seq<char>>)
    ensures
        touch_plan::plan_ends_fullscreen(p) <==> {
            ||| p.swipe matches Some(GestureConfigEntryOf::Continuous(_))
            ||| p.swipe matches Some(GestureConfigEntryOf::Threshold(a)) && one_shot_ends(Some(a))
            ||| p.doubletap_swipe is Some
            ||| p.hold_swipe is Some
            ||| p.doubletap_hold_swipe is Some
            ||| p.pinch is Some
            ||| one_shot_ends(p.swipe_up)
            ||| one_shot_ends(p.swipe_down)
            ||| one_shot_ends(p.swipe_left)
            ||| one_shot_ends(p.swipe_right)
            ||| one_shot_ends(p.pinch_in)
            ||| one_shot_ends(p.pinch_out)
            ||| one_shot_ends(p.tap)
            ||| one_shot_ends(p.doubletap)
        },
{
    reveal(touch_plan::plan_ends_fullscreen);
}

/// A new sequence has no fingers and no bindings, owes nothing to an app, and
/// has neither moved nor fired.
pub proof fn lemma_fresh_sequence(panel: touch_recognizer::PanelScale)
    ensures
        ({
            let m = touch_recognizer::fresh(panel);
            &&& m.points.len() == 0
            &&& m.state.max_fingers == 0
            &&& !follows_fingers(m.plan) && !binds_one_shot(m.plan)
            &&& m.plan.tap is None && m.plan.doubletap is None && m.plan.pinch is None
            &&& !m.state.app_owns && !m.state.system_cancelled && !m.state.claims_blocked
            &&& !m.state.active && !m.state.ever_active && !m.state.armed_for_move
            &&& !m.state.nav_fired_swipe && !m.state.nav_fired_pinch && m.state.pinch_streak == 0
            &&& !m.state.zoom_engaged
            &&& m.state.panel == panel
        }),
{
}

} // verus!
