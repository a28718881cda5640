//! The clock-free multi-finger touch-gesture classifier.
//!
//! It sees screen-space positions, event times, the resolved `[touch]` bindings
//! and, for each event, a [`Reading`]: what the geometry of the fingers
//! measures. It answers with [`Decision`]s, which the caller carries out.
use vstd::prelude::*;

use crate::config::bindings::{BindingContext, ContextOf};
use crate::config::numbers;
use crate::config::numbers::Real;
use crate::config::types::{
    Action, ActionOf, ContinuousAction, Direction, GestureConfigEntryOf, GestureTrigger,
    ThresholdAction, ThresholdActionOf,
};
use crate::config::Config;
use crate::grabs::touch_fingers;
use crate::grabs::touch_fingers::{
    copy_fingers, copy_positions, find_slot, lift, make_origin, place, with_finger,
    without_finger, ScreenPos,
};
use crate::grabs::touch_plan;
use crate::grabs::touch_plan::{
    any_bound_above, copy_threshold, lookup_tier, resolve_plan_at, Plan, PlanOf,
};

verus! {

// ── Thresholds ───────────────────────────────────────────────────────

/// Finger travel before a gesture leaves the dead zone, in millimetres. Below
/// this, and below the zoom slop, it stays a candidate tap.
pub const DEAD_ZONE_MM: u32 = 2;

/// Max duration of a tap.
pub const TAP_MAX_MS: u32 = 250;

/// Window for a second tap to count as a double tap.
pub const DOUBLE_TAP_MS: u32 = 300;

/// Dwell before a drag commits that turns it into a hold gesture. Long enough
/// that a normal pan, which drags promptly, never trips it.
pub const HOLD_MS: u32 = 350;

/// The bits of the per-frame zoom dead zone on the spread ratio, 0.02. The
/// baseline only advances on a committed zoom, so a deliberate pinch still
/// accumulates past it.
pub const ZOOM_DEADZONE: u64 = 0x3f94_7ae1_47ae_147b;

/// The bits of the spread change that engages zoom with two fingers, as a
/// fraction of the spread: 0.08.
pub const ZOOM_SLOP_RATIO: u64 = 0x3fb4_7ae1_47ae_147b;

/// The same with three fingers or more, whose spread is far noisier: 0.2.
pub const ZOOM_SLOP_RATIO_3F: u64 = 0x3fc9_9999_9999_999a;

/// Minimum finger spread for zoom to engage, in millimetres: at a tiny spread a
/// sliver of jitter is a large fraction.
pub const MIN_SPREAD_MM: u32 = 3;

/// Minimum change of the spread before a pinch engages, in millimetres.
pub const PINCH_MIN_DELTA_MM: u32 = 3;

/// Consecutive frames the pinch floor must hold before zoom is trusted: a real
/// pinch sustains the spread change, a splay only stabs past the floor.
pub const PINCH_CONFIRM_FRAMES: u32 = 2;

/// Centroid travel of a navigation swipe, in millimetres.
pub const NAV_SWIPE_MM: u32 = 15;

/// The bits of the pinch progress at which a swipe no longer fires, 0.4: a
/// pinch has to claim the gesture before its drift reads as a swipe.
pub const SWIPE_BLOCK_PINCH: u64 = 0x3fd9_9999_9999_999a;

/// The bits of 1.0.
pub const ONE: u64 = 0x3ff0_0000_0000_0000;

// ── Events ───────────────────────────────────────────────────────────

/// The physical thresholds in the pixels of a panel.
#[derive(Clone, Copy, Debug, PartialEq, Eq, Structural)]
pub struct PanelScale {
    /// [`DEAD_ZONE_MM`] in pixels.
    pub dead_zone: Real,
    /// [`MIN_SPREAD_MM`] in pixels.
    pub min_spread: Real,
    /// [`PINCH_MIN_DELTA_MM`] in pixels.
    pub pinch_delta: Real,
}

#[derive(Clone, Copy, Debug, PartialEq, Eq, Structural)]
pub enum TouchKind {
    Down {
        location: ScreenPos,
        /// The finger landed on a client surface.
        app_owns_hit: bool,
    },
    Motion { location: ScreenPos },
    Up,
}

/// One touch event, in screen-space coordinates.
#[derive(Clone, Copy, Debug, PartialEq, Eq, Structural)]
pub struct TouchInput {
    pub time_ms: u32,
    pub slot: i32,
    pub kind: TouchKind,
}

/// What the fingers that are down after an event measure, against the
/// baselines that the recognizer holds before it.
#[derive(Clone, Copy, Debug, PartialEq, Eq, Structural)]
pub struct Reading {
    /// Mean position of the fingers.
    pub centroid: ScreenPos,
    /// Mean distance of the fingers from the centroid.
    pub spread: Real,
    /// Distance of the centroid from where the gesture started.
    pub moved: Real,
    /// The centroid less the last centroid.
    pub centroid_delta: ScreenPos,
    /// The spread over the last spread.
    pub spread_scale: Real,
    /// How far that scale is from one.
    pub spread_ratio: Real,
    /// How far the spread is from the last spread.
    pub spread_delta: Real,
    /// How far the spread is from the spread at the start.
    pub start_delta: Real,
    /// The navigation vector with this motion taken off: content dragged right
    /// reveals what is left.
    pub nav_cumulative: ScreenPos,
    /// Where the navigation vector points.
    pub direction: Direction,
    /// Length of the navigation vector over [`NAV_SWIPE_MM`].
    pub swipe_progress: Real,
    /// The spread over the spread at the start.
    pub pinch_scale: Real,
    /// How much of the configured pinch that scale completes.
    pub pinch_progress: Real,
}

/// What a clean tap does.
#[derive(Debug, PartialEq, Eq)]
pub enum TapOutcomeOf<S> {
    /// Execute this resolved action now.
    Fire(ActionOf<S>),
    /// Defer a single-tap center until the double-tap window elapses.
    DeferCenter { delay_ms: u32 },
    /// The tap passed the gates but its tier binds nothing for it.
    Nothing,
}

pub type TapOutcome = TapOutcomeOf<String>;

impl View for TapOutcomeOf<String> {
    type V = TapOutcomeOf<Seq<char>>;

    open spec fn view(&self) -> TapOutcomeOf<Seq<char>> {
        match *self {
            TapOutcomeOf::Fire(a) => TapOutcomeOf::Fire(a@),
            TapOutcomeOf::DeferCenter { delay_ms } => TapOutcomeOf::DeferCenter { delay_ms },
            TapOutcomeOf::Nothing => TapOutcomeOf::Nothing,
        }
    }
}

impl TapOutcomeOf<String> {
    /// A copy of the outcome.
    pub fn duplicate(&self) -> (r: TapOutcome)
        ensures
            r@ == self@,
    {
        match self {
            TapOutcomeOf::Fire(a) => TapOutcomeOf::Fire(a.duplicate()),
            TapOutcomeOf::DeferCenter { delay_ms } => TapOutcomeOf::DeferCenter {
                delay_ms: *delay_ms,
            },
            TapOutcomeOf::Nothing => TapOutcomeOf::Nothing,
        }
    }
}

/// What a single event implies.
#[derive(Debug, PartialEq, Eq)]
pub enum DecisionOf<S> {
    /// Deliver the event to the app with its captured focus.
    Forward,
    /// Deliver the event with no app focus: the gesture engine consumes it.
    Consume,
    /// Withhold the event in the holdback buffer.
    Hold,
    /// Deliver the withheld buffer in order.
    Flush,
    /// Drop the withheld buffer unsent: a gesture claimed the sequence.
    Discard,
    /// Revoke the app's touch sequence.
    CancelAppSequence,
    /// Exit fullscreen before a gesture that ends it.
    PreExitFullscreen,
    /// Pan the viewport by this centroid delta.
    Pan(ScreenPos),
    /// Zoom by this spread ratio around this position.
    Zoom { scale: Real, anchor: ScreenPos },
    /// Fire a resolved one-shot action.
    FireThreshold(ActionOf<S>),
    /// Hand the drag to a window move or resize grab.
    StartWindowGrab { action: ContinuousAction },
    /// Coast after the last finger lifted.
    Momentum,
    /// A clean tap: raise and focus the window under `focus_at`, record
    /// `set_last_tap` as the last tap, act on `outcome`.
    Tap { focus_at: ScreenPos, set_last_tap: Option<u32>, outcome: TapOutcomeOf<S> },
    /// Tear down the grab.
    UnsetGrab,
}

pub type Decision = DecisionOf<String>;

impl View for DecisionOf<String> {
    type V = DecisionOf<Seq<char>>;

    open spec fn view(&self) -> DecisionOf<Seq<char>> {
        match *self {
            DecisionOf::Forward => DecisionOf::Forward,
            DecisionOf::Consume => DecisionOf::Consume,
            DecisionOf::Hold => DecisionOf::Hold,
            DecisionOf::Flush => DecisionOf::Flush,
            DecisionOf::Discard => DecisionOf::Discard,
            DecisionOf::CancelAppSequence => DecisionOf::CancelAppSequence,
            DecisionOf::PreExitFullscreen => DecisionOf::PreExitFullscreen,
            DecisionOf::Pan(d) => DecisionOf::Pan(d),
            DecisionOf::Zoom { scale, anchor } => DecisionOf::Zoom { scale, anchor },
            DecisionOf::FireThreshold(a) => DecisionOf::FireThreshold(a@),
            DecisionOf::StartWindowGrab { action } => DecisionOf::StartWindowGrab { action },
            DecisionOf::Momentum => DecisionOf::Momentum,
            DecisionOf::Tap { focus_at, set_last_tap, outcome } => DecisionOf::Tap {
                focus_at,
                set_last_tap,
                outcome: outcome@,
            },
            DecisionOf::UnsetGrab => DecisionOf::UnsetGrab,
        }
    }
}

/// Models of decisions.
pub open spec fn decision_models(v: Seq<Decision>) -> Seq<DecisionOf<Seq<char>>> {
    v.map_values(|d: Decision| d@)
}

// ── State ────────────────────────────────────────────────────────────

/// What a touch sequence has come to.
#[derive(Clone, Copy, Debug, PartialEq, Eq, Structural)]
pub struct GestureState {
    /// The first finger landed on a client surface.
    pub app_owns: bool,
    /// Binding context, fixed by the first finger.
    pub context: BindingContext,
    /// High-water mark of simultaneous fingers.
    pub max_fingers: usize,
    /// The app's touch sequence was revoked.
    pub system_cancelled: bool,
    /// A finger lifted while the sequence was still the app's: a real gesture
    /// plants every finger before lifting any, so no tier may claim it anymore.
    pub claims_blocked: bool,
    /// A higher tier binds something and could still claim the sequence.
    pub higher_tier_bound: bool,
    /// Past the dead zone.
    pub active: bool,
    /// Ever past the dead zone: no tap anymore.
    pub ever_active: bool,
    /// A recent tap armed the gesture for a double-tap drag.
    pub armed_for_move: bool,
    pub tap_start_time: u32,
    pub start_centroid: ScreenPos,
    pub last_centroid: ScreenPos,
    pub last_spread: Real,
    pub start_spread: Real,
    pub nav_cumulative: ScreenPos,
    pub nav_fired_swipe: bool,
    pub nav_fired_pinch: bool,
    /// Consecutive frames the pinch floor has held, counted up to
    /// [`PINCH_CONFIRM_FRAMES`].
    pub pinch_streak: u32,
    /// Pinch-zoom is live. Pan runs regardless.
    pub zoom_engaged: bool,
    pub panel: PanelScale,
}

/// A touch sequence. `F` holds the fingers by slot, `P` the plan.
#[derive(Debug, PartialEq, Eq)]
pub struct TouchRecognizerOf<F, P> {
    /// Screen positions of the fingers that are down, in rising order of slots.
    pub points: F,
    /// What the most fingers so far are bound to.
    pub plan: P,
    pub state: GestureState,
}

pub type TouchRecognizer = TouchRecognizerOf<Vec<(i32, ScreenPos)>, Plan>;

impl View for TouchRecognizerOf<Vec<(i32, ScreenPos)>, Plan> {
    type V = TouchRecognizerOf<Seq<(i32, ScreenPos)>, PlanOf<Seq<char>>>;

    open spec fn view(&self) -> TouchRecognizerOf<Seq<(i32, ScreenPos)>, PlanOf<Seq<char>>> {
        TouchRecognizerOf { points: self.points@, plan: self.plan@, state: self.state }
    }
}

/// The state of a touch sequence that has not begun.
pub open spec fn fresh_state(panel: PanelScale) -> GestureState {
    GestureState {
        app_owns: false,
        context: BindingContext::OnCanvas,
        max_fingers: 0,
        system_cancelled: false,
        claims_blocked: false,
        higher_tier_bound: false,
        active: false,
        ever_active: false,
        armed_for_move: false,
        tap_start_time: 0,
        start_centroid: touch_fingers::origin(),
        last_centroid: touch_fingers::origin(),
        last_spread: Real { bits: 0 },
        start_spread: Real { bits: 0 },
        nav_cumulative: touch_fingers::origin(),
        nav_fired_swipe: false,
        nav_fired_pinch: false,
        pinch_streak: 0,
        zoom_engaged: false,
        panel,
    }
}

/// A touch sequence that has not begun.
pub open spec fn fresh(panel: PanelScale) -> TouchRecognizerOf<
    Seq<(i32, ScreenPos)>,
    PlanOf<Seq<char>>,
> {
    TouchRecognizerOf {
        points: Seq::empty(),
        plan: touch_plan::no_plan(),
        state: fresh_state(panel),
    }
}

/// Milliseconds from `since` to `now`, none where the clock ran backwards.
pub open spec fn elapsed(now: u32, since: u32) -> u32 {
    if now >= since {
        (now - since) as u32
    } else {
        0
    }
}

/// Does a tap at `last` arm what happens at `now`?
pub open spec fn within_double_tap(last: Option<u32>, now: u32) -> bool {
    last matches Some(t) && elapsed(now, t) < DOUBLE_TAP_MS
}

/// The spread-change fraction that engages zoom.
pub open spec fn slop_ratio(max_fingers: usize) -> Real {
    if max_fingers >= 3 {
        Real { bits: ZOOM_SLOP_RATIO_3F }
    } else {
        Real { bits: ZOOM_SLOP_RATIO }
    }
}

// ── A finger goes down ───────────────────────────────────────────────

/// The sequence with one more finger and what its tier binds.
#[verifier::opaque]
pub open spec fn after_down(
    m: TouchRecognizerOf<Seq<(i32, ScreenPos)>, PlanOf<Seq<char>>>,
    touch: ContextOf<Seq<(GestureTrigger, GestureConfigEntryOf<Seq<char>>)>>,
    slot: i32,
    location: ScreenPos,
    app_owns_hit: bool,
    time: u32,
    last_tap: Option<u32>,
) -> TouchRecognizerOf<Seq<(i32, ScreenPos)>, PlanOf<Seq<char>>> {
    let points = touch_fingers::placed(m.points, slot, location);
    let max_fingers = if points.len() > m.state.max_fingers {
        points.len() as usize
    } else {
        m.state.max_fingers
    };
    let first = points.len() == 1;
    let context = if !first {
        m.state.context
    } else if app_owns_hit {
        BindingContext::OnWindow
    } else {
        BindingContext::OnCanvas
    };
    let grown = max_fingers != m.state.max_fingers;
    TouchRecognizerOf {
        points,
        plan: if grown {
            touch_plan::plan_at(touch, context, touch_plan::tier(max_fingers))
        } else {
            m.plan
        },
        state: GestureState {
            max_fingers,
            context,
            app_owns: if first {
                app_owns_hit
            } else {
                m.state.app_owns
            },
            armed_for_move: if first {
                within_double_tap(last_tap, time)
            } else {
                m.state.armed_for_move
            },
            higher_tier_bound: if grown {
                touch_plan::bound_above(touch, context, touch_plan::tier(max_fingers))
            } else {
                m.state.higher_tier_bound
            },
            ..m.state
        },
    }
}

/// Does the finger count cross into the system gestures or into navigation?
pub open spec fn crossed(before: usize, after: usize) -> bool {
    (before < 3 && after >= 3) || (before < 4 && after >= 4)
}

/// The gesture measured afresh from where the fingers are.
pub open spec fn rearmed(s: GestureState, time: u32, r: Reading) -> GestureState {
    GestureState {
        active: false,
        zoom_engaged: false,
        tap_start_time: time,
        start_centroid: r.centroid,
        start_spread: r.spread,
        nav_cumulative: touch_fingers::origin(),
        nav_fired_swipe: false,
        nav_fired_pinch: false,
        pinch_streak: 0,
        ..s
    }
}

/// The per-frame baseline put where the fingers are, so that a finger added or
/// removed makes no pan or zoom jump.
pub open spec fn rebaselined(s: GestureState, r: Reading) -> GestureState {
    GestureState { last_centroid: r.centroid, last_spread: r.spread, ..s }
}

/// A bound tier claims the sequence: what is withheld is dropped, what was
/// delivered is revoked once, and the gesture is measured afresh when it starts
/// and at each tier crossing.
pub open spec fn claim_step(
    d: TouchRecognizerOf<Seq<(i32, ScreenPos)>, PlanOf<Seq<char>>>,
    before: usize,
    time: u32,
    r: Reading,
) -> (
    TouchRecognizerOf<Seq<(i32, ScreenPos)>, PlanOf<Seq<char>>>,
    Seq<DecisionOf<Seq<char>>>,
) {
    let revoke = d.state.app_owns && !d.state.system_cancelled;
    let cross = crossed(before, d.state.max_fingers);
    let claim: Seq<DecisionOf<Seq<char>>> = if revoke {
        seq![DecisionOf::Discard, DecisionOf::CancelAppSequence, DecisionOf::Consume]
    } else {
        seq![DecisionOf::Discard, DecisionOf::Consume]
    };
    let out = if cross && touch_plan::plan_ends_fullscreen(d.plan) {
        claim.push(DecisionOf::PreExitFullscreen)
    } else {
        claim
    };
    let claimed = GestureState {
        system_cancelled: d.state.system_cancelled || revoke,
        ..d.state
    };
    let armed = if d.points.len() == 1 || cross {
        rearmed(claimed, time, r)
    } else {
        claimed
    };
    (TouchRecognizerOf { state: rebaselined(armed, r), ..d }, out)
}

/// A finger goes down. A blocked sequence stays the app's. An unbound tier is
/// the app's too, but withheld while a higher tier could still claim it. A
/// bound tier claims it.
pub open spec fn down_step(
    m: TouchRecognizerOf<Seq<(i32, ScreenPos)>, PlanOf<Seq<char>>>,
    touch: ContextOf<Seq<(GestureTrigger, GestureConfigEntryOf<Seq<char>>)>>,
    slot: i32,
    location: ScreenPos,
    app_owns_hit: bool,
    time: u32,
    last_tap: Option<u32>,
    r: Reading,
) -> (
    TouchRecognizerOf<Seq<(i32, ScreenPos)>, PlanOf<Seq<char>>>,
    Seq<DecisionOf<Seq<char>>>,
) {
    let d = after_down(m, touch, slot, location, app_owns_hit, time, last_tap);
    if d.state.claims_blocked {
        (d, seq![DecisionOf::Forward])
    } else if d.plan == touch_plan::no_plan() {
        if d.state.higher_tier_bound {
            (d, seq![DecisionOf::Hold])
        } else {
            (d, seq![DecisionOf::Forward])
        }
    } else {
        claim_step(d, m.state.max_fingers, time, r)
    }
}

// ── A finger lifts ───────────────────────────────────────────────────

/// The action that a threshold stands for: the nearest window lies where the
/// navigation vector points.
pub open spec fn resolved(a: ThresholdActionOf<Seq<char>>, direction: Direction) -> ActionOf<
    Seq<char>,
> {
    match a {
        ThresholdActionOf::CenterNearest => ActionOf::CenterNearest(direction),
        ThresholdActionOf::Fixed(a) => a,
    }
}

/// A tap is short, never left the dead zone, and its tier binds one.
pub open spec fn is_tap(
    m: TouchRecognizerOf<Seq<(i32, ScreenPos)>, PlanOf<Seq<char>>>,
    time: u32,
) -> bool {
    !m.state.ever_active && (m.plan.tap is Some || m.plan.doubletap is Some) && elapsed(
        time,
        m.state.tap_start_time,
    ) <= TAP_MAX_MS
}

/// What a clean tap decides. A single-tap center is deferred, so that it does
/// not flash before a follow-up double tap.
pub open spec fn tap_decision(
    m: TouchRecognizerOf<Seq<(i32, ScreenPos)>, PlanOf<Seq<char>>>,
    time: u32,
    last_tap: Option<u32>,
    direction: Direction,
) -> DecisionOf<Seq<char>> {
    if within_double_tap(last_tap, time) {
        DecisionOf::Tap {
            focus_at: m.state.start_centroid,
            set_last_tap: None,
            outcome: match m.plan.doubletap {
                Some(a) => TapOutcomeOf::Fire(resolved(a, direction)),
                None => TapOutcomeOf::Nothing,
            },
        }
    } else {
        DecisionOf::Tap {
            focus_at: m.state.start_centroid,
            set_last_tap: Some(time),
            outcome: match m.plan.tap {
                Some(ThresholdActionOf::Fixed(ActionOf::CenterWindow)) => {
                    TapOutcomeOf::DeferCenter { delay_ms: DOUBLE_TAP_MS }
                },
                Some(a) => TapOutcomeOf::Fire(resolved(a, direction)),
                None => TapOutcomeOf::Nothing,
            },
        }
    }
}

/// Does translation pan the viewport?
pub open spec fn pans(p: PlanOf<Seq<char>>) -> bool {
    p.swipe matches Some(GestureConfigEntryOf::Continuous(ContinuousAction::PanViewport))
}

/// What the last lift adds: it coasts after a pan without zoom, taps if nothing
/// more happened, and ends the grab. Only a lift of a known finger that flushes
/// nothing (`live`) coasts or taps.
pub open spec fn last_lift(
    d: TouchRecognizerOf<Seq<(i32, ScreenPos)>, PlanOf<Seq<char>>>,
    head: Seq<DecisionOf<Seq<char>>>,
    live: bool,
    time: u32,
    last_tap: Option<u32>,
    direction: Direction,
) -> Seq<DecisionOf<Seq<char>>> {
    let coast = live && pans(d.plan) && d.state.ever_active && !d.state.zoom_engaged;
    let tap = live && !d.state.claims_blocked && is_tap(d, time);
    let coasted = if coast {
        head.push(DecisionOf::Momentum)
    } else {
        head
    };
    let tapped = if tap {
        coasted.push(tap_decision(d, time, last_tap, direction))
    } else {
        coasted
    };
    tapped.push(DecisionOf::UnsetGrab)
}

/// A finger lifts. A lift while the sequence is the app's pins it there, and
/// flushes what is withheld right away.
pub open spec fn up_step(
    m: TouchRecognizerOf<Seq<(i32, ScreenPos)>, PlanOf<Seq<char>>>,
    slot: i32,
    time: u32,
    holdback: bool,
    last_tap: Option<u32>,
    r: Reading,
) -> (
    TouchRecognizerOf<Seq<(i32, ScreenPos)>, PlanOf<Seq<char>>>,
    Seq<DecisionOf<Seq<char>>>,
) {
    let present = touch_fingers::position(m.points, slot) is Some;
    let d = TouchRecognizerOf {
        points: touch_fingers::lifted(m.points, slot),
        state: GestureState {
            claims_blocked: m.state.claims_blocked || (present && m.plan == touch_plan::no_plan()),
            ..m.state
        },
        ..m
    };
    let flush = present && holdback;
    let head: Seq<DecisionOf<Seq<char>>> = if flush {
        seq![DecisionOf::Hold, DecisionOf::Flush]
    } else {
        seq![DecisionOf::Forward]
    };
    if d.points.len() > 0 {
        (TouchRecognizerOf { state: rebaselined(d.state, r), ..d }, head)
    } else {
        (d, last_lift(d, head, present && !flush, time, last_tap, r.direction))
    }
}

// ── A finger moves ───────────────────────────────────────────────────

/// Are all the fingers of the gesture down? With a contact dropped, the spread
/// of the others lurches like a pinch.
pub open spec fn all_down(
    m: TouchRecognizerOf<Seq<(i32, ScreenPos)>, PlanOf<Seq<char>>>,
) -> bool {
    m.points.len() >= m.state.max_fingers
}

/// Did the spread change by the zoom slop and by a physical distance, from a
/// spread that is large enough to trust?
pub open spec fn spread_changed(
    m: TouchRecognizerOf<Seq<(i32, ScreenPos)>, PlanOf<Seq<char>>>,
    r: Reading,
) -> bool {
    numbers::less(m.state.panel.min_spread, m.state.last_spread) && numbers::at_least(
        r.spread_ratio,
        slop_ratio(m.state.max_fingers),
    ) && numbers::at_least(r.spread_delta, m.state.panel.pinch_delta)
}

/// The streak after one more frame.
pub open spec fn streak_after(streak: u32, qualified: bool) -> u32 {
    if !qualified {
        0
    } else if streak >= PINCH_CONFIRM_FRAMES {
        streak
    } else {
        (streak + 1) as u32
    }
}

/// Is an action a window grab?
pub open spec fn grabs_window(a: ContinuousAction) -> bool {
    a is MoveWindow || a is MoveSnappedWindows || a is ResizeWindow || a is ResizeWindowSnapped
}

/// The window grab that a drag starts as it leaves the dead zone: the binding
/// for a tap and a dwell first, for a tap, for a dwell without a tap, and then a
/// swipe that is bound to one.
pub open spec fn grab_for(p: PlanOf<Seq<char>>, armed: bool, held: bool) -> Option<
    ContinuousAction,
> {
    if armed && held && p.doubletap_hold_swipe is Some {
        p.doubletap_hold_swipe
    } else if armed && p.doubletap_swipe is Some {
        p.doubletap_swipe
    } else if !armed && held && p.hold_swipe is Some {
        p.hold_swipe
    } else {
        match p.swipe {
            Some(GestureConfigEntryOf::Continuous(a)) if grabs_window(a) => Some(a),
            _ => None,
        }
    }
}

/// A motion of a gesture that has not left the dead zone. Travel leaves it, and
/// so does a spread change where a zoom is bound; zoom engages at once only
/// with every finger down, and only a drag without it becomes a window grab.
pub open spec fn seek_step(
    m: TouchRecognizerOf<Seq<(i32, ScreenPos)>, PlanOf<Seq<char>>>,
    time: u32,
    r: Reading,
) -> (
    TouchRecognizerOf<Seq<(i32, ScreenPos)>, PlanOf<Seq<char>>>,
    Seq<DecisionOf<Seq<char>>>,
) {
    let pinch = m.plan.pinch is Some && m.points.len() >= 2 && spread_changed(m, r);
    if numbers::less(r.moved, m.state.panel.dead_zone) && !pinch {
        (m, seq![DecisionOf::Consume])
    } else {
        let engaged = pinch && all_down(m);
        let held = elapsed(time, m.state.tap_start_time) >= HOLD_MS;
        let state = GestureState {
            ever_active: true,
            active: true,
            zoom_engaged: engaged,
            last_centroid: r.centroid,
            last_spread: r.spread,
            ..m.state
        };
        let d = TouchRecognizerOf { state, ..m };
        match grab_for(m.plan, m.state.armed_for_move, held) {
            Some(action) if !engaged => (
                d,
                seq![DecisionOf::Consume, DecisionOf::StartWindowGrab { action }],
            ),
            _ => (d, seq![DecisionOf::Consume]),
        }
    }
}

/// The scale half of a live motion: zoom engages once the spread change has
/// held for some frames, taking the change as its new baseline, and from then
/// on follows the spread outside its per-frame dead zone.
pub open spec fn zoom_step(
    m: TouchRecognizerOf<Seq<(i32, ScreenPos)>, PlanOf<Seq<char>>>,
    r: Reading,
) -> (GestureState, Option<DecisionOf<Seq<char>>>) {
    let streak = streak_after(m.state.pinch_streak, all_down(m) && spread_changed(m, r));
    if !(m.plan.pinch is Some && m.points.len() >= 2) {
        (m.state, None)
    } else if !m.state.zoom_engaged && streak >= PINCH_CONFIRM_FRAMES {
        (
            GestureState {
                pinch_streak: streak,
                zoom_engaged: true,
                last_spread: r.spread,
                ..m.state
            },
            None,
        )
    } else if m.state.zoom_engaged && !numbers::at_least(Real { bits: ONE }, m.state.last_spread)
        && numbers::less(Real { bits: ZOOM_DEADZONE }, r.spread_ratio) {
        (
            GestureState { pinch_streak: streak, last_spread: r.spread, ..m.state },
            Some(DecisionOf::Zoom { scale: r.spread_scale, anchor: r.centroid }),
        )
    } else {
        (GestureState { pinch_streak: streak, ..m.state }, None)
    }
}

/// A motion of a gesture past the dead zone: the centroid pans, the spread
/// zooms, and neither excludes the other.
pub open spec fn run_step(
    m: TouchRecognizerOf<Seq<(i32, ScreenPos)>, PlanOf<Seq<char>>>,
    r: Reading,
) -> (
    TouchRecognizerOf<Seq<(i32, ScreenPos)>, PlanOf<Seq<char>>>,
    Seq<DecisionOf<Seq<char>>>,
) {
    let panned = pans(m.plan);
    let p = if panned {
        TouchRecognizerOf { state: GestureState { last_centroid: r.centroid, ..m.state }, ..m }
    } else {
        m
    };
    let out: Seq<DecisionOf<Seq<char>>> = if panned {
        seq![DecisionOf::Consume, DecisionOf::Pan(r.centroid_delta)]
    } else {
        seq![DecisionOf::Consume]
    };
    let (state, zoom) = zoom_step(p, r);
    let z = TouchRecognizerOf { state, ..m };
    match zoom {
        Some(d) => (z, out.push(d)),
        None => (z, out),
    }
}

/// The action of a fired swipe: the override of its direction, else the base.
pub open spec fn swipe_action(p: PlanOf<Seq<char>>, direction: Direction) -> Option<
    ThresholdActionOf<Seq<char>>,
> {
    let own = match direction {
        Direction::Up => p.swipe_up,
        Direction::Down => p.swipe_down,
        Direction::Left => p.swipe_left,
        Direction::Right => p.swipe_right,
        _ => None,
    };
    match own {
        Some(a) => Some(a),
        None => touch_plan::threshold_of(p.swipe),
    }
}

/// Which one-shot a frame completes: `Some(true)` for the pinch, `Some(false)`
/// for the swipe. A pinch counts once its floor has held for some frames; the
/// one further past its own threshold wins, a pinch wins ties, and a
/// developing pinch blocks the swipe.
pub open spec fn completed(confirmed: bool, r: Reading) -> Option<bool> {
    let one = Real { bits: ONE };
    if confirmed && numbers::at_least(r.pinch_progress, one) && numbers::at_least(
        r.pinch_progress,
        r.swipe_progress,
    ) {
        Some(true)
    } else if numbers::at_least(r.swipe_progress, one) && (!confirmed || numbers::less(
        r.pinch_progress,
        Real { bits: SWIPE_BLOCK_PINCH },
    )) {
        Some(false)
    } else {
        None
    }
}

/// A motion of a one-shot gesture: swipe and pinch are measured from the rest
/// baseline, and the first to complete fires, once.
pub open spec fn navigate_step(
    m: TouchRecognizerOf<Seq<(i32, ScreenPos)>, PlanOf<Seq<char>>>,
    r: Reading,
) -> (
    TouchRecognizerOf<Seq<(i32, ScreenPos)>, PlanOf<Seq<char>>>,
    Seq<DecisionOf<Seq<char>>>,
) {
    let state = GestureState {
        ever_active: true,
        nav_cumulative: r.nav_cumulative,
        last_centroid: r.centroid,
        ..m.state
    };
    if m.state.nav_fired_swipe || m.state.nav_fired_pinch {
        (TouchRecognizerOf { state, ..m }, seq![DecisionOf::Consume])
    } else {
        let streak = streak_after(
            m.state.pinch_streak,
            all_down(m) && numbers::at_least(r.start_delta, m.state.panel.pinch_delta),
        );
        let counted = GestureState { pinch_streak: streak, ..state };
        let s = TouchRecognizerOf { state: counted, ..m };
        let pinched = if numbers::less(r.pinch_scale, Real { bits: ONE }) {
            m.plan.pinch_in
        } else {
            m.plan.pinch_out
        };
        match completed(streak >= PINCH_CONFIRM_FRAMES, r) {
            Some(true) => match pinched {
                Some(a) => (
                    TouchRecognizerOf { state: GestureState { nav_fired_pinch: true, ..counted }, ..m },
                    seq![
                        DecisionOf::Consume,
                        DecisionOf::FireThreshold(resolved(a, r.direction)),
                    ],
                ),
                None => (s, seq![DecisionOf::Consume]),
            },
            Some(false) => match swipe_action(m.plan, r.direction) {
                Some(a) => (
                    TouchRecognizerOf { state: GestureState { nav_fired_swipe: true, ..counted }, ..m },
                    seq![
                        DecisionOf::Consume,
                        DecisionOf::FireThreshold(resolved(a, r.direction)),
                    ],
                ),
                None => (s, seq![DecisionOf::Consume]),
            },
            None => (s, seq![DecisionOf::Consume]),
        }
    }
}

/// A finger moves. An unknown one is consumed; a withheld sequence stays
/// withheld; the app's stays the app's; what is left is a gesture.
pub open spec fn motion_step(
    m: TouchRecognizerOf<Seq<(i32, ScreenPos)>, PlanOf<Seq<char>>>,
    slot: i32,
    location: ScreenPos,
    time: u32,
    holdback: bool,
    r: Reading,
) -> (
    TouchRecognizerOf<Seq<(i32, ScreenPos)>, PlanOf<Seq<char>>>,
    Seq<DecisionOf<Seq<char>>>,
) {
    let d = TouchRecognizerOf { points: touch_fingers::placed(m.points, slot, location), ..m };
    if touch_fingers::position(m.points, slot) is None {
        (m, seq![DecisionOf::Consume])
    } else if holdback {
        (d, seq![DecisionOf::Hold])
    } else if m.state.claims_blocked || m.plan == touch_plan::no_plan() {
        (d, seq![DecisionOf::Forward])
    } else if touch_plan::simultaneous(m.plan) {
        if m.state.active {
            run_step(d, r)
        } else {
            seek_step(d, time, r)
        }
    } else if touch_plan::translation_threshold(m.plan) || touch_plan::scale_threshold(m.plan) {
        navigate_step(d, r)
    } else {
        (d, seq![DecisionOf::Consume])
    }
}

/// What an event makes of a touch sequence, and what it decides.
pub open spec fn step(
    m: TouchRecognizerOf<Seq<(i32, ScreenPos)>, PlanOf<Seq<char>>>,
    touch: ContextOf<Seq<(GestureTrigger, GestureConfigEntryOf<Seq<char>>)>>,
    input: TouchInput,
    last_tap: Option<u32>,
    holdback: bool,
    r: Reading,
) -> (
    TouchRecognizerOf<Seq<(i32, ScreenPos)>, PlanOf<Seq<char>>>,
    Seq<DecisionOf<Seq<char>>>,
) {
    match input.kind {
        TouchKind::Down { location, app_owns_hit } => down_step(
            m,
            touch,
            input.slot,
            location,
            app_owns_hit,
            input.time_ms,
            last_tap,
            r,
        ),
        TouchKind::Motion { location } => motion_step(
            m,
            input.slot,
            location,
            input.time_ms,
            holdback,
            r,
        ),
        TouchKind::Up => up_step(m, input.slot, input.time_ms, holdback, last_tap, r),
    }
}

// ── The recognizer ───────────────────────────────────────────────────

fn since(now: u32, t: u32) -> (r: u32)
    ensures
        r == elapsed(now, t),
{
    if now >= t {
        now - t
    } else {
        0
    }
}

fn larger(a: usize, b: usize) -> (r: usize)
    ensures
        r == (if a > b {
            a
        } else {
            b
        }),
{
    if a > b {
        a
    } else {
        b
    }
}

fn pick(first: bool, a: bool, b: bool) -> (r: bool)
    ensures
        r == (if first {
            a
        } else {
            b
        }),
{
    if first {
        a
    } else {
        b
    }
}

fn context_for(first: bool, app_owns_hit: bool, context: BindingContext) -> (r: BindingContext)
    ensures
        r == (if !first {
            context
        } else if app_owns_hit {
            BindingContext::OnWindow
        } else {
            BindingContext::OnCanvas
        }),
{
    if !first {
        context
    } else if app_owns_hit {
        BindingContext::OnWindow
    } else {
        BindingContext::OnCanvas
    }
}

fn is_within_double_tap(last: Option<u32>, now: u32) -> (r: bool)
    ensures
        r == within_double_tap(last, now),
{
    match last {
        Some(t) => since(now, t) < DOUBLE_TAP_MS,
        None => false,
    }
}

fn resolve_threshold(a: &ThresholdAction, direction: Direction) -> (r: Action)
    ensures
        r@ == resolved(a@, direction),
{
    match a {
        ThresholdActionOf::CenterNearest => ActionOf::CenterNearest(direction),
        ThresholdActionOf::Fixed(a) => a.duplicate(),
    }
}

fn next_streak(streak: u32, qualified: bool) -> (r: u32)
    ensures
        r == streak_after(streak, qualified),
{
    if !qualified {
        0
    } else if streak >= PINCH_CONFIRM_FRAMES {
        streak
    } else {
        streak + 1
    }
}

/// Is an action a window grab?
pub fn is_window_grab(a: ContinuousAction) -> (r: bool)
    ensures
        r == grabs_window(a),
{
    match a {
        ContinuousAction::MoveWindow
        | ContinuousAction::MoveSnappedWindows
        | ContinuousAction::ResizeWindow
        | ContinuousAction::ResizeWindowSnapped => true,
        _ => false,
    }
}

/// The window grab that a drag starts as it leaves the dead zone.
pub fn choose_grab(plan: &Plan, armed: bool, held: bool) -> (r: Option<ContinuousAction>)
    ensures
        r == grab_for(plan@, armed, held),
{
    proof {
        reveal(<PlanOf<String> as View>::view);
    }
    if armed && held && plan.doubletap_hold_swipe.is_some() {
        plan.doubletap_hold_swipe
    } else if armed && plan.doubletap_swipe.is_some() {
        plan.doubletap_swipe
    } else if !armed && held && plan.hold_swipe.is_some() {
        plan.hold_swipe
    } else {
        match &plan.swipe {
            Some(GestureConfigEntryOf::Continuous(a)) => {
                if is_window_grab(*a) {
                    Some(*a)
                } else {
                    None
                }
            },
            _ => None,
        }
    }
}

fn is_pan(plan: &Plan) -> (r: bool)
    ensures
        r == pans(plan@),
{
    proof {
        reveal(<PlanOf<String> as View>::view);
    }
    match &plan.swipe {
        Some(GestureConfigEntryOf::Continuous(ContinuousAction::PanViewport)) => true,
        _ => false,
    }
}

/// Which one-shot a frame completes.
fn find_completed(confirmed: bool, r: &Reading) -> (c: Option<bool>)
    ensures
        c == completed(confirmed, *r),
{
    let one: Real = Real { bits: ONE };
    let block: Real = Real { bits: SWIPE_BLOCK_PINCH };
    if confirmed && r.pinch_progress.at_least(&one) && r.pinch_progress.at_least(&r.swipe_progress) {
        Some(true)
    } else if r.swipe_progress.at_least(&one) && (!confirmed || r.pinch_progress.less(&block)) {
        Some(false)
    } else {
        None
    }
}

/// The action of a fired swipe.
fn swipe_threshold_for(plan: &Plan, direction: Direction) -> (r: Option<ThresholdAction>)
    ensures
        opt_model(r) == swipe_action(plan@, direction),
{
    proof {
        reveal(<PlanOf<String> as View>::view);
    }
    let own: Option<ThresholdAction> = match direction {
        Direction::Up => copy_threshold(&plan.swipe_up),
        Direction::Down => copy_threshold(&plan.swipe_down),
        Direction::Left => copy_threshold(&plan.swipe_left),
        Direction::Right => copy_threshold(&plan.swipe_right),
        _ => None,
    };
    match own {
        Some(a) => Some(a),
        None => match &plan.swipe {
            Some(GestureConfigEntryOf::Threshold(a)) => Some(a.duplicate()),
            _ => None,
        },
    }
}

/// Model of an optional threshold action.
pub open spec fn opt_model(o: Option<ThresholdAction>) -> Option<ThresholdActionOf<Seq<char>>> {
    touch_plan::opt_threshold(o)
}

fn one_decision(d: Decision) -> (r: Vec<Decision>)
    ensures
        decision_models(r@) == seq![d@],
{
    let mut out: Vec<Decision> = Vec::new();
    out.push(d);
    proof {
        assert(decision_models(out@) =~= seq![d@]);
    }
    out
}

fn add_decision(out: &mut Vec<Decision>, d: Decision)
    ensures
        decision_models(final(out)@) == decision_models(old(out)@).push(d@),
{
    let ghost before = out@;
    out.push(d);
    proof {
        assert(decision_models(out@) =~= decision_models(before).push(d@));
    }
}

fn rebaseline(s: GestureState, r: &Reading) -> (out: GestureState)
    ensures
        out == rebaselined(s, *r),
{
    GestureState { last_centroid: r.centroid, last_spread: r.spread, ..s }
}

fn rearm(s: GestureState, time: u32, r: &Reading) -> (out: GestureState)
    ensures
        out == rearmed(s, time, *r),
{
    GestureState {
        active: false,
        zoom_engaged: false,
        tap_start_time: time,
        start_centroid: r.centroid,
        start_spread: r.spread,
        nav_cumulative: make_origin(),
        nav_fired_swipe: false,
        nav_fired_pinch: false,
        pinch_streak: 0,
        ..s
    }
}

fn lift_head(flush: bool) -> (r: Vec<Decision>)
    ensures
        decision_models(r@) == (if flush {
            seq![DecisionOf::<Seq<char>>::Hold, DecisionOf::Flush]
        } else {
            seq![DecisionOf::<Seq<char>>::Forward]
        }),
{
    if flush {
        let mut out: Vec<Decision> = one_decision(DecisionOf::Hold);
        add_decision(&mut out, DecisionOf::Flush);
        proof {
            assert(decision_models(out@) =~= seq![DecisionOf::Hold, DecisionOf::Flush]);
        }
        out
    } else {
        one_decision(DecisionOf::Forward)
    }
}

impl TouchRecognizerOf<Vec<(i32, ScreenPos)>, Plan> {
    /// Is every finger there once, in rising order of slots?
    pub open spec fn wf(&self) -> bool {
        touch_fingers::rising(self.points@)
    }

    /// A touch sequence that has not begun, on a panel.
    pub fn new(panel: PanelScale) -> (r: TouchRecognizer)
        ensures
            r.wf(),
            r@ == fresh(panel),
    {
        let state: GestureState = GestureState {
            app_owns: false,
            context: BindingContext::OnCanvas,
            max_fingers: 0,
            system_cancelled: false,
            claims_blocked: false,
            higher_tier_bound: false,
            active: false,
            ever_active: false,
            armed_for_move: false,
            tap_start_time: 0,
            start_centroid: make_origin(),
            last_centroid: make_origin(),
            last_spread: Real { bits: 0 },
            start_spread: Real { bits: 0 },
            nav_cumulative: make_origin(),
            nav_fired_swipe: false,
            nav_fired_pinch: false,
            pinch_streak: 0,
            zoom_engaged: false,
            panel,
        };
        let r: TouchRecognizer = TouchRecognizerOf {
            points: Vec::new(),
            plan: PlanOf::empty(),
            state,
        };
        proof {
            assert(r.points@ =~= Seq::empty());
            touch_fingers::lemma_none_rising();
        }
        r
    }

    /// How many fingers are down.
    pub fn finger_count(&self) -> (r: usize)
        ensures
            r == self@.points.len(),
    {
        self.points.len()
    }

    /// Where a finger was last seen.
    pub fn screen_pos(&self, slot: i32) -> (r: Option<ScreenPos>)
        requires
            self.wf(),
        ensures
            r == touch_fingers::position(self@.points, slot),
    {
        match find_slot(&self.points, slot) {
            Some(k) => Some(self.points[k].1),
            None => None,
        }
    }

    /// The positions of the fingers, in rising order of their slots, so that
    /// what is summed over them is reproducible.
    pub fn sorted_positions(&self) -> (r: Vec<ScreenPos>)
        ensures
            r@ == touch_fingers::positions(self@.points),
    {
        copy_positions(&self.points)
    }

    /// The positions of the fingers that are down after an event, in rising
    /// order of their slots: what the reading of that event is taken over.
    pub fn positions_after(&self, input: &TouchInput) -> (r: Vec<ScreenPos>)
        requires
            self.wf(),
        ensures
            forall|
                touch: ContextOf<Seq<(GestureTrigger, GestureConfigEntryOf<Seq<char>>)>>,
                last_tap: Option<u32>,
                holdback: bool,
                reading: Reading,
            |
                r@ == touch_fingers::positions(
                    (#[trigger] step(self@, touch, *input, last_tap, holdback, reading)).0.points,
                ),
    {
        proof {
            reveal(after_down);
        }
        let mut f: Vec<(i32, ScreenPos)> = copy_fingers(&self.points);
        match input.kind {
            TouchKind::Down { location, .. } => {
                place(&mut f, input.slot, location);
            },
            TouchKind::Motion { location } => {
                if find_slot(&f, input.slot).is_some() {
                    place(&mut f, input.slot, location);
                }
            },
            TouchKind::Up => {
                lift(&mut f, input.slot);
            },
        }
        copy_positions(&f)
    }

    /// The bits of the spread-change fraction that engages zoom.
    pub fn zoom_slop_ratio(&self) -> (r: Real)
        ensures
            r == slop_ratio(self.state.max_fingers),
    {
        if self.state.max_fingers >= 3 {
            Real { bits: ZOOM_SLOP_RATIO_3F }
        } else {
            Real { bits: ZOOM_SLOP_RATIO }
        }
    }

    fn all_fingers_down(&self) -> (r: bool)
        ensures
            r == all_down(self@),
    {
        self.points.len() >= self.state.max_fingers
    }

    fn has_spread_changed(&self, r: &Reading) -> (b: bool)
        ensures
            b == spread_changed(self@, *r),
    {
        self.state.panel.min_spread.less(&self.state.last_spread) && r.spread_ratio.at_least(
            &self.zoom_slop_ratio(),
        ) && r.spread_delta.at_least(&self.state.panel.pinch_delta)
    }

    #[verifier::spinoff_prover]
    fn enter(
        &mut self,
        cfg: &Config,
        slot: i32,
        location: ScreenPos,
        app_owns_hit: bool,
        time: u32,
        last_tap: Option<u32>,
    )
        requires
            old(self).wf(),
        ensures
            final(self).wf(),
            final(self)@ == after_down(
                old(self)@,
                cfg.touch_gestures@,
                slot,
                location,
                app_owns_hit,
                time,
                last_tap,
            ),
    {
        proof {
            reveal(after_down);
        }
        let before: GestureState = self.state;
        self.points = with_finger(&self.points, slot, location);
        let n: usize = self.points.len();
        let max_fingers: usize = larger(n, before.max_fingers);
        let context: BindingContext = context_for(n == 1, app_owns_hit, before.context);
        let armed: bool = is_within_double_tap(last_tap, time);
        let mut higher: bool = before.higher_tier_bound;
        if max_fingers != before.max_fingers {
            let t: u32 = lookup_tier(max_fingers);
            self.plan = resolve_plan_at(cfg, context, t);
            higher = any_bound_above(cfg, context, t);
        }
        self.state = GestureState {
            max_fingers,
            context,
            app_owns: pick(n == 1, app_owns_hit, before.app_owns),
            armed_for_move: pick(n == 1, armed, before.armed_for_move),
            higher_tier_bound: higher,
            ..before
        };
    }

    #[verifier::spinoff_prover]
    fn claim(&mut self, before: usize, time: u32, r: &Reading) -> (out: Vec<Decision>)
        requires
            old(self).wf(),
        ensures
            final(self).wf(),
            (final(self)@, decision_models(out@)) == claim_step(old(self)@, before, time, *r),
    {
        let mut out: Vec<Decision> = one_decision(DecisionOf::Discard);
        let revoke: bool = self.state.app_owns && !self.state.system_cancelled;
        if revoke {
            add_decision(&mut out, DecisionOf::CancelAppSequence);
        }
        add_decision(&mut out, DecisionOf::Consume);
        proof {
            if revoke {
                assert(decision_models(out@) =~= seq![
                    DecisionOf::Discard,
                    DecisionOf::CancelAppSequence,
                    DecisionOf::Consume,
                ]);
            } else {
                assert(decision_models(out@) =~= seq![DecisionOf::Discard, DecisionOf::Consume]);
            }
        }
        let after: usize = self.state.max_fingers;
        let cross: bool = (before < 3 && after >= 3) || (before < 4 && after >= 4);
        if cross && self.plan.ends_fullscreen() {
            add_decision(&mut out, DecisionOf::PreExitFullscreen);
        }
        let claimed: GestureState = GestureState {
            system_cancelled: self.state.system_cancelled || revoke,
            ..self.state
        };
        let armed: GestureState = if self.points.len() == 1 || cross {
            rearm(claimed, time, r)
        } else {
            claimed
        };
        self.state = rebaseline(armed, r);
        out
    }

    fn down(
        &mut self,
        cfg: &Config,
        slot: i32,
        location: ScreenPos,
        app_owns_hit: bool,
        time: u32,
        last_tap: Option<u32>,
        r: &Reading,
    ) -> (out: Vec<Decision>)
        requires
            old(self).wf(),
        ensures
            final(self).wf(),
            (final(self)@, decision_models(out@)) == down_step(
                old(self)@,
                cfg.touch_gestures@,
                slot,
                location,
                app_owns_hit,
                time,
                last_tap,
                *r,
            ),
    {
        let before: usize = self.state.max_fingers;
        self.enter(cfg, slot, location, app_owns_hit, time, last_tap);
        if self.state.claims_blocked {
            return one_decision(DecisionOf::Forward);
        }
        if self.plan.is_empty() {
            if self.state.higher_tier_bound {
                return one_decision(DecisionOf::Hold);
            }
            return one_decision(DecisionOf::Forward);
        }
        self.claim(before, time, r)
    }

    /// What a clean tap decides.
    fn tap(&self, time: u32, last_tap: Option<u32>, direction: Direction) -> (d: Decision)
        ensures
            d@ == tap_decision(self@, time, last_tap, direction),
    {
        proof {
            reveal(<PlanOf<String> as View>::view);
        }
        let focus_at: ScreenPos = self.state.start_centroid;
        if is_within_double_tap(last_tap, time) {
            let outcome: TapOutcome = match &self.plan.doubletap {
                Some(a) => TapOutcomeOf::Fire(resolve_threshold(a, direction)),
                None => TapOutcomeOf::Nothing,
            };
            DecisionOf::Tap { focus_at, set_last_tap: None, outcome }
        } else {
            let outcome: TapOutcome = match &self.plan.tap {
                Some(ThresholdActionOf::Fixed(ActionOf::CenterWindow)) => {
                    TapOutcomeOf::DeferCenter { delay_ms: DOUBLE_TAP_MS }
                },
                Some(a) => TapOutcomeOf::Fire(resolve_threshold(a, direction)),
                None => TapOutcomeOf::Nothing,
            };
            DecisionOf::Tap { focus_at, set_last_tap: Some(time), outcome }
        }
    }

    fn detect_tap(&self, time: u32) -> (r: bool)
        ensures
            r == is_tap(self@, time),
    {
        proof {
            reveal(<PlanOf<String> as View>::view);
        }
        !self.state.ever_active && (self.plan.tap.is_some() || self.plan.doubletap.is_some()) && since(
            time,
            self.state.tap_start_time,
        ) <= TAP_MAX_MS
    }

    fn finish(
        &self,
        head: Vec<Decision>,
        live: bool,
        time: u32,
        last_tap: Option<u32>,
        direction: Direction,
    ) -> (out: Vec<Decision>)
        ensures
            decision_models(out@) == last_lift(
                self@,
                decision_models(head@),
                live,
                time,
                last_tap,
                direction,
            ),
    {
        let mut out: Vec<Decision> = head;
        if live && is_pan(&self.plan) && self.state.ever_active && !self.state.zoom_engaged {
            add_decision(&mut out, DecisionOf::Momentum);
        }
        if live && !self.state.claims_blocked && self.detect_tap(time) {
            let tap: Decision = self.tap(time, last_tap, direction);
            add_decision(&mut out, tap);
        }
        add_decision(&mut out, DecisionOf::UnsetGrab);
        out
    }

    #[verifier::spinoff_prover]
    fn up(
        &mut self,
        slot: i32,
        time: u32,
        holdback: bool,
        last_tap: Option<u32>,
        r: &Reading,
    ) -> (out: Vec<Decision>)
        requires
            old(self).wf(),
        ensures
            final(self).wf(),
            (final(self)@, decision_models(out@)) == up_step(
                old(self)@,
                slot,
                time,
                holdback,
                last_tap,
                *r,
            ),
    {
        let present: bool = find_slot(&self.points, slot).is_some();
        let blocked: bool = self.state.claims_blocked || (present && self.plan.is_empty());
        let state: GestureState = GestureState { claims_blocked: blocked, ..self.state };
        self.points = without_finger(&self.points, slot);
        let flush: bool = present && holdback;
        let out: Vec<Decision> = lift_head(flush);
        if self.points.len() > 0 {
            self.state = rebaseline(state, r);
            return out;
        }
        self.state = state;
        self.finish(out, present && !flush, time, last_tap, r.direction)
    }

    fn seek(&mut self, time: u32, r: &Reading) -> (out: Vec<Decision>)
        requires
            old(self).wf(),
        ensures
            final(self).wf(),
            (final(self)@, decision_models(out@)) == seek_step(old(self)@, time, *r),
    {
        let pinch: bool = self.plan.scale_continuous() && self.points.len() >= 2
            && self.has_spread_changed(r);
        let mut out: Vec<Decision> = one_decision(DecisionOf::Consume);
        if r.moved.less(&self.state.panel.dead_zone) && !pinch {
            return out;
        }
        let engaged: bool = pinch && self.all_fingers_down();
        self.state = GestureState {
            ever_active: true,
            active: true,
            zoom_engaged: engaged,
            last_centroid: r.centroid,
            last_spread: r.spread,
            ..self.state
        };
        let held: bool = since(time, self.state.tap_start_time) >= HOLD_MS;
        if let Some(action) = choose_grab(&self.plan, self.state.armed_for_move, held) {
            if !engaged {
                add_decision(&mut out, DecisionOf::StartWindowGrab { action });
                proof {
                    assert(decision_models(out@) =~= seq![
                        DecisionOf::Consume,
                        DecisionOf::StartWindowGrab { action },
                    ]);
                }
            }
        }
        out
    }

    fn zoom(&self, state: GestureState, r: &Reading) -> (out: (GestureState, Option<Decision>))
        requires
            state.pinch_streak == self.state.pinch_streak,
            state.zoom_engaged == self.state.zoom_engaged,
            state.last_spread == self.state.last_spread,
            state.max_fingers == self.state.max_fingers,
            state.panel == self.state.panel,
        ensures
            ({
                let z = zoom_step(TouchRecognizerOf { state, ..self@ }, *r);
                out.0 == z.0 && match out.1 {
                    Some(d) => z.1 == Some(d@),
                    None => z.1 is None,
                }
            }),
    {
        if !(self.plan.scale_continuous() && self.points.len() >= 2) {
            return (state, None);
        }
        let qualified: bool = self.all_fingers_down() && self.has_spread_changed(r);
        let streak: u32 = next_streak(state.pinch_streak, qualified);
        if !state.zoom_engaged {
            if streak >= PINCH_CONFIRM_FRAMES {
                return (
                    GestureState {
                        pinch_streak: streak,
                        zoom_engaged: true,
                        last_spread: r.spread,
                        ..state
                    },
                    None,
                );
            }
            return (GestureState { pinch_streak: streak, ..state }, None);
        }
        let one: Real = Real { bits: ONE };
        let deadzone: Real = Real { bits: ZOOM_DEADZONE };
        if !one.at_least(&state.last_spread) && deadzone.less(&r.spread_ratio) {
            (
                GestureState { pinch_streak: streak, last_spread: r.spread, ..state },
                Some(DecisionOf::Zoom { scale: r.spread_scale, anchor: r.centroid }),
            )
        } else {
            (GestureState { pinch_streak: streak, ..state }, None)
        }
    }

    fn run(&mut self, r: &Reading) -> (out: Vec<Decision>)
        requires
            old(self).wf(),
        ensures
            final(self).wf(),
            (final(self)@, decision_models(out@)) == run_step(old(self)@, *r),
    {
        let mut out: Vec<Decision> = one_decision(DecisionOf::Consume);
        let mut state: GestureState = self.state;
        if is_pan(&self.plan) {
            add_decision(&mut out, DecisionOf::Pan(r.centroid_delta));
            state = GestureState { last_centroid: r.centroid, ..state };
            proof {
                assert(decision_models(out@) =~= seq![
                    DecisionOf::Consume,
                    DecisionOf::Pan(r.centroid_delta),
                ]);
            }
        }
        let (next, zoom): (GestureState, Option<Decision>) = self.zoom(state, r);
        self.state = next;
        if let Some(d) = zoom {
            add_decision(&mut out, d);
        }
        out
    }

    #[verifier::spinoff_prover]
    fn navigate(&mut self, r: &Reading) -> (out: Vec<Decision>)
        requires
            old(self).wf(),
        ensures
            final(self).wf(),
            (final(self)@, decision_models(out@)) == navigate_step(old(self)@, *r),
    {
        proof {
            reveal(<PlanOf<String> as View>::view);
        }
        let mut out: Vec<Decision> = one_decision(DecisionOf::Consume);
        let state: GestureState = GestureState {
            ever_active: true,
            nav_cumulative: r.nav_cumulative,
            last_centroid: r.centroid,
            ..self.state
        };
        if state.nav_fired_swipe || state.nav_fired_pinch {
            self.state = state;
            return out;
        }
        let qualified: bool = self.all_fingers_down() && r.start_delta.at_least(
            &self.state.panel.pinch_delta,
        );
        let streak: u32 = next_streak(state.pinch_streak, qualified);
        let one: Real = Real { bits: ONE };
        let done: Option<bool> = find_completed(streak >= PINCH_CONFIRM_FRAMES, r);
        let action: Option<ThresholdAction> = match done {
            Some(true) => {
                if r.pinch_scale.less(&one) {
                    copy_threshold(&self.plan.pinch_in)
                } else {
                    copy_threshold(&self.plan.pinch_out)
                }
            },
            Some(false) => swipe_threshold_for(&self.plan, r.direction),
            None => None,
        };
        let pinched: bool = match done {
            Some(p) => p && action.is_some(),
            None => false,
        };
        let swiped: bool = match done {
            Some(p) => !p && action.is_some(),
            None => false,
        };
        self.state = GestureState {
            pinch_streak: streak,
            nav_fired_pinch: pinched,
            nav_fired_swipe: swiped,
            ..state
        };
        if let Some(a) = action {
            let fired: Action = resolve_threshold(&a, r.direction);
            add_decision(&mut out, DecisionOf::FireThreshold(fired));
            proof {
                assert(decision_models(out@) =~= seq![
                    DecisionOf::Consume,
                    DecisionOf::FireThreshold(fired@),
                ]);
            }
        }
        out
    }

    fn motion(
        &mut self,
        slot: i32,
        location: ScreenPos,
        time: u32,
        holdback: bool,
        r: &Reading,
    ) -> (out: Vec<Decision>)
        requires
            old(self).wf(),
        ensures
            final(self).wf(),
            (final(self)@, decision_models(out@)) == motion_step(
                old(self)@,
                slot,
                location,
                time,
                holdback,
                *r,
            ),
    {
        if find_slot(&self.points, slot).is_none() {
            return one_decision(DecisionOf::Consume);
        }
        self.points = with_finger(&self.points, slot, location);
        if holdback {
            return one_decision(DecisionOf::Hold);
        }
        if self.state.claims_blocked || self.plan.is_empty() {
            return one_decision(DecisionOf::Forward);
        }
        if self.plan.simultaneous() {
            if self.state.active {
                self.run(r)
            } else {
                self.seek(time, r)
            }
        } else if self.plan.translation_threshold() || self.plan.scale_threshold() {
            self.navigate(r)
        } else {
            one_decision(DecisionOf::Consume)
        }
    }

    /// The single entry point: what an event implies, given the time of the
    /// last tap, whether events are withheld, and what the fingers measure.
    pub fn process(
        &mut self,
        cfg: &Config,
        input: &TouchInput,
        last_tap: Option<u32>,
        holdback: bool,
        reading: &Reading,
    ) -> (out: Vec<Decision>)
        requires
            old(self).wf(),
        ensures
            final(self).wf(),
            (final(self)@, decision_models(out@)) == step(
                old(self)@,
                cfg.touch_gestures@,
                *input,
                last_tap,
                holdback,
                *reading,
            ),
    {
        match input.kind {
            TouchKind::Down { location, app_owns_hit } => self.down(
                cfg,
                input.slot,
                location,
                app_owns_hit,
                input.time_ms,
                last_tap,
                reading,
            ),
            TouchKind::Motion { location } => self.motion(
                input.slot,
                location,
                input.time_ms,
                holdback,
                reading,
            ),
            TouchKind::Up => self.up(input.slot, input.time_ms, holdback, last_tap, reading),
        }
    }

    /// The holdback deadline passed: the withheld buffer is delivered.
    pub fn deadline_elapsed(&self) -> (out: Vec<Decision>)
        ensures
            decision_models(out@) == seq![DecisionOf::<Seq<char>>::Flush],
    {
        one_decision(DecisionOf::Flush)
    }
}

} // verus!
