//! What the `[touch]` bindings make of a number of fingers in a context.
use vstd::prelude::*;

use crate::config::bindings;
use crate::config::bindings::{BindingContext, ContextOf};
use crate::config::types;
use crate::config::types::{
    ContinuousAction, GestureConfigEntry, GestureConfigEntryOf, GestureTrigger, ThresholdAction,
    ThresholdActionOf,
};
use crate::config::Config;

verus! {

/// The most fingers a gesture can be bound to.
pub const MAX_BOUND_FINGERS: u32 = 5;

/// The resolved behavior for a finger count and context. A plan with nothing
/// bound means that the gesture is the app's.
#[derive(Debug, PartialEq, Eq)]
pub struct PlanOf<S> {
    /// Translation axis: continuous, or a one-shot threshold.
    pub swipe: Option<GestureConfigEntryOf<S>>,
    /// Per-direction overrides, checked before the base swipe fires.
    pub swipe_up: Option<ThresholdActionOf<S>>,
    pub swipe_down: Option<ThresholdActionOf<S>>,
    pub swipe_left: Option<ThresholdActionOf<S>>,
    pub swipe_right: Option<ThresholdActionOf<S>>,
    /// Window grabs on a drag: after a recent tap, held, and both.
    pub doubletap_swipe: Option<ContinuousAction>,
    pub hold_swipe: Option<ContinuousAction>,
    pub doubletap_hold_swipe: Option<ContinuousAction>,
    /// Scale axis: continuous, or one-shot in and out.
    pub pinch: Option<ContinuousAction>,
    pub pinch_in: Option<ThresholdActionOf<S>>,
    pub pinch_out: Option<ThresholdActionOf<S>>,
    pub tap: Option<ThresholdActionOf<S>>,
    pub doubletap: Option<ThresholdActionOf<S>>,
}

pub type Plan = PlanOf<String>;

/// Model of an optional threshold action.
pub open spec fn opt_threshold(o: Option<ThresholdAction>) -> Option<ThresholdActionOf<Seq<char>>> {
    match o {
        Some(a) => Some(a@),
        None => None,
    }
}

/// Model of an optional entry.
pub open spec fn opt_entry(o: Option<GestureConfigEntry>) -> Option<
    GestureConfigEntryOf<Seq<char>>,
> {
    match o {
        Some(e) => Some(e@),
        None => None,
    }
}

impl View for PlanOf<String> {
    type V = PlanOf<Seq<char>>;

    #[verifier::opaque]
    open spec fn view(&self) -> PlanOf<Seq<char>> {
        PlanOf {
            swipe: opt_entry(self.swipe),
            swipe_up: opt_threshold(self.swipe_up),
            swipe_down: opt_threshold(self.swipe_down),
            swipe_left: opt_threshold(self.swipe_left),
            swipe_right: opt_threshold(self.swipe_right),
            doubletap_swipe: self.doubletap_swipe,
            hold_swipe: self.hold_swipe,
            doubletap_hold_swipe: self.doubletap_hold_swipe,
            pinch: self.pinch,
            pinch_in: opt_threshold(self.pinch_in),
            pinch_out: opt_threshold(self.pinch_out),
            tap: opt_threshold(self.tap),
            doubletap: opt_threshold(self.doubletap),
        }
    }
}

/// The plan with nothing bound.
pub open spec fn no_plan() -> PlanOf<Seq<char>> {
    PlanOf {
        swipe: None,
        swipe_up: None,
        swipe_down: None,
        swipe_left: None,
        swipe_right: None,
        doubletap_swipe: None,
        hold_swipe: None,
        doubletap_hold_swipe: None,
        pinch: None,
        pinch_in: None,
        pinch_out: None,
        tap: None,
        doubletap: None,
    }
}

/// Does a direction have an override?
pub open spec fn any_direction(p: PlanOf<Seq<char>>) -> bool {
    p.swipe_up is Some || p.swipe_down is Some || p.swipe_left is Some || p.swipe_right is Some
}

/// Does translation follow the fingers?
pub open spec fn translation_continuous(p: PlanOf<Seq<char>>) -> bool {
    p.swipe matches Some(GestureConfigEntryOf::Continuous(_))
}

/// Does translation fire once?
pub open spec fn translation_threshold(p: PlanOf<Seq<char>>) -> bool {
    (p.swipe matches Some(GestureConfigEntryOf::Threshold(_))) || any_direction(p)
}

/// Does scale fire once?
pub open spec fn scale_threshold(p: PlanOf<Seq<char>>) -> bool {
    p.pinch_in is Some || p.pinch_out is Some
}

/// Can a drag become a window grab before it pans?
pub open spec fn has_preemptor(p: PlanOf<Seq<char>>) -> bool {
    p.doubletap_swipe is Some || p.hold_swipe is Some || p.doubletap_hold_swipe is Some
}

/// Does the simultaneous pan and zoom engine run? A one-shot swipe claims the
/// gesture for the arbitrated engine even if a continuous zoom is also bound.
pub open spec fn simultaneous(p: PlanOf<Seq<char>>) -> bool {
    translation_continuous(p) || (p.pinch is Some && !translation_threshold(p)) || has_preemptor(p)
}

/// Does an optional action end fullscreen?
pub open spec fn maybe_ends(o: Option<ThresholdActionOf<Seq<char>>>) -> bool {
    o matches Some(a) && types::threshold_ends_fullscreen(a)
}

/// Would any binding of the plan end fullscreen if it engaged? Continuous ones
/// always do.
#[verifier::opaque]
pub open spec fn plan_ends_fullscreen(p: PlanOf<Seq<char>>) -> bool {
    ||| translation_continuous(p)
    ||| has_preemptor(p)
    ||| p.pinch is Some
    ||| (p.swipe matches Some(GestureConfigEntryOf::Threshold(a))
        && types::threshold_ends_fullscreen(a))
    ||| maybe_ends(p.swipe_up)
    ||| maybe_ends(p.swipe_down)
    ||| maybe_ends(p.swipe_left)
    ||| maybe_ends(p.swipe_right)
    ||| maybe_ends(p.pinch_in)
    ||| maybe_ends(p.pinch_out)
    ||| maybe_ends(p.tap)
    ||| maybe_ends(p.doubletap)
}

fn action_ends(o: &Option<ThresholdAction>) -> (r: bool)
    ensures
        r == maybe_ends(opt_threshold(*o)),
{
    match o {
        Some(a) => a.ends_fullscreen(),
        None => false,
    }
}

/// A copy of an optional threshold action.
pub fn copy_threshold(o: &Option<ThresholdAction>) -> (r: Option<ThresholdAction>)
    ensures
        opt_threshold(r) == opt_threshold(*o),
{
    match o {
        Some(a) => Some(a.duplicate()),
        None => None,
    }
}

impl PlanOf<String> {
    /// The plan with nothing bound.
    pub fn empty() -> (r: Plan)
        ensures
            r@ == no_plan(),
    {
        proof {
            reveal(<PlanOf<String> as View>::view);
        }
        PlanOf {
            swipe: None,
            swipe_up: None,
            swipe_down: None,
            swipe_left: None,
            swipe_right: None,
            doubletap_swipe: None,
            hold_swipe: None,
            doubletap_hold_swipe: None,
            pinch: None,
            pinch_in: None,
            pinch_out: None,
            tap: None,
            doubletap: None,
        }
    }

    fn any_direction(&self) -> (r: bool)
        ensures
            r == any_direction(self@),
    {
        proof {
            reveal(<PlanOf<String> as View>::view);
        }
        self.swipe_up.is_some() || self.swipe_down.is_some() || self.swipe_left.is_some()
            || self.swipe_right.is_some()
    }

    /// Does translation follow the fingers?
    pub fn translation_continuous(&self) -> (r: bool)
        ensures
            r == translation_continuous(self@),
    {
        proof {
            reveal(<PlanOf<String> as View>::view);
        }
        match &self.swipe {
            Some(GestureConfigEntryOf::Continuous(_)) => true,
            _ => false,
        }
    }

    /// Does translation fire once?
    pub fn translation_threshold(&self) -> (r: bool)
        ensures
            r == translation_threshold(self@),
    {
        proof {
            reveal(<PlanOf<String> as View>::view);
        }
        let base: bool = match &self.swipe {
            Some(GestureConfigEntryOf::Threshold(_)) => true,
            _ => false,
        };
        base || self.any_direction()
    }

    /// Does scale follow the fingers?
    pub fn scale_continuous(&self) -> (r: bool)
        ensures
            r == (self@.pinch is Some),
    {
        proof {
            reveal(<PlanOf<String> as View>::view);
        }
        self.pinch.is_some()
    }

    /// Does scale fire once?
    pub fn scale_threshold(&self) -> (r: bool)
        ensures
            r == scale_threshold(self@),
    {
        proof {
            reveal(<PlanOf<String> as View>::view);
        }
        self.pinch_in.is_some() || self.pinch_out.is_some()
    }

    /// Can a drag become a window grab before it pans?
    pub fn has_preemptor(&self) -> (r: bool)
        ensures
            r == has_preemptor(self@),
    {
        proof {
            reveal(<PlanOf<String> as View>::view);
        }
        self.doubletap_swipe.is_some() || self.hold_swipe.is_some()
            || self.doubletap_hold_swipe.is_some()
    }

    /// Does the simultaneous pan and zoom engine run?
    pub fn simultaneous(&self) -> (r: bool)
        ensures
            r == simultaneous(self@),
    {
        proof {
            reveal(<PlanOf<String> as View>::view);
        }
        self.translation_continuous() || (self.scale_continuous() && !self.translation_threshold())
            || self.has_preemptor()
    }

    /// Is nothing bound?
    pub fn is_empty(&self) -> (r: bool)
        ensures
            r == (self@ == no_plan()),
    {
        proof {
            reveal(<PlanOf<String> as View>::view);
        }
        self.swipe.is_none() && !self.any_direction() && !self.has_preemptor()
            && self.pinch.is_none() && !self.scale_threshold() && self.tap.is_none()
            && self.doubletap.is_none()
    }

    /// Would any binding of the plan end fullscreen if it engaged?
    pub fn ends_fullscreen(&self) -> (r: bool)
        ensures
            r == plan_ends_fullscreen(self@),
    {
        proof {
            reveal(plan_ends_fullscreen);
            reveal(<PlanOf<String> as View>::view);
        }
        let base: bool = match &self.swipe {
            Some(GestureConfigEntryOf::Threshold(a)) => a.ends_fullscreen(),
            Some(GestureConfigEntryOf::Continuous(_)) => true,
            None => false,
        };
        base || self.has_preemptor() || self.pinch.is_some() || action_ends(&self.swipe_up)
            || action_ends(&self.swipe_down) || action_ends(&self.swipe_left) || action_ends(
            &self.swipe_right,
        ) || action_ends(&self.pinch_in) || action_ends(&self.pinch_out) || action_ends(&self.tap)
            || action_ends(&self.doubletap)
    }
}

/// The continuous action of an entry, if it is one.
pub open spec fn continuous_of(e: Option<GestureConfigEntryOf<Seq<char>>>) -> Option<
    ContinuousAction,
> {
    match e {
        Some(GestureConfigEntryOf::Continuous(a)) => Some(a),
        _ => None,
    }
}

/// The threshold action of an entry, if it is one.
pub open spec fn threshold_of(e: Option<GestureConfigEntryOf<Seq<char>>>) -> Option<
    ThresholdActionOf<Seq<char>>,
> {
    match e {
        Some(GestureConfigEntryOf::Threshold(a)) => Some(a),
        _ => None,
    }
}

/// What is bound for a number of fingers in a context.
#[verifier::opaque]
pub open spec fn plan_at(
    touch: ContextOf<Seq<(GestureTrigger, GestureConfigEntryOf<Seq<char>>)>>,
    cx: BindingContext,
    n: u32,
) -> PlanOf<Seq<char>> {
    let at = |t: GestureTrigger| bindings::bound_in(touch, t, cx);
    PlanOf {
        swipe: at(GestureTrigger::Swipe { fingers: n }),
        swipe_up: threshold_of(at(GestureTrigger::SwipeUp { fingers: n })),
        swipe_down: threshold_of(at(GestureTrigger::SwipeDown { fingers: n })),
        swipe_left: threshold_of(at(GestureTrigger::SwipeLeft { fingers: n })),
        swipe_right: threshold_of(at(GestureTrigger::SwipeRight { fingers: n })),
        doubletap_swipe: continuous_of(at(GestureTrigger::DoubletapSwipe { fingers: n })),
        hold_swipe: continuous_of(at(GestureTrigger::HoldSwipe { fingers: n })),
        doubletap_hold_swipe: continuous_of(at(GestureTrigger::DoubletapHoldSwipe { fingers: n })),
        pinch: continuous_of(at(GestureTrigger::Pinch { fingers: n })),
        pinch_in: threshold_of(at(GestureTrigger::PinchIn { fingers: n })),
        pinch_out: threshold_of(at(GestureTrigger::PinchOut { fingers: n })),
        tap: threshold_of(at(GestureTrigger::Tap { fingers: n })),
        doubletap: threshold_of(at(GestureTrigger::Doubletap { fingers: n })),
    }
}

/// The tier that a number of fingers looks up: a stray further contact counts
/// as the highest bindable one.
pub open spec fn tier(fingers: usize) -> u32 {
    if fingers <= MAX_BOUND_FINGERS {
        fingers as u32
    } else {
        MAX_BOUND_FINGERS
    }
}

/// Is anything bound above a tier?
pub open spec fn bound_above(
    touch: ContextOf<Seq<(GestureTrigger, GestureConfigEntryOf<Seq<char>>)>>,
    cx: BindingContext,
    n: u32,
) -> bool {
    exists|k: u32| n < k <= MAX_BOUND_FINGERS && #[trigger] plan_at(touch, cx, k) != no_plan()
}

fn lookup_continuous(cfg: &Config, t: GestureTrigger, cx: BindingContext) -> (r: Option<
    ContinuousAction,
>)
    ensures
        r == continuous_of(bindings::bound_in(cfg.touch_gestures@, t, cx)),
{
    match cfg.touch_lookup(&t, cx) {
        Some(GestureConfigEntryOf::Continuous(a)) => Some(*a),
        _ => None,
    }
}

fn lookup_threshold(cfg: &Config, t: GestureTrigger, cx: BindingContext) -> (r: Option<
    ThresholdAction,
>)
    ensures
        opt_threshold(r) == threshold_of(bindings::bound_in(cfg.touch_gestures@, t, cx)),
{
    match cfg.touch_lookup(&t, cx) {
        Some(GestureConfigEntryOf::Threshold(a)) => Some(a.duplicate()),
        _ => None,
    }
}

/// What is bound for a number of fingers in a context.
pub fn resolve_plan_at(cfg: &Config, cx: BindingContext, n: u32) -> (r: Plan)
    ensures
        r@ == plan_at(cfg.touch_gestures@, cx, n),
{
    proof {
        reveal(plan_at);
        reveal(<PlanOf<String> as View>::view);
    }
    let swipe: Option<GestureConfigEntry> = match cfg.touch_lookup(
        &GestureTrigger::Swipe { fingers: n },
        cx,
    ) {
        Some(e) => Some(e.duplicate()),
        None => None,
    };
    PlanOf {
        swipe,
        swipe_up: lookup_threshold(cfg, GestureTrigger::SwipeUp { fingers: n }, cx),
        swipe_down: lookup_threshold(cfg, GestureTrigger::SwipeDown { fingers: n }, cx),
        swipe_left: lookup_threshold(cfg, GestureTrigger::SwipeLeft { fingers: n }, cx),
        swipe_right: lookup_threshold(cfg, GestureTrigger::SwipeRight { fingers: n }, cx),
        doubletap_swipe: lookup_continuous(cfg, GestureTrigger::DoubletapSwipe { fingers: n }, cx),
        hold_swipe: lookup_continuous(cfg, GestureTrigger::HoldSwipe { fingers: n }, cx),
        doubletap_hold_swipe: lookup_continuous(
            cfg,
            GestureTrigger::DoubletapHoldSwipe { fingers: n },
            cx,
        ),
        pinch: lookup_continuous(cfg, GestureTrigger::Pinch { fingers: n }, cx),
        pinch_in: lookup_threshold(cfg, GestureTrigger::PinchIn { fingers: n }, cx),
        pinch_out: lookup_threshold(cfg, GestureTrigger::PinchOut { fingers: n }, cx),
        tap: lookup_threshold(cfg, GestureTrigger::Tap { fingers: n }, cx),
        doubletap: lookup_threshold(cfg, GestureTrigger::Doubletap { fingers: n }, cx),
    }
}

/// Is anything bound above a tier?
pub fn any_bound_above(cfg: &Config, cx: BindingContext, n: u32) -> (r: bool)
    requires
        n <= MAX_BOUND_FINGERS,
    ensures
        r == bound_above(cfg.touch_gestures@, cx, n),
{
    let mut k: u32 = n + 1;
    while k <= MAX_BOUND_FINGERS
        invariant
            n < k <= MAX_BOUND_FINGERS + 1,
            forall|j: u32|
                n < j < k ==> #[trigger] plan_at(cfg.touch_gestures@, cx, j) == no_plan(),
        decreases MAX_BOUND_FINGERS + 1 - k,
    {
        if !resolve_plan_at(cfg, cx, k).is_empty() {
            return true;
        }
        k = k + 1;
    }
    false
}

/// The tier that a number of fingers looks up.
pub fn lookup_tier(fingers: usize) -> (r: u32)
    ensures
        r == tier(fingers),
        r <= MAX_BOUND_FINGERS,
{
    if fingers <= MAX_BOUND_FINGERS as usize {
        fingers as u32
    } else {
        MAX_BOUND_FINGERS
    }
}

} // verus!
