//! The touch grab around the recognizer: it carries out what the recognizer
//! decides, keeps the focus of each contact and the events that are withheld,
//! and says what a drag is handed to.
use vstd::prelude::*;

use crate::config::bindings::ContextOf;
use crate::config::numbers;
use crate::config::numbers::Real;
use crate::config::types::{ActionOf, ContinuousAction, GestureConfigEntryOf, GestureTrigger};
use crate::config::Config;
use crate::geometry::Size;
use crate::grabs::touch_fingers;
use crate::grabs::touch_fingers::ScreenPos;
use crate::grabs::touch_plan;
use crate::grabs::touch_plan::PlanOf;
use crate::grabs::touch_recognizer;
use crate::grabs::touch_recognizer::{
    Decision, DecisionOf, PanelScale, Reading, TapOutcomeOf, TouchInput, TouchKind,
    TouchRecognizer, TouchRecognizerOf,
};

verus! {

/// The bits of the density assumed where none is known, 4 px/mm (~96 dpi).
pub const FALLBACK_DENSITY: u64 = 0x4010_0000_0000_0000;

/// The bits of the least plausible density, 1.5 px/mm.
pub const MIN_DENSITY: u64 = 0x3ff8_0000_0000_0000;

/// The bits of the density that is no longer plausible, 20 px/mm.
pub const MAX_DENSITY: u64 = 0x4034_0000_0000_0000;

/// Is a density plausible? Cheap panels report bogus sizes.
pub open spec fn plausible(d: Option<Real>) -> bool {
    d matches Some(d) && numbers::at_least(d, Real { bits: MIN_DENSITY }) && numbers::less(
        d,
        Real { bits: MAX_DENSITY },
    )
}

/// The density of a panel: of the digitizer if plausible, since the finger
/// travels across it, else of the output, else the fallback.
pub open spec fn density_of(
    mode: Option<Size>,
    digitizer: Option<Real>,
    output: Option<Real>,
) -> Real {
    let usable = mode matches Some(m) && m.w > 0 && m.h > 0;
    if usable && plausible(digitizer) {
        digitizer->0
    } else if usable && plausible(output) {
        output->0
    } else {
        Real { bits: FALLBACK_DENSITY }
    }
}

fn is_plausible(d: Option<Real>) -> (r: bool)
    ensures
        r == plausible(d),
{
    let low: Real = Real { bits: MIN_DENSITY };
    let high: Real = Real { bits: MAX_DENSITY };
    match d {
        Some(d) => d.at_least(&low) && d.less(&high),
        None => false,
    }
}

/// Logical pixels per millimetre of a panel, given its current mode and the
/// densities that the sizes of the digitizer and of the output come to.
pub fn output_px_per_mm(mode: Option<Size>, digitizer: Option<Real>, output: Option<Real>) -> (r:
    Real)
    ensures
        r == density_of(mode, digitizer, output),
{
    let usable: bool = match mode {
        Some(m) => m.w > 0 && m.h > 0,
        None => false,
    };
    if usable {
        if is_plausible(digitizer) {
            if let Some(d) = digitizer {
                return d;
            }
        } else if is_plausible(output) {
            if let Some(d) = output {
                return d;
            }
        }
    }
    Real { bits: FALLBACK_DENSITY }
}

/// Whatever is reported, the density used is plausible.
pub proof fn lemma_density_is_plausible(
    mode: Option<Size>,
    digitizer: Option<Real>,
    output: Option<Real>,
)
    ensures
        plausible(Some(density_of(mode, digitizer, output))),
{
}

/// A window grab that a drag is handed to.
#[derive(Clone, Copy, Debug, PartialEq, Eq, Structural)]
pub enum WindowGrab {
    /// Move the window, or its cluster.
    Move { cluster: bool },
    /// Resize the window, or its cluster.
    Resize { snapped: bool },
}

/// The window grab that an action stands for, none where it is no window grab.
pub fn window_grab(action: ContinuousAction) -> (r: Option<WindowGrab>)
    ensures
        r == (match action {
            ContinuousAction::MoveWindow => Some(WindowGrab::Move { cluster: false }),
            ContinuousAction::MoveSnappedWindows => Some(WindowGrab::Move { cluster: true }),
            ContinuousAction::ResizeWindow => Some(WindowGrab::Resize { snapped: false }),
            ContinuousAction::ResizeWindowSnapped => Some(WindowGrab::Resize { snapped: true }),
            _ => None,
        }),
{
    match action {
        ContinuousAction::MoveWindow => Some(WindowGrab::Move { cluster: false }),
        ContinuousAction::MoveSnappedWindows => Some(WindowGrab::Move { cluster: true }),
        ContinuousAction::ResizeWindow => Some(WindowGrab::Resize { snapped: false }),
        ContinuousAction::ResizeWindowSnapped => Some(WindowGrab::Resize { snapped: true }),
        _ => None,
    }
}

/// A window that fingers hit.
#[derive(Clone, Copy, Debug, PartialEq, Eq, Structural)]
pub struct Hit {
    pub is_widget: bool,
    /// A window of the canvas, neither a widget nor pinned.
    pub is_canvas_window: bool,
}

/// What a drag is handed to.
#[derive(Clone, Copy, Debug, PartialEq, Eq, Structural)]
pub enum Handoff {
    /// Nothing: the drag keeps panning.
    Refuse,
    /// A pinned window, in screen space. It has no cluster.
    Pinned,
    /// A window on the canvas, with its cluster or alone.
    Canvas { cluster: bool },
}

/// What a drag is handed to: pinned windows sit above the canvas, widgets are
/// grab-proof, and only canvas windows have a cluster.
pub fn hand_off(pinned: Option<Hit>, canvas: Option<Hit>, cluster: bool) -> (r: Handoff)
    ensures
        r == (match pinned {
            Some(h) => if h.is_widget {
                Handoff::Refuse
            } else {
                Handoff::Pinned
            },
            None => match canvas {
                Some(h) if h.is_canvas_window => Handoff::Canvas { cluster },
                _ => Handoff::Refuse,
            },
        }),
{
    match pinned {
        Some(h) => if h.is_widget {
            Handoff::Refuse
        } else {
            Handoff::Pinned
        },
        None => match canvas {
            Some(h) => if h.is_canvas_window {
                Handoff::Canvas { cluster }
            } else {
                Handoff::Refuse
            },
            None => Handoff::Refuse,
        },
    }
}

/// Which window a deferred center is for.
#[derive(Clone, Copy, Debug, PartialEq, Eq, Structural)]
pub enum CenterTarget {
    /// The one under the tap.
    Under,
    /// The focused one.
    Focused,
}

/// The window that a deferred center is for: the one under the tap, else the
/// focused one, as far as it is on the canvas.
pub fn center_target(under: Option<Hit>, focused: Option<Hit>) -> (r: Option<CenterTarget>)
    ensures
        r == (if under matches Some(h) && h.is_canvas_window {
            Some(CenterTarget::Under)
        } else if focused matches Some(h) && h.is_canvas_window {
            Some(CenterTarget::Focused)
        } else {
            None
        }),
{
    if let Some(h) = under {
        if h.is_canvas_window {
            return Some(CenterTarget::Under);
        }
    }
    if let Some(h) = focused {
        if h.is_canvas_window {
            return Some(CenterTarget::Focused);
        }
    }
    None
}

// ── Contacts ─────────────────────────────────────────────────────────

/// The surface that a contact is delivered to, and where its origin lies.
#[derive(Clone, Copy, Debug, PartialEq, Eq, Structural)]
pub struct Focus {
    pub target: u64,
    pub origin: ScreenPos,
}

/// Where a contact is delivered.
#[derive(Clone, Copy, Debug, PartialEq, Eq, Structural)]
pub enum Place {
    /// At a point of the canvas.
    Canvas(ScreenPos),
    /// At the point of the canvas under a screen position.
    Under(ScreenPos),
    /// At a screen position plus the offset that the protocol froze when the
    /// contact went down on a screen-space target.
    Shifted { at: ScreenPos, offset: ScreenPos },
}

/// What a contact went down on.
#[derive(Clone, Copy, Debug, PartialEq, Eq, Structural)]
pub struct SlotDown {
    pub slot: i32,
    pub focus: Option<Focus>,
    /// Canvas less screen position at down, for screen-space targets.
    pub screen_delta: Option<ScreenPos>,
}

/// A touch event as the compositor sees it.
#[derive(Clone, Copy, Debug, PartialEq, Eq, Structural)]
pub struct Contact {
    pub slot: i32,
    pub time: u32,
    pub kind: ContactKind,
}

#[derive(Clone, Copy, Debug, PartialEq, Eq, Structural)]
pub enum ContactKind {
    Down {
        /// On the canvas.
        location: ScreenPos,
        /// On the screen.
        screen: ScreenPos,
        /// Canvas less screen position.
        delta: ScreenPos,
        /// What the hit test found.
        focus: Option<Focus>,
        /// It found a screen-space target.
        over_screen_space: bool,
        /// The fullscreen window of the touched output.
        fullscreen: Option<u64>,
    },
    Motion { location: ScreenPos, screen: ScreenPos },
    Up,
}

/// An event that is withheld from its client.
#[derive(Clone, Copy, Debug, PartialEq, Eq, Structural)]
pub enum HeldTouchEvent {
    Down { slot: i32, focus: Option<Focus>, location: ScreenPos, time: u32 },
    Motion { slot: i32, place: Place, time: u32 },
    Up { slot: i32, time: u32 },
}

/// What the caller carries out for a contact, in order.
#[derive(Debug, PartialEq, Eq)]
pub enum EffectOf<S> {
    /// Deliver a contact going down, to its focus if it has one.
    Down { slot: i32, focus: Option<Focus>, location: ScreenPos, time: u32 },
    /// Deliver a moving contact.
    Motion { slot: i32, focus: Option<Focus>, place: Place, time: u32 },
    /// Deliver a lifted contact.
    Up { slot: i32, time: u32 },
    /// End the frame of what was delivered.
    Frame,
    /// Revoke the touch sequence of the client.
    CancelApp,
    /// Exit the fullscreen of this window on the touched output.
    ExitFullscreen(u64),
    /// Pan the viewport.
    Pan { delta: ScreenPos, time: u32 },
    /// Zoom around a position.
    Zoom { scale: Real, anchor: ScreenPos },
    /// Execute an action.
    Execute(ActionOf<S>),
    /// Hand the drag to a window grab.
    StartWindowGrab(ContinuousAction),
    /// Coast.
    Momentum,
    /// Raise and focus the window under a position, and act on the outcome.
    Tap { focus_at: ScreenPos, outcome: TapOutcomeOf<S> },
    /// Tear the grab down.
    Unset,
}

pub type Effect = EffectOf<String>;

impl View for EffectOf<String> {
    type V = EffectOf<Seq<char>>;

    open spec fn view(&self) -> EffectOf<Seq<char>> {
        match *self {
            EffectOf::Down { slot, focus, location, time } => EffectOf::Down {
                slot,
                focus,
                location,
                time,
            },
            EffectOf::Motion { slot, focus, place, time } => EffectOf::Motion {
                slot,
                focus,
                place,
                time,
            },
            EffectOf::Up { slot, time } => EffectOf::Up { slot, time },
            EffectOf::Frame => EffectOf::Frame,
            EffectOf::CancelApp => EffectOf::CancelApp,
            EffectOf::ExitFullscreen(w) => EffectOf::ExitFullscreen(w),
            EffectOf::Pan { delta, time } => EffectOf::Pan { delta, time },
            EffectOf::Zoom { scale, anchor } => EffectOf::Zoom { scale, anchor },
            EffectOf::Execute(a) => EffectOf::Execute(a@),
            EffectOf::StartWindowGrab(a) => EffectOf::StartWindowGrab(a),
            EffectOf::Momentum => EffectOf::Momentum,
            EffectOf::Tap { focus_at, outcome } => EffectOf::Tap { focus_at, outcome: outcome@ },
            EffectOf::Unset => EffectOf::Unset,
        }
    }
}

/// Models of effects.
pub open spec fn effect_models(v: Seq<Effect>) -> Seq<EffectOf<Seq<char>>> {
    v.map_values(|e: Effect| e@)
}

/// The touch state that outlives a grab. `B` holds the withheld events.
#[derive(Debug, PartialEq, Eq)]
pub struct TouchSessionOf<B> {
    /// The withheld events, in order.
    pub holdback: Option<B>,
    /// Time of the last tap.
    pub last_tap: Option<u32>,
    /// The window whose fullscreen a gesture has just ended.
    pub pre_exited: Option<u64>,
    /// Withheld events are being delivered through the grab.
    pub replaying: bool,
}

pub type TouchSession = TouchSessionOf<Vec<HeldTouchEvent>>;

impl View for TouchSessionOf<Vec<HeldTouchEvent>> {
    type V = TouchSessionOf<Seq<HeldTouchEvent>>;

    open spec fn view(&self) -> TouchSessionOf<Seq<HeldTouchEvent>> {
        TouchSessionOf {
            holdback: match self.holdback {
                Some(b) => Some(b@),
                None => None,
            },
            last_tap: self.last_tap,
            pre_exited: self.pre_exited,
            replaying: self.replaying,
        }
    }
}

// ── Slots ────────────────────────────────────────────────────────────

/// The slots but for one.
pub open spec fn slots_without(slots: Seq<SlotDown>, slot: i32) -> Seq<SlotDown>
    decreases slots.len(),
{
    if slots.len() == 0 {
        slots
    } else {
        let before = slots_without(slots.drop_last(), slot);
        if slots.last().slot == slot {
            before
        } else {
            before.push(slots.last())
        }
    }
}

/// What a slot went down on.
pub open spec fn slot_down(slots: Seq<SlotDown>, slot: i32) -> Option<SlotDown>
    decreases slots.len(),
{
    if slots.len() == 0 {
        None
    } else if slots.last().slot == slot {
        Some(slots.last())
    } else {
        slot_down(slots.drop_last(), slot)
    }
}

/// The slots once a contact has gone down: one that is down already is
/// replaced.
pub open spec fn slots_at(slots: Seq<SlotDown>, c: Contact) -> Seq<SlotDown> {
    match c.kind {
        ContactKind::Down { delta, focus, over_screen_space, .. } => {
            let screen_delta = if focus is Some && over_screen_space {
                Some(delta)
            } else {
                None
            };
            slots_without(slots, c.slot).push(SlotDown { slot: c.slot, focus, screen_delta })
        },
        _ => slots,
    }
}

/// The slots once a contact is dealt with: a lifted one is gone.
pub open spec fn slots_after(slots: Seq<SlotDown>, c: Contact) -> Seq<SlotDown> {
    match c.kind {
        ContactKind::Up => slots_without(slots, c.slot),
        _ => slots_at(slots, c),
    }
}

fn without_slot(slots: &Vec<SlotDown>, slot: i32) -> (r: Vec<SlotDown>)
    ensures
        r@ == slots_without(slots@, slot),
{
    let n: usize = slots.len();
    let mut out: Vec<SlotDown> = Vec::new();
    let mut i: usize = 0;
    while i < n
        invariant
            i <= n,
            n == slots@.len(),
            out@ == slots_without(slots@.take(i as int), slot),
        decreases n - i,
    {
        proof {
            assert(slots@.take(i + 1).drop_last() =~= slots@.take(i as int));
        }
        if slots[i].slot != slot {
            out.push(slots[i]);
        }
        i = i + 1;
    }
    proof {
        assert(slots@.take(n as int) =~= slots@);
    }
    out
}

fn find_down(slots: &Vec<SlotDown>, slot: i32) -> (r: Option<SlotDown>)
    ensures
        r == slot_down(slots@, slot),
{
    let mut i: usize = slots.len();
    proof {
        assert(slots@.take(i as int) =~= slots@);
    }
    while i > 0
        invariant
            i <= slots@.len(),
            slot_down(slots@, slot) == slot_down(slots@.take(i as int), slot),
        decreases i,
    {
        proof {
            assert(slots@.take(i as int).drop_last() =~= slots@.take(i - 1));
        }
        if slots[i - 1].slot == slot {
            return Some(slots[i - 1]);
        }
        i = i - 1;
    }
    None
}

// ── What a decision comes to ─────────────────────────────────────────

/// The event that the recognizer sees.
pub open spec fn input_of(c: Contact) -> TouchInput {
    TouchInput {
        time_ms: c.time,
        slot: c.slot,
        kind: match c.kind {
            ContactKind::Down { screen, focus, .. } => TouchKind::Down {
                location: screen,
                app_owns_hit: focus is Some,
            },
            ContactKind::Motion { screen, .. } => TouchKind::Motion { location: screen },
            ContactKind::Up => TouchKind::Up,
        },
    }
}

/// Where a motion is delivered: shifted into the screen basis for a
/// screen-space target, else where it is.
pub open spec fn forward_place(
    slots: Seq<SlotDown>,
    slot: i32,
    location: ScreenPos,
    screen: ScreenPos,
) -> Place {
    match slot_down(slots, slot) {
        Some(SlotDown { screen_delta: Some(offset), .. }) => Place::Shifted { at: screen, offset },
        _ => Place::Canvas(location),
    }
}

/// The surface that a slot went down on.
pub open spec fn stored_focus(slots: Seq<SlotDown>, slot: i32) -> Option<Focus> {
    match slot_down(slots, slot) {
        Some(d) => d.focus,
        None => None,
    }
}

/// The event delivered to the client that owns it.
pub open spec fn forwarded(slots: Seq<SlotDown>, c: Contact) -> EffectOf<Seq<char>> {
    match c.kind {
        ContactKind::Down { location, focus, .. } => EffectOf::Down {
            slot: c.slot,
            focus,
            location,
            time: c.time,
        },
        ContactKind::Motion { location, screen } => EffectOf::Motion {
            slot: c.slot,
            focus: stored_focus(slots, c.slot),
            place: forward_place(slots, c.slot, location, screen),
            time: c.time,
        },
        ContactKind::Up => EffectOf::Up { slot: c.slot, time: c.time },
    }
}

/// The event delivered to nobody. A lift has no focus to leave out.
pub open spec fn consumed(c: Contact) -> EffectOf<Seq<char>> {
    match c.kind {
        ContactKind::Down { location, .. } => EffectOf::Down {
            slot: c.slot,
            focus: None,
            location,
            time: c.time,
        },
        ContactKind::Motion { location, .. } => EffectOf::Motion {
            slot: c.slot,
            focus: None,
            place: Place::Canvas(location),
            time: c.time,
        },
        ContactKind::Up => EffectOf::Up { slot: c.slot, time: c.time },
    }
}

/// The event to withhold.
pub open spec fn held_event(slots: Seq<SlotDown>, c: Contact) -> HeldTouchEvent {
    match c.kind {
        ContactKind::Down { location, focus, .. } => HeldTouchEvent::Down {
            slot: c.slot,
            focus,
            location,
            time: c.time,
        },
        ContactKind::Motion { location, screen } => HeldTouchEvent::Motion {
            slot: c.slot,
            place: forward_place(slots, c.slot, location, screen),
            time: c.time,
        },
        ContactKind::Up => HeldTouchEvent::Up { slot: c.slot, time: c.time },
    }
}

/// The buffer with one more event.
pub open spec fn withheld(b: Option<Seq<HeldTouchEvent>>, e: HeldTouchEvent) -> Seq<
    HeldTouchEvent,
> {
    match b {
        Some(b) => b.push(e),
        None => seq![e],
    }
}

/// How a withheld event is delivered.
pub open spec fn delivery(e: HeldTouchEvent) -> EffectOf<Seq<char>> {
    match e {
        HeldTouchEvent::Down { slot, focus, location, time } => EffectOf::Down {
            slot,
            focus,
            location,
            time,
        },
        HeldTouchEvent::Motion { slot, place, time } => EffectOf::Motion {
            slot,
            focus: None,
            place,
            time,
        },
        HeldTouchEvent::Up { slot, time } => EffectOf::Up { slot, time },
    }
}

/// The withheld events delivered in order, in one frame.
pub open spec fn flushed(b: Option<Seq<HeldTouchEvent>>) -> Seq<EffectOf<Seq<char>>> {
    match b {
        Some(b) => b.map_values(|e: HeldTouchEvent| delivery(e)).push(EffectOf::Frame),
        None => Seq::empty(),
    }
}

/// The contacts of a client that an escalation moves in place, every one but
/// the new one: the protocol only revokes a contact that has moved since its
/// last frame.
pub open spec fn replayed(
    slots: Seq<SlotDown>,
    points: Seq<(i32, ScreenPos)>,
    c: Contact,
) -> Seq<EffectOf<Seq<char>>>
    decreases slots.len(),
{
    if slots.len() == 0 {
        Seq::empty()
    } else {
        let before = replayed(slots.drop_last(), points, c);
        let s = slots.last();
        match touch_fingers::position(points, s.slot) {
            Some(at) if s.slot != c.slot && s.focus is Some => before.push(
                EffectOf::Motion {
                    slot: s.slot,
                    focus: None,
                    place: match s.screen_delta {
                        Some(offset) => Place::Shifted { at, offset },
                        None => Place::Under(at),
                    },
                    time: c.time,
                },
            ),
            _ => before,
        }
    }
}

/// What one decision makes of the touch state, and what is carried out.
pub open spec fn carry_step(
    s: TouchSessionOf<Seq<HeldTouchEvent>>,
    slots: Seq<SlotDown>,
    points: Seq<(i32, ScreenPos)>,
    c: Contact,
    d: DecisionOf<Seq<char>>,
) -> (TouchSessionOf<Seq<HeldTouchEvent>>, Seq<EffectOf<Seq<char>>>) {
    match d {
        DecisionOf::Forward => (s, seq![forwarded(slots, c)]),
        DecisionOf::Consume => (s, seq![consumed(c)]),
        DecisionOf::Hold => (
            TouchSessionOf {
                holdback: Some(withheld(s.holdback, held_event(slots, c))),
                ..s
            },
            Seq::empty(),
        ),
        DecisionOf::Flush => (TouchSessionOf { holdback: None, ..s }, flushed(s.holdback)),
        DecisionOf::Discard => (TouchSessionOf { holdback: None, ..s }, Seq::empty()),
        DecisionOf::CancelAppSequence => (
            s,
            replayed(slots, points, c).push(EffectOf::CancelApp),
        ),
        DecisionOf::PreExitFullscreen => match c.kind {
            ContactKind::Down { fullscreen: Some(w), .. } => (
                TouchSessionOf { pre_exited: Some(w), ..s },
                seq![EffectOf::ExitFullscreen(w)],
            ),
            _ => (s, Seq::empty()),
        },
        DecisionOf::Pan(delta) => (s, seq![EffectOf::Pan { delta, time: c.time }]),
        DecisionOf::Zoom { scale, anchor } => (s, seq![EffectOf::Zoom { scale, anchor }]),
        DecisionOf::FireThreshold(a) => (s, seq![EffectOf::Execute(a)]),
        DecisionOf::StartWindowGrab { action } => (s, seq![EffectOf::StartWindowGrab(action)]),
        DecisionOf::Momentum => (s, seq![EffectOf::Momentum]),
        DecisionOf::Tap { focus_at, set_last_tap, outcome } => (
            TouchSessionOf { last_tap: set_last_tap, ..s },
            seq![EffectOf::Tap { focus_at, outcome }],
        ),
        DecisionOf::UnsetGrab => (unset_session(s), seq![EffectOf::Unset]),
    }
}

/// The touch state once the grab is torn down: nothing may reach the next
/// sequence.
pub open spec fn unset_session(s: TouchSessionOf<Seq<HeldTouchEvent>>) -> TouchSessionOf<
    Seq<HeldTouchEvent>,
> {
    TouchSessionOf { holdback: None, pre_exited: None, ..s }
}

/// What decisions make of the touch state one after the other, and all that is
/// carried out.
pub open spec fn carried(
    s: TouchSessionOf<Seq<HeldTouchEvent>>,
    slots: Seq<SlotDown>,
    points: Seq<(i32, ScreenPos)>,
    c: Contact,
    ds: Seq<DecisionOf<Seq<char>>>,
) -> (TouchSessionOf<Seq<HeldTouchEvent>>, Seq<EffectOf<Seq<char>>>)
    decreases ds.len(),
{
    if ds.len() == 0 {
        (s, Seq::empty())
    } else {
        let (before, done) = carried(s, slots, points, c, ds.drop_last());
        let (after, more) = carry_step(before, slots, points, c, ds.last());
        (after, done + more)
    }
}

// ── The grab ─────────────────────────────────────────────────────────

/// A grab of the whole touch sequence, from the first contact to the last lift.
/// `K` holds what the contacts went down on, `C` the recognizer.
#[derive(Debug, PartialEq, Eq)]
pub struct TouchGestureGrabOf<K, C> {
    pub slots: K,
    pub core: C,
}

pub type TouchGestureGrab = TouchGestureGrabOf<Vec<SlotDown>, TouchRecognizer>;

impl View for TouchGestureGrabOf<Vec<SlotDown>, TouchRecognizer> {
    type V = TouchGestureGrabOf<
        Seq<SlotDown>,
        TouchRecognizerOf<Seq<(i32, ScreenPos)>, PlanOf<Seq<char>>>,
    >;

    open spec fn view(&self) -> TouchGestureGrabOf<
        Seq<SlotDown>,
        TouchRecognizerOf<Seq<(i32, ScreenPos)>, PlanOf<Seq<char>>>,
    > {
        TouchGestureGrabOf { slots: self.slots@, core: self.core@ }
    }
}

/// What a contact makes of the grab and of the touch state, and what is carried
/// out. While withheld events are delivered through the grab, every contact
/// passes through.
pub open spec fn contact_step(
    g: TouchGestureGrabOf<
        Seq<SlotDown>,
        TouchRecognizerOf<Seq<(i32, ScreenPos)>, PlanOf<Seq<char>>>,
    >,
    s: TouchSessionOf<Seq<HeldTouchEvent>>,
    touch: ContextOf<Seq<(GestureTrigger, GestureConfigEntryOf<Seq<char>>)>>,
    c: Contact,
    r: Reading,
) -> (
    TouchGestureGrabOf<
        Seq<SlotDown>,
        TouchRecognizerOf<Seq<(i32, ScreenPos)>, PlanOf<Seq<char>>>,
    >,
    TouchSessionOf<Seq<HeldTouchEvent>>,
    Seq<EffectOf<Seq<char>>>,
) {
    if s.replaying {
        (g, s, seq![passed(c)])
    } else {
        let (core, ds) = touch_recognizer::step(
            g.core,
            touch,
            input_of(c),
            s.last_tap,
            s.holdback is Some,
            r,
        );
        let (session, out) = carried(s, slots_at(g.slots, c), core.points, c, ds);
        (TouchGestureGrabOf { slots: slots_after(g.slots, c), core }, session, out)
    }
}

/// The event passed through as it is.
pub open spec fn passed(c: Contact) -> EffectOf<Seq<char>> {
    match c.kind {
        ContactKind::Down { location, focus, .. } => EffectOf::Down {
            slot: c.slot,
            focus,
            location,
            time: c.time,
        },
        _ => consumed(c),
    }
}

fn to_input(c: &Contact) -> (r: TouchInput)
    ensures
        r == input_of(*c),
{
    let kind: TouchKind = match c.kind {
        ContactKind::Down { screen, focus, .. } => TouchKind::Down {
            location: screen,
            app_owns_hit: focus.is_some(),
        },
        ContactKind::Motion { screen, .. } => TouchKind::Motion { location: screen },
        ContactKind::Up => TouchKind::Up,
    };
    TouchInput { time_ms: c.time, slot: c.slot, kind }
}

fn place_of(slots: &Vec<SlotDown>, slot: i32, location: ScreenPos, screen: ScreenPos) -> (r: Place)
    ensures
        r == forward_place(slots@, slot, location, screen),
{
    match find_down(slots, slot) {
        Some(d) => match d.screen_delta {
            Some(offset) => Place::Shifted { at: screen, offset },
            None => Place::Canvas(location),
        },
        None => Place::Canvas(location),
    }
}

fn focus_of(slots: &Vec<SlotDown>, slot: i32) -> (r: Option<Focus>)
    ensures
        r == stored_focus(slots@, slot),
{
    match find_down(slots, slot) {
        Some(d) => d.focus,
        None => None,
    }
}

fn forward(slots: &Vec<SlotDown>, c: &Contact) -> (r: Effect)
    ensures
        r@ == forwarded(slots@, *c),
{
    match c.kind {
        ContactKind::Down { location, focus, .. } => EffectOf::Down {
            slot: c.slot,
            focus,
            location,
            time: c.time,
        },
        ContactKind::Motion { location, screen } => EffectOf::Motion {
            slot: c.slot,
            focus: focus_of(slots, c.slot),
            place: place_of(slots, c.slot, location, screen),
            time: c.time,
        },
        ContactKind::Up => EffectOf::Up { slot: c.slot, time: c.time },
    }
}

fn consume(c: &Contact) -> (r: Effect)
    ensures
        r@ == consumed(*c),
{
    match c.kind {
        ContactKind::Down { location, .. } => EffectOf::Down {
            slot: c.slot,
            focus: None,
            location,
            time: c.time,
        },
        ContactKind::Motion { location, .. } => EffectOf::Motion {
            slot: c.slot,
            focus: None,
            place: Place::Canvas(location),
            time: c.time,
        },
        ContactKind::Up => EffectOf::Up { slot: c.slot, time: c.time },
    }
}

fn pass(c: &Contact) -> (r: Effect)
    ensures
        r@ == passed(*c),
{
    match c.kind {
        ContactKind::Down { location, focus, .. } => EffectOf::Down {
            slot: c.slot,
            focus,
            location,
            time: c.time,
        },
        _ => consume(c),
    }
}

fn hold_back(slots: &Vec<SlotDown>, c: &Contact) -> (r: HeldTouchEvent)
    ensures
        r == held_event(slots@, *c),
{
    match c.kind {
        ContactKind::Down { location, focus, .. } => HeldTouchEvent::Down {
            slot: c.slot,
            focus,
            location,
            time: c.time,
        },
        ContactKind::Motion { location, screen } => HeldTouchEvent::Motion {
            slot: c.slot,
            place: place_of(slots, c.slot, location, screen),
            time: c.time,
        },
        ContactKind::Up => HeldTouchEvent::Up { slot: c.slot, time: c.time },
    }
}

fn deliver(e: HeldTouchEvent) -> (r: Effect)
    ensures
        r@ == delivery(e),
{
    match e {
        HeldTouchEvent::Down { slot, focus, location, time } => EffectOf::Down {
            slot,
            focus,
            location,
            time,
        },
        HeldTouchEvent::Motion { slot, place, time } => EffectOf::Motion {
            slot,
            focus: None,
            place,
            time,
        },
        HeldTouchEvent::Up { slot, time } => EffectOf::Up { slot, time },
    }
}

proof fn lemma_effect_push(v: Seq<Effect>, e: Effect)
    ensures
        effect_models(v.push(e)) == effect_models(v).push(e@),
{
    assert(effect_models(v.push(e)) =~= effect_models(v).push(e@));
}

impl TouchSessionOf<Vec<HeldTouchEvent>> {
    /// No touch yet.
    pub fn new() -> (r: TouchSession)
        ensures
            r@ == (TouchSessionOf::<Seq<HeldTouchEvent>> {
                holdback: None,
                last_tap: None,
                pre_exited: None,
                replaying: false,
            }),
    {
        TouchSessionOf { holdback: None, last_tap: None, pre_exited: None, replaying: false }
    }

    fn hold(&mut self, e: HeldTouchEvent)
        ensures
            final(self)@ == (TouchSessionOf {
                holdback: Some(withheld(old(self)@.holdback, e)),
                ..old(self)@
            }),
    {
        let mut b: Vec<HeldTouchEvent> = match self.holdback.take() {
            Some(b) => b,
            None => Vec::new(),
        };
        let ghost before = b@;
        b.push(e);
        proof {
            assert(before.push(e) =~= withheld(old(self)@.holdback, e));
        }
        self.holdback = Some(b);
    }

    /// The withheld events are taken and delivered in order, in one frame.
    pub fn flush(&mut self, out: &mut Vec<Effect>)
        ensures
            final(self)@ == (TouchSessionOf { holdback: None, ..old(self)@ }),
            effect_models(final(out)@) == effect_models(old(out)@) + flushed(old(self)@.holdback),
    {
        match self.holdback.take() {
            None => {
                proof {
                    assert(effect_models(out@) =~= effect_models(old(out)@) + flushed(
                        old(self)@.holdback,
                    ));
                }
            },
            Some(b) => {
                let n: usize = b.len();
                let mut i: usize = 0;
                while i < n
                    invariant
                        i <= n,
                        n == b@.len(),
                        effect_models(out@) =~= effect_models(old(out)@) + b@.take(
                            i as int,
                        ).map_values(|e: HeldTouchEvent| delivery(e)),
                    decreases n - i,
                {
                    let e: Effect = deliver(b[i]);
                    proof {
                        lemma_effect_push(out@, e);
                        assert(b@.take(i + 1).map_values(|e: HeldTouchEvent| delivery(e))
                            =~= b@.take(i as int).map_values(
                            |e: HeldTouchEvent| delivery(e),
                        ).push(delivery(b@[i as int])));
                    }
                    out.push(e);
                    i = i + 1;
                }
                proof {
                    assert(b@.take(n as int) =~= b@);
                    lemma_effect_push(out@, EffectOf::Frame);
                }
                out.push(EffectOf::Frame);
                proof {
                    assert(effect_models(out@) =~= effect_models(old(out)@) + flushed(
                        old(self)@.holdback,
                    ));
                }
            },
        }
    }

    /// The grab is torn down, however it came to that.
    pub fn unset(&mut self)
        ensures
            final(self)@ == unset_session(old(self)@),
    {
        self.holdback = None;
        self.pre_exited = None;
    }

    /// Carry one decision out.
    fn carry(
        &mut self,
        slots: &Vec<SlotDown>,
        core: &TouchRecognizer,
        c: &Contact,
        d: &Decision,
        out: &mut Vec<Effect>,
    )
        requires
            core.wf(),
        ensures
            final(self)@ == carry_step(old(self)@, slots@, core@.points, *c, d@).0,
            effect_models(final(out)@) == effect_models(old(out)@) + carry_step(
                old(self)@,
                slots@,
                core@.points,
                *c,
                d@,
            ).1,
    {
        let ghost start = out@;
        let one: Option<Effect> = match d {
            DecisionOf::Forward => Some(forward(slots, c)),
            DecisionOf::Consume => Some(consume(c)),
            DecisionOf::Hold => {
                self.hold(hold_back(slots, c));
                None
            },
            DecisionOf::Flush => {
                self.flush(out);
                return ;
            },
            DecisionOf::Discard => {
                self.holdback = None;
                None
            },
            DecisionOf::CancelAppSequence => {
                replay(slots, core, c, out);
                proof {
                    lemma_effect_push(out@, EffectOf::CancelApp);
                }
                out.push(EffectOf::CancelApp);
                proof {
                    assert(effect_models(out@) =~= effect_models(start) + replayed(
                        slots@,
                        core@.points,
                        *c,
                    ).push(EffectOf::CancelApp));
                }
                return ;
            },
            DecisionOf::PreExitFullscreen => match c.kind {
                ContactKind::Down { fullscreen, .. } => match fullscreen {
                    Some(w) => {
                        self.pre_exited = Some(w);
                        Some(EffectOf::ExitFullscreen(w))
                    },
                    None => None,
                },
                _ => None,
            },
            DecisionOf::Pan(delta) => Some(EffectOf::Pan { delta: *delta, time: c.time }),
            DecisionOf::Zoom { scale, anchor } => Some(
                EffectOf::Zoom { scale: *scale, anchor: *anchor },
            ),
            DecisionOf::FireThreshold(a) => Some(EffectOf::Execute(a.duplicate())),
            DecisionOf::StartWindowGrab { action } => Some(EffectOf::StartWindowGrab(*action)),
            DecisionOf::Momentum => Some(EffectOf::Momentum),
            DecisionOf::Tap { focus_at, set_last_tap, outcome } => {
                self.last_tap = *set_last_tap;
                Some(EffectOf::Tap { focus_at: *focus_at, outcome: outcome.duplicate() })
            },
            DecisionOf::UnsetGrab => {
                self.unset();
                Some(EffectOf::Unset)
            },
        };
        match one {
            Some(e) => {
                proof {
                    lemma_effect_push(out@, e);
                    assert(effect_models(start).push(e@) =~= effect_models(start) + seq![e@]);
                }
                out.push(e);
            },
            None => {
                proof {
                    assert(effect_models(start) =~= effect_models(start) + Seq::<
                        EffectOf<Seq<char>>,
                    >::empty());
                }
            },
        }
    }
}

/// Add what an escalation moves in place.
fn replay(slots: &Vec<SlotDown>, core: &TouchRecognizer, c: &Contact, out: &mut Vec<Effect>)
    requires
        core.wf(),
    ensures
        effect_models(final(out)@) == effect_models(old(out)@) + replayed(
            slots@,
            core@.points,
            *c,
        ),
{
    let n: usize = slots.len();
    let mut i: usize = 0;
    while i < n
        invariant
            i <= n,
            n == slots@.len(),
            core.wf(),
            effect_models(out@) =~= effect_models(old(out)@) + replayed(
                slots@.take(i as int),
                core@.points,
                *c,
            ),
        decreases n - i,
    {
        proof {
            assert(slots@.take(i + 1).drop_last() =~= slots@.take(i as int));
        }
        let s: SlotDown = slots[i];
        if s.slot != c.slot && s.focus.is_some() {
            if let Some(at) = core.screen_pos(s.slot) {
                let place: Place = match s.screen_delta {
                    Some(offset) => Place::Shifted { at, offset },
                    None => Place::Under(at),
                };
                let e: Effect = EffectOf::Motion { slot: s.slot, focus: None, place, time: c.time };
                proof {
                    lemma_effect_push(out@, e);
                }
                out.push(e);
            }
        }
        i = i + 1;
    }
    proof {
        assert(slots@.take(n as int) =~= slots@);
    }
}

impl TouchGestureGrabOf<Vec<SlotDown>, TouchRecognizer> {
    /// Are the fingers in order?
    pub open spec fn wf(&self) -> bool {
        self.core.wf()
    }

    /// A grab on a panel, before its first contact.
    pub fn new(panel: PanelScale) -> (r: TouchGestureGrab)
        ensures
            r.wf(),
            r@ == (TouchGestureGrabOf {
                slots: Seq::<SlotDown>::empty(),
                core: touch_recognizer::fresh(panel),
            }),
    {
        TouchGestureGrabOf { slots: Vec::new(), core: TouchRecognizer::new(panel) }
    }

    /// Deal with a contact, given what the fingers measure: the effects are to
    /// be carried out in order.
    pub fn dispatch(
        &mut self,
        session: &mut TouchSession,
        cfg: &Config,
        c: &Contact,
        reading: &Reading,
    ) -> (out: Vec<Effect>)
        requires
            old(self).wf(),
        ensures
            final(self).wf(),
            (final(self)@, final(session)@, effect_models(out@)) == contact_step(
                old(self)@,
                old(session)@,
                cfg.touch_gestures@,
                *c,
                *reading,
            ),
    {
        let mut out: Vec<Effect> = Vec::new();
        if session.replaying {
            let e: Effect = pass(c);
            out.push(e);
            proof {
                assert(effect_models(out@) =~= seq![passed(*c)]);
            }
            return out;
        }
        if let ContactKind::Down { delta, focus, over_screen_space, .. } = c.kind {
            let screen_delta: Option<ScreenPos> = if focus.is_some() && over_screen_space {
                Some(delta)
            } else {
                None
            };
            let mut slots: Vec<SlotDown> = without_slot(&self.slots, c.slot);
            slots.push(SlotDown { slot: c.slot, focus, screen_delta });
            self.slots = slots;
        }
        proof {
            assert(self.slots@ == slots_at(old(self)@.slots, *c));
        }
        let input: TouchInput = to_input(c);
        let ds: Vec<Decision> = self.core.process(
            cfg,
            &input,
            session.last_tap,
            session.holdback.is_some(),
            reading,
        );
        let n: usize = ds.len();
        let mut i: usize = 0;
        let ghost models = touch_recognizer::decision_models(ds@);
        let ghost before = session@;
        proof {
            assert(models.take(0) =~= Seq::empty());
            assert(effect_models(out@) =~= Seq::empty());
        }
        while i < n
            invariant
                i <= n,
                n == ds@.len(),
                models == touch_recognizer::decision_models(ds@),
                self.core.wf(),
                session@ == carried(
                    before,
                    self.slots@,
                    self.core@.points,
                    *c,
                    models.take(i as int),
                ).0,
                effect_models(out@) == carried(
                    before,
                    self.slots@,
                    self.core@.points,
                    *c,
                    models.take(i as int),
                ).1,
            decreases n - i,
        {
            proof {
                assert(models.take(i + 1).drop_last() =~= models.take(i as int));
                assert(models.take(i + 1).last() == ds@[i as int]@);
            }
            session.carry(&self.slots, &self.core, c, &ds[i], &mut out);
            i = i + 1;
        }
        proof {
            assert(models.take(n as int) =~= models);
        }
        if let ContactKind::Up = c.kind {
            self.slots = without_slot(&self.slots, c.slot);
        }
        out
    }
}

// ── Laws ─────────────────────────────────────────────────────────────

/// A lift of a known finger while events are withheld delivers all of them in
/// the order they came, the lift last, in one frame, and withholds nothing
/// more.
pub proof fn lemma_lift_delivers_in_order(
    g: TouchGestureGrabOf<
        Seq<SlotDown>,
        TouchRecognizerOf<Seq<(i32, ScreenPos)>, PlanOf<Seq<char>>>,
    >,
    s: TouchSessionOf<Seq<HeldTouchEvent>>,
    touch: ContextOf<Seq<(GestureTrigger, GestureConfigEntryOf<Seq<char>>)>>,
    c: Contact,
    r: Reading,
)
    requires
        !s.replaying,
        s.holdback is Some,
        c.kind is Up,
        touch_fingers::position(g.core.points, c.slot) is Some,
    ensures
        ({
            let (_, session, out) = contact_step(g, s, touch, c, r);
            let due = s.holdback->0.push(HeldTouchEvent::Up { slot: c.slot, time: c.time });
            &&& session.holdback is None
            &&& out.len() > due.len()
            &&& forall|i: int| 0 <= i < due.len() ==> #[trigger] out[i] == delivery(due[i])
            &&& out[due.len() as int] == EffectOf::<Seq<char>>::Frame
        }),
{
    let (core, ds) = touch_recognizer::step(
        g.core,
        touch,
        input_of(c),
        s.last_tap,
        true,
        r,
    );
    let slots = slots_at(g.slots, c);
    let up = HeldTouchEvent::Up { slot: c.slot, time: c.time };
    let due = s.holdback->0.push(up);
    assert(ds[0] is Hold && ds[1] is Flush);
    let first = ds.take(1);
    let both = ds.take(2);
    assert(first.drop_last() =~= Seq::empty());
    assert(both.drop_last() =~= first);
    assert(carried(s, slots, core.points, c, Seq::<DecisionOf<Seq<char>>>::empty()) == (
        s,
        Seq::<EffectOf<Seq<char>>>::empty(),
    ));
    let held = carried(s, slots, core.points, c, first);
    assert(held.0.holdback == Some(due));
    assert(held.1 =~= Seq::empty());
    let flush = carried(s, slots, core.points, c, both);
    assert(flush.1 =~= flushed(Some(due)));
    assert(flush.0.holdback is None);
    if ds.len() > 2 {
        assert(ds.len() == 3 && ds[2] is UnsetGrab);
        assert(ds.drop_last() =~= both);
    } else {
        assert(ds =~= both);
    }
}

/// Once a gesture claims a contact going down, nothing is withheld, and the
/// client gets none of it: whatever is delivered has no focus.
pub proof fn lemma_claim_withholds_nothing(
    g: TouchGestureGrabOf<
        Seq<SlotDown>,
        TouchRecognizerOf<Seq<(i32, ScreenPos)>, PlanOf<Seq<char>>>,
    >,
    s: TouchSessionOf<Seq<HeldTouchEvent>>,
    touch: ContextOf<Seq<(GestureTrigger, GestureConfigEntryOf<Seq<char>>)>>,
    c: Contact,
    r: Reading,
)
    requires
        !s.replaying,
        c.kind is Down,
        ({
            let d = touch_recognizer::step(
                g.core,
                touch,
                input_of(c),
                s.last_tap,
                s.holdback is Some,
                r,
            ).0;
            !d.state.claims_blocked && d.plan != touch_plan::no_plan()
        }),
    ensures
        ({
            let (_, session, out) = contact_step(g, s, touch, c, r);
            &&& session.holdback is None
            &&& forall|i: int| 0 <= i < out.len() ==> (match #[trigger] out[i] {
                EffectOf::Down { focus, .. } => focus is None,
                EffectOf::Motion { focus, .. } => focus is None,
                _ => true,
            })
        }),
{
    let (core, ds) = touch_recognizer::step(
        g.core,
        touch,
        input_of(c),
        s.last_tap,
        s.holdback is Some,
        r,
    );
    let slots = slots_at(g.slots, c);
    assert(ds[0] is Discard);
    lemma_claim_effects(s, slots, core.points, c, ds);
}

spec fn unfocused(out: Seq<EffectOf<Seq<char>>>) -> bool {
    forall|i: int| 0 <= i < out.len() ==> (match #[trigger] out[i] {
        EffectOf::Down { focus, .. } => focus is None,
        EffectOf::Motion { focus, .. } => focus is None,
        _ => true,
    })
}

proof fn lemma_replays_are_unfocused(
    slots: Seq<SlotDown>,
    points: Seq<(i32, ScreenPos)>,
    c: Contact,
)
    ensures
        unfocused(replayed(slots, points, c)),
    decreases slots.len(),
{
    if slots.len() > 0 {
        lemma_replays_are_unfocused(slots.drop_last(), points, c);
    }
}

proof fn lemma_claim_effects(
    s: TouchSessionOf<Seq<HeldTouchEvent>>,
    slots: Seq<SlotDown>,
    points: Seq<(i32, ScreenPos)>,
    c: Contact,
    ds: Seq<DecisionOf<Seq<char>>>,
)
    requires
        c.kind is Down,
        ds.len() > 0,
        ds[0] is Discard,
        forall|i: int|
            0 <= i < ds.len() ==> ((#[trigger] ds[i]) is Discard || ds[i] is CancelAppSequence
                || ds[i] is Consume || ds[i] is PreExitFullscreen),
    ensures
        carried(s, slots, points, c, ds).0.holdback is None,
        unfocused(carried(s, slots, points, c, ds).1),
    decreases ds.len(),
{
    let front = ds.drop_last();
    let (before, done) = carried(s, slots, points, c, front);
    let (after, more) = carry_step(before, slots, points, c, ds.last());
    if front.len() > 0 {
        assert(front[0] == ds[0]);
        assert forall|i: int| 0 <= i < front.len() implies ((#[trigger] front[i]) is Discard
            || front[i] is CancelAppSequence || front[i] is Consume
            || front[i] is PreExitFullscreen) by {
            assert(front[i] == ds[i]);
        }
        lemma_claim_effects(s, slots, points, c, front);
    }
    lemma_replays_are_unfocused(slots, points, c);
    assert(ds.last() == ds[ds.len() - 1]);
    assert(unfocused(more));
    assert forall|i: int| 0 <= i < (done + more).len() implies (match #[trigger] (done + more)[i] {
        EffectOf::Down { focus, .. } => focus is None,
        EffectOf::Motion { focus, .. } => focus is None,
        _ => true,
    }) by {
        if i < done.len() {
            assert((done + more)[i] == done[i]);
        } else {
            assert((done + more)[i] == more[i - done.len()]);
        }
    }
}

} // verus!
