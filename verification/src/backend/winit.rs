//! The nested backend: what it advertises, and what each frame does.
use vstd::prelude::*;

use crate::config::numbers;
use crate::config::numbers::Real;
use crate::geometry::{Point, Size};

verus! {

/// Refresh rate of the nested output, in mHz.
pub const REFRESH: i32 = 60_000;

/// The longest time that a frame accounts for, in nanoseconds.
pub const MAX_FRAME_NS: u64 = 33_000_000;

/// Time until the next frame, in milliseconds.
pub const FRAME_MS: u64 = 16;

/// The bits of full opacity.
pub const OPAQUE: u64 = 0x3ff0_0000_0000_0000;

/// A mode that an output offers.
#[derive(Clone, Copy, Debug, PartialEq, Eq, Structural)]
pub struct OfferedMode {
    pub width: i32,
    pub height: i32,
    pub refresh: i32,
    pub preferred: bool,
}

/// What output managers learn of an output. It is flipped, and not scaled.
#[derive(Debug, PartialEq, Eq)]
pub struct OutputHeadOf<S, L> {
    pub name: S,
    pub description: S,
    pub make: S,
    pub model: S,
    pub serial_number: S,
    pub physical_size: Size,
    pub modes: L,
    pub current_mode_index: Option<usize>,
    pub position: Point,
}

pub type OutputHead = OutputHeadOf<String, Vec<OfferedMode>>;

impl View for OutputHeadOf<String, Vec<OfferedMode>> {
    type V = OutputHeadOf<Seq<char>, Seq<OfferedMode>>;

    open spec fn view(&self) -> OutputHeadOf<Seq<char>, Seq<OfferedMode>> {
        OutputHeadOf {
            name: self.name@,
            description: self.description@,
            make: self.make@,
            model: self.model@,
            serial_number: self.serial_number@,
            physical_size: self.physical_size,
            modes: self.modes@,
            current_mode_index: self.current_mode_index,
            position: self.position,
        }
    }
}

/// What output managers learn of the nested output: one mode, the size of the
/// host's window.
pub fn winit_head(size: Size) -> (r: OutputHead)
    ensures
        r@ == (OutputHeadOf {
            name: "winit"@,
            description: "driftwm winit virtual output"@,
            make: "driftwm"@,
            model: "winit"@,
            serial_number: ""@,
            physical_size: Size { w: 0, h: 0 },
            modes: seq![
                OfferedMode { width: size.w, height: size.h, refresh: REFRESH, preferred: true },
            ],
            current_mode_index: Some(0usize),
            position: Point { x: 0, y: 0 },
        }),
{
    let mut modes: Vec<OfferedMode> = Vec::new();
    modes.push(
        OfferedMode { width: size.w, height: size.h, refresh: REFRESH, preferred: true },
    );
    let r: OutputHead = OutputHeadOf {
        name: "winit".to_owned(),
        description: "driftwm winit virtual output".to_owned(),
        make: "driftwm".to_owned(),
        model: "winit".to_owned(),
        serial_number: "".to_owned(),
        physical_size: Size { w: 0, h: 0 },
        modes,
        current_mode_index: Some(0),
        position: Point { x: 0, y: 0 },
    };
    proof {
        assert(r.modes@ =~= seq![
            OfferedMode { width: size.w, height: size.h, refresh: REFRESH, preferred: true },
        ]);
    }
    r
}

/// What the host's window reports.
#[derive(Clone, Copy, Debug, PartialEq, Eq, Structural)]
pub enum HostEvent {
    /// It has a new size and scale.
    Resized { size: Size, scale: Real },
    /// An input event, by number.
    Input(u64),
    CloseRequested,
    Other,
}

/// What the host's events come to.
#[derive(Clone, Copy, Debug, PartialEq, Eq, Structural)]
pub enum HostAction {
    /// Change the output's mode and scale.
    Remode { size: Size, refresh: i32, scale: Real },
    /// Process an input event.
    Process(u64),
}

/// What one event of the host comes to.
pub open spec fn host_action(e: HostEvent) -> Option<HostAction> {
    match e {
        HostEvent::Resized { size, scale } => Some(
            HostAction::Remode { size, refresh: REFRESH, scale },
        ),
        HostEvent::Input(id) => Some(HostAction::Process(id)),
        _ => None,
    }
}

/// What events of the host come to, in order.
pub open spec fn host_actions(events: Seq<HostEvent>) -> Seq<HostAction>
    decreases events.len(),
{
    if events.len() == 0 {
        Seq::empty()
    } else {
        match host_action(events.last()) {
            Some(a) => host_actions(events.drop_last()).push(a),
            None => host_actions(events.drop_last()),
        }
    }
}

/// Was the host's window asked to close?
pub open spec fn close_requested(events: Seq<HostEvent>) -> bool {
    exists|i: int| 0 <= i < events.len() && (#[trigger] events[i]) is CloseRequested
}

/// What the host's events come to, and whether the backend stops. Every event
/// is dispatched, also after a request to close.
pub fn dispatch(events: &Vec<HostEvent>) -> (r: (Vec<HostAction>, bool))
    ensures
        r.0@ == host_actions(events@),
        r.1 == close_requested(events@),
{
    let n: usize = events.len();
    let mut out: Vec<HostAction> = Vec::new();
    let mut stop: bool = false;
    let mut i: usize = 0;
    while i < n
        invariant
            i <= n,
            n == events@.len(),
            out@ == host_actions(events@.take(i as int)),
            stop == exists|j: int| 0 <= j < i && (#[trigger] events@[j]) is CloseRequested,
        decreases n - i,
    {
        proof {
            assert(events@.take(i + 1).drop_last() =~= events@.take(i as int));
        }
        match events[i] {
            HostEvent::Resized { size, scale } => {
                out.push(HostAction::Remode { size, refresh: REFRESH, scale });
            },
            HostEvent::Input(id) => {
                out.push(HostAction::Process(id));
            },
            HostEvent::CloseRequested => {
                stop = true;
                proof {
                    assert(events@[i as int] is CloseRequested);
                }
            },
            HostEvent::Other => {},
        }
        i = i + 1;
    }
    proof {
        assert(events@.take(n as int) =~= events@);
    }
    (out, stop)
}

/// A step of a frame.
#[derive(Clone, Copy, Debug, PartialEq, Eq, Structural)]
pub enum FrameStep {
    StopLoop,
    FlushClients,
    MeasureTime,
    KeyRepeat,
    ScrollMomentum,
    CursorEdgePan,
    EdgePan,
    ZoomAnimation,
    CameraAnimation,
    PointerResync,
    ExecCursorTimeout,
    UpdateBackground,
    Render,
    RecordCamera,
    WriteStateFile,
    RefreshToplevels,
    PostRender,
    EvictCaptures,
}

/// The steps of a frame, in order. Zoom is animated before the camera, so that
/// its recomputed target is used; the pointer follows after input and
/// animations; the camera is recorded after it was rendered.
pub open spec fn steps_of(stop: bool) -> Seq<FrameStep> {
    if stop {
        seq![FrameStep::StopLoop]
    } else {
        seq![
            FrameStep::FlushClients,
            FrameStep::MeasureTime,
            FrameStep::KeyRepeat,
            FrameStep::ScrollMomentum,
            FrameStep::CursorEdgePan,
            FrameStep::EdgePan,
            FrameStep::ZoomAnimation,
            FrameStep::CameraAnimation,
            FrameStep::PointerResync,
            FrameStep::ExecCursorTimeout,
            FrameStep::UpdateBackground,
            FrameStep::Render,
            FrameStep::RecordCamera,
            FrameStep::WriteStateFile,
            FrameStep::RefreshToplevels,
            FrameStep::PostRender,
            FrameStep::EvictCaptures,
            FrameStep::FlushClients,
        ]
    }
}

/// The steps of a frame, in order.
pub fn frame_steps(stop: bool) -> (r: Vec<FrameStep>)
    ensures
        r@ == steps_of(stop),
{
    let mut out: Vec<FrameStep> = Vec::new();
    if stop {
        out.push(FrameStep::StopLoop);
        return out;
    }
    out.push(FrameStep::FlushClients);
    out.push(FrameStep::MeasureTime);
    out.push(FrameStep::KeyRepeat);
    out.push(FrameStep::ScrollMomentum);
    out.push(FrameStep::CursorEdgePan);
    out.push(FrameStep::EdgePan);
    out.push(FrameStep::ZoomAnimation);
    out.push(FrameStep::CameraAnimation);
    out.push(FrameStep::PointerResync);
    out.push(FrameStep::ExecCursorTimeout);
    out.push(FrameStep::UpdateBackground);
    out.push(FrameStep::Render);
    out.push(FrameStep::RecordCamera);
    out.push(FrameStep::WriteStateFile);
    out.push(FrameStep::RefreshToplevels);
    out.push(FrameStep::PostRender);
    out.push(FrameStep::EvictCaptures);
    out.push(FrameStep::FlushClients);
    out
}

/// When the next frame comes; none after the loop was stopped.
pub fn next_frame(stop: bool) -> (r: Option<u64>)
    ensures
        r == (if stop {
            None
        } else {
            Some(FRAME_MS)
        }),
{
    if stop {
        None
    } else {
        Some(FRAME_MS)
    }
}

/// The time that a frame accounts for: what has passed, but no more than two
/// frames' worth, so that a stall does not make animations jump.
pub fn frame_time(elapsed_ns: u64) -> (r: u64)
    ensures
        r == (if elapsed_ns <= MAX_FRAME_NS {
            elapsed_ns
        } else {
            MAX_FRAME_NS
        }),
{
    if elapsed_ns <= MAX_FRAME_NS {
        elapsed_ns
    } else {
        MAX_FRAME_NS
    }
}

/// Is a window seen through?
pub open spec fn transparent(opacity: Option<Real>) -> bool {
    opacity matches Some(o) && numbers::less(o, Real { bits: OPAQUE })
}

/// Is any window seen through?
pub fn any_transparent(opacities: &Vec<Option<Real>>) -> (r: bool)
    ensures
        r == exists|i: int| 0 <= i < opacities@.len() && transparent(#[trigger] opacities@[i]),
{
    let n: usize = opacities.len();
    let opaque: Real = Real { bits: OPAQUE };
    let mut i: usize = 0;
    while i < n
        invariant
            i <= n,
            n == opacities@.len(),
            opaque == (Real { bits: OPAQUE }),
            forall|j: int| 0 <= j < i ==> !transparent(#[trigger] opacities@[j]),
        decreases n - i,
    {
        if let Some(o) = opacities[i] {
            if o.less(&opaque) {
                proof {
                    assert(transparent(opacities@[i as int]));
                }
                return true;
            }
        }
        i = i + 1;
    }
    false
}

/// The age of the buffer that a frame is drawn over: none where the whole frame
/// has to be drawn again. A tiled background moves with the view, and an
/// animated one shows through transparent windows.
pub fn buffer_age(
    reported: Option<usize>,
    tiled_background: bool,
    camera_moved: bool,
    zoom_changed: bool,
    animated_background: bool,
    seen_through: bool,
) -> (r: usize)
    ensures
        r == (if (tiled_background && (camera_moved || zoom_changed)) || (animated_background
            && seen_through) {
            0
        } else {
            match reported {
                Some(a) => a,
                None => 0,
            }
        }),
{
    let age: usize = match reported {
        Some(a) => a,
        None => 0,
    };
    if tiled_background && (camera_moved || zoom_changed) {
        0
    } else if age > 0 && animated_background && seen_through {
        0
    } else {
        age
    }
}

/// Is a rendered frame submitted? Not without damage: the host is not made to
/// compose anew while nothing moves.
pub fn submits(bound: bool, damaged: bool) -> (r: bool)
    ensures
        r == (bound && damaged),
{
    bound && damaged
}

/// How many of the first events come to an action.
pub open spec fn acted_on(events: Seq<HostEvent>, n: int) -> nat
    decreases n,
{
    if n <= 0 {
        0
    } else {
        acted_on(events, n - 1) + (if events[n - 1] is Resized || events[n - 1] is Input {
            1nat
        } else {
            0
        })
    }
}

proof fn lemma_acted_on_prefix(a: Seq<HostEvent>, b: Seq<HostEvent>, n: int)
    requires
        n <= a.len(),
        n <= b.len(),
        forall|j: int| 0 <= j < n ==> a[j] == b[j],
    ensures
        acted_on(a, n) == acted_on(b, n),
    decreases n,
{
    if n > 0 {
        lemma_acted_on_prefix(a, b, n - 1);
    }
}

/// Each resize changes the mode to the new size at 60 frames a second, each input
/// is processed, in the order in which they came, and nothing else comes of the
/// events.
pub proof fn lemma_events_are_acted_on_in_order(events: Seq<HostEvent>, i: int)
    ensures
        ({
            let (out, k) = (host_actions(events), acted_on(events, i) as int);
            &&& out.len() == acted_on(events, events.len() as int)
            &&& 0 <= i < events.len() ==> match events[i] {
                HostEvent::Resized { size, scale } => k < out.len() && out[k]
                    == HostAction::Remode { size, refresh: 60_000, scale },
                HostEvent::Input(id) => k < out.len() && out[k] == HostAction::Process(id),
                _ => true,
            }
        }),
    decreases events.len(),
{
    if events.len() > 0 {
        let rest = events.drop_last();
        lemma_events_are_acted_on_in_order(rest, i);
        lemma_acted_on_prefix(rest, events, rest.len() as int);
        if 0 <= i < rest.len() {
            lemma_acted_on_prefix(rest, events, i);
        }
    }
}

/// How late in a frame each step comes.
pub open spec fn stage(step: FrameStep) -> int {
    match step {
        FrameStep::StopLoop => 0,
        FrameStep::FlushClients => 0,
        FrameStep::MeasureTime => 1,
        FrameStep::KeyRepeat => 2,
        FrameStep::ScrollMomentum => 3,
        FrameStep::CursorEdgePan => 4,
        FrameStep::EdgePan => 5,
        FrameStep::ZoomAnimation => 6,
        FrameStep::CameraAnimation => 7,
        FrameStep::PointerResync => 8,
        FrameStep::ExecCursorTimeout => 9,
        FrameStep::UpdateBackground => 10,
        FrameStep::Render => 11,
        FrameStep::RecordCamera => 12,
        FrameStep::WriteStateFile => 13,
        FrameStep::RefreshToplevels => 14,
        FrameStep::PostRender => 15,
        FrameStep::EvictCaptures => 16,
    }
}

/// A frame after a request to stop does nothing else. Any other one flushes the
/// clients first and last and takes every other step once between: it measures
/// the time before anything moves, animates the zoom before the camera, resyncs
/// the pointer after both, and renders after all of that; the camera is recorded,
/// and the state written, after it is rendered.
pub proof fn lemma_order_of_a_frame(i: int)
    ensures
        steps_of(true).len() == 1 && steps_of(true)[0] == FrameStep::StopLoop,
        ({
            let s = steps_of(false);
            &&& s.len() == 18
            &&& s[0] == FrameStep::FlushClients && s.last() == FrameStep::FlushClients
            &&& 0 < i < 17 ==> stage(s[i]) == i
        }),
{
}

/// A window is seen through if its opacity is set and below one; what is not a
/// number does not count.
pub proof fn lemma_seen_through(bits: u64)
    ensures
        !transparent(None),
        transparent(Some(Real { bits })) <==> bits < 0x3ff0_0000_0000_0000
            || 0x8000_0000_0000_0000 <= bits <= 0xfff0_0000_0000_0000,
{
}

} // verus!
