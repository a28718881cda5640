//! Resizing windows: the size a drag asks for, the bounds it is held to, and
//! where the window goes when it resizes from the top or left.
use vstd::prelude::*;

use crate::config::numbers;
use crate::config::numbers::Real;
use crate::geometry;
use crate::geometry::{max_of, min_of, Point, Size};

verus! {

/// Smallest a suspended window may be resized to: keeps the chrome usable.
pub const MIN_SUSPENDED_SIZE: i32 = 120;

/// The edges that a resize drags.
#[derive(Clone, Copy, Debug, PartialEq, Eq, Structural)]
pub enum ResizeEdge {
    Nothing,
    Top,
    Bottom,
    Left,
    TopLeft,
    BottomLeft,
    Right,
    TopRight,
    BottomRight,
}

/// Does a resize drag the top edge?
pub open spec fn top(e: ResizeEdge) -> bool {
    e is Top || e is TopLeft || e is TopRight
}

/// Does a resize drag the bottom edge?
pub open spec fn bottom(e: ResizeEdge) -> bool {
    e is Bottom || e is BottomLeft || e is BottomRight
}

/// Does a resize drag the left edge?
pub open spec fn left(e: ResizeEdge) -> bool {
    e is Left || e is TopLeft || e is BottomLeft
}

/// Does a resize drag the right edge?
pub open spec fn right(e: ResizeEdge) -> bool {
    e is Right || e is TopRight || e is BottomRight
}

/// Does a resize drag the top edge?
pub fn has_top(edges: ResizeEdge) -> (r: bool)
    ensures
        r == top(edges),
{
    match edges {
        ResizeEdge::Top | ResizeEdge::TopLeft | ResizeEdge::TopRight => true,
        _ => false,
    }
}

/// Does a resize drag the bottom edge?
pub fn has_bottom(edges: ResizeEdge) -> (r: bool)
    ensures
        r == bottom(edges),
{
    match edges {
        ResizeEdge::Bottom | ResizeEdge::BottomLeft | ResizeEdge::BottomRight => true,
        _ => false,
    }
}

/// Does a resize drag the left edge?
pub fn has_left(edges: ResizeEdge) -> (r: bool)
    ensures
        r == left(edges),
{
    match edges {
        ResizeEdge::Left | ResizeEdge::TopLeft | ResizeEdge::BottomLeft => true,
        _ => false,
    }
}

/// Does a resize drag the right edge?
pub fn has_right(edges: ResizeEdge) -> (r: bool)
    ensures
        r == right(edges),
{
    match edges {
        ResizeEdge::Right | ResizeEdge::TopRight | ResizeEdge::BottomRight => true,
        _ => false,
    }
}

/// The protocol's number of an edge: one bit for each side.
pub open spec fn edge_number(e: ResizeEdge) -> int {
    (if top(e) {
        1int
    } else {
        0
    }) + (if bottom(e) {
        2int
    } else {
        0
    }) + (if left(e) {
        4int
    } else {
        0
    }) + (if right(e) {
        8int
    } else {
        0
    })
}

/// The protocol's number of an edge.
pub fn edge_code(e: ResizeEdge) -> (r: u32)
    ensures
        r == edge_number(e),
{
    match e {
        ResizeEdge::Nothing => 0,
        ResizeEdge::Top => 1,
        ResizeEdge::Bottom => 2,
        ResizeEdge::Left => 4,
        ResizeEdge::TopLeft => 5,
        ResizeEdge::BottomLeft => 6,
        ResizeEdge::Right => 8,
        ResizeEdge::TopRight => 9,
        ResizeEdge::BottomRight => 10,
    }
}

// ── Constraints ──────────────────────────────────────────────────────

/// Declared size constraints, captured once at grab start. Zero on an axis
/// means unconstrained.
#[derive(Clone, Copy, Debug, PartialEq, Eq, Structural)]
pub struct SizeConstraints {
    pub min: Size,
    pub max: Size,
}

/// A length held to its bounds, and to at least one.
pub open spec fn clamp_axis(min: int, max: int, n: int) -> int {
    let floored = geometry::larger(n, 1);
    let raised = if min > 0 {
        geometry::larger(floored, min)
    } else {
        floored
    };
    if max > 0 {
        geometry::smaller(raised, max)
    } else {
        raised
    }
}

fn clamp_length(min: i32, max: i32, n: i32) -> (r: i32)
    ensures
        r == clamp_axis(min as int, max as int, n as int),
{
    let mut out: i32 = max_of(n, 1);
    if min > 0 {
        out = max_of(out, min);
    }
    if max > 0 {
        out = min_of(out, max);
    }
    out
}

impl SizeConstraints {
    /// No constraints.
    pub fn unconstrained() -> (r: SizeConstraints)
        ensures
            r.min == (Size { w: 0, h: 0 }),
            r.max == (Size { w: 0, h: 0 }),
    {
        SizeConstraints { min: Size { w: 0, h: 0 }, max: Size { w: 0, h: 0 } }
    }

    /// Hold a requested size to the bounds along each axis. Also enforces a
    /// floor of one, so that clients never see nonsense from a fast drag.
    pub fn clamp(&self, w: i32, h: i32) -> (r: (i32, i32))
        ensures
            r.0 == clamp_axis(self.min.w as int, self.max.w as int, w as int),
            r.1 == clamp_axis(self.min.h as int, self.max.h as int, h as int),
    {
        (clamp_length(self.min.w, self.max.w, w), clamp_length(self.min.h, self.max.h, h))
    }
}

/// A clamped length is at least one, within its bounds where these agree, and
/// clamping it again changes nothing. What lies within the bounds is kept.
pub proof fn lemma_clamp_holds_bounds(min: int, max: int, n: int)
    ensures
        clamp_axis(min, max, n) >= 1,
        max > 0 ==> clamp_axis(min, max, n) <= max,
        min > 0 && (max <= 0 || min <= max) ==> clamp_axis(min, max, n) >= min,
        clamp_axis(min, max, clamp_axis(min, max, n)) == clamp_axis(min, max, n),
        n >= 1 && n >= min && (max <= 0 || n <= max) ==> clamp_axis(min, max, n) == n,
{
}

// ── The size of a drag ───────────────────────────────────────────────

/// The width that a drag by `dx` asks for.
pub open spec fn dragged_width(initial: Size, edges: ResizeEdge, dx: int) -> int {
    if left(edges) {
        initial.w - dx
    } else if right(edges) {
        initial.w + dx
    } else {
        initial.w as int
    }
}

/// The height that a drag by `dy` asks for.
pub open spec fn dragged_height(initial: Size, edges: ResizeEdge, dy: int) -> int {
    if top(edges) {
        initial.h - dy
    } else if bottom(edges) {
        initial.h + dy
    } else {
        initial.h as int
    }
}

/// The size that a drag asks for, none where it fits no coordinate.
pub fn drag_target(initial: Size, edges: ResizeEdge, dx: i32, dy: i32) -> (r: Option<Size>)
    ensures
        ({
            let w = dragged_width(initial, edges, dx as int);
            let h = dragged_height(initial, edges, dy as int);
            match r {
                Some(s) => s.w == w && s.h == h,
                None => !geometry::fits(w) || !geometry::fits(h),
            }
        }),
{
    let w: i64 = if has_left(edges) {
        initial.w as i64 - dx as i64
    } else if has_right(edges) {
        initial.w as i64 + dx as i64
    } else {
        initial.w as i64
    };
    let h: i64 = if has_top(edges) {
        initial.h as i64 - dy as i64
    } else if has_bottom(edges) {
        initial.h as i64 + dy as i64
    } else {
        initial.h as i64
    };
    match (geometry::to_coordinate(w), geometry::to_coordinate(h)) {
        (Some(w), Some(h)) => Some(Size { w, h }),
        _ => None,
    }
}

/// Distance between two numbers.
pub open spec fn distance(a: int, b: int) -> int {
    if a >= b {
        a - b
    } else {
        b - a
    }
}

/// Does the width drive a resize at a locked ratio? A pure horizontal edge
/// drives it, a pure vertical one the height; a corner is driven by the axis
/// that moved farther relative to the ratio, so that the driver does not flip
/// off the ratio ray.
pub open spec fn width_drives(target: Size, initial: Size, edges: ResizeEdge) -> bool {
    let horizontal = left(edges) || right(edges);
    let vertical = top(edges) || bottom(edges);
    if horizontal != vertical {
        horizontal
    } else {
        distance(target.w as int, initial.w as int) * initial.h >= distance(
            target.h as int,
            initial.h as int,
        ) * initial.w
    }
}

fn gap(a: i32, b: i32) -> (r: i128)
    ensures
        r == distance(a as int, b as int),
        0 <= r <= 4_294_967_295,
{
    if a >= b {
        a as i128 - b as i128
    } else {
        b as i128 - a as i128
    }
}

/// Does the width drive a resize at a locked ratio?
pub fn does_width_drive(target: Size, initial: Size, edges: ResizeEdge) -> (r: bool)
    ensures
        r == width_drives(target, initial, edges),
{
    let horizontal: bool = has_left(edges) || has_right(edges);
    let vertical: bool = has_top(edges) || has_bottom(edges);
    if horizontal != vertical {
        horizontal
    } else {
        let dw: i128 = gap(target.w, initial.w);
        let dh: i128 = gap(target.h, initial.h);
        let ih: i128 = initial.h as i128;
        let iw: i128 = initial.w as i128;
        proof {
            assert(-9223372041149743104 < dw * ih < 9223372041149743104) by (nonlinear_arith)
                requires
                    0 <= dw <= 4_294_967_295,
                    -2147483648 <= ih <= 2147483647,
            ;
            assert(-9223372041149743104 < dh * iw < 9223372041149743104) by (nonlinear_arith)
                requires
                    0 <= dh <= 4_294_967_295,
                    -2147483648 <= iw <= 2147483647,
            ;
        }
        dw * ih >= dh * iw
    }
}

/// A target bent onto a locked ratio, given the height that its width and the
/// width that its height come to at that ratio.
pub open spec fn bent(
    target: Size,
    initial: Size,
    edges: ResizeEdge,
    height_for_width: int,
    width_for_height: int,
) -> (int, int) {
    if width_drives(target, initial, edges) {
        (target.w as int, geometry::larger(height_for_width, 1))
    } else {
        (geometry::larger(width_for_height, 1), target.h as int)
    }
}

/// Bend a resize target back onto a locked aspect ratio. The driving axis is
/// kept and the other one derived: `height_for_width` is the target's width
/// over the ratio, `width_for_height` its height times the ratio, rounded.
pub fn constrain_to_ratio(
    target: Size,
    initial: Size,
    edges: ResizeEdge,
    height_for_width: i32,
    width_for_height: i32,
) -> (r: Size)
    ensures
        (r.w as int, r.h as int) == bent(
            target,
            initial,
            edges,
            height_for_width as int,
            width_for_height as int,
        ),
{
    if does_width_drive(target, initial, edges) {
        Size { w: target.w, h: max_of(height_for_width, 1) }
    } else {
        Size { w: max_of(width_for_height, 1), h: target.h }
    }
}

/// Does a resize keep the aspect ratio that a window has at grab start?
pub fn locks_ratio(preserve_aspect_ratio: bool, initial: Size) -> (r: bool)
    ensures
        r == (preserve_aspect_ratio && initial.w > 0 && initial.h > 0),
{
    preserve_aspect_ratio && initial.w > 0 && initial.h > 0
}

// ── Where the window goes ────────────────────────────────────────────

/// Where a corner goes along one axis so that the opposite edge stays put: the
/// initial corner, moved by what the length lost if the near edge is dragged.
pub open spec fn anchored(near: bool, corner: int, initial: int, now: int) -> int {
    if near {
        corner + (initial - now)
    } else {
        corner
    }
}

/// Where a window goes at a new size, none where it fits no coordinate. Taken
/// from the initial position and size, so that nothing accumulates.
pub fn reposition(corner: Point, initial: Size, edges: ResizeEdge, now: Size) -> (r: Option<Point>)
    ensures
        ({
            let x = anchored(left(edges), corner.x as int, initial.w as int, now.w as int);
            let y = anchored(top(edges), corner.y as int, initial.h as int, now.h as int);
            match r {
                Some(p) => p.x == x && p.y == y,
                None => !geometry::point_fits(x, y),
            }
        }),
{
    let x: i64 = if has_left(edges) {
        corner.x as i64 + (initial.w as i64 - now.w as i64)
    } else {
        corner.x as i64
    };
    let y: i64 = if has_top(edges) {
        corner.y as i64 + (initial.h as i64 - now.h as i64)
    } else {
        corner.y as i64
    };
    match (geometry::to_coordinate(x), geometry::to_coordinate(y)) {
        (Some(x), Some(y)) => Some(Point { x, y }),
        _ => None,
    }
}

/// The edge opposite to a dragged one does not move: dragging the near edge
/// keeps the far one, dragging anything else keeps the near one.
pub proof fn lemma_opposite_edge_is_fixed(near: bool, corner: int, initial: int, now: int)
    ensures
        near ==> anchored(near, corner, initial, now) + now == corner + initial,
        !near ==> anchored(near, corner, initial, now) == corner,
        anchored(near, corner, initial, initial) == corner,
{
}

/// What a resize started from.
#[derive(Clone, Copy, Debug, PartialEq, Eq, Structural)]
pub struct ResizeStart {
    pub edges: ResizeEdge,
    pub initial_window_location: Point,
    pub initial_window_size: Size,
    /// Set for a pinned window: it is repositioned on its output instead of
    /// the canvas.
    pub initial_screen_pos: Option<Point>,
    /// The size that the last processed commit settled at.
    pub last_committed_size: Size,
}

/// The resize lifecycle of a window.
#[derive(Clone, Copy, Debug, PartialEq, Eq, Structural)]
pub enum ResizeState {
    Idle,
    Resizing(ResizeStart),
    WaitingForLastCommit(ResizeStart),
}

/// The start of a resize that is going on or settling.
pub open spec fn started(s: ResizeState) -> Option<ResizeStart> {
    match s {
        ResizeState::Idle => None,
        ResizeState::Resizing(d) => Some(d),
        ResizeState::WaitingForLastCommit(d) => Some(d),
    }
}

/// What a commit of a resizing window does.
#[derive(Clone, Copy, Debug, PartialEq, Eq, Structural)]
pub struct ResizeCommit {
    /// Where the window goes: on its output if `pinned`, else on the canvas.
    pub location: Point,
    pub pinned: bool,
    /// The resize is over: keep the size as the one to restore.
    pub settled: bool,
    /// The size changed: what is blurred above the window is stale.
    pub bump_blur: bool,
    pub next: ResizeState,
}

/// The state after a commit at a size.
pub open spec fn state_after_commit(s: ResizeState, now: Size) -> ResizeState {
    match s {
        ResizeState::Resizing(d) => ResizeState::Resizing(
            ResizeStart { last_committed_size: now, ..d },
        ),
        _ => ResizeState::Idle,
    }
}

/// What a commit at a size does to a resizing window; nothing where no resize
/// is going on, or where its place fits no coordinate.
pub fn handle_resize_commit(state: ResizeState, now: Size) -> (r: Option<ResizeCommit>)
    ensures
        match started(state) {
            None => r is None,
            Some(d) => {
                let corner = match d.initial_screen_pos {
                    Some(p) => p,
                    None => d.initial_window_location,
                };
                let x = anchored(
                    left(d.edges),
                    corner.x as int,
                    d.initial_window_size.w as int,
                    now.w as int,
                );
                let y = anchored(
                    top(d.edges),
                    corner.y as int,
                    d.initial_window_size.h as int,
                    now.h as int,
                );
                match r {
                    None => !geometry::point_fits(x, y),
                    Some(c) => c.location.x == x && c.location.y == y && c.pinned
                        == d.initial_screen_pos is Some && c.settled
                        == state is WaitingForLastCommit && c.bump_blur == (now
                        != d.last_committed_size) && c.next == state_after_commit(state, now),
                }
            },
        },
{
    let d: ResizeStart = match state {
        ResizeState::Idle => {
            return None;
        },
        ResizeState::Resizing(d) => d,
        ResizeState::WaitingForLastCommit(d) => d,
    };
    let corner: Point = match d.initial_screen_pos {
        Some(p) => p,
        None => d.initial_window_location,
    };
    let location: Point = match reposition(corner, d.initial_window_size, d.edges, now) {
        Some(p) => p,
        None => {
            return None;
        },
    };
    let settled: bool = match state {
        ResizeState::WaitingForLastCommit(_) => true,
        _ => false,
    };
    let next: ResizeState = match state {
        ResizeState::Resizing(d) => ResizeState::Resizing(
            ResizeStart { last_committed_size: now, ..d },
        ),
        _ => ResizeState::Idle,
    };
    Some(
        ResizeCommit {
            location,
            pinned: d.initial_screen_pos.is_some(),
            settled,
            bump_blur: now.w != d.last_committed_size.w || now.h != d.last_committed_size.h,
            next,
        },
    )
}

// ── The grab ─────────────────────────────────────────────────────────

/// What a resize grab holds of the resize.
#[derive(Clone, Copy, Debug, PartialEq, Eq, Structural)]
pub struct ResizeGrab {
    /// The target is a client window; otherwise a stand-in.
    pub is_client: bool,
    pub edges: ResizeEdge,
    pub initial_window_location: Point,
    pub initial_window_size: Size,
    pub last_window_size: Size,
    pub constraints: SizeConstraints,
    /// Set for a screen-pinned window: its place on the output at grab start.
    pub pinned_initial_screen_pos: Option<Point>,
    /// The resize keeps the aspect ratio of the initial size.
    pub locked_ratio: bool,
    /// The finger that drives a touch resize; none for a pointer's.
    pub touch_slot: Option<i32>,
    /// Fingers down for a touch resize.
    pub touch_slots: usize,
}

/// Where a motion goes.
#[derive(Clone, Copy, Debug, PartialEq, Eq, Structural)]
pub enum ResizeRoute {
    /// The target is gone: forward the motion.
    PassThrough,
    /// The pointer crossed to another output: put it back.
    SnapBack,
    /// Resize a pinned window in screen space.
    Pinned,
    /// Resize on the canvas.
    Canvas,
}

/// What a new size does.
#[derive(Clone, Copy, Debug, PartialEq, Eq, Structural)]
pub struct ResizeProgress {
    /// The size changed: configure the client, or resize the stand-in.
    pub size_progressed: bool,
    /// Where a resized stand-in goes.
    pub stand_in_location: Option<Point>,
    /// What is blurred above a moved window is stale.
    pub bump_blur: bool,
}

/// Where a motion of a target that still exists goes.
pub open spec fn target_route(g: ResizeGrab) -> ResizeRoute {
    if g.pinned_initial_screen_pos is None {
        ResizeRoute::Canvas
    } else if g.is_client {
        ResizeRoute::Pinned
    } else {
        ResizeRoute::PassThrough
    }
}

impl ResizeGrab {
    /// A resize that fingers drive; its edge is fixed by where they landed.
    pub fn new_touch(
        slot: i32,
        slots: usize,
        edges: ResizeEdge,
        location: Point,
        size: Size,
        constraints: SizeConstraints,
        pinned_initial_screen_pos: Option<Point>,
        preserve_aspect_ratio: bool,
    ) -> (r: ResizeGrab)
        ensures
            r == (ResizeGrab {
                is_client: true,
                edges,
                initial_window_location: location,
                initial_window_size: size,
                last_window_size: size,
                constraints,
                pinned_initial_screen_pos,
                locked_ratio: preserve_aspect_ratio && size.w > 0 && size.h > 0,
                touch_slot: Some(slot),
                touch_slots: slots,
            }),
    {
        ResizeGrab {
            is_client: true,
            edges,
            initial_window_location: location,
            initial_window_size: size,
            last_window_size: size,
            constraints,
            pinned_initial_screen_pos,
            locked_ratio: locks_ratio(preserve_aspect_ratio, size),
            touch_slot: Some(slot),
            touch_slots: slots,
        }
    }

    /// Where the motion of a finger goes: only the one that drives the resize
    /// counts.
    pub fn touch_route(&self, slot: i32, resolved: bool) -> (r: ResizeRoute)
        ensures
            r == (if self.touch_slot != Some(slot) || !resolved {
                ResizeRoute::PassThrough
            } else {
                target_route(*self)
            }),
    {
        let drives: bool = match self.touch_slot {
            Some(s) => s == slot,
            None => false,
        };
        if !drives {
            return ResizeRoute::PassThrough;
        }
        self.route(resolved, false)
    }

    /// Where a pointer motion goes. The target is resolved first, so that a
    /// dead pinned client stops receiving configures.
    pub fn route(&self, resolved: bool, other_output: bool) -> (r: ResizeRoute)
        ensures
            r == (if !resolved {
                ResizeRoute::PassThrough
            } else if other_output {
                ResizeRoute::SnapBack
            } else {
                target_route(*self)
            }),
    {
        if !resolved {
            ResizeRoute::PassThrough
        } else if other_output {
            ResizeRoute::SnapBack
        } else if self.pinned_initial_screen_pos.is_some() {
            if self.is_client {
                ResizeRoute::Pinned
            } else {
                ResizeRoute::PassThrough
            }
        } else {
            ResizeRoute::Canvas
        }
    }

    /// The size that a target comes to: bent onto a locked ratio, and held to
    /// the constraints, so that snapping and the cluster see the same size.
    pub fn held(&self, target: Size, height_for_width: i32, width_for_height: i32) -> (r: Size)
        ensures
            ({
                let (w, h) = if self.locked_ratio {
                    bent(
                        target,
                        self.initial_window_size,
                        self.edges,
                        height_for_width as int,
                        width_for_height as int,
                    )
                } else {
                    (target.w as int, target.h as int)
                };
                let c = self.constraints;
                r.w == clamp_axis(c.min.w as int, c.max.w as int, w) && r.h == clamp_axis(
                    c.min.h as int,
                    c.max.h as int,
                    h,
                )
            }),
    {
        let bent_size: Size = if self.locked_ratio {
            constrain_to_ratio(
                target,
                self.initial_window_size,
                self.edges,
                height_for_width,
                width_for_height,
            )
        } else {
            target
        };
        let (w, h): (i32, i32) = self.constraints.clamp(bent_size.w, bent_size.h);
        Size { w, h }
    }

    /// Does the resize snap to nearby windows? Not at a locked ratio: snapping
    /// one axis would fight the derived one.
    pub fn snaps(&self, snap_enabled: bool) -> (r: bool)
        ensures
            r == (snap_enabled && !self.locked_ratio),
    {
        snap_enabled && !self.locked_ratio
    }

    /// Does the resize move the cluster? At a locked ratio it is single-window.
    pub fn cascades(&self) -> (r: bool)
        ensures
            r == !self.locked_ratio,
    {
        !self.locked_ratio
    }

    /// Take a new size. A stand-in has no client to configure: it is resized
    /// and repositioned so that the edge opposite to the drag stays fixed.
    pub fn progress(&mut self, new_size: Size, members_moved: bool) -> (r: ResizeProgress)
        ensures
            r.size_progressed == (new_size != old(self).last_window_size),
            r.bump_blur == (r.size_progressed || members_moved),
            *final(self) == (ResizeGrab { last_window_size: new_size, ..*old(self) }),
            ({
                let g = *old(self);
                let x = anchored(
                    left(g.edges),
                    g.initial_window_location.x as int,
                    g.initial_window_size.w as int,
                    new_size.w as int,
                );
                let y = anchored(
                    top(g.edges),
                    g.initial_window_location.y as int,
                    g.initial_window_size.h as int,
                    new_size.h as int,
                );
                match r.stand_in_location {
                    Some(p) => r.size_progressed && !g.is_client && p.x == x && p.y == y,
                    None => !r.size_progressed || g.is_client || !geometry::point_fits(x, y),
                }
            }),
    {
        let size_progressed: bool = new_size.w != self.last_window_size.w || new_size.h
            != self.last_window_size.h;
        let stand_in_location: Option<Point> = if size_progressed && !self.is_client {
            reposition(
                self.initial_window_location,
                self.initial_window_size,
                self.edges,
                new_size,
            )
        } else {
            None
        };
        self.last_window_size = new_size;
        ResizeProgress {
            size_progressed,
            stand_in_location,
            bump_blur: size_progressed || members_moved,
        }
    }

    /// The state that the end of a client resize leaves: the next commit still
    /// repositions, and starts from the size that was last committed. A
    /// stand-in's state stays as it is.
    pub fn finalize(&self, state: ResizeState) -> (r: ResizeState)
        ensures
            r == finalized(*self, state),
    {
        if !self.is_client {
            return state;
        }
        let last_committed_size: Size = match state {
            ResizeState::Idle => self.initial_window_size,
            ResizeState::Resizing(d) => d.last_committed_size,
            ResizeState::WaitingForLastCommit(d) => d.last_committed_size,
        };
        ResizeState::WaitingForLastCommit(
            ResizeStart {
                edges: self.edges,
                initial_window_location: self.initial_window_location,
                initial_window_size: self.initial_window_size,
                initial_screen_pos: self.pinned_initial_screen_pos,
                last_committed_size,
            },
        )
    }

    /// One more finger is down.
    pub fn add_finger(&mut self)
        requires
            old(self).touch_slots < usize::MAX,
        ensures
            *final(self) == (ResizeGrab {
                touch_slots: (old(self).touch_slots + 1) as usize,
                ..*old(self)
            }),
    {
        self.touch_slots = self.touch_slots + 1;
    }

    /// A finger lifted. True when it was the last: the grab ends only then, so
    /// that stray fingers do not leak out of it.
    pub fn lift_finger(&mut self) -> (r: bool)
        ensures
            *final(self) == (ResizeGrab {
                touch_slots: if old(self).touch_slots == 0 {
                    0
                } else {
                    (old(self).touch_slots - 1) as usize
                },
                ..*old(self)
            }),
            r == (final(self).touch_slots == 0),
    {
        if self.touch_slots > 0 {
            self.touch_slots = self.touch_slots - 1;
        }
        self.touch_slots == 0
    }
}

/// The state that the end of a resize leaves.
pub open spec fn finalized(g: ResizeGrab, state: ResizeState) -> ResizeState {
    if !g.is_client {
        state
    } else {
        ResizeState::WaitingForLastCommit(
            ResizeStart {
                edges: g.edges,
                initial_window_location: g.initial_window_location,
                initial_window_size: g.initial_window_size,
                initial_screen_pos: g.pinned_initial_screen_pos,
                last_committed_size: match started(state) {
                    Some(d) => d.last_committed_size,
                    None => g.initial_window_size,
                },
            },
        )
    }
}

/// A client resize that has ended settles with the next commit, whatever went
/// before: the window comes to rest where the edge opposite to the drag has
/// been all along, and the resize is over.
pub proof fn lemma_ended_resize_settles(g: ResizeGrab, state: ResizeState, now: Size)
    requires
        g.is_client,
    ensures
        started(finalized(g, state)) matches Some(d) && d.edges == g.edges
            && d.initial_window_location == g.initial_window_location && d.initial_window_size
            == g.initial_window_size && d.initial_screen_pos == g.pinned_initial_screen_pos,
        state_after_commit(finalized(g, state), now) is Idle,
        left(g.edges) ==> anchored(
            left(g.edges),
            g.initial_window_location.x as int,
            g.initial_window_size.w as int,
            now.w as int,
        ) + now.w == g.initial_window_location.x + g.initial_window_size.w,
        top(g.edges) ==> anchored(
            top(g.edges),
            g.initial_window_location.y as int,
            g.initial_window_size.h as int,
            now.h as int,
        ) + now.h == g.initial_window_location.y + g.initial_window_size.h,
{
}

// ── Suspended windows ────────────────────────────────────────────────

/// Along one axis, a suspended window's corner and length after a drag: the far
/// edge grows it, the near edge grows it the other way and moves the corner;
/// either stops at the minimum.
pub open spec fn suspended_axis(
    near: bool,
    far: bool,
    corner: int,
    length: int,
    d: int,
) -> (int, int) {
    if far {
        (corner, geometry::larger(length + d, MIN_SUSPENDED_SIZE as int))
    } else if near {
        let held = geometry::smaller(d, length - MIN_SUSPENDED_SIZE);
        (corner + held, length - held)
    } else {
        (corner, length)
    }
}

fn resize_axis(near: bool, far: bool, corner: i32, length: i32, d: i32) -> (r: (i64, i64))
    ensures
        (r.0 as int, r.1 as int) == suspended_axis(
            near,
            far,
            corner as int,
            length as int,
            d as int,
        ),
{
    let c: i64 = corner as i64;
    let l: i64 = length as i64;
    let dd: i64 = d as i64;
    let min: i64 = MIN_SUSPENDED_SIZE as i64;
    if far {
        if l + dd >= min {
            (c, l + dd)
        } else {
            (c, min)
        }
    } else if near {
        let held: i64 = if dd <= l - min {
            dd
        } else {
            l - min
        };
        (c + held, l - held)
    } else {
        (c, l)
    }
}

/// Where a suspended window goes and how large it gets when its edges are
/// dragged, none where that fits no coordinate.
pub fn resize_suspended(
    edges: ResizeEdge,
    initial_loc: Point,
    initial_size: Size,
    dx: i32,
    dy: i32,
) -> (r: Option<(Point, Size)>)
    ensures
        ({
            let (x, w) = suspended_axis(
                left(edges),
                right(edges),
                initial_loc.x as int,
                initial_size.w as int,
                dx as int,
            );
            let (y, h) = suspended_axis(
                top(edges),
                bottom(edges),
                initial_loc.y as int,
                initial_size.h as int,
                dy as int,
            );
            match r {
                Some((p, s)) => p.x == x && p.y == y && s.w == w && s.h == h,
                None => !geometry::point_fits(x, y) || !geometry::point_fits(w, h),
            }
        }),
{
    let (x, w): (i64, i64) = resize_axis(
        has_left(edges),
        has_right(edges),
        initial_loc.x,
        initial_size.w,
        dx,
    );
    let (y, h): (i64, i64) = resize_axis(
        has_top(edges),
        has_bottom(edges),
        initial_loc.y,
        initial_size.h,
        dy,
    );
    match (
        geometry::to_coordinate(x),
        geometry::to_coordinate(y),
        geometry::to_coordinate(w),
        geometry::to_coordinate(h),
    ) {
        (Some(x), Some(y), Some(w), Some(h)) => Some((Point { x, y }, Size { w, h })),
        _ => None,
    }
}

/// A dragged suspended window never gets smaller than the minimum, and the edge
/// opposite to the drag does not move.
pub proof fn lemma_suspended_resize(near: bool, far: bool, corner: int, length: int, d: int)
    ensures
        near || far ==> suspended_axis(near, far, corner, length, d).1 >= MIN_SUSPENDED_SIZE,
        near && !far ==> suspended_axis(near, far, corner, length, d).0 + suspended_axis(
            near,
            far,
            corner,
            length,
            d,
        ).1 == corner + length,
        far || !near ==> suspended_axis(near, far, corner, length, d).0 == corner,
{
}

// ── Edges under fingers ──────────────────────────────────────────────

/// The bits of one third.
pub const ONE_THIRD: u64 = 0x3fd5_5555_5555_5555;

/// The bits of two thirds.
pub const TWO_THIRDS: u64 = 0x3fe5_5555_5555_5555;

/// The edge that fingers drag: the cell of a 3×3 grid where they landed, given
/// as fractions of the window. The center cell drags the bottom-right corner.
pub open spec fn edge_at(fx: Real, fy: Real) -> ResizeEdge {
    let l = numbers::less(fx, Real { bits: ONE_THIRD });
    let r = numbers::less(Real { bits: TWO_THIRDS }, fx);
    let t = numbers::less(fy, Real { bits: ONE_THIRD });
    let b = numbers::less(Real { bits: TWO_THIRDS }, fy);
    if l && t {
        ResizeEdge::TopLeft
    } else if r && t {
        ResizeEdge::TopRight
    } else if l && b {
        ResizeEdge::BottomLeft
    } else if r && b {
        ResizeEdge::BottomRight
    } else if t {
        ResizeEdge::Top
    } else if b {
        ResizeEdge::Bottom
    } else if l {
        ResizeEdge::Left
    } else if r {
        ResizeEdge::Right
    } else {
        ResizeEdge::BottomRight
    }
}

/// The edge that fingers drag, from where they landed within a window: `fx` and
/// `fy` are fractions of its width and height, one half where it has none.
pub fn edge_from_origin(fx: Real, fy: Real) -> (e: ResizeEdge)
    ensures
        e == edge_at(fx, fy),
{
    let third: Real = Real { bits: ONE_THIRD };
    let thirds: Real = Real { bits: TWO_THIRDS };
    let l: bool = fx.less(&third);
    let r: bool = thirds.less(&fx);
    let t: bool = fy.less(&third);
    let b: bool = thirds.less(&fy);
    if l && t {
        ResizeEdge::TopLeft
    } else if r && t {
        ResizeEdge::TopRight
    } else if l && b {
        ResizeEdge::BottomLeft
    } else if r && b {
        ResizeEdge::BottomRight
    } else if t {
        ResizeEdge::Top
    } else if b {
        ResizeEdge::Bottom
    } else if l {
        ResizeEdge::Left
    } else if r {
        ResizeEdge::Right
    } else {
        ResizeEdge::BottomRight
    }
}

/// Fingers drag the sides they landed at, never the opposite ones, and always
/// some edge.
pub proof fn lemma_edge_follows_fingers(fx: Real, fy: Real)
    ensures
        !(edge_at(fx, fy) is Nothing),
        numbers::less(fx, Real { bits: ONE_THIRD }) ==> left(edge_at(fx, fy)),
        numbers::less(Real { bits: TWO_THIRDS }, fx) ==> right(edge_at(fx, fy)),
        numbers::less(fy, Real { bits: ONE_THIRD }) ==> top(edge_at(fx, fy)),
        numbers::less(Real { bits: TWO_THIRDS }, fy) ==> bottom(edge_at(fx, fy)),
{
}

// ── Edges ────────────────────────────────────────────────────────────

/// The left edge of a dragged window follows the cursor where the drag has hold
/// of it, and so does the right one; an edge that it has no hold of stays. Each
/// corner moves both of its sides. The window is where its size and the fixed
/// edge put it.
pub proof fn lemma_sides_follow_the_cursor(initial: Size, e: ResizeEdge, dx: int, corner: int)
    ensures
        ({
            let w = dragged_width(initial, e, dx);
            let x = anchored(left(e), corner, initial.w as int, w);
            match e {
                ResizeEdge::Left | ResizeEdge::TopLeft | ResizeEdge::BottomLeft => x == corner + dx
                    && x + w == corner + initial.w,
                ResizeEdge::Right | ResizeEdge::TopRight | ResizeEdge::BottomRight => x == corner
                    && x + w == corner + initial.w + dx,
                ResizeEdge::Top | ResizeEdge::Bottom | ResizeEdge::Nothing => x == corner && x + w
                    == corner + initial.w,
            }
        }),
{
}

/// The top and the bottom edge of a dragged window follow the cursor where the
/// drag has hold of them, and stay otherwise.
pub proof fn lemma_ends_follow_the_cursor(initial: Size, e: ResizeEdge, dy: int, corner: int)
    ensures
        ({
            let h = dragged_height(initial, e, dy);
            let y = anchored(top(e), corner, initial.h as int, h);
            match e {
                ResizeEdge::Top | ResizeEdge::TopLeft | ResizeEdge::TopRight => y == corner + dy
                    && y + h == corner + initial.h,
                ResizeEdge::Bottom | ResizeEdge::BottomLeft | ResizeEdge::BottomRight => y
                    == corner && y + h == corner + initial.h + dy,
                ResizeEdge::Left | ResizeEdge::Right | ResizeEdge::Nothing => y == corner && y + h
                    == corner + initial.h,
            }
        }),
{
}

/// The size that a drag asks for, edge by edge: a dragged side changes its
/// length by exactly the drag, any other keeps it, and there is a size as long
/// as both lengths fit.
pub proof fn lemma_drag_changes_dragged_sides(initial: Size, e: ResizeEdge, dx: int, dy: int)
    ensures
        dragged_width(initial, e, dx) - initial.w == (match e {
            ResizeEdge::Right | ResizeEdge::TopRight | ResizeEdge::BottomRight => dx,
            ResizeEdge::Left | ResizeEdge::TopLeft | ResizeEdge::BottomLeft => -dx,
            ResizeEdge::Top | ResizeEdge::Bottom | ResizeEdge::Nothing => 0,
        }),
        dragged_height(initial, e, dy) - initial.h == (match e {
            ResizeEdge::Bottom | ResizeEdge::BottomLeft | ResizeEdge::BottomRight => dy,
            ResizeEdge::Top | ResizeEdge::TopLeft | ResizeEdge::TopRight => -dy,
            ResizeEdge::Left | ResizeEdge::Right | ResizeEdge::Nothing => 0,
        }),
{
}

/// The edges that the protocol numbers: each edge has the bit of every side it
/// drags, so that a corner has two.
pub proof fn lemma_edge_numbers(e: ResizeEdge)
    ensures
        edge_number(e) == (match e {
            ResizeEdge::Nothing => 0int,
            ResizeEdge::Top => 1,
            ResizeEdge::Bottom => 2,
            ResizeEdge::Left => 4,
            ResizeEdge::TopLeft => 5,
            ResizeEdge::BottomLeft => 6,
            ResizeEdge::Right => 8,
            ResizeEdge::TopRight => 9,
            ResizeEdge::BottomRight => 10,
        }),
{
}

/// A suspended window's dragged edge follows the cursor until the window is at
/// its minimum, and an edge that is not dragged stays.
pub proof fn lemma_suspended_sides_follow_the_cursor(
    e: ResizeEdge,
    corner: Point,
    size: Size,
    dx: int,
    dy: int,
)
    ensures
        ({
            let (x, w) = suspended_axis(left(e), right(e), corner.x as int, size.w as int, dx);
            match e {
                ResizeEdge::Left | ResizeEdge::TopLeft | ResizeEdge::BottomLeft => {
                    &&& x + w == corner.x + size.w
                    &&& size.w - dx >= 120 ==> x == corner.x + dx
                    &&& size.w - dx < 120 ==> w == 120
                },
                ResizeEdge::Right | ResizeEdge::TopRight | ResizeEdge::BottomRight => {
                    &&& x == corner.x
                    &&& size.w + dx >= 120 ==> w == size.w + dx
                    &&& size.w + dx < 120 ==> w == 120
                },
                ResizeEdge::Top | ResizeEdge::Bottom | ResizeEdge::Nothing => x == corner.x && w
                    == size.w,
            }
        }),
        ({
            let (y, h) = suspended_axis(top(e), bottom(e), corner.y as int, size.h as int, dy);
            match e {
                ResizeEdge::Top | ResizeEdge::TopLeft | ResizeEdge::TopRight => {
                    &&& y + h == corner.y + size.h
                    &&& size.h - dy >= 120 ==> y == corner.y + dy
                    &&& size.h - dy < 120 ==> h == 120
                },
                ResizeEdge::Bottom | ResizeEdge::BottomLeft | ResizeEdge::BottomRight => {
                    &&& y == corner.y
                    &&& size.h + dy >= 120 ==> h == size.h + dy
                    &&& size.h + dy < 120 ==> h == 120
                },
                ResizeEdge::Left | ResizeEdge::Right | ResizeEdge::Nothing => y == corner.y && h
                    == size.h,
            }
        }),
{
}

/// A length held to its bounds is the nearest one that they allow: it moves only
/// as far as the bound that it breaks, and a maximum has the last word.
pub proof fn lemma_clamp_moves_least(min: int, max: int, n: int)
    ensures
        ({
            let low = if min > 1 { min } else { 1int };
            let r = clamp_axis(min, max, n);
            &&& max > 0 && (n > max || low > max) ==> r == max
            &&& (max <= 0 || low <= max) && n < low ==> r == low
            &&& n >= low && (max <= 0 || n <= max) ==> r == n
        }),
{
}

/// At a locked ratio one side is what the drag asks for and the other follows
/// from it: the width leads on a side edge, the height on the top and bottom
/// edges, and on a corner the one that moved farther for its length.
pub proof fn lemma_locked_ratio_follows_the_drag(
    target: Size,
    initial: Size,
    e: ResizeEdge,
    height_for_width: int,
    width_for_height: int,
)
    ensures
        ({
            let b = bent(target, initial, e, height_for_width, width_for_height);
            let by_width = b.0 == target.w && b.1 == (if height_for_width >= 1 {
                height_for_width
            } else {
                1
            });
            let by_height = b.1 == target.h && b.0 == (if width_for_height >= 1 {
                width_for_height
            } else {
                1
            });
            let dw = if target.w >= initial.w { target.w - initial.w } else { initial.w - target.w };
            let dh = if target.h >= initial.h { target.h - initial.h } else { initial.h - target.h };
            match e {
                ResizeEdge::Left | ResizeEdge::Right => by_width,
                ResizeEdge::Top | ResizeEdge::Bottom => by_height,
                _ => {
                    &&& dw * initial.h >= dh * initial.w ==> by_width
                    &&& dw * initial.h < dh * initial.w ==> by_height
                },
            }
        }),
{
}

/// The edge under fingers, cell by cell of the grid that the thirds of the
/// window make.
pub proof fn lemma_edge_of_each_cell(fx: Real, fy: Real)
    ensures
        ({
            let l = numbers::less(fx, Real { bits: 0x3fd5_5555_5555_5555 });
            let r = numbers::less(Real { bits: 0x3fe5_5555_5555_5555 }, fx);
            let t = numbers::less(fy, Real { bits: 0x3fd5_5555_5555_5555 });
            let b = numbers::less(Real { bits: 0x3fe5_5555_5555_5555 }, fy);
            match edge_at(fx, fy) {
                ResizeEdge::TopLeft => l && t,
                ResizeEdge::Top => t && !l && !r,
                ResizeEdge::TopRight => r && t,
                ResizeEdge::Left => l && !t && !b,
                ResizeEdge::Right => r && !t && !b,
                ResizeEdge::BottomLeft => l && b,
                ResizeEdge::Bottom => b && !l && !r,
                ResizeEdge::BottomRight => !l && !t && (r == b),
                ResizeEdge::Nothing => false,
            }
        }),
{
}

/// A resize that goes on stays the same resize but for the size committed last,
/// and one that ended is over with its commit.
pub proof fn lemma_commits_of_a_resize(d: ResizeStart, now: Size)
    ensures
        state_after_commit(ResizeState::Resizing(d), now) == ResizeState::Resizing(
            ResizeStart {
                edges: d.edges,
                initial_window_location: d.initial_window_location,
                initial_window_size: d.initial_window_size,
                initial_screen_pos: d.initial_screen_pos,
                last_committed_size: now,
            },
        ),
        state_after_commit(ResizeState::WaitingForLastCommit(d), now) is Idle,
        state_after_commit(ResizeState::Idle, now) is Idle,
        started(ResizeState::Resizing(d)) == Some(d),
        started(ResizeState::WaitingForLastCommit(d)) == Some(d),
        started(ResizeState::Idle) is None,
{
}

/// What a resize that ended goes on from: the last commit of the resize, or the
/// initial size where there was none; a stand-in has nothing to wait for.
pub proof fn lemma_end_of_a_resize(g: ResizeGrab, d: ResizeStart)
    ensures
        g.is_client ==> (started(finalized(g, ResizeState::Resizing(d))) matches Some(s)
            && s.last_committed_size == d.last_committed_size),
        g.is_client ==> (started(finalized(g, ResizeState::Idle)) matches Some(s)
            && s.last_committed_size == g.initial_window_size),
        g.is_client ==> finalized(g, ResizeState::Resizing(d)) is WaitingForLastCommit,
        !g.is_client ==> finalized(g, ResizeState::Resizing(d)) == ResizeState::Resizing(d),
        !g.is_client ==> finalized(g, ResizeState::Idle) is Idle,
{
}

/// A client window is resized in screen space if and only if it is pinned, and
/// anything on the canvas is resized there.
pub proof fn lemma_route_of_a_target(g: ResizeGrab)
    ensures
        g.pinned_initial_screen_pos is None ==> target_route(g) is Canvas,
        g.pinned_initial_screen_pos is Some && g.is_client ==> target_route(g) is Pinned,
        g.pinned_initial_screen_pos is Some && !g.is_client ==> target_route(g) is PassThrough,
{
}

} // verus!
