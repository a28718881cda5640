//! The infinite canvas: window-rule coordinates, the box around all windows,
//! the nearest window in a direction, and the momentum of a pan.
use vstd::prelude::*;

use crate::config::numbers;
use crate::config::numbers::Real;
use crate::geometry;
use crate::geometry::{hold, Point, Rect, Size};
use crate::grabs::touch_fingers;
use crate::grabs::touch_fingers::{make_origin, ScreenPos};

verus! {

// ── Window-rule coordinates ──────────────────────────────────────────

/// The center of a window in the user-facing convention (Y up), from its
/// top-left corner (Y down).
pub open spec fn rule_center(loc_x: int, loc_y: int, size: Size) -> (int, int) {
    (loc_x + geometry::half(size.w as int), -(loc_y + geometry::half(size.h as int)))
}

/// The top-left corner (Y down) of a window, from its center in the user-facing
/// convention (Y up).
pub open spec fn internal_corner(x: int, y: int, size: Size) -> (int, int) {
    (x - geometry::half(size.w as int), -y - geometry::half(size.h as int))
}

/// Convert internal canvas coordinates (top-left origin, Y down) to the
/// user-facing window-rule convention (center, Y up).
pub fn internal_to_rule(loc: Point, size: Size) -> (r: (i32, i32))
    ensures
        r.0 == geometry::held(rule_center(loc.x as int, loc.y as int, size).0),
        r.1 == geometry::held(rule_center(loc.x as int, loc.y as int, size).1),
{
    let x: i64 = loc.x as i64 + geometry::halve(size.w) as i64;
    let y: i64 = loc.y as i64 + geometry::halve(size.h) as i64;
    (hold(x), hold(-y))
}

/// Window-rule coordinates (center, Y up) back to internal top-left, Y-down
/// canvas coordinates.
pub fn rule_to_internal(x: i32, y: i32, size: Size) -> (r: Point)
    ensures
        r.x == geometry::held(internal_corner(x as int, y as int, size).0),
        r.y == geometry::held(internal_corner(x as int, y as int, size).1),
{
    let px: i64 = x as i64 - geometry::halve(size.w) as i64;
    let py: i64 = -(y as i64) - geometry::halve(size.h) as i64;
    Point { x: hold(px), y: hold(py) }
}

/// Rule coordinates and internal coordinates undo each other, also for odd
/// sizes: the same truncated half is used both ways.
pub proof fn lemma_rule_coordinates_round_trip(x: int, y: int, size: Size)
    ensures
        ({
            let (rx, ry) = rule_center(x, y, size);
            internal_corner(rx, ry, size) == (x, y)
        }),
        ({
            let (px, py) = internal_corner(x, y, size);
            rule_center(px, py, size) == (x, y)
        }),
{
}

/// Top-left corner on an output of a window whose center a rule gives from the
/// output's center, Y up.
pub open spec fn screen_corner(x: int, y: int, size: Size, output: Size) -> (int, int) {
    (
        geometry::half(output.w as int) + x - geometry::half(size.w as int),
        geometry::half(output.h as int) - y - geometry::half(size.h as int),
    )
}

/// Where a rule puts a window on an output.
pub fn rule_to_screen_top_left(x: i32, y: i32, size: Size, output: Size) -> (r: Point)
    ensures
        r.x == geometry::held(screen_corner(x as int, y as int, size, output).0),
        r.y == geometry::held(screen_corner(x as int, y as int, size, output).1),
{
    let px: i64 = geometry::halve(output.w) as i64 + x as i64 - geometry::halve(size.w) as i64;
    let py: i64 = geometry::halve(output.h) as i64 - y as i64 - geometry::halve(size.h) as i64;
    Point { x: hold(px), y: hold(py) }
}

/// A corner moved so that the window lies on the output, or at the origin along
/// an axis on which it is too long.
pub open spec fn corner_on_output(corner: int, length: int, output: int) -> int {
    geometry::between(0, geometry::larger(output - length, 0), corner)
}

/// A window's place moved onto an output.
pub fn clamp_to_output(corner: Point, size: Size, output: Size) -> (r: Point)
    ensures
        r.x == geometry::held(
            corner_on_output(corner.x as int, size.w as int, output.w as int),
        ),
        r.y == geometry::held(
            corner_on_output(corner.y as int, size.h as int, output.h as int),
        ),
{
    let room_w: i64 = output.w as i64 - size.w as i64;
    let room_h: i64 = output.h as i64 - size.h as i64;
    let max_x: i64 = if room_w >= 0 {
        room_w
    } else {
        0
    };
    let max_y: i64 = if room_h >= 0 {
        room_h
    } else {
        0
    };
    Point {
        x: hold(geometry::hold_between(0, max_x, corner.x as i64)),
        y: hold(geometry::hold_between(0, max_y, corner.y as i64)),
    }
}

/// A window that fits an output is put fully onto it, and one that lies on it
/// already stays where it is.
pub proof fn lemma_clamped_window_is_visible(corner: int, length: int, output: int)
    requires
        0 <= length <= output,
    ensures
        0 <= corner_on_output(corner, length, output),
        corner_on_output(corner, length, output) + length <= output,
        0 <= corner && corner + length <= output ==> corner_on_output(corner, length, output)
            == corner,
{
}

// ── The box around all windows ───────────────────────────────────────

/// The least of some numbers.
pub open spec fn least(s: Seq<int>) -> int
    decreases s.len(),
{
    if s.len() <= 1 {
        s[0]
    } else {
        geometry::smaller(least(s.drop_last()), s.last())
    }
}

/// The greatest of some numbers.
pub open spec fn greatest(s: Seq<int>) -> int
    decreases s.len(),
{
    if s.len() <= 1 {
        s[0]
    } else {
        geometry::larger(greatest(s.drop_last()), s.last())
    }
}

/// The left edges of windows.
pub open spec fn lefts(w: Seq<(Point, Size)>) -> Seq<int> {
    w.map_values(|e: (Point, Size)| e.0.x as int)
}

/// The top edges of windows.
pub open spec fn tops(w: Seq<(Point, Size)>) -> Seq<int> {
    w.map_values(|e: (Point, Size)| e.0.y as int)
}

/// The right edges of windows.
pub open spec fn rights(w: Seq<(Point, Size)>) -> Seq<int> {
    w.map_values(|e: (Point, Size)| e.0.x + e.1.w)
}

/// The bottom edges of windows.
pub open spec fn bottoms(w: Seq<(Point, Size)>) -> Seq<int> {
    w.map_values(|e: (Point, Size)| e.0.y + e.1.h)
}

/// The box around windows: from the least left and top edge to the greatest
/// right and bottom edge.
pub open spec fn is_bbox(w: Seq<(Point, Size)>, r: Rect) -> bool {
    &&& r.loc.x == least(lefts(w))
    &&& r.loc.y == least(tops(w))
    &&& r.size.w == geometry::held(greatest(rights(w)) - least(lefts(w)))
    &&& r.size.h == geometry::held(greatest(bottoms(w)) - least(tops(w)))
}

proof fn lemma_grown(s: Seq<int>, n: int)
    requires
        s.len() > 0,
    ensures
        least(s.push(n)) == geometry::smaller(least(s), n),
        greatest(s.push(n)) == geometry::larger(greatest(s), n),
{
    assert(s.push(n).drop_last() =~= s);
}

/// Bounding box of all windows, none where there are none.
pub fn all_windows_bbox(windows: &Vec<(Point, Size)>) -> (r: Option<Rect>)
    ensures
        match r {
            Some(b) => windows@.len() > 0 && is_bbox(windows@, b),
            None => windows@.len() == 0,
        },
{
    let n: usize = windows.len();
    if n == 0 {
        return None;
    }
    let (p, s): (Point, Size) = windows[0];
    let mut min_x: i32 = p.x;
    let mut min_y: i32 = p.y;
    let mut max_x: i64 = p.x as i64 + s.w as i64;
    let mut max_y: i64 = p.y as i64 + s.h as i64;
    let mut i: usize = 1;
    proof {
        let one = windows@.take(1);
        assert(lefts(one)[0] == p.x && tops(one)[0] == p.y);
        assert(rights(one)[0] == p.x + s.w && bottoms(one)[0] == p.y + s.h);
    }
    while i < n
        invariant
            1 <= i <= n,
            n == windows@.len(),
            min_x == least(lefts(windows@.take(i as int))),
            min_y == least(tops(windows@.take(i as int))),
            max_x == greatest(rights(windows@.take(i as int))),
            max_y == greatest(bottoms(windows@.take(i as int))),
            -4_294_967_296 <= max_x <= 4_294_967_294,
            -4_294_967_296 <= max_y <= 4_294_967_294,
        decreases n - i,
    {
        let (p, s): (Point, Size) = windows[i];
        let ghost t = windows@.take(i as int);
        proof {
            let u = windows@.take(i + 1);
            assert(lefts(u) =~= lefts(t).push(p.x as int));
            assert(tops(u) =~= tops(t).push(p.y as int));
            assert(rights(u) =~= rights(t).push(p.x + s.w));
            assert(bottoms(u) =~= bottoms(t).push(p.y + s.h));
            lemma_grown(lefts(t), p.x as int);
            lemma_grown(tops(t), p.y as int);
            lemma_grown(rights(t), p.x + s.w);
            lemma_grown(bottoms(t), p.y + s.h);
        }
        let x: i64 = p.x as i64 + s.w as i64;
        let y: i64 = p.y as i64 + s.h as i64;
        if p.x < min_x {
            min_x = p.x;
        }
        if p.y < min_y {
            min_y = p.y;
        }
        if x > max_x {
            max_x = x;
        }
        if y > max_y {
            max_y = y;
        }
        i = i + 1;
    }
    proof {
        assert(windows@.take(n as int) =~= windows@);
    }
    Some(
        Rect {
            loc: Point { x: min_x, y: min_y },
            size: Size { w: hold(max_x - min_x as i64), h: hold(max_y - min_y as i64) },
        },
    )
}

/// The least and greatest of some numbers bound them all, and are among them.
pub proof fn lemma_extremes(s: Seq<int>)
    requires
        s.len() > 0,
    ensures
        forall|i: int| 0 <= i < s.len() ==> least(s) <= #[trigger] s[i] <= greatest(s),
        s.contains(least(s)),
        s.contains(greatest(s)),
    decreases s.len(),
{
    if s.len() > 1 {
        let front = s.drop_last();
        lemma_extremes(front);
        assert forall|i: int| 0 <= i < s.len() implies least(s) <= #[trigger] s[i] <= greatest(
            s,
        ) by {
            if i < front.len() {
                assert(front[i] == s[i]);
            }
        }
        let a = choose|a: int| 0 <= a < front.len() && front[a] == least(front);
        let b = choose|b: int| 0 <= b < front.len() && front[b] == greatest(front);
        assert(s[a] == least(front) && s[b] == greatest(front));
        assert(s[s.len() - 1] == s.last());
    } else {
        assert(s[0] == least(s));
    }
}

/// The box around windows holds every one of them.
pub proof fn lemma_bbox_holds_windows(w: Seq<(Point, Size)>, b: Rect, i: int)
    requires
        is_bbox(w, b),
        0 <= i < w.len(),
        geometry::fits(greatest(rights(w)) - least(lefts(w))),
        geometry::fits(greatest(bottoms(w)) - least(tops(w))),
    ensures
        b.loc.x <= w[i].0.x,
        b.loc.y <= w[i].0.y,
        w[i].0.x + w[i].1.w <= b.loc.x + b.size.w,
        w[i].0.y + w[i].1.h <= b.loc.y + b.size.h,
{
    lemma_extremes(lefts(w));
    lemma_extremes(tops(w));
    lemma_extremes(rights(w));
    lemma_extremes(bottoms(w));
    assert(lefts(w)[i] == w[i].0.x && tops(w)[i] == w[i].0.y);
    assert(rights(w)[i] == w[i].0.x + w[i].1.w && bottoms(w)[i] == w[i].0.y + w[i].1.h);
}

/// The box that the zoom limit is taken from: around all windows, or a small
/// virtual one at the origin, so that the limit stays consistent as the first
/// window appears.
pub fn zoom_limit_box(windows: &Vec<(Point, Size)>) -> (r: Rect)
    ensures
        windows@.len() > 0 ==> is_bbox(windows@, r),
        windows@.len() == 0 ==> r.loc.x == -2 && r.loc.y == -2 && r.size.w == 5 && r.size.h == 5,
{
    match all_windows_bbox(windows) {
        Some(b) => b,
        None => Rect { loc: Point { x: -2, y: -2 }, size: Size { w: 5, h: 5 } },
    }
}

// ── The nearest window in a direction ────────────────────────────────

/// A window seen from an origin in a direction: how far along the direction it
/// lies, how far beside it, and its score (distance over cosine).
#[derive(Clone, Copy, Debug, PartialEq, Eq, Structural)]
pub struct Candidate {
    pub id: u64,
    pub dot: Real,
    pub cross: Real,
    pub score: Real,
}

/// Does a candidate lie in the 90° cone of the direction?
pub open spec fn in_cone(c: Candidate) -> bool {
    numbers::less(Real { bits: 0 }, c.dot) && numbers::at_least(c.dot, c.cross)
}

/// Is a candidate considered at all?
pub open spec fn considered(c: Candidate, skip: Option<u64>) -> bool {
    skip != Some(c.id) && in_cone(c)
}

/// The index of the best candidate: the first of those with the least score
/// among the considered ones.
pub open spec fn best_candidate(items: Seq<Candidate>, skip: Option<u64>) -> Option<int>
    decreases items.len(),
{
    if items.len() == 0 {
        None
    } else {
        let before = best_candidate(items.drop_last(), skip);
        let last = items.len() - 1;
        if !considered(items[last], skip) {
            before
        } else {
            match before {
                Some(b) => if numbers::less(items[last].score, items[b].score) {
                    Some(last)
                } else {
                    Some(b)
                },
                None => Some(last),
            }
        }
    }
}

/// Find the nearest window in a 90° cone. Windows aligned with the direction are
/// preferred even if further away.
pub fn find_nearest(items: &Vec<Candidate>, skip: Option<u64>) -> (r: Option<u64>)
    ensures
        r == (match best_candidate(items@, skip) {
            Some(b) => Some(items@[b].id),
            None => None,
        }),
{
    let n: usize = items.len();
    let zero: Real = Real { bits: 0 };
    let mut best: Option<usize> = None;
    let mut i: usize = 0;
    while i < n
        invariant
            i <= n,
            n == items@.len(),
            zero == (Real { bits: 0 }),
            best matches Some(b) ==> b < i,
            best_candidate(items@.take(i as int), skip) == (match best {
                Some(b) => Some(b as int),
                None => None,
            }),
        decreases n - i,
    {
        let c: Candidate = items[i];
        let skipped: bool = match skip {
            Some(s) => s == c.id,
            None => false,
        };
        proof {
            assert(items@.take(i + 1).drop_last() =~= items@.take(i as int));
            assert(items@.take(i + 1)[i as int] == c);
        }
        if !skipped && zero.less(&c.dot) && c.dot.at_least(&c.cross) {
            match best {
                Some(b) => {
                    proof {
                        assert(items@.take(i + 1)[b as int] == items@[b as int]);
                    }
                    if c.score.less(&items[b].score) {
                        best = Some(i);
                    }
                },
                None => {
                    best = Some(i);
                },
            }
        }
        i = i + 1;
    }
    proof {
        assert(items@.take(n as int) =~= items@);
    }
    match best {
        Some(b) => Some(items[b].id),
        None => None,
    }
}

/// The window found lies in the cone and is not the skipped one; one is found
/// whenever there is one to consider; and where all scores are numbers, none
/// considered has a smaller score, and the first of equal ones is taken.
pub proof fn lemma_nearest_is_best(items: Seq<Candidate>, skip: Option<u64>)
    requires
        forall|i: int|
            0 <= i < items.len() ==> numbers::real_rank((#[trigger] items[i]).score) is Some,
    ensures
        best_candidate(items, skip) is Some == exists|i: int|
            0 <= i < items.len() && considered(#[trigger] items[i], skip),
        best_candidate(items, skip) matches Some(b) ==> 0 <= b < items.len() && considered(
            items[b],
            skip,
        ) && forall|i: int|
            0 <= i < items.len() && considered(#[trigger] items[i], skip) ==> !numbers::less(
                items[i].score,
                items[b].score,
            ) && (i < b ==> numbers::less(items[b].score, items[i].score)),
    decreases items.len(),
{
    if items.len() > 0 {
        let front = items.drop_last();
        let last = items.len() - 1;
        assert forall|i: int| 0 <= i < front.len() implies numbers::real_rank(
            (#[trigger] front[i]).score,
        ) is Some by {
            assert(front[i] == items[i]);
        }
        lemma_nearest_is_best(front, skip);
        if exists|i: int| 0 <= i < items.len() && considered(#[trigger] items[i], skip) {
            let i = choose|i: int| 0 <= i < items.len() && considered(#[trigger] items[i], skip);
            if i < last {
                assert(front[i] == items[i]);
            }
        }
        if let Some(b) = best_candidate(front, skip) {
            assert(front[b] == items[b]);
        }
        if let Some(b) = best_candidate(items, skip) {
            assert(considered(items[b], skip));
            assert forall|i: int|
                0 <= i < items.len() && considered(
                    #[trigger] items[i],
                    skip,
                ) implies !numbers::less(items[i].score, items[b].score) && (i < b
                ==> numbers::less(items[b].score, items[i].score)) by {
                assert(numbers::real_rank(items[i].score) is Some);
                assert(numbers::real_rank(items[b].score) is Some);
                if i < last {
                    assert(front[i] == items[i]);
                }
                if let Some(f) = best_candidate(front, skip) {
                    assert(front[f] == items[f]);
                }
            }
        }
    }
}

// ── Momentum ─────────────────────────────────────────────────────────

/// The time window that a launch velocity is taken over.
pub const VELOCITY_WINDOW_MS: u32 = 80;

/// The bits of the speed below which a coast stops, 15 px/s.
pub const MOMENTUM_STOP_THRESHOLD: u64 = 0x402e_0000_0000_0000;

/// Milliseconds between two event times, across the wrap of the clock.
pub open spec fn between_times(from: u32, to: u32) -> int {
    if to >= from {
        to - from
    } else {
        to - from + 0x1_0000_0000
    }
}

fn time_between(from: u32, to: u32) -> (r: u32)
    ensures
        r == between_times(from, to),
{
    if to >= from {
        to - from
    } else {
        (to as u64 + 0x1_0000_0000 - from as u64) as u32
    }
}

/// Samples without those at the front that are older than the window.
pub open spec fn evicted(s: Seq<(u32, ScreenPos)>, now: u32) -> Seq<(u32, ScreenPos)>
    decreases s.len(),
{
    if s.len() > 0 && between_times(s[0].0, now) > VELOCITY_WINDOW_MS {
        evicted(s.drop_first(), now)
    } else {
        s
    }
}

/// Sliding-window velocity tracker for scroll and gesture input. Times are those
/// of the events, not of their processing: a burst drained late keeps its real
/// spacing.
#[derive(Debug, PartialEq, Eq)]
pub struct VelocityTracker {
    pub samples: Vec<(u32, ScreenPos)>,
}

impl View for VelocityTracker {
    type V = Seq<(u32, ScreenPos)>;

    open spec fn view(&self) -> Seq<(u32, ScreenPos)> {
        self.samples@
    }
}

/// The time that a launch velocity is taken over: from the first sample to the
/// last. None with fewer than two samples, or within one tick of the clock.
pub open spec fn launch_time(s: Seq<(u32, ScreenPos)>) -> Option<int> {
    if s.len() < 2 || between_times(s[0].0, s.last().0) == 0 {
        None
    } else {
        Some(between_times(s[0].0, s.last().0))
    }
}

impl VelocityTracker {
    pub fn new() -> (r: VelocityTracker)
        ensures
            r@ == Seq::<(u32, ScreenPos)>::empty(),
    {
        VelocityTracker { samples: Vec::new() }
    }

    /// Record a displacement; what has left the time window is dropped.
    pub fn push(&mut self, time_ms: u32, delta: ScreenPos)
        ensures
            final(self)@ == evicted(old(self)@.push((time_ms, delta)), time_ms),
    {
        self.samples.push((time_ms, delta));
        let ghost all = self.samples@;
        while self.samples.len() > 0 && time_between(self.samples[0].0, time_ms)
            > VELOCITY_WINDOW_MS
            invariant
                evicted(all, time_ms) == evicted(self.samples@, time_ms),
            decreases self.samples@.len(),
        {
            let ghost before = self.samples@;
            let _oldest = self.samples.remove(0);
            proof {
                assert(self.samples@ =~= before.drop_first());
            }
        }
    }

    /// The displacements and the milliseconds that a launch velocity is their
    /// sum over; none where the pan does not launch.
    pub fn launch_window(&self) -> (r: Option<u32>)
        ensures
            match r {
                Some(ms) => launch_time(self@) == Some(ms as int) && ms > 0,
                None => launch_time(self@) is None,
            },
    {
        let n: usize = self.samples.len();
        if n < 2 {
            return None;
        }
        let ms: u32 = time_between(self.samples[0].0, self.samples[n - 1].0);
        if ms == 0 {
            None
        } else {
            Some(ms)
        }
    }

    /// Forget every sample.
    pub fn clear(&mut self)
        ensures
            final(self)@ == Seq::<(u32, ScreenPos)>::empty(),
    {
        self.samples = Vec::new();
    }
}

proof fn lemma_evicted(s: Seq<(u32, ScreenPos)>, now: u32)
    ensures
        evicted(s, now).len() <= s.len(),
        evicted(s, now) == s.skip(s.len() - evicted(s, now).len()),
        evicted(s, now).len() > 0 ==> between_times(evicted(s, now)[0].0, now)
            <= VELOCITY_WINDOW_MS,
        s.len() > 0 && s.last().0 == now ==> evicted(s, now).len() > 0 && evicted(s, now).last()
            == s.last(),
    decreases s.len(),
{
    if s.len() > 0 && between_times(s[0].0, now) > VELOCITY_WINDOW_MS {
        lemma_evicted(s.drop_first(), now);
        let e = evicted(s, now);
        assert(s.drop_first().skip(s.len() - 1 - e.len()) =~= s.skip(s.len() - e.len()));
    } else {
        assert(s.skip(0) =~= s);
    }
}

/// A pan launches from what moved in the last moments only: after a push the
/// oldest sample is within the window, the newest is the one pushed, and
/// nothing in between is lost.
pub proof fn lemma_window_is_recent(s: Seq<(u32, ScreenPos)>, time: u32, delta: ScreenPos)
    ensures
        ({
            let e = evicted(s.push((time, delta)), time);
            &&& e.len() > 0
            &&& e.last() == (time, delta)
            &&& between_times(e[0].0, time) <= VELOCITY_WINDOW_MS
            &&& e == s.push((time, delta)).skip(s.len() + 1 - e.len())
            &&& launch_time(e) matches Some(ms) ==> 0 < ms <= VELOCITY_WINDOW_MS
        }),
{
    lemma_evicted(s.push((time, delta)), time);
}

/// Scroll momentum: live input resets it, a launch starts a coast, and the coast
/// stops when it gets slow.
#[derive(Debug, PartialEq, Eq)]
pub struct MomentumState {
    /// Canvas velocity, px/s.
    pub velocity: ScreenPos,
    pub tracker: VelocityTracker,
    pub drift: Real,
    pub coasting: bool,
}

/// What a tick of a coast does.
#[derive(Clone, Copy, Debug, PartialEq, Eq, Structural)]
pub enum MomentumTick {
    /// Nothing coasts.
    Rest,
    /// The coast got too slow and stopped.
    Stop,
    /// Apply the velocity for the tick, and let it decay.
    Coast,
}

impl MomentumState {
    pub fn new(drift: Real) -> (r: MomentumState)
        ensures
            r.velocity == touch_fingers::origin(),
            r.tracker@ == Seq::<(u32, ScreenPos)>::empty(),
            r.drift == drift,
            !r.coasting,
    {
        MomentumState {
            velocity: make_origin(),
            tracker: VelocityTracker::new(),
            drift,
            coasting: false,
        }
    }

    /// Record an input delta. Live input ends a coast.
    pub fn accumulate(&mut self, delta: ScreenPos, time_ms: u32)
        ensures
            final(self).tracker@ == evicted(old(self).tracker@.push((time_ms, delta)), time_ms),
            !final(self).coasting,
            final(self).velocity == old(self).velocity,
            final(self).drift == old(self).drift,
    {
        self.tracker.push(time_ms, delta);
        self.coasting = false;
    }

    /// Begin coasting at the tracker's launch velocity (the displacements over
    /// the launch window); from rest where there is no launch window.
    pub fn launch(&mut self, measured: ScreenPos)
        ensures
            final(self).velocity == (if launch_time(old(self).tracker@) is Some {
                measured
            } else {
                touch_fingers::origin()
            }),
            final(self).coasting,
            final(self).tracker@ == Seq::<(u32, ScreenPos)>::empty(),
            final(self).drift == old(self).drift,
    {
        self.velocity = if self.tracker.launch_window().is_some() {
            measured
        } else {
            make_origin()
        };
        self.coasting = true;
        self.tracker.clear();
    }

    /// Advance the coast, given its speed and what its velocity decays to.
    pub fn tick(&mut self, speed: &Real, decayed: ScreenPos) -> (r: MomentumTick)
        ensures
            r == (if !old(self).coasting {
                MomentumTick::Rest
            } else if numbers::less(*speed, Real { bits: MOMENTUM_STOP_THRESHOLD }) {
                MomentumTick::Stop
            } else {
                MomentumTick::Coast
            }),
            final(self).coasting == (r is Coast),
            final(self).velocity == (match r {
                MomentumTick::Rest => old(self).velocity,
                MomentumTick::Stop => touch_fingers::origin(),
                MomentumTick::Coast => decayed,
            }),
            final(self).tracker@ == old(self).tracker@,
            final(self).drift == old(self).drift,
    {
        if !self.coasting {
            return MomentumTick::Rest;
        }
        let threshold: Real = Real { bits: MOMENTUM_STOP_THRESHOLD };
        if speed.less(&threshold) {
            self.velocity = make_origin();
            self.coasting = false;
            return MomentumTick::Stop;
        }
        self.velocity = decayed;
        MomentumTick::Coast
    }

    /// Stop at once.
    pub fn stop(&mut self)
        ensures
            final(self).velocity == touch_fingers::origin(),
            final(self).tracker@ == Seq::<(u32, ScreenPos)>::empty(),
            !final(self).coasting,
            final(self).drift == old(self).drift,
    {
        self.velocity = make_origin();
        self.tracker.clear();
        self.coasting = false;
    }
}

// ── Zoom ─────────────────────────────────────────────────────────────

/// The bits of the dead zone around full zoom, 0.05.
pub const ZOOM_SNAP: u64 = 0x3fa9_9999_9999_999a;

/// The bits of the hard floor for zoom, 0.001.
pub const MIN_ZOOM_FLOOR: u64 = 0x3f50_624d_d2f1_a9fc;

/// The bits of the maximum zoom: native resolution.
pub const MAX_ZOOM: u64 = 0x3ff0_0000_0000_0000;

/// A zoom near full zoom snaps to it; `distance` is how far it is from it.
pub fn snap_zoom(zoom: Real, distance: &Real) -> (r: Real)
    ensures
        r == (if numbers::less(*distance, Real { bits: ZOOM_SNAP }) {
            Real { bits: MAX_ZOOM }
        } else {
            zoom
        }),
{
    let snap: Real = Real { bits: ZOOM_SNAP };
    if distance.less(&snap) {
        Real { bits: MAX_ZOOM }
    } else {
        zoom
    }
}

/// A zoom held between two limits.
pub open spec fn zoom_between(low: Real, high: Real, zoom: Real) -> Real {
    if numbers::less(zoom, low) {
        low
    } else if numbers::less(high, zoom) {
        high
    } else {
        zoom
    }
}

/// A zoom that fits held to the limits of zooming.
pub fn clamp_zoom(zoom: Real) -> (r: Real)
    ensures
        r == zoom_between(Real { bits: MIN_ZOOM_FLOOR }, Real { bits: MAX_ZOOM }, zoom),
{
    let low: Real = Real { bits: MIN_ZOOM_FLOOR };
    let high: Real = Real { bits: MAX_ZOOM };
    if zoom.less(&low) {
        low
    } else if high.less(&zoom) {
        high
    } else {
        zoom
    }
}

/// Is the canvas origin visible? The viewport spans from the camera to its far
/// corner.
pub fn is_origin_visible(camera: &ScreenPos, far: &ScreenPos) -> (r: bool)
    ensures
        r == (numbers::at_least(Real { bits: 0 }, camera.x) && numbers::at_least(
            far.x,
            Real { bits: 0 },
        ) && numbers::at_least(Real { bits: 0 }, camera.y) && numbers::at_least(
            far.y,
            Real { bits: 0 },
        )),
{
    let zero: Real = Real { bits: 0 };
    zero.at_least(&camera.x) && far.x.at_least(&zero) && zero.at_least(&camera.y)
        && far.y.at_least(&zero)
}

// ── Laws ─────────────────────────────────────────────────────────────

/// Is a candidate one to jump to: not the skipped one, ahead, and no farther
/// beside than ahead?
pub open spec fn ahead(c: Candidate, skip: Option<u64>) -> bool {
    &&& skip != Some(c.id)
    &&& numbers::real_rank(c.dot) matches Some(d) && d > 0 && (numbers::real_rank(
        c.cross,
    ) matches Some(x) && x <= d)
}

proof fn lemma_some_is_ahead(items: Seq<Candidate>, skip: Option<u64>)
    ensures
        best_candidate(items, skip) matches Some(b) ==> 0 <= b < items.len() && ahead(
            items[b],
            skip,
        ),
        best_candidate(items, skip) is None ==> forall|i: int|
            0 <= i < items.len() ==> !ahead(#[trigger] items[i], skip),
    decreases items.len(),
{
    if items.len() > 0 {
        let front = items.drop_last();
        lemma_some_is_ahead(front, skip);
        assert(considered(items.last(), skip) == ahead(items.last(), skip));
        if let Some(b) = best_candidate(front, skip) {
            assert(front[b] == items[b]);
        }
        if best_candidate(items, skip) is None {
            assert forall|i: int| 0 <= i < items.len() implies !ahead(
                #[trigger] items[i],
                skip,
            ) by {
                if i < front.len() {
                    assert(front[i] == items[i]);
                }
            }
        }
    }
}

/// A window is found if and only if one that is not skipped lies ahead, no
/// farther beside the direction than along it; what is found lies so; and where
/// all scores are numbers, none that lies so has a smaller score.
pub proof fn lemma_nearest_lies_ahead(items: Seq<Candidate>, skip: Option<u64>)
    ensures
        best_candidate(items, skip) is Some == exists|i: int|
            0 <= i < items.len() && ahead(#[trigger] items[i], skip),
        best_candidate(items, skip) matches Some(b) ==> 0 <= b < items.len() && ahead(
            items[b],
            skip,
        ),
        (forall|i: int|
            0 <= i < items.len() ==> numbers::real_rank((#[trigger] items[i]).score) is Some) ==> (
        best_candidate(items, skip) matches Some(b) ==> forall|i: int|
            0 <= i < items.len() && ahead(#[trigger] items[i], skip) ==> numbers::real_rank(
                items[b].score,
            )->0 <= numbers::real_rank(items[i].score)->0),
{
    lemma_some_is_ahead(items, skip);
    if let Some(b) = best_candidate(items, skip) {
        assert(ahead(items[b], skip));
    }
    if forall|i: int|
        0 <= i < items.len() ==> numbers::real_rank((#[trigger] items[i]).score) is Some {
        lemma_nearest_is_best(items, skip);
        if let Some(b) = best_candidate(items, skip) {
            assert forall|i: int|
                0 <= i < items.len() && ahead(#[trigger] items[i], skip) implies numbers::real_rank(
                items[b].score,
            )->0 <= numbers::real_rank(items[i].score)->0 by {
                assert(considered(items[i], skip) == ahead(items[i], skip));
                assert(numbers::real_rank(items[b].score) is Some);
            }
        }
    }
}

/// The point that a rule gives for a window is its middle, with up counted
/// upwards: twice the point is the sum of two opposite edges, up to the pixel
/// that an odd length leaves over.
pub proof fn lemma_rule_point_is_the_middle(x: int, y: int, size: Size)
    requires
        size.w >= 0,
        size.h >= 0,
    ensures
        ({
            let (rx, ry) = rule_center(x, y, size);
            &&& 0 <= (x + (x + size.w)) - 2 * rx <= 1
            &&& 0 <= (y + (y + size.h)) + 2 * ry <= 1
        }),
        ({
            let (px, py) = internal_corner(x, y, size);
            &&& 0 <= (px + (px + size.w)) - 2 * x <= 1
            &&& 0 <= (py + (py + size.h)) + 2 * y <= 1
        }),
{
}

/// A window that a rule puts at the middle of an output has the same room on
/// opposite sides, up to the pixels that odd lengths leave over; to the right
/// and upwards are counted from there.
pub proof fn lemma_rule_point_on_output(x: int, y: int, size: Size, output: Size)
    requires
        size.w >= 0,
        size.h >= 0,
        output.w >= 0,
        output.h >= 0,
    ensures
        ({
            let (px, py) = screen_corner(0, 0, size, output);
            &&& -1 <= (output.w - (px + size.w)) - px <= 1
            &&& -1 <= (output.h - (py + size.h)) - py <= 1
        }),
        screen_corner(x, y, size, output).0 == screen_corner(0, 0, size, output).0 + x,
        screen_corner(x, y, size, output).1 == screen_corner(0, 0, size, output).1 - y,
{
}

/// A window that does not fit an output starts at its edge, and one beyond an
/// edge is moved no farther than onto the output.
pub proof fn lemma_clamp_moves_least(corner: int, length: int, output: int)
    ensures
        length >= output ==> corner_on_output(corner, length, output) == 0,
        length < output && corner < 0 ==> corner_on_output(corner, length, output) == 0,
        length < output && corner + length > output ==> corner_on_output(corner, length, output)
            + length == output,
        length < output && 0 <= corner && corner + length <= output ==> corner_on_output(
            corner,
            length,
            output,
        ) == corner,
{
}

/// The box around windows is the tightest one: each of its edges is the edge of
/// some window.
pub proof fn lemma_bbox_is_tight(w: Seq<(Point, Size)>, b: Rect)
    requires
        w.len() > 0,
        is_bbox(w, b),
        geometry::fits(greatest(rights(w)) - least(lefts(w))),
        geometry::fits(greatest(bottoms(w)) - least(tops(w))),
    ensures
        exists|i: int| 0 <= i < w.len() && (#[trigger] w[i]).0.x == b.loc.x,
        exists|i: int| 0 <= i < w.len() && (#[trigger] w[i]).0.y == b.loc.y,
        exists|i: int|
            0 <= i < w.len() && (#[trigger] w[i]).0.x + w[i].1.w == b.loc.x + b.size.w,
        exists|i: int|
            0 <= i < w.len() && (#[trigger] w[i]).0.y + w[i].1.h == b.loc.y + b.size.h,
{
    lemma_extremes(lefts(w));
    lemma_extremes(tops(w));
    lemma_extremes(rights(w));
    lemma_extremes(bottoms(w));
    let a = choose|i: int| 0 <= i < lefts(w).len() && lefts(w)[i] == least(lefts(w));
    let c = choose|i: int| 0 <= i < tops(w).len() && tops(w)[i] == least(tops(w));
    let d = choose|i: int| 0 <= i < rights(w).len() && rights(w)[i] == greatest(rights(w));
    let e = choose|i: int| 0 <= i < bottoms(w).len() && bottoms(w)[i] == greatest(bottoms(w));
    assert(w[a].0.x == b.loc.x);
    assert(w[c].0.y == b.loc.y);
    assert(w[d].0.x + w[d].1.w == b.loc.x + b.size.w);
    assert(w[e].0.y + w[e].1.h == b.loc.y + b.size.h);
}

/// The time between two events is the least number of milliseconds that leads
/// the clock from the one to the other.
pub proof fn lemma_time_between(from: u32, to: u32)
    ensures
        0 <= between_times(from, to) < 0x1_0000_0000,
        (from + between_times(from, to)) % 0x1_0000_0000 == to,
{
}

/// Only samples older than 80 ms leave the window: everything that was dropped
/// from the front is older, and no newer sample is touched.
pub proof fn lemma_only_old_samples_leave(s: Seq<(u32, ScreenPos)>, now: u32, i: int)
    requires
        0 <= i < s.len() - evicted(s, now).len(),
    ensures
        between_times(s[i].0, now) > 80,
    decreases s.len(),
{
    lemma_evicted(s, now);
    if s.len() > 0 && between_times(s[0].0, now) > VELOCITY_WINDOW_MS {
        if i > 0 {
            lemma_only_old_samples_leave(s.drop_first(), now, i - 1);
        }
    }
}

/// A pan launches if and only if it has two samples at different times.
pub proof fn lemma_launch_needs_two_times(s: Seq<(u32, ScreenPos)>)
    ensures
        launch_time(s) is Some <==> s.len() >= 2 && s[0].0 != s.last().0,
        launch_time(s) matches Some(ms) ==> (s[0].0 + ms) % 0x1_0000_0000 == s.last().0,
{
}

/// A zoom is held to its limits, and kept where it lies between them.
pub proof fn lemma_zoom_is_held(low: Real, high: Real, zoom: Real)
    requires
        numbers::less(low, high),
        numbers::real_rank(zoom) is Some,
    ensures
        ({
            let z = zoom_between(low, high, zoom);
            &&& numbers::at_least(z, low) && numbers::at_least(high, z)
            &&& numbers::at_least(zoom, low) && numbers::at_least(high, zoom) ==> z == zoom
            &&& numbers::less(zoom, low) ==> z == low
            &&& numbers::less(high, zoom) ==> z == high
        }),
{
}

} // verus!
