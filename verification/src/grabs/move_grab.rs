//! Moving windows: which way a motion goes, edge panning across outputs, and
//! the cluster that rides along.
use vstd::prelude::*;

use crate::config::numbers;
use crate::config::numbers::Real;
use crate::geometry;
use crate::geometry::{Point, Size};
use crate::grabs::touch_fingers::ScreenPos;

verus! {

/// The output edge that is inhibited after a cross-output teleport.
#[derive(Clone, Copy, Debug, PartialEq, Eq, Structural)]
pub enum Edge {
    Left,
    Right,
    Top,
    Bottom,
}

/// What a move grab holds of the move.
#[derive(Clone, Copy, Debug, PartialEq, Eq, Structural)]
pub struct MoveGrab {
    pub initial_window_location: Point,
    /// After a teleport, the edge whose panning is suppressed until the cursor
    /// moves inward.
    pub inhibited_edge: Option<Edge>,
    /// Last place the window was mapped to.
    pub last_mapped_loc: Option<Point>,
    /// The drag moves a screen-pinned window.
    pub pinned: bool,
    /// The finger that a touch move follows.
    pub touch_slot: Option<i32>,
    /// Fingers down for a touch move.
    pub touch_slots: usize,
}

/// Where a motion goes.
#[derive(Clone, Copy, Debug, PartialEq, Eq, Structural)]
pub enum MoveRoute {
    /// The cursor is over a fullscreen output, where the window would vanish,
    /// or the window is gone: stop panning and forward the motion.
    Park,
    /// Forward the motion and nothing else: not the finger that is followed.
    PassThrough,
    /// Move a pinned window in screen space.
    Pinned,
    /// The pointer crossed to another output: carry the window over.
    Teleport,
    /// Follow the cursor or finger.
    Follow,
}

/// Distances of the cursor from the edges of an output.
#[derive(Clone, Copy, Debug, PartialEq, Eq, Structural)]
pub struct EdgeDistances {
    pub left: Real,
    pub right: Real,
    pub top: Real,
    pub bottom: Real,
}

/// The side of an output that faces another: the one where their centers lie
/// farthest apart. Centers are doubled, so that they are whole numbers.
pub open spec fn facing_edge(old_pos: Point, old_size: Size, new_pos: Point, new_size: Size) -> Edge {
    let dx = (2 * old_pos.x + old_size.w) - (2 * new_pos.x + new_size.w);
    let dy = (2 * old_pos.y + old_size.h) - (2 * new_pos.y + new_size.h);
    if magnitude(dx) >= magnitude(dy) {
        if dx > 0 {
            Edge::Right
        } else {
            Edge::Left
        }
    } else if dy > 0 {
        Edge::Bottom
    } else {
        Edge::Top
    }
}

/// A number without its sign.
pub open spec fn magnitude(n: int) -> int {
    if n >= 0 {
        n
    } else {
        -n
    }
}

fn unsigned(n: i64) -> (r: i64)
    requires
        n > i64::MIN,
    ensures
        r == magnitude(n as int),
{
    if n >= 0 {
        n
    } else {
        -n
    }
}

/// The edge of the new output that the cursor entered through.
pub fn entry_edge(old_pos: Point, old_size: Size, new_pos: Point, new_size: Size) -> (r: Edge)
    ensures
        r == facing_edge(old_pos, old_size, new_pos, new_size),
{
    let dx: i64 = (2 * old_pos.x as i64 + old_size.w as i64) - (2 * new_pos.x as i64
        + new_size.w as i64);
    let dy: i64 = (2 * old_pos.y as i64 + old_size.h as i64) - (2 * new_pos.y as i64
        + new_size.h as i64);
    if unsigned(dx) >= unsigned(dy) {
        if dx > 0 {
            Edge::Right
        } else {
            Edge::Left
        }
    } else if dy > 0 {
        Edge::Bottom
    } else {
        Edge::Top
    }
}

/// The distance from an edge.
pub open spec fn distance_from(edge: Edge, d: EdgeDistances) -> Real {
    match edge {
        Edge::Left => d.left,
        Edge::Right => d.right,
        Edge::Top => d.top,
        Edge::Bottom => d.bottom,
    }
}

/// Has the cursor moved far enough from the inhibited edge?
pub fn should_clear_inhibition(edge: Edge, d: &EdgeDistances, edge_zone: &Real) -> (r: bool)
    ensures
        r == numbers::at_least(distance_from(edge, *d), *edge_zone),
{
    match edge {
        Edge::Left => d.left.at_least(edge_zone),
        Edge::Right => d.right.at_least(edge_zone),
        Edge::Top => d.top.at_least(edge_zone),
        Edge::Bottom => d.bottom.at_least(edge_zone),
    }
}

/// Zero.
pub open spec fn zero() -> Real {
    Real { bits: 0 }
}

/// A velocity without its component towards an edge.
pub open spec fn without_component(edge: Edge, v: ScreenPos) -> ScreenPos {
    match edge {
        Edge::Left => if numbers::less(v.x, zero()) {
            ScreenPos { x: zero(), ..v }
        } else {
            v
        },
        Edge::Right => if numbers::less(zero(), v.x) {
            ScreenPos { x: zero(), ..v }
        } else {
            v
        },
        Edge::Top => if numbers::less(v.y, zero()) {
            ScreenPos { y: zero(), ..v }
        } else {
            v
        },
        Edge::Bottom => if numbers::less(zero(), v.y) {
            ScreenPos { y: zero(), ..v }
        } else {
            v
        },
    }
}

/// Does a velocity stand still?
pub open spec fn standing(v: ScreenPos) -> bool {
    numbers::real_rank(v.x) == Some(0int) && numbers::real_rank(v.y) == Some(0int)
}

/// What is left of a velocity with the inhibited edge suppressed: nothing where
/// it stands still.
pub open spec fn suppressed(edge: Edge, velocity: Option<ScreenPos>) -> Option<ScreenPos> {
    match velocity {
        Some(v) => if standing(without_component(edge, v)) {
            None
        } else {
            Some(without_component(edge, v))
        },
        None => None,
    }
}

fn is_zero(r: &Real) -> (b: bool)
    ensures
        b == (numbers::real_rank(*r) == Some(0int)),
{
    r.bits == 0 || r.bits == numbers::SIGN
}

/// Zero out the velocity component for the inhibited edge, keeping others.
pub fn suppress_inhibited_edge(edge: Edge, velocity: Option<ScreenPos>) -> (r: Option<ScreenPos>)
    ensures
        r == suppressed(edge, velocity),
{
    let v: ScreenPos = match velocity {
        Some(v) => v,
        None => {
            return None;
        },
    };
    let none: Real = Real { bits: 0 };
    let cut: ScreenPos = match edge {
        Edge::Left => if v.x.less(&none) {
            ScreenPos { x: none, y: v.y }
        } else {
            v
        },
        Edge::Right => if none.less(&v.x) {
            ScreenPos { x: none, y: v.y }
        } else {
            v
        },
        Edge::Top => if v.y.less(&none) {
            ScreenPos { x: v.x, y: none }
        } else {
            v
        },
        Edge::Bottom => if none.less(&v.y) {
            ScreenPos { x: v.x, y: none }
        } else {
            v
        },
    };
    if is_zero(&cut.x) && is_zero(&cut.y) {
        None
    } else {
        Some(cut)
    }
}

/// The velocity that takes effect, and whether the edge stays inhibited.
pub open spec fn effective(
    inhibited: Option<Edge>,
    velocity: Option<ScreenPos>,
    d: EdgeDistances,
    edge_zone: Real,
) -> (Option<Edge>, Option<ScreenPos>) {
    match inhibited {
        None => (None, velocity),
        Some(e) => if numbers::at_least(distance_from(e, d), edge_zone) {
            (None, velocity)
        } else {
            (Some(e), suppressed(e, velocity))
        },
    }
}

/// A window that rides along with a moved one.
#[derive(Clone, Copy, Debug, PartialEq, Eq, Structural)]
pub struct Member {
    pub id: u64,
    /// Where it was from the moved window at drag start.
    pub offset: Point,
    /// It has not been closed since.
    pub is_alive: bool,
}

/// A window put at a place.
#[derive(Clone, Copy, Debug, PartialEq, Eq, Structural)]
pub struct Placement {
    pub id: u64,
    pub location: Point,
}

/// Placements with their places as numbers.
pub open spec fn places(v: Seq<Placement>) -> Seq<(u64, int, int)> {
    v.map_values(|p: Placement| (p.id, p.location.x as int, p.location.y as int))
}

/// Where the members go that are still alive, when the moved window goes to
/// `loc`: each keeps its offset.
pub open spec fn member_places(loc: Point, members: Seq<Member>) -> Seq<(u64, int, int)>
    decreases members.len(),
{
    if members.len() == 0 {
        Seq::empty()
    } else {
        let before = member_places(loc, members.drop_last());
        let m = members.last();
        if m.is_alive {
            before.push((m.id, loc.x + m.offset.x, loc.y + m.offset.y))
        } else {
            before
        }
    }
}

/// Do all members of a cluster fit the canvas?
pub open spec fn members_fit(loc: Point, members: Seq<Member>) -> bool {
    forall|i: int|
        0 <= i < members.len() && (#[trigger] members[i]).is_alive ==> geometry::point_fits(
            loc.x + members[i].offset.x,
            loc.y + members[i].offset.y,
        )
}

/// The order in which a moved window and its cluster are put to their places.
/// What is put down last is on top, so the moved window comes last. None where
/// a member fits no coordinate.
pub fn placements(primary: u64, loc: Point, members: &Vec<Member>) -> (r: Option<Vec<Placement>>)
    ensures
        match r {
            Some(v) => places(v@) == member_places(loc, members@).push(
                (primary, loc.x as int, loc.y as int),
            ),
            None => !members_fit(loc, members@),
        },
{
    let n: usize = members.len();
    let mut out: Vec<Placement> = Vec::new();
    let mut i: usize = 0;
    while i < n
        invariant
            i <= n,
            n == members@.len(),
            places(out@) =~= member_places(loc, members@.take(i as int)),
        decreases n - i,
    {
        let m: Member = members[i];
        proof {
            assert(members@.take(i + 1).drop_last() =~= members@.take(i as int));
            assert(members@.take(i + 1).last() == m);
        }
        if m.is_alive {
            let x: i64 = loc.x as i64 + m.offset.x as i64;
            let y: i64 = loc.y as i64 + m.offset.y as i64;
            match (geometry::to_coordinate(x), geometry::to_coordinate(y)) {
                (Some(x), Some(y)) => {
                    let ghost before = out@;
                    out.push(Placement { id: m.id, location: Point { x, y } });
                    proof {
                        assert(places(out@) =~= places(before).push((m.id, x as int, y as int)));
                    }
                },
                _ => {
                    proof {
                        let k = members@[i as int];
                        assert(k.is_alive && !geometry::point_fits(
                            loc.x + k.offset.x,
                            loc.y + k.offset.y,
                        ));
                    }
                    return None;
                },
            }
        }
        i = i + 1;
    }
    let ghost before = out@;
    out.push(Placement { id: primary, location: loc });
    proof {
        assert(members@.take(n as int) =~= members@);
        assert(places(out@) =~= places(before).push((primary, loc.x as int, loc.y as int)));
    }
    Some(out)
}

impl MoveGrab {
    /// A move of a window on the canvas.
    pub fn new(initial_window_location: Point) -> (r: MoveGrab)
        ensures
            r == (MoveGrab {
                initial_window_location,
                inhibited_edge: None,
                last_mapped_loc: None,
                pinned: false,
                touch_slot: None,
                touch_slots: 0,
            }),
    {
        MoveGrab {
            initial_window_location,
            inhibited_edge: None,
            last_mapped_loc: None,
            pinned: false,
            touch_slot: None,
            touch_slots: 0,
        }
    }

    /// A touch move: it follows `slot` and lasts while any of the `slots`
    /// fingers that are down stays down.
    pub fn new_touch(initial_window_location: Point, slot: i32, slots: usize) -> (r: MoveGrab)
        ensures
            r == (MoveGrab {
                initial_window_location,
                inhibited_edge: None,
                last_mapped_loc: None,
                pinned: false,
                touch_slot: Some(slot),
                touch_slots: slots,
            }),
    {
        MoveGrab {
            initial_window_location,
            inhibited_edge: None,
            last_mapped_loc: None,
            pinned: false,
            touch_slot: Some(slot),
            touch_slots: slots,
        }
    }

    /// A move of a screen-pinned window.
    pub fn new_pinned() -> (r: MoveGrab)
        ensures
            r == (MoveGrab {
                initial_window_location: Point { x: 0, y: 0 },
                inhibited_edge: None,
                last_mapped_loc: None,
                pinned: true,
                touch_slot: None,
                touch_slots: 0,
            }),
    {
        MoveGrab {
            initial_window_location: Point { x: 0, y: 0 },
            inhibited_edge: None,
            last_mapped_loc: None,
            pinned: true,
            touch_slot: None,
            touch_slots: 0,
        }
    }

    /// A touch move of a screen-pinned window.
    pub fn new_pinned_touch(slot: i32, slots: usize) -> (r: MoveGrab)
        ensures
            r == (MoveGrab {
                initial_window_location: Point { x: 0, y: 0 },
                inhibited_edge: None,
                last_mapped_loc: None,
                pinned: true,
                touch_slot: Some(slot),
                touch_slots: slots,
            }),
    {
        MoveGrab {
            initial_window_location: Point { x: 0, y: 0 },
            inhibited_edge: None,
            last_mapped_loc: None,
            pinned: true,
            touch_slot: Some(slot),
            touch_slots: slots,
        }
    }

    /// Where a pointer motion goes.
    pub fn route(&self, over_fullscreen: bool, resolved: bool, other_output: bool) -> (r: MoveRoute)
        ensures
            r == (if over_fullscreen || !resolved {
                MoveRoute::Park
            } else if self.pinned {
                MoveRoute::Pinned
            } else if other_output {
                MoveRoute::Teleport
            } else {
                MoveRoute::Follow
            }),
    {
        if over_fullscreen || !resolved {
            MoveRoute::Park
        } else if self.pinned {
            MoveRoute::Pinned
        } else if other_output {
            MoveRoute::Teleport
        } else {
            MoveRoute::Follow
        }
    }

    /// Where the motion of a finger goes.
    pub fn touch_route(&self, slot: i32, resolved: bool) -> (r: MoveRoute)
        ensures
            r == (if self.touch_slot != Some(slot) {
                MoveRoute::PassThrough
            } else if !resolved {
                MoveRoute::Park
            } else if self.pinned {
                MoveRoute::Pinned
            } else {
                MoveRoute::Follow
            }),
    {
        let followed: bool = match self.touch_slot {
            Some(s) => s == slot,
            None => false,
        };
        if !followed {
            MoveRoute::PassThrough
        } else if !resolved {
            MoveRoute::Park
        } else if self.pinned {
            MoveRoute::Pinned
        } else {
            MoveRoute::Follow
        }
    }

    /// Carry the window over to another output: the move starts afresh from
    /// where it lands, and the edge that it came through does not pan.
    pub fn teleport(&mut self, location: Point, entry: Edge)
        ensures
            *final(self) == (MoveGrab {
                initial_window_location: location,
                inhibited_edge: Some(entry),
                last_mapped_loc: Some(location),
                ..*old(self)
            }),
    {
        self.initial_window_location = location;
        self.inhibited_edge = Some(entry);
        self.last_mapped_loc = Some(location);
    }

    /// Note where the window was mapped. True if it moved: many motions come to
    /// the same whole position, and only a change makes what is blurred stale.
    pub fn note_mapped(&mut self, location: Point) -> (r: bool)
        ensures
            r == (old(self).last_mapped_loc != Some(location)),
            *final(self) == (MoveGrab { last_mapped_loc: Some(location), ..*old(self) }),
    {
        let moved: bool = match self.last_mapped_loc {
            Some(p) => p.x != location.x || p.y != location.y,
            None => true,
        };
        self.last_mapped_loc = Some(location);
        moved
    }

    /// The edge-pan velocity that takes effect: an inhibited edge is suppressed
    /// until the cursor has moved inward, and is then released.
    pub fn effective_velocity(
        &mut self,
        velocity: Option<ScreenPos>,
        d: &EdgeDistances,
        edge_zone: &Real,
    ) -> (r: Option<ScreenPos>)
        ensures
            (final(self).inhibited_edge, r) == effective(
                old(self).inhibited_edge,
                velocity,
                *d,
                *edge_zone,
            ),
            *final(self) == (MoveGrab {
                inhibited_edge: final(self).inhibited_edge,
                ..*old(self)
            }),
    {
        match self.inhibited_edge {
            None => velocity,
            Some(e) => {
                if should_clear_inhibition(e, d, edge_zone) {
                    self.inhibited_edge = None;
                    velocity
                } else {
                    suppress_inhibited_edge(e, velocity)
                }
            },
        }
    }

    /// One more finger is down.
    pub fn add_finger(&mut self)
        requires
            old(self).touch_slots < usize::MAX,
        ensures
            *final(self) == (MoveGrab {
                touch_slots: (old(self).touch_slots + 1) as usize,
                ..*old(self)
            }),
    {
        self.touch_slots = self.touch_slots + 1;
    }

    /// A finger lifted: whether it was the one that is followed, so that the
    /// move is done, and whether it was the last, so that the grab ends.
    pub fn lift_finger(&mut self, slot: i32) -> (r: (bool, bool))
        ensures
            *final(self) == (MoveGrab {
                touch_slots: if old(self).touch_slots == 0 {
                    0
                } else {
                    (old(self).touch_slots - 1) as usize
                },
                ..*old(self)
            }),
            r.0 == (old(self).touch_slot == Some(slot)),
            r.1 == (final(self).touch_slots == 0),
    {
        if self.touch_slots > 0 {
            self.touch_slots = self.touch_slots - 1;
        }
        let followed: bool = match self.touch_slot {
            Some(s) => s == slot,
            None => false,
        };
        (followed, self.touch_slots == 0)
    }
}

/// After a teleport, nothing pans back through the edge that the window came
/// through, as long as the cursor stays in its zone; once it has moved inward,
/// panning is as if nothing had happened.
pub proof fn lemma_entry_edge_does_not_pan(
    edge: Edge,
    velocity: Option<ScreenPos>,
    d: EdgeDistances,
    edge_zone: Real,
)
    ensures
        numbers::at_least(distance_from(edge, d), edge_zone) ==> effective(
            Some(edge),
            velocity,
            d,
            edge_zone,
        ) == (None::<Edge>, velocity),
        !numbers::at_least(distance_from(edge, d), edge_zone) ==> (effective(
            Some(edge),
            velocity,
            d,
            edge_zone,
        ).1 matches Some(v) ==> match edge {
            Edge::Left => !numbers::less(v.x, zero()),
            Edge::Right => !numbers::less(zero(), v.x),
            Edge::Top => !numbers::less(v.y, zero()),
            Edge::Bottom => !numbers::less(zero(), v.y),
        }),
{
}

/// The members of a cluster keep their offsets from the moved window wherever
/// it goes, whichever of them are still there.
pub proof fn lemma_cluster_keeps_its_shape(a: Point, b: Point, members: Seq<Member>)
    ensures
        member_places(a, members).len() == member_places(b, members).len(),
        forall|i: int|
            #![trigger member_places(a, members)[i]]
            0 <= i < member_places(a, members).len() ==> {
                let (ida, xa, ya) = member_places(a, members)[i];
                let (idb, xb, yb) = member_places(b, members)[i];
                ida == idb && xa - a.x == xb - b.x && ya - a.y == yb - b.y
            },
    decreases members.len(),
{
    if members.len() > 0 {
        lemma_cluster_keeps_its_shape(a, b, members.drop_last());
        let n = member_places(a, members.drop_last()).len();
        assert forall|i: int|
            #![trigger member_places(a, members)[i]]
            0 <= i < member_places(a, members).len() implies {
            let (ida, xa, ya) = member_places(a, members)[i];
            let (idb, xb, yb) = member_places(b, members)[i];
            ida == idb && xa - a.x == xb - b.x && ya - a.y == yb - b.y
        } by {
            if i < n {
                assert(member_places(a, members)[i] == member_places(a, members.drop_last())[i]);
                assert(member_places(b, members)[i] == member_places(b, members.drop_last())[i]);
            }
        }
    }
}

/// Seen from the other side, the entry edge is the opposite one, unless the
/// centers coincide.
pub proof fn lemma_entry_edges_face_each_other(
    old_pos: Point,
    old_size: Size,
    new_pos: Point,
    new_size: Size,
)
    requires
        2 * old_pos.x + old_size.w != 2 * new_pos.x + new_size.w || 2 * old_pos.y + old_size.h
            != 2 * new_pos.y + new_size.h,
    ensures
        match facing_edge(old_pos, old_size, new_pos, new_size) {
            Edge::Left => facing_edge(new_pos, new_size, old_pos, old_size) is Right,
            Edge::Right => facing_edge(new_pos, new_size, old_pos, old_size) is Left,
            Edge::Top => facing_edge(new_pos, new_size, old_pos, old_size) is Bottom,
            Edge::Bottom => facing_edge(new_pos, new_size, old_pos, old_size) is Top,
        },
{
}

/// A window comes in through the edge that faces the output it left: the right
/// one from an output on the right, and so on; of two directions the farther one
/// counts.
pub proof fn lemma_entry_edge_faces_the_old_output(
    old_pos: Point,
    old_size: Size,
    new_pos: Point,
    new_size: Size,
)
    requires
        0 < old_size.w && 0 < old_size.h && 0 < new_size.w && 0 < new_size.h,
    ensures
        ({
            let e = facing_edge(old_pos, old_size, new_pos, new_size);
            let level = 2 * old_pos.y + old_size.h == 2 * new_pos.y + new_size.h;
            let upright = 2 * old_pos.x + old_size.w == 2 * new_pos.x + new_size.w;
            &&& level && old_pos.x >= new_pos.x + new_size.w ==> e is Right
            &&& level && old_pos.x + old_size.w <= new_pos.x ==> e is Left
            &&& upright && old_pos.y >= new_pos.y + new_size.h ==> e is Bottom
            &&& upright && old_pos.y + old_size.h <= new_pos.y ==> e is Top
        }),
        ({
            let dx = (2 * old_pos.x + old_size.w) - (2 * new_pos.x + new_size.w);
            let dy = (2 * old_pos.y + old_size.h) - (2 * new_pos.y + new_size.h);
            match facing_edge(old_pos, old_size, new_pos, new_size) {
                Edge::Right => dx > 0 && -dx <= dy <= dx,
                Edge::Left => dx <= 0 && dx <= dy <= -dx,
                Edge::Bottom => dy > 0 && -dy < dx < dy,
                Edge::Top => dy < 0 && dy < dx < -dy,
            }
        }),
{
}

/// Taking away what pans through an edge takes that and nothing else: the part
/// along the edge stays, and so does what pans away from it.
pub proof fn lemma_only_the_edge_is_suppressed(edge: Edge, v: ScreenPos)
    ensures
        ({
            let r = without_component(edge, v);
            let zero = Real { bits: 0 };
            &&& edge is Left || edge is Right ==> r.y == v.y
            &&& edge is Top || edge is Bottom ==> r.x == v.x
            &&& edge is Left ==> r.x == (if numbers::less(v.x, zero) {
                zero
            } else {
                v.x
            })
            &&& edge is Right ==> r.x == (if numbers::less(zero, v.x) {
                zero
            } else {
                v.x
            })
            &&& edge is Top ==> r.y == (if numbers::less(v.y, zero) {
                zero
            } else {
                v.y
            })
            &&& edge is Bottom ==> r.y == (if numbers::less(zero, v.y) {
                zero
            } else {
                v.y
            })
        }),
        suppressed(edge, None) is None,
        suppressed(edge, Some(v)) matches Some(r) ==> r == without_component(edge, v),
        suppressed(edge, Some(v)) is None <==> {
            let r = without_component(edge, v);
            &&& r.x.bits == 0 || r.x.bits == 0x8000_0000_0000_0000
            &&& r.y.bits == 0 || r.y.bits == 0x8000_0000_0000_0000
        },
{
}

/// The distance that counts is the one from the entry edge, and without such an
/// edge panning is left alone.
pub proof fn lemma_distance_of_the_entry_edge(
    d: EdgeDistances,
    velocity: Option<ScreenPos>,
    zone: Real,
)
    ensures
        distance_from(Edge::Left, d) == d.left,
        distance_from(Edge::Right, d) == d.right,
        distance_from(Edge::Top, d) == d.top,
        distance_from(Edge::Bottom, d) == d.bottom,
        effective(None, velocity, d, zone) == (None::<Edge>, velocity),
        forall|e: Edge|
            !numbers::at_least(distance_from(e, d), zone) ==> #[trigger] effective(
                Some(e),
                velocity,
                d,
                zone,
            ) == (Some(e), suppressed(e, velocity)),
{
}

/// How many of the first members of a cluster are still there.
pub open spec fn living(members: Seq<Member>, n: int) -> nat
    decreases n,
{
    if n <= 0 {
        0
    } else {
        living(members, n - 1) + (if members[n - 1].is_alive {
            1nat
        } else {
            0
        })
    }
}

proof fn lemma_living_prefix(a: Seq<Member>, b: Seq<Member>, n: int)
    requires
        n <= a.len(),
        n <= b.len(),
        forall|j: int| 0 <= j < n ==> a[j] == b[j],
    ensures
        living(a, n) == living(b, n),
    decreases n,
{
    if n > 0 {
        lemma_living_prefix(a, b, n - 1);
    }
}

/// Every member of a cluster that is still there is placed at its offset from
/// the moved window, and no other is.
pub proof fn lemma_members_are_placed(loc: Point, members: Seq<Member>, i: int)
    ensures
        ({
            let (out, k) = (member_places(loc, members), living(members, i) as int);
            &&& out.len() == living(members, members.len() as int)
            &&& 0 <= i < members.len() && members[i].is_alive ==> k < out.len() && out[k] == (
                members[i].id,
                loc.x + members[i].offset.x,
                loc.y + members[i].offset.y,
            )
        }),
    decreases members.len(),
{
    if members.len() > 0 {
        let front = members.drop_last();
        lemma_members_are_placed(loc, front, i);
        lemma_living_prefix(front, members, front.len() as int);
        if 0 <= i < front.len() {
            lemma_living_prefix(front, members, i);
        }
    }
}

} // verus!
