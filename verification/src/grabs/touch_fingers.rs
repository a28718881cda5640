//! The fingers of a touch sequence, by slot.
use vstd::prelude::*;

use crate::config::numbers::Real;

verus! {

/// A screen-space position or displacement.
#[derive(Clone, Copy, Debug, PartialEq, Eq, Structural)]
pub struct ScreenPos {
    pub x: Real,
    pub y: Real,
}

/// The origin.
pub open spec fn origin() -> ScreenPos {
    ScreenPos { x: Real { bits: 0 }, y: Real { bits: 0 } }
}

/// The origin.
pub fn make_origin() -> (r: ScreenPos)
    ensures
        r == origin(),
{
    ScreenPos { x: Real { bits: 0 }, y: Real { bits: 0 } }
}

/// Is every slot there once, in rising order?
#[verifier::opaque]
pub open spec fn rising(f: Seq<(i32, ScreenPos)>) -> bool {
    forall|i: int, j: int| 0 <= i < j < f.len() ==> (#[trigger] f[i]).0 < (#[trigger] f[j]).0
}

/// Where a finger is, if it is down.
#[verifier::opaque]
pub open spec fn position(f: Seq<(i32, ScreenPos)>, slot: i32) -> Option<ScreenPos>
    decreases f.len(),
{
    if f.len() == 0 {
        None
    } else if f.last().0 == slot {
        Some(f.last().1)
    } else {
        position(f.drop_last(), slot)
    }
}

/// The fingers with one put down or moved.
#[verifier::opaque]
pub open spec fn placed(f: Seq<(i32, ScreenPos)>, slot: i32, p: ScreenPos) -> Seq<(i32, ScreenPos)>
    decreases f.len(),
{
    if f.len() == 0 || f.last().0 < slot {
        f.push((slot, p))
    } else if f.last().0 == slot {
        f.drop_last().push((slot, p))
    } else {
        placed(f.drop_last(), slot, p).push(f.last())
    }
}

/// The fingers without one.
#[verifier::opaque]
pub open spec fn lifted(f: Seq<(i32, ScreenPos)>, slot: i32) -> Seq<(i32, ScreenPos)>
    decreases f.len(),
{
    if f.len() == 0 {
        f
    } else if f.last().0 == slot {
        f.drop_last()
    } else {
        lifted(f.drop_last(), slot).push(f.last())
    }
}

/// The positions of fingers, in rising order of their slots.
pub open spec fn positions(f: Seq<(i32, ScreenPos)>) -> Seq<ScreenPos> {
    f.map_values(|e: (i32, ScreenPos)| e.1)
}

/// Index of the first finger whose slot is not below the given one.
fn slot_index(f: &Vec<(i32, ScreenPos)>, slot: i32) -> (r: usize)
    requires
        rising(f@),
    ensures
        r <= f@.len(),
        forall|i: int| 0 <= i < r ==> (#[trigger] f@[i]).0 < slot,
        forall|i: int| r <= i < f@.len() ==> slot <= (#[trigger] f@[i]).0,
{
    proof {
        reveal(rising);
    }
    let n: usize = f.len();
    let mut i: usize = 0;
    while i < n && f[i].0 < slot
        invariant
            i <= n,
            n == f@.len(),
            forall|j: int| 0 <= j < i ==> (#[trigger] f@[j]).0 < slot,
        decreases n - i,
    {
        i = i + 1;
    }
    i
}

/// No finger is in rising order.
pub proof fn lemma_none_rising()
    ensures
        rising(Seq::empty()),
{
    reveal(rising);
}

/// What placing, lifting and finding do, given where the slot belongs.
pub proof fn lemma_placed(f: Seq<(i32, ScreenPos)>, slot: i32, p: ScreenPos, k: int)
    requires
        rising(f),
        0 <= k <= f.len(),
        forall|i: int| 0 <= i < k ==> (#[trigger] f[i]).0 < slot,
        forall|i: int| k <= i < f.len() ==> slot <= (#[trigger] f[i]).0,
    ensures
        rising(placed(f, slot, p)),
        k < f.len() && f[k].0 == slot ==> placed(f, slot, p) == f.update(k, (slot, p)),
        !(k < f.len() && f[k].0 == slot) ==> placed(f, slot, p) == f.insert(k, (slot, p)),
        k < f.len() && f[k].0 == slot ==> lifted(f, slot) == f.remove(k),
        !(k < f.len() && f[k].0 == slot) ==> lifted(f, slot) == f,
        rising(lifted(f, slot)),
        position(f, slot) == (if k < f.len() && f[k].0 == slot {
            Some(f[k].1)
        } else {
            None
        }),
    decreases f.len(),
{
    reveal(rising);
    reveal(position);
    reveal(placed);
    reveal(lifted);
    if f.len() > 0 {
        let front = f.drop_last();
        if f.last().0 < slot {
            assert(k == f.len());
            lemma_placed(front, slot, p, k - 1);
            assert(f.insert(k, (slot, p)) =~= f.push((slot, p)));
            assert(front.push(f.last()) =~= f);
        } else if f.last().0 == slot {
            assert(k == f.len() - 1) by {
                if k < f.len() - 1 {
                    assert(f[k].0 < f[f.len() - 1].0);
                }
            }
            assert(f.update(k, (slot, p)) =~= front.push((slot, p)));
            assert(f.remove(k) =~= front);
        } else {
            lemma_placed(front, slot, p, k);
            if k < f.len() && f[k].0 == slot {
                assert(front.update(k, (slot, p)).push(f.last()) =~= f.update(k, (slot, p)));
                assert(front.remove(k).push(f.last()) =~= f.remove(k));
            } else {
                assert(front.insert(k, (slot, p)).push(f.last()) =~= f.insert(k, (slot, p)));
                assert(front.push(f.last()) =~= f);
            }
        }
    } else {
        assert(f.insert(k, (slot, p)) =~= f.push((slot, p)));
    }
}

/// The index of a finger that is down.
pub fn find_slot(f: &Vec<(i32, ScreenPos)>, slot: i32) -> (r: Option<usize>)
    requires
        rising(f@),
    ensures
        match r {
            Some(k) => k < f@.len() && f@[k as int].0 == slot && position(f@, slot) == Some(
                f@[k as int].1,
            ),
            None => position(f@, slot) is None,
        },
{
    let k: usize = slot_index(f, slot);
    proof {
        lemma_placed(f@, slot, origin(), k as int);
    }
    if k < f.len() && f[k].0 == slot {
        Some(k)
    } else {
        None
    }
}

/// Put a finger down or move it.
pub fn place(f: &mut Vec<(i32, ScreenPos)>, slot: i32, p: ScreenPos)
    requires
        rising(old(f)@),
    ensures
        final(f)@ == placed(old(f)@, slot, p),
        rising(final(f)@),
{
    let k: usize = slot_index(f, slot);
    proof {
        lemma_placed(f@, slot, p, k as int);
    }
    if k < f.len() && f[k].0 == slot {
        f.set(k, (slot, p));
    } else {
        f.insert(k, (slot, p));
    }
}

/// Take a finger away.
pub fn lift(f: &mut Vec<(i32, ScreenPos)>, slot: i32)
    requires
        rising(old(f)@),
    ensures
        final(f)@ == lifted(old(f)@, slot),
        rising(final(f)@),
{
    let k: usize = slot_index(f, slot);
    proof {
        lemma_placed(f@, slot, origin(), k as int);
    }
    if k < f.len() && f[k].0 == slot {
        let _lifted = f.remove(k);
    }
}

/// The positions of fingers, in rising order of their slots.
pub fn copy_positions(f: &Vec<(i32, ScreenPos)>) -> (r: Vec<ScreenPos>)
    ensures
        r@ == positions(f@),
{
    let n: usize = f.len();
    let mut out: Vec<ScreenPos> = Vec::new();
    let mut i: usize = 0;
    while i < n
        invariant
            i <= n,
            n == f@.len(),
            out@ == positions(f@.take(i as int)),
        decreases n - i,
    {
        out.push(f[i].1);
        proof {
            assert(out@ =~= positions(f@.take(i + 1)));
        }
        i = i + 1;
    }
    proof {
        assert(f@.take(n as int) =~= f@);
    }
    out
}

/// A copy of fingers.
pub fn copy_fingers(f: &Vec<(i32, ScreenPos)>) -> (r: Vec<(i32, ScreenPos)>)
    ensures
        r@ == f@,
{
    let n: usize = f.len();
    let mut out: Vec<(i32, ScreenPos)> = Vec::new();
    let mut i: usize = 0;
    while i < n
        invariant
            i <= n,
            n == f@.len(),
            out@ == f@.take(i as int),
        decreases n - i,
    {
        out.push((f[i].0, f[i].1));
        i = i + 1;
    }
    out
}

/// The fingers with one put down or moved.
pub fn with_finger(f: &Vec<(i32, ScreenPos)>, slot: i32, p: ScreenPos) -> (r: Vec<
    (i32, ScreenPos),
>)
    requires
        rising(f@),
    ensures
        r@ == placed(f@, slot, p),
        rising(r@),
{
    let mut out: Vec<(i32, ScreenPos)> = copy_fingers(f);
    place(&mut out, slot, p);
    out
}

/// The fingers without one.
pub fn without_finger(f: &Vec<(i32, ScreenPos)>, slot: i32) -> (r: Vec<(i32, ScreenPos)>)
    requires
        rising(f@),
    ensures
        r@ == lifted(f@, slot),
        rising(r@),
{
    let mut out: Vec<(i32, ScreenPos)> = copy_fingers(f);
    lift(&mut out, slot);
    out
}

/// A placed finger is where it was put, and no other finger moves.
pub proof fn lemma_place_moves_one(f: Seq<(i32, ScreenPos)>, slot: i32, p: ScreenPos, other: i32)
    requires
        rising(f),
    ensures
        position(placed(f, slot, p), other) == (if other == slot {
            Some(p)
        } else {
            position(f, other)
        }),
    decreases f.len(),
{
    reveal(rising);
    reveal(position);
    reveal(placed);
    if f.len() == 0 || f.last().0 < slot {
        assert(f.push((slot, p)).drop_last() =~= f);
    } else if f.last().0 == slot {
        assert(f.drop_last().push((slot, p)).drop_last() =~= f.drop_last());
    } else {
        lemma_place_moves_one(f.drop_last(), slot, p, other);
        let g = placed(f.drop_last(), slot, p);
        assert(g.push(f.last()).drop_last() =~= g);
    }
}

/// A lifted finger is gone, and every other one stays.
pub proof fn lemma_lift_takes_one(f: Seq<(i32, ScreenPos)>, slot: i32, other: i32)
    requires
        rising(f),
    ensures
        position(lifted(f, slot), other) == (if other == slot {
            None
        } else {
            position(f, other)
        }),
    decreases f.len(),
{
    reveal(rising);
    reveal(position);
    reveal(lifted);
    if f.len() > 0 {
        let front = f.drop_last();
        if f.last().0 == slot {
            lemma_absent(front, slot);
        } else {
            lemma_lift_takes_one(front, slot, other);
            assert(lifted(front, slot).push(f.last()).drop_last() =~= lifted(front, slot));
        }
    }
}

proof fn lemma_absent(f: Seq<(i32, ScreenPos)>, slot: i32)
    requires
        forall|i: int| 0 <= i < f.len() ==> (#[trigger] f[i]).0 != slot,
    ensures
        position(f, slot) is None,
    decreases f.len(),
{
    reveal(position);
    if f.len() > 0 {
        let front = f.drop_last();
        assert forall|i: int| 0 <= i < front.len() implies (#[trigger] front[i]).0 != slot by {
            assert(front[i] == f[i]);
        }
        lemma_absent(front, slot);
        assert(f[f.len() - 1].0 != slot);
    }
}

/// Two fingers that are put down one after the other are both there.
pub proof fn lemma_pair(none: Seq<(i32, ScreenPos)>, a: i32, b: i32)
    requires
        none.len() == 0,
        a != b,
    ensures
        forall|p: ScreenPos| (#[trigger] placed(none, a, p)).len() == 1,
        forall|p: ScreenPos, q: ScreenPos|
            (#[trigger] placed(placed(none, a, p), b, q)).len() == 2 && position(
                placed(placed(none, a, p), b, q),
                a,
            ) == Some(p) && position(placed(placed(none, a, p), b, q), b) == Some(q),
{
    reveal_with_fuel(placed, 2);
    reveal_with_fuel(position, 3);
    assert forall|p: ScreenPos| (#[trigger] placed(none, a, p)) == seq![(a, p)] by {
        assert(none.push((a, p)) =~= seq![(a, p)]);
    }
    assert forall|p: ScreenPos, q: ScreenPos|
        (#[trigger] placed(placed(none, a, p), b, q)).len() == 2 && position(
            placed(placed(none, a, p), b, q),
            a,
        ) == Some(p) && position(placed(placed(none, a, p), b, q), b) == Some(q) by {
        let f = seq![(a, p)];
        assert(placed(none, a, p) == f);
        assert(f.drop_last() =~= Seq::empty());
        if a < b {
            assert(placed(f, b, q) =~= seq![(a, p), (b, q)]);
            assert(placed(f, b, q).drop_last() =~= f);
        } else {
            assert(f.drop_last().push((b, q)) =~= seq![(b, q)]);
            assert(placed(f, b, q) =~= seq![(b, q), (a, p)]);
            assert(placed(f, b, q).drop_last() =~= seq![(b, q)]);
        }
    }
}

} // verus!
