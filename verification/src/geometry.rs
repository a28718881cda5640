//! Integer points, sizes and rectangles.
use vstd::prelude::*;

verus! {

/// A point or an offset.
#[derive(Clone, Copy, Debug, PartialEq, Eq, Structural)]
pub struct Point {
    pub x: i32,
    pub y: i32,
}

#[derive(Clone, Copy, Debug, PartialEq, Eq, Structural)]
pub struct Size {
    pub w: i32,
    pub h: i32,
}

#[derive(Clone, Copy, Debug, PartialEq, Eq, Structural)]
pub struct Rect {
    pub loc: Point,
    pub size: Size,
}

/// Does a number fit a coordinate?
pub open spec fn fits(n: int) -> bool {
    i32::MIN <= n <= i32::MAX
}

/// Do two numbers make a point?
pub open spec fn point_fits(x: int, y: int) -> bool {
    fits(x) && fits(y)
}

/// Does a rectangle hold a point? Its right and bottom edges are outside.
pub open spec fn holds(r: Rect, x: int, y: int) -> bool {
    r.loc.x <= x < r.loc.x + r.size.w && r.loc.y <= y < r.loc.y + r.size.h
}

/// A number cut off towards zero when divided by two.
pub open spec fn half(n: int) -> int {
    if n >= 0 {
        n / 2
    } else {
        -((-n) / 2)
    }
}

/// A number cut off towards zero when divided by two.
pub fn halve(n: i32) -> (r: i32)
    ensures
        r == half(n as int),
{
    if n >= 0 {
        n / 2
    } else if n == i32::MIN {
        -1_073_741_824
    } else {
        -((-n) / 2)
    }
}

/// The larger of two numbers.
pub open spec fn larger(a: int, b: int) -> int {
    if a >= b {
        a
    } else {
        b
    }
}

/// The smaller of two numbers.
pub open spec fn smaller(a: int, b: int) -> int {
    if a <= b {
        a
    } else {
        b
    }
}

/// The larger of two numbers.
pub fn max_of(a: i32, b: i32) -> (r: i32)
    ensures
        r == larger(a as int, b as int),
{
    if a >= b {
        a
    } else {
        b
    }
}

/// The smaller of two numbers.
pub fn min_of(a: i32, b: i32) -> (r: i32)
    ensures
        r == smaller(a as int, b as int),
{
    if a <= b {
        a
    } else {
        b
    }
}

/// A wide number as a coordinate, if it fits.
pub fn to_coordinate(n: i64) -> (r: Option<i32>)
    ensures
        r is Some == fits(n as int),
        r matches Some(c) ==> c == n,
{
    if -2_147_483_648 <= n && n <= 2_147_483_647 {
        Some(n as i32)
    } else {
        None
    }
}

/// A number held to the range of coordinates.
pub open spec fn held(n: int) -> int {
    if n < i32::MIN {
        i32::MIN as int
    } else if n > i32::MAX {
        i32::MAX as int
    } else {
        n
    }
}

/// A wide number held to the range of coordinates.
pub fn hold(n: i64) -> (r: i32)
    ensures
        r == held(n as int),
{
    if n < -2_147_483_648 {
        i32::MIN
    } else if n > 2_147_483_647 {
        i32::MAX
    } else {
        n as i32
    }
}

/// A number held between two bounds.
pub open spec fn between(low: int, high: int, n: int) -> int {
    if n < low {
        low
    } else if n > high {
        high
    } else {
        n
    }
}

/// A number held between two bounds.
pub fn hold_between(low: i64, high: i64, n: i64) -> (r: i64)
    requires
        low <= high,
    ensures
        r == between(low as int, high as int, n as int),
        low <= r <= high,
{
    if n < low {
        low
    } else if n > high {
        high
    } else {
        n
    }
}

// ── Laws ─────────────────────────────────────────────────────────────

/// A half is a half, up to the bit that is cut off, and halves of opposite
/// numbers are opposite.
pub proof fn lemma_half(n: int)
    ensures
        n >= 0 ==> 2 * half(n) <= n <= 2 * half(n) + 1,
        n <= 0 ==> 2 * half(n) - 1 <= n <= 2 * half(n),
        half(-n) == -half(n),
{
}

/// The larger of two numbers is one of them and below neither; the smaller is
/// the other.
pub proof fn lemma_larger_and_smaller(a: int, b: int)
    ensures
        larger(a, b) >= a,
        larger(a, b) >= b,
        larger(a, b) == a || larger(a, b) == b,
        smaller(a, b) <= a,
        smaller(a, b) <= b,
        smaller(a, b) + larger(a, b) == a + b,
{
}

/// A number that is held lies in the range and is the nearest there: what lies
/// in the range is kept.
pub proof fn lemma_held_is_nearest(n: int, low: int, high: int)
    ensures
        -0x8000_0000 <= held(n) <= 0x7fff_ffff,
        -0x8000_0000 <= n <= 0x7fff_ffff ==> held(n) == n,
        n < -0x8000_0000 ==> held(n) == -0x8000_0000,
        n > 0x7fff_ffff ==> held(n) == 0x7fff_ffff,
        fits(n) == (-0x8000_0000 <= n <= 0x7fff_ffff),
        low <= high ==> low <= between(low, high, n) <= high,
        low <= n <= high ==> between(low, high, n) == n,
        low <= high && n < low ==> between(low, high, n) == low,
        low <= high && n > high ==> between(low, high, n) == high,
{
}

/// A rectangle holds as many points along each axis as it is long there: its
/// corner is the first, and its far edges are outside.
pub proof fn lemma_rectangle_holds(r: Rect, x: int, y: int)
    ensures
        holds(r, x, y) <==> 0 <= x - r.loc.x < r.size.w && 0 <= y - r.loc.y < r.size.h,
        point_fits(x, y) <==> held(x) == x && held(y) == y,
{
}

} // verus!
