//! Numbers of the configuration file.
//!
//! A real number is carried as the 64 bits of its IEEE 754 binary64 form; its
//! order is the order of those bits read as sign and magnitude.
use vstd::prelude::*;

use crate::text;
use crate::text::show_i64;

verus! {

/// The sign bit of a binary64 number.
pub const SIGN: u64 = 0x8000_0000_0000_0000;

/// The magnitude bits of infinity; a larger magnitude is not a number.
pub const INFINITY: u64 = 0x7ff0_0000_0000_0000;

/// A binary64 number.
#[derive(Clone, Copy, Debug, PartialEq, Eq, Structural)]
pub struct Real {
    pub bits: u64,
}

/// The bits of a number without its sign.
pub open spec fn magnitude(r: Real) -> int {
    if r.bits >= SIGN {
        r.bits - SIGN
    } else {
        r.bits as int
    }
}

/// Where a number stands in the order of the numbers: both zeros at 0, and
/// nowhere for what is not a number.
pub open spec fn real_rank(r: Real) -> Option<int> {
    if magnitude(r) > INFINITY {
        None
    } else if r.bits >= SIGN {
        Some(-magnitude(r))
    } else {
        Some(magnitude(r))
    }
}

/// `a < b`; false where one is not a number.
pub open spec fn less(a: Real, b: Real) -> bool {
    real_rank(a) is Some && real_rank(b) is Some && real_rank(a)->0 < real_rank(b)->0
}

/// `a >= b`; false where one is not a number.
pub open spec fn at_least(a: Real, b: Real) -> bool {
    real_rank(a) is Some && real_rank(b) is Some && real_rank(a)->0 >= real_rank(b)->0
}

/// The number with the other sign.
pub open spec fn negated(r: Real) -> Real {
    if r.bits >= SIGN {
        Real { bits: (r.bits - SIGN) as u64 }
    } else {
        Real { bits: (r.bits + SIGN) as u64 }
    }
}

impl Real {
    /// Is this a number at all?
    pub fn is_number(&self) -> (r: bool)
        ensures
            r == real_rank(*self) is Some,
    {
        if self.bits >= SIGN {
            self.bits - SIGN <= INFINITY
        } else {
            self.bits <= INFINITY
        }
    }

    /// Is this number less than `other`? False where one is not a number.
    pub fn less(&self, other: &Real) -> (r: bool)
        ensures
            r == less(*self, *other),
    {
        if !self.is_number() || !other.is_number() {
            return false;
        }
        if self.bits >= SIGN {
            if other.bits >= SIGN {
                self.bits > other.bits
            } else {
                self.bits > SIGN || other.bits > 0
            }
        } else if other.bits >= SIGN {
            false
        } else {
            self.bits < other.bits
        }
    }

    /// Is this number at least `other`? False where one is not a number.
    pub fn at_least(&self, other: &Real) -> (r: bool)
        ensures
            r == at_least(*self, *other),
    {
        self.is_number() && other.is_number() && !self.less(other)
    }

    /// The number with the other sign.
    pub fn negate(&self) -> (r: Real)
        ensures
            r == negated(*self),
    {
        if self.bits >= SIGN {
            Real { bits: self.bits - SIGN }
        } else {
            Real { bits: self.bits + SIGN }
        }
    }
}

/// A real number as it was written, with the text that displays it.
#[derive(Debug, PartialEq, Eq)]
pub struct NumberOf<S> {
    pub value: Real,
    pub text: S,
}

pub type Number = NumberOf<String>;

/// Model of a number.
pub type NumberModel = NumberOf<Seq<char>>;

impl View for NumberOf<String> {
    type V = NumberOf<Seq<char>>;

    open spec fn view(&self) -> NumberOf<Seq<char>> {
        NumberOf { value: self.value, text: self.text@ }
    }
}

impl NumberOf<String> {
    /// The number with the given bits and text.
    pub fn new(bits: u64, shown: &str) -> (r: Number)
        ensures
            r@ == (NumberOf::<Seq<char>> { value: Real { bits }, text: shown@ }),
    {
        Number { value: Real { bits }, text: shown.to_owned() }
    }

    /// A copy of the number.
    pub fn duplicate(&self) -> (r: Number)
        ensures
            r == *self,
    {
        Number { value: self.value, text: self.text.clone() }
    }
}

/// A kind of number that settings are written in: it can be compared and
/// shown.
pub trait Ranked: Sized {
    /// The place of the number in its order, none for what is not a number.
    spec fn rank(&self) -> Option<int>;

    /// The text that displays the number.
    spec fn shown(&self) -> Seq<char>;

    /// Is this the number zero (the positive one)?
    spec fn is_zero(&self) -> bool;

    fn zero() -> (r: Self)
        ensures
            r.is_zero(),
            r.rank() == Some(0int),
            r.shown() == text::int_text(0),
    ;

    /// Not known to be at least `other`.
    fn not_at_least(&self, other: &Self) -> (r: bool)
        ensures
            r == below(self.rank(), other.rank()),
    ;

    /// Known to be more than `other`.
    fn more_than(&self, other: &Self) -> (r: bool)
        ensures
            r == above(self.rank(), other.rank()),
    ;

    /// The text that displays the number.
    fn show(&self) -> (r: String)
        ensures
            r@ == self.shown(),
    ;
}

/// `a` is less than `b`, or one of them is not a number.
pub open spec fn below(a: Option<int>, b: Option<int>) -> bool {
    a is None || b is None || a->0 < b->0
}

/// Both are numbers and `a` is more than `b`.
pub open spec fn above(a: Option<int>, b: Option<int>) -> bool {
    a is Some && b is Some && a->0 > b->0
}

impl Ranked for NumberOf<String> {
    open spec fn rank(&self) -> Option<int> {
        real_rank(self.value)
    }

    open spec fn shown(&self) -> Seq<char> {
        self.text@
    }

    open spec fn is_zero(&self) -> bool {
        self.value == Real { bits: 0 }
    }

    fn zero() -> (r: Self) {
        proof {
            reveal_strlit("0");
            assert("0"@ =~= text::int_text(0));
        }
        Number { value: Real { bits: 0 }, text: "0".to_owned() }
    }

    fn not_at_least(&self, other: &Self) -> (r: bool) {
        !self.value.is_number() || !other.value.is_number() || self.value.less(&other.value)
    }

    fn more_than(&self, other: &Self) -> (r: bool) {
        other.value.less(&self.value)
    }

    fn show(&self) -> (r: String) {
        self.text.clone()
    }
}

impl Ranked for i32 {
    open spec fn rank(&self) -> Option<int> {
        Some(*self as int)
    }

    open spec fn shown(&self) -> Seq<char> {
        text::int_text(*self as int)
    }

    open spec fn is_zero(&self) -> bool {
        *self == 0
    }

    fn zero() -> (r: Self) {
        0
    }

    fn not_at_least(&self, other: &Self) -> (r: bool) {
        *self < *other
    }

    fn more_than(&self, other: &Self) -> (r: bool) {
        *self > *other
    }

    fn show(&self) -> (r: String) {
        show_i64(*self as i64)
    }
}

impl Ranked for u32 {
    open spec fn rank(&self) -> Option<int> {
        Some(*self as int)
    }

    open spec fn shown(&self) -> Seq<char> {
        text::int_text(*self as int)
    }

    open spec fn is_zero(&self) -> bool {
        *self == 0
    }

    fn zero() -> (r: Self) {
        0
    }

    fn not_at_least(&self, other: &Self) -> (r: bool) {
        *self < *other
    }

    fn more_than(&self, other: &Self) -> (r: bool) {
        *self > *other
    }

    fn show(&self) -> (r: String) {
        show_i64(*self as i64)
    }
}

// ── Laws ─────────────────────────────────────────────────────────────

/// The order of the numbers: of two that are not negative, the one with the
/// larger bits is larger, and of two negative ones, the one with the smaller
/// bits; a negative one is below a positive one; both zeros are equal; and what
/// is not a number is in no order with anything.
pub proof fn lemma_order_of_numbers(a: Real, b: Real)
    ensures
        ({
            let negative = |r: Real| r.bits >= 0x8000_0000_0000_0000;
            let size = |r: Real|
                if negative(r) {
                    r.bits - 0x8000_0000_0000_0000
                } else {
                    r.bits as int
                };
            let number = |r: Real| size(r) <= 0x7ff0_0000_0000_0000;
            &&& number(a) == real_rank(a) is Some
            &&& number(a) && number(b) ==> {
                &&& less(a, b) == (if negative(a) && negative(b) {
                    size(a) > size(b)
                } else if negative(a) {
                    size(a) > 0 || size(b) > 0
                } else if negative(b) {
                    false
                } else {
                    size(a) < size(b)
                })
                &&& at_least(a, b) == !less(a, b)
                &&& at_least(a, b) && at_least(b, a) <==> real_rank(a) == real_rank(b)
            }
            &&& !number(a) || !number(b) ==> !less(a, b) && !at_least(a, b)
        }),
{
}

/// A number and the one with the other sign lie on opposite sides of zero, and
/// changing the sign twice changes nothing.
pub proof fn lemma_negation(a: Real, b: Real)
    ensures
        negated(negated(a)) == a,
        negated(a) != a,
        real_rank(a) matches Some(n) ==> real_rank(negated(a)) == Some(-n),
        real_rank(a) is None ==> real_rank(negated(a)) is None,
        less(a, b) == less(negated(b), negated(a)),
{
}

/// What is not a number counts as below every bound and above none.
pub proof fn lemma_bounds(a: int, b: int)
    ensures
        below(Some(a), Some(b)) == (a < b),
        above(Some(a), Some(b)) == (a > b),
        below(None, Some(b)),
        !above(None, Some(b)),
{
}

} // verus!
