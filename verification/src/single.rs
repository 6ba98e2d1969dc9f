//! Single-precision numbers, held as their bit patterns.
//!
//! Nothing in this crate computes with such a number: a coordinate, a colour
//! channel or a distance is handed in as the 32 bits of its IEEE 754 encoding
//! and handed back the same way. What the viewer's decisions do need is the
//! *order* of two numbers, and that can be read off the bits: drop the sign bit
//! and the rest grows with the magnitude, so a number is a signed integer in
//! disguise. Everything below rests on that one observation.
use vstd::arithmetic::power2::{lemma_pow2_pos, lemma_pow2_strictly_increases, lemma_pow2_unfold, pow2};
use vstd::prelude::*;

verus! {

/// Bits of positive infinity; anything above it, sign aside, is not a number.
pub const INFINITY: u32 = 0x7F80_0000;

/// Bits of negative infinity.
pub const NEG_INFINITY: u32 = 0xFF80_0000;

/// Bits of `0.0`.
pub const ZERO: u32 = 0x0000_0000;

/// Bits of `1.0`.
pub const ONE: u32 = 0x3F80_0000;

/// The sign bit on its own.
pub const SIGN: u32 = 0x8000_0000;

/// A single-precision number, as its bit pattern.
#[derive(Debug, Clone, Copy, PartialEq, Eq, Structural)]
pub struct Single {
    pub bits: u32,
}

impl Single {
    /// Whether the sign bit is set.
    pub open spec fn negative(self) -> bool {
        self.bits >= SIGN
    }

    /// The bits without the sign.
    pub open spec fn magnitude(self) -> int {
        if self.negative() {
            self.bits - SIGN
        } else {
            self.bits as int
        }
    }

    /// Not a number.
    pub open spec fn nan(self) -> bool {
        self.magnitude() > INFINITY
    }

    /// The integer that orders numbers as their values do. Both zeros rank 0.
    pub open spec fn rank(self) -> int {
        if self.negative() {
            -self.magnitude()
        } else {
            self.magnitude()
        }
    }

    /// The integer that orders every bit pattern, zeros and non-numbers
    /// included, the way a total order on singles does.
    pub open spec fn total_rank(self) -> int {
        if self.negative() {
            -1 - self.magnitude()
        } else {
            self.magnitude()
        }
    }

    /// `self < other`, false when either is not a number.
    pub open spec fn below(self, other: Single) -> bool {
        !self.nan() && !other.nan() && self.rank() < other.rank()
    }

    /// `self <= other`, false when either is not a number.
    pub open spec fn at_most(self, other: Single) -> bool {
        !self.nan() && !other.nan() && self.rank() <= other.rank()
    }

    /// The lesser of two, ignoring one that is not a number; `self` on a tie.
    pub open spec fn lesser(self, other: Single) -> Single {
        if self.nan() {
            other
        } else if other.below(self) {
            other
        } else {
            self
        }
    }

    /// The greater of two, ignoring one that is not a number; `self` on a tie.
    pub open spec fn greater(self, other: Single) -> Single {
        if self.nan() {
            other
        } else if self.below(other) {
            other
        } else {
            self
        }
    }

    /// `self` held between two limits; what is not a number stays as it is.
    pub open spec fn held(self, low: Single, high: Single) -> Single {
        if self.below(low) {
            low
        } else if high.below(self) {
            high
        } else {
            self
        }
    }

    /// Whether the pattern is not a number.
    pub fn is_nan(self) -> (r: bool)
        ensures
            r == self.nan(),
    {
        if self.bits >= SIGN {
            self.bits - SIGN > INFINITY
        } else {
            self.bits > INFINITY
        }
    }

    fn signed(self) -> (r: i64)
        ensures
            r == self.rank(),
    {
        if self.bits >= SIGN {
            -((self.bits - SIGN) as i64)
        } else {
            self.bits as i64
        }
    }

    /// `self < other`.
    pub fn lt(self, other: Single) -> (r: bool)
        ensures
            r == self.below(other),
    {
        !self.is_nan() && !other.is_nan() && self.signed() < other.signed()
    }

    /// `self <= other`.
    pub fn le(self, other: Single) -> (r: bool)
        ensures
            r == self.at_most(other),
    {
        !self.is_nan() && !other.is_nan() && self.signed() <= other.signed()
    }

    /// Whether `self` comes strictly before `other` in the total order.
    pub fn before(self, other: Single) -> (r: bool)
        ensures
            r == (self.total_rank() < other.total_rank()),
    {
        let a: i64 = if self.bits >= SIGN { -1 - ((self.bits - SIGN) as i64) } else { self.bits as i64 };
        let b: i64 = if other.bits >= SIGN { -1 - ((other.bits - SIGN) as i64) } else { other.bits as i64 };
        a < b
    }

    /// The lesser of two.
    pub fn min(self, other: Single) -> (r: Single)
        ensures
            r == self.lesser(other),
    {
        if self.is_nan() || other.lt(self) {
            other
        } else {
            self
        }
    }

    /// The greater of two.
    pub fn max(self, other: Single) -> (r: Single)
        ensures
            r == self.greater(other),
    {
        if self.is_nan() || self.lt(other) {
            other
        } else {
            self
        }
    }

    /// `self` held between `low` and `high`.
    pub fn clamp(self, low: Single, high: Single) -> (r: Single)
        ensures
            r == self.held(low, high),
    {
        if self.lt(low) {
            low
        } else if high.lt(self) {
            high
        } else {
            self
        }
    }
}

/// The total order tells any two bit patterns apart.
pub proof fn law_total_rank_is_injective(a: Single, b: Single)
    requires
        a.total_rank() == b.total_rank(),
    ensures
        a == b,
{
}

/// On numbers, the total order refines the order of the values: whatever is
/// strictly less comes strictly first.
pub proof fn law_total_order_respects_values(a: Single, b: Single)
    requires
        a.below(b),
    ensures
        a.total_rank() < b.total_rank(),
{
}

/// The lesser of two numbers is one of them and at most either.
pub proof fn law_lesser_is_a_lower_bound(a: Single, b: Single)
    requires
        !a.nan(),
        !b.nan(),
    ensures
        a.lesser(b) == a || a.lesser(b) == b,
        a.lesser(b).at_most(a),
        a.lesser(b).at_most(b),
{
}

/// The greater of two numbers is one of them and at least either.
pub proof fn law_greater_is_an_upper_bound(a: Single, b: Single)
    requires
        !a.nan(),
        !b.nan(),
    ensures
        a.greater(b) == a || a.greater(b) == b,
        a.at_most(a.greater(b)),
        b.at_most(a.greater(b)),
{
}

/// A number held between two limits that are in order lies between them.
pub proof fn law_held_stays_within(x: Single, low: Single, high: Single)
    requires
        !x.nan(),
        low.at_most(high),
    ensures
        low.at_most(x.held(low, high)),
        x.held(low, high).at_most(high),
{
}

/// How many times the least positive single a pattern without a sign stands
/// for: an exponent of eight bits over a fraction of twenty-three.
pub open spec fn size(pattern: int) -> int {
    let exponent = pattern / 0x80_0000;
    let fraction = pattern % 0x80_0000;
    if exponent == 0 {
        fraction
    } else {
        (0x80_0000 + fraction) * pow2((exponent - 1) as nat)
    }
}

/// The value of a number, in units of the least positive single.
pub open spec fn value(x: Single) -> int {
    if x.bits >= 0x8000_0000 {
        -size(x.bits - 0x8000_0000)
    } else {
        size(x.bits as int)
    }
}

/// A greater pattern stands for a greater size.
proof fn lemma_size_grows(a: int, b: int)
    requires
        0 <= a < b <= 0x7F80_0000,
    ensures
        0 <= size(a) < size(b),
{
    let e = a / 0x80_0000;
    let g = b / 0x80_0000;
    let f = a % 0x80_0000;
    let h = b % 0x80_0000;
    assert(a == 0x80_0000 * e + f && b == 0x80_0000 * g + h);
    assert(0 <= e <= g);
    if e >= 1 {
        lemma_pow2_pos((e - 1) as nat);
        let p = pow2((e - 1) as nat);
        assert(0 <= (0x80_0000 + f) * p) by (nonlinear_arith)
            requires
                p > 0,
                f >= 0,
        ;
        if e == g {
            assert((0x80_0000 + f) * p < (0x80_0000 + h) * p) by (nonlinear_arith)
                requires
                    p > 0,
                    f < h,
            ;
        } else {
            lemma_pow2_unfold(e as nat);
            if e < g - 1 {
                lemma_pow2_strictly_increases(e as nat, (g - 1) as nat);
            }
            let q = pow2((g - 1) as nat);
            assert((0x80_0000 + f) * p < 0x100_0000 * p) by (nonlinear_arith)
                requires
                    p > 0,
                    f < 0x80_0000,
            ;
            assert(0x100_0000 * p <= 0x80_0000 * q) by (nonlinear_arith)
                requires
                    2 * p <= q,
            ;
            assert(0x80_0000 * q <= (0x80_0000 + h) * q) by (nonlinear_arith)
                requires
                    q > 0,
                    h >= 0,
            ;
        }
    } else if g >= 1 {
        lemma_pow2_pos((g - 1) as nat);
        let q = pow2((g - 1) as nat);
        assert((0x80_0000 + h) * q >= 0x80_0000) by (nonlinear_arith)
            requires
                q >= 1,
                h >= 0,
        ;
    }
}

/// A pattern is no number when its exponent is all ones and its fraction is not
/// zero.
pub proof fn law_what_is_not_a_number(x: Single)
    ensures
        x.nan() <==> x.bits as int / 0x80_0000 % 256 == 255 && x.bits as int % 0x80_0000 != 0,
{
}

/// Numbers are ordered as their values are; what is no number is neither below
/// nor at most anything, and nothing is below or at most it.
pub proof fn law_numbers_are_ordered_by_value(a: Single, b: Single)
    ensures
        a.nan() || b.nan() ==> !a.below(b) && !a.at_most(b),
        !a.nan() && !b.nan() ==> (a.below(b) <==> value(a) < value(b)) && (a.at_most(b) <==> value(a)
            <= value(b)),
{
    let x = if a.bits >= 0x8000_0000 { a.bits - 0x8000_0000 } else { a.bits as int };
    let y = if b.bits >= 0x8000_0000 { b.bits - 0x8000_0000 } else { b.bits as int };
    if !a.nan() && !b.nan() {
        if x < y {
            lemma_size_grows(x, y);
        } else if y < x {
            lemma_size_grows(y, x);
        }
        if x > 0 {
            lemma_size_grows(0, x);
        }
        if y > 0 {
            lemma_size_grows(0, y);
        }
    }
}

/// The total order puts every pattern with a sign before every one without, and
/// goes by the size of the pattern within each kind.
pub proof fn law_the_total_order(a: Single, b: Single)
    ensures
        a.total_rank() < b.total_rank() <==> if a.bits >= 0x8000_0000 {
            b.bits < 0x8000_0000 || a.bits > b.bits
        } else {
            b.bits < 0x8000_0000 && a.bits < b.bits
        },
{
}

/// The lesser and the greater of two leave out what is no number, and are no
/// number only when neither is one.
pub proof fn law_extremes_leave_out_what_is_no_number(a: Single, b: Single)
    ensures
        a.nan() ==> a.lesser(b) == b && a.greater(b) == b,
        !a.nan() && b.nan() ==> a.lesser(b) == a && a.greater(b) == a,
        !a.nan() && !b.nan() ==> {
            &&& a.lesser(b) == if value(b) < value(a) {
                b
            } else {
                a
            }
            &&& a.greater(b) == if value(a) < value(b) {
                b
            } else {
                a
            }
        },
{
    law_numbers_are_ordered_by_value(a, b);
    law_numbers_are_ordered_by_value(b, a);
}

/// What lies between two limits is held as it is, what lies outside is held at
/// the limit that it passed, and what is no number is not held at all.
pub proof fn law_holding(x: Single, low: Single, high: Single)
    requires
        !low.nan(),
        !high.nan(),
        value(low) <= value(high),
    ensures
        x.nan() ==> x.held(low, high) == x,
        !x.nan() && value(x) < value(low) ==> x.held(low, high) == low,
        !x.nan() && value(high) < value(x) ==> x.held(low, high) == high,
        !x.nan() && value(low) <= value(x) <= value(high) ==> x.held(low, high) == x,
{
    law_numbers_are_ordered_by_value(x, low);
    law_numbers_are_ordered_by_value(high, x);
}

} // verus!
