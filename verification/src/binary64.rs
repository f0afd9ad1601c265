//! IEEE 754 numbers carried as bit patterns.
use vstd::arithmetic::power2::pow2;
use vstd::prelude::*;

verus! {

/// A binary64 number, held as its 64-bit pattern: one sign bit, eleven exponent bits,
/// fifty-two fraction bits.
#[derive(Clone, Copy, Debug)]
pub struct Binary64 {
    pub bits: u64,
}

/// The pattern of positive infinity; every pattern above it, sign aside, is a NaN.
pub const INFINITY_BITS: u64 = 0x7ff0_0000_0000_0000;

/// The weight of the sign bit.
pub const SIGN_BIT: u64 = 0x8000_0000_0000_0000;

/// The number of fraction patterns.
pub const FRACTION_RANGE: u64 = 0x0010_0000_0000_0000;

impl Binary64 {
    /// Whether the sign bit is set (of a zero or a NaN too).
    pub open spec fn signed(self) -> bool {
        self.bits >= SIGN_BIT
    }

    /// The pattern without the sign bit. On numbers it grows with the absolute value.
    pub open spec fn magnitude(self) -> int {
        if self.signed() {
            self.bits - SIGN_BIT
        } else {
            self.bits as int
        }
    }

    pub open spec fn is_nan(self) -> bool {
        self.magnitude() > INFINITY_BITS
    }

    /// An integer that orders the numbers as their values do; both zeros have rank zero.
    pub open spec fn rank(self) -> int {
        if self.signed() {
            -self.magnitude()
        } else {
            self.magnitude()
        }
    }

    /// IEEE equality: a NaN equals nothing, and the two zeros are equal.
    pub open spec fn same_number(self, other: Binary64) -> bool {
        !self.is_nan() && !other.is_nan() && self.rank() == other.rank()
    }

    /// IEEE `<=`: false as soon as a NaN takes part.
    pub open spec fn at_most(self, other: Binary64) -> bool {
        !self.is_nan() && !other.is_nan() && self.rank() <= other.rank()
    }

    /// IEEE `< 0`.
    pub open spec fn below_zero(self) -> bool {
        !self.is_nan() && self.rank() < 0
    }

    /// The biased exponent.
    pub open spec fn exponent(self) -> int {
        self.magnitude() / (FRACTION_RANGE as int)
    }

    /// The significand: the fraction, with the implicit leading bit of a normal number.
    pub open spec fn significand(self) -> int {
        let fraction = self.magnitude() % (FRACTION_RANGE as int);
        if self.exponent() == 0 {
            fraction
        } else {
            fraction + FRACTION_RANGE
        }
    }

    /// The value rounded toward zero: the significand scaled by the power of two that the
    /// exponent names (subnormal numbers share the scale of the smallest normal ones).
    pub open spec fn truncated(self) -> int {
        let scale = if self.exponent() == 0 {
            1
        } else {
            self.exponent()
        };
        let size = if scale >= 1075 {
            self.significand() * pow2((scale - 1075) as nat)
        } else {
            self.significand() / (pow2((1075 - scale) as nat) as int)
        };
        if self.signed() {
            -size
        } else {
            size
        }
    }

    /// The conversion to a 32-bit integer: toward zero, clamped to the range, a NaN to zero.
    pub open spec fn clamped_i32(self) -> int {
        if self.is_nan() {
            0
        } else if self.truncated() > i32::MAX {
            i32::MAX as int
        } else if self.truncated() < i32::MIN {
            i32::MIN as int
        } else {
            self.truncated()
        }
    }

    /// Positive zero.
    pub fn zero() -> (r: Binary64)
        ensures
            r.bits == 0,
            r.rank() == 0,
    {
        Binary64 { bits: 0 }
    }

    fn unsigned_bits(self) -> (r: u64)
        ensures
            r == self.magnitude(),
            r < SIGN_BIT,
    {
        if self.bits >= SIGN_BIT {
            self.bits - SIGN_BIT
        } else {
            self.bits
        }
    }

    /// IEEE `==`.
    pub fn equals(self, other: Binary64) -> (r: bool)
        ensures
            r == self.same_number(other),
    {
        let a: u64 = self.unsigned_bits();
        let b: u64 = other.unsigned_bits();
        a <= INFINITY_BITS && b <= INFINITY_BITS && a == b && (a == 0 || (self.bits >= SIGN_BIT)
            == (other.bits >= SIGN_BIT))
    }

    /// IEEE `== 0`.
    pub fn is_zero(self) -> (r: bool)
        ensures
            r == (self.rank() == 0),
            r == self.same_number(Binary64 { bits: 0 }),
    {
        self.unsigned_bits() == 0
    }

    /// IEEE `< 0`.
    pub fn is_below_zero(self) -> (r: bool)
        ensures
            r == self.below_zero(),
    {
        let a: u64 = self.unsigned_bits();
        self.bits >= SIGN_BIT && 0 < a && a <= INFINITY_BITS
    }

    /// IEEE `<=`.
    pub fn is_at_most(self, other: Binary64) -> (r: bool)
        ensures
            r == self.at_most(other),
    {
        let a: u64 = self.unsigned_bits();
        let b: u64 = other.unsigned_bits();
        if a > INFINITY_BITS || b > INFINITY_BITS {
            false
        } else if self.bits >= SIGN_BIT {
            if other.bits >= SIGN_BIT {
                a >= b
            } else {
                true
            }
        } else if other.bits >= SIGN_BIT {
            a == 0 && b == 0
        } else {
            a <= b
        }
    }

    /// The number as a 32-bit integer, rounded toward zero and clamped; a NaN gives zero.
    pub fn to_i32(self) -> (r: i32)
        ensures
            r == self.clamped_i32(),
    {
        let negative = self.bits >= SIGN_BIT;
        let a: u64 = self.unsigned_bits();
        if a > INFINITY_BITS {
            return 0;
        }
        let exponent: u64 = a / FRACTION_RANGE;
        let limit: u64 = 0x8000_0000;
        let size: u64 = if exponent < 1023 {
            proof {
                lemma_small(self);
            }
            0
        } else if exponent >= 1054 {
            proof {
                lemma_large(self);
            }
            limit
        } else {
            let significand: u64 = a % FRACTION_RANGE + FRACTION_RANGE;
            let shift: u64 = 1075 - exponent;
            proof {
                vstd::bits::lemma_u64_shr_is_div(significand, shift);
                lemma_medium(self);
            }
            significand >> shift
        };
        if negative {
            if size >= limit {
                i32::MIN
            } else {
                -(size as i32)
            }
        } else if size >= limit {
            i32::MAX
        } else {
            size as i32
        }
    }
}

/// Below one the value truncates to zero.
proof fn lemma_small(x: Binary64)
    requires
        x.exponent() < 1023,
    ensures
        x.truncated() == 0,
{
    let scale = if x.exponent() == 0 {
        1
    } else {
        x.exponent()
    };
    vstd::arithmetic::power2::lemma2_to64_rest();
    if 1075 - scale > 53 {
        vstd::arithmetic::power2::lemma_pow2_strictly_increases(53, (1075 - scale) as nat);
    }
    vstd::arithmetic::div_mod::lemma_basic_div(
        x.significand(),
        pow2((1075 - scale) as nat) as int,
    );
}

/// From two to the thirty-first on the value exceeds every 32-bit integer in size.
proof fn lemma_large(x: Binary64)
    requires
        x.exponent() >= 1054,
    ensures
        x.signed() ==> x.truncated() <= -0x8000_0000,
        !x.signed() ==> x.truncated() >= 0x8000_0000,
{
    let scale = x.exponent();
    let s = x.significand();
    vstd::arithmetic::power2::lemma2_to64();
    vstd::arithmetic::power2::lemma2_to64_rest();
    if scale >= 1075 {
        let p = pow2((scale - 1075) as nat) as int;
        vstd::arithmetic::power2::lemma_pow2_pos((scale - 1075) as nat);
        assert(s * p >= s) by (nonlinear_arith)
            requires
                p >= 1,
                s >= 0,
        ;
    } else {
        let p = pow2((1075 - scale) as nat) as int;
        if 1075 - scale < 21 {
            vstd::arithmetic::power2::lemma_pow2_strictly_increases((1075 - scale) as nat, 21);
        }
        vstd::arithmetic::power2::lemma_pow2_pos((1075 - scale) as nat);
        assert(s / p >= 0x8000_0000) by (nonlinear_arith)
            requires
                0 < p <= 0x20_0000,
                s >= 0x10_0000_0000_0000,
        ;
    }
}

/// In between the shifted significand fits below two to the thirty-first.
proof fn lemma_medium(x: Binary64)
    requires
        1023 <= x.exponent() < 1054,
    ensures
        0 <= x.significand() / (pow2((1075 - x.exponent()) as nat) as int) < 0x8000_0000,
{
    let s = x.significand();
    let k = (1075 - x.exponent()) as nat;
    let p = pow2(k) as int;
    vstd::arithmetic::power2::lemma2_to64();
    vstd::arithmetic::power2::lemma2_to64_rest();
    if k > 22 {
        vstd::arithmetic::power2::lemma_pow2_strictly_increases(22, k);
    }
    assert(0 <= s / p < 0x8000_0000) by (nonlinear_arith)
        requires
            p >= 0x40_0000,
            0 <= s < 0x20_0000_0000_0000,
    ;
}

/// A binary32 number, held as its 32-bit pattern.
#[derive(Clone, Copy, Debug)]
pub struct Binary32 {
    pub bits: u32,
}

/// What a pattern stands for: its highest bit is the sign, the next eleven the exponent and the
/// other fifty-two the fraction. An exponent of all ones with a fraction is a NaN, and only the
/// two zeros have rank zero.
pub proof fn law_pattern(sign: int, exponent: int, fraction: int, x: Binary64)
    requires
        sign == 0 || sign == 1,
        0 <= exponent < 2048,
        0 <= fraction < 0x10_0000_0000_0000,
        x.bits == sign * 0x8000_0000_0000_0000 + exponent * 0x10_0000_0000_0000 + fraction,
    ensures
        x.signed() <==> sign == 1,
        x.exponent() == exponent,
        x.significand() == if exponent == 0 {
            fraction
        } else {
            fraction + 0x10_0000_0000_0000
        },
        x.is_nan() <==> exponent == 2047 && fraction > 0,
        x.rank() == 0 <==> exponent == 0 && fraction == 0,
        x.below_zero() <==> sign == 1 && !(exponent == 0 && fraction == 0) && !(exponent == 2047
            && fraction > 0),
{
    let m = exponent * 0x10_0000_0000_0000 + fraction;
    assert(x.magnitude() == m);
    assert(m / 0x10_0000_0000_0000 == exponent && m % 0x10_0000_0000_0000 == fraction);
}

/// Numbers are ordered as their ranks are, and a NaN stands in no order: `<=` holds one way or
/// the other between any two others, both ways exactly if they are equal, and passes on.
pub proof fn law_order(a: Binary64, b: Binary64, c: Binary64)
    ensures
        a.is_nan() || b.is_nan() ==> !a.at_most(b) && !a.same_number(b),
        !a.is_nan() && !b.is_nan() ==> a.at_most(b) || b.at_most(a),
        a.at_most(b) && b.at_most(a) <==> a.same_number(b),
        a.at_most(b) && b.at_most(c) ==> a.at_most(c),
        a.same_number(b) <==> b.same_number(a),
        !a.is_nan() ==> a.same_number(a),
        a.below_zero() <==> a.at_most(Binary64 { bits: 0 }) && !a.same_number(
            Binary64 { bits: 0 },
        ),
        a.same_number(b) ==> a.bits == b.bits || a.rank() == 0 && b.rank() == 0,
        !a.signed() && !b.signed() && !a.is_nan() && !b.is_nan() ==> (a.at_most(b) <==> a.bits
            <= b.bits),
        a.signed() && b.signed() && !a.is_nan() && !b.is_nan() ==> (a.at_most(b) <==> b.bits
            <= a.bits),
        a.signed() && !b.signed() && !a.is_nan() && !b.is_nan() ==> a.at_most(b),
{
}

/// The conversion to a 32-bit integer takes the largest integer in size that is not larger than
/// the number, with the sign of the number; beyond the range it takes the end of the range, and
/// of a NaN it makes zero. The size of the number is its significand times two to the power of
/// the exponent less 1075.
pub proof fn law_conversion(x: Binary64)
    ensures
        ({
            let s = x.significand();
            let e = if x.exponent() == 0 {
                1
            } else {
                x.exponent()
            };
            let t = x.clamped_i32();
            let size = if t < 0 {
                -t
            } else {
                t
            };
            let p = pow2((1075 - e) as nat) as int;
            &&& i32::MIN <= t <= i32::MAX
            &&& x.is_nan() ==> t == 0
            &&& x.signed() ==> t <= 0
            &&& !x.signed() ==> t >= 0
            &&& !x.is_nan() && e >= 1075 ==> t == if x.signed() {
                i32::MIN as int
            } else {
                i32::MAX as int
            }
            &&& !x.is_nan() && e < 1075 ==> size * p <= s
            &&& !x.is_nan() && e < 1075 && i32::MIN < t < i32::MAX ==> s < (size + 1) * p
        }),
{
    let s = x.significand();
    let e = if x.exponent() == 0 {
        1
    } else {
        x.exponent()
    };
    if e >= 1075 {
        lemma_large(x);
    } else {
        let p = pow2((1075 - e) as nat) as int;
        vstd::arithmetic::power2::lemma_pow2_pos((1075 - e) as nat);
        vstd::arithmetic::div_mod::lemma_fundamental_div_mod(s, p);
        let q = s / p;
        assert(q >= 0) by (nonlinear_arith)
            requires
                s >= 0,
                p > 0,
                q == s / p,
        ;
        assert(q * p <= s < (q + 1) * p) by (nonlinear_arith)
            requires
                s == p * q + s % p,
                0 <= s % p < p,
        ;
        let t = x.clamped_i32();
        let size = if t < 0 {
            -t
        } else {
            t
        };
        if !x.is_nan() {
            assert(0 <= size <= q);
            assert(size * p <= q * p) by (nonlinear_arith)
                requires
                    size <= q,
                    p > 0,
            ;
        }
    }
}

} // verus!
