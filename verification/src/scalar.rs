//! Double-precision numbers carried by their binary64 encoding.
//!
//! The library decides, orders and stores; it never rounds. Every number
//! that passes through it is therefore held as the 64 bits that encode it,
//! and the few operations that the encoding alone determines (sign change,
//! magnitude, comparison) are carried out on those bits.
use vstd::prelude::*;
use vstd::arithmetic::power2::{lemma_pow2_pos, lemma_pow2_strictly_increases, lemma_pow2_unfold, pow2};

verus! {

/// The sign bit of a binary64 encoding.
pub const SIGN_BIT: u64 = 0x8000_0000_0000_0000;

/// The encoding of positive infinity: every larger magnitude is not a number.
pub const INFINITY_BITS: u64 = 0x7FF0_0000_0000_0000;

/// Two to the power of 52: the weight of the bit that the encoding of a
/// normal number leaves out, and the number of encodings that share one
/// exponent.
pub const HIDDEN_BIT: u64 = 0x10_0000_0000_0000;

/// A binary64 number, held as its encoding.
#[derive(Clone, Copy, Debug)]
pub struct Scalar {
    pub bits: u64,
}

impl Scalar {
    /// The encoding with the sign bit cleared: the rank of the number
    /// without its sign.
    pub open spec fn magnitude(self) -> int {
        if self.bits >= SIGN_BIT {
            self.bits - SIGN_BIT
        } else {
            self.bits as int
        }
    }

    /// Whether the sign bit is set.
    pub open spec fn sign(self) -> bool {
        self.bits >= SIGN_BIT
    }

    /// Whether the encoding stands for no number.
    pub open spec fn spec_is_nan(self) -> bool {
        self.magnitude() > INFINITY_BITS
    }

    /// The place of the number among all binary64 numbers, counted from
    /// zero: both zeros have rank 0, the smallest positive number rank 1,
    /// its negation rank -1, the infinities the ranks of largest size.
    /// Numbers compare as their ranks do.
    pub open spec fn rank(self) -> int {
        if self.sign() {
            -self.magnitude()
        } else {
            self.magnitude()
        }
    }

    /// The number without its sign.
    pub open spec fn spec_abs(self) -> Scalar {
        Scalar { bits: self.magnitude() as u64 }
    }

    /// The exponent field of the encoding.
    pub open spec fn exponent(self) -> int {
        self.magnitude() / (HIDDEN_BIT as int)
    }

    /// The fraction field of the encoding.
    pub open spec fn fraction(self) -> int {
        self.magnitude() % (HIDDEN_BIT as int)
    }

    /// Whether the encoding stands for a number that is not infinite.
    pub open spec fn is_finite(self) -> bool {
        self.magnitude() < INFINITY_BITS
    }

    /// The size of a finite number, counted in units of the smallest
    /// positive number, two to the power of -1074: the fraction itself
    /// where the exponent field is zero, and else the fraction with the
    /// hidden bit in front, doubled once for each step of the exponent
    /// above one.
    pub open spec fn size(self) -> int {
        if self.exponent() == 0 {
            self.fraction()
        } else {
            (HIDDEN_BIT + self.fraction()) * pow2((self.exponent() - 1) as nat)
        }
    }

    /// The finite number that the encoding stands for, counted in units of
    /// two to the power of -1074.
    pub open spec fn scaled_value(self) -> int {
        if self.sign() {
            -self.size()
        } else {
            self.size()
        }
    }

    /// Whether the encoding stands for a number, infinite ones included.
    pub open spec fn is_number(self) -> bool {
        !self.spec_is_nan()
    }

    /// `self < other` as binary64 numbers.
    pub open spec fn spec_lt(self, other: Scalar) -> bool {
        self.is_number() && other.is_number() && self.rank() < other.rank()
    }

    /// `self <= other` as binary64 numbers.
    pub open spec fn spec_le(self, other: Scalar) -> bool {
        self.is_number() && other.is_number() && self.rank() <= other.rank()
    }

    /// `self == other` as binary64 numbers: the two zeros are equal, and
    /// what is not a number equals nothing.
    pub open spec fn same_number(self, other: Scalar) -> bool {
        self.is_number() && other.is_number() && self.rank() == other.rank()
    }

    /// The scalar with the given encoding.
    pub fn from_bits(bits: u64) -> (r: Scalar)
        ensures
            r.bits == bits,
    {
        Scalar { bits }
    }

    /// The encoding of the scalar.
    pub fn to_bits(self) -> (r: u64)
        ensures
            r == self.bits,
    {
        self.bits
    }

    /// Positive zero.
    pub fn zero() -> (r: Scalar)
        ensures
            r.bits == 0,
            r.rank() == 0,
            r.is_number(),
    {
        Scalar { bits: 0 }
    }

    /// The number one.
    pub fn one() -> (r: Scalar)
        ensures
            r.bits == 0x3FF0_0000_0000_0000,
            r.rank() == 0x3FF0_0000_0000_0000,
            r.is_number(),
    {
        Scalar { bits: 0x3FF0_0000_0000_0000 }
    }

    /// Whether the encoding stands for no number.
    #[verifier::when_used_as_spec(spec_is_nan)]
    pub fn is_nan(self) -> (r: bool)
        ensures
            r == self.spec_is_nan(),
    {
        if self.bits >= SIGN_BIT {
            self.bits - SIGN_BIT > INFINITY_BITS
        } else {
            self.bits > INFINITY_BITS
        }
    }

    /// The number with the opposite sign: only the sign bit changes.
    pub fn neg(self) -> (r: Scalar)
        ensures
            r.magnitude() == self.magnitude(),
            r.sign() == !self.sign(),
            r.rank() == -self.rank(),
            r.spec_is_nan() == self.spec_is_nan(),
    {
        if self.bits >= SIGN_BIT {
            Scalar { bits: self.bits - SIGN_BIT }
        } else {
            Scalar { bits: self.bits + SIGN_BIT }
        }
    }

    /// The number without its sign: the sign bit is cleared.
    #[verifier::when_used_as_spec(spec_abs)]
    pub fn abs(self) -> (r: Scalar)
        ensures
            r == self.spec_abs(),
            r.bits == self.magnitude(),
            !r.sign(),
            r.rank() == (if self.rank() < 0 { -self.rank() } else { self.rank() }),
            r.spec_is_nan() == self.spec_is_nan(),
    {
        if self.bits >= SIGN_BIT {
            Scalar { bits: self.bits - SIGN_BIT }
        } else {
            self
        }
    }

    /// `self < other`; false when either is not a number.
    #[verifier::when_used_as_spec(spec_lt)]
    pub fn lt(self, other: Scalar) -> (r: bool)
        ensures
            r == self.spec_lt(other),
    {
        if self.is_nan() || other.is_nan() {
            return false;
        }
        let a: u64 = self.abs().bits;
        let b: u64 = other.abs().bits;
        if self.bits >= SIGN_BIT {
            if other.bits >= SIGN_BIT {
                b < a
            } else {
                a != 0 || b != 0
            }
        } else {
            if other.bits >= SIGN_BIT {
                false
            } else {
                a < b
            }
        }
    }

    /// `self <= other`; false when either is not a number.
    #[verifier::when_used_as_spec(spec_le)]
    pub fn le(self, other: Scalar) -> (r: bool)
        ensures
            r == self.spec_le(other),
    {
        if self.is_nan() || other.is_nan() {
            return false;
        }
        !other.lt(self)
    }

    /// The larger of two numbers. Where one of the two is not a number the
    /// other is returned; of two equal numbers, `other`.
    pub open spec fn spec_max(self, other: Scalar) -> Scalar {
        if other.spec_is_nan() {
            self
        } else if self.spec_is_nan() {
            other
        } else if other.rank() < self.rank() {
            self
        } else {
            other
        }
    }

    /// The smaller of two numbers. Where one of the two is not a number the
    /// other is returned; of two equal numbers, `other`.
    pub open spec fn spec_min(self, other: Scalar) -> Scalar {
        if other.spec_is_nan() {
            self
        } else if self.spec_is_nan() {
            other
        } else if self.rank() < other.rank() {
            self
        } else {
            other
        }
    }

    /// The larger of two numbers, passing over what is not a number.
    #[verifier::when_used_as_spec(spec_max)]
    pub fn max(self, other: Scalar) -> (r: Scalar)
        ensures
            r == self.spec_max(other),
    {
        if other.is_nan() {
            self
        } else if self.is_nan() {
            other
        } else if other.lt(self) {
            self
        } else {
            other
        }
    }

    /// The smaller of two numbers, passing over what is not a number.
    #[verifier::when_used_as_spec(spec_min)]
    pub fn min(self, other: Scalar) -> (r: Scalar)
        ensures
            r == self.spec_min(other),
    {
        if other.is_nan() {
            self
        } else if self.is_nan() {
            other
        } else if self.lt(other) {
            self
        } else {
            other
        }
    }

    /// `self > other`; false when either is not a number.
    pub fn gt(self, other: Scalar) -> (r: bool)
        ensures
            r == other.spec_lt(self),
    {
        other.lt(self)
    }

    /// `self >= other`; false when either is not a number.
    pub fn ge(self, other: Scalar) -> (r: bool)
        ensures
            r == other.spec_le(self),
    {
        other.le(self)
    }
}

impl PartialEq for Scalar {
    /// Equality of the numbers, not of the encodings.
    fn eq(&self, other: &Scalar) -> (r: bool) {
        if self.is_nan() || other.is_nan() {
            return false;
        }
        let a: u64 = self.abs().bits;
        let b: u64 = other.abs().bits;
        if a == 0 && b == 0 {
            true
        } else {
            self.bits == other.bits
        }
    }
}

impl vstd::std_specs::cmp::PartialEqSpecImpl for Scalar {
    open spec fn obeys_eq_spec() -> bool {
        true
    }

    open spec fn eq_spec(&self, other: &Scalar) -> bool {
        self.same_number(*other)
    }
}

/// Of two finite numbers, the one with the larger encoding, signs aside,
/// is the larger in size; only the zeros have size zero.
pub proof fn lemma_size_increases(a: Scalar, b: Scalar)
    requires
        a.magnitude() < b.magnitude(),
        b.is_finite(),
    ensures
        0 <= a.size() < b.size(),
{
    let h = HIDDEN_BIT as int;
    let (e1, f1) = (a.exponent(), a.fraction());
    let (e2, f2) = (b.exponent(), b.fraction());
    assert(0 <= e1 <= e2);
    if e1 == e2 {
        if e1 > 0 {
            let p = pow2((e1 - 1) as nat) as int;
            lemma_pow2_pos((e1 - 1) as nat);
            assert(0 <= (h + f1) * p < (h + f2) * p) by (nonlinear_arith)
                requires
                    0 <= f1 < f2,
                    0 < p,
                    0 < h,
            ;
        }
    } else {
        let q = pow2((e2 - 1) as nat) as int;
        lemma_pow2_pos((e2 - 1) as nat);
        assert(h * q <= (h + f2) * q) by (nonlinear_arith)
            requires
                0 <= f2,
                0 < q,
                0 < h,
        ;
        if e1 == 0 {
            assert(h * 1 <= h * q) by (nonlinear_arith)
                requires
                    1 <= q,
                    0 < h,
            ;
        } else {
            let p = pow2((e1 - 1) as nat) as int;
            lemma_pow2_pos((e1 - 1) as nat);
            lemma_pow2_unfold(e1 as nat);
            if e1 < e2 - 1 {
                lemma_pow2_strictly_increases(e1 as nat, (e2 - 1) as nat);
            }
            assert(0 <= (h + f1) * p < h * (2 * p)) by (nonlinear_arith)
                requires
                    0 <= f1 < h,
                    0 < p,
            ;
            assert(h * (2 * p) <= h * q) by (nonlinear_arith)
                requires
                    2 * p <= q,
                    0 < h,
            ;
        }
    }
}

/// Finite numbers compare as their ranks do: a rank is smaller exactly
/// where the number is, and two ranks are equal exactly where the numbers
/// are.
pub proof fn lemma_rank_orders_values(a: Scalar, b: Scalar)
    requires
        a.is_finite(),
        b.is_finite(),
    ensures
        a.rank() < b.rank() <==> a.scaled_value() < b.scaled_value(),
        a.rank() == b.rank() <==> a.scaled_value() == b.scaled_value(),
{
    if a.magnitude() < b.magnitude() {
        lemma_size_increases(a, b);
    } else if b.magnitude() < a.magnitude() {
        lemma_size_increases(b, a);
    }
    let zero = Scalar { bits: 0 };
    if 0 < a.magnitude() {
        lemma_size_increases(zero, a);
    }
    if 0 < b.magnitude() {
        lemma_size_increases(zero, b);
    }
    assert(zero.size() == 0);
}

/// One is one: the number that the library holds as its unit stands for
/// two to the power of 1074 units of two to the power of -1074.
pub proof fn lemma_one_is_one()
    ensures
        (Scalar { bits: 0x3FF0_0000_0000_0000 }).scaled_value() == pow2(1074),
{
    let one = Scalar { bits: 0x3FF0_0000_0000_0000 };
    assert(one.exponent() == 1023);
    assert(one.fraction() == 0);
    vstd::arithmetic::power2::lemma_pow2_adds(52, 1022);
    vstd::arithmetic::power2::lemma2_to64_rest();
}

} // verus!
