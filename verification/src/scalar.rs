//! Binary32 numbers held by their bit pattern.

use vstd::prelude::*;

verus! {

/// The bit that holds the sign of a binary32 number.
pub const SIGN_BIT: u32 = 0x8000_0000;

/// The magnitude bits of positive infinity: every larger magnitude is a NaN.
pub const INFINITY_BITS: u32 = 0x7f80_0000;

/// The number of fraction bits of a binary32 number, as a power of two.
pub const FRACTION_RANGE: u32 = 0x80_0000;

/// `2^n`.
pub open spec fn two_to(n: nat) -> nat
    decreases n,
{
    if n == 0 {
        1
    } else {
        2 * two_to((n - 1) as nat)
    }
}

/// An IEEE 754 binary32 number, held by its 32 bits.
///
/// The library never computes with these numbers; it orders them and flips
/// their sign, both of which are exact on the bit pattern.
///
/// `==` on two scalars compares the bit patterns: `0.0` and `-0.0` are
/// different scalars, and a NaN equals itself. The numeric order is
/// [`Scalar::lt`].
#[derive(Clone, Copy, Debug, PartialEq, Eq, Structural)]
pub struct Scalar {
    pub bits: u32,
}

impl Scalar {
    /// True where the sign bit is set.
    pub open spec fn negative(self) -> bool {
        self.bits >= SIGN_BIT
    }

    /// The bits without the sign bit, as a number: exponent and fraction.
    /// Among numbers of one sign, a larger magnitude is a number further
    /// from zero.
    pub open spec fn magnitude(self) -> int {
        if self.bits >= SIGN_BIT {
            self.bits - SIGN_BIT
        } else {
            self.bits as int
        }
    }

    /// The exponent field: the eight bits below the sign bit.
    pub open spec fn exponent(self) -> int {
        self.magnitude() / (FRACTION_RANGE as int)
    }

    /// The fraction field: the lowest 23 bits.
    pub open spec fn fraction(self) -> int {
        self.magnitude() % (FRACTION_RANGE as int)
    }

    /// True where the bits encode a number other than an infinity.
    pub open spec fn finite(self) -> bool {
        self.magnitude() < INFINITY_BITS
    }

    /// How far a finite number is from zero, counted in steps of `2^-149`,
    /// the smallest distance between two binary32 numbers: the fraction
    /// alone where the exponent field is zero, and otherwise the fraction
    /// with its leading one, doubled once for each step of the exponent
    /// above one.
    pub open spec fn size(self) -> nat {
        if self.exponent() == 0 {
            self.fraction() as nat
        } else {
            ((FRACTION_RANGE + self.fraction()) * two_to((self.exponent() - 1) as nat)) as nat
        }
    }

    /// The value of a finite number, counted in steps of `2^-149`.
    pub open spec fn value(self) -> int {
        if self.negative() {
            -(self.size() as int)
        } else {
            self.size() as int
        }
    }

    /// True where the bits encode no number.
    pub open spec fn nan(self) -> bool {
        self.magnitude() > INFINITY_BITS
    }

    /// An integer that orders the numbers as their values do: the magnitude,
    /// counted below zero for negative numbers. Both zeros have key 0.
    pub open spec fn key(self) -> int {
        if self.negative() {
            -self.magnitude()
        } else {
            self.magnitude()
        }
    }

    /// The order `<` of IEEE 754: false when either side is a NaN, and
    /// otherwise the order of the values, in which `-0.0` and `0.0` are equal.
    pub open spec fn spec_lt(self, other: Scalar) -> bool {
        !self.nan() && !other.nan() && self.key() < other.key()
    }

    /// The same number with the opposite sign.
    pub open spec fn spec_neg(self) -> Scalar {
        if self.bits >= SIGN_BIT {
            Scalar { bits: (self.bits - SIGN_BIT) as u32 }
        } else {
            Scalar { bits: (self.bits + SIGN_BIT) as u32 }
        }
    }

    /// The scalar with the given bits.
    pub fn from_bits(bits: u32) -> (s: Scalar)
        ensures
            s.bits == bits,
    {
        Scalar { bits }
    }

    /// The bits of the scalar.
    pub fn to_bits(self) -> (bits: u32)
        ensures
            bits == self.bits,
    {
        self.bits
    }

    /// Positive zero.
    pub fn zero() -> (s: Scalar)
        ensures
            s.bits == 0,
    {
        Scalar { bits: 0 }
    }

    /// Whether the bits encode no number.
    pub fn is_nan(self) -> (r: bool)
        ensures
            r == self.nan(),
    {
        if self.bits >= SIGN_BIT {
            self.bits - SIGN_BIT > INFINITY_BITS
        } else {
            self.bits > INFINITY_BITS
        }
    }

    fn order_key(self) -> (k: i64)
        ensures
            k == self.key(),
    {
        if self.bits >= SIGN_BIT {
            let m: u32 = self.bits - SIGN_BIT;
            -(m as i64)
        } else {
            self.bits as i64
        }
    }

    /// Whether `self < other` as binary32 numbers.
    pub fn lt(self, other: Scalar) -> (r: bool)
        ensures
            r == self.spec_lt(other),
    {
        !self.is_nan() && !other.is_nan() && self.order_key() < other.order_key()
    }

    /// The number with the opposite sign: the sign bit flipped, every other
    /// bit kept.
    pub fn neg(self) -> (r: Scalar)
        ensures
            r == self.spec_neg(),
    {
        if self.bits >= SIGN_BIT {
            Scalar { bits: self.bits - SIGN_BIT }
        } else {
            Scalar { bits: self.bits + SIGN_BIT }
        }
    }
}

proof fn lemma_two_to_grows(m: nat, n: nat)
    requires
        m <= n,
    ensures
        0 < two_to(m) <= two_to(n),
    decreases n,
{
    if n == 0 {
    } else if m == n {
        lemma_two_to_grows((m - 1) as nat, (n - 1) as nat);
    } else {
        lemma_two_to_grows(m, (n - 1) as nat);
    }
}

/// Among finite numbers, a larger magnitude is a number further from zero.
proof fn lemma_size_grows_with_magnitude(a: Scalar, b: Scalar)
    requires
        a.finite(),
        b.finite(),
        a.magnitude() < b.magnitude(),
    ensures
        a.size() < b.size(),
{
    let (ea, fa) = (a.exponent(), a.fraction());
    let (eb, fb) = (b.exponent(), b.fraction());
    let range = FRACTION_RANGE as int;
    assert(a.magnitude() == ea * range + fa && 0 <= fa < range && 0 <= ea);
    assert(b.magnitude() == eb * range + fb && 0 <= fb < range && 0 <= eb);
    assert(ea <= eb) by (nonlinear_arith)
        requires
            ea * range + fa < eb * range + fb,
            0 <= fa < range,
            0 <= fb < range,
    ;
    if ea == eb {
        if ea > 0 {
            let step = two_to((ea - 1) as nat);
            lemma_two_to_grows(0, (ea - 1) as nat);
            assert((range + fa) * step < (range + fb) * step) by (nonlinear_arith)
                requires
                    fa < fb,
                    0 < step,
            ;
        }
    } else {
        let step = two_to((eb - 1) as nat);
        lemma_two_to_grows(0, (eb - 1) as nat);
        assert(range * 1 <= range * step <= (range + fb) * step) by (nonlinear_arith)
            requires
                1 <= step,
                0 <= fb,
                0 < range,
        ;
        if ea > 0 {
            let below = two_to((ea - 1) as nat);
            lemma_two_to_grows(ea as nat, (eb - 1) as nat);
            assert(two_to(ea as nat) == 2 * below);
            assert((range + fa) * below < range * (2 * below)) by (nonlinear_arith)
                requires
                    0 <= fa < range,
                    0 < below,
            ;
            assert(range * (2 * below) <= range * step) by (nonlinear_arith)
                requires
                    2 * below <= step,
                    0 < range,
            ;
        }
    }
}

/// The key orders the finite numbers as their values do, and two finite
/// numbers have one key exactly where they have one value. The two
/// infinities have the keys beyond those of all finite numbers, one on each
/// side.
pub proof fn lemma_key_orders_values(a: Scalar, b: Scalar)
    requires
        a.finite(),
        b.finite(),
    ensures
        a.key() < b.key() <==> a.value() < b.value(),
        a.key() == b.key() <==> a.value() == b.value(),
        a.spec_lt(b) <==> a.value() < b.value(),
        -(INFINITY_BITS as int) < a.key() < INFINITY_BITS,
{
    if a.magnitude() < b.magnitude() {
        lemma_size_grows_with_magnitude(a, b);
    }
    if b.magnitude() < a.magnitude() {
        lemma_size_grows_with_magnitude(b, a);
    }
    let zero = Scalar { bits: 0 };
    assert(zero.size() == 0);
    if 0 < a.magnitude() {
        lemma_size_grows_with_magnitude(zero, a);
    } else {
        assert(a.exponent() == 0 && a.fraction() == 0);
    }
    if 0 < b.magnitude() {
        lemma_size_grows_with_magnitude(zero, b);
    } else {
        assert(b.exponent() == 0 && b.fraction() == 0);
    }
}

} // verus!
