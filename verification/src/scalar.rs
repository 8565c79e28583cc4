//! IEEE 754 binary64 values as bit patterns, with their exact order.

use vstd::prelude::*;
use vstd::arithmetic::power2::{
    lemma2_to64,
    lemma_pow2_adds,
    lemma_pow2_pos,
    lemma_pow2_strictly_increases,
    lemma_pow2_unfold,
    pow2,
};
use vstd::bits::lemma_u64_shl_is_mul;

verus! {

/// The bit that holds the sign.
pub const SIGN_BIT: u64 = 0x8000_0000_0000_0000;

/// The magnitude bits of positive infinity; every larger magnitude is a NaN.
pub const INFINITY_BITS: u64 = 0x7FF0_0000_0000_0000;

/// The bits of `1.0`: sign 0, exponent field 1023, fraction 0.
pub const ONE_BITS: u64 = 0x3FF0_0000_0000_0000;

/// Two to the power 52: the weight of the lowest exponent bit, and the bit
/// that a normal number's significand carries above its fraction.
pub const HIDDEN_BIT: u64 = 0x0010_0000_0000_0000;

/// The exponent of the smallest positive number, `2^-1074`.
pub const MIN_EXPONENT: i16 = -1074;

/// The exponent of the smallest positive number that is normal, `2^-1022`.
pub const MIN_NORMAL_EXPONENT: i16 = -1022;

/// The exponent of the largest power of two that is finite, `2^1023`.
pub const MAX_EXPONENT: i16 = 1023;

/// An IEEE 754 binary64 value, held as the 64 bits that encode it.
#[derive(Clone, Copy, Debug)]
pub struct Scalar {
    pub bits: u64,
}

impl Scalar {
    /// The 63 bits below the sign: exponent and fraction read as one number.
    pub open spec fn magnitude(self) -> int {
        if self.bits >= SIGN_BIT {
            self.bits - SIGN_BIT
        } else {
            self.bits as int
        }
    }

    /// The sign bit is set (true of `-0.0` and of negative NaNs too).
    pub open spec fn negative(self) -> bool {
        self.bits >= SIGN_BIT
    }

    /// The value is not a number.
    pub open spec fn nan(self) -> bool {
        self.magnitude() > INFINITY_BITS
    }

    /// Neither an infinity nor a NaN.
    pub open spec fn finite(self) -> bool {
        self.magnitude() < INFINITY_BITS
    }

    /// The exponent field.
    pub open spec fn exponent(self) -> int {
        self.magnitude() / (HIDDEN_BIT as int)
    }

    /// The fraction field.
    pub open spec fn fraction(self) -> int {
        self.magnitude() % (HIDDEN_BIT as int)
    }

    /// The absolute value of a finite number, counted in units of
    /// `2^-1074`, the smallest positive number.
    pub open spec fn scaled_magnitude(self) -> int {
        if self.exponent() == 0 {
            self.fraction()
        } else {
            (HIDDEN_BIT + self.fraction()) * pow2((self.exponent() - 1) as nat)
        }
    }

    /// The value of a finite number, counted in units of `2^-1074`.
    pub open spec fn scaled_value(self) -> int {
        if self.negative() {
            -self.scaled_magnitude()
        } else {
            self.scaled_magnitude()
        }
    }

    /// Position on the number line: for values that are not NaN, `a` is
    /// numerically below `b` exactly when `a.rank() < b.rank()`, and the two
    /// zeros share rank 0.
    pub open spec fn rank(self) -> int {
        if self.negative() {
            -self.magnitude()
        } else {
            self.magnitude()
        }
    }

    /// Position in the IEEE 754 total order, in which `-0.0` stands directly
    /// below `+0.0`, negative NaNs below everything and positive NaNs above.
    pub open spec fn total_rank(self) -> int {
        if self.negative() {
            -self.magnitude() - 1
        } else {
            self.magnitude()
        }
    }

    /// Two to the power `k` as the nearest number: the power itself from
    /// `2^-1074` to `2^1023`, positive infinity above, `+0.0` below.
    pub open spec fn two_to(k: int) -> Scalar {
        if k > MAX_EXPONENT {
            Scalar { bits: INFINITY_BITS }
        } else if k >= MIN_NORMAL_EXPONENT {
            Scalar { bits: ((k + 1023) * HIDDEN_BIT) as u64 }
        } else if k >= MIN_EXPONENT {
            Scalar { bits: pow2((k - MIN_EXPONENT) as nat) as u64 }
        } else {
            Scalar { bits: 0 }
        }
    }

    /// `-self`: the same magnitude under the opposite sign.
    pub open spec fn negated(self) -> Scalar {
        if self.bits >= SIGN_BIT {
            Scalar { bits: (self.bits - SIGN_BIT) as u64 }
        } else {
            Scalar { bits: (self.bits + SIGN_BIT) as u64 }
        }
    }

    /// `|self|`: the same magnitude with the sign cleared.
    pub open spec fn absolute(self) -> Scalar {
        Scalar { bits: self.magnitude() as u64 }
    }

    /// `self < other` as IEEE 754 compares: false whenever either is NaN.
    pub open spec fn less(self, other: Scalar) -> bool {
        !self.nan() && !other.nan() && self.rank() < other.rank()
    }

    /// `self <= other` as IEEE 754 compares: false whenever either is NaN.
    pub open spec fn less_eq(self, other: Scalar) -> bool {
        !self.nan() && !other.nan() && self.rank() <= other.rank()
    }

    /// `self == other` as IEEE 754 compares: the zeros are equal, a NaN
    /// equals nothing.
    pub open spec fn equal(self, other: Scalar) -> bool {
        !self.nan() && !other.nan() && self.rank() == other.rank()
    }

    pub fn from_bits(bits: u64) -> (r: Scalar)
        ensures
            r.bits == bits,
    {
        Scalar { bits }
    }

    pub fn to_bits(self) -> (bits: u64)
        ensures
            bits == self.bits,
    {
        self.bits
    }

    /// The magnitude bits.
    fn magnitude_bits(self) -> (m: u64)
        ensures
            m == self.magnitude(),
            m < SIGN_BIT,
    {
        if self.bits >= SIGN_BIT {
            self.bits - SIGN_BIT
        } else {
            self.bits
        }
    }

    pub fn is_sign_negative(self) -> (r: bool)
        ensures
            r == self.negative(),
    {
        self.bits >= SIGN_BIT
    }

    pub fn is_nan(self) -> (r: bool)
        ensures
            r == self.nan(),
    {
        self.magnitude_bits() > INFINITY_BITS
    }

    /// The key by which the IEEE 754 total order sorts this value.
    pub fn total_order_key(self) -> (key: i64)
        ensures
            key == self.total_rank(),
    {
        let m: u64 = self.magnitude_bits();
        if self.bits >= SIGN_BIT {
            -1 - (m as i64)
        } else {
            m as i64
        }
    }

    /// The key by which numeric comparison sorts this value; meaningful for
    /// values that are not NaN.
    fn rank_key(self) -> (key: i64)
        ensures
            key == self.rank(),
    {
        let m: u64 = self.magnitude_bits();
        if self.bits >= SIGN_BIT {
            -(m as i64)
        } else {
            m as i64
        }
    }

    /// `self < other`.
    pub fn lt(self, other: Scalar) -> (r: bool)
        ensures
            r == self.less(other),
    {
        !self.is_nan() && !other.is_nan() && self.rank_key() < other.rank_key()
    }

    /// `self <= other`.
    pub fn le(self, other: Scalar) -> (r: bool)
        ensures
            r == self.less_eq(other),
    {
        !self.is_nan() && !other.is_nan() && self.rank_key() <= other.rank_key()
    }

    /// `self > other`.
    pub fn gt(self, other: Scalar) -> (r: bool)
        ensures
            r == other.less(self),
    {
        other.lt(self)
    }

    /// `self >= other`.
    pub fn ge(self, other: Scalar) -> (r: bool)
        ensures
            r == other.less_eq(self),
    {
        other.le(self)
    }

    /// `-self`: the same magnitude under the opposite sign, for every value.
    pub fn neg(self) -> (r: Scalar)
        ensures
            r == self.negated(),
            r.magnitude() == self.magnitude(),
            r.negative() == !self.negative(),
    {
        if self.bits >= SIGN_BIT {
            Scalar { bits: self.bits - SIGN_BIT }
        } else {
            Scalar { bits: self.bits + SIGN_BIT }
        }
    }

    /// `+0.0`.
    pub fn zero() -> (r: Scalar)
        ensures
            r.bits == 0,
    {
        Scalar { bits: 0 }
    }

    /// `1.0`.
    pub fn one() -> (r: Scalar)
        ensures
            r.bits == ONE_BITS,
    {
        Scalar { bits: ONE_BITS }
    }

    /// Two to the power `k`, rounded as multiplying and dividing by two
    /// round: exact from `2^-1074` to `2^1023`, positive infinity above,
    /// `+0.0` below.
    pub fn power_of_two(k: i16) -> (r: Scalar)
        ensures
            r == Scalar::two_to(k as int),
    {
        if k > MAX_EXPONENT {
            Scalar { bits: INFINITY_BITS }
        } else if k >= MIN_NORMAL_EXPONENT {
            let e: u64 = (k + 1023) as u64;
            Scalar { bits: e * HIDDEN_BIT }
        } else if k >= MIN_EXPONENT {
            let n: u64 = (k - MIN_EXPONENT) as u64;
            proof {
                lemma_small_powers(n as nat);
                lemma_u64_shl_is_mul(1, n);
            }
            Scalar { bits: 1u64 << n }
        } else {
            Scalar { bits: 0 }
        }
    }

    /// `|self|`: the same magnitude with the sign cleared.
    pub fn abs(self) -> (r: Scalar)
        ensures
            r == self.absolute(),
            r.magnitude() == self.magnitude(),
            !r.negative(),
    {
        Scalar { bits: self.magnitude_bits() }
    }
}

impl PartialEq for Scalar {
    /// `==` as IEEE 754 compares.
    fn eq(&self, other: &Scalar) -> (r: bool) {
        !self.is_nan() && !other.is_nan() && self.rank_key() == other.rank_key()
    }
}

impl vstd::std_specs::cmp::PartialEqSpecImpl for Scalar {
    open spec fn obeys_eq_spec() -> bool {
        true
    }

    open spec fn eq_spec(&self, other: &Scalar) -> bool {
        self.equal(*other)
    }
}

/// Of two finite numbers, the one with the smaller magnitude bits has the
/// smaller absolute value.
proof fn lemma_magnitude_orders_values(a: Scalar, b: Scalar)
    requires
        b.finite(),
        a.magnitude() < b.magnitude(),
    ensures
        a.scaled_magnitude() < b.scaled_magnitude(),
{
    let p = HIDDEN_BIT as int;
    let (ea, fa) = (a.exponent(), a.fraction());
    let (eb, fb) = (b.exponent(), b.fraction());
    assert(a.magnitude() == ea * p + fa && 0 <= fa < p) by (nonlinear_arith)
        requires
            ea == a.magnitude() / p,
            fa == a.magnitude() % p,
            p > 0,
    ;
    assert(b.magnitude() == eb * p + fb && 0 <= fb < p) by (nonlinear_arith)
        requires
            eb == b.magnitude() / p,
            fb == b.magnitude() % p,
            p > 0,
    ;
    assert(0 <= ea <= eb) by (nonlinear_arith)
        requires
            a.magnitude() == ea * p + fa,
            b.magnitude() == eb * p + fb,
            0 <= fa < p,
            0 <= fb < p,
            0 <= a.magnitude() < b.magnitude(),
    ;
    if ea == eb {
        if ea > 0 {
            let w = pow2((ea - 1) as nat) as int;
            lemma_pow2_pos((ea - 1) as nat);
            assert((p + fa) * w < (p + fb) * w) by (nonlinear_arith)
                requires
                    fa < fb,
                    w > 0,
            ;
        }
    } else {
        let wb = pow2((eb - 1) as nat) as int;
        lemma_pow2_pos((eb - 1) as nat);
        assert(p <= (p + fb) * wb) by (nonlinear_arith)
            requires
                wb >= 1,
                fb >= 0,
                p > 0,
        ;
        if ea > 0 {
            let wa = pow2((ea - 1) as nat) as int;
            lemma_pow2_pos((ea - 1) as nat);
            lemma_pow2_unfold(ea as nat);
            if ea < eb - 1 {
                lemma_pow2_strictly_increases(ea as nat, (eb - 1) as nat);
            }
            assert(2 * wa <= wb);
            assert((p + fa) * wa < (p + fb) * wb) by (nonlinear_arith)
                requires
                    0 <= fa < p,
                    0 <= fb,
                    wa > 0,
                    2 * wa <= wb,
            ;
        }
    }
}

/// The order of ranks is the order of values: of two finite numbers, one is
/// below the other in rank exactly when it is the smaller number, and the
/// two have one rank exactly when they are the same number. So [`Scalar::less`],
/// [`Scalar::less_eq`] and [`Scalar::equal`] compare finite numbers by value.
pub proof fn lemma_rank_orders_values(a: Scalar, b: Scalar)
    requires
        a.finite(),
        b.finite(),
    ensures
        a.rank() < b.rank() <==> a.scaled_value() < b.scaled_value(),
        a.rank() == b.rank() <==> a.scaled_value() == b.scaled_value(),
{
    let zero = Scalar { bits: 0 };
    assert(zero.scaled_magnitude() == 0) by {
        assert(zero.exponent() == 0);
    }
    if a.magnitude() > 0 {
        lemma_magnitude_orders_values(zero, a);
    } else {
        assert(a.exponent() == 0);
    }
    if b.magnitude() > 0 {
        lemma_magnitude_orders_values(zero, b);
    } else {
        assert(b.exponent() == 0);
    }
    if a.magnitude() < b.magnitude() {
        lemma_magnitude_orders_values(a, b);
    } else if b.magnitude() < a.magnitude() {
        lemma_magnitude_orders_values(b, a);
    }
}

/// The total order agrees with the order of values wherever the latter
/// tells two numbers apart: a number that is less than another comes before
/// it in the total order.
pub proof fn lemma_total_order_extends_less(a: Scalar, b: Scalar)
    requires
        a.less(b),
    ensures
        a.total_rank() < b.total_rank(),
{
}

/// Two to the power 52 is the hidden bit, and every smaller power of two
/// lies below it.
proof fn lemma_small_powers(n: nat)
    ensures
        pow2(52) == HIDDEN_BIT,
        n < 52 ==> 0 < pow2(n) < HIDDEN_BIT,
{
    lemma2_to64();
    lemma_pow2_adds(32, 20);
    lemma_pow2_pos(n);
    if n < 52 {
        lemma_pow2_strictly_increases(n, 52);
    }
}

/// [`Scalar::two_to`] is the power of two that it names: from `2^-1074` to
/// `2^1023` it is the finite positive number whose value, counted in units
/// of `2^-1074`, is two to the power `k + 1074`.
pub proof fn lemma_two_to_value(k: int)
    requires
        MIN_EXPONENT <= k <= MAX_EXPONENT,
    ensures
        Scalar::two_to(k).finite(),
        !Scalar::two_to(k).negative(),
        Scalar::two_to(k).scaled_value() == pow2((k - MIN_EXPONENT) as nat),
{
    let p = HIDDEN_BIT as int;
    let t = Scalar::two_to(k);
    lemma_small_powers((k - MIN_EXPONENT) as nat);
    if k >= MIN_NORMAL_EXPONENT {
        let e = k + 1023;
        assert(t.bits == e * p);
        assert(t.exponent() == e && t.fraction() == 0) by (nonlinear_arith)
            requires
                t.exponent() == (e * p) / p,
                t.fraction() == (e * p) % p,
                p > 0,
        ;
        lemma_pow2_adds(52, (e - 1) as nat);
    } else {
        assert(t.bits == pow2((k - MIN_EXPONENT) as nat));
        assert(t.exponent() == 0 && t.fraction() == t.bits) by (nonlinear_arith)
            requires
                t.exponent() == (t.bits as int) / p,
                t.fraction() == (t.bits as int) % p,
                0 <= t.bits < p,
        ;
    }
}

} // verus!
