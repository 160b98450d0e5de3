//! Binary64 numbers held by their bit patterns.
//!
//! The library carries every coordinate, distance and colour channel as a
//! [`Scalar`]. It orders, compares, clamps and negates these values exactly as
//! the IEEE-754 standard prescribes, by integer reasoning on the bit pattern,
//! and it never rounds: sums, products, quotients and roots are computed by
//! the caller and handed in as finished values.
use vstd::prelude::*;

verus! {

/// The bit that holds the sign.
pub const SIGN_BIT: u64 = 0x8000_0000_0000_0000;

/// The bit pattern of positive infinity; every larger magnitude is a NaN.
pub const INFINITY_BITS: u64 = 0x7FF0_0000_0000_0000;

/// Two to the power 52: the weight of the hidden bit of the significand.
pub const HIDDEN_BIT: u64 = 0x0010_0000_0000_0000;

/// `m` halved `s` times, rounding down each time: the integer part of
/// `m / 2^s`.
pub open spec fn halved(m: int, s: nat) -> int
    decreases s,
{
    if s == 0 {
        m
    } else {
        halved(m, (s - 1) as nat) / 2
    }
}

/// `m` doubled `s` times: `m * 2^s`.
pub open spec fn doubled(m: int, s: nat) -> int
    decreases s,
{
    if s == 0 {
        m
    } else {
        doubled(m, (s - 1) as nat) * 2
    }
}

/// A binary64 number, by its bit pattern.
#[derive(Clone, Copy, Debug)]
pub struct Scalar {
    pub bits: u64,
}

impl Scalar {
    /// The sign bit is set (true of `-0.0` and of negative NaNs too).
    pub open spec fn sign_negative(self) -> bool {
        self.bits >= SIGN_BIT
    }

    /// The bit pattern without its sign bit.
    pub open spec fn magnitude(self) -> int {
        if self.bits >= SIGN_BIT {
            self.bits - SIGN_BIT
        } else {
            self.bits as int
        }
    }

    /// The value is not a number.
    pub open spec fn nan(self) -> bool {
        self.magnitude() > INFINITY_BITS
    }

    /// The place of a number on the number line: an integer that grows
    /// strictly with the value, with both zeros at 0. Not meaningful for NaN.
    pub open spec fn rank(self) -> int {
        if self.sign_negative() {
            -self.magnitude()
        } else {
            self.magnitude()
        }
    }

    /// The place in the total order of all bit patterns: negative NaNs first,
    /// then the numbers in ascending order with `-0.0` before `+0.0`, then the
    /// positive NaNs.
    pub open spec fn total_rank(self) -> int {
        if self.sign_negative() {
            -self.magnitude() - 1
        } else {
            self.magnitude()
        }
    }

    /// The biased exponent: the eleven bits below the sign.
    pub open spec fn exponent(self) -> int {
        self.magnitude() / (HIDDEN_BIT as int)
    }

    /// The significand of a normal number, with its hidden bit.
    pub open spec fn significand(self) -> int {
        self.magnitude() % (HIDDEN_BIT as int) + HIDDEN_BIT
    }

    /// The integer part of the absolute value, for a number of absolute
    /// value below 2^63; 0 for a number of absolute value below 1.
    pub open spec fn whole_part(self) -> int {
        if self.exponent() < 1023 {
            0
        } else if self.exponent() <= 1075 {
            halved(self.significand(), (1075 - self.exponent()) as nat)
        } else {
            doubled(self.significand(), (self.exponent() - 1075) as nat)
        }
    }

    /// The number as a 64-bit integer: rounded towards zero, the nearest
    /// bound where it lies beyond the integer's range, and 0 for NaN.
    pub open spec fn to_i64_spec(self) -> int {
        if self.nan() {
            0
        } else if self.exponent() >= 1086 {
            if self.sign_negative() {
                i64::MIN as int
            } else {
                i64::MAX as int
            }
        } else if self.sign_negative() {
            -self.whole_part()
        } else {
            self.whole_part()
        }
    }

    /// The number as a 32-bit integer: rounded towards zero, the nearest
    /// bound where it lies beyond the integer's range, and 0 for NaN.
    pub open spec fn to_i32_spec(self) -> int {
        let wide = self.to_i64_spec();
        if wide < i32::MIN {
            i32::MIN as int
        } else if wide > i32::MAX {
            i32::MAX as int
        } else {
            wide
        }
    }

    /// The number as an unsigned 32-bit integer: rounded towards zero, the
    /// nearest bound where it lies beyond the integer's range, and 0 for NaN.
    pub open spec fn to_u32_spec(self) -> int {
        let wide = self.to_i64_spec();
        if wide < 0 {
            0
        } else if wide > u32::MAX {
            u32::MAX as int
        } else {
            wide
        }
    }

    /// Numeric `<`: false whenever either side is NaN.
    pub open spec fn lt_spec(self, other: Scalar) -> bool {
        !self.nan() && !other.nan() && self.rank() < other.rank()
    }

    /// Numeric `<=`: false whenever either side is NaN.
    pub open spec fn le_spec(self, other: Scalar) -> bool {
        !self.nan() && !other.nan() && self.rank() <= other.rank()
    }

    /// Numeric `==`: false whenever either side is NaN, true of the two zeros.
    pub open spec fn eq_spec(self, other: Scalar) -> bool {
        !self.nan() && !other.nan() && self.rank() == other.rank()
    }

    /// The number 0.
    pub open spec fn zero_spec() -> Scalar {
        Scalar { bits: 0 }
    }

    /// The number 1.
    pub open spec fn one_spec() -> Scalar {
        Scalar { bits: 0x3FF0_0000_0000_0000 }
    }

    /// Positive infinity.
    pub open spec fn infinity_spec() -> Scalar {
        Scalar { bits: INFINITY_BITS }
    }

    /// Negative infinity.
    pub open spec fn neg_infinity_spec() -> Scalar {
        Scalar { bits: 0xFFF0_0000_0000_0000 }
    }

    /// The same number with the opposite sign bit.
    pub open spec fn neg_spec(self) -> Scalar {
        if self.bits >= SIGN_BIT {
            Scalar { bits: (self.bits - SIGN_BIT) as u64 }
        } else {
            Scalar { bits: (self.bits + SIGN_BIT) as u64 }
        }
    }

    /// The same number with a clear sign bit.
    pub open spec fn abs_spec(self) -> Scalar {
        if self.bits >= SIGN_BIT {
            Scalar { bits: (self.bits - SIGN_BIT) as u64 }
        } else {
            self
        }
    }

    pub fn from_bits(bits: u64) -> (s: Scalar)
        ensures
            s.bits == bits,
    {
        Scalar { bits }
    }

    pub fn to_bits(&self) -> (bits: u64)
        ensures
            bits == self.bits,
    {
        self.bits
    }

    pub fn zero() -> (s: Scalar)
        ensures
            s == Scalar::zero_spec(),
    {
        Scalar { bits: 0 }
    }

    pub fn one() -> (s: Scalar)
        ensures
            s == Scalar::one_spec(),
    {
        Scalar { bits: 0x3FF0_0000_0000_0000 }
    }

    pub fn infinity() -> (s: Scalar)
        ensures
            s == Scalar::infinity_spec(),
    {
        Scalar { bits: INFINITY_BITS }
    }

    pub fn neg_infinity() -> (s: Scalar)
        ensures
            s == Scalar::neg_infinity_spec(),
    {
        Scalar { bits: 0xFFF0_0000_0000_0000 }
    }

    pub fn is_sign_negative(&self) -> (b: bool)
        ensures
            b == self.sign_negative(),
    {
        self.bits >= SIGN_BIT
    }

    /// The bit pattern without its sign bit.
    pub fn magnitude_bits(&self) -> (m: u64)
        ensures
            m == self.magnitude(),
    {
        if self.bits >= SIGN_BIT {
            self.bits - SIGN_BIT
        } else {
            self.bits
        }
    }

    pub fn is_nan(&self) -> (b: bool)
        ensures
            b == self.nan(),
    {
        self.magnitude_bits() > INFINITY_BITS
    }

    /// The key of the total order, as a machine integer.
    pub fn total_key(&self) -> (k: i64)
        ensures
            k == self.total_rank(),
    {
        let m: u64 = self.magnitude_bits();
        if self.bits >= SIGN_BIT {
            let neg: i64 = -((m / 2) as i64) - ((m - m / 2) as i64);
            neg - 1
        } else {
            m as i64
        }
    }

    /// Numeric `<`.
    pub fn lt(&self, other: &Scalar) -> (b: bool)
        ensures
            b == self.lt_spec(*other),
    {
        if self.is_nan() || other.is_nan() {
            return false;
        }
        let a: u64 = self.magnitude_bits();
        let c: u64 = other.magnitude_bits();
        if self.is_sign_negative() {
            if other.is_sign_negative() {
                c < a
            } else {
                a > 0 || c > 0
            }
        } else {
            if other.is_sign_negative() {
                false
            } else {
                a < c
            }
        }
    }

    /// Numeric `<=`.
    pub fn le(&self, other: &Scalar) -> (b: bool)
        ensures
            b == self.le_spec(*other),
    {
        if self.is_nan() || other.is_nan() {
            return false;
        }
        let a: u64 = self.magnitude_bits();
        let c: u64 = other.magnitude_bits();
        if self.is_sign_negative() {
            if other.is_sign_negative() {
                c <= a
            } else {
                true
            }
        } else {
            if other.is_sign_negative() {
                a == 0 && c == 0
            } else {
                a <= c
            }
        }
    }

    /// Numeric `>`.
    pub fn gt(&self, other: &Scalar) -> (b: bool)
        ensures
            b == other.lt_spec(*self),
    {
        other.lt(self)
    }

    /// Numeric `>=`.
    pub fn ge(&self, other: &Scalar) -> (b: bool)
        ensures
            b == other.le_spec(*self),
    {
        other.le(self)
    }

    /// Numeric `==`.
    pub fn eq_num(&self, other: &Scalar) -> (b: bool)
        ensures
            b == self.eq_spec(*other),
    {
        self.le(other) && other.le(self)
    }

    /// Strictly earlier in the total order of bit patterns.
    pub fn total_lt(&self, other: &Scalar) -> (b: bool)
        ensures
            b == (self.total_rank() < other.total_rank()),
    {
        self.total_key() < other.total_key()
    }

    /// The integer part of the absolute value of a number below 2^63 in
    /// absolute value.
    fn whole(&self) -> (w: u64)
        requires
            self.exponent() < 1086,
        ensures
            w == self.whole_part(),
            w < 0x8000_0000_0000_0000,
    {
        let m: u64 = self.magnitude_bits();
        let e: u64 = m / HIDDEN_BIT;
        let sig: u64 = m % HIDDEN_BIT + HIDDEN_BIT;
        if e < 1023 {
            0
        } else if e <= 1075 {
            let shift: u64 = 1075 - e;
            let mut w: u64 = sig;
            let mut s: u64 = 0;
            while s < shift
                invariant
                    s <= shift,
                    w == halved(sig as int, s as nat),
                    w <= sig,
                decreases shift - s,
            {
                w = w / 2;
                s += 1;
            }
            w
        } else {
            let shift: u64 = e - 1075;
            let mut w: u64 = sig;
            let mut s: u64 = 0;
            while s < shift
                invariant
                    s <= shift,
                    shift <= 10,
                    w == doubled(sig as int, s as nat),
                    w < doubled(0x0020_0000_0000_0000, s as nat),
                decreases shift - s,
            {
                proof {
                    lemma_doubled_bound(s as nat + 1);
                }
                w = w * 2;
                s += 1;
            }
            proof {
                lemma_doubled_bound(s as nat);
            }
            w
        }
    }

    /// The number as a 64-bit integer, as a cast rounds it.
    pub fn to_i64(&self) -> (n: i64)
        ensures
            n == self.to_i64_spec(),
    {
        if self.is_nan() {
            return 0;
        }
        let e: u64 = self.magnitude_bits() / HIDDEN_BIT;
        if e >= 1086 {
            if self.is_sign_negative() {
                i64::MIN
            } else {
                i64::MAX
            }
        } else {
            let w: u64 = self.whole();
            if self.is_sign_negative() {
                -(w as i64)
            } else {
                w as i64
            }
        }
    }

    /// The number as a 32-bit integer, as a cast rounds it.
    pub fn to_i32(&self) -> (n: i32)
        ensures
            n == self.to_i32_spec(),
    {
        let wide: i64 = self.to_i64();
        if wide < -2147483648 {
            i32::MIN
        } else if wide > 2147483647 {
            i32::MAX
        } else {
            wide as i32
        }
    }

    /// The number as an unsigned 32-bit integer, as a cast rounds it.
    pub fn to_u32(&self) -> (n: u32)
        ensures
            n == self.to_u32_spec(),
    {
        let wide: i64 = self.to_i64();
        if wide < 0 {
            0
        } else if wide > 4294967295 {
            u32::MAX
        } else {
            wide as u32
        }
    }

    /// The same number with the opposite sign.
    pub fn neg(&self) -> (r: Scalar)
        ensures
            r == self.neg_spec(),
    {
        if self.bits >= SIGN_BIT {
            Scalar { bits: self.bits - SIGN_BIT }
        } else {
            Scalar { bits: self.bits + SIGN_BIT }
        }
    }

    /// The absolute value.
    pub fn abs(&self) -> (r: Scalar)
        ensures
            r == self.abs_spec(),
    {
        if self.bits >= SIGN_BIT {
            Scalar { bits: self.bits - SIGN_BIT }
        } else {
            *self
        }
    }
}

/// Doubling ten times at most keeps a significand below 2^63.
pub proof fn lemma_doubled_bound(s: nat)
    requires
        s <= 10,
    ensures
        doubled(0x0020_0000_0000_0000, s) <= doubled(0x0020_0000_0000_0000, 10),
        doubled(0x0020_0000_0000_0000, 10) == 0x8000_0000_0000_0000,
    decreases 10 - s,
{
    reveal_with_fuel(doubled, 11);
    if s < 10 {
        lemma_doubled_bound(s + 1);
    }
}

/// Numeric `<` and `<=` are transitive, `<` implies `<=`, and of two numbers
/// one is `<=` the other.
pub proof fn lemma_order(a: Scalar, b: Scalar, c: Scalar)
    ensures
        a.lt_spec(b) ==> a.le_spec(b),
        a.lt_spec(b) && b.le_spec(c) ==> a.lt_spec(c),
        a.le_spec(b) && b.lt_spec(c) ==> a.lt_spec(c),
        a.le_spec(b) && b.le_spec(c) ==> a.le_spec(c),
        !a.nan() && !b.nan() ==> a.le_spec(b) || b.lt_spec(a),
        !(a.lt_spec(b) && b.le_spec(a)),
{
}

/// The total order agrees with the numeric order wherever the latter is
/// strict: of two numbers, the numerically smaller comes first.
pub proof fn lemma_total_order_refines(a: Scalar, b: Scalar)
    ensures
        a.lt_spec(b) ==> a.total_rank() < b.total_rank(),
        a.total_rank() == b.total_rank() <==> a == b,
{
}

} // verus!
