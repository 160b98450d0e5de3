//! Colours, and how they are written out: the tone curve, the eight-bit
//! channels, and the lines of the pixel stream.
use vstd::prelude::*;
use crate::interval::Interval;
use crate::scalar::{doubled, halved, Scalar, HIDDEN_BIT};
use crate::vec::Vec3;

verus! {

/// A colour: red, green and blue as the three components.
pub type Color = Vec3;

/// The bit pattern of 0.999, the greatest intensity that is written.
pub const INTENSITY_MAX_BITS: u64 = 0x3FEF_F7CE_D916_872B;

/// The range of intensities that are written: `[0, 0.999]`.
pub open spec fn intensity_spec() -> Interval {
    Interval { min: Scalar::zero_spec(), max: Scalar { bits: INTENSITY_MAX_BITS } }
}

/// The tone curve: the square root for a positive component, and 0 for any
/// other. `root` is the component's square root.
pub open spec fn linear_to_gamma_spec(linear: Scalar, root: Scalar) -> Scalar {
    if Scalar::zero_spec().lt_spec(linear) {
        root
    } else {
        Scalar::zero_spec()
    }
}

/// The eight-bit channel of a tone-mapped component: the integer part of 256
/// times the component, the component first brought into `[0, 0.999]`. What
/// is not a number gives 0.
pub open spec fn quantize_spec(gamma: Scalar) -> int {
    let c = intensity_spec().clamp_spec(gamma);
    if c.nan() || c.exponent() < 1015 {
        0
    } else {
        halved(c.significand(), (1067 - c.exponent()) as nat)
    }
}

/// The decimal digits of a number, as characters.
pub open spec fn decimal(n: nat) -> Seq<u8>
    decreases n,
{
    if n < 10 {
        seq![(48 + n) as u8]
    } else {
        decimal(n / 10).push((48 + n % 10) as u8)
    }
}

/// A whole number in decimal, with a minus sign if it is negative.
pub open spec fn signed_decimal(n: int) -> Seq<u8> {
    if n < 0 {
        seq![45u8] + decimal((-n) as nat)
    } else {
        decimal(n as nat)
    }
}

/// The line of one pixel: its three channels in decimal, separated by
/// blanks and ended by a line feed.
pub open spec fn pixel_line(gamma: Color) -> Seq<u8> {
    decimal(quantize_spec(gamma.0) as nat) + seq![32u8] + decimal(quantize_spec(gamma.1) as nat)
        + seq![32u8] + decimal(quantize_spec(gamma.2) as nat) + seq![10u8]
}

/// The range of intensities that are written.
pub fn intensity() -> (iv: Interval)
    ensures
        iv == intensity_spec(),
{
    Interval::new(Scalar::zero(), Scalar::from_bits(INTENSITY_MAX_BITS))
}

/// Applies the tone curve to a component, given its square root.
pub fn linear_to_gamma(linear: Scalar, root: Scalar) -> (gamma: Scalar)
    ensures
        gamma == linear_to_gamma_spec(linear, root),
{
    if linear.gt(&Scalar::zero()) {
        root
    } else {
        Scalar::zero()
    }
}

/// Halving `s` times what is below `k` doubled `s` times gives less than
/// `k`.
pub proof fn lemma_halved_bound(m: int, s: nat, k: int)
    requires
        0 <= m < doubled(k, s),
    ensures
        0 <= halved(m, s) < k,
    decreases s,
{
    if s > 0 {
        lemma_doubled_twice(k, (s - 1) as nat);
        lemma_halved_bound(m, (s - 1) as nat, 2 * k);
    }
}

/// Doubling commutes with doubling once more.
pub proof fn lemma_doubled_twice(k: int, s: nat)
    ensures
        doubled(2 * k, s) == 2 * doubled(k, s),
    decreases s,
{
    if s > 0 {
        lemma_doubled_twice(k, (s - 1) as nat);
    }
}

/// Halving more often gives no more.
pub proof fn lemma_halved_falls(m: int, s: nat, t: nat)
    requires
        0 <= m,
        s <= t,
    ensures
        0 <= halved(m, t) <= halved(m, s),
    decreases t,
{
    if s < t {
        lemma_halved_falls(m, s, (t - 1) as nat);
    } else if t > 0 {
        lemma_halved_falls(m, (t - 1) as nat, (t - 1) as nat);
    }
}

/// The eight-bit channel of a tone-mapped component.
pub fn quantize(gamma: Scalar) -> (byte: u8)
    ensures
        byte == quantize_spec(gamma),
{
    let c = intensity().clamp(gamma);
    if c.is_nan() {
        return 0;
    }
    let m: u64 = c.magnitude_bits();
    let e: u64 = m / HIDDEN_BIT;
    if e < 1015 {
        return 0;
    }
    assert(e <= 1022);
    let sig: u64 = m % HIDDEN_BIT + HIDDEN_BIT;
    let shift: u64 = 1067 - e;
    let mut w: u64 = sig;
    let mut s: u64 = 0;
    while s < shift
        invariant
            s <= shift,
            w == halved(sig as int, s as nat),
        decreases shift - s,
    {
        w = w / 2;
        s += 1;
    }
    proof {
        assert(doubled(256, 45) == 0x0020_0000_0000_0000) by {
            reveal_with_fuel(doubled, 46);
        }
        lemma_halved_bound(sig as int, 45, 256);
        lemma_halved_falls(sig as int, 45, shift as nat);
    }
    w as u8
}

/// Appends the decimal digits of a number.
pub fn push_decimal(out: &mut Vec<u8>, n: u64)
    ensures
        final(out)@ == old(out)@ + decimal(n as nat),
    decreases n,
{
    if n >= 10 {
        push_decimal(out, n / 10);
    }
    out.push(48 + (n % 10) as u8);
    assert(final(out)@ =~= old(out)@ + decimal(n as nat));
}

/// Appends a whole number in decimal.
pub fn push_signed(out: &mut Vec<u8>, n: i32)
    ensures
        final(out)@ == old(out)@ + signed_decimal(n as int),
{
    if n < 0 {
        out.push(45);
        push_decimal(out, (-(n as i64)) as u64);
        assert(final(out)@ =~= old(out)@ + signed_decimal(n as int));
    } else {
        push_decimal(out, n as u64);
    }
}

impl Vec3 {
    /// Appends the line of a pixel of this tone-mapped colour.
    pub fn write_color(&self, out: &mut Vec<u8>)
        ensures
            final(out)@ == old(out)@ + pixel_line(*self),
    {
        push_decimal(out, quantize(self.0) as u64);
        out.push(32);
        push_decimal(out, quantize(self.1) as u64);
        out.push(32);
        push_decimal(out, quantize(self.2) as u64);
        out.push(10);
        assert(final(out)@ =~= old(out)@ + pixel_line(*self));
    }
}

/// A channel lies in `0..=255` and is written with one to three digits.
pub proof fn lemma_channel_digits(gamma: Scalar)
    ensures
        0 <= quantize_spec(gamma) <= 255,
        1 <= decimal(quantize_spec(gamma) as nat).len() <= 3,
{
    let c = intensity_spec().clamp_spec(gamma);
    if !(c.nan() || c.exponent() < 1015) {
        assert(c.exponent() <= 1022);
        assert(doubled(256, 45) == 0x0020_0000_0000_0000) by {
            reveal_with_fuel(doubled, 46);
        }
        lemma_halved_bound(c.significand(), 45, 256);
        lemma_halved_falls(c.significand(), 45, (1067 - c.exponent()) as nat);
    }
    reveal_with_fuel(decimal, 4);
}

/// Black is written as `0`, and full intensity as `255`: the root of 1 is 1,
/// which is brought down to 0.999, and 256 times that has the integer part
/// 255.
pub proof fn lemma_black_and_white()
    ensures
        quantize_spec(linear_to_gamma_spec(Scalar::zero_spec(), Scalar::zero_spec())) == 0,
        quantize_spec(linear_to_gamma_spec(Scalar::one_spec(), Scalar::one_spec())) == 255,
        decimal(0) == seq![48u8],
        decimal(255) == seq![50u8, 53u8, 53u8],
{
    let top = Scalar { bits: INTENSITY_MAX_BITS };
    assert(intensity_spec().clamp_spec(Scalar::one_spec()) == top);
    assert(top.exponent() == 1022);
    assert(top.significand() == 0x001F_F7CE_D916_872B);
    assert(halved(0x001F_F7CE_D916_872B, 45) == 255) by {
        reveal_with_fuel(halved, 46);
    }
    assert(decimal(255) =~= seq![50u8, 53u8, 53u8]) by {
        reveal_with_fuel(decimal, 4);
    }
}

} // verus!
