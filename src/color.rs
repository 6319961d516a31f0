//! Colours and their text form in the plain PPM format.
use vstd::prelude::*;
use crate::fixed::{div_trunc, Fixed, SCALE};
use crate::interval::Interval;
use crate::vec::Vec3;

verus! {

/// A colour: red, green and blue channels.
pub type Color = Vec3;

/// The largest channel value before scaling to a byte: 0.999.
pub const INTENSITY_MAX_RAW: i64 = 999_000;

/// The ASCII digits of `n` in decimal, most significant first.
pub open spec fn decimal(n: nat) -> Seq<u8>
    decreases n,
{
    if n < 10 {
        seq![(48 + n) as u8]
    } else {
        decimal(n / 10) + seq![(48 + n % 10) as u8]
    }
}

/// The decimal text of a signed integer.
pub open spec fn signed_decimal(n: int) -> Seq<u8> {
    if n < 0 {
        seq![45u8] + decimal((-n) as nat)
    } else {
        decimal(n as nat)
    }
}

/// Gamma-2 decoding: the square root of a positive value, else zero.
pub open spec fn gamma_of(linear: Fixed) -> Fixed {
    if linear@ > 0 {
        linear.root()
    } else {
        Fixed::sat(0)
    }
}

/// The byte for a linear channel value: gamma-corrected, clamped to
/// `[0, 0.999]`, scaled by 256 and truncated.
pub open spec fn channel_byte(linear: Fixed) -> int {
    let g = gamma_of(linear);
    let c = if g@ < 0 {
        0
    } else if g@ > INTENSITY_MAX_RAW {
        INTENSITY_MAX_RAW as int
    } else {
        g@
    };
    div_trunc(256 * c, SCALE as int)
}

/// The text line of a pixel: its three bytes in decimal, separated by
/// spaces.
pub open spec fn color_line(c: Color) -> Seq<u8> {
    decimal(channel_byte(c.x) as nat) + seq![32u8] + decimal(channel_byte(c.y) as nat) + seq![
        32u8,
    ] + decimal(channel_byte(c.z) as nat) + seq![10u8]
}

pub fn linear_to_gamma(linear: Fixed) -> (r: Fixed)
    ensures
        r == gamma_of(linear),
{
    if linear > Fixed::zero() {
        linear.sqrt()
    } else {
        Fixed::zero()
    }
}

/// The byte of one channel; see `channel_byte`.
pub fn to_byte(linear: Fixed) -> (r: u8)
    ensures
        r == channel_byte(linear),
{
    let intensity = Interval::new(Fixed::zero(), Fixed { raw: INTENSITY_MAX_RAW });
    let c = intensity.clamp(linear_to_gamma(linear));
    let scaled = Fixed::from_int(256) * c;
    proof {
        assert(0 <= 256 * c@ <= 256 * INTENSITY_MAX_RAW);
        assert(div_trunc(256 * SCALE * c@, SCALE as int) == 256 * c@) by {
            crate::fixed::lemma_div_trunc_exact(256 * c@, SCALE as int);
            assert(256 * SCALE * c@ == (256 * c@) * SCALE) by (nonlinear_arith);
        }
        let n = 256 * c@;
        assert(n / 1_000_000 <= 255) by (nonlinear_arith)
            requires
                0 <= n <= 255_744_000,
        ;
    }
    scaled.trunc() as u8
}

/// Appends the decimal digits of `n`.
pub fn push_decimal(out: &mut Vec<u8>, n: u64)
    ensures
        final(out)@ == old(out)@ + decimal(n as nat),
    decreases n,
{
    if n >= 10 {
        push_decimal(out, n / 10);
    }
    let d: u8 = (n % 10) as u8;
    out.push(48u8 + d);
    proof {
        if n >= 10 {
            assert(final(out)@ =~= old(out)@ + decimal(n as nat));
        } else {
            assert(final(out)@ =~= old(out)@ + decimal(n as nat));
        }
    }
}

/// Appends the decimal text of a signed integer.
pub fn push_signed_decimal(out: &mut Vec<u8>, n: i64)
    ensures
        final(out)@ == old(out)@ + signed_decimal(n as int),
{
    if n < 0 {
        out.push(45u8);
        let m: u64 = (-(n as i128)) as u64;
        push_decimal(out, m);
        assert(final(out)@ =~= old(out)@ + signed_decimal(n as int));
    } else {
        push_decimal(out, n as u64);
    }
}

/// Appends the pixel line of `c`: the bytes of its three channels, each
/// gamma-corrected, clamped and scaled.
pub fn print_color(out: &mut Vec<u8>, c: &Color)
    ensures
        final(out)@ == old(out)@ + color_line(*c),
{
    let rbyte = to_byte(c.x);
    let gbyte = to_byte(c.y);
    let bbyte = to_byte(c.z);
    push_decimal(out, rbyte as u64);
    out.push(32u8);
    push_decimal(out, gbyte as u64);
    out.push(32u8);
    push_decimal(out, bbyte as u64);
    out.push(10u8);
    assert(final(out)@ =~= old(out)@ + color_line(*c));
}

} // verus!
