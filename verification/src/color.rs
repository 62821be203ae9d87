//! Color output: gamma correction, clamping, byte quantization and the
//! ASCII form of one pixel.

use vstd::prelude::*;
use crate::fixed::{SCALE, div_tz, sqrt_fx_spec, sqrt_fx, lemma_div_tz_bounded};
use crate::point3d::{Point3D, Vec3S};

verus! {

/// The ceiling channels are clamped to before quantization: just below one,
/// so that a full channel maps to byte 255, not 256.
pub const CLAMP_MAX: i64 = 1047527;

/// Clamping to a closed interval.
pub open spec fn clamp_spec(x: int, lo: int, hi: int) -> int {
    if x < lo {
        lo
    } else if x > hi {
        hi
    } else {
        x
    }
}

pub fn clamp(x: i64, min: i64, max: i64) -> (r: i64)
    ensures
        r == clamp_spec(x as int, min as int, max as int),
{
    if x < min {
        min
    } else if x > max {
        max
    } else {
        x
    }
}

/// Gamma-2 correction: the square root for a positive value, zero otherwise.
pub open spec fn gamma_spec(x: int) -> int {
    if x > 0 {
        sqrt_fx_spec(x)
    } else {
        0
    }
}

pub fn linear_to_gamma(linear_component: i64) -> (r: i64)
    ensures
        r == gamma_spec(linear_component as int),
        r >= 0,
{
    if linear_component > 0 {
        sqrt_fx(linear_component)
    } else {
        0
    }
}

/// One channel as a byte: gamma-corrected, clamped to `[0, CLAMP_MAX]`,
/// scaled by 256 and truncated.
pub open spec fn channel_byte_spec(x: int) -> int {
    div_tz(clamp_spec(gamma_spec(x), 0, CLAMP_MAX as int) * 256, SCALE as int)
}

/// Every quantized channel is a byte.
pub proof fn lemma_channel_byte_range(x: int)
    ensures
        0 <= channel_byte_spec(x) <= 255,
{
    let c = clamp_spec(gamma_spec(x), 0, CLAMP_MAX as int);
    lemma_div_tz_bounded(c * 256, SCALE as int, CLAMP_MAX as int * 256);
}

pub fn channel_byte(x: i64) -> (r: u8)
    ensures
        r as int == channel_byte_spec(x as int),
{
    let g = linear_to_gamma(x);
    let c = clamp(g, 0, CLAMP_MAX);
    proof {
        lemma_channel_byte_range(x as int);
        lemma_div_tz_bounded((c as int) * 256, SCALE as int, CLAMP_MAX as int * 256);
    }
    let v = crate::fixed::div_count(c * 256, SCALE);
    v as u8
}

/// The decimal digits of a byte, one to three ASCII characters.
pub open spec fn dec_byte_spec(n: int) -> Seq<u8> {
    if n >= 100 {
        seq![(48 + n / 100) as u8, (48 + (n / 10) % 10) as u8, (48 + n % 10) as u8]
    } else if n >= 10 {
        seq![(48 + n / 10) as u8, (48 + n % 10) as u8]
    } else {
        seq![(48 + n) as u8]
    }
}

/// Append the decimal digits of a byte.
pub fn push_dec_byte(out: &mut Vec<u8>, n: u8)
    ensures
        final(out)@ == old(out)@ + dec_byte_spec(n as int),
{
    if n >= 100 {
        out.push(48 + n / 100);
        out.push(48 + (n / 10) % 10);
        out.push(48 + n % 10);
        assert(final(out)@ =~= old(out)@ + dec_byte_spec(n as int));
    } else if n >= 10 {
        out.push(48 + n / 10);
        out.push(48 + n % 10);
        assert(final(out)@ =~= old(out)@ + dec_byte_spec(n as int));
    } else {
        out.push(48 + n);
        assert(final(out)@ =~= old(out)@ + dec_byte_spec(n as int));
    }
}

/// The decimal digits of a nonnegative count, most significant first.
pub open spec fn dec_nat_spec(n: nat) -> Seq<u8>
    decreases n,
{
    if n < 10 {
        seq![(48 + n) as u8]
    } else {
        dec_nat_spec(n / 10) + seq![(48 + n % 10) as u8]
    }
}

/// Append the decimal digits of a count.
pub fn push_dec_usize(out: &mut Vec<u8>, n: usize)
    ensures
        final(out)@ == old(out)@ + dec_nat_spec(n as nat),
    decreases n,
{
    if n < 10 {
        out.push(48 + n as u8);
        assert(final(out)@ =~= old(out)@ + dec_nat_spec(n as nat));
    } else {
        push_dec_usize(out, n / 10);
        out.push(48 + (n % 10) as u8);
        assert(final(out)@ =~= old(out)@ + dec_nat_spec(n as nat));
    }
}

/// The ASCII line for one pixel: the three quantized channels, space
/// separated, with a trailing newline.
pub open spec fn color_line_spec(c: Vec3S) -> Seq<u8> {
    dec_byte_spec(channel_byte_spec(c.x)) + seq![32u8] + dec_byte_spec(channel_byte_spec(c.y))
        + seq![32u8] + dec_byte_spec(channel_byte_spec(c.z)) + seq![10u8]
}

/// Append one pixel's line: gamma-corrected, clamped, quantized channels.
pub fn write_color(out: &mut Vec<u8>, pixel_color: &Point3D)
    ensures
        final(out)@ == old(out)@ + color_line_spec(pixel_color@),
{
    let r = channel_byte(pixel_color.x());
    let g = channel_byte(pixel_color.y());
    let b = channel_byte(pixel_color.z());
    push_dec_byte(out, r);
    out.push(32);
    push_dec_byte(out, g);
    out.push(32);
    push_dec_byte(out, b);
    out.push(10);
    assert(final(out)@ =~= old(out)@ + color_line_spec(pixel_color@));
}

} // verus!
