//! Colors and the hand-off to eight-bit output.
//!
//! A [`Color`] accumulates in linear space across samples.  At write
//! time it is scaled by the reciprocal of the sample count, clamped per
//! channel into `[0, 0.999]`, and mapped to an eight-bit integer by
//! scaling with 256 and truncating — so nothing ever leaves `[0, 255]`.
use crate::fixed::{fx_div, fx_mul, tdiv, Fixed, SCALE};
use crate::util::{clamp, clamp_spec};
use crate::vec::{Vec3, V3};
use vstd::prelude::*;

verus! {

/// A color: three channels accumulated component-wise.
pub type Color = Vec3;

/// Upper clamp bound of a channel before quantization.
pub const CHANNEL_CAP: i64 = 999_000;

/// The mathematical content of a [`Pixel`].
pub ghost struct PixelV {
    pub r: int,
    pub g: int,
    pub b: int,
}

/// An eight-bit-quantized color triple, ready for an external writer.
#[derive(Clone, Copy, Debug, PartialEq, Eq, Structural)]
pub struct Pixel {
    pub r: u32,
    pub g: u32,
    pub b: u32,
}

impl View for Pixel {
    type V = PixelV;

    open spec fn view(&self) -> PixelV {
        PixelV { r: self.r as int, g: self.g as int, b: self.b as int }
    }
}

/// What one accumulated channel quantizes to: averaged by `scale`,
/// clamped into `[0, 0.999]`, scaled by 256 and truncated.
pub open spec fn quantize_channel(acc: int, scale: int) -> int {
    let averaged = fx_mul(acc, scale);
    let clamped = clamp_spec(averaged, 0, CHANNEL_CAP as int);
    tdiv(clamped * 256, SCALE as int)
}

/// The reciprocal of the sample count, as the averaging factor.
pub open spec fn sample_scale(samples: int) -> int {
    fx_div(SCALE as int, samples * SCALE)
}

/// What an accumulated color maps to for the external writer.
pub open spec fn write_color_spec(c: V3, samples: int) -> PixelV {
    PixelV {
        r: quantize_channel(c.x, sample_scale(samples)),
        g: quantize_channel(c.y, sample_scale(samples)),
        b: quantize_channel(c.z, sample_scale(samples)),
    }
}

/// A quantized channel stays inside the eight-bit range, and a channel
/// whose averaged value reaches one or falls to zero lands exactly on
/// the extremes.
pub proof fn lemma_quantize_channel_bounds(acc: int, scale: int)
    ensures
        0 <= quantize_channel(acc, scale) <= 255,
        fx_mul(acc, scale) >= SCALE ==> quantize_channel(acc, scale) == 255,
        fx_mul(acc, scale) <= 0 ==> quantize_channel(acc, scale) == 0,
{
    let averaged = fx_mul(acc, scale);
    let clamped = clamp_spec(averaged, 0, CHANNEL_CAP as int);
    assert(0 <= clamped <= CHANNEL_CAP);
    assert(0 <= clamped * 256 <= 255744000) by (nonlinear_arith)
        requires
            0 <= clamped <= 999000;
    assert(tdiv(clamped * 256, SCALE as int) == clamped * 256 / (SCALE as int));
    vstd::arithmetic::div_mod::lemma_div_is_ordered(clamped * 256, 255744000, SCALE as int);
    assert(255744000int / (SCALE as int) == 255);
    vstd::arithmetic::div_mod::lemma_div_is_ordered(0, clamped * 256, SCALE as int);
    if averaged >= SCALE {
        assert(clamped == CHANNEL_CAP);
        assert(CHANNEL_CAP * 256 / (SCALE as int) == 255);
    }
    if averaged <= 0 {
        assert(clamped == 0);
    }
}

/// Color clamping: a written pixel never leaves the eight-bit range, a
/// channel whose average reaches one maps to 255, and one whose average
/// falls to or below zero maps to 0.
pub proof fn lemma_write_color_clamps(c: V3, samples: int)
    ensures
        0 <= write_color_spec(c, samples).r <= 255,
        0 <= write_color_spec(c, samples).g <= 255,
        0 <= write_color_spec(c, samples).b <= 255,
        fx_mul(c.x, sample_scale(samples)) >= SCALE ==> write_color_spec(c, samples).r == 255,
        fx_mul(c.y, sample_scale(samples)) >= SCALE ==> write_color_spec(c, samples).g == 255,
        fx_mul(c.z, sample_scale(samples)) >= SCALE ==> write_color_spec(c, samples).b == 255,
        fx_mul(c.x, sample_scale(samples)) <= 0 ==> write_color_spec(c, samples).r == 0,
        fx_mul(c.y, sample_scale(samples)) <= 0 ==> write_color_spec(c, samples).g == 0,
        fx_mul(c.z, sample_scale(samples)) <= 0 ==> write_color_spec(c, samples).b == 0,
{
    lemma_quantize_channel_bounds(c.x, sample_scale(samples));
    lemma_quantize_channel_bounds(c.y, sample_scale(samples));
    lemma_quantize_channel_bounds(c.z, sample_scale(samples));
}

/// Quantizes one accumulated channel.
fn quantize(acc: Fixed, scale: Fixed) -> (r: u32)
    ensures
        r as int == quantize_channel(acc@, scale@),
        r <= 255,
{
    proof {
        lemma_quantize_channel_bounds(acc@, scale@);
    }
    let averaged = acc.mul(scale);
    let clamped = clamp(averaged, Fixed::zero(), Fixed::new(CHANNEL_CAP));
    let wide = clamped.mul(Fixed::new(256 * SCALE));
    proof {
        assert(wide@ == clamped@ * 256) by (nonlinear_arith)
            requires
                0 <= clamped@ <= 999000,
                wide@ == crate::fixed::fx_mul(clamped@, 256 * SCALE as int),
                SCALE == 1000000;
    }
    let whole: u64 = (wide.raw() as u64) / (SCALE as u64);
    whole as u32
}

/// Averages an accumulated color over its sample count, clamps each
/// channel, and quantizes to the eight-bit triple the external writer
/// expects.
pub fn write_color(pixel_color: Color, samples_per_pixel: u32) -> (r: Pixel)
    ensures
        r@ == write_color_spec(pixel_color@, samples_per_pixel as int),
        r@.r <= 255 && r@.g <= 255 && r@.b <= 255,
{
    let scale = Fixed::one().div(Fixed::from_int(samples_per_pixel as i64));
    Pixel {
        r: quantize(pixel_color.x(), scale),
        g: quantize(pixel_color.y(), scale),
        b: quantize(pixel_color.z(), scale),
    }
}

} // verus!
