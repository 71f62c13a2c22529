//! The luma/chroma space in which colours are compared.
//!
//! A point holds `y`, `cb` and `cr` as exact fixed-point numbers: each field
//! counts units of `1 / 255_000_000`, so that the transform of every 8-bit
//! RGB triple, whose coefficients have three decimals, is an integer.

use vstd::prelude::*;
use crate::hex::{format_hex, rgb_to_hex, ColorRGB};

verus! {

/// How many units make 1.0 in a field of [`ColorYCbCr`].
pub const UNITS_PER_ONE: i32 = 255_000_000;

/// How many units of the inverse transform make one step of an 8-bit channel.
pub const UNITS_PER_STEP: i64 = 1_000_000_000_000;

/// A point of the luma/chroma space, each field in units of `1 / 255_000_000`.
#[derive(Clone, Copy, Debug, PartialEq, Eq, Structural)]
pub struct ColorYCbCr {
    pub y: i32,
    pub cb: i32,
    pub cr: i32,
}

/// The luma of a triple, `0.299 r + 0.587 g + 0.114 b`, in units of `1 / 255_000`.
pub open spec fn luma_of(rgb: ColorRGB) -> int {
    299 * rgb.r + 587 * rgb.g + 114 * rgb.b
}

/// The point of a triple: with each channel divided by 255,
/// `y = 0.299 r + 0.587 g + 0.114 b`, `cb = 0.564 (b - y)` and
/// `cr = 0.713 (r - y)`. Each of the three is a whole number of units and
/// fits its field (see [`lemma_point_in_range`]).
pub open spec fn ycbcr_of(rgb: ColorRGB) -> ColorYCbCr {
    ColorYCbCr {
        y: (1000 * luma_of(rgb)) as i32,
        cb: (564 * (1000 * rgb.b - luma_of(rgb))) as i32,
        cr: (713 * (1000 * rgb.r - luma_of(rgb))) as i32,
    }
}

/// Red before clamping, `y + 1.402 cr`, in units of which `UNITS_PER_STEP`
/// make one step of an 8-bit channel and 255 times as many make 1.0.
pub open spec fn red_units(c: ColorYCbCr) -> int {
    1_000_000 * c.y + 1_402_000 * c.cr
}

/// Green before clamping, `y - 0.344136 cb - 0.714136 cr`, in the same units.
pub open spec fn green_units(c: ColorYCbCr) -> int {
    1_000_000 * c.y - 344_136 * c.cb - 714_136 * c.cr
}

/// Blue before clamping, `y + 1.772 cb`, in the same units.
pub open spec fn blue_units(c: ColorYCbCr) -> int {
    1_000_000 * c.y + 1_772_000 * c.cb
}

/// The 8-bit channel of a value in those units: clamped to `[0, 1]`, scaled
/// to `[0, 255]` and rounded to the nearest integer. A half rounds up, which
/// is away from zero, as nothing below zero is left after the clamp.
pub open spec fn channel_of_units(units: int) -> u8 {
    let clamped = if units < 0 {
        0
    } else if units > 255_000_000_000_000 {
        255_000_000_000_000
    } else {
        units
    };
    ((clamped + 500_000_000_000) / 1_000_000_000_000) as u8
}

/// The triple of a point.
pub open spec fn rgb_of(c: ColorYCbCr) -> ColorRGB {
    ColorRGB {
        r: channel_of_units(red_units(c)),
        g: channel_of_units(green_units(c)),
        b: channel_of_units(blue_units(c)),
    }
}

/// Maps an RGB triple to its point in the luma/chroma space.
pub fn convert_ycbcr(rgb: ColorRGB) -> (c: ColorYCbCr)
    ensures
        c == ycbcr_of(rgb),
{
    let r: i32 = rgb.r as i32;
    let g: i32 = rgb.g as i32;
    let b: i32 = rgb.b as i32;
    let luma: i32 = 299 * r + 587 * g + 114 * b;
    ColorYCbCr { y: 1000 * luma, cb: 564 * (1000 * b - luma), cr: 713 * (1000 * r - luma) }
}

/// Clamps, scales and rounds one channel.
fn channel_from_units(units: i64) -> (v: u8)
    ensures
        v == channel_of_units(units as int),
{
    let clamped: i64 = if units < 0 {
        0
    } else if units > 255 * UNITS_PER_STEP {
        255 * UNITS_PER_STEP
    } else {
        units
    };
    ((clamped + UNITS_PER_STEP / 2) / UNITS_PER_STEP) as u8
}

/// Maps a point back to the nearest RGB triple; a point outside the cube of
/// colours goes to the cube's surface.
pub fn convert_rgb(c: ColorYCbCr) -> (rgb: ColorRGB)
    ensures
        rgb == rgb_of(c),
{
    let y: i64 = c.y as i64;
    let cb: i64 = c.cb as i64;
    let cr: i64 = c.cr as i64;
    ColorRGB {
        r: channel_from_units(1_000_000 * y + 1_402_000 * cr),
        g: channel_from_units(1_000_000 * y - 344_136 * cb - 714_136 * cr),
        b: channel_from_units(1_000_000 * y + 1_772_000 * cb),
    }
}

/// Writes a point as the `#RRGGBB` string of its nearest RGB triple.
pub fn convert_hex(ycbcr: ColorYCbCr) -> (out: String)
    ensures
        out@ == format_hex(rgb_of(ycbcr)),
{
    rgb_to_hex(convert_rgb(ycbcr))
}

/// The point of an RGB triple is exact and in range: `y` lies in `[0, 1]`,
/// `cb` and `cr` lie in `[-0.5, 0.5]`.
pub proof fn lemma_point_in_range(rgb: ColorRGB)
    ensures
        ycbcr_of(rgb).y == 1000 * luma_of(rgb),
        ycbcr_of(rgb).cb == 564 * (1000 * rgb.b - luma_of(rgb)),
        ycbcr_of(rgb).cr == 713 * (1000 * rgb.r - luma_of(rgb)),
        0 <= ycbcr_of(rgb).y <= UNITS_PER_ONE,
        -UNITS_PER_ONE <= 2 * ycbcr_of(rgb).cb <= UNITS_PER_ONE,
        -UNITS_PER_ONE <= 2 * ycbcr_of(rgb).cr <= UNITS_PER_ONE,
{
}

/// Every RGB triple comes back unchanged from the luma/chroma space, and
/// the way back never clamps: each channel of the inverse lies in `[0, 1]`.
pub proof fn lemma_rgb_round_trip(rgb: ColorRGB)
    ensures
        rgb_of(ycbcr_of(rgb)) == rgb,
        0 <= red_units(ycbcr_of(rgb)) <= 255 * UNITS_PER_STEP,
        0 <= green_units(ycbcr_of(rgb)) <= 255 * UNITS_PER_STEP,
        0 <= blue_units(ycbcr_of(rgb)) <= 255 * UNITS_PER_STEP,
{
    let c = ycbcr_of(rgb);
    let luma = luma_of(rgb);
    lemma_point_in_range(rgb);
    assert(red_units(c) == rgb.r * UNITS_PER_STEP - 374_000 * (1000 * rgb.r - luma));
    assert(blue_units(c) == rgb.b * UNITS_PER_STEP - 592_000 * (1000 * rgb.b - luma));
    assert(green_units(c) == rgb.g * UNITS_PER_STEP + 99_261_928 * (rgb.r - rgb.g) + 80_266_608
        * (rgb.b - rgb.g));
    lemma_rounds_to(red_units(c), rgb.r);
    lemma_rounds_to(green_units(c), rgb.g);
    lemma_rounds_to(blue_units(c), rgb.b);
}

/// A value less than half a step away from a channel's level rounds to it.
proof fn lemma_rounds_to(units: int, v: u8)
    requires
        2 * v * UNITS_PER_STEP - UNITS_PER_STEP <= 2 * units < 2 * v * UNITS_PER_STEP
            + UNITS_PER_STEP,
        0 <= units <= 255 * UNITS_PER_STEP,
    ensures
        channel_of_units(units) == v,
{
    assert((units + 500_000_000_000) / 1_000_000_000_000 == v);
}

} // verus!
