use vstd::prelude::*;
use crate::config::{FIXED_ONE, MAX_HEIGHT_SCALE};

verus! {

/// Display colour of an elevation band, named after its palette entry.
#[derive(Clone, Copy, Debug, PartialEq, Eq, Structural)]
pub enum Palette {
    Gray100,
    Gray300,
    Amber800,
    Yellow400,
    Yellow500,
    Amber400,
    Amber500,
    Amber600,
    Amber700,
    Green800,
    Orange400,
    Blue400,
    White,
    Purple400,
    Green600,
}

/// `num / den > tenths / 10`, for `den > 0`.
pub open spec fn above(num: int, den: int, tenths: int) -> bool {
    10 * num > tenths * den
}

/// `num / den < tenths / 10`, for `den > 0`.
pub open spec fn below(num: int, den: int, tenths: int) -> bool {
    10 * num < tenths * den
}

/// The band of the normalized height `num / den`: the first test that holds,
/// in this order, gives the colour. The tests below zero come in the order
/// -0.2, -0.5, -0.6, -0.7, -0.8, so the first of them catches every height
/// that the others would.
pub open spec fn palette_of(num: int, den: int) -> Palette {
    if above(num, den, 11) {
        Palette::Gray100
    } else if above(num, den, 10) {
        Palette::Gray300
    } else if above(num, den, 9) {
        Palette::Amber800
    } else if above(num, den, 8) {
        Palette::Yellow400
    } else if above(num, den, 7) {
        Palette::Yellow500
    } else if above(num, den, 6) {
        Palette::Amber400
    } else if above(num, den, 5) {
        Palette::Amber500
    } else if above(num, den, 4) {
        Palette::Amber600
    } else if above(num, den, 3) {
        Palette::Amber700
    } else if above(num, den, 2) {
        Palette::Amber800
    } else if below(num, den, -2) {
        Palette::Green800
    } else if below(num, den, -5) {
        Palette::Orange400
    } else if below(num, den, -6) {
        Palette::Blue400
    } else if below(num, den, -7) {
        Palette::White
    } else if below(num, den, -8) {
        Palette::Purple400
    } else {
        Palette::Green600
    }
}

/// Divisor that brings a fixed-point height into the normalized range:
/// the height is divided by twice the height scale.
pub open spec fn height_normalizer(height_scale: int) -> int {
    2 * height_scale * FIXED_ONE
}

fn palette_of_ratio(num: i64, den: i64) -> (r: Palette)
    requires
        0 < den,
    ensures
        r == palette_of(num as int, den as int),
{
    let n: i128 = (num as i128) * 10;
    let d: i128 = den as i128;
    if n > 11 * d {
        Palette::Gray100
    } else if n > 10 * d {
        Palette::Gray300
    } else if n > 9 * d {
        Palette::Amber800
    } else if n > 8 * d {
        Palette::Yellow400
    } else if n > 7 * d {
        Palette::Yellow500
    } else if n > 6 * d {
        Palette::Amber400
    } else if n > 5 * d {
        Palette::Amber500
    } else if n > 4 * d {
        Palette::Amber600
    } else if n > 3 * d {
        Palette::Amber700
    } else if n > 2 * d {
        Palette::Amber800
    } else if n + 2 * d < 0 {
        Palette::Green800
    } else if n + 5 * d < 0 {
        Palette::Orange400
    } else if n + 6 * d < 0 {
        Palette::Blue400
    } else if n + 7 * d < 0 {
        Palette::White
    } else if n + 8 * d < 0 {
        Palette::Purple400
    } else {
        Palette::Green600
    }
}

/// Colour of a normalized height given in fixed point (`FIXED_ONE` is 1.0).
pub fn palette_for_normalized(g: i64) -> (r: Palette)
    ensures
        r == palette_of(g as int, FIXED_ONE as int),
{
    palette_of_ratio(g, FIXED_ONE)
}

/// Colour of a vertex at fixed-point height `height` under the height scale
/// `height_scale` (world units): the band of `height / (2 * height_scale)`.
pub fn palette_for_height(height: i64, height_scale: u32) -> (r: Palette)
    requires
        0 < height_scale <= MAX_HEIGHT_SCALE,
    ensures
        r == palette_of(height as int, height_normalizer(height_scale as int)),
{
    proof {
        assert(2 * height_scale * FIXED_ONE <= 2 * 65536 * 1_000_000) by (nonlinear_arith)
            requires
                height_scale <= 65536,
        ;
    }
    let den: i64 = 2 * (height_scale as i64) * FIXED_ONE;
    palette_of_ratio(height, den)
}

/// No height ever gets the colours of the tests after -0.2: every height
/// below -0.5 (and so below -0.6, -0.7, -0.8) is already below -0.2.
pub proof fn lemma_deep_bands_unreachable(num: int, den: int)
    requires
        0 < den,
    ensures
        palette_of(num, den) != Palette::Orange400,
        palette_of(num, den) != Palette::Blue400,
        palette_of(num, den) != Palette::White,
        palette_of(num, den) != Palette::Purple400,
{
}

/// The amber of the band above 0.9 is the amber of the band above 0.2.
pub proof fn lemma_amber_shared(num: int, den: int)
    requires
        0 < den,
        above(num, den, 9) && !above(num, den, 10) || above(num, den, 2) && !above(num, den, 3),
    ensures
        palette_of(num, den) == Palette::Amber800,
{
}

/// A normalized height of at most 0.2 is dark green below -0.2 and grass
/// from -0.2 up.
pub proof fn lemma_low_bands(num: int, den: int)
    requires
        0 < den,
        !above(num, den, 2),
    ensures
        below(num, den, -2) ==> palette_of(num, den) == Palette::Green800,
        !below(num, den, -2) ==> palette_of(num, den) == Palette::Green600,
{
}

} // verus!
