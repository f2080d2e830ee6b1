//! Orientation classifier and aspect bucketer: decides landscape / portrait /
//! square, the high-definition width gate, and whether a reduced ratio falls
//! in the widescreen band.

use vstd::prelude::*;
use crate::ratio::ReducedRatio;

verus! {

/// Width, in pixels, above which an image counts as high-definition.
pub const HD_WIDTH_THRESHOLD: u32 = 1920;

/// Lower bound of the widescreen band, in tenths: ratio 1.6 (16:10).
pub const WIDESCREEN_MIN_TENTHS: u32 = 16;

/// Upper bound of the widescreen band, in tenths: ratio 2.7, generous enough
/// for ultra-wide 2.4:1 material. Policy revisions of this pipeline have used
/// both 1.9 and 2.7 here; this crate fixes the wider bound. Both bounds are
/// inclusive.
pub const WIDESCREEN_MAX_TENTHS: u32 = 27;

/// Orientation of an image, by comparing width against height. Dimensions
/// that are unavailable (zero) or equal both land in `SquareOrInvalid`:
/// such a candidate is counted by no orientation counter.
#[derive(Clone, Copy, Debug, PartialEq, Eq, Structural)]
pub enum Orientation {
    Landscape,
    Portrait,
    SquareOrInvalid,
}

/// Whether `width` passes the high-definition gate.
pub open spec fn spec_is_hd(width: u32) -> bool {
    width > HD_WIDTH_THRESHOLD
}

/// Orientation of a `width` by `height` image, as a value.
pub open spec fn spec_orientation(width: u32, height: u32) -> Orientation {
    if width > 0 && height > 0 && width > height {
        Orientation::Landscape
    } else if width > 0 && height > 0 && width < height {
        Orientation::Portrait
    } else {
        Orientation::SquareOrInvalid
    }
}

/// Whether `width` exceeds the high-definition threshold.
pub fn is_hd(width: u32) -> (b: bool)
    ensures
        b == spec_is_hd(width),
{
    width > HD_WIDTH_THRESHOLD
}

/// Classifies an image by its dimensions: landscape when wider than tall,
/// portrait when taller than wide, and neither when the dimensions are
/// equal or unavailable (zero).
pub fn classify(width: u32, height: u32) -> (o: Orientation)
    ensures
        o == spec_orientation(width, height),
        (o == Orientation::Landscape) <==> (width > 0 && height > 0 && width > height),
        (o == Orientation::Portrait) <==> (width > 0 && height > 0 && width < height),
{
    if width == 0 || height == 0 {
        Orientation::SquareOrInvalid
    } else if width > height {
        Orientation::Landscape
    } else if width < height {
        Orientation::Portrait
    } else {
        Orientation::SquareOrInvalid
    }
}

/// Whether the exact ratio `num / den` lies in the closed widescreen band
/// `[WIDESCREEN_MIN_TENTHS / 10, WIDESCREEN_MAX_TENTHS / 10]`.
pub open spec fn spec_widescreen_suitable(num: int, den: int) -> bool {
    &&& WIDESCREEN_MIN_TENTHS * den <= 10 * num
    &&& 10 * num <= WIDESCREEN_MAX_TENTHS * den
}

/// Decides whether a reduced ratio is widescreen-suitable. The comparison is
/// exact rational arithmetic against the band's inclusive bounds.
pub fn is_widescreen_suitable(ratio: &ReducedRatio) -> (b: bool)
    ensures
        b == spec_widescreen_suitable(ratio.num as int, ratio.den as int),
{
    proof {
        assert((WIDESCREEN_MIN_TENTHS as u64) * (ratio.den as u64) <= u64::MAX
            && (WIDESCREEN_MAX_TENTHS as u64) * (ratio.den as u64) <= u64::MAX) by (nonlinear_arith)
            requires
                ratio.den <= u32::MAX,
                WIDESCREEN_MIN_TENTHS == 16,
                WIDESCREEN_MAX_TENTHS == 27,
        ;
    }
    let num10: u64 = 10 * (ratio.num as u64);
    (WIDESCREEN_MIN_TENTHS as u64) * (ratio.den as u64) <= num10 && num10
        <= (WIDESCREEN_MAX_TENTHS as u64) * (ratio.den as u64)
}

/// The widescreen band rejects every ratio below its lower bound and above
/// its upper bound, and admits both boundary values themselves.
pub proof fn lemma_widescreen_band_bounds(num: int, den: int)
    requires
        den > 0,
    ensures
        10 * num < WIDESCREEN_MIN_TENTHS * den ==> !spec_widescreen_suitable(num, den),
        10 * num > WIDESCREEN_MAX_TENTHS * den ==> !spec_widescreen_suitable(num, den),
        10 * num == WIDESCREEN_MIN_TENTHS * den ==> spec_widescreen_suitable(num, den),
        10 * num == WIDESCREEN_MAX_TENTHS * den ==> spec_widescreen_suitable(num, den),
{
}

/// The widescreen band is an interval: a ratio lying between two suitable
/// ratios is itself suitable. The order of ratios is by cross-multiplication:
/// `n1/d1 <= n2/d2` iff `n1*d2 <= n2*d1`.
pub proof fn lemma_widescreen_band_is_interval(
    n1: int,
    d1: int,
    n2: int,
    d2: int,
    n3: int,
    d3: int,
)
    requires
        d1 > 0,
        d2 > 0,
        d3 > 0,
        n1 * d2 <= n2 * d1,
        n2 * d3 <= n3 * d2,
        spec_widescreen_suitable(n1, d1),
        spec_widescreen_suitable(n3, d3),
    ensures
        spec_widescreen_suitable(n2, d2),
{
    assert(WIDESCREEN_MIN_TENTHS * d2 <= 10 * n2) by (nonlinear_arith)
        requires
            d1 > 0,
            d2 > 0,
            n1 * d2 <= n2 * d1,
            16 * d1 <= 10 * n1,
    ;
    assert(10 * n2 <= WIDESCREEN_MAX_TENTHS * d2) by (nonlinear_arith)
        requires
            d2 > 0,
            d3 > 0,
            n2 * d3 <= n3 * d2,
            10 * n3 <= 27 * d3,
    ;
}

} // verus!
