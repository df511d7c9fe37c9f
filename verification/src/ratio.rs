//! Integer arithmetic of the 4:5 frame.
//!
//! Every quantity here is an exact rational statement about `width / height`
//! written without division: the ratio is compared against 4/5 by cross
//! multiplication, and the two roundings are to the nearest integer, with a
//! tie going to the larger one (half away from zero). On sides that are
//! `u32` this gives what the same steps give in double precision: there the
//! quotient by 0.8 is exact, the product with 0.8 is off by far less than the
//! tenth that separates it from a half, and a ratio that is not exactly one
//! thousandth from 0.8 is further from that bound than any rounding error.

use vstd::prelude::*;

verus! {

/// `|a - b|` for integers.
pub open spec fn distance(a: int, b: int) -> int {
    if a >= b {
        a - b
    } else {
        b - a
    }
}

/// The ratio `width / height` differs from 4/5 by less than 1/1000.
///
/// `|w/h - 4/5| < 1/1000` is `200 * |5w - 4h| < h`. An image of height zero is
/// never compliant, and a ratio exactly 1/1000 away is not compliant either.
pub open spec fn ratio_is_compliant(width: int, height: int) -> bool {
    200 * distance(5 * width, 4 * height) < height
}

/// The ratio `width / height` is greater than 4/5. An image of height zero
/// and positive width counts as too wide.
pub open spec fn ratio_is_wide(width: int, height: int) -> bool {
    5 * width > 4 * height
}

/// `n * 4/5` rounded to the nearest integer. The fractional part of `4n/5`
/// is a multiple of 1/5, so there is never a tie.
pub open spec fn four_fifths(n: int) -> int {
    (4 * n + 2) / 5
}

/// `n * 5/4` rounded to the nearest integer, a tie (`n % 4 == 2`) going up.
pub open spec fn five_fourths(n: int) -> int {
    (5 * n + 2) / 4
}

/// Where the smaller extent starts when it is centred in the larger one:
/// half of the excess, rounded down, and zero where there is no excess.
pub open spec fn center_offset(outer: int, inner: int) -> int {
    if outer >= inner {
        (outer - inner) / 2
    } else {
        0
    }
}

/// The size `(width, height)` of the centre crop of a `width` x `height`
/// image: unchanged when the ratio is compliant, else the too long side cut
/// to the rounded 4:5 length of the other.
pub open spec fn crop_dimensions(width: int, height: int) -> (int, int) {
    if ratio_is_compliant(width, height) {
        (width, height)
    } else if ratio_is_wide(width, height) {
        (four_fifths(height), height)
    } else {
        (width, five_fourths(width))
    }
}

/// The size `(width, height)` of the padded canvas of a `width` x `height`
/// image: unchanged when the ratio is compliant, else the too short side
/// grown to the rounded 4:5 length of the other.
pub open spec fn pad_dimensions(width: int, height: int) -> (int, int) {
    if ratio_is_compliant(width, height) {
        (width, height)
    } else if ratio_is_wide(width, height) {
        (width, five_fourths(width))
    } else {
        (four_fifths(height), height)
    }
}

/// A size is in frame when it is compliant or one side is the rounded 4:5
/// length of the other: `|5w - 4h| <= 2` holds when `w` is `4h/5` rounded,
/// which is off by at most 2/5, and when `h` is `5w/4` rounded, which is off
/// by at most 1/2.
pub open spec fn in_frame(width: int, height: int) -> bool {
    ratio_is_compliant(width, height) || distance(5 * width, 4 * height) <= 2
}

/// Whether the ratio is within one thousandth of 4:5.
pub fn is_compliant(width: u32, height: u32) -> (r: bool)
    ensures
        r == ratio_is_compliant(width as int, height as int),
{
    let a: u64 = 5 * (width as u64);
    let b: u64 = 4 * (height as u64);
    let d: u64 = if a >= b {
        a - b
    } else {
        b - a
    };
    200 * d < height as u64
}

/// Whether the ratio is above 4:5.
pub fn is_wide(width: u32, height: u32) -> (r: bool)
    ensures
        r == ratio_is_wide(width as int, height as int),
{
    5 * (width as u64) > 4 * (height as u64)
}

/// `n * 4/5`, rounded.
pub fn round_four_fifths(n: u32) -> (r: u32)
    ensures
        r == four_fifths(n as int),
        r <= n,
{
    ((4 * (n as u64) + 2) / 5) as u32
}

/// `n * 5/4`, rounded, which may exceed `u32::MAX`.
pub fn round_five_fourths(n: u32) -> (r: u64)
    ensures
        r == five_fourths(n as int),
        r >= n,
{
    (5 * (n as u64) + 2) / 4
}

/// The offset that centres `inner` in `outer`, zero if it does not fit.
pub fn centered(outer: u32, inner: u32) -> (r: u32)
    ensures
        r == center_offset(outer as int, inner as int),
        r + inner <= outer || outer < inner,
{
    outer.saturating_sub(inner) / 2
}

/// The size of the centre crop, which never exceeds the input.
pub fn crop_size(width: u32, height: u32) -> (r: (u32, u32))
    ensures
        (r.0 as int, r.1 as int) == crop_dimensions(width as int, height as int),
        r.0 <= width,
        r.1 <= height,
{
    proof {
        lemma_crop_within(width as int, height as int);
    }
    if is_compliant(width, height) {
        (width, height)
    } else if is_wide(width, height) {
        (round_four_fifths(height), height)
    } else {
        (width, round_five_fourths(width) as u32)
    }
}

/// The size of the padded canvas, which is never smaller than the input. The
/// grown side of a very large image may exceed `u32::MAX`, hence the wider
/// result type.
pub fn pad_size(width: u32, height: u32) -> (r: (u64, u64))
    ensures
        (r.0 as int, r.1 as int) == pad_dimensions(width as int, height as int),
        r.0 >= width,
        r.1 >= height,
{
    proof {
        lemma_pad_covers(width as int, height as int);
    }
    if is_compliant(width, height) {
        (width as u64, height as u64)
    } else if is_wide(width, height) {
        (width as u64, round_five_fourths(width))
    } else {
        (round_four_fifths(height) as u64, height as u64)
    }
}

/// The centre crop is in frame and fits inside the input on both axes.
pub proof fn lemma_crop_within(width: int, height: int)
    requires
        0 <= width,
        0 <= height,
    ensures
        0 <= crop_dimensions(width, height).0 <= width,
        0 <= crop_dimensions(width, height).1 <= height,
        in_frame(crop_dimensions(width, height).0, crop_dimensions(width, height).1),
{
}

/// The padded canvas is in frame and covers the input on both axes.
pub proof fn lemma_pad_covers(width: int, height: int)
    requires
        0 <= width,
        0 <= height,
    ensures
        width <= pad_dimensions(width, height).0,
        height <= pad_dimensions(width, height).1,
        in_frame(pad_dimensions(width, height).0, pad_dimensions(width, height).1),
{
}

/// Centring splits the excess in two: exactly in half when the excess is
/// even, and with the smaller half in front when it is odd.
pub proof fn lemma_center_offset_halves(outer: int, inner: int)
    requires
        inner <= outer,
    ensures
        0 <= center_offset(outer, inner),
        center_offset(outer, inner) + inner <= outer,
        (outer - inner) % 2 == 0 ==> 2 * center_offset(outer, inner) == outer - inner,
        (outer - inner) % 2 == 1 ==> 2 * center_offset(outer, inner) + 1 == outer - inner,
{
}

/// The two roundings are to the nearest integer: `four_fifths(n)` is within
/// 2/5 of `4n/5`, and `five_fourths(n)` lies between `5n/4 - 1/4` and
/// `5n/4 + 1/2`.
pub proof fn lemma_rounding_is_nearest(n: int)
    ensures
        -2 <= 5 * four_fifths(n) - 4 * n <= 2,
        -1 <= 4 * five_fourths(n) - 5 * n <= 2,
{
}

} // verus!
