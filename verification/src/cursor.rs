//! Pointing moves the cursor.
use vstd::arithmetic::power2::{
    lemma2_to64, lemma_pow2_adds, lemma_pow2_pos, lemma_pow2_strictly_increases, pow2,
};
use vstd::prelude::*;

use crate::easing::within;
use crate::hand::Point;
use crate::scalar::{
    law_rank_orders_numbers, law_rounding_is_fine, law_rounding_passes_no_number, lemma_nearest,
    lemma_negative, lemma_next, lemma_zero, scaled_magnitude, Scalar,
};
use crate::settings::{number, threshold, CURSOR_JITTER_PX, SMOOTH_MAX, SMOOTH_MIN};

verus! {

/// The pattern of one.
pub const ONE_BITS: u32 = 0x3f80_0000;

/// The share of a side of the screen that a position in the view stands for, cut off
/// at the ends of the screen. What is not a number stays so.
pub open spec fn share_of(position: Scalar) -> Scalar {
    if position.below(number(0)) {
        number(0)
    } else if number(ONE_BITS).below(position) {
        number(ONE_BITS)
    } else {
        position
    }
}

/// The share of a side of the screen that a position in the view stands for.
pub fn screen_share(position: Scalar) -> (share: Scalar)
    ensures
        share == share_of(position),
{
    if position.lt(threshold(0)) {
        threshold(0)
    } else if threshold(ONE_BITS).lt(position) {
        threshold(ONE_BITS)
    } else {
        position
    }
}

/// How the way from the cursor to where the finger points measures up.
#[derive(Clone, Copy, Debug, PartialEq, Eq, Structural)]
pub struct CursorBlend {
    /// Length of the way, in pixels.
    pub gap: Scalar,
    /// The point that adaptive smoothing reaches on it.
    pub blended: Point,
}

/// Where the cursor goes: nowhere on a mere shake, else to the smoothed point.
pub open spec fn steadied(from: Point, blend: CursorBlend) -> Point {
    if blend.gap.below(number(CURSOR_JITTER_PX)) {
        from
    } else {
        blend.blended
    }
}

/// Where the cursor goes.
pub fn steady(from: Point, blend: CursorBlend) -> (to: Point)
    ensures
        to == steadied(from, blend),
{
    if blend.gap.lt(threshold(CURSOR_JITTER_PX)) {
        from
    } else {
        blend.blended
    }
}

/// A shake leaves the cursor where it is; any longer way is followed.
pub proof fn law_shake_keeps_cursor(from: Point, blend: CursorBlend)
    ensures
        blend.gap.below(number(CURSOR_JITTER_PX)) ==> steadied(from, blend) == from,
        number(CURSOR_JITTER_PX).at_most(blend.gap) ==> steadied(from, blend) == blend.blended,
{
}

/// Every position is on the screen, however far outside the view it is: its share
/// of a side, times the length of that side, lies between zero and that length.
pub proof fn law_target_is_on_screen(position: Scalar, side: Scalar, pixel: Scalar)
    requires
        !position.is_nan(),
        side.is_finite(),
        number(0).at_most(side),
        pixel.is_product(share_of(position), side),
    ensures
        number(0).at_most(share_of(position)),
        share_of(position).at_most(number(ONE_BITS)),
        number(0).at_most(pixel),
        pixel.at_most(side),
{
    let share = share_of(position).scaled();
    let length = side.scaled();
    let den = pow2(149) as int;
    lemma_pow2_pos(149);
    lemma_zero(number(0));
    law_rank_orders_numbers(number(0), side);
    law_rank_orders_numbers(number(0), share_of(position));
    law_rank_orders_numbers(share_of(position), number(ONE_BITS));
    lemma_one();
    assert(0 <= share * length <= length * den) by (nonlinear_arith)
        requires
            0 <= share <= den,
            0 <= length,
    ;
    law_rounding_passes_no_number(pixel, share * length, den, number(0));
    law_rounding_passes_no_number(pixel, share * length, den, side);
}

/// Whether a point lies in the box between two corners.
pub open spec fn inside(p: Point, low: Point, high: Point) -> bool {
    &&& low.x.at_most(p.x) && p.x.at_most(high.x)
    &&& low.y.at_most(p.y) && p.y.at_most(high.y)
}

/// The cursor stays in a box that holds it and the smoothed point.
pub proof fn law_steadied_cursor_stays_inside(
    from: Point,
    blend: CursorBlend,
    low: Point,
    high: Point,
)
    requires
        inside(from, low, high),
        inside(blend.blended, low, high),
    ensures
        inside(steadied(from, blend), low, high),
{
}

/// Whether a pixel is where some position in the view, however far outside of it,
/// stands on a side of the screen.
#[verifier::opaque]
pub open spec fn aimed(side: Scalar, pixel: Scalar) -> bool {
    exists|position: Scalar|
        !(#[trigger] position.is_nan()) && pixel.is_product(share_of(position), side)
}

/// A pixel where a position stands lies on its side of the screen.
pub proof fn law_aim_is_on_screen(side: Scalar, pixel: Scalar)
    requires
        side.is_finite(),
        number(0).at_most(side),
        aimed(side, pixel),
    ensures
        number(0).at_most(pixel),
        pixel.at_most(side),
{
    reveal(aimed);
    let position = choose|position: Scalar|
        !(#[trigger] position.is_nan()) && pixel.is_product(share_of(position), side);
    law_target_is_on_screen(position, side, pixel);
}

/// Whether `smoothed` is what adaptive smoothing gives along one axis, with a factor
/// from `SMOOTH_MIN` to `SMOOTH_MAX`: `way` is what the difference rounds to, `part`
/// what the share of it rounds to, and `smoothed` what the sum rounds to.
pub open spec fn smooths_by(
    from: Scalar,
    to: Scalar,
    factor: Scalar,
    way: Scalar,
    part: Scalar,
    smoothed: Scalar,
) -> bool {
    &&& number(SMOOTH_MIN).at_most(factor)
    &&& factor.at_most(number(SMOOTH_MAX))
    &&& way.rounds(to.scaled() - from.scaled(), 1)
    &&& part.is_product(factor, way)
    &&& smoothed.rounds(from.scaled() + part.scaled(), 1)
}

/// Whether adaptive smoothing gives this along one axis.
#[verifier::opaque]
pub open spec fn smooths(from: Scalar, to: Scalar, smoothed: Scalar) -> bool {
    exists|factor: Scalar, way: Scalar, part: Scalar| #[trigger]
        smooths_by(from, to, factor, way, part, smoothed)
}

proof fn lemma_one()
    ensures
        number(ONE_BITS).scaled() == pow2(149),
        number(ONE_BITS) == number(SMOOTH_MAX),
{
    lemma2_to64();
    lemma_pow2_adds(23, 126);
    reveal(scaled_magnitude);
    assert(number(ONE_BITS).scaled() == 0x80_0000 * pow2(126));
}

proof fn lemma_part_of_smoothing(
    from: Scalar,
    to: Scalar,
    factor: Scalar,
    way: Scalar,
    part: Scalar,
    smoothed: Scalar,
)
    requires
        from.is_finite(),
        to.is_finite(),
        smooths_by(from, to, factor, way, part, smoothed),
    ensures
        way.is_finite(),
        smoothed.is_finite(),
        from.scaled() <= to.scaled() ==> 0 <= part.scaled() <= way.scaled(),
        to.scaled() <= from.scaled() ==> way.scaled() <= part.scaled() <= 0,
{
    let n = to.scaled() - from.scaled();
    let den = pow2(149) as int;
    let f = factor.scaled();
    let w = way.scaled();
    let zero = number(0);
    lemma_pow2_pos(149);
    lemma_zero(zero);
    lemma_one();
    lemma_nearest(way, n, 1, zero);
    lemma_nearest(part, f * w, den, zero);
    lemma_nearest(smoothed, from.scaled() + part.scaled(), 1, zero);
    law_rank_orders_numbers(zero, factor);
    law_rank_orders_numbers(factor, number(SMOOTH_MAX));
    law_rounding_passes_no_number(way, n, 1, zero);
    if n >= 0 {
        assert(0 <= f * w <= w * den) by (nonlinear_arith)
            requires
                0 <= f <= den,
                0 <= w,
        ;
        law_rounding_passes_no_number(part, f * w, den, zero);
        law_rounding_passes_no_number(part, f * w, den, way);
    }
    if n <= 0 {
        assert(w * den <= f * w <= 0) by (nonlinear_arith)
            requires
                0 <= f <= den,
                w <= 0,
        ;
        law_rounding_passes_no_number(part, f * w, den, zero);
        law_rounding_passes_no_number(part, f * w, den, way);
    }
}

/// The smoothed point lies between the cursor and the target, up to rounding: it never
/// recedes from the target, and passes it by at most two of the steps that rounding is
/// fine to for numbers as large as these.
pub proof fn law_smoothing_leads_to_the_target(
    from: Scalar,
    to: Scalar,
    smoothed: Scalar,
    e: nat,
)
    requires
        e <= 252,
        within(from, e),
        within(to, e),
        smooths(from, to, smoothed),
    ensures
        from.scaled() <= to.scaled() ==> from.scaled() <= smoothed.scaled() <= to.scaled() + 2
            * pow2(e),
        to.scaled() <= from.scaled() ==> to.scaled() - 2 * pow2(e) <= smoothed.scaled()
            <= from.scaled(),
{
    reveal(smooths);
    let (factor, way, part) = choose|factor: Scalar, way: Scalar, part: Scalar| #[trigger]
        smooths_by(from, to, factor, way, part, smoothed);
    let n = to.scaled() - from.scaled();
    let sum = from.scaled() + part.scaled();
    let u = pow2(e) as int;
    lemma_pow2_pos(e);
    lemma_part_of_smoothing(from, to, factor, way, part, smoothed);
    law_rounding_passes_no_number(smoothed, sum, 1, from);
    law_rounding_is_fine(way, n, 1, e);
    law_rounding_is_fine(smoothed, sum, 1, e);
}

/// The number two to the power of 31: no side of a screen is longer.
pub const LONGEST_SIDE: u32 = 0x4f00_0000;

/// Whether a number can be the length of a side of the screen.
pub open spec fn screen_side(side: Scalar) -> bool {
    side.bits <= LONGEST_SIDE
}

/// Whether a number lies on a side of the screen, up to the next number behind it.
pub open spec fn on_side(x: Scalar, side: Scalar) -> bool {
    number(0).at_most(x) && x.at_most(side.next())
}

/// Smoothing keeps the cursor on the screen: between a cursor and a target on it, the
/// smoothed point does not leave it, whatever rounding does.
pub proof fn law_smoothing_stays_on_screen(
    from: Scalar,
    to: Scalar,
    smoothed: Scalar,
    side: Scalar,
)
    requires
        screen_side(side),
        on_side(from, side),
        number(0).at_most(to),
        to.at_most(side),
        smooths(from, to, smoothed),
    ensures
        on_side(smoothed, side),
{
    reveal(smooths);
    let (factor, way, part) = choose|factor: Scalar, way: Scalar, part: Scalar| #[trigger]
        smooths_by(from, to, factor, way, part, smoothed);
    let n = to.scaled() - from.scaled();
    let sum = from.scaled() + part.scaled();
    let (k, e) = lemma_next(side);
    let u = pow2(e) as int;
    let zero = number(0);
    lemma_zero(zero);
    lemma_pow2_pos(e);
    law_rank_orders_numbers(zero, from);
    law_rank_orders_numbers(from, side.next());
    law_rank_orders_numbers(zero, to);
    law_rank_orders_numbers(to, side);
    lemma_part_of_smoothing(from, to, factor, way, part, smoothed);
    if from.scaled() <= to.scaled() {
        assert(k * u + u == (k + 1) * u && k * u <= 0x100_0000 * u) by (nonlinear_arith)
            requires
                0 <= k < 0x100_0000,
                u > 0,
        ;
        law_rounding_is_fine(way, n, 1, e);
        assert(0 <= sum <= side.next().scaled());
    } else {
        let minus = lemma_negative(from);
        law_rounding_passes_no_number(way, n, 1, minus);
        assert(0 <= sum <= side.next().scaled());
    }
    law_rounding_passes_no_number(smoothed, sum, 1, zero);
    law_rounding_passes_no_number(smoothed, sum, 1, side.next());
}

/// A pixel on the screen is one of its pixels: on a side of `n` pixels, the whole part
/// of a number on it is from 0 to `n`.
pub proof fn law_pixel_is_on_screen(x: Scalar, side: Scalar, n: int)
    requires
        0 <= n < 0x80_0000,
        screen_side(side),
        side.scaled() == n * pow2(149),
        on_side(x, side),
    ensures
        0 <= x.whole() <= n,
{
    let den = pow2(149) as int;
    lemma_pow2_pos(149);
    let (k, e) = lemma_next(side);
    let u = pow2(e) as int;
    lemma_pow2_pos(e);
    lemma_zero(number(0));
    law_rank_orders_numbers(number(0), x);
    law_rank_orders_numbers(x, side.next());
    assert(u < den) by {
        if e == 0 {
            lemma2_to64();
            lemma_pow2_strictly_increases(0, 149);
        } else {
            assert(u < den) by (nonlinear_arith)
                requires
                    k * u == n * den,
                    k >= 0x80_0000,
                    0 <= n < 0x80_0000,
                    u > 0,
                    den > 0,
            ;
        }
    }
    assert((k + 1) * u == k * u + u) by (nonlinear_arith);
    assert((n + 1) * den == n * den + den) by (nonlinear_arith);
    let v = x.scaled();
    assert(0 <= v / den <= n) by (nonlinear_arith)
        requires
            0 <= v < (n + 1) * den,
            den > 0,
    ;
}

/// A position on the screen is its own share; one beyond an end is cut off at that end.
pub proof fn law_share_keeps_the_screen(position: Scalar)
    ensures
        number(0).at_most(position) && position.at_most(number(ONE_BITS)) ==> share_of(position)
            == position,
        position.below(number(0)) ==> share_of(position).rank() == 0,
        number(ONE_BITS).below(position) ==> share_of(position) == number(ONE_BITS),
        position.is_nan() ==> share_of(position) == position,
{
}

} // verus!
