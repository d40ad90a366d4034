//! How the anchor of a swipe follows a hand that is not swiping: the travel that has
//! built up decays, whatever rounding does.
use vstd::arithmetic::power::{lemma_pow_positive, pow};
use vstd::arithmetic::power2::{lemma2_to64, lemma_pow2_adds, lemma_pow2_pos, pow2};
use vstd::prelude::*;

use crate::hand::Point;
use crate::palm::{swipe_outcome, PalmMotion, PalmState, SwipeOutcome};
use crate::scalar::{
    distance, law_rank_orders_numbers, law_rounding_is_fine, law_rounding_passes_no_number,
    lemma_multiple_is_a_number, lemma_nearest, lemma_negative, lemma_number_below,
    lemma_unsigned, lemma_zero, scaled_magnitude, Scalar,
};
use crate::settings::{number, SWIPE_DIST, SWIPE_REANCHOR, SWIPE_VEL};

verus! {

/// Whether `eased` is what moving an anchor by `SWIPE_REANCHOR` of its way to the hand
/// gives along one axis: `way` is what the difference rounds to, `part` what the
/// share of it rounds to, and `eased` what the sum rounds to.
pub open spec fn eases_by(
    anchor: Scalar,
    pos: Scalar,
    way: Scalar,
    part: Scalar,
    eased: Scalar,
) -> bool {
    &&& way.rounds(pos.scaled() - anchor.scaled(), 1)
    &&& part.is_product(number(SWIPE_REANCHOR), way)
    &&& eased.rounds(anchor.scaled() + part.scaled(), 1)
}

/// Whether moving an anchor by `SWIPE_REANCHOR` of its way to the hand gives this.
#[verifier::opaque]
pub open spec fn eases(anchor: Scalar, pos: Scalar, eased: Scalar) -> bool {
    exists|way: Scalar, part: Scalar| #[trigger] eases_by(anchor, pos, way, part, eased)
}

/// Whether a number lies between two others, in either order.
pub open spec fn between(a: Scalar, x: Scalar, b: Scalar) -> bool {
    (a.at_most(x) && x.at_most(b)) || (b.at_most(x) && x.at_most(a))
}

/// How far an anchor is behind the hand, with its sign.
pub open spec fn lag(anchor: Scalar, pos: Scalar) -> int {
    pos.scaled() - anchor.scaled()
}

/// Whether a number is at most two to the power of 23 times a power of two, in size.
/// The power of two is then no finer than the spacing of such numbers.
pub open spec fn within(x: Scalar, e: nat) -> bool {
    x.is_finite() && distance(x.scaled(), 0) <= 0x80_0000 * pow2(e)
}

proof fn lemma_share(unit: int)
    requires
        unit == pow2(121),
    ensures
        unit > 0,
        number(SWIPE_REANCHOR).scaled() == 0xcc_cccd * unit,
        pow2(149) == 0x1000_0000 * unit,
        0 < 7 * number(SWIPE_REANCHOR).scaled() <= pow2(149),
{
    lemma2_to64();
    lemma_pow2_adds(28, 121);
    lemma_pow2_pos(121);
    reveal(scaled_magnitude);
    assert(number(SWIPE_REANCHOR).scaled() == 0xcc_cccd * unit);
    assert(0 < 7 * (0xcc_cccd * unit) <= 0x1000_0000 * unit) by (nonlinear_arith)
        requires
            unit > 0,
    ;
}

#[verifier::spinoff_prover]
proof fn lemma_part_of_way_ahead(anchor: Scalar, pos: Scalar, way: Scalar, part: Scalar)
    requires
        anchor.is_finite(),
        pos.is_finite(),
        anchor.scaled() < pos.scaled(),
        way.rounds(lag(anchor, pos), 1),
        part.is_product(number(SWIPE_REANCHOR), way),
    ensures
        0 <= part.scaled() <= lag(anchor, pos),
{
    let n = lag(anchor, pos);
    let share = number(SWIPE_REANCHOR).scaled();
    let den = pow2(149) as int;
    let w = way.scaled();
    let zero = number(0);
    let q = lemma_number_below(anchor, pos);
    let size = q.scaled();
    lemma_share(pow2(121) as int);
    lemma_zero(zero);
    law_rounding_passes_no_number(way, n, 1, zero);
    lemma_nearest(way, n, 1, q);
    assert(w <= 7 * size);
    assert(0 <= share * w <= size * den) by (nonlinear_arith)
        requires
            0 <= w <= 7 * size,
            0 < 7 * share <= den,
    ;
    law_rounding_passes_no_number(part, share * w, den, zero);
    law_rounding_passes_no_number(part, share * w, den, q);
}

#[verifier::spinoff_prover]
proof fn lemma_part_of_way_back(anchor: Scalar, pos: Scalar, way: Scalar, part: Scalar)
    requires
        anchor.is_finite(),
        pos.is_finite(),
        pos.scaled() < anchor.scaled(),
        way.rounds(lag(anchor, pos), 1),
        part.is_product(number(SWIPE_REANCHOR), way),
    ensures
        lag(anchor, pos) <= part.scaled() <= 0,
{
    let n = lag(anchor, pos);
    let share = number(SWIPE_REANCHOR).scaled();
    let den = pow2(149) as int;
    let w = way.scaled();
    let zero = number(0);
    let q = lemma_number_below(pos, anchor);
    let size = q.scaled();
    let minus = lemma_negative(q);
    let least = minus.scaled();
    lemma_share(pow2(121) as int);
    lemma_zero(zero);
    law_rounding_passes_no_number(way, n, 1, zero);
    lemma_nearest(way, n, 1, minus);
    assert(-7 * size <= w);
    assert(least * den <= share * w <= 0) by (nonlinear_arith)
        requires
            least == -size,
            -7 * size <= w <= 0,
            0 < 7 * share <= den,
    ;
    law_rounding_passes_no_number(part, share * w, den, zero);
    law_rounding_passes_no_number(part, share * w, den, minus);
}

proof fn lemma_part_is_shorter(anchor: Scalar, pos: Scalar, way: Scalar, part: Scalar)
    requires
        anchor.is_finite(),
        pos.is_finite(),
        way.rounds(lag(anchor, pos), 1),
        part.is_product(number(SWIPE_REANCHOR), way),
    ensures
        0 <= lag(anchor, pos) ==> 0 <= part.scaled() <= lag(anchor, pos),
        lag(anchor, pos) <= 0 ==> lag(anchor, pos) <= part.scaled() <= 0,
{
    if anchor.scaled() < pos.scaled() {
        lemma_part_of_way_ahead(anchor, pos, way, part);
    } else if pos.scaled() < anchor.scaled() {
        lemma_part_of_way_back(anchor, pos, way, part);
    } else {
        let zero = number(0);
        let share = number(SWIPE_REANCHOR).scaled();
        let w = way.scaled();
        lemma_pow2_pos(149);
        lemma_zero(zero);
        lemma_nearest(way, 0, 1, zero);
        assert(share * w == 0) by (nonlinear_arith)
            requires
                w == 0,
        ;
        law_rounding_passes_no_number(part, share * w, pow2(149) as int, zero);
    }
}

/// An anchor that follows the hand neither recedes from it nor passes it, whatever
/// rounding does.
pub proof fn law_anchor_eases_toward_hand(anchor: Scalar, pos: Scalar, eased: Scalar)
    requires
        anchor.is_finite(),
        pos.is_finite(),
        eases(anchor, pos, eased),
    ensures
        eased.is_finite(),
        between(anchor, eased, pos),
{
    reveal(eases);
    let (way, part) = choose|way: Scalar, part: Scalar| #[trigger]
        eases_by(anchor, pos, way, part, eased);
    let sum = anchor.scaled() + part.scaled();
    lemma_part_is_shorter(anchor, pos, way, part);
    lemma_nearest(eased, sum, 1, pos);
    law_rounding_passes_no_number(eased, sum, 1, anchor);
    law_rounding_passes_no_number(eased, sum, 1, pos);
}

/// Stale travel never grows: however many frames an anchor follows a hand that stays
/// in place, it remains between where it was and the hand.
pub proof fn law_stale_travel_never_grows(pos: Scalar, anchors: Seq<Scalar>, i: int, k: int)
    requires
        pos.is_finite(),
        0 <= i <= k < anchors.len(),
        anchors[i].is_finite(),
        forall|m: int| i <= m < k ==> eases(#[trigger] anchors[m], pos, anchors[m + 1]),
    ensures
        anchors[k].is_finite(),
        between(anchors[i], anchors[k], pos),
    decreases k,
{
    if i < k {
        law_stale_travel_never_grows(pos, anchors, i, k - 1);
        assert(eases(anchors[k - 1], pos, anchors[k]));
        law_anchor_eases_toward_hand(anchors[k - 1], pos, anchors[k]);
        lemma_between(anchors[i], anchors[k - 1], pos);
        lemma_between(anchors[k - 1], anchors[k], pos);
        lemma_between(anchors[i], anchors[k], pos);
    } else {
        lemma_between(anchors[i], anchors[i], pos);
    }
}

proof fn lemma_between(a: Scalar, x: Scalar, b: Scalar)
    requires
        a.is_finite(),
        x.is_finite(),
        b.is_finite(),
    ensures
        between(a, x, b) <==> a.scaled() <= x.scaled() <= b.scaled() || b.scaled() <= x.scaled()
            <= a.scaled(),
{
    law_rank_orders_numbers(a, x);
    law_rank_orders_numbers(x, b);
    law_rank_orders_numbers(b, x);
    law_rank_orders_numbers(x, a);
}

/// A frame leaves 95 hundredths of the way: an anchor that follows the hand is behind
/// it afterwards by that share of what it was behind before, up to rounding. `e` tells
/// how fine rounding is for numbers as large as these.
#[verifier::spinoff_prover]
pub proof fn law_frame_leaves_its_share(anchor: Scalar, pos: Scalar, eased: Scalar, e: nat)
    requires
        e <= 252,
        within(anchor, e),
        within(pos, e),
        eases(anchor, pos, eased),
    ensures
        distance(100 * lag(eased, pos), 95 * lag(anchor, pos)) <= 210 * pow2(e),
{
    reveal(eases);
    let (way, part) = choose|way: Scalar, part: Scalar| #[trigger]
        eases_by(anchor, pos, way, part, eased);
    let u = pow2(e) as int;
    let c = pow2(121) as int;
    let den = pow2(149) as int;
    let share = number(SWIPE_REANCHOR).scaled();
    let n = lag(anchor, pos);
    let w = way.scaled();
    let p = part.scaled();
    let sum = anchor.scaled() + p;
    lemma_pow2_pos(e);
    lemma_pow2_pos(149);
    lemma_share(c);
    lemma_part_is_shorter(anchor, pos, way, part);
    law_rounding_is_fine(way, n, 1, e);
    assert(-(7 * (0x100_0000 * u)) <= w <= 7 * (0x100_0000 * u));
    assert(-((0x100_0000 * u) * den) <= share * w <= (0x100_0000 * u) * den) by (nonlinear_arith)
        requires
            -(7 * (0x100_0000 * u)) <= w <= 7 * (0x100_0000 * u),
            0 < 7 * share <= den,
            u > 0,
    ;
    law_rounding_is_fine(part, share * w, den, e);
    assert(-(u * den) < p * den - share * w < u * den);
    lemma_cancel(p, w, u, c);
    law_rounding_is_fine(eased, sum, 1, e);
    lemma_error_of_a_frame(n, w, p, eased.scaled() - anchor.scaled(), u);
}

proof fn lemma_cancel(p: int, w: int, u: int, c: int)
    by (nonlinear_arith)
    requires
        c > 0,
        -(u * (0x1000_0000 * c)) < p * (0x1000_0000 * c) - (0xcc_cccd * c) * w < u * (0x1000_0000
            * c),
    ensures
        -(0x1000_0000 * u) < 0x1000_0000 * p - 0xcc_cccd * w < 0x1000_0000 * u,
{
    let x = 0x1000_0000 * p - 0xcc_cccd * w;
    assert(p * (0x1000_0000 * c) - (0xcc_cccd * c) * w == x * c);
    assert(u * (0x1000_0000 * c) == (0x1000_0000 * u) * c);
}

/// `n` is the way, `w` what it rounds to, `p` the part of it, and `moved` how far the
/// anchor went.
proof fn lemma_error_of_a_frame(n: int, w: int, p: int, moved: int, u: int)
    requires
        u > 0,
        -(0x100_0000 * u) <= n <= 0x100_0000 * u,
        -u < w - n < u,
        -(0x1000_0000 * u) < 0x1000_0000 * p - 0xcc_cccd * w < 0x1000_0000 * u,
        -u < moved - p < u,
    ensures
        -(210 * u) <= 100 * (n - moved) - 95 * n <= 210 * u,
{
}

/// Travel decays: after `k` frames in which an anchor follows a hand that stays in
/// place, it is behind by 95 hundredths, to the power of `k`, of what it was behind at
/// first, up to rounding, which adds up to at most 42 times that power of two.
pub proof fn law_travel_decays(pos: Scalar, anchors: Seq<Scalar>, k: int, e: nat)
    requires
        e <= 252,
        0 <= k < anchors.len(),
        within(anchors[0], e),
        within(pos, e),
        forall|m: int| 0 <= m < k ==> eases(#[trigger] anchors[m], pos, anchors[m + 1]),
    ensures
        within(anchors[k], e),
        distance(
            lag(anchors[k], pos) * pow(100, k as nat),
            lag(anchors[0], pos) * pow(95, k as nat),
        ) <= (42 * pow2(e)) * pow(100, k as nat),
    decreases k,
{
    lemma_pow2_pos(e);
    reveal(pow);
    if k > 0 {
        law_travel_decays(pos, anchors, k - 1, e);
        let a = anchors[k - 1];
        let b = anchors[k];
        assert(eases(a, pos, b));
        law_anchor_eases_toward_hand(a, pos, b);
        lemma_between(a, b, pos);
        law_frame_leaves_its_share(a, pos, b, e);
        let j = (k - 1) as nat;
        let h = pow(100, j);
        let g = pow(95, j);
        let u = pow2(e) as int;
        let first = lag(anchors[0], pos);
        lemma_pow_positive(100, j);
        assert(pow(100, k as nat) == 100 * h);
        assert(pow(95, k as nat) == 95 * g);
        lemma_decay_step(first, lag(a, pos), lag(b, pos), h, g, u);
    } else {
        assert(pow(100, 0) == 1 && pow(95, 0) == 1);
    }
}

proof fn lemma_decay_step(first: int, before: int, after: int, h: int, g: int, u: int)
    by (nonlinear_arith)
    requires
        h > 0,
        u > 0,
        distance(before * h, first * g) <= (42 * u) * h,
        distance(100 * after, 95 * before) <= 210 * u,
    ensures
        distance(after * (100 * h), first * (95 * g)) <= (42 * u) * (100 * h),
{
    assert(distance((100 * after) * h, (95 * before) * h) <= (210 * u) * h);
    assert(after * (100 * h) == (100 * after) * h);
    assert((95 * before) * h == 95 * (before * h));
    assert(first * (95 * g) == 95 * (first * g));
}

/// How many frames a hand must stay in place for all travel in the view to be stale.
pub open spec fn frames_to_forget() -> nat {
    50
}

#[verifier::spinoff_prover]
proof fn lemma_fifty_frames(first: int, after: int, u: int)
    requires
        u > 0,
        distance(first, 0) <= 0x100_0000 * u,
        distance(after * pow(100, 50), first * pow(95, 50)) <= (42 * u) * pow(100, 50),
    ensures
        distance(after, 0) <= 1_400_000 * u,
{
    let h = pow(100, 50);
    let g = pow(95, 50);
    assert(0 < g && 0 < h && 100 * g <= 8 * h) by {
        lemma_pow_positive(100, 50);
        lemma_pow_positive(95, 50);
        reveal(pow);
        reveal_with_fuel(pow, 51);
    }
    assert(distance(first * g, 0) <= (0x100_0000 * u) * g) by (nonlinear_arith)
        requires
            g > 0,
            distance(first, 0) <= 0x100_0000 * u,
    ;
    assert(100 * ((0x100_0000 * u) * g) <= (8 * (0x100_0000 * u)) * h) by (nonlinear_arith)
        requires
            100 * g <= 8 * h,
            u > 0,
    ;
    assert(100 * distance(after * h, 0) <= (140_000_000 * u) * h) by (nonlinear_arith)
        requires
            100 * distance(after * h, 0) <= (8 * (0x100_0000 * u)) * h + 100 * ((42 * u) * h),
            u > 0,
            h > 0,
    ;
    assert(distance(after, 0) <= 1_400_000 * u) by (nonlinear_arith)
        requires
            100 * distance(after * h, 0) <= (140_000_000 * u) * h,
            h > 0,
    ;
}

/// Stale travel cannot fire later: wherever in the view hand and anchor were, once the
/// anchor has followed a hand that stays in place for `frames_to_forget` frames, the
/// way between them measures less than a swipe takes, and no speed makes a switch of
/// it.
pub proof fn law_stale_travel_cannot_fire(
    pos: Scalar,
    anchors: Seq<Scalar>,
    k: int,
    dx: Scalar,
    vx: Scalar,
    lead_y: Scalar,
    eased: Point,
)
    requires
        frames_to_forget() <= k < anchors.len(),
        within(anchors[0], 126),
        within(pos, 126),
        forall|m: int| 0 <= m < k ==> eases(#[trigger] anchors[m], pos, anchors[m + 1]),
        dx.rounds(lag(anchors[k], pos), 1),
    ensures
        dx.unsigned().below(number(SWIPE_DIST)),
        !(swipe_outcome(vx, lead_y, dx, eased) is Fire),
{
    let u = pow2(126) as int;
    lemma_pow2_pos(126);
    law_travel_decays(pos, anchors, 50, 126);
    lemma_fifty_frames(lag(anchors[0], pos), lag(anchors[50], pos), u);
    law_stale_travel_never_grows(pos, anchors, 50, k);
    let a = anchors[50];
    let b = anchors[k];
    lemma_between(a, b, pos);
    assert(distance(lag(b, pos), 0) <= 1_400_000 * u);
    let most = lemma_multiple_is_a_number(1_400_000, 126);
    let least = lemma_negative(most);
    law_rounding_passes_no_number(dx, lag(b, pos), 1, most);
    law_rounding_passes_no_number(dx, lag(b, pos), 1, least);
    lemma_nearest(dx, lag(b, pos), 1, most);
    let size = dx.unsigned();
    lemma_unsigned(dx);
    law_rank_orders_numbers(size, number(SWIPE_DIST));
    assert(number(SWIPE_DIST).scaled() > 1_400_000 * u) by {
        lemma2_to64();
        lemma_pow2_adds(3, 123);
        lemma_pow2_pos(123);
        reveal(scaled_magnitude);
        assert(number(SWIPE_DIST).scaled() == 0xb8_51ec * pow2(123));
    }
}

/// A hand that is not swiping: however many frames it stays slow and in place, each
/// of them only moves the anchor to where easing takes it, none switches the
/// workspace, and the travel decays along both axes.
pub proof fn law_slow_hand_forgets_its_travel(
    s: PalmState,
    pos: Point,
    motions: Seq<PalmMotion>,
    anchors: Seq<Point>,
    k: int,
    now: u64,
    e: nat,
)
    requires
        e <= 252,
        0 <= k < anchors.len(),
        k <= motions.len(),
        within(anchors[0].x, e) && within(anchors[0].y, e),
        within(pos.x, e) && within(pos.y, e),
        forall|m: int| #![trigger motions[m]]
            0 <= m < k ==> {
                &&& motions[m].vx.unsigned().at_most(number(SWIPE_VEL))
                &&& motions[m].eased == anchors[m + 1]
                &&& eases(anchors[m].x, pos.x, anchors[m + 1].x)
                &&& eases(anchors[m].y, pos.y, anchors[m + 1].y)
            },
    ensures
        forall|m: int| #![trigger motions[m]]
            0 <= m < k ==> {
                let before = s.anchored(Some(anchors[m]));
                &&& before.outcome(motions[m]) == Some(SwipeOutcome::Reanchor(anchors[m + 1]))
                &&& before.switch_due(motions[m], now) is None
                &&& before.followed(motions[m], pos) == s.anchored(Some(anchors[m + 1]))
            },
        distance(
            lag(anchors[k].x, pos.x) * pow(100, k as nat),
            lag(anchors[0].x, pos.x) * pow(95, k as nat),
        ) <= (42 * pow2(e)) * pow(100, k as nat),
        distance(
            lag(anchors[k].y, pos.y) * pow(100, k as nat),
            lag(anchors[0].y, pos.y) * pow(95, k as nat),
        ) <= (42 * pow2(e)) * pow(100, k as nat),
{
    let xs = Seq::new(anchors.len(), |i: int| anchors[i].x);
    let ys = Seq::new(anchors.len(), |i: int| anchors[i].y);
    assert forall|m: int| 0 <= m < k implies eases(#[trigger] xs[m], pos.x, xs[m + 1]) by {
        assert(motions[m].eased == anchors[m + 1]);
    }
    assert forall|m: int| 0 <= m < k implies eases(#[trigger] ys[m], pos.y, ys[m + 1]) by {
        assert(motions[m].eased == anchors[m + 1]);
    }
    law_travel_decays(pos.x, xs, k, e);
    law_travel_decays(pos.y, ys, k, e);
}

} // verus!
