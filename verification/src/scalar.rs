//! Measured numbers.
//!
//! A `Scalar` is a single-precision number held by its IEEE 754 bit pattern.
//! The controller compares measurements with each other and with thresholds;
//! comparing needs no rounding, so it is done here, exactly, on the patterns.
use vstd::arithmetic::power2::{
    lemma2_to64, lemma_pow2_adds, lemma_pow2_pos, lemma_pow2_strictly_increases, lemma_pow2_unfold, pow2,
};
use vstd::prelude::*;

verus! {

/// A single-precision number, by its bit pattern.
#[derive(Clone, Copy, Debug, PartialEq, Eq, Structural)]
pub struct Scalar {
    pub bits: u32,
}

/// The sign bit of a pattern.
pub const SIGN_BIT: u32 = 0x8000_0000;

/// The pattern of positive infinity; a larger magnitude is not a number.
pub const INFINITY_BITS: u32 = 0x7f80_0000;

/// The largest finite number.
pub const LARGEST_BITS: u32 = 0x7f7f_ffff;

/// The most negative finite number.
pub const LOWEST_BITS: u32 = 0xff7f_ffff;

impl Scalar {
    /// The pattern without its sign bit.
    pub open spec fn magnitude(self) -> int {
        if self.bits < SIGN_BIT {
            self.bits as int
        } else {
            self.bits - SIGN_BIT
        }
    }

    /// Whether the pattern stands for no number at all.
    pub open spec fn is_nan(self) -> bool {
        self.magnitude() > INFINITY_BITS
    }

    /// Whether the pattern stands for a number other than an infinity.
    pub open spec fn is_finite(self) -> bool {
        self.magnitude() < INFINITY_BITS
    }

    /// Position of the number among all numbers: both zeros have rank 0.
    pub open spec fn rank(self) -> int {
        if self.bits < SIGN_BIT {
            self.bits as int
        } else {
            SIGN_BIT - self.bits
        }
    }

    /// `self < other`; false as soon as one of them is not a number.
    pub open spec fn below(self, other: Scalar) -> bool {
        !self.is_nan() && !other.is_nan() && self.rank() < other.rank()
    }

    /// `self <= other`; false as soon as one of them is not a number.
    pub open spec fn at_most(self, other: Scalar) -> bool {
        !self.is_nan() && !other.is_nan() && self.rank() <= other.rank()
    }

    /// The number without its sign.
    pub open spec fn unsigned(self) -> Scalar {
        Scalar { bits: self.magnitude() as u32 }
    }

    /// The smaller of two numbers; what is not a number gives way to the other.
    pub open spec fn smaller(self, other: Scalar) -> Scalar {
        if self.is_nan() || other.below(self) {
            other
        } else {
            self
        }
    }

    /// The larger of two numbers; what is not a number gives way to the other.
    pub open spec fn larger(self, other: Scalar) -> Scalar {
        if self.is_nan() || self.below(other) {
            other
        } else {
            self
        }
    }

    /// The number itself, in units of two to the power of minus 149, which is
    /// the spacing of the smallest numbers of the format.
    pub open spec fn scaled(self) -> int {
        if self.bits < SIGN_BIT {
            scaled_magnitude(self.magnitude())
        } else {
            -scaled_magnitude(self.magnitude())
        }
    }

    /// Whether the number is positive and among the closest of its exponent to
    /// `num / den`.
    pub open spec fn is_nearest(self, num: int, den: int) -> bool {
        let exponent = self.magnitude() / 0x80_0000;
        let significand = 0x80_0000 + self.magnitude() % 0x80_0000;
        &&& self.bits < SIGN_BIT
        &&& 0 < exponent <= 150
        &&& -den <= 2 * (den * significand - num * pow2((150 - exponent) as nat)) <= den
    }

    /// Whether this is a finite number closest to `num / den`, in units of two to the
    /// power of minus 149: what rounding makes of it.
    #[verifier::opaque]
    pub open spec fn rounds(self, num: int, den: int) -> bool {
        &&& self.is_finite()
        &&& forall|other: Scalar| #[trigger]
            other.is_finite() ==> distance(self.scaled() * den, num) <= distance(
                other.scaled() * den,
                num,
            )
    }

    /// Whether this is what the product of two finite numbers rounds to.
    pub open spec fn is_product(self, a: Scalar, b: Scalar) -> bool {
        self.rounds(a.scaled() * b.scaled(), pow2(149) as int)
    }

    /// The next larger number, for one that is not negative.
    pub open spec fn next(self) -> Scalar {
        Scalar { bits: (self.bits + 1) as u32 }
    }

    /// The whole part of a number that is not negative.
    pub open spec fn whole(self) -> int {
        self.scaled() / pow2(149) as int
    }

    /// Zero.
    pub fn zero() -> (zero: Scalar)
        ensures
            zero.bits == 0,
    {
        Scalar { bits: 0 }
    }

    /// Whether this is not a number.
    pub fn not_a_number(&self) -> (result: bool)
        ensures
            result == self.is_nan(),
    {
        if self.bits < SIGN_BIT {
            self.bits > INFINITY_BITS
        } else {
            self.bits - SIGN_BIT > INFINITY_BITS
        }
    }

    /// Whether `self < other`.
    pub fn lt(&self, other: Scalar) -> (result: bool)
        ensures
            result == self.below(other),
    {
        if self.not_a_number() || other.not_a_number() {
            return false;
        }
        if self.bits < SIGN_BIT {
            other.bits < SIGN_BIT && self.bits < other.bits
        } else if other.bits < SIGN_BIT {
            self.bits != SIGN_BIT || other.bits != 0
        } else {
            self.bits > other.bits
        }
    }

    /// Whether `self <= other`.
    pub fn le(&self, other: Scalar) -> (result: bool)
        ensures
            result == self.at_most(other),
    {
        if self.not_a_number() || other.not_a_number() {
            return false;
        }
        !other.lt(*self)
    }

    /// The number without its sign.
    pub fn abs(&self) -> (result: Scalar)
        ensures
            result == self.unsigned(),
    {
        if self.bits < SIGN_BIT {
            *self
        } else {
            Scalar { bits: self.bits - SIGN_BIT }
        }
    }

    /// The smaller of two numbers.
    pub fn min(&self, other: Scalar) -> (result: Scalar)
        ensures
            result == self.smaller(other),
    {
        if self.not_a_number() || other.lt(*self) {
            other
        } else {
            *self
        }
    }

    /// The larger of two numbers.
    pub fn max(&self, other: Scalar) -> (result: Scalar)
        ensures
            result == self.larger(other),
    {
        if self.not_a_number() || self.lt(other) {
            other
        } else {
            *self
        }
    }
}

/// How far two integers are apart.
pub open spec fn distance(a: int, b: int) -> int {
    if a < b {
        b - a
    } else {
        a - b
    }
}

/// The size of the number with this unsigned pattern, in units of two to the
/// power of minus 149.
#[verifier::opaque]
pub open spec fn scaled_magnitude(magnitude: int) -> int {
    let exponent = magnitude / 0x80_0000;
    let fraction = magnitude % 0x80_0000;
    if exponent <= 0 {
        fraction
    } else {
        (0x80_0000 + fraction) * pow2((exponent - 1) as nat)
    }
}

proof fn lemma_magnitude_increases(a: int, b: int)
    requires
        0 <= a < b < INFINITY_BITS,
    ensures
        0 <= scaled_magnitude(a) < scaled_magnitude(b),
{
    reveal(scaled_magnitude);
    let ea = a / 0x80_0000;
    let eb = b / 0x80_0000;
    let fa = a % 0x80_0000;
    let fb = b % 0x80_0000;
    assert(ea <= eb);
    if eb > 0 {
        let pb = pow2((eb - 1) as nat) as int;
        lemma_pow2_pos((eb - 1) as nat);
        if ea == eb {
            assert(0 <= (0x80_0000 + fa) * pb < (0x80_0000 + fb) * pb) by (nonlinear_arith)
                requires
                    0 <= fa < fb,
                    pb > 0,
            ;
        } else {
            assert((0x80_0000 + fb) * pb >= 0x80_0000 * pb) by (nonlinear_arith)
                requires
                    0 <= fb,
                    pb > 0,
            ;
            if ea > 0 {
                let pa = pow2((ea - 1) as nat) as int;
                lemma_pow2_pos((ea - 1) as nat);
                lemma_pow2_unfold(ea as nat);
                if ea < eb - 1 {
                    lemma_pow2_strictly_increases(ea as nat, (eb - 1) as nat);
                }
                assert(2 * pa <= pb);
                assert(0 <= (0x80_0000 + fa) * pa < 0x100_0000 * pa) by (nonlinear_arith)
                    requires
                        0 <= fa < 0x80_0000,
                        pa > 0,
                ;
            }
        }
    }
}

/// Comparing ranks compares the numbers: of two finite numbers, the one with the
/// lower rank is the smaller one, and equal ranks are equal numbers.
pub proof fn law_rank_orders_numbers(a: Scalar, b: Scalar)
    requires
        a.is_finite(),
        b.is_finite(),
    ensures
        a.below(b) <==> a.scaled() < b.scaled(),
        a.at_most(b) <==> a.scaled() <= b.scaled(),
        a.rank() == b.rank() <==> a.scaled() == b.scaled(),
{
    let ma = a.magnitude();
    let mb = b.magnitude();
    if ma < mb {
        lemma_magnitude_increases(ma, mb);
    } else if mb < ma {
        lemma_magnitude_increases(mb, ma);
    }
    if ma > 0 {
        lemma_magnitude_increases(0, ma);
    }
    if mb > 0 {
        lemma_magnitude_increases(0, mb);
    }
    assert(scaled_magnitude(0) == 0) by {
        reveal(scaled_magnitude);
    }
}

/// What rounding gives is a finite number, and none is closer.
pub(crate) proof fn lemma_nearest(x: Scalar, num: int, den: int, y: Scalar)
    requires
        x.rounds(num, den),
    ensures
        x.is_finite(),
        y.is_finite() ==> distance(x.scaled() * den, num) <= distance(y.scaled() * den, num),
{
    reveal(Scalar::rounds);
}

/// A number without its sign is as large as it was.
pub(crate) proof fn lemma_unsigned(x: Scalar)
    requires
        x.is_finite(),
    ensures
        x.unsigned().is_finite(),
        x.unsigned().scaled() == distance(x.scaled(), 0),
{
    assert(scaled_magnitude(0) == 0) by {
        reveal(scaled_magnitude);
    }
    if x.magnitude() > 0 {
        lemma_magnitude_increases(0, x.magnitude());
    }
}

/// Both zeros are zero.
pub(crate) proof fn lemma_zero(x: Scalar)
    requires
        x.rank() == 0,
    ensures
        x.is_finite(),
        x.scaled() == 0,
{
    reveal(scaled_magnitude);
}

/// Rounding passes no number: what lies at or above a number rounds to nothing
/// smaller, and what lies at or below it rounds to nothing larger.
pub proof fn law_rounding_passes_no_number(x: Scalar, num: int, den: int, y: Scalar)
    requires
        den > 0,
        x.rounds(num, den),
        y.is_finite(),
    ensures
        y.scaled() * den <= num ==> y.at_most(x) && y.scaled() <= x.scaled(),
        num <= y.scaled() * den ==> x.at_most(y) && x.scaled() <= y.scaled(),
{
    let a = x.scaled();
    let b = y.scaled();
    lemma_nearest(x, num, den, y);
    law_rank_orders_numbers(x, y);
    law_rank_orders_numbers(y, x);
    assert(distance(a * den, num) <= distance(b * den, num));
    if a < b {
        assert(a * den < b * den) by (nonlinear_arith)
            requires
                a < b,
                den > 0,
        ;
    } else if b < a {
        assert(b * den < a * den) by (nonlinear_arith)
            requires
                b < a,
                den > 0,
        ;
    }
}

/// Rounding keeps order: of two quotients, the larger one rounds to nothing smaller.
pub proof fn law_rounding_keeps_order(x: Scalar, n: int, y: Scalar, m: int, den: int)
    requires
        den > 0,
        n < m,
        x.rounds(n, den),
        y.rounds(m, den),
    ensures
        x.at_most(y),
{
    let a = x.scaled();
    let b = y.scaled();
    lemma_nearest(x, n, den, y);
    lemma_nearest(y, m, den, x);
    law_rank_orders_numbers(x, y);
    if b < a {
        assert(b * den < a * den) by (nonlinear_arith)
            requires
                b < a,
                den > 0,
        ;
    }
}

proof fn lemma_power_below(n: int) -> (k: nat)
    requires
        n > 0,
    ensures
        pow2(k) <= n < pow2(k + 1),
    decreases n,
{
    if n == 1 {
        lemma2_to64();
        0
    } else {
        let k = lemma_power_below(n / 2);
        lemma_pow2_unfold(k + 1);
        lemma_pow2_unfold(k + 2);
        k + 1
    }
}

proof fn lemma_power_is_a_number(k: nat) -> (q: Scalar)
    requires
        k <= 276,
    ensures
        q.is_finite(),
        q.scaled() == pow2(k),
{
    reveal(scaled_magnitude);
    lemma2_to64();
    if k < 23 {
        if k < 22 {
            lemma_pow2_strictly_increases(k, 22);
        }
        Scalar { bits: pow2(k) as u32 }
    } else {
        let q = Scalar { bits: ((k - 22) * 0x80_0000) as u32 };
        assert(q.magnitude() / 0x80_0000 == k - 22);
        assert(q.magnitude() % 0x80_0000 == 0);
        lemma_pow2_adds(23, (k - 23) as nat);
        assert(q.scaled() == 0x80_0000 * pow2((k - 23) as nat));
        q
    }
}

/// Below every positive difference of two finite numbers lies a finite number of at
/// least a quarter of its size.
pub(crate) proof fn lemma_number_below(a: Scalar, b: Scalar) -> (q: Scalar)
    requires
        a.is_finite(),
        b.is_finite(),
        a.scaled() < b.scaled(),
    ensures
        q.is_finite(),
        0 < q.scaled() <= b.scaled() - a.scaled() < 4 * q.scaled(),
{
    let n = b.scaled() - a.scaled();
    let k = lemma_power_below(n);
    if k <= 276 {
        lemma_pow2_pos(k);
        lemma_pow2_unfold(k + 1);
        lemma_power_is_a_number(k)
    } else {
        let largest = Scalar { bits: LARGEST_BITS };
        let lowest = Scalar { bits: LOWEST_BITS };
        law_rank_orders_numbers(b, largest);
        law_rank_orders_numbers(lowest, a);
        lemma2_to64();
        lemma_pow2_adds(24, 253);
        lemma_pow2_pos(253);
        lemma_pow2_pos(276);
        lemma_pow2_unfold(277);
        reveal(scaled_magnitude);
        assert(largest.scaled() == 0xff_ffff * pow2(253));
        assert(lowest.scaled() == -(0xff_ffff * pow2(253)));
        lemma_pow2_strictly_increases(276, k);
        lemma_power_is_a_number(276)
    }
}

/// The negative of a number is a number.
pub(crate) proof fn lemma_negative(x: Scalar) -> (minus: Scalar)
    requires
        x.is_finite(),
    ensures
        minus.is_finite(),
        minus.scaled() == -x.scaled(),
{
    if x.bits < SIGN_BIT {
        Scalar { bits: (x.bits + SIGN_BIT) as u32 }
    } else {
        Scalar { bits: (x.bits - SIGN_BIT) as u32 }
    }
}

/// Up to two to the power of 24, the multiples of a power of two are numbers.
pub(crate) proof fn lemma_multiple_is_a_number(k: int, e: nat) -> (x: Scalar)
    requires
        0 <= k <= 0x100_0000,
        e <= 252 || (e == 253 && k < 0x100_0000),
    ensures
        x.is_finite(),
        x.scaled() == k * pow2(e),
    decreases
            (if k >= 0x100_0000 {
                1int
            } else {
                0int
            }),
            e,
{
    reveal(scaled_magnitude);
    if k == 0x100_0000 {
        lemma_pow2_unfold(e + 1);
        lemma_multiple_is_a_number(0x80_0000, e + 1)
    } else if k >= 0x80_0000 {
        let x = Scalar { bits: ((e + 1) * 0x80_0000 + (k - 0x80_0000)) as u32 };
        assert(x.magnitude() / 0x80_0000 == e + 1);
        assert(x.magnitude() % 0x80_0000 == k - 0x80_0000);
        assert(x.scaled() == k * pow2(e));
        x
    } else if e == 0 {
        lemma2_to64();
        let x = Scalar { bits: k as u32 };
        assert(x.magnitude() / 0x80_0000 == 0);
        x
    } else {
        lemma_pow2_unfold(e);
        let half = pow2((e - 1) as nat) as int;
        assert(k * (2 * half) == (2 * k) * half) by (nonlinear_arith);
        lemma_multiple_is_a_number(2 * k, (e - 1) as nat)
    }
}

/// Rounding is fine: what is no larger than two to the power of 24 times a power of
/// two is rounded by less than that power of two.
pub proof fn law_rounding_is_fine(x: Scalar, num: int, den: int, e: nat)
    requires
        den > 0,
        e <= 252,
        x.rounds(num, den),
        distance(num, 0) <= (0x100_0000 * pow2(e)) * den,
    ensures
        distance(x.scaled() * den, num) < pow2(e) * den,
{
    let unit = pow2(e) as int;
    let size = distance(num, 0);
    let cell = unit * den;
    lemma_pow2_pos(e);
    assert(cell > 0) by (nonlinear_arith)
        requires
            unit > 0,
            den > 0,
            cell == unit * den,
    ;
    let k = size / cell;
    assert(size == k * cell + size % cell && 0 <= size % cell < cell && 0 <= k) by (nonlinear_arith)
        requires
            cell > 0,
            size >= 0,
            k == size / cell,
    ;
    assert(k <= 0x100_0000) by (nonlinear_arith)
        requires
            size <= (0x100_0000 * unit) * den,
            cell == unit * den,
            cell > 0,
            k * cell <= size,
    ;
    let up = lemma_multiple_is_a_number(k, e);
    let near = if num >= 0 {
        up
    } else {
        lemma_negative(up)
    };
    let value = near.scaled();
    assert((k * unit) * den == k * cell) by (nonlinear_arith)
        requires
            cell == unit * den,
    ;
    if num < 0 {
        assert(value * den == -((k * unit) * den)) by (nonlinear_arith)
            requires
                value == -(k * unit),
        ;
    }
    lemma_nearest(x, num, den, near);
    assert(distance(value * den, num) < cell);
}

/// A number that is not negative is a multiple of a power of two, and the next one is
/// the next multiple.
pub(crate) proof fn lemma_next(x: Scalar) -> (r: (int, nat))
    requires
        x.bits < LARGEST_BITS,
    ensures
        0 <= r.0 < 0x100_0000,
        r.1 == 0 || (r.0 >= 0x80_0000 && r.1 == x.bits / 0x80_0000 - 1),
        x.next().is_finite(),
        x.scaled() == r.0 * pow2(r.1),
        x.next().scaled() == (r.0 + 1) * pow2(r.1),
{
    reveal(scaled_magnitude);
    lemma2_to64();
    let field = x.bits as int / 0x80_0000;
    let fraction = x.bits as int % 0x80_0000;
    let e = if field == 0 {
        0nat
    } else {
        (field - 1) as nat
    };
    let k = if field == 0 {
        fraction
    } else {
        0x80_0000 + fraction
    };
    let unit = pow2(e) as int;
    let m = x.next().magnitude();
    if field == 0 {
        assert(unit == 1);
        assert(k * unit == k && (k + 1) * unit == k + 1) by (nonlinear_arith)
            requires
                unit == 1,
        ;
    }
    assert(x.scaled() == k * unit);
    if fraction + 1 < 0x80_0000 {
        assert(m / 0x80_0000 == field && m % 0x80_0000 == fraction + 1);
        assert(x.next().scaled() == (k + 1) * unit);
    } else {
        assert(m / 0x80_0000 == field + 1 && m % 0x80_0000 == 0);
        let above = pow2(field as nat) as int;
        assert(x.next().scaled() == 0x80_0000 * above);
        if field > 0 {
            lemma_pow2_unfold(field as nat);
            assert(k + 1 == 0x100_0000);
        }
        assert(0x80_0000 * above == (k + 1) * unit);
    }
    (k, e)
}

/// Nothing compares with what is not a number.
pub proof fn law_nothing_compares_with_nan(a: Scalar, b: Scalar)
    requires
        a.bits % SIGN_BIT > INFINITY_BITS,
    ensures
        !a.below(b) && !b.below(a),
        !a.at_most(b) && !b.at_most(a),
{
}

/// Numbers are in order: of two that are numbers, one is below the other or both are
/// equally large, and infinity lies above every finite one.
pub proof fn law_numbers_are_in_order(a: Scalar, b: Scalar)
    requires
        a.bits % SIGN_BIT <= INFINITY_BITS,
        b.bits % SIGN_BIT <= INFINITY_BITS,
    ensures
        a.at_most(b) || b.below(a),
        !(a.at_most(b) && b.below(a)),
        a.below(b) <==> a.at_most(b) && !b.at_most(a),
        a.at_most(Scalar { bits: INFINITY_BITS }),
        a.bits % SIGN_BIT < INFINITY_BITS ==> a.below(Scalar { bits: INFINITY_BITS }),
{
}

/// Without its sign a number is itself or its mirror image, and never negative.
pub proof fn law_unsigned_drops_the_sign(x: Scalar)
    ensures
        x.bits < SIGN_BIT ==> x.unsigned() == x,
        x.bits >= SIGN_BIT ==> x.unsigned().bits + SIGN_BIT == x.bits,
        x.is_finite() ==> x.unsigned().scaled() == distance(x.scaled(), 0),
{
    if x.is_finite() {
        lemma_unsigned(x);
    }
}

/// The smaller and the larger of two numbers are those two, in order; beside what is
/// not a number, both are the other one.
pub proof fn law_smaller_and_larger(a: Scalar, b: Scalar)
    ensures
        a.is_nan() ==> a.smaller(b) == b && a.larger(b) == b,
        b.is_nan() && !a.is_nan() ==> a.smaller(b) == a && a.larger(b) == a,
        !a.is_nan() && !b.is_nan() ==> {
            &&& a.smaller(b) == a || a.smaller(b) == b
            &&& a.larger(b) == a || a.larger(b) == b
            &&& a.smaller(b).at_most(a) && a.smaller(b).at_most(b)
            &&& a.at_most(a.larger(b)) && b.at_most(a.larger(b))
        },
{
}

} // verus!
