//! Signed lengths in points.
use vstd::arithmetic::power2::{lemma_pow2_adds, lemma_pow2_pos, pow2};
use vstd::math::abs;
use vstd::prelude::*;

use crate::rounding;
use crate::rounding::INFINITE;

verus! {

/// The sign bit of a pattern.
pub const SIGN: u64 = 0x8000_0000_0000_0000;

/// The pattern of a result that is not a number. The format has many such patterns and
/// tells none of them apart; results have this one.
pub const NOT_A_NUMBER: u64 = 0x7ff8_0000_0000_0000;

/// There are `2^GRAIN_SCALE` grains in a point.
pub const GRAIN_SCALE: u32 = 1074;

/// A length in points, held as its IEEE 754 binary64 pattern. Two lengths are equal
/// when their patterns are.
#[derive(Clone, Copy, Debug, PartialEq, Eq, Structural)]
pub struct Points {
    pub bits: u64,
}

impl Points {
    pub open spec fn negative(self) -> bool {
        self.bits >= SIGN
    }

    /// The pattern without its sign bit.
    pub open spec fn modulus(self) -> u64 {
        if self.negative() {
            (self.bits - SIGN) as u64
        } else {
            self.bits
        }
    }

    pub open spec fn nan(self) -> bool {
        self.modulus() > INFINITE
    }

    pub open spec fn infinite(self) -> bool {
        self.modulus() == INFINITE
    }

    pub open spec fn finite(self) -> bool {
        self.modulus() < INFINITE
    }

    /// The exact value of a finite length, in grains.
    pub open spec fn exact(self) -> int {
        if self.negative() {
            -(rounding::grains(self.modulus()) as int)
        } else {
            rounding::grains(self.modulus()) as int
        }
    }

    /// The length is greater than zero. No NaN is.
    pub open spec fn positive(self) -> bool {
        !self.negative() && 0 < self.modulus() <= INFINITE
    }

    /// The same length with the other sign.
    pub open spec fn negation(self) -> Points {
        if self.negative() {
            Points { bits: (self.bits - SIGN) as u64 }
        } else {
            Points { bits: (self.bits + SIGN) as u64 }
        }
    }
}

/// The length of zero points.
pub open spec fn zero() -> Points {
    Points { bits: 0 }
}

/// `result` is `count` points long.
pub open spec fn is_whole(count: nat, result: Points) -> bool {
    result.finite() && !result.negative() && result.exact() == count * pow2(GRAIN_SCALE as nat)
}

/// The length of `count` points.
pub open spec fn whole(count: nat) -> Points {
    choose|result: Points| is_whole(count, result)
}

/// `result` is the sum of two lengths, rounded to the nearest length. An infinite
/// length absorbs a finite one and cancels an opposite infinite one to a NaN. A sum
/// that is exactly zero is negative only if both lengths are.
pub open spec fn is_sum(a: Points, b: Points, result: Points) -> bool {
    if a.nan() || b.nan() || (a.infinite() && b.infinite() && a.negative() != b.negative()) {
        result.bits == NOT_A_NUMBER
    } else if a.infinite() {
        result == a
    } else if b.infinite() {
        result == b
    } else {
        let exact = a.exact() + b.exact();
        &&& rounding::is_nearest(if exact < 0 { -exact } else { exact }, 1, result.modulus())
        &&& result.negative() == (exact < 0 || exact == 0 && a.negative() && b.negative())
    }
}

/// The sum of two lengths.
pub open spec fn sum(a: Points, b: Points) -> Points {
    choose|result: Points| is_sum(a, b, result)
}

/// The difference of two lengths.
pub open spec fn difference(a: Points, b: Points) -> Points {
    sum(a, b.negation())
}

/// `result` is half of a length, rounded to the nearest length.
pub open spec fn is_half(a: Points, result: Points) -> bool {
    if a.nan() {
        result.bits == NOT_A_NUMBER
    } else if a.infinite() {
        result == a
    } else {
        &&& rounding::is_nearest(rounding::grains(a.modulus()) as int, 2, result.modulus())
        &&& result.negative() == a.negative()
    }
}

/// Half of a length.
pub open spec fn half(a: Points) -> Points {
    choose|result: Points| is_half(a, result)
}

/// A length of a whole number of points has one pattern.
pub proof fn lemma_whole_is(count: nat, result: Points)
    requires
        is_whole(count, result),
    ensures
        whole(count) == result,
{
    let other = whole(count);
    if other.modulus() < result.modulus() {
        rounding::lemma_grains_increase(other.modulus(), result.modulus());
    } else if result.modulus() < other.modulus() {
        rounding::lemma_grains_increase(result.modulus(), other.modulus());
    }
}

/// Every whole number of points that fits 32 bits is a length, and longer for more
/// points.
pub proof fn law_whole_exists(count: u32)
    ensures
        is_whole(count as nat, whole(count as nat)),
        count > 0 ==> whole(count as nat).exact() > 0,
{
    let p: int = pow2(GRAIN_SCALE as nat) as int;
    lemma_pow2_pos(GRAIN_SCALE as nat);
    rounding::lemma_small_counts_are_exact(count, GRAIN_SCALE);
    let pattern = choose|pattern: u64|
        pattern < INFINITE && #[trigger] rounding::grains(pattern) == count * pow2(
            GRAIN_SCALE as nat,
        );
    assert(is_whole(count as nat, Points { bits: pattern }));
    assert(count > 0 ==> count * p > 0) by (nonlinear_arith)
        requires
            p > 0,
    ;
}

/// The pattern of a whole number of points, given the shift that makes a full
/// significand of it.
pub proof fn law_whole_pattern(count: u32, shift: u32)
    requires
        rounding::BINADE <= count * pow2(shift as nat) < 2 * rounding::BINADE,
        shift <= GRAIN_SCALE,
    ensures
        whole(count as nat).bits == (GRAIN_SCALE - shift) * rounding::BINADE + count * pow2(
            shift as nat,
        ),
{
    let q: nat = (count * pow2(shift as nat)) as nat;
    let e: nat = (GRAIN_SCALE - shift) as nat;
    let n: int = count as int;
    let s: int = pow2(shift as nat) as int;
    let p: int = pow2(e) as int;
    rounding::lemma_joined(q, e);
    lemma_pow2_adds(shift as nat, e);
    assert((n * s) * p == n * (s * p)) by (nonlinear_arith);
    lemma_whole_is(count as nat, Points { bits: (e * rounding::BINADE + q) as u64 });
}

/// The sum of two lengths has one pattern.
pub proof fn lemma_sum_is(a: Points, b: Points, result: Points)
    requires
        is_sum(a, b, result),
    ensures
        sum(a, b) == result,
{
    let other = sum(a, b);
    if a.finite() && b.finite() {
        let exact = a.exact() + b.exact();
        rounding::lemma_nearest_unique(
            if exact < 0 { -exact } else { exact },
            1,
            other.modulus(),
            result.modulus(),
        );
    }
}

/// Half of a length has one pattern.
pub proof fn lemma_half_is(a: Points, result: Points)
    requires
        is_half(a, result),
    ensures
        half(a) == result,
{
    let other = half(a);
    if a.finite() {
        rounding::lemma_nearest_unique(
            rounding::grains(a.modulus()) as int,
            2,
            other.modulus(),
            result.modulus(),
        );
    }
}

/// A finite length is positive exactly when its value is.
pub proof fn law_positive_is_above_zero(a: Points)
    requires
        a.finite(),
    ensures
        a.positive() == (a.exact() > 0),
{
    rounding::lemma_zero_grains();
    if a.modulus() > 0 {
        rounding::lemma_grains_increase(0, a.modulus());
    }
}

/// Every two lengths have a sum, and it is the length nearest to the exact one.
pub proof fn law_sum_is_nearest(a: Points, b: Points)
    ensures
        is_sum(a, b, sum(a, b)),
{
    let result = if a.nan() || b.nan() || (a.infinite() && b.infinite() && a.negative()
        != b.negative()) {
        Points { bits: NOT_A_NUMBER }
    } else if a.infinite() {
        a
    } else if b.infinite() {
        b
    } else {
        let exact = a.exact() + b.exact();
        let size = if exact < 0 { -exact } else { exact };
        rounding::lemma_nearest_exists(size, 1);
        let modulus = choose|modulus: u64| rounding::is_nearest(size, 1, modulus);
        if exact < 0 || exact == 0 && a.negative() && b.negative() {
            Points { bits: (modulus + SIGN) as u64 }
        } else {
            Points { bits: modulus }
        }
    };
    assert(is_sum(a, b, result));
}

/// Addition does not depend on the order of the lengths.
pub proof fn law_sum_commutes(a: Points, b: Points)
    ensures
        sum(a, b) == sum(b, a),
{
    law_sum_is_nearest(a, b);
    lemma_sum_is(b, a, sum(a, b));
}

/// A sum that needs no rounding is exact.
pub proof fn law_exact_sum(a: Points, b: Points, result: Points)
    requires
        a.finite(),
        b.finite(),
        result.finite(),
        result.exact() == a.exact() + b.exact(),
        result.negative() == (result.exact() < 0 || result.exact() == 0 && a.negative()
            && b.negative()),
    ensures
        sum(a, b) == result,
{
    let exact = result.exact();
    rounding::lemma_exact_is_nearest(
        if exact < 0 { -exact } else { exact },
        1,
        result.modulus(),
    );
    lemma_sum_is(a, b, result);
}

/// Whole numbers of points add up without rounding.
pub proof fn law_whole_sum(m: u32, n: u32)
    requires
        m + n <= u32::MAX,
    ensures
        sum(whole(m as nat), whole(n as nat)) == whole((m + n) as nat),
{
    let p: int = pow2(GRAIN_SCALE as nat) as int;
    law_whole_exists(m);
    law_whole_exists(n);
    law_whole_exists((m + n) as u32);
    assert((m + n) * p == m * p + n * p) by (nonlinear_arith);
    law_exact_sum(whole(m as nat), whole(n as nat), whole((m + n) as nat));
}

/// Whole numbers of points are subtracted without rounding.
pub proof fn law_whole_difference(m: u32, n: u32)
    ensures
        difference(whole(m as nat), whole(n as nat)) == (if n <= m {
            whole((m - n) as nat)
        } else {
            whole((n - m) as nat).negation()
        }),
{
    let p: int = pow2(GRAIN_SCALE as nat) as int;
    law_whole_exists(m);
    law_whole_exists(n);
    assert((m - n) * p == m * p - n * p) by (nonlinear_arith);
    if n <= m {
        law_whole_exists((m - n) as u32);
        law_exact_sum(whole(m as nat), whole(n as nat).negation(), whole((m - n) as nat));
    } else {
        let less = whole((n - m) as nat);
        law_whole_exists((n - m) as u32);
        assert((n - m) * p == -((m - n) * p)) by (nonlinear_arith);
        law_exact_sum(whole(m as nat), whole(n as nat).negation(), less.negation());
    }
}

/// An even number of points is halved without rounding.
pub proof fn law_whole_half(n: u32)
    requires
        2 * n <= u32::MAX,
    ensures
        half(whole((2 * n) as nat)) == whole(n as nat),
{
    let p: int = pow2(GRAIN_SCALE as nat) as int;
    let double = whole((2 * n) as nat);
    law_whole_exists((2 * n) as u32);
    law_whole_exists(n);
    assert((2 * n) * p == 2 * (n * p)) by (nonlinear_arith);
    rounding::lemma_exact_is_nearest(double.exact(), 2, whole(n as nat).modulus());
    lemma_half_is(double, whole(n as nat));
}

/// Adding nothing to a length changes nothing, but that negative zero becomes zero.
pub proof fn law_plus_nothing(a: Points)
    requires
        a.bits != SIGN,
        !a.nan(),
    ensures
        sum(a, whole(0)) == a,
{
    let nothing = whole(0);
    law_whole_exists(0);
    assert(0 * pow2(GRAIN_SCALE as nat) == 0) by (nonlinear_arith);
    if a.finite() {
        rounding::lemma_zero_grains();
        if a.modulus() > 0 {
            rounding::lemma_grains_increase(0, a.modulus());
        }
        law_exact_sum(a, nothing, a);
    } else {
        lemma_sum_is(a, nothing, a);
    }
}

/// The top bit of a length is its sign. The other bits are its size: finite below the
/// pattern of infinity, and no number above it.
pub proof fn law_sign_and_size(a: Points)
    ensures
        a.negative() == (a.bits >= 0x8000_0000_0000_0000),
        a.modulus() == a.bits % 0x8000_0000_0000_0000,
        a.finite() == (a.bits % 0x8000_0000_0000_0000 < 0x7ff0_0000_0000_0000),
        a.infinite() == (a.bits % 0x8000_0000_0000_0000 == 0x7ff0_0000_0000_0000),
        a.nan() == (a.bits % 0x8000_0000_0000_0000 > 0x7ff0_0000_0000_0000),
        a.exact() == rounding::grains(a.modulus()) || a.exact() == -rounding::grains(a.modulus()),
        a.negative() ==> a.exact() <= 0,
        !a.negative() ==> a.exact() >= 0,
        a.positive() == (0 < a.bits <= 0x7ff0_0000_0000_0000),
{
}

/// Negation turns the sign, and nothing else.
pub proof fn law_negation(a: Points)
    ensures
        a.negation().negation() == a,
        a.negation().negative() != a.negative(),
        a.negation().modulus() == a.modulus(),
        a.negation().exact() == -a.exact(),
{
}

/// A whole number of points has the value that it says.
pub proof fn law_whole_value(count: u32)
    ensures
        whole(count as nat).finite(),
        !whole(count as nat).negative(),
        whole(count as nat).exact() == count * pow2(1074),
{
    law_whole_exists(count);
}

/// No finite length is nearer to the exact sum of two finite ones than their sum is; one
/// that is equally near has an odd pattern beside an even one. From half a spacing above
/// the largest finite length on, sums are infinite. The sign is that of the exact sum; an
/// exact sum of zero is negative only if both lengths are.
pub proof fn law_sum_of_finite(a: Points, b: Points, other: Points)
    requires
        a.finite(),
        b.finite(),
        other.finite(),
    ensures
        ({
            let exact = a.exact() + b.exact();
            let result = sum(a, b);
            &&& !result.nan()
            &&& result.negative() == (exact < 0 || exact == 0 && a.negative() && b.negative())
            &&& result.finite() == (2 * abs(exact) < 2 * rounding::grains(0x7fef_ffff_ffff_ffff)
                + pow2(2045))
            &&& result.finite() ==> abs(result.exact() - exact) <= abs(other.exact() - exact)
            &&& result.finite() && other.exact() != result.exact() && abs(
                result.exact() - exact,
            ) == abs(other.exact() - exact) ==> result.bits % 2 == 0
        }),
{
    let exact = a.exact() + b.exact();
    let size = abs(exact) as int;
    let result = sum(a, b);
    let m = result.modulus();
    let n = other.modulus();
    let g = rounding::grains(m) as int;
    let h = rounding::grains(n) as int;
    let largest = 0x7fef_ffff_ffff_ffffu64;
    let top = rounding::grains(largest) as int;
    law_sum_is_nearest(a, b);
    rounding::law_patterns_count_lengths(largest);
    rounding::lemma_zero_grains();
    lemma_pow2_pos(2045);
    assert(rounding::is_nearest(size, 1, m));
    assert(rounding::grains(INFINITE) == top + pow2(2045));
    let above = rounding::grains(INFINITE) as int;
    // What nearest means of the lengths that matter here.
    assert(abs(g - size) <= abs(h - size));
    assert(abs(g - size) == abs(h - size) ==> m == n || m % 2 == 0);
    assert(abs(g - size) <= abs(top - size));
    assert(abs(g - size) <= abs(above - size));
    assert(abs(g - size) == abs(above - size) ==> m == INFINITE || m % 2 == 0);
    assert(abs(g - size) <= abs(0 - size));
    if m == INFINITE {
        assert(g == above);
        assert(2 * size >= top + above);
    } else if m == largest {
        assert(g == top);
        assert(2 * size < top + above);
    } else {
        rounding::lemma_grains_increase(m, largest);
        assert(2 * size < top + above);
    }
    assert(result.bits % 2 == m % 2);
    if result.finite() {
        assert(abs(result.exact() - exact) == abs(g - size));
        assert(abs(h - size) <= abs(other.exact() - exact));
        if m == n && other.exact() != result.exact() {
            assert(other.exact() == -result.exact());
            assert(g > 0 && size > 0);
        }
    }
}

/// An infinite length absorbs a finite one, and one of the same sign. Opposite infinite
/// lengths have no sum, nor has what is no number.
pub proof fn law_sum_of_others(a: Points, b: Points)
    ensures
        a.infinite() && b.finite() ==> sum(a, b) == a,
        a.finite() && b.infinite() ==> sum(a, b) == b,
        a.infinite() && b.infinite() && a.negative() == b.negative() ==> sum(a, b) == a,
        a.infinite() && b.infinite() && a.negative() != b.negative() ==> sum(a, b).bits
            == 0x7ff8_0000_0000_0000,
        a.nan() || b.nan() ==> sum(a, b).bits == 0x7ff8_0000_0000_0000,
{
    law_sum_is_nearest(a, b);
}

/// Subtracting a length is adding it with the other sign; subtracting a finite length from
/// itself leaves zero.
pub proof fn law_difference(a: Points, b: Points)
    ensures
        difference(a, b) == sum(a, Points { bits: (b.bits ^ 0x8000_0000_0000_0000) }),
        a.finite() ==> difference(a, a).bits == 0,
{
    let bits = b.bits;
    assert(bits >= 0x8000_0000_0000_0000 ==> bits ^ 0x8000_0000_0000_0000 == bits
        - 0x8000_0000_0000_0000) by (bit_vector);
    assert(bits < 0x8000_0000_0000_0000 ==> bits ^ 0x8000_0000_0000_0000 == bits
        + 0x8000_0000_0000_0000) by (bit_vector);
    if a.finite() {
        rounding::lemma_zero_grains();
        law_exact_sum(a, a.negation(), zero());
    }
}

/// No finite length doubled is nearer to a finite length than its half doubled; one that
/// is equally near has an odd pattern beside an even one. The sign stays.
pub proof fn law_half_of_finite(a: Points, other: Points)
    requires
        a.finite(),
        other.finite(),
    ensures
        ({
            let result = half(a);
            &&& result.finite()
            &&& result.negative() == a.negative()
            &&& abs(2 * result.exact() - a.exact()) <= abs(2 * other.exact() - a.exact())
            &&& other.exact() != result.exact() && abs(2 * result.exact() - a.exact()) == abs(
                2 * other.exact() - a.exact(),
            ) ==> result.bits % 2 == 0
        }),
{
    let size = rounding::grains(a.modulus()) as int;
    rounding::lemma_nearest_exists(size, 2);
    let modulus = choose|modulus: u64| rounding::is_nearest(size, 2, modulus);
    let result = if a.negative() {
        Points { bits: (modulus + SIGN) as u64 }
    } else {
        Points { bits: modulus }
    };
    assert(is_half(a, result));
    lemma_half_is(a, result);
    rounding::lemma_zero_grains();
    assert(rounding::grains(0) == 0);
    if modulus == INFINITE {
        rounding::lemma_grains_increase(a.modulus(), INFINITE);
        assert(rounding::error(size, 2, a.modulus()) < rounding::error(size, 2, INFINITE));
    }
    assert(rounding::error(size, 2, modulus) <= rounding::error(size, 2, other.modulus())) by {
        assert(rounding::grains(other.modulus()) >= 0);
    }
    if other.modulus() == modulus && other.exact() != result.exact() {
        assert(other.exact() == -result.exact());
    }
    assert(rounding::error(size, 2, modulus) <= rounding::error(size, 2, 0));
    if other.modulus() != modulus {
        assert(rounding::error(size, 2, modulus) < rounding::error(size, 2, other.modulus())
            || modulus % 2 == 0);
    }
}

/// Half of an infinite length is that length; what is no number has no half.
pub proof fn law_half_of_others(a: Points)
    ensures
        a.infinite() ==> half(a) == a,
        a.nan() ==> half(a).bits == 0x7ff8_0000_0000_0000,
{
    if a.infinite() {
        lemma_half_is(a, a);
    } else if a.nan() {
        lemma_half_is(a, Points { bits: NOT_A_NUMBER });
    }
}

/// The operations on lengths give the lengths that the laws on sums, differences and halves
/// speak of.
pub proof fn law_operations(a: Points, b: Points, count: u32)
    ensures
        forall|result: Points| #[trigger]
            call_ensures(Points::plus, (a, b), result) ==> result == sum(a, b),
        forall|result: Points| #[trigger]
            call_ensures(Points::minus, (a, b), result) ==> result == difference(a, b),
        forall|result: Points| #[trigger]
            call_ensures(Points::halved, (a,), result) ==> result == half(a),
        forall|result: Points| #[trigger]
            call_ensures(Points::negated, (a,), result) ==> result == a.negation(),
        forall|result: Points| #[trigger]
            call_ensures(Points::whole, (count,), result) ==> result == whole(count as nat),
        forall|result: Points| #[trigger]
            call_ensures(Points::zero, (), result) ==> result.bits == 0,
        forall|positive: bool| #[trigger]
            call_ensures(Points::is_positive, (a,), positive) ==> positive == (0 < a.bits
                <= 0x7ff0_0000_0000_0000),
{
}

impl Points {
    /// Zero points.
    pub fn zero() -> (result: Points)
        ensures
            result == zero(),
    {
        Points { bits: 0 }
    }

    /// A length of a whole number of points.
    pub fn whole(count: u32) -> (result: Points)
        ensures
            is_whole(count as nat, result),
            result == whole(count as nat),
    {
        let result = Points { bits: rounding::round(count as u128, GRAIN_SCALE) };
        proof {
            lemma_whole_is(count as nat, result);
        }
        result
    }

    /// Whether the length is greater than zero.
    pub fn is_positive(self) -> (positive: bool)
        ensures
            positive == self.positive(),
    {
        0 < self.bits && self.bits <= INFINITE
    }

    fn is_negative(self) -> (negative: bool)
        ensures
            negative == self.negative(),
    {
        self.bits >= SIGN
    }

    fn unsigned(self) -> (modulus: u64)
        ensures
            modulus == self.modulus(),
    {
        if self.bits >= SIGN {
            self.bits - SIGN
        } else {
            self.bits
        }
    }

    fn signed(modulus: u64, negative: bool) -> (result: Points)
        requires
            modulus <= INFINITE,
        ensures
            result.modulus() == modulus,
            result.negative() == negative,
    {
        if negative {
            Points { bits: modulus + SIGN }
        } else {
            Points { bits: modulus }
        }
    }

    /// The same length with the other sign.
    pub fn negated(self) -> (result: Points)
        ensures
            result == self.negation(),
    {
        if self.bits >= SIGN {
            Points { bits: self.bits - SIGN }
        } else {
            Points { bits: self.bits + SIGN }
        }
    }

    /// The sum of two lengths.
    pub fn plus(self, other: Points) -> (result: Points)
        ensures
            is_sum(self, other, result),
            result == sum(self, other),
    {
        let result = self.rounded_sum(other);
        proof {
            lemma_sum_is(self, other, result);
        }
        result
    }

    fn rounded_sum(self, other: Points) -> (result: Points)
        ensures
            is_sum(self, other, result),
    {
        let a = self.unsigned();
        let b = other.unsigned();
        let a_negative = self.is_negative();
        let b_negative = other.is_negative();
        if a > INFINITE || b > INFINITE || (a == INFINITE && b == INFINITE && a_negative
            != b_negative) {
            return Points { bits: NOT_A_NUMBER };
        }
        if a == INFINITE {
            return self;
        }
        if b == INFINITE {
            return other;
        }
        proof {
            if a < b {
                rounding::lemma_grains_increase(a, b);
            } else if b < a {
                rounding::lemma_grains_increase(b, a);
            }
        }
        if a_negative == b_negative {
            let modulus = if a >= b {
                rounding::sum_of(a, b)
            } else {
                rounding::sum_of(b, a)
            };
            Points::signed(modulus, a_negative)
        } else if a == b {
            proof {
                rounding::lemma_zero_grains();
                rounding::lemma_exact_is_nearest(0, 1, 0);
            }
            Points::zero()
        } else if a > b {
            Points::signed(rounding::difference_of(a, b), a_negative)
        } else {
            Points::signed(rounding::difference_of(b, a), b_negative)
        }
    }

    /// The difference of two lengths.
    pub fn minus(self, other: Points) -> (result: Points)
        ensures
            result == difference(self, other),
    {
        self.plus(other.negated())
    }

    /// Half of the length.
    pub fn halved(self) -> (result: Points)
        ensures
            is_half(self, result),
            result == half(self),
    {
        let a = self.unsigned();
        let result = if a > INFINITE {
            Points { bits: NOT_A_NUMBER }
        } else if a == INFINITE {
            self
        } else {
            Points::signed(rounding::half_of(a), self.is_negative())
        };
        proof {
            lemma_half_is(self, result);
        }
        result
    }
}

} // verus!
