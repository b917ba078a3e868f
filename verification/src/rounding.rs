//! Unsigned lengths held as IEEE 754 binary64 patterns without their sign bit.
//!
//! A pattern stands for a whole number of grains, a grain being the smallest
//! length that the format can hold (`2^-1074` points). Sums and differences of
//! patterns are therefore whole numbers of grains, and an arithmetic result is
//! the pattern nearest to the exact one.
use vstd::arithmetic::power2::{
    lemma2_to64, lemma2_to64_rest, lemma_pow2_adds, lemma_pow2_pos, lemma_pow2_strictly_increases,
    lemma_pow2_unfold, pow2,
};
use vstd::prelude::*;

verus! {

/// The number of patterns that share one spacing.
pub const BINADE: u64 = 0x10_0000_0000_0000;

/// The pattern of an infinite length, just above the largest finite one.
pub const INFINITE: u64 = 0x7ff0_0000_0000_0000;

/// The spacing between `pattern` and the next one is `2^exponent` grains.
pub open spec fn exponent(pattern: u64) -> nat {
    if pattern < BINADE {
        0
    } else {
        (pattern / BINADE - 1) as nat
    }
}

/// How many of its spacings a pattern is long.
pub open spec fn significand(pattern: u64) -> nat {
    if pattern < BINADE {
        pattern as nat
    } else {
        (BINADE + pattern % BINADE) as nat
    }
}

/// The length of a pattern in grains. For `INFINITE` it is the length that would
/// follow the largest finite one, from which on lengths round to infinity.
pub open spec fn grains(pattern: u64) -> nat {
    significand(pattern) * pow2(exponent(pattern))
}

/// How far `parts` times the length of `pattern` is from `exact` grains.
pub open spec fn error(exact: int, parts: int, pattern: u64) -> int {
    let d = parts * grains(pattern) - exact;
    if d < 0 {
        -d
    } else {
        d
    }
}

/// `pattern` is the one nearest to `exact / parts` grains; of two equally near
/// ones, it is the even one.
pub open spec fn is_nearest(exact: int, parts: int, pattern: u64) -> bool {
    &&& pattern <= INFINITE
    &&& forall|other: u64|
        #![trigger grains(other)]
        other <= INFINITE ==> {
            ||| error(exact, parts, pattern) < error(exact, parts, other)
            ||| error(exact, parts, pattern) == error(exact, parts, other) && (pattern == other
                || pattern % 2 == 0)
        }
}

proof fn lemma_grains_step(pattern: u64)
    requires
        pattern < INFINITE,
    ensures
        grains((pattern + 1) as u64) == grains(pattern) + pow2(exponent(pattern)),
        exponent(pattern) <= exponent((pattern + 1) as u64) <= exponent(pattern) + 1,
{
    let next = (pattern + 1) as u64;
    let e = exponent(pattern);
    let q = significand(pattern);
    if exponent(next) == e {
        assert(significand(next) == q + 1);
        assert((q + 1) * pow2(e) == q * pow2(e) + pow2(e)) by (nonlinear_arith);
    } else {
        assert(exponent(next) == e + 1);
        assert(q == 2 * BINADE - 1);
        assert(significand(next) == BINADE);
        lemma_pow2_unfold(e + 1);
        assert(BINADE * (2 * pow2(e)) == (2 * BINADE - 1) * pow2(e) + pow2(e)) by (nonlinear_arith);
    }
}

/// Patterns count lengths upwards from zero, one spacing at a time. The spacing is a grain
/// up to the second multiple of `2^52`, and doubles at every multiple from there on.
pub proof fn law_patterns_count_lengths(pattern: u64)
    requires
        pattern < 0x7ff0_0000_0000_0000,
    ensures
        grains(0) == 0,
        pattern < 0x20_0000_0000_0000 ==> grains((pattern + 1) as u64) == grains(pattern) + 1,
        pattern >= 0x20_0000_0000_0000 ==> grains((pattern + 1) as u64) == grains(pattern) + pow2(
            (pattern / 0x10_0000_0000_0000 - 1) as nat,
        ),
{
    lemma_zero_grains();
    lemma_grains_step(pattern);
    lemma2_to64();
}

/// A larger pattern is longer, by at least the spacing of the smaller one.
pub proof fn lemma_grains_increase(small: u64, large: u64)
    requires
        small < large <= INFINITE,
    ensures
        grains(small) + pow2(exponent(small)) <= grains(large),
        grains(small) < grains(large),
        exponent(small) <= exponent(large),
    decreases large - small,
{
    let before = (large - 1) as u64;
    lemma_grains_step(before);
    lemma_pow2_pos(exponent(before));
    lemma_pow2_pos(exponent(small));
    if small < before {
        lemma_grains_increase(small, before);
    }
}

pub proof fn lemma_zero_grains()
    ensures
        grains(0) == 0,
{
    let p: int = pow2(0) as int;
    assert(0 * p == 0) by (nonlinear_arith);
}

/// A pattern whose length is exact is the nearest one.
pub proof fn lemma_exact_is_nearest(exact: int, parts: int, pattern: u64)
    requires
        pattern <= INFINITE,
        parts > 0,
        parts * grains(pattern) == exact,
    ensures
        is_nearest(exact, parts, pattern),
{
    assert forall|other: u64| #![trigger grains(other)] other <= INFINITE implies {
        ||| error(exact, parts, pattern) < error(exact, parts, other)
        ||| error(exact, parts, pattern) == error(exact, parts, other) && (pattern == other
            || pattern % 2 == 0)
    } by {
        let a = grains(pattern);
        let b = grains(other);
        if other < pattern {
            lemma_grains_increase(other, pattern);
            assert(parts * b < parts * a) by (nonlinear_arith)
                requires
                    b < a,
                    parts > 0,
            ;
        } else if pattern < other {
            lemma_grains_increase(pattern, other);
            assert(parts * a < parts * b) by (nonlinear_arith)
                requires
                    a < b,
                    parts > 0,
            ;
        }
    }
}

/// The pattern to take for an exact length that lies between `lower` and the next
/// pattern.
pub open spec fn nearer_neighbour(exact: int, parts: int, lower: u64) -> u64 {
    let upper = (lower + 1) as u64;
    if error(exact, parts, lower) < error(exact, parts, upper) {
        lower
    } else if error(exact, parts, upper) < error(exact, parts, lower) {
        upper
    } else if lower % 2 == 0 {
        lower
    } else {
        upper
    }
}

proof fn lemma_neighbour_is_nearest(exact: int, parts: int, lower: u64)
    requires
        lower < INFINITE,
        parts > 0,
        parts * grains(lower) <= exact <= parts * grains((lower + 1) as u64),
    ensures
        is_nearest(exact, parts, nearer_neighbour(exact, parts, lower)),
{
    let pattern = nearer_neighbour(exact, parts, lower);
    let upper = (lower + 1) as u64;
    assert forall|other: u64| #![trigger grains(other)] other <= INFINITE implies {
        ||| error(exact, parts, pattern) < error(exact, parts, other)
        ||| error(exact, parts, pattern) == error(exact, parts, other) && (pattern == other
            || pattern % 2 == 0)
    } by {
        let c = grains(other);
        if other < lower {
            let a = grains(lower);
            lemma_grains_increase(other, lower);
            assert(parts * c < parts * a) by (nonlinear_arith)
                requires
                    c < a,
                    parts > 0,
            ;
        } else if upper < other {
            let b = grains(upper);
            lemma_grains_increase(upper, other);
            assert(parts * b < parts * c) by (nonlinear_arith)
                requires
                    b < c,
                    parts > 0,
            ;
        }
    }
}

proof fn lemma_beyond_is_infinite(exact: int, parts: int)
    requires
        parts > 0,
        exact >= parts * grains(INFINITE),
    ensures
        is_nearest(exact, parts, INFINITE),
{
    assert forall|other: u64| #![trigger grains(other)] other <= INFINITE implies {
        ||| error(exact, parts, INFINITE) < error(exact, parts, other)
        ||| error(exact, parts, INFINITE) == error(exact, parts, other) && (INFINITE == other
            || INFINITE % 2 == 0)
    } by {
        if other < INFINITE {
            let a = grains(other);
            let b = grains(INFINITE);
            lemma_grains_increase(other, INFINITE);
            assert(parts * a < parts * b) by (nonlinear_arith)
                requires
                    a < b,
                    parts > 0,
            ;
        }
    }
}

/// Some pattern is the nearest one.
pub proof fn lemma_nearest_exists(exact: int, parts: int)
    requires
        exact >= 0,
        parts > 0,
    ensures
        exists|pattern: u64| is_nearest(exact, parts, pattern),
{
    lemma_zero_grains();
    assert(parts * 0 == 0) by (nonlinear_arith);
    lemma_nearest_from(exact, parts, 0);
}

proof fn lemma_nearest_from(exact: int, parts: int, lower: u64)
    requires
        parts > 0,
        lower <= INFINITE,
        parts * grains(lower) <= exact,
    ensures
        exists|pattern: u64| is_nearest(exact, parts, pattern),
    decreases INFINITE - lower,
{
    if lower == INFINITE {
        lemma_beyond_is_infinite(exact, parts);
    } else {
        let upper = (lower + 1) as u64;
        if parts * grains(upper) <= exact {
            lemma_nearest_from(exact, parts, upper);
        } else {
            lemma_neighbour_is_nearest(exact, parts, lower);
        }
    }
}

/// Only one pattern is the nearest one.
pub proof fn lemma_nearest_unique(exact: int, parts: int, one: u64, two: u64)
    requires
        parts > 0,
        is_nearest(exact, parts, one),
        is_nearest(exact, parts, two),
    ensures
        one == two,
{
    lemma_nearest_at_least(exact, parts, one, two);
    lemma_nearest_at_least(exact, parts, two, one);
}

proof fn lemma_nearest_at_least(exact: int, parts: int, one: u64, two: u64)
    requires
        parts > 0,
        is_nearest(exact, parts, one),
        is_nearest(exact, parts, two),
    ensures
        two <= one,
{
    if one < two {
        let a = grains(one);
        let b = grains(two);
        assert(error(exact, parts, one) == error(exact, parts, two));
        assert(one % 2 == 0 && two % 2 == 0);
        let middle = (one + 1) as u64;
        let c = grains(middle);
        lemma_grains_increase(one, middle);
        lemma_grains_increase(middle, two);
        assert(parts * a < parts * c < parts * b) by (nonlinear_arith)
            requires
                a < c < b,
                parts > 0,
        ;
        assert(error(exact, parts, middle) < error(exact, parts, one));
    }
}

/// Rounding keeps order: what is at least as long as a pattern does not round
/// below it.
pub proof fn lemma_nearest_keeps_lower_bound(exact: int, nearest: u64, bound: u64)
    requires
        is_nearest(exact, 1, nearest),
        bound <= INFINITE,
        grains(bound) <= exact,
    ensures
        bound <= nearest,
{
    if nearest < bound {
        lemma_grains_increase(nearest, bound);
        assert(error(exact, 1, bound) < error(exact, 1, nearest));
    }
}

proof fn lemma_binade_is_power()
    ensures
        BINADE == pow2(52),
        2 * BINADE == pow2(53),
{
    lemma2_to64();
    lemma2_to64_rest();
}

/// The pattern that `significand` and `exponent` describe is
/// `exponent * BINADE + significand`.
pub proof fn lemma_joined(q: nat, e: nat)
    requires
        q < 2 * BINADE,
        e == 0 || q >= BINADE,
        e <= 2045,
    ensures
        e * BINADE + q < INFINITE,
        significand((e * BINADE + q) as u64) == q,
        exponent((e * BINADE + q) as u64) == e,
        grains((e * BINADE + q) as u64) == q * pow2(e),
{
}

proof fn lemma_far_out(q: int, e: nat)
    requires
        q >= BINADE,
        e > 2045,
    ensures
        q * pow2(e) >= grains(INFINITE),
{
    if e > 2046 {
        lemma_pow2_strictly_increases(2046, e);
    }
    let p: int = pow2(e) as int;
    let least: int = pow2(2046) as int;
    assert(q * p >= BINADE * least) by (nonlinear_arith)
        requires
            q >= BINADE,
            p >= least,
            least >= 0,
    ;
}

fn split(pattern: u64) -> (parts: (u64, u32))
    requires
        pattern < INFINITE,
    ensures
        parts.0 == significand(pattern),
        parts.1 == exponent(pattern),
        parts.0 < 2 * BINADE,
        parts.1 == 0 || parts.0 >= BINADE,
        parts.1 <= 2045,
{
    if pattern < BINADE {
        (pattern, 0)
    } else {
        (BINADE + pattern % BINADE, (pattern / BINADE - 1) as u32)
    }
}

fn power_of_two(exponent: u32) -> (power: u128)
    requires
        exponent <= 64,
    ensures
        power == pow2(exponent as nat),
        power <= 0x1_0000_0000_0000_0000,
{
    let mut power: u128 = 1;
    let mut done: u32 = 0;
    proof {
        lemma2_to64();
    }
    while done < exponent
        invariant
            done <= exponent <= 64,
            power == pow2(done as nat),
            pow2(64) == 0x1_0000_0000_0000_0000,
        decreases exponent - done,
    {
        proof {
            lemma_pow2_unfold((done + 1) as nat);
            if done + 1 < 64 {
                lemma_pow2_strictly_increases((done + 1) as nat, 64);
            }
        }
        power = power * 2;
        done = done + 1;
    }
    proof {
        if exponent < 64 {
            lemma_pow2_strictly_increases(exponent as nat, 64);
        }
    }
    power
}

/// The pattern nearest to `count * 2^scale` grains.
pub(crate) fn round(count: u128, scale: u32) -> (pattern: u64)
    requires
        count < 0x100_0000_0000_0000_0000_0000_0000_0000,
        scale <= 2045,
    ensures
        is_nearest(count * pow2(scale as nat), 1, pattern),
        count < 2 * BINADE ==> pattern < INFINITE && grains(pattern) == count * pow2(
            scale as nat,
        ),
{
    let ghost exact: int = count * pow2(scale as nat);
    // Drop low bits until the significand fits.
    let mut q: u128 = count;
    let mut rest: u128 = 0;
    let mut unit: u128 = 1;
    let mut e: u32 = scale;
    proof {
        lemma2_to64();
        assert(count == q * unit + rest) by (nonlinear_arith)
            requires
                q == count,
                unit == 1,
                rest == 0,
        ;
    }
    while q >= 2 * BINADE as u128
        invariant
            count < 0x100_0000_0000_0000_0000_0000_0000_0000,
            scale <= 2045,
            scale <= e,
            q <= count,
            count == q * unit + rest,
            rest < unit,
            unit == pow2((e - scale) as nat),
            e == scale || q >= BINADE,
            e == scale ==> q == count && rest == 0,
            count < 2 * BINADE ==> e == scale,
            e - scale <= 68,
        decreases q,
    {
        let ghost q0: int = q as int;
        let ghost unit0: int = unit as int;
        proof {
            lemma_pow2_unfold((e + 1 - scale) as nat);
            assert(unit < 0x8_0000_0000_0000_0000) by (nonlinear_arith)
                requires
                    q * unit <= count,
                    q >= 2 * BINADE,
                    count < 0x100_0000_0000_0000_0000_0000_0000_0000,
            ;
            assert(e - scale < 68) by {
                if e - scale >= 68 {
                    lemma_pow2_adds(64, 4);
                    lemma2_to64();
                    if e - scale > 68 {
                        lemma_pow2_strictly_increases(68, (e - scale) as nat);
                    }
                }
            }
        }
        if q % 2 == 1 {
            rest = rest + unit;
        }
        q = q / 2;
        unit = unit * 2;
        e = e + 1;
        proof {
            let h: int = q as int;
            let b: int = q0 % 2;
            assert(q0 == 2 * h + b);
            assert(q0 * unit0 == h * (2 * unit0) + b * unit0) by (nonlinear_arith)
                requires
                    q0 == 2 * h + b,
            ;
            assert(b == 0 ==> b * unit0 == 0) by (nonlinear_arith);
            assert(b == 1 ==> b * unit0 == unit0) by (nonlinear_arith);
        }
    }
    if q < BINADE as u128 {
        // Nothing was dropped: use the finest spacing that there is.
        return widen(q as u64, scale);
    }
    let ghost spacing: int = pow2(e as nat) as int;
    let ghost left_over: int = rest * pow2(scale as nat);
    proof {
        let p: int = pow2(scale as nat) as int;
        let u: int = unit as int;
        let r: int = rest as int;
        let k: int = q as int;
        lemma_pow2_adds(scale as nat, (e - scale) as nat);
        assert((k * u + r) * p == k * (p * u) + r * p) by (nonlinear_arith);
        assert(exact == q * spacing + left_over);
    }
    if e > 2045 {
        proof {
            lemma_far_out(q as int, e as nat);
            assert(left_over >= 0) by (nonlinear_arith)
                requires
                    left_over == rest * pow2(scale as nat),
            ;
            lemma_beyond_is_infinite(exact, 1);
        }
        return INFINITE;
    }
    let lower: u64 = e as u64 * BINADE + q as u64;
    proof {
        let p: int = pow2(scale as nat) as int;
        let u: int = unit as int;
        let r: int = rest as int;
        lemma_joined(q as nat, e as nat);
        lemma_grains_step(lower);
        lemma_pow2_pos(scale as nat);
        assert(0 <= r * p < p * u) by (nonlinear_arith)
            requires
                0 <= r < u,
                p > 0,
        ;
        assert(2 * r < u <==> 2 * (r * p) < p * u) by (nonlinear_arith)
            requires
                p > 0,
        ;
        assert(2 * r == u <==> 2 * (r * p) == p * u) by (nonlinear_arith)
            requires
                p > 0,
        ;
        assert(lower % 2 == q % 2);
        lemma_neighbour_is_nearest(exact, 1, lower);
    }
    if 2 * rest < unit || (2 * rest == unit && q % 2 == 0) {
        lower
    } else {
        lower + 1
    }
}

/// The pattern of `significand * 2^exponent` grains, for a significand that needs
/// no rounding.
fn widen(significand: u64, exponent: u32) -> (pattern: u64)
    requires
        significand < 2 * BINADE,
        exponent <= 2045,
    ensures
        pattern < INFINITE,
        grains(pattern) == significand * pow2(exponent as nat),
        is_nearest(significand * pow2(exponent as nat), 1, pattern),
{
    let mut q: u64 = significand;
    let mut e: u32 = exponent;
    while q < BINADE && e > 0
        invariant
            q < 2 * BINADE,
            e <= exponent <= 2045,
            q * pow2(e as nat) == significand * pow2(exponent as nat),
        decreases e,
    {
        proof {
            let k: int = q as int;
            let half: int = pow2((e - 1) as nat) as int;
            lemma_pow2_unfold(e as nat);
            assert(k * (2 * half) == (2 * k) * half) by (nonlinear_arith);
        }
        q = q * 2;
        e = e - 1;
    }
    proof {
        lemma_joined(q as nat, e as nat);
        lemma_exact_is_nearest(
            significand * pow2(exponent as nat),
            1,
            (e * BINADE + q) as u64,
        );
    }
    e as u64 * BINADE + q
}

/// A count of few bits needs no rounding at any scale.
pub proof fn lemma_small_counts_are_exact(count: u32, scale: u32)
    requires
        scale <= 2045,
    ensures
        exists|pattern: u64|
            pattern < INFINITE && #[trigger] grains(pattern) == count * pow2(scale as nat),
{
    lemma_exact_from(count as nat, scale as nat);
}

proof fn lemma_exact_from(q: nat, e: nat)
    requires
        q < 2 * BINADE,
        e <= 2045,
    ensures
        exists|pattern: u64| pattern < INFINITE && #[trigger] grains(pattern) == q * pow2(e),
    decreases e,
{
    if e == 0 || q >= BINADE {
        lemma_joined(q, e);
        assert(grains((e * BINADE + q) as u64) == q * pow2(e));
    } else {
        lemma_pow2_unfold(e);
        let half: int = pow2((e - 1) as nat) as int;
        assert(q * (2 * half) == (2 * q) * half) by (nonlinear_arith);
        lemma_exact_from(2 * q, (e - 1) as nat);
    }
}

/// A length that is off by less than a quarter of the spacing rounds back.
proof fn lemma_small_change(pattern: u64, exact: int)
    requires
        0 < pattern < INFINITE,
        exponent(pattern) >= 2,
        grains(pattern) - pow2((exponent(pattern) - 2) as nat) < exact,
        exact < grains(pattern) + pow2((exponent(pattern) - 2) as nat),
    ensures
        is_nearest(exact, 1, pattern),
{
    let e = exponent(pattern);
    lemma_pow2_unfold(e);
    lemma_pow2_unfold((e - 1) as nat);
    if exact >= grains(pattern) {
        lemma_grains_step(pattern);
        lemma_neighbour_is_nearest(exact, 1, pattern);
    } else {
        let lower = (pattern - 1) as u64;
        lemma_grains_step(lower);
        if exponent(lower) > e - 1 {
            lemma_pow2_strictly_increases((e - 1) as nat, exponent(lower));
        }
        lemma_neighbour_is_nearest(exact, 1, lower);
    }
}

/// A pattern whose spacing is far finer is shorter than a quarter of the spacing
/// of the other.
proof fn lemma_far_finer(fine: u64, coarse_exponent: nat)
    requires
        fine < INFINITE,
        exponent(fine) + 60 < coarse_exponent,
    ensures
        grains(fine) < pow2((coarse_exponent - 2) as nat),
{
    let q: int = significand(fine) as int;
    let p: int = pow2(exponent(fine)) as int;
    lemma_binade_is_power();
    lemma_pow2_pos(exponent(fine));
    assert(q * p < 2 * BINADE * p) by (nonlinear_arith)
        requires
            q < 2 * BINADE,
            p > 0,
    ;
    lemma_pow2_adds(53, exponent(fine));
    lemma_pow2_strictly_increases(53 + exponent(fine), (coarse_exponent - 2) as nat);
}

/// Two patterns measured in the finer of their two spacings.
fn aligned(long: u64, short: u64) -> (counts: Option<(u128, u128, u32)>)
    requires
        short <= long < INFINITE,
    ensures
        match counts {
            Some((a, b, scale)) => {
                &&& grains(long) == a * pow2(scale as nat)
                &&& grains(short) == b * pow2(scale as nat)
                &&& b <= a < 0x80_0000_0000_0000_0000_0000_0000_0000
                &&& b < 2 * BINADE
                &&& scale <= 2045
            },
            None => {
                &&& exponent(long) >= 2
                &&& grains(short) < pow2((exponent(long) - 2) as nat)
            },
        },
{
    let (q, e) = split(long);
    let (r, f) = split(short);
    proof {
        if short < long {
            lemma_grains_increase(short, long);
        }
    }
    let apart: u32 = e - f;
    if apart > 60 {
        proof {
            lemma_far_finer(short, e as nat);
        }
        return None;
    }
    let ratio = power_of_two(apart);
    proof {
        let k: int = q as int;
        let t: int = ratio as int;
        let p: int = pow2(f as nat) as int;
        lemma_pow2_adds(apart as nat, f as nat);
        assert(k * (t * p) == (k * t) * p) by (nonlinear_arith);
        lemma2_to64();
        lemma2_to64_rest();
        if apart < 60 {
            lemma_pow2_strictly_increases(apart as nat, 60);
        }
        assert(0 <= k * t < 0x80_0000_0000_0000_0000_0000_0000_0000) by (nonlinear_arith)
            requires
                0 <= k < 2 * BINADE,
                0 <= t <= 0x1000_0000_0000_0000,
        ;
        lemma_pow2_pos(f as nat);
        let a: int = k * t;
        let b: int = r as int;
        assert(b <= a) by (nonlinear_arith)
            requires
                b * p <= a * p,
                p > 0,
        ;
    }
    Some((q as u128 * ratio, r as u128, f))
}

/// The pattern nearest to the sum of two finite lengths.
pub(crate) fn sum_of(long: u64, short: u64) -> (pattern: u64)
    requires
        short <= long < INFINITE,
    ensures
        is_nearest((grains(long) + grains(short)) as int, 1, pattern),
{
    match aligned(long, short) {
        Some((a, b, scale)) => {
            proof {
                let p: int = pow2(scale as nat) as int;
                assert((a + b) * p == a * p + b * p) by (nonlinear_arith);
            }
            round(a + b, scale)
        },
        None => {
            proof {
                lemma_small_change(long, (grains(long) + grains(short)) as int);
            }
            long
        },
    }
}

/// The pattern nearest to the difference of two finite lengths.
pub(crate) fn difference_of(long: u64, short: u64) -> (pattern: u64)
    requires
        short <= long < INFINITE,
    ensures
        is_nearest(grains(long) - grains(short), 1, pattern),
{
    match aligned(long, short) {
        Some((a, b, scale)) => {
            proof {
                let p: int = pow2(scale as nat) as int;
                assert((a - b) * p == a * p - b * p) by (nonlinear_arith);
            }
            round(a - b, scale)
        },
        None => {
            proof {
                lemma_small_change(long, grains(long) - grains(short));
            }
            long
        },
    }
}

/// The pattern nearest to half of a finite length.
pub(crate) fn half_of(pattern: u64) -> (half: u64)
    requires
        pattern < INFINITE,
    ensures
        is_nearest(grains(pattern) as int, 2, half),
{
    let (q, e) = split(pattern);
    if e > 0 {
        proof {
            let k: int = q as int;
            let p: int = pow2((e - 1) as nat) as int;
            lemma_pow2_unfold(e as nat);
            lemma_joined(q as nat, (e - 1) as nat);
            assert((e - 1) * BINADE + q == pattern - BINADE);
            assert(2 * (k * p) == k * (2 * p)) by (nonlinear_arith);
            lemma_exact_is_nearest(grains(pattern) as int, 2, (pattern - BINADE) as u64);
        }
        pattern - BINADE
    } else {
        let lower: u64 = q / 2;
        proof {
            lemma2_to64();
            lemma_joined(lower as nat, 0);
            lemma_joined((lower + 1) as nat, 0);
            let one: int = pow2(0) as int;
            assert(lower * one == lower && (lower + 1) * one == lower + 1 && q * one == q)
                by (nonlinear_arith)
                requires
                    one == 1,
            ;
            lemma_neighbour_is_nearest(grains(pattern) as int, 2, lower);
        }
        if q % 2 == 0 || lower % 2 == 0 {
            lower
        } else {
            lower + 1
        }
    }
}

} // verus!
