//! The catalog of easing curves used for animated pointer motion.
//!
//! Every curve maps an elapsed time within a duration to an interpolated
//! value between a start quantity `b` and `b + c`.  The elapsed fraction is
//! first scaled to the fixed grid `[0, EASE_ONE]`; each curve is then an
//! exact rational function of that grid point, evaluated in integer
//! arithmetic with truncating division.  The two sine-like curves use the
//! classical rational approximation of the sine on a quarter period, which
//! is exact at both endpoints.  Every curve returns exactly `b` at elapsed
//! time zero and exactly `b + c` at the full duration
//! ([`lemma_easing_boundaries`]), and never leaves the closed interval
//! between `b` and `b + c` ([`lemma_eased_at_between`]).

use vstd::prelude::*;
use vstd::arithmetic::div_mod::{
    lemma_div_is_ordered, lemma_div_multiples_vanish, lemma_div_of0, lemma_div_pos_is_pos,
};
use vstd::arithmetic::mul::{lemma_mul_inequality, lemma_mul_is_commutative, lemma_mul_unary_negation};

verus! {

/// One unit of elapsed fraction: the grid point that stands for "the whole
/// duration has passed".
pub const EASE_ONE: u64 = 1048576;

/// The members of the easing catalog.
#[derive(Clone, Copy, Debug, PartialEq, Eq, Structural)]
pub enum Easing {
    Linear,
    InQuad,
    OutQuad,
    InOutQuad,
    InCubic,
    OutCubic,
    InOutCubic,
    InSine,
    OutSine,
    InOutSine,
}

/// Integer division that truncates toward zero, as the executable `/` on
/// signed machine integers does.
pub open spec fn div_trunc(a: int, d: int) -> int
    recommends
        d > 0,
{
    if a >= 0 {
        a / d
    } else {
        -((-a) / d)
    }
}

/// The elapsed fraction on the grid: `EASE_ONE` once the duration is over,
/// otherwise `t * EASE_ONE / d` rounded down.
pub open spec fn frac_of(t: int, d: int) -> int
    recommends
        d > 0,
{
    if t >= d {
        EASE_ONE as int
    } else {
        (t * EASE_ONE as int) / d
    }
}

/// The value of curve `e` at grid point `u` in `[0, EASE_ONE]`, easing from
/// `b` to `b + c`.
pub open spec fn eased_at(e: Easing, u: int, b: int, c: int) -> int
    recommends
        0 <= u <= EASE_ONE as int,
{
    if e == Easing::InSine {
        b + c - div_trunc(c * ratio_num(e, u), ratio_den(e, u))
    } else {
        b + div_trunc(c * ratio_num(e, u), ratio_den(e, u))
    }
}

/// The numerator of the single truncating division that curve `e` performs
/// at grid point `u` (the `InSine` curve applies it mirrored, easing down
/// from `b + c`).
pub open spec fn ratio_num(e: Easing, u: int) -> int {
    let k = EASE_ONE as int;
    match e {
        Easing::Linear => u,
        Easing::InQuad => u * u,
        Easing::OutQuad => u * (2 * k - u),
        Easing::InOutQuad => if 2 * u < k {
            2 * (u * u)
        } else {
            let w = 2 * u - k;
            k * k + 2 * k * w - w * w
        },
        Easing::InCubic => u * u * u,
        Easing::OutCubic => k * k * k - (k - u) * (k - u) * (k - u),
        Easing::InOutCubic => if 2 * u < k {
            4 * (u * u * u)
        } else {
            k * k * k - 4 * ((k - u) * (k - u) * (k - u))
        },
        Easing::InSine => {
            let v = k - u;
            4 * (v * (2 * k - v))
        },
        Easing::OutSine => 4 * (u * (2 * k - u)),
        Easing::InOutSine => {
            let s = u * (2 * k - u);
            16 * (s * s)
        },
    }
}

/// The denominator that goes with [`ratio_num`].
pub open spec fn ratio_den(e: Easing, u: int) -> int {
    let k = EASE_ONE as int;
    match e {
        Easing::Linear => k,
        Easing::InQuad => k * k,
        Easing::OutQuad => k * k,
        Easing::InOutQuad => if 2 * u < k {
            k * k
        } else {
            2 * (k * k)
        },
        Easing::InCubic => k * k * k,
        Easing::OutCubic => k * k * k,
        Easing::InOutCubic => k * k * k,
        Easing::InSine => {
            let v = k - u;
            5 * (k * k) - v * (2 * k - v)
        },
        Easing::OutSine => 5 * (k * k) - u * (2 * k - u),
        Easing::InOutSine => {
            let s = u * (2 * k - u);
            (5 * (k * k) - s) * (5 * (k * k) - s)
        },
    }
}

/// Truncating division of a scaled product stays between `0` and the
/// scaling factor `c` when the ratio `num / den` lies in `[0, 1]`.
proof fn lemma_div_trunc_between(c: int, num: int, den: int)
    requires
        den > 0,
        0 <= num <= den,
    ensures
        c >= 0 ==> 0 <= div_trunc(c * num, den) <= c,
        c <= 0 ==> c <= div_trunc(c * num, den) <= 0,
{
    if c >= 0 {
        lemma_mul_inequality(num, den, c);
        lemma_mul_is_commutative(num, c);
        lemma_mul_is_commutative(den, c);
        assert(c * num <= c * den);
        lemma_mul_inequality(0, num, c);
        lemma_mul_is_commutative(0, c);
        assert(0 <= c * num);
        lemma_div_pos_is_pos(c * num, den);
        lemma_div_is_ordered(c * num, c * den, den);
        lemma_div_multiples_vanish(c, den);
        lemma_mul_is_commutative(c, den);
        assert((den * c) / den == c);
    } else {
        lemma_mul_inequality(num, den, -c);
        lemma_mul_is_commutative(num, -c);
        lemma_mul_is_commutative(den, -c);
        assert((-c) * num <= (-c) * den);
        lemma_mul_inequality(0, num, -c);
        lemma_mul_is_commutative(0, -c);
        assert(0 <= (-c) * num);
        lemma_mul_unary_negation(c, num);
        assert(-(c * num) == (-c) * num);
        lemma_div_pos_is_pos(-(c * num), den);
        lemma_div_is_ordered(-(c * num), (-c) * den, den);
        lemma_div_multiples_vanish(-c, den);
        lemma_mul_is_commutative(-c, den);
        assert((den * (-c)) / den == -c);
    }
}

/// Exactness at the full ratio: dividing `c * den` by `den` gives back `c`.
proof fn lemma_div_trunc_exact(c: int, den: int)
    requires
        den > 0,
    ensures
        div_trunc(c * den, den) == c,
{
    if c >= 0 {
        lemma_div_multiples_vanish(c, den);
        lemma_mul_is_commutative(c, den);
    } else {
        lemma_div_multiples_vanish(-c, den);
        lemma_mul_unary_negation(c, den);
        lemma_mul_is_commutative(-c, den);
        assert(-(c * den) == (-c) * den);
        assert((den * (-c)) / den == -c);
    }
}

/// Division of zero by a positive denominator is zero.
proof fn lemma_div_trunc_zero(den: int)
    requires
        den > 0,
    ensures
        div_trunc(0, den) == 0,
{
    lemma_div_of0(den);
}

/// The numerator of each curve stays within its denominator, and the
/// denominator is positive, over the whole grid.
proof fn lemma_ratio_bounds(e: Easing, u: int)
    requires
        0 <= u <= EASE_ONE as int,
    ensures
        ratio_den(e, u) > 0,
        0 <= ratio_num(e, u) <= ratio_den(e, u),
{
    let k = EASE_ONE as int;
    match e {
        Easing::Linear => {},
        Easing::InQuad => {
            assert(0 <= u * u <= k * k) by (nonlinear_arith)
                requires 0 <= u <= k;
        },
        Easing::OutQuad => {
            assert(0 <= u * (2 * k - u) <= k * k) by (nonlinear_arith)
                requires 0 <= u <= k;
        },
        Easing::InOutQuad => {
            if 2 * u < k {
                assert(0 <= 2 * (u * u) <= k * k) by (nonlinear_arith)
                    requires 0 <= u, 2 * u < k;
            } else {
                let w = 2 * u - k;
                assert(0 <= k * k + 2 * k * w - w * w <= 2 * (k * k)) by (nonlinear_arith)
                    requires 0 <= w <= k, k > 0;
            }
        },
        Easing::InCubic => {
            assert(0 <= u * u * u <= k * k * k) by (nonlinear_arith)
                requires 0 <= u <= k;
        },
        Easing::OutCubic => {
            assert(0 <= k * k * k - (k - u) * (k - u) * (k - u) <= k * k * k) by (nonlinear_arith)
                requires 0 <= u <= k;
        },
        Easing::InOutCubic => {
            if 2 * u < k {
                assert(0 <= 4 * (u * u * u) <= k * k * k) by (nonlinear_arith)
                    requires 0 <= u, 2 * u < k;
            } else {
                assert(0 <= k * k * k - 4 * ((k - u) * (k - u) * (k - u)) <= k * k * k)
                    by (nonlinear_arith)
                    requires 0 <= u <= k, 2 * u >= k;
            }
        },
        Easing::InSine => {
            let v = k - u;
            assert(0 <= 4 * (v * (2 * k - v)) <= 5 * (k * k) - v * (2 * k - v) && 5 * (k * k) - v
                * (2 * k - v) > 0) by (nonlinear_arith)
                requires 0 <= v <= k, k > 0;
        },
        Easing::OutSine => {
            assert(0 <= 4 * (u * (2 * k - u)) <= 5 * (k * k) - u * (2 * k - u) && 5 * (k * k) - u
                * (2 * k - u) > 0) by (nonlinear_arith)
                requires 0 <= u <= k, k > 0;
        },
        Easing::InOutSine => {
            assert(0 <= u * (2 * k - u) <= k * k) by (nonlinear_arith)
                requires 0 <= u <= k;
            let s = u * (2 * k - u);
            assert(0 <= 16 * (s * s) <= (5 * (k * k) - s) * (5 * (k * k) - s) && (5 * (k * k) - s)
                * (5 * (k * k) - s) > 0) by (nonlinear_arith)
                requires 0 <= s <= k * k, k > 0;
        },
    }
}

/// Every curve stays within the closed interval between its start value `b`
/// and its end value `b + c`.
pub proof fn lemma_eased_at_between(e: Easing, u: int, b: int, c: int)
    requires
        0 <= u <= EASE_ONE as int,
    ensures
        c >= 0 ==> b <= eased_at(e, u, b, c) <= b + c,
        c <= 0 ==> b + c <= eased_at(e, u, b, c) <= b,
{
    lemma_ratio_bounds(e, u);
    lemma_div_trunc_between(c, ratio_num(e, u), ratio_den(e, u));
}

/// The boundary contract of the catalog: every curve starts exactly at `b`
/// and ends exactly at `b + c`.
pub proof fn lemma_easing_boundaries(e: Easing, b: int, c: int)
    ensures
        eased_at(e, 0, b, c) == b,
        eased_at(e, EASE_ONE as int, b, c) == b + c,
{
    let k = EASE_ONE as int;
    lemma_ratio_bounds(e, 0);
    lemma_ratio_bounds(e, k);
    match e {
        Easing::Linear => {},
        Easing::InQuad => {
            assert(0 * 0 == 0 && k * k == k * k) by (nonlinear_arith);
        },
        Easing::OutQuad => {
            assert(0 * (2 * k - 0) == 0 && k * (2 * k - k) == k * k) by (nonlinear_arith);
        },
        Easing::InOutQuad => {
            assert(2 * (0 * 0) == 0) by (nonlinear_arith);
            assert(k * k + 2 * k * (2 * k - k) - (2 * k - k) * (2 * k - k) == 2 * (k * k))
                by (nonlinear_arith);
        },
        Easing::InCubic => {
            assert(0 * 0 * 0 == 0) by (nonlinear_arith);
        },
        Easing::OutCubic => {
            assert(k * k * k - (k - 0) * (k - 0) * (k - 0) == 0 && k * k * k - (k - k) * (k - k)
                * (k - k) == k * k * k) by (nonlinear_arith);
        },
        Easing::InOutCubic => {
            assert(4 * (0 * 0 * 0) == 0) by (nonlinear_arith);
            assert(k * k * k - 4 * ((k - k) * (k - k) * (k - k)) == k * k * k)
                by (nonlinear_arith);
        },
        Easing::InSine => {
            assert(4 * ((k - 0) * (2 * k - (k - 0))) == 5 * (k * k) - (k - 0) * (2 * k - (k - 0)))
                by (nonlinear_arith);
            assert(4 * ((k - k) * (2 * k - (k - k))) == 0) by (nonlinear_arith);
        },
        Easing::OutSine => {
            assert(4 * (0 * (2 * k - 0)) == 0) by (nonlinear_arith);
            assert(4 * (k * (2 * k - k)) == 5 * (k * k) - k * (2 * k - k)) by (nonlinear_arith);
        },
        Easing::InOutSine => {
            assert(16 * ((0 * (2 * k - 0)) * (0 * (2 * k - 0))) == 0) by (nonlinear_arith);
            assert(16 * ((k * (2 * k - k)) * (k * (2 * k - k))) == (5 * (k * k) - k * (2 * k - k))
                * (5 * (k * k) - k * (2 * k - k))) by (nonlinear_arith);
        },
    }
    if e == Easing::InSine {
        assert(ratio_num(e, 0) == ratio_den(e, 0));
        assert(ratio_num(e, k) == 0);
        lemma_div_trunc_exact(c, ratio_den(e, 0));
        lemma_mul_is_commutative(c, ratio_den(e, 0));
        assert(c * ratio_num(e, 0) == c * ratio_den(e, 0));
        assert(c * ratio_num(e, k) == 0) by {
            vstd::arithmetic::mul::lemma_mul_by_zero_is_zero(c);
        }
        lemma_div_trunc_zero(ratio_den(e, k));
    } else {
        assert(ratio_num(e, 0) == 0);
        assert(ratio_num(e, k) == ratio_den(e, k));
        lemma_div_trunc_exact(c, ratio_den(e, k));
        assert(c * ratio_num(e, k) == c * ratio_den(e, k));
        assert(c * ratio_num(e, 0) == 0) by {
            vstd::arithmetic::mul::lemma_mul_by_zero_is_zero(c);
        }
        lemma_div_trunc_zero(ratio_den(e, 0));
    }
}

/// Truncating division of `c * num` by `den`, computed on unsigned
/// magnitudes so that the machine division matches [`div_trunc`].
fn scaled(c: i64, num: u128, den: u128) -> (r: i64)
    requires
        0 < den <= 0x8000000000000000000000u128,
        num <= den,
        -0x10000000000 <= c <= 0x10000000000,
    ensures
        r as int == div_trunc(c as int * num as int, den as int),
        c >= 0 ==> 0 <= r <= c,
        c <= 0 ==> c <= r <= 0,
{
    proof {
        lemma_div_trunc_between(c as int, num as int, den as int);
    }
    if c >= 0 {
        let cu: u128 = c as u128;
        proof {
            assert(cu as int * num as int <= 0x10000000000 * 0x8000000000000000000000)
                by (nonlinear_arith)
                requires 0 <= cu as int <= 0x10000000000, 0 <= num as int <= 0x8000000000000000000000;
        }
        let q: u128 = cu * num / den;
        q as i64
    } else {
        let cu: u128 = (-c) as u128;
        proof {
            assert(cu as int * num as int <= 0x10000000000 * 0x8000000000000000000000)
                by (nonlinear_arith)
                requires 0 <= cu as int <= 0x10000000000, 0 <= num as int <= 0x8000000000000000000000;
            lemma_mul_unary_negation(c as int, num as int);
            assert(cu as int == -(c as int));
            assert(cu as int * num as int == -(c as int * num as int));
        }
        let q: u128 = cu * num / den;
        -(q as i64)
    }
}

/// The elapsed fraction on the grid, as executed: `EASE_ONE` once `elapsed`
/// reaches `duration`, otherwise scaled and rounded down.
fn frac(elapsed: u64, duration: u64) -> (u: u64)
    requires
        duration > 0,
    ensures
        u as int == frac_of(elapsed as int, duration as int),
        u <= EASE_ONE,
{
    if elapsed >= duration {
        EASE_ONE
    } else {
        proof {
            lemma_div_pos_is_pos(elapsed as int * EASE_ONE as int, duration as int);
            lemma_mul_inequality(elapsed as int, duration as int, EASE_ONE as int);
            lemma_div_is_ordered(
                elapsed as int * EASE_ONE as int,
                duration as int * EASE_ONE as int,
                duration as int,
            );
            lemma_div_multiples_vanish(EASE_ONE as int, duration as int);
            lemma_mul_is_commutative(duration as int, EASE_ONE as int);
        }
        ((elapsed as u128) * (EASE_ONE as u128) / (duration as u128)) as u64
    }
}

/// The interpolated value of curve `e` between `start` and `target`, at
/// `elapsed` milliseconds into a run of `duration` milliseconds.
pub fn ease(e: Easing, elapsed: u64, duration: u64, start: i32, target: i32) -> (r: i32)
    requires
        duration > 0,
    ensures
        r as int == eased_at(
            e,
            frac_of(elapsed as int, duration as int),
            start as int,
            target as int - start as int,
        ),
        start <= target ==> start <= r <= target,
        target <= start ==> target <= r <= start,
{
    let u: u64 = frac(elapsed, duration);
    let c: i64 = target as i64 - start as i64;
    let uu: u128 = u as u128;
    let k: u128 = EASE_ONE as u128;
    let ghost ui: int = uu as int;
    proof {
        lemma_ratio_bounds(e, u as int);
        lemma_eased_at_between(e, u as int, start as int, c as int);
    }
    let (num, den): (u128, u128) = match e {
        Easing::Linear => (uu, k),
        Easing::InQuad => {
            proof {
                assert(k as int * k as int == 1099511627776) by (nonlinear_arith)
                    requires k as int == 1048576;
                assert(0 <= ui * ui <= 1099511627776) by (nonlinear_arith)
                    requires 0 <= ui <= 1048576;
            }
            (uu * uu, k * k)
        },
        Easing::OutQuad => {
            proof {
                assert(k as int * k as int == 1099511627776) by (nonlinear_arith)
                    requires k as int == 1048576;
                assert(0 <= ui * (2 * 1048576 - ui) <= 1099511627776) by (nonlinear_arith)
                    requires 0 <= ui <= 1048576;
            }
            (uu * (2 * k - uu), k * k)
        },
        Easing::InOutQuad => if 2 * u < EASE_ONE {
            proof {
                assert(k as int * k as int == 1099511627776) by (nonlinear_arith)
                    requires k as int == 1048576;
                assert(0 <= ui * ui && 2 * (ui * ui) <= 1099511627776) by (nonlinear_arith)
                    requires 0 <= ui, 2 * ui < 1048576;
            }
            (2 * (uu * uu), k * k)
        } else {
            let w: u128 = 2 * uu - k;
            proof {
                assert(k as int * k as int == 1099511627776) by (nonlinear_arith)
                    requires k as int == 1048576;
                assert(0 <= w as int * w as int <= 1099511627776 && 1099511627776 + 2097152 * (
                w as int) - w as int * w as int <= 2199023255552) by (nonlinear_arith)
                    requires 0 <= w as int <= 1048576;
            }
            (k * k + 2 * k * w - w * w, 2 * (k * k))
        },
        Easing::InCubic => {
            proof {
                assert(k as int * k as int == 1099511627776 && k as int * k as int * (k as int)
                    == 1152921504606846976) by (nonlinear_arith)
                    requires k as int == 1048576;
                assert(0 <= ui * ui <= 1099511627776 && 0 <= ui * ui * ui
                    <= 1152921504606846976) by (nonlinear_arith)
                    requires 0 <= ui <= 1048576;
            }
            (uu * uu * uu, k * k * k)
        },
        Easing::OutCubic => {
            proof {
                assert(k as int * k as int == 1099511627776 && k as int * k as int * (k as int)
                    == 1152921504606846976) by (nonlinear_arith)
                    requires k as int == 1048576;
                assert(0 <= (1048576 - ui) * (1048576 - ui) <= 1099511627776 && 0 <= (1048576
                    - ui) * (1048576 - ui) * (1048576 - ui) <= 1152921504606846976)
                    by (nonlinear_arith)
                    requires 0 <= ui <= 1048576;
            }
            ((k * k * k) - (k - uu) * (k - uu) * (k - uu), k * k * k)
        },
        Easing::InOutCubic => if 2 * u < EASE_ONE {
            proof {
                assert(k as int * k as int == 1099511627776 && k as int * k as int * (k as int)
                    == 1152921504606846976) by (nonlinear_arith)
                    requires k as int == 1048576;
                assert(0 <= ui * ui <= 1099511627776 && 0 <= ui * ui * ui && 4 * (ui * ui * ui)
                    <= 1152921504606846976) by (nonlinear_arith)
                    requires 0 <= ui, 2 * ui < 1048576;
            }
            (4 * (uu * uu * uu), k * k * k)
        } else {
            proof {
                assert(k as int * k as int == 1099511627776 && k as int * k as int * (k as int)
                    == 1152921504606846976) by (nonlinear_arith)
                    requires k as int == 1048576;
                assert(0 <= (1048576 - ui) * (1048576 - ui) <= 1099511627776 && 0 <= 4 * ((
                1048576 - ui) * (1048576 - ui) * (1048576 - ui)) <= 1152921504606846976)
                    by (nonlinear_arith)
                    requires 0 <= ui <= 1048576, 2 * ui >= 1048576;
            }
            (k * k * k - 4 * ((k - uu) * (k - uu) * (k - uu)), k * k * k)
        },
        Easing::InSine => {
            let v: u128 = k - uu;
            proof {
                assert(k as int * k as int == 1099511627776) by (nonlinear_arith)
                    requires k as int == 1048576;
                assert(0 <= v as int * (2 * 1048576 - v as int) <= 1099511627776)
                    by (nonlinear_arith)
                    requires 0 <= v as int <= 1048576;
            }
            (4 * (v * (2 * k - v)), 5 * (k * k) - v * (2 * k - v))
        },
        Easing::OutSine => {
            proof {
                assert(k as int * k as int == 1099511627776) by (nonlinear_arith)
                    requires k as int == 1048576;
                assert(0 <= ui * (2 * 1048576 - ui) <= 1099511627776) by (nonlinear_arith)
                    requires 0 <= ui <= 1048576;
            }
            (4 * (uu * (2 * k - uu)), 5 * (k * k) - uu * (2 * k - uu))
        },
        Easing::InOutSine => {
            proof {
                assert(k as int * k as int == 1099511627776) by (nonlinear_arith)
                    requires k as int == 1048576;
                assert(0 <= ui * (2 * 1048576 - ui) <= 1099511627776) by (nonlinear_arith)
                    requires 0 <= ui <= 1048576;
            }
            let s: u128 = uu * (2 * k - uu);
            proof {
                assert(0 <= s as int * (s as int) <= 1208925819614629174706176 && 0 <= (
                5497558138880 - s as int) * (5497558138880 - s as int)
                    <= 30223145490365729367654400 && 16 * (s as int * (s as int)) <= (
                5497558138880 - s as int) * (5497558138880 - s as int)) by (nonlinear_arith)
                    requires 0 <= s as int <= 1099511627776;
            }
            (16 * (s * s), (5 * (k * k) - s) * (5 * (k * k) - s))
        },
    };
    proof {
        assert(num as int == ratio_num(e, u as int));
        assert(den as int == ratio_den(e, u as int));
    }
    let val: i64 = scaled(c, num, den);
    if matches!(e, Easing::InSine) {
        (start as i64 + c - val) as i32
    } else {
        (start as i64 + val) as i32
    }
}

} // verus!
