use crate::rounding::{
    lemma_round_div_bounds, lemma_round_div_exact, lemma_round_div_monotonic, round_div,
    round_div_u128,
};
use vstd::arithmetic::div_mod::{lemma_mod_bound, lemma_mod_multiples_basic, lemma_small_mod};
use vstd::arithmetic::mul::lemma_mul_upper_bound;
use vstd::prelude::*;

verus! {

/// The largest tick domain the easing arithmetic accepts; it keeps every
/// intermediate product of the exact rational evaluation inside a pair of
/// machine words.
pub const MAX_EASING_STEPS: usize = 0xffff_ffff;

/// An animation easing curve: a map from a linear progress step to an
/// eased step in the same integer domain.
#[derive(Copy, Clone, PartialEq, Eq, Structural, Debug)]
pub enum Easing {
    Linear,
    BounceOut,
    Oscillate,
    QuadraticEaseIn,
    QuadraticEaseOut,
}

/// The progress step held back into the valid domain `0..=max_steps`.
pub open spec fn clamp_step(step: int, max_steps: int) -> int {
    if step <= max_steps {
        step
    } else {
        max_steps
    }
}

/// The ease-in curve: `round(max_steps * t * t)` at `t = s / m`.
pub open spec fn spec_quad_in(s: int, m: int) -> int {
    round_div(s * s, m)
}

/// The ease-out curve: `round(max_steps * (1 - (1 - t) * (1 - t)))` at
/// `t = s / m`.
pub open spec fn spec_quad_out(s: int, m: int) -> int {
    round_div(s * (2 * m - s), m)
}

/// The classic four-segment bounce curve, evaluated exactly: each segment
/// is `round(m * (7.5625 * (t - o)^2 + a))` at `t = s / m`, with the
/// usual elevenths as thresholds and segment constants `(o, a)`.
pub open spec fn spec_bounce_out(s: int, m: int) -> int {
    if 11 * s < 4 * m {
        round_div(121 * (s * s), 16 * m)
    } else if 11 * s < 8 * m {
        let d = 11 * s - 6 * m;
        round_div(4 * (d * d) + 48 * (m * m), 64 * m)
    } else if 11 * s < 10 * m {
        let d = 11 * s - 9 * m;
        round_div(d * d + 15 * (m * m), 16 * m)
    } else {
        let d = 22 * s - 21 * m;
        round_div(d * d + 63 * (m * m), 64 * m)
    }
}

/// Numerator of a rational approximation of the sine of `k / n` of a
/// full turn: exact at every quarter turn and within two thousandths of
/// the true sine elsewhere, which is far below one rounded cell at the
/// sixteenth-amplitude the oscillating curve uses it with.
pub open spec fn spec_sin_turn_num(k: int, n: int) -> int {
    if 2 * k <= n {
        32 * (k * (n - 2 * k))
    } else {
        -(32 * ((2 * k - n) * (4 * n - 4 * k)))
    }
}

/// Denominator of the rational sine approximation; always positive.
pub open spec fn spec_sin_turn_den(k: int, n: int) -> int {
    if 2 * k <= n {
        5 * (n * n) - 8 * (k * (n - 2 * k))
    } else {
        20 * (n * n) - 8 * ((2 * k - n) * (4 * n - 4 * k))
    }
}

/// The oscillating curve: `t` plus a sine wave of four full periods at a
/// sixteenth of the amplitude, clamped to `[0, 1]`, times `max_steps`.
pub open spec fn spec_oscillate(s: int, m: int) -> int {
    let k = (4 * s) % m;
    let sn = spec_sin_turn_num(k, m);
    let sd = spec_sin_turn_den(k, m);
    let raw = 16 * (sd * s) + sn * m;
    let hi = 16 * (sd * m);
    let num = if raw < 0 {
        0
    } else if raw > hi {
        hi
    } else {
        raw
    };
    round_div(num, 16 * sd)
}

/// Where an easing curve puts a progress step: the eased step
/// `round(max_steps * f(step / max_steps))`, with the step clamped into
/// the domain first and a zero domain collapsing to zero.
pub open spec fn spec_pos(e: Easing, step: int, max_steps: int) -> int {
    let s = clamp_step(step, max_steps);
    if max_steps <= 0 {
        0
    } else {
        match e {
            Easing::Linear => s,
            Easing::BounceOut => spec_bounce_out(s, max_steps),
            Easing::Oscillate => spec_oscillate(s, max_steps),
            Easing::QuadraticEaseIn => spec_quad_in(s, max_steps),
            Easing::QuadraticEaseOut => spec_quad_out(s, max_steps),
        }
    }
}

proof fn lemma_quad_in_props(s: int, m: int)
    requires
        0 < m,
        0 <= s <= m,
    ensures
        0 <= spec_quad_in(s, m) <= m,
        s == 0 ==> spec_quad_in(s, m) == 0,
        s == m ==> spec_quad_in(s, m) == m,
{
    assert(0 <= s * s && s * s <= m * m) by (nonlinear_arith)
        requires
            0 <= s <= m,
    ;
    lemma_round_div_bounds(s * s, m, m);
    if s == 0 {
        lemma_round_div_bounds(0, m, 0);
    }
    if s == m {
        lemma_round_div_exact(m, m);
    }
}

proof fn lemma_quad_out_props(s: int, m: int)
    requires
        0 < m,
        0 <= s <= m,
    ensures
        0 <= spec_quad_out(s, m) <= m,
        s == 0 ==> spec_quad_out(s, m) == 0,
        s == m ==> spec_quad_out(s, m) == m,
{
    assert(0 <= s * (2 * m - s) && s * (2 * m - s) <= m * m) by (nonlinear_arith)
        requires
            0 <= s <= m,
    ;
    lemma_round_div_bounds(s * (2 * m - s), m, m);
    if s == 0 {
        lemma_round_div_bounds(0, m, 0);
    }
    if s == m {
        assert(m * (2 * m - m) == m * m) by (nonlinear_arith);
        lemma_round_div_exact(m, m);
    }
}

proof fn lemma_bounce_seg1(s: int, m: int)
    by (nonlinear_arith)
    requires
        0 <= s,
        11 * s < 4 * m,
    ensures
        0 <= 121 * (s * s) <= m * (16 * m),
{
}

proof fn lemma_bounce_seg2(s: int, m: int, d: int)
    by (nonlinear_arith)
    requires
        0 < m,
        4 * m <= 11 * s,
        11 * s < 8 * m,
        d == 11 * s - 6 * m,
    ensures
        0 <= 4 * (d * d) + 48 * (m * m) <= m * (64 * m),
{
}

proof fn lemma_bounce_seg3(s: int, m: int, d: int)
    by (nonlinear_arith)
    requires
        0 < m,
        8 * m <= 11 * s,
        11 * s < 10 * m,
        d == 11 * s - 9 * m,
    ensures
        0 <= d * d + 15 * (m * m) <= m * (16 * m),
{
}

proof fn lemma_bounce_seg4(s: int, m: int, d: int)
    by (nonlinear_arith)
    requires
        0 < m,
        10 * m <= 11 * s,
        s <= m,
        d == 22 * s - 21 * m,
    ensures
        0 <= d * d + 63 * (m * m) <= m * (64 * m),
{
}

proof fn lemma_bounce_props(s: int, m: int)
    requires
        0 < m,
        0 <= s <= m,
    ensures
        0 <= spec_bounce_out(s, m) <= m,
        s == 0 ==> spec_bounce_out(s, m) == 0,
        s == m ==> spec_bounce_out(s, m) == m,
{
    if 11 * s < 4 * m {
        lemma_bounce_seg1(s, m);
        lemma_round_div_bounds(121 * (s * s), 16 * m, m);
        if s == 0 {
            lemma_round_div_bounds(0, 16 * m, 0);
        }
    } else if 11 * s < 8 * m {
        let d = 11 * s - 6 * m;
        lemma_bounce_seg2(s, m, d);
        lemma_round_div_bounds(4 * (d * d) + 48 * (m * m), 64 * m, m);
    } else if 11 * s < 10 * m {
        let d = 11 * s - 9 * m;
        lemma_bounce_seg3(s, m, d);
        lemma_round_div_bounds(d * d + 15 * (m * m), 16 * m, m);
    } else {
        let d = 22 * s - 21 * m;
        lemma_bounce_seg4(s, m, d);
        lemma_round_div_bounds(d * d + 63 * (m * m), 64 * m, m);
        if s == m {
            assert(d == m);
            assert(d * d + 63 * (m * m) == m * (64 * m)) by (nonlinear_arith)
                requires
                    d == m,
            ;
            lemma_round_div_exact(m, 64 * m);
        }
    }
}

proof fn lemma_sin_frac_first_half(k: int, n: int, num: int, den: int)
    by (nonlinear_arith)
    requires
        0 <= k,
        2 * k <= n,
        0 < n,
        num == 32 * (k * (n - 2 * k)),
        den == 5 * (n * n) - 8 * (k * (n - 2 * k)),
    ensures
        4 * (n * n) <= den <= 5 * (n * n),
        0 <= num <= den,
        num <= 16 * (n * n),
{
}

proof fn lemma_sin_frac_second_half(k: int, n: int, num_mag: int, den: int)
    by (nonlinear_arith)
    requires
        0 < n,
        n < 2 * k,
        k < n,
        num_mag == 32 * ((2 * k - n) * (4 * n - 4 * k)),
        den == 20 * (n * n) - 8 * ((2 * k - n) * (4 * n - 4 * k)),
    ensures
        16 * (n * n) <= den <= 20 * (n * n),
        0 <= num_mag <= den,
        num_mag <= 16 * (n * n),
{
}

proof fn lemma_oscillate_props(s: int, m: int)
    requires
        0 < m,
        0 <= s <= m,
    ensures
        0 <= spec_oscillate(s, m) <= m,
        s == 0 ==> spec_oscillate(s, m) == 0,
        s == m ==> spec_oscillate(s, m) == m,
{
    lemma_mod_bound(4 * s, m);
    let k = (4 * s) % m;
    let sn = spec_sin_turn_num(k, m);
    let sd = spec_sin_turn_den(k, m);
    if 2 * k <= m {
        lemma_sin_frac_first_half(k, m, sn, sd);
    } else {
        lemma_sin_frac_second_half(k, m, -sn, sd);
    }
    assert(0 < m * m) by (nonlinear_arith)
        requires
            0 < m,
    ;
    let raw = 16 * (sd * s) + sn * m;
    let hi = 16 * (sd * m);
    assert(sd * m >= 0 && sd * s >= 0) by (nonlinear_arith)
        requires
            sd >= 0,
            m >= 0,
            s >= 0,
    ;
    let num = if raw < 0 {
        0
    } else if raw > hi {
        hi
    } else {
        raw
    };
    assert(16 * (sd * m) == m * (16 * sd)) by (nonlinear_arith);
    assert(0 <= num <= m * (16 * sd));
    lemma_round_div_bounds(num, 16 * sd, m);
    if s == 0 {
        lemma_small_mod(0nat, m as nat);
        assert(k == 0);
        assert(num == 0);
        lemma_round_div_bounds(0, 16 * sd, 0);
    }
    if s == m {
        lemma_mod_multiples_basic(4, m);
        assert(4 * s == 4 * m);
        assert(k == 0);
        assert(sn == 0);
        assert(raw == hi);
        assert(num == hi);
        lemma_round_div_exact(m, 16 * sd);
    }
}

/// Law: every curve maps step 0 to 0.
pub proof fn lemma_pos_at_zero(e: Easing, max_steps: int)
    requires
        0 <= max_steps,
    ensures
        spec_pos(e, 0, max_steps) == 0,
{
    if max_steps > 0 {
        lemma_quad_in_props(0, max_steps);
        lemma_quad_out_props(0, max_steps);
        lemma_bounce_props(0, max_steps);
        lemma_oscillate_props(0, max_steps);
    }
}

/// Law: every curve maps a full (or clamped overlong) step exactly to
/// `max_steps`.
pub proof fn lemma_pos_at_end(e: Easing, step: int, max_steps: int)
    requires
        0 <= max_steps <= step,
    ensures
        spec_pos(e, step, max_steps) == max_steps,
{
    if max_steps > 0 {
        lemma_quad_in_props(max_steps, max_steps);
        lemma_quad_out_props(max_steps, max_steps);
        lemma_bounce_props(max_steps, max_steps);
        lemma_oscillate_props(max_steps, max_steps);
    }
}

/// Law: with a zero domain every curve returns 0, the division-by-zero
/// guard.
pub proof fn lemma_pos_zero_domain(e: Easing, step: int)
    ensures
        spec_pos(e, step, 0) == 0,
{
}

/// Law: the linear curve is the identity on the clamped step, the
/// minimum of the step and the domain end.
pub proof fn lemma_linear_pos_is_min(step: int, max_steps: int)
    requires
        0 <= step,
        0 <= max_steps,
    ensures
        spec_pos(Easing::Linear, step, max_steps) == if step <= max_steps {
            step
        } else {
            max_steps
        },
{
}

/// Law: every eased step stays within the domain `0..=max_steps`.
pub proof fn lemma_pos_range(e: Easing, step: int, max_steps: int)
    requires
        0 <= step,
        0 <= max_steps,
    ensures
        0 <= spec_pos(e, step, max_steps) <= max_steps,
{
    if max_steps > 0 {
        let s = clamp_step(step, max_steps);
        lemma_quad_in_props(s, max_steps);
        lemma_quad_out_props(s, max_steps);
        lemma_bounce_props(s, max_steps);
        lemma_oscillate_props(s, max_steps);
    }
}

/// Law: the linear and the two quadratic curves never move backward: a
/// later step never eases to an earlier position.  The bounce and
/// oscillating curves are non-monotonic by design.
pub proof fn lemma_pos_monotonic(e: Easing, step1: int, step2: int, max_steps: int)
    requires
        0 <= step1 <= step2,
        0 <= max_steps,
        e is Linear || e is QuadraticEaseIn || e is QuadraticEaseOut,
    ensures
        spec_pos(e, step1, max_steps) <= spec_pos(e, step2, max_steps),
{
    if max_steps > 0 {
        let s1 = clamp_step(step1, max_steps);
        let s2 = clamp_step(step2, max_steps);
        match e {
            Easing::QuadraticEaseIn => {
                assert(s1 * s1 <= s2 * s2) by (nonlinear_arith)
                    requires
                        0 <= s1 <= s2,
                ;
                lemma_round_div_monotonic(s1 * s1, s2 * s2, max_steps);
            },
            Easing::QuadraticEaseOut => {
                assert(s1 * (2 * max_steps - s1) <= s2 * (2 * max_steps - s2))
                    by (nonlinear_arith)
                    requires
                        0 <= s1 <= s2 <= max_steps,
                ;
                lemma_round_div_monotonic(
                    s1 * (2 * max_steps - s1),
                    s2 * (2 * max_steps - s2),
                    max_steps,
                );
            },
            _ => {
            },
        }
    }
}

fn quad_in_exec(s: usize, m: usize) -> (r: usize)
    requires
        0 < m,
        s <= m,
        m <= MAX_EASING_STEPS,
    ensures
        r == spec_quad_in(s as int, m as int),
{
    proof {
        lemma_mul_upper_bound(s as int, 0xffff_ffffint, s as int, 0xffff_ffffint);
        lemma_quad_in_props(s as int, m as int);
    }
    let n = (s as u128) * (s as u128);
    let rd = round_div_u128(n, m as u128);
    rd as usize
}

fn quad_out_exec(s: usize, m: usize) -> (r: usize)
    requires
        0 < m,
        s <= m,
        m <= MAX_EASING_STEPS,
    ensures
        r == spec_quad_out(s as int, m as int),
{
    proof {
        lemma_mul_upper_bound(s as int, 0xffff_ffffint, 2 * m - s, 2 * 0xffff_ffffint);
        lemma_quad_out_props(s as int, m as int);
    }
    let n = (s as u128) * (2 * (m as u128) - (s as u128));
    let rd = round_div_u128(n, m as u128);
    rd as usize
}

fn bounce_out_exec(s: usize, m: usize) -> (r: usize)
    requires
        0 < m,
        s <= m,
        m <= MAX_EASING_STEPS,
    ensures
        r == spec_bounce_out(s as int, m as int),
{
    proof {
        lemma_bounce_props(s as int, m as int);
    }
    let s1 = s as u128;
    let m1 = m as u128;
    let a = 11 * s1;
    if a < 4 * m1 {
        proof {
            lemma_mul_upper_bound(s as int, 0xffff_ffffint, s as int, 0xffff_ffffint);
        }
        let n = 121 * (s1 * s1);
        let rd = round_div_u128(n, 16 * m1);
        rd as usize
    } else if a < 8 * m1 {
        let b = 6 * m1;
        let dd = if a >= b {
            a - b
        } else {
            b - a
        };
        proof {
            assert(dd <= 2 * m1);
            lemma_mul_upper_bound(dd as int, 2 * 0xffff_ffffint, dd as int, 2 * 0xffff_ffffint);
            lemma_mul_upper_bound(m as int, 0xffff_ffffint, m as int, 0xffff_ffffint);
            let d = 11 * (s as int) - 6 * (m as int);
            assert(dd as int * dd as int == d * d) by (nonlinear_arith)
                requires
                    dd as int == d || dd as int == -d,
            ;
        }
        let n = 4 * (dd * dd) + 48 * (m1 * m1);
        let rd = round_div_u128(n, 64 * m1);
        rd as usize
    } else if a < 10 * m1 {
        let b = 9 * m1;
        let dd = if a >= b {
            a - b
        } else {
            b - a
        };
        proof {
            assert(dd <= m1);
            lemma_mul_upper_bound(dd as int, 0xffff_ffffint, dd as int, 0xffff_ffffint);
            lemma_mul_upper_bound(m as int, 0xffff_ffffint, m as int, 0xffff_ffffint);
            let d = 11 * (s as int) - 9 * (m as int);
            assert(dd as int * dd as int == d * d) by (nonlinear_arith)
                requires
                    dd as int == d || dd as int == -d,
            ;
        }
        let n = dd * dd + 15 * (m1 * m1);
        let rd = round_div_u128(n, 16 * m1);
        rd as usize
    } else {
        let a2 = 22 * s1;
        let b = 21 * m1;
        let dd = if a2 >= b {
            a2 - b
        } else {
            b - a2
        };
        proof {
            assert(dd <= m1);
            lemma_mul_upper_bound(dd as int, 0xffff_ffffint, dd as int, 0xffff_ffffint);
            lemma_mul_upper_bound(m as int, 0xffff_ffffint, m as int, 0xffff_ffffint);
            let d = 22 * (s as int) - 21 * (m as int);
            assert(dd as int * dd as int == d * d) by (nonlinear_arith)
                requires
                    dd as int == d || dd as int == -d,
            ;
        }
        let n = dd * dd + 63 * (m1 * m1);
        let rd = round_div_u128(n, 64 * m1);
        rd as usize
    }
}

fn oscillate_exec(s: usize, m: usize) -> (r: usize)
    requires
        0 < m,
        s <= m,
        m <= MAX_EASING_STEPS,
    ensures
        r == spec_oscillate(s as int, m as int),
{
    proof {
        lemma_oscillate_props(s as int, m as int);
        lemma_mod_bound(4 * (s as int), m as int);
    }
    let s1 = s as u128;
    let m1 = m as u128;
    let k = (4 * s1) % m1;
    let ghost ki = k as int;
    let ghost mi = m as int;
    let ghost si = s as int;
    proof {
        assert(0 < mi * mi) by (nonlinear_arith)
            requires
                0 < mi,
        ;
    }
    if 2 * k <= m1 {
        let t = m1 - 2 * k;
        proof {
            lemma_sin_frac_first_half(
                ki,
                mi,
                spec_sin_turn_num(ki, mi),
                spec_sin_turn_den(ki, mi),
            );
            lemma_mul_upper_bound(ki, 0xffff_ffffint, t as int, 0xffff_ffffint);
            lemma_mul_upper_bound(mi, 0xffff_ffffint, mi, 0xffff_ffffint);
        }
        let num = 32 * (k * t);
        let den = 5 * (m1 * m1) - 8 * (k * t);
        proof {
            assert(num == spec_sin_turn_num(ki, mi));
            assert(den == spec_sin_turn_den(ki, mi));
            lemma_mul_upper_bound(den as int, 5 * (0xffff_ffffint * 0xffff_ffffint), si, 0xffff_ffffint);
            lemma_mul_upper_bound(den as int, 5 * (0xffff_ffffint * 0xffff_ffffint), mi, 0xffff_ffffint);
            lemma_mul_upper_bound(
                num as int,
                16 * (0xffff_ffffint * 0xffff_ffffint),
                mi,
                0xffff_ffffint,
            );
            assert(den as int * si >= 0 && num as int * mi >= 0 && den as int * mi >= 0)
                by (nonlinear_arith)
                requires
                    den as int >= 0,
                    num as int >= 0,
                    si >= 0,
                    mi >= 0,
            ;
        }
        let pos_part = 16 * (den * s1);
        let add_part = num * m1;
        let hi = 16 * (den * m1);
        let rawv = pos_part + add_part;
        let numv = if rawv > hi {
            hi
        } else {
            rawv
        };
        let rd = round_div_u128(numv, 16 * den);
        rd as usize
    } else {
        let a2 = 2 * k - m1;
        let t = 4 * m1 - 4 * k;
        proof {
            lemma_sin_frac_second_half(
                ki,
                mi,
                -spec_sin_turn_num(ki, mi),
                spec_sin_turn_den(ki, mi),
            );
            lemma_mul_upper_bound(a2 as int, 0xffff_ffffint, t as int, 4 * 0xffff_ffffint);
            lemma_mul_upper_bound(mi, 0xffff_ffffint, mi, 0xffff_ffffint);
        }
        let num = 32 * (a2 * t);
        let den = 20 * (m1 * m1) - 8 * (a2 * t);
        proof {
            assert(num == -spec_sin_turn_num(ki, mi));
            assert(den == spec_sin_turn_den(ki, mi));
            lemma_mul_upper_bound(den as int, 20 * (0xffff_ffffint * 0xffff_ffffint), si, 0xffff_ffffint);
            lemma_mul_upper_bound(den as int, 20 * (0xffff_ffffint * 0xffff_ffffint), mi, 0xffff_ffffint);
            lemma_mul_upper_bound(
                num as int,
                16 * (0xffff_ffffint * 0xffff_ffffint),
                mi,
                0xffff_ffffint,
            );
            assert(den as int * si >= 0 && num as int * mi >= 0 && den as int * mi >= 0)
                by (nonlinear_arith)
                requires
                    den as int >= 0,
                    num as int >= 0,
                    si >= 0,
                    mi >= 0,
            ;
        }
        let pos_part = 16 * (den * s1);
        let sub_part = num * m1;
        let hi = 16 * (den * m1);
        let rawv = if pos_part >= sub_part {
            pos_part - sub_part
        } else {
            0
        };
        let numv = if rawv > hi {
            hi
        } else {
            rawv
        };
        proof {
            assert(spec_sin_turn_num(ki, mi) * mi == -(num as int * mi)) by (nonlinear_arith)
                requires
                    spec_sin_turn_num(ki, mi) == -(num as int),
            ;
        }
        let rd = round_div_u128(numv, 16 * den);
        rd as usize
    }
}

impl Easing {
    /// Maps a linear progress step to the eased step: the step is clamped
    /// into `0..=max_steps`, a zero domain yields 0, and otherwise the
    /// curve's value at `step / max_steps` is scaled back to the domain
    /// and rounded.  Every curve starts at 0, ends exactly at
    /// `max_steps`, and never leaves the domain.
    pub fn pos(&self, step: usize, max_steps: usize) -> (r: usize)
        requires
            max_steps <= MAX_EASING_STEPS,
        ensures
            r == spec_pos(*self, step as int, max_steps as int),
            r <= max_steps,
            step == 0 ==> r == 0,
            step >= max_steps ==> r == max_steps,
            *self is Linear ==> r == clamp_step(step as int, max_steps as int),
    {
        let step_c = if step < max_steps {
            step
        } else {
            max_steps
        };
        proof {
            lemma_pos_range(*self, step as int, max_steps as int);
            if step == 0 {
                lemma_pos_at_zero(*self, max_steps as int);
            }
            if step >= max_steps {
                lemma_pos_at_end(*self, step as int, max_steps as int);
            }
        }
        if max_steps == 0 {
            0
        } else {
            match *self {
                Easing::Linear => step_c,
                Easing::BounceOut => bounce_out_exec(step_c, max_steps),
                Easing::Oscillate => oscillate_exec(step_c, max_steps),
                Easing::QuadraticEaseIn => quad_in_exec(step_c, max_steps),
                Easing::QuadraticEaseOut => quad_out_exec(step_c, max_steps),
            }
        }
    }
}

} // verus!
