//! Saturating fixed-point arithmetic shared by every algorithm.
//!
//! A scalar is an `i64` holding `value * SCALE` rounded toward zero, so one
//! micro-unit is `1 / SCALE`. Value estimates are kept inside
//! `[-VAL_MAX, VAL_MAX]`: additions saturate there, and multiplying by a
//! fraction in `[0, SCALE]` never grows a magnitude. Every executable
//! operation is pinned to a spec-level function, so callers reason about the
//! exact integer result, truncation included.

use vstd::prelude::*;

verus! {

/// Number of micro-units that stand for 1.0.
pub const SCALE: i64 = 1_000_000;

/// Largest magnitude a stored value estimate may take; sums saturate here.
pub const VAL_MAX: i64 = 1_000_000_000_000_000;

/// Largest magnitude an environment score or reward may take.
pub const SCORE_MAX: i64 = 1_000_000_000_000;

/// The value `x` lies in the representable value range.
pub open spec fn val_ok(x: int) -> bool {
    -(VAL_MAX as int) <= x <= VAL_MAX as int
}

/// Saturation of an intermediate result into the representable value range.
pub open spec fn clamp_val(x: int) -> int {
    if x < -(VAL_MAX as int) {
        -(VAL_MAX as int)
    } else if x > VAL_MAX as int {
        VAL_MAX as int
    } else {
        x
    }
}

/// `x * f / SCALE` truncated toward zero, for a fraction `f` in `[0, SCALE]`.
pub open spec fn scale_down(x: int, f: int) -> int {
    if x >= 0 {
        (x * f) / (SCALE as int)
    } else {
        -((-x * f) / (SCALE as int))
    }
}

pub open spec fn abs_val(x: int) -> int {
    if x >= 0 {
        x
    } else {
        -x
    }
}

pub open spec fn max_val(a: int, b: int) -> int {
    if a >= b {
        a
    } else {
        b
    }
}

/// Truncated-toward-zero division by a positive denominator.
pub open spec fn trunc_div(x: int, n: int) -> int {
    if x >= 0 {
        x / n
    } else {
        -((-x) / n)
    }
}

/// Sum of a sequence of fixed-point values, without saturation.
pub open spec fn seq_sum(s: Seq<i64>) -> int
    decreases s.len(),
{
    if s.len() == 0 {
        0
    } else {
        seq_sum(s.drop_last()) + s.last()
    }
}

/// Arithmetic mean of a sequence, truncated toward zero; 0 for an empty one.
pub open spec fn mean_val(s: Seq<i64>) -> int {
    if s.len() == 0 {
        0
    } else {
        trunc_div(seq_sum(s), s.len() as int)
    }
}

/// Multiplying by a fraction in `[0, SCALE]` never grows a magnitude.
pub proof fn lemma_scale_down_bound(x: int, f: int)
    requires
        0 <= f <= SCALE as int,
    ensures
        x >= 0 ==> 0 <= scale_down(x, f) <= x,
        x < 0 ==> x <= scale_down(x, f) <= 0,
        abs_val(scale_down(x, f)) <= abs_val(x),
{
    let s = SCALE as int;
    if x >= 0 {
        vstd::arithmetic::mul::lemma_mul_inequality(f, s, x);
        vstd::arithmetic::mul::lemma_mul_nonnegative(x, f);
        vstd::arithmetic::div_mod::lemma_div_is_ordered(x * f, x * s, s);
        vstd::arithmetic::div_mod::lemma_div_multiples_vanish(x, s);
        vstd::arithmetic::div_mod::lemma_div_pos_is_pos(x * f, s);
    } else {
        let y = -x;
        vstd::arithmetic::mul::lemma_mul_inequality(f, s, y);
        vstd::arithmetic::mul::lemma_mul_nonnegative(y, f);
        vstd::arithmetic::div_mod::lemma_div_is_ordered(y * f, y * s, s);
        vstd::arithmetic::div_mod::lemma_div_multiples_vanish(y, s);
        vstd::arithmetic::div_mod::lemma_div_pos_is_pos(y * f, s);
    }
}

/// Multiply a value by a fraction `f` in `[0, SCALE]`, truncating toward zero.
pub fn mul_frac(x: i64, f: i64) -> (r: i64)
    requires
        0 <= f <= SCALE,
        -4 * (VAL_MAX as int) <= x <= 4 * (VAL_MAX as int),
    ensures
        r == scale_down(x as int, f as int),
        abs_val(r as int) <= abs_val(x as int),
{
    proof {
        lemma_scale_down_bound(x as int, f as int);
    }
    let m: u64 = if x >= 0 {
        x as u64
    } else {
        (-x) as u64
    };
    proof {
        assert(m as int * f as int <= m as int * SCALE as int && 0 <= m as int * f as int
            && m as int * f as int <= 4 * (VAL_MAX as int) * (SCALE as int))
            by (nonlinear_arith)
            requires
                0 <= m as int <= 4 * (VAL_MAX as int),
                0 <= f as int <= SCALE as int,
        ;
        vstd::arithmetic::div_mod::lemma_div_is_ordered(
            m as int * f as int,
            m as int * SCALE as int,
            SCALE as int,
        );
        vstd::arithmetic::div_mod::lemma_div_multiples_vanish(m as int, SCALE as int);
        vstd::arithmetic::div_mod::lemma_div_pos_is_pos(m as int * f as int, SCALE as int);
    }
    let p: u128 = (m as u128) * (f as u128);
    let q: u128 = p / (SCALE as u128);
    let qi: i64 = q as i64;
    if x >= 0 {
        qi
    } else {
        -qi
    }
}

/// Saturating fixed-point addition.
pub fn add_sat(a: i64, b: i64) -> (r: i64)
    requires
        -4 * (VAL_MAX as int) <= a <= 4 * (VAL_MAX as int),
        -4 * (VAL_MAX as int) <= b <= 4 * (VAL_MAX as int),
    ensures
        r == clamp_val(a + b),
        val_ok(r as int),
{
    let s: i64 = a + b;
    if s < -VAL_MAX {
        -VAL_MAX
    } else if s > VAL_MAX {
        VAL_MAX
    } else {
        s
    }
}

/// `|a - b|` for two in-range values.
pub fn abs_diff(a: i64, b: i64) -> (r: i64)
    requires
        val_ok(a as int),
        val_ok(b as int),
    ensures
        r == abs_val(a - b),
{
    let d: i64 = a - b;
    if d >= 0 {
        d
    } else {
        -d
    }
}

/// Maximum of two values.
pub fn max_i64(a: i64, b: i64) -> (r: i64)
    ensures
        r == max_val(a as int, b as int),
{
    if a >= b {
        a
    } else {
        b
    }
}

/// A sequence of in-range values sums to at most `len * VAL_MAX` in magnitude.
pub proof fn lemma_seq_sum_bound(s: Seq<i64>)
    requires
        forall|i: int| 0 <= i < s.len() ==> val_ok(s[i] as int),
    ensures
        abs_val(seq_sum(s)) <= s.len() * (VAL_MAX as int),
    decreases s.len(),
{
    if s.len() == 0 {
    } else {
        lemma_seq_sum_bound(s.drop_last());
        assert((s.len() - 1) * (VAL_MAX as int) + (VAL_MAX as int) == s.len() * (VAL_MAX as int))
            by (nonlinear_arith);
    }
}

/// Arithmetic mean of the values in `v`, truncated toward zero; 0 when empty.
pub fn mean(v: &Vec<i64>) -> (r: i64)
    requires
        forall|i: int| 0 <= i < v@.len() ==> val_ok(v@[i] as int),
    ensures
        r == mean_val(v@),
        val_ok(r as int),
{
    let n: usize = v.len();
    if n == 0 {
        return 0;
    }
    let mut acc: i128 = 0;
    let mut i: usize = 0;
    proof {
        assert(v@.take(0) =~= Seq::<i64>::empty());
    }
    while i < n
        invariant
            0 <= i <= n,
            n == v@.len(),
            forall|j: int| 0 <= j < v@.len() ==> val_ok(v@[j] as int),
            acc == seq_sum(v@.take(i as int)),
            abs_val(acc as int) <= (i as int) * (VAL_MAX as int),
        decreases n - i,
    {
        proof {
            assert(v@.take(i + 1).drop_last() =~= v@.take(i as int));
            assert((i as int) * (VAL_MAX as int) + (VAL_MAX as int) == (i + 1) * (VAL_MAX as int))
                by (nonlinear_arith);
            assert((i + 1) * (VAL_MAX as int) <= (n as int) * (VAL_MAX as int)) by (nonlinear_arith)
                requires
                    0 <= i,
                    i + 1 <= n as int,
            ;
            assert((n as int) * (VAL_MAX as int) < 0x7fff_ffff_ffff_ffff_ffff_ffff_ffff_ffff)
                by (nonlinear_arith)
                requires
                    n as int <= 0xffff_ffff_ffff_ffff,
            ;
        }
        acc = acc + (v[i] as i128);
        i = i + 1;
    }
    proof {
        assert(v@.take(n as int) =~= v@);
        lemma_seq_sum_bound(v@);
        assert((n as int) * (VAL_MAX as int) < 0x7fff_ffff_ffff_ffff_ffff_ffff_ffff_ffff)
            by (nonlinear_arith)
            requires
                n as int <= 0xffff_ffff_ffff_ffff,
        ;
    }
    let neg: bool = acc < 0;
    let mag: u128 = if neg {
        (-acc) as u128
    } else {
        acc as u128
    };
    proof {
        vstd::arithmetic::div_mod::lemma_div_pos_is_pos(mag as int, n as int);
        vstd::arithmetic::div_mod::lemma_div_is_ordered(
            mag as int,
            (n as int) * (VAL_MAX as int),
            n as int,
        );
        vstd::arithmetic::div_mod::lemma_div_multiples_vanish(VAL_MAX as int, n as int);
        assert((n as int) * (VAL_MAX as int) == (VAL_MAX as int) * (n as int))
            by (nonlinear_arith);
    }
    let q: u128 = mag / (n as u128);
    let qi: i64 = q as i64;
    if neg {
        -qi
    } else {
        qi
    }
}

} // verus!
