//! Power-of-two scaling, rounded toward zero.
//!
//! The viewport's scale is an exponent `n`; one terminal cell spans
//! `0.5^n` graph units. Every coordinate mapping therefore multiplies a
//! signed integer by `2^e` for some signed exponent `e` and truncates the
//! result toward zero. This module gives that operation a mathematical
//! definition, `scale_by_exp`, an executable form with an overflow check,
//! and the lemmas the rest of the engine builds on.

use vstd::arithmetic::power2::{
    lemma2_to64, lemma_pow2_adds, lemma_pow2_pos, lemma_pow2_strictly_increases, pow2,
};
use vstd::bits::{lemma_u64_mul_pow2_le_max_iff_max_shr, lemma_u64_shl_is_mul, lemma_u64_shr_is_div};
use vstd::prelude::*;

verus! {

/// Division of `v` by `2^k`, rounded toward zero (as a cast from a real
/// number to an integer rounds).
pub open spec fn div_pow2_trunc(v: int, k: nat) -> int {
    if v >= 0 {
        v / (pow2(k) as int)
    } else {
        -((-v) / (pow2(k) as int))
    }
}

/// `v * 2^e` for a signed exponent `e`, rounded toward zero. With `e < 0`
/// this is the value a float multiplication by `0.5^(-e)` followed by a
/// truncating cast produces; with `e >= 0` it is exact.
pub open spec fn scale_by_exp(v: int, e: int) -> int {
    if e >= 0 {
        v * pow2(e as nat)
    } else {
        div_pow2_trunc(v, (-e) as nat)
    }
}

pub open spec fn fits_i64(v: int) -> bool {
    i64::MIN <= v <= i64::MAX
}

/// `v * 2^e` truncated toward zero, where `v` is given as a sign and a
/// magnitude; `None` exactly when the result does not fit in an `i64`.
pub(crate) fn scale_mag(neg: bool, mag: u64, e: i32) -> (r: Option<i64>)
    ensures
        ({
            let v = if neg { -(mag as int) } else { mag as int };
            let s = scale_by_exp(v, e as int);
            match r {
                Some(x) => fits_i64(s) && x as int == s,
                None => !fits_i64(s),
            }
        }),
{
    let ghost v: int = if neg { -(mag as int) } else { mag as int };
    if mag == 0 {
        assert(scale_by_exp(0, e as int) == 0) by {
            if e < 0 {
                lemma_pow2_pos((-e) as nat);
            }
        };
        return Some(0);
    }
    if e >= 0 {
        if e >= 64 {
            proof {
                lemma2_to64();
                if e > 64 {
                    lemma_pow2_strictly_increases(64, e as nat);
                }
                assert(pow2(e as nat) >= pow2(64));
                assert(mag * pow2(e as nat) >= 1 * pow2(64)) by (nonlinear_arith)
                    requires
                        mag >= 1,
                        pow2(e as nat) >= pow2(64),
                        pow2(64) > 0,
                ;
                assert((-(mag as int)) * pow2(e as nat) == -(mag * pow2(e as nat)))
                    by (nonlinear_arith);
            }
            return None;
        }
        let k = e as u64;
        if neg {
            // The scaled magnitude must not pass 2^63.
            let max_neg: u64 = 0x8000_0000_0000_0000;
            proof {
                lemma_u64_mul_pow2_le_max_iff_max_shr(mag, k, max_neg);
                lemma2_to64();
                assert((-(mag as int)) * pow2(k as nat) == -(mag * pow2(k as nat)))
                    by (nonlinear_arith);
            }
            if mag <= (max_neg >> k) {
                let m: u64 = mag << k;
                proof {
                    lemma_u64_shl_is_mul(mag, k);
                }
                if m == max_neg {
                    Some(i64::MIN)
                } else {
                    Some(-(m as i64))
                }
            } else {
                None
            }
        } else {
            let max_pos: u64 = 0x7fff_ffff_ffff_ffff;
            proof {
                lemma_u64_mul_pow2_le_max_iff_max_shr(mag, k, max_pos);
            }
            if mag <= (max_pos >> k) {
                let m: u64 = mag << k;
                proof {
                    lemma_u64_shl_is_mul(mag, k);
                }
                Some(m as i64)
            } else {
                None
            }
        }
    } else {
        let ke: i64 = -(e as i64);
        proof {
            lemma_pow2_pos((-e) as nat);
        }
        if ke >= 64 {
            proof {
                lemma2_to64();
                if ke > 64 {
                    lemma_pow2_strictly_increases(64, (-e) as nat);
                }
                assert(pow2((-e) as nat) >= pow2(64));
                assert((mag as int) / (pow2((-e) as nat) as int) == 0) by {
                    vstd::arithmetic::div_mod::lemma_basic_div(
                        mag as int,
                        pow2((-e) as nat) as int,
                    );
                };
            }
            Some(0)
        } else {
            let k = ke as u64;
            let sm: u64 = mag >> k;
            proof {
                lemma_u64_shr_is_div(mag, k);
                lemma2_to64();
                if k > 1 {
                    lemma_pow2_strictly_increases(1, k as nat);
                }
                assert(pow2(k as nat) >= 2);
                vstd::arithmetic::div_mod::lemma_div_is_ordered_by_denominator(
                    mag as int,
                    2,
                    pow2(k as nat) as int,
                );
                assert(sm <= mag / 2);
            }
            if neg {
                Some(-(sm as i64))
            } else {
                Some(sm as i64)
            }
        }
    }
}

/// `scale_by_exp(v, e)` as an executable operation; `None` exactly when the
/// result does not fit in an `i64`.
pub(crate) fn scale_i64_checked(v: i64, e: i32) -> (r: Option<i64>)
    ensures
        ({
            let s = scale_by_exp(v as int, e as int);
            match r {
                Some(x) => fits_i64(s) && x as int == s,
                None => !fits_i64(s),
            }
        }),
{
    if v >= 0 {
        scale_mag(false, v as u64, e)
    } else {
        let mag: u64 = (-(v as i128)) as u64;
        scale_mag(true, mag, e)
    }
}

/// `scale_by_exp(-v, e)` as an executable operation, defined for every `v`
/// (also `i64::MIN`, whose plain negation has no `i64` form).
pub(crate) fn scale_neg_i64_checked(v: i64, e: i32) -> (r: Option<i64>)
    ensures
        ({
            let s = scale_by_exp(-(v as int), e as int);
            match r {
                Some(x) => fits_i64(s) && x as int == s,
                None => !fits_i64(s),
            }
        }),
{
    if v <= 0 {
        let mag: u64 = (-(v as i128)) as u64;
        scale_mag(false, mag, e)
    } else {
        scale_mag(true, v as u64, e)
    }
}

/// Terminal cell to graph coordinate, for a screen center `c` (in terminal
/// space) and scale exponent `n`: each axis is scaled by `0.5^n` and
/// truncated, and the y axis is flipped (terminal +y is down, graph +y up).
pub open spec fn spec_to_graph(t: (int, int), c: (int, int), n: int) -> (int, int) {
    (scale_by_exp(t.0 - c.0, -n), -scale_by_exp(t.1 - c.1, -n))
}

/// Graph coordinate back to a terminal cell: the inverse scaling, up to
/// truncation (see `lemma_round_trip`).
pub open spec fn spec_to_terminal(g: (int, int), c: (int, int), n: int) -> (int, int) {
    (scale_by_exp(g.0, n) + c.0, scale_by_exp(-g.1, n) + c.1)
}

/// The screen center in terminal space: the middle of the surface,
/// displaced by the viewport offset (x with, y against terminal +y).
pub open spec fn spec_screen_center(size: (usize, usize), offset: (int, int)) -> (int, int) {
    ((size.0 as int) / 2 + offset.0, (size.1 as int) / 2 - offset.1)
}

/// Truncating division by `2^k` never grows a magnitude and never flips a
/// sign.
proof fn lemma_trunc_magnitude(v: int, k: nat)
    ensures
        v >= 0 ==> 0 <= div_pow2_trunc(v, k) <= v,
        v < 0 ==> v <= div_pow2_trunc(v, k) <= 0,
{
    let p = pow2(k) as int;
    lemma_pow2_pos(k);
    if v >= 0 {
        vstd::arithmetic::div_mod::lemma_div_pos_is_pos(v, p);
        vstd::arithmetic::div_mod::lemma_div_nonincreasing(v, p);
    } else {
        vstd::arithmetic::div_mod::lemma_div_pos_is_pos(-v, p);
        vstd::arithmetic::div_mod::lemma_div_nonincreasing(-v, p);
    }
}

/// Scaling by `2^e` and back by `2^(-e)` returns `v` exactly when `e >= 0`,
/// and otherwise loses at most `2^(-e) - 1` (the part truncated away).
proof fn lemma_scale_invert(v: int, e: int)
    ensures
        e >= 0 ==> scale_by_exp(scale_by_exp(v, e), -e) == v,
        e < 0 ==> ({
            let d = scale_by_exp(scale_by_exp(v, e), -e) - v;
            -(pow2((-e) as nat) - 1) <= d <= pow2((-e) as nat) - 1
        }),
{
    lemma2_to64();
    if e >= 0 {
        let p = pow2(e as nat) as int;
        lemma_pow2_pos(e as nat);
        if e == 0 {
            assert(v * 1 == v) by (nonlinear_arith);
        } else if v >= 0 {
            assert(v * p >= 0) by (nonlinear_arith)
                requires
                    v >= 0,
                    p > 0,
            ;
            vstd::arithmetic::div_mod::lemma_div_by_multiple(v, p);
        } else {
            assert(v * p < 0 && -(v * p) == (-v) * p) by (nonlinear_arith)
                requires
                    v < 0,
                    p > 0,
            ;
            vstd::arithmetic::div_mod::lemma_div_by_multiple(-v, p);
        }
    } else {
        let k = (-e) as nat;
        let p = pow2(k) as int;
        lemma_pow2_pos(k);
        if v >= 0 {
            let q = v / p;
            vstd::arithmetic::div_mod::lemma_fundamental_div_mod(v, p);
            vstd::arithmetic::div_mod::lemma_mod_division_less_than_divisor(v, p);
            vstd::arithmetic::div_mod::lemma_div_pos_is_pos(v, p);
            assert(q * p == p * q) by (nonlinear_arith);
        } else {
            let q = (-v) / p;
            vstd::arithmetic::div_mod::lemma_fundamental_div_mod(-v, p);
            vstd::arithmetic::div_mod::lemma_mod_division_less_than_divisor(-v, p);
            vstd::arithmetic::div_mod::lemma_div_pos_is_pos(-v, p);
            assert(q >= 0 ==> (-q) * p == -(p * q)) by (nonlinear_arith);
        }
    }
}

/// Round trip, zoomed out or at unit scale (`n <= 0`): mapping a terminal
/// cell to graph space and back returns the very cell, for every center.
pub proof fn lemma_round_trip_exact(t: (int, int), c: (int, int), n: int)
    requires
        n <= 0,
    ensures
        spec_to_terminal(spec_to_graph(t, c, n), c, n) == t,
{
    lemma_scale_invert(t.0 - c.0, -n);
    lemma_scale_invert(t.1 - c.1, -n);
}

/// Round trip: mapping a terminal cell to graph space and back moves it by
/// at most one cell per axis, for every center, as long as the scale
/// exponent is at most 1. (Zoomed further in, several terminal cells share
/// one graph coordinate and the round trip can move a cell by up to
/// `2^n - 1` cells: see `lemma_round_trip_bound`.)
pub proof fn lemma_round_trip(t: (int, int), c: (int, int), n: int)
    requires
        n <= 1,
    ensures
        ({
            let rt = spec_to_terminal(spec_to_graph(t, c, n), c, n);
            &&& -1 <= rt.0 - t.0 <= 1
            &&& -1 <= rt.1 - t.1 <= 1
        }),
{
    if n == 1 {
        lemma_round_trip_bound(t, c, n);
        lemma2_to64();
    } else {
        lemma_round_trip_exact(t, c, n);
    }
}

/// The documented round-trip tolerance for any zoomed-in scale exponent
/// `n >= 1`: the truncation toward a shared graph coordinate moves a cell
/// by less than `2^n` cells per axis.
pub proof fn lemma_round_trip_bound(t: (int, int), c: (int, int), n: int)
    requires
        n >= 1,
    ensures
        ({
            let rt = spec_to_terminal(spec_to_graph(t, c, n), c, n);
            &&& -(pow2(n as nat) - 1) <= rt.0 - t.0 <= pow2(n as nat) - 1
            &&& -(pow2(n as nat) - 1) <= rt.1 - t.1 <= pow2(n as nat) - 1
        }),
{
    lemma_scale_invert(t.0 - c.0, -n);
    lemma_scale_invert(t.1 - c.1, -n);
}

/// Raising the scale exponent by one halves the scale factor: the value
/// scaled at exponent `e - 1` is the value scaled at exponent `e`, halved
/// and truncated. For the viewport this means each zoom-in step halves the
/// graph range a terminal cell spans.
pub proof fn lemma_zoom_step(v: int, e: int)
    ensures
        scale_by_exp(v, e - 1) == div_pow2_trunc(scale_by_exp(v, e), 1),
{
    lemma2_to64();
    if e >= 1 {
        let p = pow2((e - 1) as nat) as int;
        lemma_pow2_pos((e - 1) as nat);
        lemma_pow2_adds((e - 1) as nat, 1);
        let h = v * p;
        assert(v * (p * 2) == (v * p) * 2) by (nonlinear_arith);
        if h >= 0 {
            assert((v * p) * 2 >= 0) by (nonlinear_arith)
                requires
                    v * p >= 0,
            ;
            vstd::arithmetic::div_mod::lemma_div_by_multiple(h, 2);
        } else {
            assert((v * p) * 2 < 0 && -((v * p) * 2) == (-(v * p)) * 2) by (nonlinear_arith)
                requires
                    v * p < 0,
            ;
            vstd::arithmetic::div_mod::lemma_div_by_multiple(-h, 2);
        }
    } else {
        let k = (-e) as nat;
        let p = pow2(k) as int;
        lemma_pow2_pos(k);
        lemma_pow2_adds(k, 1);
        if e == 0 {
            assert(v * (pow2(0) as int) == v) by (nonlinear_arith)
                requires
                    pow2(0) == 1,
            ;
        }
        if v >= 0 {
            vstd::arithmetic::div_mod::lemma_div_pos_is_pos(v, p);
            vstd::arithmetic::div_mod::lemma_div_denominator(v, p, 2);
        } else {
            vstd::arithmetic::div_mod::lemma_div_pos_is_pos(-v, p);
            vstd::arithmetic::div_mod::lemma_div_denominator(-v, p, 2);
        }
    }
}

/// Zoom-in narrows the sampled range: at scale exponent `n + 1` a terminal
/// cell maps to the graph coordinate it mapped to at `n`, halved and
/// truncated toward zero — each step up halves the effective scale factor.
pub proof fn lemma_zoom_in_narrows(t: (int, int), c: (int, int), n: int)
    ensures
        spec_to_graph(t, c, n + 1).0 == div_pow2_trunc(spec_to_graph(t, c, n).0, 1),
        spec_to_graph(t, c, n + 1).1 == -div_pow2_trunc(-spec_to_graph(t, c, n).1, 1),
{
    lemma_zoom_step(t.0 - c.0, -n);
    lemma_zoom_step(t.1 - c.1, -n);
}

/// Scaling never grows a magnitude beyond `|v| * 2^emax` for any exponent
/// up to `emax`; with a negative exponent it never grows it at all.
pub proof fn lemma_scale_bound(v: int, e: int, m: int, emax: nat)
    requires
        -m <= v <= m,
        e <= emax,
    ensures
        -(m * pow2(emax)) <= scale_by_exp(v, e) <= m * pow2(emax),
{
    lemma_pow2_pos(emax);
    if e >= 0 {
        lemma_pow2_pos(e as nat);
        if e < emax {
            lemma_pow2_strictly_increases(e as nat, emax);
        }
        assert(-(m * pow2(emax)) <= v * pow2(e as nat) <= m * pow2(emax)) by (nonlinear_arith)
            requires
                -m <= v <= m,
                0 < pow2(e as nat) <= pow2(emax),
        ;
    } else {
        lemma_trunc_magnitude(v, (-e) as nat);
        assert(m <= m * pow2(emax)) by (nonlinear_arith)
            requires
                m >= 0,
                pow2(emax) >= 1,
        ;
    }
}

} // verus!
