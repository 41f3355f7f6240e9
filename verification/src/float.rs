//! Doubles carried as their IEEE 754 bits (what `f64::to_bits` gives): the
//! fields of the bits, the saturating `as u64` of a double, and the cells a
//! progress bar fills for `(position / duration).clamp(0.0, 1.0) * width`,
//! all computed exactly with integers.
use vstd::prelude::*;

use crate::rounding::{
    double_of, lemma_div_at_most, lemma_double_of_at_most, lemma_round_even_at_most,
    lemma_two_pow_64, lemma_two_pow_adds, lemma_two_pow_le, lemma_two_pow_pos,
    lemma_two_pow_values, nearest_double_wide, quotient_double, round_even, scale, two_pow,
};

verus! {

/// The biased exponent field of a double's bits.
pub open spec fn exp_field(b: u64) -> nat {
    (b / 0x10_0000_0000_0000) as nat % 2048
}

/// The fraction field of a double's bits.
pub open spec fn frac_field(b: u64) -> nat {
    (b % 0x10_0000_0000_0000) as nat
}

/// The sign bit is set (negative numbers, `-0.0`, `-inf`).
pub open spec fn sign_set(b: u64) -> bool {
    b >= 0x8000_0000_0000_0000
}

/// The bits are a NaN.
pub open spec fn is_nan(b: u64) -> bool {
    exp_field(b) == 2047 && frac_field(b) != 0
}

/// The bits are an infinity.
pub open spec fn is_infinite(b: u64) -> bool {
    exp_field(b) == 2047 && frac_field(b) == 0
}

/// The integer significand of a finite double: its magnitude is
/// `significand * 2^exponent`.
pub open spec fn significand(b: u64) -> nat {
    if exp_field(b) == 0 {
        frac_field(b)
    } else {
        frac_field(b) + 0x10_0000_0000_0000
    }
}

/// The power of two of a finite double (see `significand`).
pub open spec fn exponent(b: u64) -> int {
    if exp_field(b) == 0 {
        -1074
    } else {
        exp_field(b) - 1075
    }
}

/// `x > 0.0` for the double `x` with bits `b` (`+inf` included).
pub open spec fn is_positive(b: u64) -> bool {
    !sign_set(b) && !is_nan(b) && (exp_field(b) != 0 || frac_field(b) != 0)
}

/// `x as u64` for the double `x` with bits `b`: the integer part,
/// NaN and everything below 1 as 0, and at most `u64::MAX`.
pub open spec fn whole_part(b: u64) -> nat {
    if sign_set(b) || is_nan(b) {
        0
    } else if is_infinite(b) {
        0xffff_ffff_ffff_ffff
    } else {
        let v = if exponent(b) >= 0 {
            significand(b) * two_pow(exponent(b) as nat)
        } else {
            significand(b) / two_pow((-exponent(b)) as nat)
        };
        if v <= 0xffff_ffff_ffff_ffff {
            v
        } else {
            0xffff_ffff_ffff_ffff
        }
    }
}

/// `2^d` for `d` at least 0, else 1.
pub open spec fn up(d: int) -> nat {
    if d >= 0 {
        two_pow(d as nat)
    } else {
        1
    }
}

/// `m1 * 2^d >= m2`, for an integer `d` of either sign.
pub open spec fn scaled_at_least(m1: nat, m2: nat, d: int) -> bool {
    m1 * up(d) >= m2 * up(-d)
}

/// The cells `((p / q).clamp(0.0, 1.0) * w as f64) as usize` fills, for
/// doubles `p` and `q > 0.0` given by their bits:
/// - none for a NaN or not positive `p`, or an infinite `q` (the quotient is
///   then 0, -0 or NaN);
/// - all `w` when `p >= q` (the quotient clamps to 1);
/// - none when `p / q < 2^-17` (the product stays under 1/2 for `w` below
///   `2^16`);
/// - else the quotient `m1 / m2 * 2^d` of the significands and exponents is
///   rounded to `ratio * 2^(d - g)` (53-bit significand, ties to even), the
///   product with `w` is rounded the same way, and the integer part is kept.
pub open spec fn filled_cells(p: u64, q: u64, w: nat) -> nat {
    if is_nan(p) || sign_set(p) || is_infinite(q) {
        0
    } else if is_infinite(p) {
        w
    } else if significand(p) == 0 {
        0
    } else {
        let m1 = significand(p);
        let m2 = significand(q);
        let d = exponent(p) - exponent(q);
        if scaled_at_least(m1, m2, d) {
            w
        } else if !scaled_at_least(m1, m2, d + 17) {
            0
        } else {
            let g = scale(m1, m2);
            let ratio = round_even(m1 * two_pow(g), m2);
            (double_of(ratio * w) * up(d)) / (two_pow(g) * up(-d))
        }
    }
}

proof fn lemma_two_pow_100()
    ensures
        two_pow(100) == 0x10_0000_0000_0000_0000_0000_0000,
{
    lemma_two_pow_adds(64, 36);
    lemma_two_pow_64();
    reveal_with_fuel(two_pow, 37);
}

/// `2^k`.
fn pow2(k: u32) -> (p: u128)
    requires
        k <= 100,
    ensures
        p == two_pow(k as nat),
        p >= 1,
{
    proof {
        lemma_two_pow_100();
    }
    let mut p: u128 = 1;
    let mut i: u32 = 0;
    assert(two_pow(0) == 1);
    while i < k
        invariant
            i <= k <= 100,
            p == two_pow(i as nat),
            p >= 1,
            two_pow(100) == 0x10_0000_0000_0000_0000_0000_0000,
        decreases k - i,
    {
        proof {
            lemma_two_pow_le((i + 1) as nat, 100);
        }
        assert(two_pow((i + 1) as nat) == 2 * two_pow(i as nat));
        p = p * 2;
        i = i + 1;
    }
    p
}

/// The sign, exponent field and fraction field of a double's bits.
fn fields(b: u64) -> (r: (bool, u64, u64))
    ensures
        r.0 == sign_set(b),
        r.1 == exp_field(b),
        r.2 == frac_field(b),
        r.1 < 2048,
        r.2 < 0x10_0000_0000_0000,
{
    (b >= 0x8000_0000_0000_0000, b / 0x10_0000_0000_0000 % 2048, b % 0x10_0000_0000_0000)
}

/// `x as u64` for the double `x` whose bits are `b`.
pub fn whole_part_of(b: u64) -> (r: u64)
    ensures
        r == whole_part(b),
{
    proof {
        lemma_two_pow_values();
    }
    let (neg, e, f) = fields(b);
    if neg || (e == 2047 && f != 0) {
        return 0;
    }
    if e == 2047 {
        return 0xffff_ffff_ffff_ffff;
    }
    if e == 0 {
        proof {
            lemma_two_pow_le(52, 1074);
            lemma_small_quotient(f as nat, 1074);
        }
        return 0;
    }
    let m: u64 = f + 0x10_0000_0000_0000;
    if e >= 1075 {
        let k: u64 = e - 1075;
        if k >= 12 {
            proof {
                lemma_two_pow_le(12, k as nat);
                reveal_with_fuel(two_pow, 13);
                assert(m * two_pow(k as nat) >= 0x10_0000_0000_0000 * 0x1000) by (nonlinear_arith)
                    requires
                        m >= 0x10_0000_0000_0000,
                        two_pow(k as nat) >= 0x1000,
                ;
            }
            0xffff_ffff_ffff_ffff
        } else {
            let p: u128 = pow2(k as u32);
            proof {
                lemma_two_pow_le(k as nat, 11);
                reveal_with_fuel(two_pow, 12);
                assert(m * p < 0x20_0000_0000_0000 * 0x800) by (nonlinear_arith)
                    requires
                        m < 0x20_0000_0000_0000,
                        p <= 0x800,
                ;
            }
            ((m as u128) * p) as u64
        }
    } else {
        let k: u64 = 1075 - e;
        if k >= 64 {
            proof {
                lemma_two_pow_le(53, k as nat);
                lemma_small_quotient(m as nat, k as nat);
            }
            0
        } else {
            let p: u128 = pow2(k as u32);
            assert(m as u128 / p <= m) by (nonlinear_arith)
                requires
                    p >= 1,
            ;
            (m as u128 / p) as u64
        }
    }
}

/// A number below `2^k` divided by `2^k` is 0.
proof fn lemma_small_quotient(m: nat, k: nat)
    requires
        m < two_pow(k),
    ensures
        m / two_pow(k) == 0,
{
    lemma_two_pow_pos(k);
    vstd::arithmetic::div_mod::lemma_basic_div(m as int, two_pow(k) as int);
}

/// `m1 * 2^d >= m2` for significands and an exponent difference.
fn at_least(m1: u64, m2: u64, d: i32) -> (r: bool)
    requires
        1 <= m1 < 0x20_0000_0000_0000,
        1 <= m2 < 0x20_0000_0000_0000,
        -3000 < d < 3000,
    ensures
        r == scaled_at_least(m1 as nat, m2 as nat, d as int),
{
    proof {
        lemma_two_pow_values();
    }
    if d >= 53 {
        proof {
            lemma_two_pow_le(53, d as nat);
            assert(m1 * two_pow(d as nat) >= two_pow(53)) by (nonlinear_arith)
                requires
                    m1 >= 1,
                    two_pow(d as nat) >= two_pow(53),
            ;
        }
        true
    } else if d <= -53 {
        proof {
            lemma_two_pow_le(53, (-d) as nat);
            assert(m2 * two_pow((-d) as nat) >= two_pow(53)) by (nonlinear_arith)
                requires
                    m2 >= 1,
                    two_pow((-d) as nat) >= two_pow(53),
            ;
        }
        false
    } else if d >= 0 {
        let p: u128 = pow2(d as u32);
        proof {
            lemma_two_pow_le(d as nat, 52);
            assert(m1 * p <= 0x20_0000_0000_0000 * two_pow(52)) by (nonlinear_arith)
                requires
                    m1 < 0x20_0000_0000_0000,
                    p <= two_pow(52),
            ;
            assert(up(-d) == 1) by {
                if d == 0 {
                    assert(two_pow(0) == 1);
                }
            }
        }
        (m1 as u128) * p >= m2 as u128
    } else {
        let p: u128 = pow2((-d) as u32);
        proof {
            lemma_two_pow_le((-d) as nat, 52);
            assert(m2 * p <= 0x20_0000_0000_0000 * two_pow(52)) by (nonlinear_arith)
                requires
                    m2 < 0x20_0000_0000_0000,
                    p <= two_pow(52),
            ;
        }
        m1 as u128 >= (m2 as u128) * p
    }
}

/// The significand and exponent of a finite double's fields.
fn parts(e: u64, f: u64) -> (r: (u64, i32))
    requires
        e < 2047,
        f < 0x10_0000_0000_0000,
    ensures
        e == 0 ==> r.0 == f && r.1 == -1074,
        e != 0 ==> r.0 == f + 0x10_0000_0000_0000 && r.1 == e - 1075,
        r.0 < 0x20_0000_0000_0000,
{
    if e == 0 {
        (f, -1074)
    } else {
        (f + 0x10_0000_0000_0000, e as i32 - 1075)
    }
}

/// `((p / q).clamp(0.0, 1.0) * w as f64) as usize` for the doubles `p` and
/// `q > 0.0` whose bits are given.
pub fn filled_cells_of(p: u64, q: u64, w: u16) -> (r: usize)
    requires
        is_positive(q),
    ensures
        r == filled_cells(p, q, w as nat),
        r <= w,
{
    let (pn, pe, pf) = fields(p);
    let (_qn, qe, qf) = fields(q);
    if (pe == 2047 && pf != 0) || pn || qe == 2047 {
        return 0;
    }
    if pe == 2047 {
        return w as usize;
    }
    let (m1, e1) = parts(pe, pf);
    let (m2, e2) = parts(qe, qf);
    if m1 == 0 {
        return 0;
    }
    let d: i32 = e1 - e2;
    if at_least(m1, m2, d) {
        return w as usize;
    }
    if !at_least(m1, m2, d + 17) {
        return 0;
    }
    proof {
        lemma_two_pow_values();
    }
    let (ratio, pg) = quotient_double(m1 as u128, m2 as u128);
    assert(ratio * (w as u128) <= 0x20_0000_0000_0000 * 0xffff) by (nonlinear_arith)
        requires
            ratio <= 0x20_0000_0000_0000u128,
            w <= 0xffff,
    ;
    let n: u128 = nearest_double_wide(ratio * (w as u128));
    let ghost g = scale(m1 as nat, m2 as nat);
    proof {
        lemma_fill_at_most(m1 as nat, m2 as nat, d as int, g, w as nat);
    }
    if d >= 0 {
        proof {
            lemma_exponent_below(m1 as nat, m2 as nat, d as nat);
            lemma_two_pow_le(d as nat, 52);
            assert(n * two_pow(d as nat) <= 0x40_0000_0000_0000_0000 * two_pow(52))
                by (nonlinear_arith)
                requires
                    n <= 0x40_0000_0000_0000_0000,
                    two_pow(d as nat) <= two_pow(52),
            ;
            assert(up(-d) == 1) by {
                if d == 0 {
                    assert(two_pow(0) == 1);
                }
            }
        }
        let pd: u128 = pow2(d as u32);
        (n * pd / pg) as usize
    } else {
        let k: u32 = (-d) as u32;
        proof {
            lemma_small_ratio(m1 as nat, m2 as nat, k as nat, g);
        }
        let pk: u128 = pow2(k);
        assert(pg * pk == two_pow(g) * two_pow(k as nat));
        assert(pg * pk >= 1) by (nonlinear_arith)
            requires
                pg >= 1,
                pk >= 1,
        ;
        (n / (pg * pk)) as usize
    }
}

/// `m1 * 2^d < m2` with `m2 < 2^53` bounds `d` below 53.
proof fn lemma_exponent_below(m1: nat, m2: nat, d: nat)
    requires
        1 <= m1,
        m2 < two_pow(53),
        m1 * two_pow(d) < m2,
    ensures
        d < 53,
{
    if d >= 53 {
        lemma_two_pow_le(53, d);
        assert(m1 * two_pow(d) >= two_pow(d)) by (nonlinear_arith)
            requires
                m1 >= 1,
        ;
    }
}

/// When `m1 / m2 * 2^-k` is at least `2^-17` and `2^g` scales `m1 / m2`
/// below `2^53`, then `k <= 70` and `2^g * 2^k < 2^70`.
proof fn lemma_small_ratio(m1: nat, m2: nat, k: nat, g: nat)
    requires
        1 <= m1 < two_pow(53),
        1 <= m2,
        k >= 1,
        scaled_at_least(m1, m2, 17 - k),
        m1 * two_pow(g) < two_pow(53) * m2,
    ensures
        k <= 70,
        two_pow(g) * two_pow(k) < 0x40_0000_0000_0000_0000,
{
    lemma_two_pow_values();
    lemma_two_pow_pos(g);
    lemma_two_pow_pos(k);
    let pg = two_pow(g);
    if k <= 17 {
        let j = (17 - k) as nat;
        lemma_two_pow_adds(j, k);
        reveal_with_fuel(two_pow, 18);
        assert(j + k == 17);
        let pj = two_pow(j);
        assert(m1 * pj >= m2);
        assert(m1 * pg < two_pow(53) * (m1 * pj)) by (nonlinear_arith)
            requires
                m1 * pg < two_pow(53) * m2,
                m1 * pj >= m2,
        ;
        assert(pg < two_pow(53) * pj) by (nonlinear_arith)
            requires
                m1 * pg < two_pow(53) * (m1 * pj),
                m1 >= 1,
        ;
        assert(pg * two_pow(k) < two_pow(53) * (pj * two_pow(k))) by (nonlinear_arith)
            requires
                pg < two_pow(53) * pj,
                two_pow(k) >= 1,
        ;
    } else {
        let j = (k - 17) as nat;
        lemma_two_pow_adds(j, 17);
        reveal_with_fuel(two_pow, 18);
        assert(j + 17 == k);
        let pj = two_pow(j);
        assert(up(17 - k) == 1);
        assert(up(-(17 - k)) == pj);
        assert(m1 >= m2 * pj);
        if j >= 53 {
            lemma_two_pow_le(53, j);
            assert(m2 * pj >= pj) by (nonlinear_arith)
                requires
                    m2 >= 1,
            ;
        }
        assert(m2 * pj * pg < two_pow(53) * m2) by (nonlinear_arith)
            requires
                m1 * pg < two_pow(53) * m2,
                m1 >= m2 * pj,
        ;
        assert(pj * pg < two_pow(53)) by (nonlinear_arith)
            requires
                m2 * pj * pg < two_pow(53) * m2,
                m2 >= 1,
        ;
        assert(pg * (pj * two_pow(17)) < two_pow(53) * two_pow(17)) by (nonlinear_arith)
            requires
                pj * pg < two_pow(53),
                two_pow(17) >= 1,
        ;
    }
}

/// Below `q`, the quotient rounds to at most 1 and the product to at most
/// `w`: the cells filled stay at most `w`.
proof fn lemma_fill_at_most(m1: nat, m2: nat, d: int, g: nat, w: nat)
    requires
        1 <= m1,
        1 <= m2,
        w < two_pow(53),
        !scaled_at_least(m1, m2, d),
        two_pow(52) * m2 <= m1 * two_pow(g),
    ensures
        (double_of(round_even(m1 * two_pow(g), m2) * w) * up(d)) / (two_pow(g) * up(-d)) <= w,
{
    lemma_two_pow_pos(g);
    let pg = two_pow(g);
    let x = m1 * pg;
    let ratio = round_even(x, m2);
    if d >= 0 {
        let dn = d as nat;
        let pd = two_pow(dn);
        assert(up(-d) == 1) by {
            if d == 0 {
                assert(two_pow(0) == 1);
            }
        }
        assert(m1 * pd < m2);
        lemma_two_pow_adds(52, dn);
        assert(m1 * (two_pow(52) * pd) < m1 * pg) by (nonlinear_arith)
            requires
                m1 * pd < m2,
                two_pow(52) * m2 <= m1 * pg,
                two_pow(52) >= 1,
        ;
        if g <= 52 + dn {
            lemma_two_pow_le(g, 52 + dn);
            assert(m1 * pg <= m1 * (two_pow(52) * pd)) by (nonlinear_arith)
                requires
                    pg <= two_pow(52) * pd,
            ;
        }
        let h = (g - dn) as nat;
        lemma_two_pow_adds(dn, h);
        assert(dn + h == g);
        let ph = two_pow(h);
        assert(x <= ph * m2) by (nonlinear_arith)
            requires
                x == m1 * pg,
                pg == pd * ph,
                m1 * pd < m2,
        ;
        lemma_round_even_at_most(x, m2, ph);
        assert(ratio * w <= ph * w) by (nonlinear_arith)
            requires
                ratio <= ph,
        ;
        lemma_double_of_at_most(ratio * w, h, w);
        let n = double_of(ratio * w);
        assert(n * pd <= pg * w) by (nonlinear_arith)
            requires
                n <= ph * w,
                pg == pd * ph,
        ;
        lemma_div_at_most(n * pd, pg, w);
        assert(up(d) == pd);
        assert(pg * up(-d) == pg) by (nonlinear_arith)
            requires
                up(-d) == 1,
        ;
        assert((n * up(d)) / (pg * up(-d)) == (n * pd) / pg);
    } else {
        let k = (-d) as nat;
        let pk = two_pow(k);
        assert(up(d) == 1);
        assert(m1 < m2 * pk);
        lemma_two_pow_adds(g, k);
        lemma_two_pow_pos(k);
        let gk = two_pow(g + k);
        assert(x <= gk * m2) by (nonlinear_arith)
            requires
                x == m1 * pg,
                gk == pg * pk,
                m1 < m2 * pk,
        ;
        lemma_round_even_at_most(x, m2, gk);
        assert(ratio * w <= gk * w) by (nonlinear_arith)
            requires
                ratio <= gk,
        ;
        lemma_double_of_at_most(ratio * w, g + k, w);
        let n = double_of(ratio * w);
        assert(n * 1 == n);
        assert(pg * pk >= 1) by (nonlinear_arith)
            requires
                pg >= 1,
                pk >= 1,
        ;
        lemma_div_at_most(n, pg * pk, w);
        assert(up(-d) == pk);
        assert((n * up(d)) / (pg * up(-d)) == n / (pg * pk));
    }
}

} // verus!
