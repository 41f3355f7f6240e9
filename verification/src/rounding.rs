//! Exact integer rendition of the binary floating-point steps behind the
//! one-decimal view counts ("1.2k") and the scrollbar's thumb: integers,
//! quotients and products are rounded to the nearest double (53-bit
//! significand, ties to even), and a double is printed with one decimal,
//! again rounding ties to even.
use vstd::prelude::*;

verus! {

/// `2^k`.
pub open spec fn two_pow(k: nat) -> nat
    decreases k,
{
    if k == 0 {
        1
    } else {
        2 * two_pow((k - 1) as nat)
    }
}

/// `num / den` rounded to the nearest integer, ties to the even one.
pub open spec fn round_even(num: nat, den: nat) -> nat
    recommends
        den > 0,
{
    let q = num / den;
    let r = num % den;
    if 2 * r < den {
        q
    } else if 2 * r > den || q % 2 == 1 {
        q + 1
    } else {
        q
    }
}

/// Scaling `num / den` by `2^e` puts it in `[2^52, 2^53)`: the double
/// nearest to `num / den` is then a multiple of `2^-e`.
pub open spec fn normalizes(num: nat, den: nat, e: nat) -> bool {
    two_pow(52) * den <= num * two_pow(e) < two_pow(53) * den
}

/// The exponent that normalizes `num / den`.
pub open spec fn scale(num: nat, den: nat) -> nat {
    choose|e: nat| normalizes(num, den, e)
}

/// Tenths of the double nearest to `num / den`, rounded to the nearest
/// tenth with ties to even: what `{:.1}` prints of `num as f64 / den as f64`
/// when `num / den` is at least 1, times ten.
pub open spec fn tenths_of_quotient(num: nat, den: nat) -> nat {
    let e = scale(num, den);
    round_even(round_even(num * two_pow(e), den) * 10, two_pow(e))
}

/// The shift that puts `n` in `[2^52, 2^53)` once divided by `2^s`.
pub open spec fn shift(n: nat) -> nat {
    choose|s: nat| two_pow(52) * #[trigger] two_pow(s) <= n < two_pow(53) * two_pow(s)
}

/// The double nearest to `n` (`n as f64`), ties to even.
pub open spec fn double_of(n: nat) -> nat {
    if n < two_pow(53) {
        n
    } else {
        round_even(n, two_pow(shift(n))) * two_pow(shift(n))
    }
}

pub proof fn lemma_two_pow_values()
    ensures
        two_pow(52) == 0x10_0000_0000_0000,
        two_pow(53) == 0x20_0000_0000_0000,
{
    reveal_with_fuel(two_pow, 54);
}

pub proof fn lemma_two_pow_grows(a: nat, b: nat)
    requires
        a < b,
    ensures
        two_pow(b) >= 2 * two_pow(a),
        two_pow(a) >= 1,
    decreases b,
{
    lemma_two_pow_pos(a);
    if b > a + 1 {
        lemma_two_pow_grows(a, (b - 1) as nat);
    }
}

pub proof fn lemma_two_pow_pos(a: nat)
    ensures
        two_pow(a) >= 1,
    decreases a,
{
    if a > 0 {
        lemma_two_pow_pos((a - 1) as nat);
    }
}

proof fn lemma_scale_unique(num: nat, den: nat, e: nat)
    requires
        normalizes(num, den, e),
    ensures
        scale(num, den) == e,
{
    let c = scale(num, den);
    assert(normalizes(num, den, c));
    if c < e {
        lemma_two_pow_grows(c, e);
        let pc = two_pow(c);
        let pe = two_pow(e);
        assert(num * pe >= num * (2 * pc)) by (nonlinear_arith)
            requires
                pe >= 2 * pc,
        ;
        assert(num * (2 * pc) == 2 * (num * pc)) by (nonlinear_arith);
        assert(two_pow(53) == 2 * two_pow(52));
        assert(two_pow(53) * den == 2 * (two_pow(52) * den)) by (nonlinear_arith);
    } else if c > e {
        lemma_two_pow_grows(e, c);
        let pc = two_pow(c);
        let pe = two_pow(e);
        assert(num * pc >= num * (2 * pe)) by (nonlinear_arith)
            requires
                pc >= 2 * pe,
        ;
        assert(num * (2 * pe) == 2 * (num * pe)) by (nonlinear_arith);
        assert(two_pow(53) == 2 * two_pow(52));
        assert(two_pow(53) * den == 2 * (two_pow(52) * den)) by (nonlinear_arith);
    }
}

proof fn lemma_shift_unique(n: nat, s: nat)
    requires
        two_pow(52) * two_pow(s) <= n < two_pow(53) * two_pow(s),
    ensures
        shift(n) == s,
{
    let c = shift(n);
    assert(two_pow(52) * two_pow(c) <= n < two_pow(53) * two_pow(c));
    assert(two_pow(53) == 2 * two_pow(52));
    if c < s {
        lemma_two_pow_grows(c, s);
        let pc = two_pow(c);
        let ps = two_pow(s);
        assert(two_pow(52) * ps >= two_pow(52) * (2 * pc)) by (nonlinear_arith)
            requires
                ps >= 2 * pc,
        ;
        assert(two_pow(53) * pc == two_pow(52) * (2 * pc)) by (nonlinear_arith)
            requires
                two_pow(53) == 2 * two_pow(52),
        ;
    } else if c > s {
        lemma_two_pow_grows(s, c);
        let pc = two_pow(c);
        let ps = two_pow(s);
        assert(two_pow(52) * pc >= two_pow(52) * (2 * ps)) by (nonlinear_arith)
            requires
                pc >= 2 * ps,
        ;
        assert(two_pow(53) * ps == two_pow(52) * (2 * ps)) by (nonlinear_arith)
            requires
                two_pow(53) == 2 * two_pow(52),
        ;
    }
}

/// Executable `round_even`.
fn round_even_exec(num: u128, den: u128) -> (r: u128)
    requires
        0 < den < 0x1_0000_0000_0000_0000_0000,
        num < 0x8000_0000_0000_0000_0000_0000_0000_0000,
    ensures
        r == round_even(num as nat, den as nat),
        r <= num,
{
    let q: u128 = num / den;
    let r: u128 = num % den;
    assert(q * den + r == num) by (nonlinear_arith)
        requires
            q == num / den,
            r == num % den,
            den > 0,
    ;
    assert(q <= num) by (nonlinear_arith)
        requires
            q == num / den,
            den > 0,
    ;
    if 2 * r < den {
        q
    } else if 2 * r > den || q % 2 == 1 {
        assert(q < num) by (nonlinear_arith)
            requires
                q * den + r == num,
                den > 0,
                r > 0,
                q <= num,
        ;
        q + 1
    } else {
        q
    }
}

/// Tenths of the double nearest to `num / den`, rounded as `{:.1}` rounds.
pub fn quotient_tenths(num: u128, den: u128) -> (t: u64)
    requires
        0 < den <= 1_000_000_000,
        den <= num <= 0x1_0000_0000_0000_0000,
        num < den * 0x100_0000_0000,
    ensures
        t == tenths_of_quotient(num as nat, den as nat),
{
    proof {
        lemma_two_pow_values();
    }
    let two52: u128 = 0x10_0000_0000_0000;
    let mut e: u32 = 0;
    let mut p: u128 = 1;
    assert(num * p < two52 * 2 * den) by (nonlinear_arith)
        requires
            p == 1,
            num < den * 0x100_0000_0000,
            den > 0,
            two52 == 0x10_0000_0000_0000,
    ;
    while num * p < two52 * den
        invariant
            p == two_pow(e as nat),
            two52 == 0x10_0000_0000_0000,
            two_pow(52) == two52,
            two_pow(53) == 2 * two52,
            0 < den <= 1_000_000_000,
            den <= num <= 0x1_0000_0000_0000_0000,
            num * p < two52 * 2 * den,
            p <= two52,
            e <= 52,
        decreases 52 - e,
    {
        if e >= 52 {
            assert(num * p >= two52 * den) by (nonlinear_arith)
                requires
                    p == two52,
                    num >= den,
            ;
        }
        assert(num * (p * 2) == (num * p) * 2) by (nonlinear_arith);
        assert(two_pow((e + 1) as nat) == 2 * two_pow(e as nat));
        if p * 2 > two52 {
            assert(p == two52) by {
                lemma_two_pow_below(e as nat, 52);
            }
        }
        p = p * 2;
        e = e + 1;
    }
    proof {
        assert(normalizes(num as nat, den as nat, e as nat));
        lemma_scale_unique(num as nat, den as nat, e as nat);
    }
    assert(num * p < 0x8000_0000_0000_0000_0000_0000_0000_0000) by (nonlinear_arith)
        requires
            num * p < two52 * 2 * den,
            den <= 1_000_000_000,
            two52 == 0x10_0000_0000_0000,
    ;
    let m: u128 = round_even_exec(num * p, den);
    assert(m <= 2 * two52) by (nonlinear_arith)
        requires
            m == round_even((num * p) as nat, den as nat),
            num * p < two52 * 2 * den,
            den > 0,
    {
        let q = (num * p) as int / den as int;
        assert(q < two52 * 2) by (nonlinear_arith)
            requires
                q == (num * p) as int / den as int,
                num * p < two52 * 2 * den,
                den > 0,
        ;
    }
    let t: u128 = round_even_exec(m * 10, p);
    assert(t <= m * 10);
    t as u64
}

proof fn lemma_two_pow_below(e: nat, k: nat)
    requires
        two_pow(e) * 2 > two_pow(k),
        two_pow(e) <= two_pow(k),
    ensures
        two_pow(e) == two_pow(k),
{
    if e < k {
        lemma_two_pow_grows(e, k);
    } else if e > k {
        lemma_two_pow_grows(k, e);
    }
}

/// The double nearest to `n`, as an integer, for `n` below `2^70`.
pub fn nearest_double_wide(n: u128) -> (d: u128)
    requires
        n < 0x40_0000_0000_0000_0000,
    ensures
        d == double_of(n as nat),
        d <= n + 0x20000,
        n < 0x20_0000_0000_0000 ==> d == n,
        n >= 0x20_0000_0000_0000 ==> d >= 0x10_0000_0000_0000,
        n < 0x1_0000_0000_0000_0000 ==> d <= 0x1_0000_0000_0000_0000,
{
    proof {
        lemma_two_pow_values();
    }
    let two53: u128 = 0x20_0000_0000_0000;
    if n < two53 {
        return n;
    }
    let mut s: u32 = 0;
    let mut p: u128 = 1;
    while n >= two53 * p
        invariant
            p == two_pow(s as nat),
            two53 == 0x20_0000_0000_0000,
            two_pow(53) == two53,
            two_pow(52) * 2 == two53,
            two_pow(52) * p <= n,
            n < 0x40_0000_0000_0000_0000,
            1 <= p <= 0x20000,
            s <= 17,
        decreases 17 - s,
    {
        assert(two_pow((s + 1) as nat) == 2 * two_pow(s as nat));
        if s >= 17 {
            proof {
                lemma_two_pow_le(17, s as nat);
                reveal_with_fuel(two_pow, 18);
            }
            assert(false);
        }
        assert(two_pow(52) * (p * 2) == two53 * p) by (nonlinear_arith)
            requires
                two_pow(52) * 2 == two53,
        ;
        p = p * 2;
        s = s + 1;
        proof {
            lemma_two_pow_le(s as nat, 17);
            reveal_with_fuel(two_pow, 18);
        }
    }
    proof {
        lemma_shift_unique(n as nat, s as nat);
    }
    let m: u128 = round_even_exec(n, p);
    proof {
        let q = n as int / p as int;
        assert(q * p <= n && n < q * p + p) by (nonlinear_arith)
            requires
                q == n as int / p as int,
                p >= 1,
        ;
        assert(m <= q + 1);
        assert(m >= q);
        assert(m * p <= q * p + p) by (nonlinear_arith)
            requires
                m <= q + 1,
                p >= 1,
        ;
        assert(q >= two_pow(52)) by (nonlinear_arith)
            requires
                two_pow(52) * p <= n,
                q * p <= n,
                n < q * p + p,
                p >= 1,
        ;
        assert(m * p >= two_pow(52)) by (nonlinear_arith)
            requires
                m >= q,
                q >= two_pow(52),
                p >= 1,
        ;
        if n < 0x1_0000_0000_0000_0000 {
            let k = two_pow((64 - s) as nat);
            lemma_two_pow_adds(s as nat, (64 - s) as nat);
            lemma_two_pow_64();
            assert(p * k == 0x1_0000_0000_0000_0000);
            assert(q < k) by (nonlinear_arith)
                requires
                    q * p <= n,
                    n < 0x1_0000_0000_0000_0000,
                    p * k == 0x1_0000_0000_0000_0000,
                    p >= 1,
            ;
            assert(m * p <= k * p) by (nonlinear_arith)
                requires
                    m <= q + 1,
                    q + 1 <= k,
                    p >= 1,
            ;
        }
    }
    m * p
}

/// The double nearest to `n`, as an integer.
pub fn nearest_double(n: u64) -> (d: u128)
    ensures
        d == double_of(n as nat),
        d <= 0x1_0000_0000_0000_0000,
        n < 0x20_0000_0000_0000 ==> d == n,
        n >= 1_000_000_000 ==> d >= 1_000_000_000,
{
    nearest_double_wide(n as u128)
}

/// The double nearest to `num / den`, as the pair of its significand and
/// `2^e`: the double is `significand / 2^e`.
pub(crate) fn quotient_double(num: u128, den: u128) -> (r: (u128, u128))
    requires
        1 <= num,
        1 <= den <= 0x1_0000_0000_0000_0000,
        num < 0x20_0000_0000_0000 * den,
    ensures
        r.1 == two_pow(scale(num as nat, den as nat)),
        r.0 == round_even((num * r.1) as nat, den as nat),
        r.0 <= 0x20_0000_0000_0000,
        r.1 >= 1,
        0x10_0000_0000_0000 * den <= num * r.1 < 0x20_0000_0000_0000 * den,
{
    proof {
        lemma_two_pow_values();
    }
    let two52: u128 = 0x10_0000_0000_0000;
    let ghost mut e: nat = 0;
    let mut p: u128 = 1;
    while num * p < two52 * den
        invariant
            p == two_pow(e),
            two52 == 0x10_0000_0000_0000,
            two_pow(52) == two52,
            two_pow(53) == 2 * two52,
            1 <= num,
            1 <= den <= 0x1_0000_0000_0000_0000,
            num * p < two52 * 2 * den,
            1 <= p,
        decreases two52 * 2 * den - num * p,
    {
        assert(num * (p * 2) == (num * p) * 2) by (nonlinear_arith);
        assert(p <= num * p) by (nonlinear_arith)
            requires
                num >= 1,
        ;
        assert(two_pow(e + 1) == 2 * two_pow(e));
        p = p * 2;
        proof {
            e = e + 1;
        }
    }
    proof {
        assert(normalizes(num as nat, den as nat, e));
        lemma_scale_unique(num as nat, den as nat, e);
    }
    let q: u128 = round_even_exec(num * p, den);
    assert(q <= 2 * two52) by (nonlinear_arith)
        requires
            q == round_even((num * p) as nat, den as nat),
            num * p < two52 * 2 * den,
            den > 0,
    {
        let k = (num * p) as int / den as int;
        assert(k < two52 * 2) by (nonlinear_arith)
            requires
                k == (num * p) as int / den as int,
                num * p < two52 * 2 * den,
                den > 0,
        ;
    }
    (q, p)
}

pub proof fn lemma_two_pow_adds(a: nat, b: nat)
    ensures
        two_pow(a + b) == two_pow(a) * two_pow(b),
    decreases b,
{
    if b > 0 {
        lemma_two_pow_adds(a, (b - 1) as nat);
        assert(a + ((b - 1) as nat) == (a + b - 1) as nat);
        assert(two_pow(a + b) == 2 * two_pow((a + b - 1) as nat));
        assert(two_pow(a) * two_pow(b) == two_pow(a) * (2 * two_pow((b - 1) as nat)));
        assert(two_pow(a) * (2 * two_pow((b - 1) as nat)) == 2 * (two_pow(a) * two_pow(
            (b - 1) as nat,
        ))) by (nonlinear_arith);
    } else {
        assert(two_pow(0) == 1);
        assert(a + b == a);
    }
}

pub proof fn lemma_two_pow_64()
    ensures
        two_pow(64) == 0x1_0000_0000_0000_0000,
{
    reveal_with_fuel(two_pow, 65);
}

pub proof fn lemma_two_pow_le(a: nat, b: nat)
    requires
        a <= b,
    ensures
        two_pow(a) <= two_pow(b),
{
    if a < b {
        lemma_two_pow_grows(a, b);
    }
}

/// `round_even(x, y)` lies between the quotient and the quotient plus one.
proof fn lemma_round_even_bounds(x: nat, y: nat)
    requires
        y > 0,
    ensures
        x / y <= round_even(x, y) <= x / y + 1,
        (x / y) * y <= x < (x / y) * y + y,
{
    let q = x / y;
    assert(q * y <= x && x < q * y + y) by (nonlinear_arith)
        requires
            q == x / y,
            y > 0,
    ;
}

/// Rounding `x / y` stays at most `k` when `x / y` is at most `k`.
pub proof fn lemma_round_even_at_most(x: nat, y: nat, k: nat)
    requires
        y > 0,
        x <= k * y,
    ensures
        round_even(x, y) <= k,
{
    let q = x / y;
    let r = x % y;
    assert(q * y + r == x && r < y) by (nonlinear_arith)
        requires
            q == x / y,
            r == x % y,
            y > 0,
    ;
    assert(q <= k) by (nonlinear_arith)
        requires
            q * y <= x,
            x <= k * y,
            y > 0,
    ;
    if q == k {
        assert(r == 0);
    }
}

/// Rounding to the nearest multiple keeps the order of the numerators.
proof fn lemma_round_even_monotone(x1: nat, x2: nat, y: nat)
    requires
        y > 0,
        x1 <= x2,
    ensures
        round_even(x1, y) <= round_even(x2, y),
{
    let q1 = x1 / y;
    let r1 = x1 % y;
    let q2 = x2 / y;
    let r2 = x2 % y;
    assert(q1 * y + r1 == x1 && r1 < y) by (nonlinear_arith)
        requires
            q1 == x1 / y,
            r1 == x1 % y,
            y > 0,
    ;
    assert(q2 * y + r2 == x2 && r2 < y) by (nonlinear_arith)
        requires
            q2 == x2 / y,
            r2 == x2 % y,
            y > 0,
    ;
    if q1 > q2 {
        assert(q1 * y >= (q2 + 1) * y) by (nonlinear_arith)
            requires
                q1 >= q2 + 1,
                y > 0,
        ;
        assert((q2 + 1) * y == q2 * y + y) by (nonlinear_arith);
    }
    if q1 == q2 {
        assert(r1 <= r2);
    }
}

/// Every `n` of at least `2^52` has a shift.
proof fn lemma_shift_witness(n: nat) -> (s: nat)
    requires
        n >= two_pow(52),
    ensures
        two_pow(52) * two_pow(s) <= n < two_pow(53) * two_pow(s),
    decreases n,
{
    lemma_two_pow_values();
    if n < two_pow(53) {
        assert(two_pow(0) == 1);
        0
    } else {
        let h = n / 2;
        let s1 = lemma_shift_witness(h);
        assert(two_pow(s1 + 1) == 2 * two_pow(s1));
        s1 + 1
    }
}

/// A double of at least `2^53` is its numerator rounded to a multiple of
/// `2^shift`, between `2^52` and `2^53` such multiples.
proof fn lemma_double_of_large(n: nat)
    requires
        n >= two_pow(53),
    ensures
        shift(n) >= 1,
        two_pow(shift(n)) >= 2,
        two_pow(52) * two_pow(shift(n)) <= n < two_pow(53) * two_pow(shift(n)),
        two_pow(52) * two_pow(shift(n)) <= double_of(n) <= two_pow(53) * two_pow(shift(n)),
{
    lemma_two_pow_values();
    let w = lemma_shift_witness(n);
    lemma_shift_unique(n, w);
    let s = shift(n);
    let p = two_pow(s);
    if s == 0 {
        assert(two_pow(0) == 1);
    }
    lemma_two_pow_grows(0, s);
    assert(two_pow(0) == 1);
    lemma_round_even_bounds(n, p);
    lemma_round_even_at_most(n, p, two_pow(53));
    let q = n / p;
    let m = round_even(n, p);
    assert(q >= two_pow(52)) by (nonlinear_arith)
        requires
            two_pow(52) * p <= n,
            q * p <= n < q * p + p,
            p >= 1,
    ;
    assert(two_pow(52) * p <= m * p <= two_pow(53) * p) by (nonlinear_arith)
        requires
            two_pow(52) <= q <= m <= two_pow(53),
            p >= 1,
    ;
}

/// `n as f64` keeps the order of the integers.
pub proof fn lemma_double_of_monotone(m: nat, n: nat)
    requires
        m <= n,
    ensures
        double_of(m) <= double_of(n),
{
    lemma_two_pow_values();
    if n >= two_pow(53) {
        lemma_double_of_large(n);
        let pn = two_pow(shift(n));
        if m < two_pow(53) {
            assert(two_pow(53) <= two_pow(52) * pn) by (nonlinear_arith)
                requires
                    pn >= 2,
                    two_pow(53) == 2 * two_pow(52),
            ;
        } else {
            lemma_double_of_large(m);
            let pm = two_pow(shift(m));
            if shift(m) > shift(n) {
                lemma_two_pow_grows(shift(n), shift(m));
                assert(two_pow(52) * pm >= two_pow(53) * pn) by (nonlinear_arith)
                    requires
                        pm >= 2 * pn,
                        two_pow(53) == 2 * two_pow(52),
                ;
            } else if shift(m) == shift(n) {
                lemma_round_even_monotone(m, n, pn);
                assert(round_even(m, pn) * pn <= round_even(n, pn) * pn) by (nonlinear_arith)
                    requires
                        round_even(m, pn) <= round_even(n, pn),
                ;
            } else {
                lemma_two_pow_grows(shift(m), shift(n));
                assert(two_pow(53) * pm <= two_pow(52) * pn) by (nonlinear_arith)
                    requires
                        pn >= 2 * pm,
                        two_pow(53) == 2 * two_pow(52),
                ;
            }
        }
    }
}

/// Rounding to a double stays at most `2^f * t` for `t` below `2^53`: such
/// a product is itself a double.
pub proof fn lemma_double_of_at_most(x: nat, f: nat, t: nat)
    requires
        x <= two_pow(f) * t,
        t < two_pow(53),
    ensures
        double_of(x) <= two_pow(f) * t,
{
    if x >= two_pow(53) {
        lemma_double_of_large(x);
        let s = shift(x);
        let ps = two_pow(s);
        let pf = two_pow(f);
        if s > f {
            lemma_two_pow_grows(f, s);
            assert(two_pow(52) * ps >= two_pow(53) * pf) by (nonlinear_arith)
                requires
                    ps >= 2 * pf,
                    two_pow(53) == 2 * two_pow(52),
            ;
            assert(pf * t < two_pow(53) * pf) by (nonlinear_arith)
                requires
                    t < two_pow(53),
                    pf >= 1,
            ;
            lemma_two_pow_pos(f);
        }
        lemma_two_pow_pos(f);
        let g = (f - s) as nat;
        lemma_two_pow_adds(s, g);
        assert(s + g == f);
        let pg = two_pow(g);
        assert(x <= (pg * t) * ps) by (nonlinear_arith)
            requires
                x <= pf * t,
                pf == ps * pg,
        ;
        lemma_round_even_at_most(x, ps, pg * t);
        assert(round_even(x, ps) * ps <= (pg * t) * ps) by (nonlinear_arith)
            requires
                round_even(x, ps) <= pg * t,
        ;
        assert((pg * t) * ps == pf * t) by (nonlinear_arith)
            requires
                pf == ps * pg,
        ;
    }
}

/// `n / p` stays at most `t` when `n` is at most `p * t`.
pub proof fn lemma_div_at_most(n: nat, p: nat, t: nat)
    requires
        p > 0,
        n <= p * t,
    ensures
        n / p <= t,
{
    let q = n / p;
    assert(q * p <= n) by (nonlinear_arith)
        requires
            q == n / p,
            p > 0,
    ;
    assert(q <= t) by (nonlinear_arith)
        requires
            q * p <= n,
            n <= p * t,
            p > 0,
    ;
}

} // verus!
