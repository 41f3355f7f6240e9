//! Character-level string helpers shared by the other modules: decimal
//! rendering, padding in the manner of `format!` alignment, and trimming.
use vstd::prelude::*;

verus! {

/// The characters of `s`, in order, as a vector.
pub fn chars_of(s: &str) -> (v: Vec<char>)
    ensures
        v@ == s@,
{
    let mut v: Vec<char> = Vec::new();
    for c in it: s.chars()
        invariant
            it.seq() == s@,
            v@ == it.seq().take(it.index() as int),
    {
        v.push(c);
    }
    v
}

/// Appends one character to a string (std `String::push`).
#[verifier::external_body]
pub(crate) fn push_char(s: &mut String, c: char)
    ensures
        final(s)@ == old(s)@.push(c),
{
    s.push(c);
}

/// Removes and returns the last character of a string (std `String::pop`).
#[verifier::external_body]
pub(crate) fn pop_char(s: &mut String) -> (r: Option<char>)
    ensures
        old(s)@.len() == 0 ==> r is None && final(s)@ == old(s)@,
        old(s)@.len() > 0 ==> r == Some(old(s)@.last()) && final(s)@ == old(s)@.drop_last(),
{
    s.pop()
}

/// Appends every character of `t` to `s`.
pub fn push_str(s: &mut String, t: &str)
    ensures
        final(s)@ == old(s)@ + t@,
{
    let cs = chars_of(t);
    push_chars(s, &cs, 0, cs.len());
}

/// Appends `v[from..to]` to `s`.
pub fn push_chars(s: &mut String, v: &Vec<char>, from: usize, to: usize)
    requires
        from <= to <= v@.len(),
    ensures
        final(s)@ == old(s)@ + v@.subrange(from as int, to as int),
{
    let ghost start = s@;
    let mut i: usize = from;
    while i < to
        invariant
            from <= i <= to <= v@.len(),
            s@ == start + v@.subrange(from as int, i as int),
        decreases to - i,
    {
        push_char(s, v[i]);
        assert(v@.subrange(from as int, i + 1) == v@.subrange(from as int, i as int).push(v@[i as int]));
        i = i + 1;
    }
}

/// A fresh string holding the characters of `t`.
pub fn owned(t: &str) -> (s: String)
    ensures
        s@ == t@,
{
    let mut s = String::new();
    push_str(&mut s, t);
    s
}

/// A fresh string holding `v[from..to]`.
pub fn string_of(v: &Vec<char>, from: usize, to: usize) -> (s: String)
    requires
        from <= to <= v@.len(),
    ensures
        s@ == v@.subrange(from as int, to as int),
{
    let mut s = String::new();
    push_chars(&mut s, v, from, to);
    s
}

/// `k` copies of the character `c`.
pub open spec fn repeat(c: char, k: nat) -> Seq<char> {
    Seq::new(k, |i: int| c)
}

/// Appends `k` copies of `c`.
pub fn push_repeat(s: &mut String, c: char, k: usize)
    ensures
        final(s)@ == old(s)@ + repeat(c, k as nat),
{
    let ghost start = s@;
    let mut i: usize = 0;
    while i < k
        invariant
            i <= k,
            s@ == start + repeat(c, i as nat),
        decreases k - i,
    {
        push_char(s, c);
        assert(repeat(c, (i + 1) as nat) == repeat(c, i as nat).push(c));
        i = i + 1;
    }
}

/// The ASCII digit for `d` (`0 <= d < 10`).
pub open spec fn digit(d: nat) -> char {
    ((d + 48) as u8) as char
}

/// Decimal rendering of a natural number, without sign or leading zeros.
pub open spec fn decimal(n: nat) -> Seq<char>
    decreases n,
{
    if n < 10 {
        seq![digit(n)]
    } else {
        decimal(n / 10).push(digit(n % 10))
    }
}

/// Appends the decimal rendering of `n`.
pub fn push_decimal(s: &mut String, n: u64)
    ensures
        final(s)@ == old(s)@ + decimal(n as nat),
    decreases n,
{
    if n >= 10 {
        push_decimal(s, n / 10);
    }
    let d: u8 = (n % 10) as u8;
    push_char(s, (d + 48) as char);
}

/// Decimal rendering of `n`, as a fresh string (`n.to_string()`).
pub fn decimal_string(n: u64) -> (s: String)
    ensures
        s@ == decimal(n as nat),
{
    let mut s = String::new();
    push_decimal(&mut s, n);
    s
}

/// `decimal(n)` padded on the left with zeros to at least two characters
/// (the `{:02}` format).
pub open spec fn two_digits(n: nat) -> Seq<char> {
    if n < 10 {
        seq!['0'].add(decimal(n))
    } else {
        decimal(n)
    }
}

/// Appends `two_digits(n)`.
pub fn push_two_digits(s: &mut String, n: u64)
    ensures
        final(s)@ == old(s)@ + two_digits(n as nat),
{
    if n < 10 {
        push_char(s, '0');
    }
    push_decimal(s, n);
}

/// `k` spaces.
pub open spec fn spaces(k: nat) -> Seq<char> {
    repeat(' ', k)
}

/// How many fill characters `format!` adds to reach `width`.
pub open spec fn fill(t: Seq<char>, width: nat) -> nat {
    if t.len() < width { (width - t.len()) as nat } else { 0 }
}

/// `{:>width}`: right-aligned in a field of `width` characters.
pub open spec fn align_right(t: Seq<char>, width: nat) -> Seq<char> {
    spaces(fill(t, width)) + t
}

/// `{:<width}`: left-aligned in a field of `width` characters.
pub open spec fn align_left(t: Seq<char>, width: nat) -> Seq<char> {
    t + spaces(fill(t, width))
}

/// `{:^width}`: centred, the odd fill character going to the right.
pub open spec fn align_center(t: Seq<char>, width: nat) -> Seq<char> {
    spaces(fill(t, width) / 2) + t + spaces((fill(t, width) + 1) / 2)
}

/// Appends `t` right-aligned in `width` characters.
pub fn push_right(s: &mut String, t: &Vec<char>, width: usize)
    ensures
        final(s)@ == old(s)@ + align_right(t@, width as nat),
{
    let pad: usize = if t.len() < width { width - t.len() } else { 0 };
    push_repeat(s, ' ', pad);
    push_chars(s, t, 0, t.len());
    assert(t@.subrange(0, t@.len() as int) == t@);
}

/// Appends `t` left-aligned in `width` characters.
pub fn push_left(s: &mut String, t: &Vec<char>, width: usize)
    ensures
        final(s)@ == old(s)@ + align_left(t@, width as nat),
{
    let pad: usize = if t.len() < width { width - t.len() } else { 0 };
    push_chars(s, t, 0, t.len());
    assert(t@.subrange(0, t@.len() as int) == t@);
    push_repeat(s, ' ', pad);
}

/// Appends `t` centred in `width` characters.
pub fn push_center(s: &mut String, t: &Vec<char>, width: usize)
    ensures
        final(s)@ == old(s)@ + align_center(t@, width as nat),
{
    let pad: usize = if t.len() < width { width - t.len() } else { 0 };
    push_repeat(s, ' ', pad / 2);
    push_chars(s, t, 0, t.len());
    assert(t@.subrange(0, t@.len() as int) == t@);
    push_repeat(s, ' ', pad / 2 + pad % 2);
    assert(pad / 2 + pad % 2 == (pad + 1) / 2);
}

/// The Unicode `White_Space` property, which `char::is_whitespace` and
/// `str::trim` go by.
pub open spec fn is_white_space(c: char) -> bool {
    let u = c as u32;
    (0x09 <= u <= 0x0d) || u == 0x20 || u == 0x85 || u == 0xa0 || u == 0x1680 || (0x2000 <= u
        <= 0x200a) || u == 0x2028 || u == 0x2029 || u == 0x202f || u == 0x205f || u == 0x3000
}

/// Executable `is_white_space`.
pub fn white_space(c: char) -> (b: bool)
    ensures
        b == is_white_space(c),
{
    let u: u32 = c as u32;
    (0x09 <= u && u <= 0x0d) || u == 0x20 || u == 0x85 || u == 0xa0 || u == 0x1680 || (0x2000 <= u
        && u <= 0x200a) || u == 0x2028 || u == 0x2029 || u == 0x202f || u == 0x205f || u == 0x3000
}

/// Number of leading white-space characters of `t`.
pub open spec fn leading_ws(t: Seq<char>) -> nat
    decreases t.len(),
{
    if t.len() > 0 && is_white_space(t[0]) {
        1 + leading_ws(t.drop_first())
    } else {
        0
    }
}

/// Number of trailing white-space characters of `t`.
pub open spec fn trailing_ws(t: Seq<char>) -> nat
    decreases t.len(),
{
    if t.len() > 0 && is_white_space(t.last()) {
        1 + trailing_ws(t.drop_last())
    } else {
        0
    }
}

/// `t` without leading and trailing white space (`str::trim`).
pub open spec fn trimmed(t: Seq<char>) -> Seq<char> {
    let u = t.skip(leading_ws(t) as int);
    u.take(u.len() - trailing_ws(u))
}

proof fn lemma_leading_ws(t: Seq<char>, i: int)
    requires
        0 <= i <= t.len(),
        forall|j: int| 0 <= j < i ==> is_white_space(#[trigger] t[j]),
        i == t.len() || !is_white_space(t[i]),
    ensures
        leading_ws(t) == i,
        leading_ws(t) <= t.len(),
    decreases i,
{
    if i > 0 {
        lemma_leading_ws(t.drop_first(), i - 1);
    }
}

proof fn lemma_trailing_ws(t: Seq<char>, k: int)
    requires
        0 <= k <= t.len(),
        forall|j: int| t.len() - k <= j < t.len() ==> is_white_space(#[trigger] t[j]),
        k == t.len() || !is_white_space(t[t.len() - k - 1]),
    ensures
        trailing_ws(t) == k,
    decreases k,
{
    if k > 0 {
        lemma_trailing_ws(t.drop_last(), k - 1);
    }
}

/// `s` without leading and trailing white space, as a fresh string.
pub fn trim(s: &str) -> (r: String)
    ensures
        r@ == trimmed(s@),
{
    let v = chars_of(s);
    let n: usize = v.len();
    let mut a: usize = 0;
    while a < n && white_space(v[a])
        invariant
            a <= n == v@.len(),
            forall|j: int| 0 <= j < a ==> is_white_space(#[trigger] v@[j]),
        decreases n - a,
    {
        a = a + 1;
    }
    proof {
        lemma_leading_ws(v@, a as int);
    }
    let mut b: usize = n;
    while b > a && white_space(v[b - 1])
        invariant
            a <= b <= n == v@.len(),
            forall|j: int| b <= j < n ==> is_white_space(#[trigger] v@[j]),
        decreases b,
    {
        b = b - 1;
    }
    proof {
        let u = v@.skip(a as int);
        assert forall|j: int| u.len() - (n - b) <= j < u.len() implies is_white_space(#[trigger] u[j]) by {
            assert(u[j] == v@[j + a]);
        }
        if b > a {
            assert(u[u.len() - (n - b) - 1] == v@[b - 1]);
        }
        lemma_trailing_ws(u, (n - b) as int);
        assert(u.take(u.len() - (n - b)) == v@.subrange(a as int, b as int));
    }
    string_of(&v, a, b)
}

} // verus!
