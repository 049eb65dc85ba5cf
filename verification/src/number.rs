//! The number grammars the scanner reads and writes: unsigned decimal
//! integers, floating-point literals and decimal rendering.

use vstd::prelude::*;
use crate::text::{run_len, lemma_run_len};

verus! {

/// An ASCII decimal digit.
pub open spec fn is_digit(c: char) -> bool {
    '0' <= c && c <= '9'
}

/// The value of a decimal digit.
pub open spec fn digit_value(c: char) -> nat {
    (c as u32 - '0' as u32) as nat
}

/// Whether every character of `s` is a decimal digit.
pub open spec fn all_digits(s: Seq<char>) -> bool {
    forall|i: int| 0 <= i < s.len() ==> is_digit(#[trigger] s[i])
}

/// The value of a string of decimal digits, most significant first.
pub open spec fn digits_value(s: Seq<char>) -> nat
    decreases s.len(),
{
    if s.len() == 0 {
        0
    } else {
        digits_value(s.drop_last()) * 10 + digit_value(s.last())
    }
}

/// `s` without one leading `+`.
pub open spec fn drop_plus(s: Seq<char>) -> Seq<char> {
    if s.len() > 0 && s[0] == '+' {
        s.drop_first()
    } else {
        s
    }
}

/// What `str::parse::<u64>` gives: an optional `+`, then one or more
/// decimal digits whose value fits in 64 bits.
pub open spec fn parse_u64_spec(s: Seq<char>) -> Option<u64> {
    let d = drop_plus(s);
    if d.len() > 0 && all_digits(d) && digits_value(d) <= u64::MAX {
        Some(digits_value(d) as u64)
    } else {
        None
    }
}

/// A longer prefix of digits never has a smaller value.
proof fn lemma_digits_value_monotone(s: Seq<char>, a: int, b: int)
    requires
        0 <= a <= b <= s.len(),
    ensures
        digits_value(s.take(a)) <= digits_value(s.take(b)),
    decreases b - a,
{
    if a < b {
        lemma_digits_value_monotone(s, a, b - 1);
        assert(s.take(b).drop_last() =~= s.take(b - 1));
    }
}

/// Reads `s` as `str::parse::<u64>` does.
pub fn parse_u64(s: &Vec<char>) -> (r: Option<u64>)
    ensures
        r == parse_u64_spec(s@),
{
    let n = s.len();
    let start: usize = if n > 0 && s[0] == '+' { 1 } else { 0 };
    let ghost d = drop_plus(s@);
    assert(d =~= s@.skip(start as int));
    if start == n {
        return None;
    }
    let mut i = start;
    while i < n
        invariant
            n == s.len(),
            start <= i <= n,
            d == s@.skip(start as int),
            d == drop_plus(s@),
            forall|k: int| start <= k < i ==> is_digit(#[trigger] s@[k]),
        decreases n - i,
    {
        if !('0' <= s[i] && s[i] <= '9') {
            assert(!is_digit(d[i - start]));
            assert(!all_digits(d));
            return None;
        }
        i += 1;
    }
    assert(all_digits(d)) by {
        assert forall|k: int| 0 <= k < d.len() implies is_digit(#[trigger] d[k]) by {
            assert(d[k] == s@[start + k]);
        }
    }
    let mut acc: u64 = 0;
    let mut i = start;
    assert(d.take(0) =~= seq![]);
    while i < n
        invariant
            n == s.len(),
            start <= i <= n,
            d == s@.skip(start as int),
            d == drop_plus(s@),
            all_digits(d),
            acc == digits_value(d.take(i - start)),
        decreases n - i,
    {
        assert(d[i - start] == s@[i as int]);
        assert(is_digit(d[i - start]));
        let dv = (s[i] as u32 - '0' as u32) as u64;
        assert(d.take(i - start + 1).drop_last() =~= d.take(i - start));
        assert(d.take(i - start + 1).last() == s@[i as int]);
        assert(digits_value(d.take(i - start + 1)) == acc * 10 + dv);
        match acc.checked_mul(10) {
            Some(m) => match m.checked_add(dv) {
                Some(next) => {
                    acc = next;
                },
                None => {
                    proof {
                        lemma_digits_value_monotone(d, i - start + 1, d.len() as int);
                        assert(d.take(d.len() as int) =~= d);
                        assert(digits_value(d) > u64::MAX);
                    }
                    return None;
                },
            },
            None => {
                proof {
                    lemma_digits_value_monotone(d, i - start + 1, d.len() as int);
                    assert(d.take(d.len() as int) =~= d);
                    assert(acc * 10 > u64::MAX);
                    assert(digits_value(d) > u64::MAX);
                }
                return None;
            },
        }
        i += 1;
    }
    assert(d.take(n - start) =~= d);
    Some(acc)
}


/// Number of leading decimal digits.
pub open spec fn digit_run(s: Seq<char>) -> nat {
    run_len(s, |c: char| is_digit(c))
}

/// `s` without one leading `+` or `-`.
pub open spec fn drop_sign(s: Seq<char>) -> Seq<char> {
    if s.len() > 0 && (s[0] == '+' || s[0] == '-') {
        s.drop_first()
    } else {
        s
    }
}

/// An exponent: `e` or `E`, an optional sign, then one or more digits.
pub open spec fn is_exponent(x: Seq<char>) -> bool {
    &&& x.len() > 0
    &&& (x[0] == 'e' || x[0] == 'E')
    &&& drop_sign(x.drop_first()).len() > 0
    &&& all_digits(drop_sign(x.drop_first()))
}

/// A decimal number: digits, optionally a point and more digits, at least
/// one digit in all, then an optional exponent.
pub open spec fn is_decimal(s: Seq<char>) -> bool {
    let a = digit_run(s);
    let r = s.skip(a as int);
    let point = r.len() > 0 && r[0] == '.';
    let b: nat = if point { digit_run(r.drop_first()) } else { 0 };
    let rest = if point { r.skip(1 + b as int) } else { r };
    a + b >= 1 && (rest.len() == 0 || is_exponent(rest))
}

/// `c` is the lowercase ASCII letter `lower` or its uppercase form (or
/// equals `lower` when that is no letter).
pub open spec fn same_letter(c: char, lower: char) -> bool {
    c == lower || ('a' <= lower && lower <= 'z' && c as u32 + 32 == lower as u32)
}

/// `s` spells `w` with ASCII letters in either case.
pub open spec fn spells(s: Seq<char>, w: Seq<char>) -> bool {
    s.len() == w.len() && forall|i: int| 0 <= i < s.len() ==> same_letter(#[trigger] s[i], w[i])
}

/// What `str::parse::<f64>` accepts: an optional sign, then a decimal
/// number or, in any case, `inf`, `infinity` or `nan`.
pub open spec fn is_float_literal(s: Seq<char>) -> bool {
    let b = drop_sign(s);
    ||| is_decimal(b)
    ||| spells(b, seq!['i', 'n', 'f'])
    ||| spells(b, seq!['i', 'n', 'f', 'i', 'n', 'i', 't', 'y'])
    ||| spells(b, seq!['n', 'a', 'n'])
}

/// Position just after the digits that start at `from`.
fn digits_end(v: &Vec<char>, from: usize) -> (r: usize)
    requires
        from <= v.len(),
    ensures
        from <= r <= v.len(),
        r == from + digit_run(v@.skip(from as int)),
        forall|k: int| from <= k < r ==> is_digit(#[trigger] v@[k]),
        r < v.len() ==> !is_digit(v@[r as int]),
{
    let n = v.len();
    let mut i = from;
    while i < n && '0' <= v[i] && v[i] <= '9'
        invariant
            n == v.len(),
            from <= i <= n,
            forall|k: int| from <= k < i ==> is_digit(#[trigger] v@[k]),
        decreases n - i,
    {
        i += 1;
    }
    let ghost t = v@.skip(from as int);
    proof {
        assert forall|k: int| 0 <= k < i - from implies is_digit(#[trigger] t[k]) by {
            assert(t[k] == v@[from + k]);
        }
        lemma_run_len(t, |c: char| is_digit(c), i - from);
    }
    i
}

/// Whether `v[from..]` is an exponent.
fn exponent_at(v: &Vec<char>, from: usize) -> (b: bool)
    requires
        from < v.len(),
    ensures
        b == is_exponent(v@.skip(from as int)),
{
    let ghost x = v@.skip(from as int);
    let n = v.len();
    if !(v[from] == 'e' || v[from] == 'E') {
        return false;
    }
    let mut i = from + 1;
    if i < n && (v[i] == '+' || v[i] == '-') {
        i += 1;
    }
    assert(drop_sign(x.drop_first()) =~= v@.skip(i as int));
    if i == n {
        return false;
    }
    let e = digits_end(v, i);
    proof {
        let y = v@.skip(i as int);
        if e == n {
            assert forall|k: int| 0 <= k < y.len() implies is_digit(#[trigger] y[k]) by {
                assert(y[k] == v@[i + k]);
            }
        } else {
            assert(y[e - i] == v@[e as int]);
            assert(!is_digit(y[e - i]));
            assert(!all_digits(y));
        }
    }
    e == n
}

/// Whether `v[from..]` spells `w` in either case.
fn spells_at(v: &Vec<char>, from: usize, w: &Vec<char>) -> (b: bool)
    requires
        from <= v.len(),
    ensures
        b == spells(v@.skip(from as int), w@),
{
    let ghost s = v@.skip(from as int);
    if v.len() - from != w.len() {
        return false;
    }
    let mut i: usize = 0;
    while i < w.len()
        invariant
            from <= v.len(),
            v.len() - from == w.len(),
            s == v@.skip(from as int),
            i <= w.len(),
            forall|k: int| 0 <= k < i ==> same_letter(#[trigger] s[k], w@[k]),
        decreases w.len() - i,
    {
        let c = v[from + i];
        let l = w[i];
        assert(s[i as int] == c);
        if !(c == l || ('a' <= l && l <= 'z' && c as u32 == l as u32 - 32)) {
            return false;
        }
        i += 1;
    }
    true
}

/// Whether `v[from..]` is a decimal number.
fn decimal_at(v: &Vec<char>, from: usize) -> (b: bool)
    requires
        from <= v.len(),
    ensures
        b == is_decimal(v@.skip(from as int)),
{
    let ghost s = v@.skip(from as int);
    let n = v.len();
    let a_end = digits_end(v, from);
    assert(s.skip(a_end - from) =~= v@.skip(a_end as int));
    let point = a_end < n && v[a_end] == '.';
    let mut rest = a_end;
    let mut b: usize = 0;
    if point {
        let b_end = digits_end(v, a_end + 1);
        assert(v@.skip(a_end as int).drop_first() =~= v@.skip(a_end + 1));
        assert(v@.skip(a_end as int).skip(1 + b_end - a_end - 1) =~= v@.skip(b_end as int));
        b = b_end - a_end - 1;
        rest = b_end;
    }
    if a_end - from + b < 1 {
        return false;
    }
    rest == n || exponent_at(v, rest)
}

/// Whether `v` is a literal that `str::parse::<f64>` accepts.
pub fn float_literal(v: &Vec<char>) -> (b: bool)
    ensures
        b == is_float_literal(v@),
{
    let n = v.len();
    let start: usize = if n > 0 && (v[0] == '+' || v[0] == '-') { 1 } else { 0 };
    assert(drop_sign(v@) =~= v@.skip(start as int));
    let inf = vec!['i', 'n', 'f'];
    let infinity = vec!['i', 'n', 'f', 'i', 'n', 'i', 't', 'y'];
    let nan = vec!['n', 'a', 'n'];
    assert(inf@ =~= seq!['i', 'n', 'f']);
    assert(infinity@ =~= seq!['i', 'n', 'f', 'i', 'n', 'i', 't', 'y']);
    assert(nan@ =~= seq!['n', 'a', 'n']);
    decimal_at(v, start) || spells_at(v, start, &inf) || spells_at(v, start, &infinity)
        || spells_at(v, start, &nan)
}

/// The character of a decimal digit.
pub open spec fn digit_char(d: nat) -> char {
    seq!['0', '1', '2', '3', '4', '5', '6', '7', '8', '9'][d as int]
}

/// The decimal rendering of `n`, without leading zeros.
pub open spec fn decimal(n: nat) -> Seq<char>
    decreases n,
{
    if n < 10 {
        seq![digit_char(n)]
    } else {
        decimal(n / 10).push(digit_char(n % 10))
    }
}

/// The one-character text of digit `d`.
fn digit_text(d: u64) -> (s: &'static str)
    requires
        d < 10,
    ensures
        s@ == seq![digit_char(d as nat)],
{
    proof {
        reveal_strlit("0");
        reveal_strlit("1");
        reveal_strlit("2");
        reveal_strlit("3");
        reveal_strlit("4");
        reveal_strlit("5");
        reveal_strlit("6");
        reveal_strlit("7");
        reveal_strlit("8");
        reveal_strlit("9");
    }
    let s = match d {
        0 => "0",
        1 => "1",
        2 => "2",
        3 => "3",
        4 => "4",
        5 => "5",
        6 => "6",
        7 => "7",
        8 => "8",
        _ => "9",
    };
    assert(s@ =~= seq![digit_char(d as nat)]);
    s
}

/// Appends the decimal rendering of `n` to `s`.
pub fn push_decimal(s: &mut String, n: u64)
    ensures
        final(s)@ == old(s)@ + decimal(n as nat),
    decreases n,
{
    if n >= 10 {
        push_decimal(s, n / 10);
    }
    s.append(digit_text(n % 10));
    assert(decimal(n as nat) =~= if n < 10 {
        seq![digit_char(n as nat)]
    } else {
        decimal((n / 10) as nat).push(digit_char((n % 10) as nat))
    });
}

} // verus!
