//! Character-level text handling: whitespace, lines, words and the
//! number grammars the scanner reads.

use vstd::prelude::*;

verus! {

broadcast use vstd::string::group_string_axioms;

/// The characters with the Unicode `White_Space` property, which is what
/// `char::is_whitespace`, `str::trim` and `str::split_whitespace` go by.
pub open spec fn is_white_space(c: char) -> bool {
    let u = c as u32;
    ||| 0x09 <= u <= 0x0D
    ||| u == 0x20
    ||| u == 0x85
    ||| u == 0xA0
    ||| u == 0x1680
    ||| 0x2000 <= u <= 0x200A
    ||| u == 0x2028
    ||| u == 0x2029
    ||| u == 0x202F
    ||| u == 0x205F
    ||| u == 0x3000
}

/// Whether `c` is Unicode whitespace.
pub fn white_space(c: char) -> (b: bool)
    ensures
        b == is_white_space(c),
{
    let u = c as u32;
    (0x09 <= u && u <= 0x0D) || u == 0x20 || u == 0x85 || u == 0xA0 || u == 0x1680 || (0x2000
        <= u && u <= 0x200A) || u == 0x2028 || u == 0x2029 || u == 0x202F || u == 0x205F || u
        == 0x3000
}

/// The characters of `s`, in order.
pub fn chars_of(s: &str) -> (v: Vec<char>)
    ensures
        v@ == s@,
{
    let mut v: Vec<char> = Vec::new();
    for c in it: s.chars()
        invariant
            v@ == it.seq().take(it.index() as int),
    {
        v.push(c);
    }
    v
}


/// Length of the longest prefix of `s` whose characters all satisfy `p`.
pub open spec fn run_len(s: Seq<char>, p: spec_fn(char) -> bool) -> nat
    decreases s.len(),
{
    if s.len() > 0 && p(s[0]) {
        1 + run_len(s.drop_first(), p)
    } else {
        0
    }
}

/// A run can be no longer than the text.
pub proof fn lemma_run_len_bound(s: Seq<char>, p: spec_fn(char) -> bool)
    ensures
        run_len(s, p) <= s.len(),
    decreases s.len(),
{
    if s.len() > 0 && p(s[0]) {
        lemma_run_len_bound(s.drop_first(), p);
    }
}

/// A run is exactly as long as the first `j` characters that satisfy `p`
/// when the character after them, if any, does not.
pub proof fn lemma_run_len(s: Seq<char>, p: spec_fn(char) -> bool, j: int)
    requires
        0 <= j <= s.len(),
        forall|k: int| 0 <= k < j ==> p(#[trigger] s[k]),
        j < s.len() ==> !p(s[j]),
    ensures
        run_len(s, p) == j,
    decreases j,
{
    if j > 0 {
        assert forall|k: int| 0 <= k < j - 1 implies p(#[trigger] s.drop_first()[k]) by {
            assert(s.drop_first()[k] == s[k + 1]);
        }
        lemma_run_len(s.drop_first(), p, j - 1);
    }
}

/// The characters of a run satisfy `p`, and the one after it, if any, does not.
pub proof fn lemma_run_len_facts(s: Seq<char>, p: spec_fn(char) -> bool)
    ensures
        run_len(s, p) <= s.len(),
        forall|k: int| 0 <= k < run_len(s, p) ==> p(#[trigger] s[k]),
        run_len(s, p) < s.len() ==> !p(s[run_len(s, p) as int]),
    decreases s.len(),
{
    if s.len() > 0 && p(s[0]) {
        lemma_run_len_facts(s.drop_first(), p);
        assert forall|k: int| 0 <= k < run_len(s, p) implies p(#[trigger] s[k]) by {
            if k > 0 {
                assert(s[k] == s.drop_first()[k - 1]);
            }
        }
        if run_len(s, p) < s.len() {
            assert(s[run_len(s, p) as int] == s.drop_first()[run_len(s.drop_first(), p) as int]);
        }
    }
}

/// Number of characters before the first line feed (the whole length when there is none).
pub open spec fn first_newline(s: Seq<char>) -> nat {
    run_len(s, |c: char| c != '\n')
}

/// `s` without one trailing carriage return.
pub open spec fn strip_cr(s: Seq<char>) -> Seq<char> {
    if s.len() > 0 && s.last() == '\r' {
        s.drop_last()
    } else {
        s
    }
}

/// The lines of `s` as `str::lines` yields them: split at `\n` or `\r\n`,
/// the terminators dropped, and no empty line after a final terminator.
pub open spec fn lines(s: Seq<char>) -> Seq<Seq<char>>
    decreases s.len(),
{
    if s.len() == 0 {
        seq![]
    } else {
        let j = first_newline(s);
        if j >= s.len() {
            seq![s]
        } else {
            seq![strip_cr(s.take(j as int))] + lines(s.skip(j + 1 as int))
        }
    }
}

/// Text followed by a line feed and more text has the lines of the first
/// text with its line ended, then the lines of the rest.
pub proof fn lemma_lines_concat(t: Seq<char>, s: Seq<char>)
    ensures
        lines(t + seq!['\n'] + s) == lines(t + seq!['\n']) + lines(s),
    decreases t.len(),
{
    let u = t + seq!['\n'] + s;
    let v = t + seq!['\n'];
    let p = |c: char| c != '\n';
    lemma_run_len_facts(t, p);
    let j: int = run_len(t, p) as int;
    assert forall|k: int| 0 <= k < j implies p(#[trigger] u[k]) by {
        assert(u[k] == t[k]);
    }
    assert forall|k: int| 0 <= k < j implies p(#[trigger] v[k]) by {
        assert(v[k] == t[k]);
    }
    assert(u[j as int] == '\n');
    assert(v[j as int] == '\n');
    lemma_run_len(u, p, j);
    lemma_run_len(v, p, j);
    assert(u.take(j as int) =~= t.take(j as int));
    assert(v.take(j as int) =~= t.take(j as int));
    if j < t.len() {
        let t2 = t.skip(j + 1);
        assert(u.skip(j + 1) =~= t2 + seq!['\n'] + s);
        assert(v.skip(j + 1) =~= t2 + seq!['\n']);
        lemma_lines_concat(t2, s);
        assert(lines(u) =~= lines(v) + lines(s));
    } else {
        assert(u.skip(j + 1) =~= s);
        assert(v.skip(j + 1) =~= Seq::<char>::empty());
        assert(lines(Seq::<char>::empty()) =~= Seq::<Seq<char>>::empty());
        assert(lines(v) == seq![strip_cr(t.take(j as int))] + lines(v.skip(j + 1)));
        assert(lines(v) =~= seq![strip_cr(t.take(j as int))]);
        assert(lines(u) =~= lines(v) + lines(s));
    }
}

/// Number of leading whitespace characters.
pub open spec fn leading_ws(s: Seq<char>) -> nat {
    run_len(s, |c: char| is_white_space(c))
}

/// Number of trailing whitespace characters.
pub open spec fn trailing_ws(s: Seq<char>) -> nat
    decreases s.len(),
{
    if s.len() > 0 && is_white_space(s.last()) {
        1 + trailing_ws(s.drop_last())
    } else {
        0
    }
}

/// `s` with leading and trailing whitespace removed, as `str::trim` does.
pub open spec fn trim(s: Seq<char>) -> Seq<char> {
    let t = s.skip(leading_ws(s) as int);
    t.take(t.len() - trailing_ws(t))
}

/// There are no more trailing whitespace characters than characters.
pub proof fn lemma_trailing_ws_bound(s: Seq<char>)
    ensures
        trailing_ws(s) <= s.len(),
    decreases s.len(),
{
    if s.len() > 0 && is_white_space(s.last()) {
        lemma_trailing_ws_bound(s.drop_last());
    }
}

/// Trimming ignores one trailing carriage return.
pub proof fn lemma_trim_strip_cr(t: Seq<char>)
    ensures
        trim(strip_cr(t)) == trim(t),
{
    if t.len() > 0 && t.last() == '\r' {
        let d = t.drop_last();
        let n = t.len();
        let p = |c: char| is_white_space(c);
        assert(is_white_space('\r'));
        lemma_run_len_facts(t, p);
        let k = run_len(t, p);
        if k == n {
            assert forall|i: int| 0 <= i < n - 1 implies p(#[trigger] d[i]) by {
                assert(d[i] == t[i]);
            }
            lemma_run_len(d, p, n - 1);
            assert(trim(t) =~= Seq::<char>::empty());
            assert(trim(d) =~= Seq::<char>::empty());
        } else {
            assert(k < n - 1);
            assert forall|i: int| 0 <= i < k implies p(#[trigger] d[i]) by {
                assert(d[i] == t[i]);
            }
            assert(d[k as int] == t[k as int]);
            lemma_run_len(d, p, k as int);
            let u = t.skip(k as int);
            let ud = d.skip(k as int);
            assert(ud =~= u.drop_last());
            assert(u.last() == '\r');
            lemma_trailing_ws_bound(ud);
            assert(trailing_ws(u) == 1 + trailing_ws(ud));
            assert(trim(t) == u.take(u.len() - trailing_ws(u)));
            assert(trim(d) == ud.take(ud.len() - trailing_ws(ud)));
            assert(u.take(u.len() - trailing_ws(u)) =~= ud.take(ud.len() - trailing_ws(ud)));
        }
    }
}

/// Number of leading characters that are not whitespace.
pub open spec fn word_len(s: Seq<char>) -> nat {
    run_len(s, |c: char| !is_white_space(c))
}

/// The whitespace-separated words of `s`, as `str::split_whitespace` yields them.
pub open spec fn words(s: Seq<char>) -> Seq<Seq<char>>
    decreases s.len(),
{
    if s.len() == 0 {
        seq![]
    } else if is_white_space(s[0]) {
        words(s.drop_first())
    } else {
        let k = word_len(s);
        proof {
            lemma_run_len_bound(s, |c: char| !is_white_space(c));
        }
        seq![s.take(k as int)] + words(s.skip(k as int))
    }
}

/// Whether `p` occurs in `s` as a contiguous piece.
pub open spec fn contains(s: Seq<char>, p: Seq<char>) -> bool {
    exists|i: int| 0 <= i && i + p.len() <= s.len() && #[trigger] s.subrange(i, i + p.len()) == p
}

/// A copy of `v[from..to]`.
pub fn copy_range(v: &Vec<char>, from: usize, to: usize) -> (r: Vec<char>)
    requires
        from <= to <= v.len(),
    ensures
        r@ == v@.subrange(from as int, to as int),
{
    let mut r: Vec<char> = Vec::new();
    let mut i = from;
    while i < to
        invariant
            from <= i <= to <= v.len(),
            r@ == v@.subrange(from as int, i as int),
        decreases to - i,
    {
        r.push(v[i]);
        i += 1;
        assert(r@ =~= v@.subrange(from as int, i as int));
    }
    r
}

/// `v` split into lines, as `str::lines` splits a string.
pub fn split_lines(v: &Vec<char>) -> (r: Vec<Vec<char>>)
    ensures
        r.len() == lines(v@).len(),
        forall|i: int| 0 <= i < r.len() ==> #[trigger] r[i]@ == lines(v@)[i],
{
    let n = v.len();
    let mut r: Vec<Vec<char>> = Vec::new();
    let ghost mut done: Seq<Seq<char>> = seq![];
    let mut start: usize = 0;
    let mut i: usize = 0;
    assert(v@.skip(0) =~= v@);
    assert(done + lines(v@) =~= lines(v@));
    while i < n
        invariant
            n == v.len(),
            start <= i <= n,
            forall|k: int| start <= k < i ==> v@[k] != '\n',
            r.len() == done.len(),
            forall|k: int| 0 <= k < r.len() ==> #[trigger] r[k]@ == done[k],
            lines(v@) == done + lines(v@.skip(start as int)),
        decreases n - i,
    {
        if v[i] == '\n' {
            let ghost s = v@.skip(start as int);
            proof {
                lemma_run_len(s, |c: char| c != '\n', i - start);
                assert(s.take(i - start) =~= v@.subrange(start as int, i as int));
                assert(s.skip(i - start + 1) =~= v@.skip(i + 1));
            }
            let mut end = i;
            if end > start && v[end - 1] == '\r' {
                end = end - 1;
            }
            let line = copy_range(v, start, end);
            proof {
                assert(line@ =~= strip_cr(v@.subrange(start as int, i as int)));
                done = done + seq![line@];
            }
            r.push(line);
            start = i + 1;
        }
        i += 1;
    }
    if start < n {
        let ghost s = v@.skip(start as int);
        proof {
            lemma_run_len(s, |c: char| c != '\n', n - start);
        }
        let line = copy_range(v, start, n);
        proof {
            assert(line@ =~= s);
            done = done + seq![line@];
        }
        r.push(line);
    } else {
        assert(v@.skip(start as int) =~= seq![]);
    }
    assert(lines(v@) =~= done);
    r
}


/// The trailing-whitespace count is the number of whitespace characters
/// after position `j` when the character before them is not whitespace.
proof fn lemma_trailing_ws(s: Seq<char>, j: int)
    requires
        0 <= j <= s.len(),
        forall|k: int| j <= k < s.len() ==> is_white_space(#[trigger] s[k]),
        j > 0 ==> !is_white_space(s[j - 1]),
    ensures
        trailing_ws(s) == s.len() - j,
    decreases s.len() - j,
{
    if s.len() > j {
        assert forall|k: int| j <= k < s.drop_last().len() implies is_white_space(
            #[trigger] s.drop_last()[k],
        ) by {
            assert(s.drop_last()[k] == s[k]);
        }
        lemma_trailing_ws(s.drop_last(), j);
    }
}

/// `v` with leading and trailing whitespace removed.
pub fn trim_chars(v: &Vec<char>) -> (r: Vec<char>)
    ensures
        r@ == trim(v@),
{
    let n = v.len();
    let mut i: usize = 0;
    while i < n && white_space(v[i])
        invariant
            n == v.len(),
            i <= n,
            forall|k: int| 0 <= k < i ==> is_white_space(#[trigger] v@[k]),
        decreases n - i,
    {
        i += 1;
    }
    proof {
        lemma_run_len(v@, |c: char| is_white_space(c), i as int);
    }
    let mut e: usize = n;
    while e > i && white_space(v[e - 1])
        invariant
            n == v.len(),
            i <= e <= n,
            forall|k: int| e <= k < n ==> is_white_space(#[trigger] v@[k]),
        decreases e,
    {
        e -= 1;
    }
    let ghost t = v@.skip(i as int);
    proof {
        assert forall|k: int| e - i <= k < t.len() implies is_white_space(#[trigger] t[k]) by {
            assert(t[k] == v@[i + k]);
        }
        lemma_trailing_ws(t, e - i);
    }
    let r = copy_range(v, i, e);
    assert(r@ =~= t.take(t.len() - trailing_ws(t)));
    r
}

/// `v` split into whitespace-separated words.
pub fn split_words(v: &Vec<char>) -> (r: Vec<Vec<char>>)
    ensures
        r.len() == words(v@).len(),
        forall|i: int| 0 <= i < r.len() ==> #[trigger] r[i]@ == words(v@)[i],
{
    let n = v.len();
    let mut r: Vec<Vec<char>> = Vec::new();
    let ghost mut done: Seq<Seq<char>> = seq![];
    let mut i: usize = 0;
    assert(v@.skip(0) =~= v@);
    assert(done + words(v@) =~= words(v@));
    while i < n
        invariant
            n == v.len(),
            i <= n,
            r.len() == done.len(),
            forall|k: int| 0 <= k < r.len() ==> #[trigger] r[k]@ == done[k],
            words(v@) == done + words(v@.skip(i as int)),
        decreases n - i,
    {
        let ghost s = v@.skip(i as int);
        if white_space(v[i]) {
            assert(s.drop_first() =~= v@.skip(i + 1));
            i += 1;
        } else {
            let mut j = i + 1;
            while j < n && !white_space(v[j])
                invariant
                    n == v.len(),
                    i < j <= n,
                    forall|k: int| i <= k < j ==> !is_white_space(#[trigger] v@[k]),
                decreases n - j,
            {
                j += 1;
            }
            proof {
                assert forall|k: int| 0 <= k < j - i implies !is_white_space(#[trigger] s[k]) by {
                    assert(s[k] == v@[i + k]);
                }
                lemma_run_len(s, |c: char| !is_white_space(c), j - i);
                assert(s.skip(j - i) =~= v@.skip(j as int));
            }
            let w = copy_range(v, i, j);
            proof {
                assert(w@ =~= s.take(j - i));
                done = done + seq![w@];
            }
            r.push(w);
            i = j;
        }
    }
    assert(v@.skip(n as int) =~= seq![]);
    assert(words(v@) =~= done);
    r
}

/// Whether `p` occurs in `v` at position `i`.
fn occurs_at(v: &Vec<char>, p: &Vec<char>, i: usize) -> (b: bool)
    requires
        i + p.len() <= v.len(),
    ensures
        b == (v@.subrange(i as int, i + p.len()) == p@),
{
    let m = p.len();
    let mut k: usize = 0;
    while k < m
        invariant
            m == p.len(),
            i + m <= v.len(),
            k <= m,
            forall|t: int| 0 <= t < k ==> v@[i + t] == p@[t],
        decreases m - k,
    {
        if v[i + k] != p[k] {
            assert(v@.subrange(i as int, i + m)[k as int] != p@[k as int]);
            return false;
        }
        k += 1;
    }
    assert(v@.subrange(i as int, i + m) =~= p@);
    true
}

/// Whether `p` occurs in `v`.
pub fn contains_chars(v: &Vec<char>, p: &Vec<char>) -> (b: bool)
    ensures
        b == contains(v@, p@),
{
    let n = v.len();
    let m = p.len();
    if m > n {
        return false;
    }
    let mut i: usize = 0;
    while i <= n - m
        invariant
            n == v.len(),
            m == p.len(),
            m <= n,
            i <= n - m + 1,
            forall|k: int| 0 <= k < i ==> #[trigger] v@.subrange(k, k + m) != p@,
        decreases n - m + 1 - i,
    {
        if occurs_at(v, p, i) {
            return true;
        }
        if i == n - m {
            assert forall|k: int| 0 <= k && k + m <= n implies #[trigger] v@.subrange(k, k + m)
                != p@ by {
                assert(k <= i);
            }
            return false;
        }
        i += 1;
    }
    false
}


/// `c` in ASCII lowercase: `A`..`Z` become `a`..`z`, all else stays.
pub open spec fn ascii_lower_char(c: char) -> char {
    if 'A' <= c <= 'Z' {
        ((c as u32) + 32) as char
    } else {
        c
    }
}

/// `c` in ASCII uppercase: `a`..`z` become `A`..`Z`, all else stays.
pub open spec fn ascii_upper_char(c: char) -> char {
    if 'a' <= c <= 'z' {
        ((c as u32) - 32) as char
    } else {
        c
    }
}

/// `s` in ASCII lowercase, as `str::to_ascii_lowercase` makes it.
pub open spec fn ascii_lower(s: Seq<char>) -> Seq<char> {
    s.map_values(|c: char| ascii_lower_char(c))
}

/// `s` in ASCII uppercase, as `str::to_ascii_uppercase` makes it.
pub open spec fn ascii_upper(s: Seq<char>) -> Seq<char> {
    s.map_values(|c: char| ascii_upper_char(c))
}

/// A character map that keeps line feeds, carriage returns and whitespace
/// what they are.
pub open spec fn keeps_layout(f: spec_fn(char) -> char) -> bool {
    forall|c: char|
        #![trigger f(c)]
        (f(c) == '\n' <==> c == '\n') && (f(c) == '\r' <==> c == '\r') && (is_white_space(f(c))
            <==> is_white_space(c))
}

/// ASCII case changes keep the layout of a text.
pub proof fn lemma_ascii_case_keeps_layout()
    ensures
        keeps_layout(|c: char| ascii_lower_char(c)),
        keeps_layout(|c: char| ascii_upper_char(c)),
{
}

/// A run is as long after a map that keeps the predicate.
proof fn lemma_run_len_map(s: Seq<char>, p: spec_fn(char) -> bool, f: spec_fn(char) -> char)
    requires
        forall|c: char| #[trigger] p(f(c)) == p(c),
    ensures
        run_len(s.map_values(f), p) == run_len(s, p),
    decreases s.len(),
{
    if s.len() > 0 {
        assert(s.map_values(f).drop_first() =~= s.drop_first().map_values(f));
        assert(p(s.map_values(f)[0]) == p(s[0])) by {
            assert(s.map_values(f)[0] == f(s[0]));
        }
        lemma_run_len_map(s.drop_first(), p, f);
    }
}

/// The lines of a text mapped character by character, with a map that
/// keeps the layout, are its lines mapped the same way.
pub proof fn lemma_lines_map(s: Seq<char>, f: spec_fn(char) -> char)
    requires
        keeps_layout(f),
    ensures
        lines(s.map_values(f)) == lines(s).map_values(|l: Seq<char>| l.map_values(f)),
    decreases s.len(),
{
    let m = s.map_values(f);
    let g = |l: Seq<char>| l.map_values(f);
    if s.len() == 0 {
        assert(lines(m) =~= lines(s).map_values(g));
    } else {
        let p = |c: char| c != '\n';
        assert forall|c: char| #[trigger] p(f(c)) == p(c) by {
            assert(f(c) == '\n' <==> c == '\n');
        }
        lemma_run_len_map(s, p, f);
        let j: int = run_len(s, p) as int;
        if j >= s.len() {
            assert(lines(m) =~= seq![m]);
            assert(lines(s) =~= seq![s]);
            assert(lines(m) =~= lines(s).map_values(g));
        } else {
            let x = s.take(j as int);
            assert(m.take(j as int) =~= x.map_values(f));
            assert(m.skip(j + 1) =~= s.skip(j + 1).map_values(f));
            if x.len() > 0 {
                assert(x.map_values(f).last() == f(x.last()));
                assert(x.map_values(f).drop_last() =~= x.drop_last().map_values(f));
            }
            assert(strip_cr(x.map_values(f)) =~= strip_cr(x).map_values(f));
            lemma_lines_map(s.skip(j + 1), f);
            assert(lines(m) =~= lines(s).map_values(g));
        }
    }
}

/// Trailing whitespace is as long after a map that keeps the layout.
proof fn lemma_trailing_ws_map(s: Seq<char>, f: spec_fn(char) -> char)
    requires
        keeps_layout(f),
    ensures
        trailing_ws(s.map_values(f)) == trailing_ws(s),
    decreases s.len(),
{
    if s.len() > 0 {
        assert(s.map_values(f).drop_last() =~= s.drop_last().map_values(f));
        assert(s.map_values(f).last() == f(s.last()));
        lemma_trailing_ws_map(s.drop_last(), f);
    }
}

/// Trimming a text mapped with a map that keeps the layout is trimming it,
/// then mapping.
pub proof fn lemma_trim_map(s: Seq<char>, f: spec_fn(char) -> char)
    requires
        keeps_layout(f),
    ensures
        trim(s.map_values(f)) == trim(s).map_values(f),
{
    let p = |c: char| is_white_space(c);
    assert forall|c: char| #[trigger] p(f(c)) == p(c) by {
        assert(is_white_space(f(c)) <==> is_white_space(c));
    }
    lemma_run_len_map(s, p, f);
    lemma_run_len_bound(s, p);
    let k = leading_ws(s) as int;
    let t = s.skip(k);
    assert(s.map_values(f).skip(k) =~= t.map_values(f));
    lemma_trailing_ws_map(t, f);
    lemma_trailing_ws_bound(t);
    assert(trim(s.map_values(f)) =~= trim(s).map_values(f));
}

/// Every line of an ASCII text is ASCII.
pub proof fn lemma_lines_ascii(s: Seq<char>)
    requires
        vstd::utf8::is_ascii_chars(s),
    ensures
        forall|i: int|
            0 <= i < lines(s).len() ==> vstd::utf8::is_ascii_chars(#[trigger] lines(s)[i]),
    decreases s.len(),
{
    if s.len() > 0 {
        let j: int = first_newline(s) as int;
        lemma_run_len_bound(s, |c: char| c != '\n');
        if j < s.len() {
            let x = s.take(j as int);
            assert(vstd::utf8::is_ascii_chars(strip_cr(x))) by {
                assert forall|k: int| 0 <= k < strip_cr(x).len() implies '\0' <= #[trigger] strip_cr(
                    x,
                )[k] <= '\u{7f}' by {
                    assert(strip_cr(x)[k] == s[k]);
                }
            }
            let r = s.skip(j + 1);
            assert(vstd::utf8::is_ascii_chars(r)) by {
                assert forall|k: int| 0 <= k < r.len() implies '\0' <= #[trigger] r[k] <= '\u{7f}' by {
                    assert(r[k] == s[j + 1 + k]);
                }
            }
            lemma_lines_ascii(r);
            assert forall|i: int| 0 <= i < lines(s).len() implies vstd::utf8::is_ascii_chars(
                #[trigger] lines(s)[i],
            ) by {
                if i > 0 {
                    assert(lines(s)[i] == lines(r)[i - 1]);
                }
            }
        }
    }
}

/// The trimmed form of an ASCII text is ASCII.
pub proof fn lemma_trim_ascii(s: Seq<char>)
    requires
        vstd::utf8::is_ascii_chars(s),
    ensures
        vstd::utf8::is_ascii_chars(trim(s)),
{
    lemma_run_len_bound(s, |c: char| is_white_space(c));
    let k = leading_ws(s) as int;
    let t = s.skip(k);
    lemma_trailing_ws_bound(t);
    assert forall|i: int| 0 <= i < trim(s).len() implies '\0' <= #[trigger] trim(s)[i] <= '\u{7f}' by {
        assert(trim(s)[i] == s[k + i]);
    }
}

} // verus!
