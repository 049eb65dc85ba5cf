//! Reading the output of `tmutil listlocalsnapshots`: how many local
//! snapshots there are and how much space they say they hold.

use vstd::prelude::*;
use crate::number::{float_literal, is_float_literal, parse_u64, parse_u64_spec};
use vstd::utf8::is_ascii_chars;
use crate::text::{

    ascii_lower, ascii_lower_char, ascii_upper, ascii_upper_char, keeps_layout,
    lemma_ascii_case_keeps_layout, lemma_lines_ascii, lemma_lines_map, lemma_trim_ascii,
    lemma_trim_map,
    lemma_lines_concat, lemma_run_len, lemma_run_len_facts, lemma_trim_strip_cr, run_len, strip_cr,
    chars_of, contains, contains_chars, lines, split_lines, split_words, trim, trim_chars, words,
};

verus! {

/// What `str::to_lowercase` makes of a text: its Unicode lowercase form.
pub uninterp spec fn lowercase_of(s: Seq<char>) -> Seq<char>;

/// The Unicode lowercase form of `text`, through `str::to_lowercase`; the
/// lowercase form of an empty text is empty, and that of an ASCII text is
/// its ASCII lowercase (`A`..`Z` become `a`..`z`, the rest stays).
#[verifier::external_body]
fn lowercase(text: &Vec<char>) -> (r: Vec<char>)
    ensures
        r@ == lowercase_of(text@),
        text@.len() == 0 ==> r@.len() == 0,
        is_ascii_chars(text@) ==> r@ == ascii_lower(text@),
{
    let s: String = text.iter().collect();
    s.to_lowercase().chars().collect()
}

/// The string made of `chars`, in order (`String: FromIterator<char>`).
#[verifier::external_body]
pub(crate) fn string_from_chars(chars: &Vec<char>) -> (s: String)
    ensures
        s@ == chars@,
{
    chars.iter().collect()
}

/// A size read from `tmutil` output.
#[derive(Clone, Debug)]
pub enum PurgeableSize {
    /// A plain number of bytes.
    Bytes(u64),
    /// A number of gigabytes, written as a floating-point literal that
    /// `str::parse::<f64>` accepts (the text before the `gb` suffix).
    Gigabytes(String),
}

/// A size reading with its literal as a character sequence.
pub enum PurgeableSizeView {
    Bytes(u64),
    Gigabytes(Seq<char>),
}

impl View for PurgeableSize {
    type V = PurgeableSizeView;

    open spec fn view(&self) -> PurgeableSizeView {
        match self {
            PurgeableSize::Bytes(n) => PurgeableSizeView::Bytes(*n),
            PurgeableSize::Gigabytes(t) => PurgeableSizeView::Gigabytes(t@),
        }
    }
}

/// The view of an optional reading.
pub open spec fn opt_view(r: Option<PurgeableSize>) -> Option<PurgeableSizeView> {
    match r {
        Some(p) => Some(p@),
        None => None,
    }
}

/// What one word says: a plain unsigned number of bytes, or else a
/// floating-point literal followed by `gb`.
pub open spec fn word_reading(w: Seq<char>) -> Option<PurgeableSizeView> {
    match parse_u64_spec(w) {
        Some(n) => Some(PurgeableSizeView::Bytes(n)),
        None => {
            let n = w.len();
            if n >= 2 && w[n - 2] == 'g' && w[n - 1] == 'b' && is_float_literal(w.take(n - 2)) {
                Some(PurgeableSizeView::Gigabytes(w.take(n - 2)))
            } else {
                None
            }
        },
    }
}

/// The reading of the first word that says something.
pub open spec fn first_word_reading(ws: Seq<Seq<char>>) -> Option<PurgeableSizeView>
    decreases ws.len(),
{
    if ws.len() == 0 {
        None
    } else {
        match word_reading(ws[0]) {
            Some(r) => Some(r),
            None => first_word_reading(ws.drop_first()),
        }
    }
}

/// What a lowercased, trimmed line says: only a line that mentions
/// `purgeable` or `size` is read, word by word.
pub open spec fn line_reading(lowered: Seq<char>) -> Option<PurgeableSizeView> {
    if contains(lowered, "purgeable"@) || contains(lowered, "size"@) {
        first_word_reading(words(lowered))
    } else {
        None
    }
}

/// What one line of output says: a blank line nothing, any other line
/// what it says once trimmed and lowercased.
pub open spec fn raw_line_reading(line: Seq<char>) -> Option<PurgeableSizeView> {
    if trim(line).len() == 0 {
        None
    } else {
        line_reading(lowercase_of(trim(line)))
    }
}

/// What one line of ASCII output says: a blank line nothing, any other
/// line what it says once trimmed and put in ASCII lowercase.
pub open spec fn ascii_line_reading(line: Seq<char>) -> Option<PurgeableSizeView> {
    if trim(line).len() == 0 {
        None
    } else {
        line_reading(ascii_lower(trim(line)))
    }
}

/// The reading of the first line of ASCII output that says something.
pub open spec fn ascii_first_line_reading(ls: Seq<Seq<char>>) -> Option<PurgeableSizeView>
    decreases ls.len(),
{
    if ls.len() == 0 {
        None
    } else {
        match ascii_line_reading(ls[0]) {
            Some(r) => Some(r),
            None => ascii_first_line_reading(ls.drop_first()),
        }
    }
}

/// The size that ASCII `tmutil` output states, if it states one.
pub open spec fn ascii_purgeable_reading(output: Seq<char>) -> Option<PurgeableSizeView> {
    ascii_first_line_reading(lines(output))
}

/// The reading of the first line that says something; each line is
/// trimmed and lowercased before it is read.
pub open spec fn first_line_reading(ls: Seq<Seq<char>>) -> Option<PurgeableSizeView>
    decreases ls.len(),
{
    if ls.len() == 0 {
        None
    } else {
        match raw_line_reading(ls[0]) {
            Some(r) => Some(r),
            None => first_line_reading(ls.drop_first()),
        }
    }
}

/// The size that `tmutil` output states, if it states one.
pub open spec fn purgeable_reading(output: Seq<char>) -> Option<PurgeableSizeView> {
    first_line_reading(lines(output))
}

/// Any word that `str::parse::<u64>` accepts, 0 included, reads as that
/// many bytes.
pub proof fn lemma_number_word_is_bytes(w: Seq<char>, v: u64)
    requires
        parse_u64_spec(w) == Some(v),
    ensures
        word_reading(w) == Some(PurgeableSizeView::Bytes(v)),
{
}

/// On a line that mentions `purgeable` or `size`, a first word that
/// `str::parse::<u64>` accepts is the size read, 0 included.
pub proof fn lemma_first_number_on_line(lowered: Seq<char>, v: u64)
    requires
        contains(lowered, "purgeable"@) || contains(lowered, "size"@),
        words(lowered).len() > 0,
        parse_u64_spec(words(lowered)[0]) == Some(v),
    ensures
        line_reading(lowered) == Some(PurgeableSizeView::Bytes(v)),
{
    lemma_number_word_is_bytes(words(lowered)[0], v);
}

/// Reads one word.
pub fn read_word(w: &Vec<char>) -> (r: Option<PurgeableSize>)
    ensures
        opt_view(r) == word_reading(w@),
{
    match parse_u64(w) {
        Some(n) => Some(PurgeableSize::Bytes(n)),
        None => {
            let n = w.len();
            if n >= 2 && w[n - 2] == 'g' && w[n - 1] == 'b' {
                let mut number: Vec<char> = Vec::new();
                let mut i: usize = 0;
                while i < n - 2
                    invariant
                        n == w.len(),
                        n >= 2,
                        i <= n - 2,
                        number@ == w@.take(i as int),
                    decreases n - 2 - i,
                {
                    number.push(w[i]);
                    i += 1;
                    assert(number@ =~= w@.take(i as int));
                }
                if float_literal(&number) {
                    Some(PurgeableSize::Gigabytes(string_from_chars(&number)))
                } else {
                    None
                }
            } else {
                None
            }
        },
    }
}

/// Reads one line that has already been trimmed and lowercased.
pub fn read_line(lowered: &Vec<char>) -> (r: Option<PurgeableSize>)
    ensures
        opt_view(r) == line_reading(lowered@),
{
    let purgeable = chars_of("purgeable");
    let size = chars_of("size");
    if !(contains_chars(lowered, &purgeable) || contains_chars(lowered, &size)) {
        return None;
    }
    let ws = split_words(lowered);
    let ghost all = words(lowered@);
    let mut i: usize = 0;
    assert(all.skip(0) =~= all);
    while i < ws.len()
        invariant
            contains(lowered@, "purgeable"@) || contains(lowered@, "size"@),
            all == words(lowered@),
            ws.len() == all.len(),
            forall|k: int| 0 <= k < ws.len() ==> #[trigger] ws[k]@ == all[k],
            i <= ws.len(),
            first_word_reading(all) == first_word_reading(all.skip(i as int)),
        decreases ws.len() - i,
    {
        let r = read_word(&ws[i]);
        assert(all.skip(i as int)[0] == all[i as int]);
        if r.is_some() {
            return r;
        }
        assert(all.skip(i as int).drop_first() =~= all.skip(i + 1));
        i += 1;
    }
    None
}

/// The size that `tmutil listlocalsnapshots / -purgeable` output states:
/// the first plain number of bytes, or number of gigabytes, on the first
/// line that mentions `purgeable` or `size` (in any case) and states one.
pub fn parse_purgeable_size(output: &str) -> (r: Option<PurgeableSize>)
    ensures
        opt_view(r) == purgeable_reading(output@),
        is_ascii_chars(output@) ==> opt_view(r) == ascii_purgeable_reading(output@),
{
    let text = chars_of(output);
    let ls = split_lines(&text);
    let ghost all = lines(output@);
    let mut i: usize = 0;
    assert(all.skip(0) =~= all);
    proof {
        if is_ascii_chars(output@) {
            lemma_lines_ascii(output@);
        }
    }
    while i < ls.len()
        invariant
            all == lines(output@),
            ls.len() == all.len(),
            forall|k: int| 0 <= k < ls.len() ==> #[trigger] ls[k]@ == all[k],
            i <= ls.len(),
            first_line_reading(all) == first_line_reading(all.skip(i as int)),
            is_ascii_chars(output@) ==> forall|k: int|
                0 <= k < all.len() ==> is_ascii_chars(#[trigger] all[k]),
            is_ascii_chars(output@) ==> ascii_first_line_reading(all) == ascii_first_line_reading(
                all.skip(i as int),
            ),
        decreases ls.len() - i,
    {
        let trimmed = trim_chars(&ls[i]);
        proof {
            if is_ascii_chars(output@) {
                lemma_trim_ascii(all[i as int]);
            }
        }
        let lowered = lowercase(&trimmed);
        let r = read_line(&lowered);
        if trimmed.len() == 0 {
            assert(lowered@ =~= Seq::<char>::empty());
            assert(words(lowered@) =~= Seq::<Seq<char>>::empty());
        }
        assert(opt_view(r) == raw_line_reading(all[i as int]));
        assert(is_ascii_chars(output@) ==> opt_view(r) == ascii_line_reading(all[i as int]));
        assert(all.skip(i as int)[0] == all[i as int]);
        if r.is_some() {
            return r;
        }
        assert(all.skip(i as int).drop_first() =~= all.skip(i + 1));
        i += 1;
    }
    None
}

/// A gigabyte reading of one word is always a literal `str::parse::<f64>` accepts.
proof fn lemma_word_gigabytes_are_floats(ws: Seq<Seq<char>>)
    ensures
        first_word_reading(ws) matches Some(PurgeableSizeView::Gigabytes(t)) ==> is_float_literal(
            t,
        ),
    decreases ws.len(),
{
    if ws.len() > 0 {
        lemma_word_gigabytes_are_floats(ws.drop_first());
    }
}

/// Every gigabyte figure read from `tmutil` output is a literal that
/// `str::parse::<f64>` accepts, so converting it to bytes cannot fail.
pub proof fn lemma_gigabytes_are_floats(output: Seq<char>)
    ensures
        purgeable_reading(output) matches Some(PurgeableSizeView::Gigabytes(t))
            ==> is_float_literal(t),
{
    lemma_line_gigabytes_are_floats(lines(output));
}

proof fn lemma_line_gigabytes_are_floats(ls: Seq<Seq<char>>)
    ensures
        first_line_reading(ls) matches Some(PurgeableSizeView::Gigabytes(t)) ==> is_float_literal(
            t,
        ),
    decreases ls.len(),
{
    if ls.len() > 0 {
        lemma_word_gigabytes_are_floats(words(lowercase_of(trim(ls[0]))));
        assert(raw_line_reading(ls[0]) matches Some(PurgeableSizeView::Gigabytes(t))
            ==> first_word_reading(words(lowercase_of(trim(ls[0])))) == raw_line_reading(ls[0]));
        lemma_line_gigabytes_are_floats(ls.drop_first());
    }
}

/// Whether a line is not blank and, trimmed and lowercased, mentions
/// `purgeable` or `size`.
pub open spec fn mentions_size(line: Seq<char>) -> bool {
    let l = lowercase_of(trim(line));
    trim(line).len() > 0 && (contains(l, "purgeable"@) || contains(l, "size"@))
}

proof fn lemma_no_mention_no_line_reading(ls: Seq<Seq<char>>)
    requires
        forall|i: int| 0 <= i < ls.len() ==> !mentions_size(#[trigger] ls[i]),
    ensures
        first_line_reading(ls) is None,
    decreases ls.len(),
{
    if ls.len() > 0 {
        assert(!mentions_size(ls[0]));
        assert forall|i: int| 0 <= i < ls.drop_first().len() implies !mentions_size(
            #[trigger] ls.drop_first()[i],
        ) by {
            assert(ls.drop_first()[i] == ls[i + 1]);
        }
        lemma_no_mention_no_line_reading(ls.drop_first());
    }
}

/// Output in which no line mentions `purgeable` or `size`, in any case,
/// states no size.
pub proof fn lemma_no_mention_no_reading(output: Seq<char>)
    requires
        forall|i: int| 0 <= i < lines(output).len() ==> !mentions_size(#[trigger] lines(output)[i]),
    ensures
        purgeable_reading(output) is None,
{
    lemma_no_mention_no_line_reading(lines(output));
}

/// The first line that says something decides, whichever lines follow.
proof fn lemma_first_line_reading_concat(a: Seq<Seq<char>>, b: Seq<Seq<char>>)
    ensures
        first_line_reading(a + b) == match first_line_reading(a) {
            Some(r) => Some(r),
            None => first_line_reading(b),
        },
    decreases a.len(),
{
    if a.len() == 0 {
        assert(a + b =~= b);
    } else {
        assert((a + b)[0] == a[0]);
        assert((a + b).drop_first() =~= a.drop_first() + b);
        lemma_first_line_reading_concat(a.drop_first(), b);
    }
}

/// Ending the last line of an output with a line feed changes nothing it says.
proof fn lemma_terminated_reading(t: Seq<char>)
    ensures
        first_line_reading(lines(t + seq!['\n'])) == first_line_reading(lines(t)),
    decreases t.len(),
{
    let v = t + seq!['\n'];
    let p = |c: char| c != '\n';
    lemma_run_len_facts(t, p);
    let j: int = run_len(t, p) as int;
    assert forall|k: int| 0 <= k < j implies p(#[trigger] v[k]) by {
        assert(v[k] == t[k]);
    }
    assert(v[j] == '\n');
    lemma_run_len(v, p, j);
    assert(v.take(j) =~= t.take(j));
    assert(lines(Seq::<char>::empty()) =~= Seq::<Seq<char>>::empty());
    if t.len() == 0 {
        assert(v.skip(1) =~= Seq::<char>::empty());
        let e = Seq::<char>::empty();
        assert(strip_cr(v.take(0)) =~= e);
        assert(lines(v) =~= seq![e]);
        assert(trim(e) =~= e);
        assert(seq![e].drop_first() =~= Seq::<Seq<char>>::empty());
    } else if j < t.len() {
        let t2 = t.skip(j + 1);
        assert(v.skip(j + 1) =~= t2 + seq!['\n']);
        lemma_terminated_reading(t2);
        assert(lines(t).drop_first() == lines(t2));
        assert(lines(v).drop_first() == lines(t2 + seq!['\n']));
        assert(lines(t)[0] == lines(v)[0]);
    } else {
        lemma_run_len(t, p, t.len() as int);
        assert(v.skip(j + 1) =~= Seq::<char>::empty());
        assert(t.take(j) =~= t);
        assert(lines(v) == seq![strip_cr(v.take(j))] + lines(v.skip(j + 1)));
        assert(lines(v) =~= seq![strip_cr(t)]);
        assert(lines(t) =~= seq![t]);
        lemma_trim_strip_cr(t);
        assert(seq![t].drop_first() =~= Seq::<Seq<char>>::empty());
        assert(seq![strip_cr(t)].drop_first() =~= Seq::<Seq<char>>::empty());
    }
}

/// The size read from an output followed by a line feed and more lines is
/// the size the first output states, or else the size the rest states.
pub proof fn lemma_reading_concat(t: Seq<char>, s: Seq<char>)
    ensures
        purgeable_reading(t + seq!['\n'] + s) == match purgeable_reading(t) {
            Some(r) => Some(r),
            None => purgeable_reading(s),
        },
{
    lemma_lines_concat(t, s);
    lemma_first_line_reading_concat(lines(t + seq!['\n']), lines(s));
    lemma_terminated_reading(t);
}

/// Lines appended after an output that states a size never change the size read.
pub proof fn lemma_appended_lines_ignored(t: Seq<char>, s: Seq<char>)
    requires
        purgeable_reading(t) is Some,
    ensures
        purgeable_reading(t + seq!['\n'] + s) == purgeable_reading(t),
{
    lemma_reading_concat(t, s);
}

/// Lines that do not mention `purgeable` or `size`, placed in front of an
/// output, never contribute, whatever numbers they hold.
pub proof fn lemma_unmentioning_prefix_ignored(t: Seq<char>, s: Seq<char>)
    requires
        forall|i: int| 0 <= i < lines(t).len() ==> !mentions_size(#[trigger] lines(t)[i]),
    ensures
        purgeable_reading(t + seq!['\n'] + s) == purgeable_reading(s),
{
    lemma_no_mention_no_reading(t);
    lemma_reading_concat(t, s);
}

/// Lines that read alike read alike in sequence.
proof fn lemma_ascii_first_line_reading_map(ls: Seq<Seq<char>>, g: spec_fn(Seq<char>) -> Seq<char>)
    requires
        forall|l: Seq<char>| #[trigger] ascii_line_reading(g(l)) == ascii_line_reading(l),
    ensures
        ascii_first_line_reading(ls.map_values(g)) == ascii_first_line_reading(ls),
    decreases ls.len(),
{
    if ls.len() > 0 {
        assert(ls.map_values(g)[0] == g(ls[0]));
        assert(ls.map_values(g).drop_first() =~= ls.drop_first().map_values(g));
        lemma_ascii_first_line_reading_map(ls.drop_first(), g);
    }
}

/// A line reads the same after an ASCII case change `f`.
proof fn lemma_ascii_line_case(l: Seq<char>, f: spec_fn(char) -> char)
    requires
        keeps_layout(f),
        forall|c: char| #[trigger] ascii_lower_char(f(c)) == ascii_lower_char(c),
    ensures
        ascii_line_reading(l.map_values(f)) == ascii_line_reading(l),
{
    lemma_trim_map(l, f);
    assert(ascii_lower(trim(l).map_values(f)) =~= ascii_lower(trim(l)));
}

/// Reading ASCII output ignores case: its ASCII uppercase and lowercase
/// forms state the same size as it does. (`parse_purgeable_size` reads ASCII
/// output as `ascii_purgeable_reading` says.)
pub proof fn lemma_case_ignored(s: Seq<char>)
    ensures
        ascii_purgeable_reading(ascii_upper(s)) == ascii_purgeable_reading(s),
        ascii_purgeable_reading(ascii_lower(s)) == ascii_purgeable_reading(s),
{
    lemma_ascii_case_keeps_layout();
    let fu = |c: char| ascii_upper_char(c);
    let fl = |c: char| ascii_lower_char(c);
    assert forall|l: Seq<char>| #[trigger] ascii_line_reading(l.map_values(fu)) == ascii_line_reading(
        l,
    ) by {
        lemma_ascii_line_case(l, fu);
    }
    assert forall|l: Seq<char>| #[trigger] ascii_line_reading(l.map_values(fl)) == ascii_line_reading(
        l,
    ) by {
        lemma_ascii_line_case(l, fl);
    }
    lemma_lines_map(s, fu);
    lemma_lines_map(s, fl);
    lemma_ascii_first_line_reading_map(lines(s), |l: Seq<char>| l.map_values(fu));
    lemma_ascii_first_line_reading_map(lines(s), |l: Seq<char>| l.map_values(fl));
}

/// Number of lines that mention `marker`.
pub open spec fn lines_mentioning(ls: Seq<Seq<char>>, marker: Seq<char>) -> nat
    decreases ls.len(),
{
    if ls.len() == 0 {
        0
    } else {
        lines_mentioning(ls.drop_last(), marker) + if contains(ls.last(), marker) {
            1nat
        } else {
            0nat
        }
    }
}

/// Number of local snapshots that a `tmutil listlocalsnapshots /` listing
/// names: its lines that mention `com.apple.TimeMachine`.
pub open spec fn snapshot_count_of(listing: Seq<char>) -> nat {
    lines_mentioning(lines(listing), "com.apple.TimeMachine"@)
}

/// Counting lines that mention a marker adds up over lists of lines.
proof fn lemma_lines_mentioning_concat(a: Seq<Seq<char>>, b: Seq<Seq<char>>, m: Seq<char>)
    ensures
        lines_mentioning(a + b, m) == lines_mentioning(a, m) + lines_mentioning(b, m),
    decreases b.len(),
{
    if b.len() == 0 {
        assert(a + b =~= a);
    } else {
        assert((a + b).drop_last() =~= a + b.drop_last());
        assert((a + b).last() == b.last());
        lemma_lines_mentioning_concat(a, b.drop_last(), m);
    }
}

/// A trailing carriage return never makes or breaks a mention of the marker.
proof fn lemma_marker_strip_cr(t: Seq<char>)
    ensures
        contains(strip_cr(t), "com.apple.TimeMachine"@) == contains(t, "com.apple.TimeMachine"@),
{
    let m = "com.apple.TimeMachine"@;
    reveal_strlit("com.apple.TimeMachine");
    assert(m.len() == 21);
    assert(m[20] == 'e');
    if t.len() > 0 && t.last() == '\r' {
        let d = t.drop_last();
        if contains(t, m) {
            let i = choose|i: int| 0 <= i && i + m.len() <= t.len() && #[trigger] t.subrange(i, i + m.len()) == m;
            if i + m.len() == t.len() {
                assert(t.subrange(i, i + m.len())[20] == t.last());
            }
            assert(d.subrange(i, i + m.len()) =~= t.subrange(i, i + m.len()));
        }
        if contains(d, m) {
            let i = choose|i: int| 0 <= i && i + m.len() <= d.len() && #[trigger] d.subrange(i, i + m.len()) == m;
            assert(d.subrange(i, i + m.len()) =~= t.subrange(i, i + m.len()));
        }
    }
}

/// The snapshot count adds up line by line: a listing's first line, up to
/// its first line feed, counts 1 when it mentions `com.apple.TimeMachine`
/// and 0 otherwise, whatever follows it, and the rest counts on its own.
pub proof fn lemma_snapshot_count_by_line(t: Seq<char>, s: Seq<char>)
    requires
        forall|k: int| 0 <= k < t.len() ==> t[k] != '\n',
    ensures
        snapshot_count_of(t + seq!['\n'] + s) == snapshot_count_of(t) + snapshot_count_of(s),
        snapshot_count_of(t) == if contains(t, "com.apple.TimeMachine"@) {
            1nat
        } else {
            0nat
        },
{
    let m = "com.apple.TimeMachine"@;
    reveal_strlit("com.apple.TimeMachine");
    let u = t + seq!['\n'] + s;
    let p = |c: char| c != '\n';
    let j = t.len() as int;
    assert forall|k: int| 0 <= k < j implies p(#[trigger] u[k]) by {
        assert(u[k] == t[k]);
    }
    assert(u[j] == '\n');
    lemma_run_len(u, p, j);
    assert(u.take(j) =~= t);
    assert(u.skip(j + 1) =~= s);
    assert(lines(u) == seq![strip_cr(u.take(j))] + lines(u.skip(j + 1)));
    lemma_lines_mentioning_concat(seq![strip_cr(t)], lines(s), m);
    assert(seq![strip_cr(t)].drop_last() =~= Seq::<Seq<char>>::empty());
    lemma_marker_strip_cr(t);
    if t.len() == 0 {
        assert(lines(t) =~= Seq::<Seq<char>>::empty());
        if contains(t, m) {
            let i = choose|i: int| 0 <= i && i + m.len() <= t.len() && #[trigger] t.subrange(i, i + m.len()) == m;
            assert(false);
        }
        assert(lines_mentioning(Seq::<Seq<char>>::empty(), m) == 0);
    } else {
        lemma_run_len(t, p, j);
        assert(lines(t) == seq![t]);
        assert(seq![t].drop_last() =~= Seq::<Seq<char>>::empty());
        assert(seq![t].last() == t);
        assert(lines_mentioning(Seq::<Seq<char>>::empty(), m) == 0);
        assert(lines_mentioning(seq![t], m) == lines_mentioning(seq![t].drop_last(), m) + if contains(
            t,
            m,
        ) {
            1nat
        } else {
            0nat
        });
    }
}

/// Counts the local snapshots that a `tmutil listlocalsnapshots /` listing names.
pub fn count_snapshots(listing: &str) -> (n: usize)
    ensures
        n == snapshot_count_of(listing@),
{
    let marker = chars_of("com.apple.TimeMachine");
    let text = chars_of(listing);
    let ls = split_lines(&text);
    let ghost all = lines(listing@);
    let mut n: usize = 0;
    let mut i: usize = 0;
    assert(all.take(0) =~= seq![]);
    while i < ls.len()
        invariant
            all == lines(listing@),
            marker@ == "com.apple.TimeMachine"@,
            ls.len() == all.len(),
            forall|k: int| 0 <= k < ls.len() ==> #[trigger] ls[k]@ == all[k],
            i <= ls.len(),
            n <= i,
            n == lines_mentioning(all.take(i as int), marker@),
        decreases ls.len() - i,
    {
        assert(all.take(i + 1).drop_last() =~= all.take(i as int));
        if contains_chars(&ls[i], &marker) {
            n += 1;
        }
        i += 1;
    }
    assert(all.take(ls.len() as int) =~= all);
    n
}

} // verus!
