//! Character-level building blocks: conversions between `str` and character
//! vectors, and mathematical models of the string operations the rest of the
//! crate relies on.

use vstd::prelude::*;
use vstd::string::*;

verus! {

/// Appends one character to a `String` (`String::push`): the string's
/// characters gain `c` at the end.
#[verifier::external_body]
pub(crate) fn push_char(s: &mut String, c: char)
    ensures
        final(s)@ == old(s)@.push(c),
{
    s.push(c);
}

/// The characters of `s`, in order.
pub fn chars_of(s: &str) -> (out: Vec<char>)
    ensures
        out@ == s@,
{
    let mut out: Vec<char> = Vec::new();
    for c in it: s.chars()
        invariant
            out@ == it.seq().take(it.index() as int),
    {
        out.push(c);
    }
    out
}

/// A `String` holding exactly the characters of `v`.
pub fn string_of(v: &Vec<char>) -> (out: String)
    ensures
        out@ == v@,
{
    let mut out = String::new();
    let mut i: usize = 0;
    while i < v.len()
        invariant
            i <= v.len(),
            out@ == v@.take(i as int),
        decreases v.len() - i,
    {
        push_char(&mut out, v[i]);
        i = i + 1;
        assert(out@ == v@.take(i as int));
    }
    out
}

/// Appends the characters of `v[from..]` to `out`.
pub(crate) fn push_all(out: &mut String, v: &Vec<char>, from: usize)
    requires
        from <= v.len(),
    ensures
        final(out)@ == old(out)@ + v@.skip(from as int),
{
    let mut i = from;
    while i < v.len()
        invariant
            from <= i <= v.len(),
            out@ == old(out)@ + v@.subrange(from as int, i as int),
        decreases v.len() - i,
    {
        push_char(out, v[i]);
        i = i + 1;
        assert(out@ == old(out)@ + v@.subrange(from as int, i as int));
    }
    assert(v@.subrange(from as int, v.len() as int) == v@.skip(from as int));
}

/// Each character of `s` replaced by the sequence `f` gives for it, in order.
pub open spec fn flat_map(s: Seq<char>, f: spec_fn(char) -> Seq<char>) -> Seq<char>
    decreases s.len(),
{
    if s.len() == 0 {
        Seq::empty()
    } else {
        f(s[0]) + flat_map(s.drop_first(), f)
    }
}

/// `flat_map` distributes over concatenation.
pub proof fn lemma_flat_map_concat(a: Seq<char>, b: Seq<char>, f: spec_fn(char) -> Seq<char>)
    ensures
        flat_map(a + b, f) == flat_map(a, f) + flat_map(b, f),
    decreases a.len(),
{
    if a.len() == 0 {
        assert(a + b == b);
    } else {
        assert((a + b).drop_first() == a.drop_first() + b);
        lemma_flat_map_concat(a.drop_first(), b, f);
    }
}

/// Extending the mapped prefix by one character.
pub proof fn lemma_flat_map_step(s: Seq<char>, i: int, f: spec_fn(char) -> Seq<char>)
    requires
        0 <= i < s.len(),
    ensures
        flat_map(s.take(i + 1), f) == flat_map(s.take(i), f) + f(s[i]),
{
    assert(s.take(i + 1) == s.take(i) + seq![s[i]]);
    lemma_flat_map_concat(s.take(i), seq![s[i]], f);
    assert(seq![s[i]].drop_first() == Seq::<char>::empty());
    assert(flat_map(seq![s[i]], f) == f(s[i]) + flat_map(Seq::<char>::empty(), f));
}


/// An owned copy of `s`.
pub fn owned(s: &str) -> (out: String)
    ensures
        out@ == s@,
{
    String::from_str(s)
}

/// The characters `v[from..to]`.
pub fn subvec(v: &Vec<char>, from: usize, to: usize) -> (out: Vec<char>)
    requires
        from <= to <= v@.len(),
    ensures
        out@ == v@.subrange(from as int, to as int),
{
    let mut out: Vec<char> = Vec::new();
    let mut i = from;
    while i < to
        invariant
            from <= i <= to <= v@.len(),
            out@ == v@.subrange(from as int, i as int),
        decreases to - i,
    {
        out.push(v[i]);
        i = i + 1;
        assert(out@ =~= v@.subrange(from as int, i as int));
    }
    out
}

/// A `String` holding the characters `v[from..to]`.
pub fn string_of_range(v: &Vec<char>, from: usize, to: usize) -> (out: String)
    requires
        from <= to <= v@.len(),
    ensures
        out@ == v@.subrange(from as int, to as int),
{
    let w = subvec(v, from, to);
    string_of(&w)
}

/// `p` occurs in `s` at index `i`.
pub open spec fn matches_at(s: Seq<char>, i: int, p: Seq<char>) -> bool {
    0 <= i && i + p.len() <= s.len() && s.subrange(i, i + p.len()) == p
}

/// `s` begins with `p`.
pub open spec fn starts_with(s: Seq<char>, p: Seq<char>) -> bool {
    matches_at(s, 0, p)
}

/// `s` ends with `p`.
pub open spec fn ends_with(s: Seq<char>, p: Seq<char>) -> bool {
    matches_at(s, s.len() - p.len(), p)
}

/// The first index at or after `i` where `p` occurs in `s`.
pub open spec fn find_from(s: Seq<char>, p: Seq<char>, i: int) -> Option<int>
    decreases s.len() + 1 - i,
{
    if i < 0 || i + p.len() > s.len() {
        None
    } else if matches_at(s, i, p) {
        Some(i)
    } else {
        find_from(s, p, i + 1)
    }
}

/// The first index where `p` occurs in `s` (`str::find`).
pub open spec fn find(s: Seq<char>, p: Seq<char>) -> Option<int> {
    find_from(s, p, 0)
}

/// `p` occurs somewhere in `s` (`str::contains`).
pub open spec fn contains(s: Seq<char>, p: Seq<char>) -> bool {
    find(s, p) is Some
}

/// Whether `p` occurs in `v` at index `i`.
pub fn occurs_at(v: &Vec<char>, i: usize, p: &Vec<char>) -> (b: bool)
    ensures
        b == matches_at(v@, i as int, p@),
{
    if i > v.len() || p.len() > v.len() - i {
        return false;
    }
    let n = v.len();
    let mut k: usize = 0;
    while k < p.len()
        invariant
            n == v@.len(),
            i + p@.len() <= v@.len(),
            k <= p@.len(),
            forall|j: int| 0 <= j < k ==> v@[i + j] == p@[j],
        decreases p.len() - k,
    {
        if v[i + k] != p[k] {
            assert(v@.subrange(i as int, i + p@.len())[k as int] != p@[k as int]);
            return false;
        }
        k = k + 1;
    }
    assert(v@.subrange(i as int, i + p@.len()) =~= p@);
    true
}

/// What `find_from` gives is an occurrence, at or after `i`.
pub proof fn lemma_find_from_bounds(s: Seq<char>, p: Seq<char>, i: int)
    ensures
        find_from(s, p, i) matches Some(k) ==> i <= k && k + p.len() <= s.len() && matches_at(s, k, p),
    decreases s.len() + 1 - i,
{
    if !(i < 0 || i + p.len() > s.len()) && !matches_at(s, i, p) {
        lemma_find_from_bounds(s, p, i + 1);
    }
}

/// Where `p` first occurs in `v` at or after `from`.
pub fn find_in(v: &Vec<char>, p: &Vec<char>, from: usize) -> (r: Option<usize>)
    ensures
        r matches Some(i) ==> find_from(v@, p@, from as int) == Some(i as int),
        r is None ==> find_from(v@, p@, from as int) is None,
{
    let mut i = from;
    while i <= v.len() && p.len() <= v.len() - i
        invariant
            from <= i,
            find_from(v@, p@, from as int) == find_from(v@, p@, i as int),
        decreases v.len() + 1 - i,
    {
        if occurs_at(v, i, p) {
            return Some(i);
        }
        if i == v.len() {
            // Only an empty `p` fits at the end, and it occurs everywhere:
            // this is never reached.
            assert(v@.subrange(i as int, i as int) =~= p@);
            return None;
        }
        i = i + 1;
    }
    None
}

/// Where the first line feed of `s` is (`s.len()` when there is none).
pub open spec fn newline_index(s: Seq<char>) -> nat
    decreases s.len(),
{
    if s.len() == 0 {
        0
    } else if s[0] == '\n' {
        0
    } else {
        1 + newline_index(s.drop_first())
    }
}

/// `l` without one trailing carriage return.
pub open spec fn strip_cr(l: Seq<char>) -> Seq<char> {
    if l.len() > 0 && l.last() == '\r' {
        l.drop_last()
    } else {
        l
    }
}

/// The lines of `s` (`str::lines`): split at each line feed, a carriage
/// return just before a line feed dropped, and no empty line after a final
/// line feed.
pub open spec fn lines(s: Seq<char>) -> Seq<Seq<char>>
    decreases s.len(),
{
    if s.len() == 0 {
        Seq::empty()
    } else {
        let e = newline_index(s);
        if e >= s.len() {
            seq![s]
        } else {
            seq![strip_cr(s.take(e as int))] + lines(s.skip(e + 1 as int))
        }
    }
}

/// Where the line that starts at `from` ends: the index of the next line
/// feed, or the length.
pub fn line_end(v: &Vec<char>, from: usize) -> (e: usize)
    requires
        from <= v@.len(),
    ensures
        from <= e <= v@.len(),
        e - from == newline_index(v@.skip(from as int)) || (e == v@.len() && newline_index(
            v@.skip(from as int),
        ) >= v@.len() - from),
        e < v@.len() ==> e - from == newline_index(v@.skip(from as int)),
        e == v@.len() ==> newline_index(v@.skip(from as int)) >= v@.len() - from,
{
    let mut e = from;
    while e < v.len() && v[e] != '\n'
        invariant
            from <= e <= v@.len(),
            newline_index(v@.skip(from as int)) == (e - from) + newline_index(v@.skip(e as int)),
        decreases v.len() - e,
    {
        assert(v@.skip(e as int).drop_first() == v@.skip(e + 1));
        e = e + 1;
    }
    e
}

/// The line that starts at `from` and ends at `e` (see [`line_end`]), as
/// `str::lines` gives it.
pub fn line_at(v: &Vec<char>, from: usize, e: usize) -> (l: Vec<char>)
    requires
        from <= e <= v@.len(),
    ensures
        l@ == if e < v@.len() {
            strip_cr(v@.subrange(from as int, e as int))
        } else {
            v@.subrange(from as int, e as int)
        },
{
    if e < v.len() && e > from && v[e - 1] == '\r' {
        subvec(v, from, e - 1)
    } else {
        subvec(v, from, e)
    }
}

/// Stepping over one line: the lines from `from` are that line followed by
/// the lines after its line feed.
pub proof fn lemma_lines_step(s: Seq<char>, from: int, e: int)
    requires
        0 <= from < s.len(),
        from <= e <= s.len(),
        e < s.len() ==> e - from == newline_index(s.skip(from)),
        e == s.len() ==> newline_index(s.skip(from)) >= s.len() - from,
    ensures
        e < s.len() ==> lines(s.skip(from)) == seq![strip_cr(s.subrange(from, e))] + lines(
            s.skip(e + 1),
        ),
        e == s.len() ==> lines(s.skip(from)) == seq![s.subrange(from, e)],
{
    let t = s.skip(from);
    assert(t.len() > 0);
    if e < s.len() {
        assert(t.take(e - from) == s.subrange(from, e));
        assert(t.skip(e - from + 1) == s.skip(e + 1));
    } else {
        assert(t == s.subrange(from, e));
    }
}

/// Each non-overlapping occurrence of `p` in `s`, from left to right,
/// replaced by `r` (`str::replace`, for a non-empty `p`).
pub open spec fn replace(s: Seq<char>, p: Seq<char>, r: Seq<char>) -> Seq<char>
    decreases s.len(),
{
    if p.len() == 0 || s.len() < p.len() {
        s
    } else if s.take(p.len() as int) == p {
        r + replace(s.skip(p.len() as int), p, r)
    } else {
        seq![s[0]] + replace(s.drop_first(), p, r)
    }
}

/// `v` with each occurrence of `p` replaced by `r`, left to right.
pub fn replace_all(v: &Vec<char>, p: &Vec<char>, r: &Vec<char>) -> (out: Vec<char>)
    requires
        p@.len() > 0,
    ensures
        out@ == replace(v@, p@, r@),
{
    let mut out: Vec<char> = Vec::new();
    let mut i: usize = 0;
    let n = v.len();
    assert(v@.skip(0) == v@);
    while i < n
        invariant
            n == v@.len(),
            i <= n,
            p@.len() > 0,
            replace(v@, p@, r@) == out@ + replace(v@.skip(i as int), p@, r@),
        decreases n - i,
    {
        let ghost t = v@.skip(i as int);
        if p.len() <= n - i && occurs_at(v, i, p) {
            assert(t.take(p@.len() as int) == v@.subrange(i as int, i + p@.len()));
            assert(t.skip(p@.len() as int) == v@.skip(i + p@.len()));
            let mut k: usize = 0;
            let ghost before = out@;
            while k < r.len()
                invariant
                    k <= r@.len(),
                    out@ == before + r@.take(k as int),
                decreases r.len() - k,
            {
                out.push(r[k]);
                k = k + 1;
                assert(out@ =~= before + r@.take(k as int));
            }
            assert(r@.take(r@.len() as int) == r@);
            i = i + p.len();
        } else {
            if p.len() <= n - i {
                assert(t.take(p@.len() as int) != p@) by {
                    assert(t.take(p@.len() as int) == v@.subrange(i as int, i + p@.len()));
                }
                assert(t.drop_first() == v@.skip(i + 1));
            } else {
                assert(t.len() < p@.len());
                let ghost before = out@;
                let mut k = i;
                while k < n
                    invariant
                        i <= k <= n,
                        n == v@.len(),
                        out@ == before + v@.subrange(i as int, k as int),
                    decreases n - k,
                {
                    out.push(v[k]);
                    k = k + 1;
                    assert(out@ =~= before + v@.subrange(i as int, k as int));
                }
                assert(v@.subrange(i as int, n as int) == t);
                assert(v@.skip(n as int) =~= Seq::<char>::empty());
                return out;
            }
            out.push(v[i]);
            i = i + 1;
        }
    }
    assert(v@.skip(n as int) =~= Seq::<char>::empty());
    out
}

/// Whether `v` holds exactly the characters of `lit`.
pub fn eq_lit(v: &Vec<char>, lit: &str) -> (b: bool)
    ensures
        b == (v@ == lit@),
{
    let w = chars_of(lit);
    if v.len() != w.len() {
        return false;
    }
    let mut i: usize = 0;
    while i < v.len()
        invariant
            i <= v@.len(),
            v@.len() == w@.len(),
            w@ == lit@,
            forall|j: int| 0 <= j < i ==> v@[j] == w@[j],
        decreases v.len() - i,
    {
        if v[i] != w[i] {
            assert(v@[i as int] != w@[i as int]);
            return false;
        }
        i = i + 1;
    }
    assert(v@ =~= w@);
    true
}

/// Whether `a` and `b` hold the same characters.
pub fn same_chars(a: &str, b: &str) -> (r: bool)
    ensures
        r == (a@ == b@),
{
    eq_lit(&chars_of(a), b)
}

/// White space as Unicode's `White_Space` property defines it (what
/// `char::is_whitespace`, `str::trim` and `str::split_whitespace` go by).
pub open spec fn is_ws(c: char) -> bool {
    ('\u{9}' <= c && c <= '\u{d}') || c == ' ' || c == '\u{85}' || c == '\u{a0}' || c == '\u{1680}'
        || ('\u{2000}' <= c && c <= '\u{200a}') || c == '\u{2028}' || c == '\u{2029}' || c
        == '\u{202f}' || c == '\u{205f}' || c == '\u{3000}'
}

/// Whether `c` is white space.
pub fn ws(c: char) -> (b: bool)
    ensures
        b == is_ws(c),
{
    ('\u{9}' <= c && c <= '\u{d}') || c == ' ' || c == '\u{85}' || c == '\u{a0}' || c == '\u{1680}'
        || ('\u{2000}' <= c && c <= '\u{200a}') || c == '\u{2028}' || c == '\u{2029}' || c
        == '\u{202f}' || c == '\u{205f}' || c == '\u{3000}'
}

/// `s` without its leading white space (`str::trim_start`).
pub open spec fn trim_start(s: Seq<char>) -> Seq<char>
    decreases s.len(),
{
    if s.len() > 0 && is_ws(s[0]) {
        trim_start(s.drop_first())
    } else {
        s
    }
}

/// `s` without its trailing white space (`str::trim_end`).
pub open spec fn trim_end(s: Seq<char>) -> Seq<char>
    decreases s.len(),
{
    if s.len() > 0 && is_ws(s.last()) {
        trim_end(s.drop_last())
    } else {
        s
    }
}

/// `s` without leading and trailing white space (`str::trim`).
pub open spec fn trim(s: Seq<char>) -> Seq<char> {
    trim_end(trim_start(s))
}

/// Where the text of `v[from..to]` begins once leading white space is skipped.
pub fn skip_ws(v: &Vec<char>, from: usize, to: usize) -> (i: usize)
    requires
        from <= to <= v@.len(),
    ensures
        from <= i <= to,
        trim_start(v@.subrange(from as int, to as int)) == v@.subrange(i as int, to as int),
{
    let mut i = from;
    while i < to && ws(v[i])
        invariant
            from <= i <= to <= v@.len(),
            trim_start(v@.subrange(from as int, to as int)) == trim_start(
                v@.subrange(i as int, to as int),
            ),
        decreases to - i,
    {
        assert(v@.subrange(i as int, to as int).drop_first() =~= v@.subrange(i + 1, to as int));
        i = i + 1;
    }
    i
}

/// Where the text of `v[from..to]` ends once trailing white space is dropped.
pub fn skip_ws_back(v: &Vec<char>, from: usize, to: usize) -> (j: usize)
    requires
        from <= to <= v@.len(),
    ensures
        from <= j <= to,
        trim_end(v@.subrange(from as int, to as int)) == v@.subrange(from as int, j as int),
{
    let mut j = to;
    while j > from && ws(v[j - 1])
        invariant
            from <= j <= to <= v@.len(),
            trim_end(v@.subrange(from as int, to as int)) == trim_end(
                v@.subrange(from as int, j as int),
            ),
        decreases j - from,
    {
        assert(v@.subrange(from as int, j as int).drop_last() =~= v@.subrange(from as int, j - 1));
        j = j - 1;
    }
    j
}

/// The bounds of `v[from..to]` trimmed of white space on both sides.
pub fn trim_bounds(v: &Vec<char>, from: usize, to: usize) -> (r: (usize, usize))
    requires
        from <= to <= v@.len(),
    ensures
        from <= r.0 <= r.1 <= to,
        trim(v@.subrange(from as int, to as int)) == v@.subrange(r.0 as int, r.1 as int),
{
    let i = skip_ws(v, from, to);
    let j = skip_ws_back(v, i, to);
    (i, j)
}

/// The last index where `c` occurs in `s` (`str::rfind` for a character).
pub open spec fn rfind_char(s: Seq<char>, c: char) -> Option<int>
    decreases s.len(),
{
    if s.len() == 0 {
        None
    } else if s.last() == c {
        Some(s.len() - 1)
    } else {
        rfind_char(s.drop_last(), c)
    }
}

/// Where `c` last occurs in `v[..to]`.
pub fn rfind_in(v: &Vec<char>, c: char, to: usize) -> (r: Option<usize>)
    requires
        to <= v@.len(),
    ensures
        r matches Some(i) ==> rfind_char(v@.take(to as int), c) == Some(i as int) && i < to
            && v@[i as int] == c,
        r is None ==> rfind_char(v@.take(to as int), c) is None,
{
    let mut j = to;
    while j > 0
        invariant
            j <= to <= v@.len(),
            rfind_char(v@.take(to as int), c) == rfind_char(v@.take(j as int), c),
        decreases j,
    {
        if v[j - 1] == c {
            return Some(j - 1);
        }
        assert(v@.take(j as int).drop_last() =~= v@.take(j - 1));
        j = j - 1;
    }
    None
}

/// The white-space separated words of `s` (`str::split_whitespace`).
pub open spec fn words(s: Seq<char>) -> Seq<Seq<char>>
    decreases s.len(),
{
    let t = trim_start(s);
    if t.len() == 0 {
        Seq::empty()
    } else {
        let k = word_len(t);
        proof {
            lemma_trim_start_len(s);
            lemma_word_len(t);
        }
        seq![t.take(k as int)] + words(t.skip(k as int))
    }
}

/// The length of the run of non-white-space characters at the front of `s`.
pub open spec fn word_len(s: Seq<char>) -> nat
    decreases s.len(),
{
    if s.len() == 0 || is_ws(s[0]) {
        0
    } else {
        1 + word_len(s.drop_first())
    }
}

pub proof fn lemma_trim_start_len(s: Seq<char>)
    ensures
        trim_start(s).len() <= s.len(),
        trim_start(s).len() > 0 ==> !is_ws(trim_start(s)[0]),
        s.len() >= trim_start(s).len() && trim_start(s) == s.skip(s.len() - trim_start(s).len()),
    decreases s.len(),
{
    if s.len() > 0 && is_ws(s[0]) {
        lemma_trim_start_len(s.drop_first());
        assert(s.drop_first().skip(s.drop_first().len() - trim_start(s).len()) =~= s.skip(
            s.len() - trim_start(s).len(),
        ));
    } else {
        assert(s.skip(0) =~= s);
    }
}

pub proof fn lemma_word_len(s: Seq<char>)
    ensures
        word_len(s) <= s.len(),
        s.len() > 0 && !is_ws(s[0]) ==> word_len(s) > 0,
    decreases s.len(),
{
    if s.len() > 0 && !is_ws(s[0]) {
        lemma_word_len(s.drop_first());
    }
}

/// Where the word that starts at `from` ends (`from` must not be white space).
pub fn word_end(v: &Vec<char>, from: usize) -> (e: usize)
    requires
        from <= v@.len(),
    ensures
        from <= e <= v@.len(),
        e - from == word_len(v@.skip(from as int)),
{
    let mut e = from;
    while e < v.len() && !ws(v[e])
        invariant
            from <= e <= v@.len(),
            word_len(v@.skip(from as int)) == (e - from) + word_len(v@.skip(e as int)),
        decreases v.len() - e,
    {
        assert(v@.skip(e as int).drop_first() =~= v@.skip(e + 1));
        e = e + 1;
    }
    proof {
        if e < v@.len() {
            assert(v@.skip(e as int)[0] == v@[e as int]);
        } else {
            assert(v@.skip(e as int).len() == 0);
        }
    }
    e
}

/// The first `want` words of `v[from..]`, fewer when there are not so many.
pub fn first_words(v: &Vec<char>, from: usize, want: usize) -> (out: Vec<Vec<char>>)
    requires
        from <= v@.len(),
    ensures
        out@.len() <= want,
        out@.len() <= words(v@.skip(from as int)).len(),
        forall|k: int| 0 <= k < out@.len() ==> #[trigger] out@[k]@ == words(v@.skip(from as int))[k],
        out@.len() < want ==> out@.len() == words(v@.skip(from as int)).len(),
{
    let mut out: Vec<Vec<char>> = Vec::new();
    let mut i = from;
    let ghost all = words(v@.skip(from as int));
    while out.len() < want
        invariant
            from <= i <= v@.len(),
            out@.len() <= want,
            all == words(v@.skip(from as int)),
            out@.len() + words(v@.skip(i as int)).len() == all.len(),
            forall|k: int| 0 <= k < out@.len() ==> #[trigger] out@[k]@ == all[k],
            forall|k: int|
                0 <= k < words(v@.skip(i as int)).len() ==> #[trigger] words(v@.skip(i as int))[k]
                    == all[out@.len() + k],
        decreases v@.len() - i,
    {
        let start = skip_ws(v, i, v.len());
        proof {
            assert(v@.subrange(i as int, v@.len() as int) == v@.skip(i as int));
            assert(v@.subrange(start as int, v@.len() as int) == v@.skip(start as int));
        }
        if start == v.len() {
            assert(trim_start(v@.skip(i as int)).len() == 0);
            assert(words(v@.skip(i as int)).len() == 0);
            return out;
        }
        let e = word_end(v, start);
        proof {
            let t = v@.skip(start as int);
            lemma_trim_start_len(v@.skip(i as int));
            lemma_word_len(t);
            assert(t[0] == v@[start as int]);
            assert(t.take(word_len(t) as int) =~= v@.subrange(start as int, e as int));
            assert(t.skip(word_len(t) as int) =~= v@.skip(e as int));
            assert(words(v@.skip(i as int)) == seq![v@.subrange(start as int, e as int)] + words(
                v@.skip(e as int),
            ));
        }
        let w = subvec(v, start, e);
        let ghost old_out = out@;
        out.push(w);
        proof {
            let ws_i = words(v@.skip(i as int));
            assert forall|k: int| 0 <= k < out@.len() implies #[trigger] out@[k]@ == all[k] by {
                if k == old_out.len() {
                    assert(ws_i[0] == all[old_out.len() as int]);
                }
            }
            assert forall|k: int| 0 <= k < words(v@.skip(e as int)).len() implies #[trigger] words(
                v@.skip(e as int),
            )[k] == all[out@.len() + k] by {
                assert(words(v@.skip(e as int))[k] == ws_i[k + 1]);
            }
        }
        i = e;
    }
    out
}

/// Where the first `c` of `s` is (`s.len()` when there is none).
pub open spec fn index_of_char(s: Seq<char>, c: char) -> nat
    decreases s.len(),
{
    if s.len() == 0 {
        0
    } else if s[0] == c {
        0
    } else {
        1 + index_of_char(s.drop_first(), c)
    }
}

/// The pieces of `s` between occurrences of `c` (`str::split` by a
/// character): always at least one piece.
pub open spec fn split_char(s: Seq<char>, c: char) -> Seq<Seq<char>>
    decreases s.len(),
{
    let k = index_of_char(s, c);
    if k >= s.len() {
        seq![s]
    } else {
        seq![s.take(k as int)] + split_char(s.skip(k + 1 as int), c)
    }
}

/// Where the first `c` at or after `from` is, or the length.
pub fn char_end(v: &Vec<char>, from: usize, c: char) -> (e: usize)
    requires
        from <= v@.len(),
    ensures
        from <= e <= v@.len(),
        e - from == index_of_char(v@.skip(from as int), c) || (e == v@.len()
            && index_of_char(v@.skip(from as int), c) >= v@.len() - from),
        e < v@.len() ==> e - from == index_of_char(v@.skip(from as int), c),
        e == v@.len() ==> index_of_char(v@.skip(from as int), c) >= v@.len() - from,
{
    let mut e = from;
    while e < v.len() && v[e] != c
        invariant
            from <= e <= v@.len(),
            index_of_char(v@.skip(from as int), c) == (e - from) + index_of_char(
                v@.skip(e as int),
                c,
            ),
        decreases v.len() - e,
    {
        assert(v@.skip(e as int).drop_first() == v@.skip(e + 1));
        e = e + 1;
    }
    e
}

/// Stepping over one piece of a split.
pub proof fn lemma_split_step(s: Seq<char>, c: char, from: int, e: int)
    requires
        0 <= from <= e <= s.len(),
        e < s.len() ==> e - from == index_of_char(s.skip(from), c),
        e == s.len() ==> index_of_char(s.skip(from), c) >= s.len() - from,
    ensures
        e < s.len() ==> split_char(s.skip(from), c) == seq![s.subrange(from, e)] + split_char(
            s.skip(e + 1),
            c,
        ),
        e == s.len() ==> split_char(s.skip(from), c) == seq![s.subrange(from, e)],
{
    let t = s.skip(from);
    if e < s.len() {
        assert(t.take(e - from) == s.subrange(from, e));
        assert(t.skip(e - from + 1) == s.skip(e + 1));
    } else {
        assert(t == s.subrange(from, e));
    }
}

/// `s` without its leading `c`s (`str::trim_start_matches` by a character).
pub open spec fn trim_start_char(s: Seq<char>, c: char) -> Seq<char>
    decreases s.len(),
{
    if s.len() > 0 && s[0] == c {
        trim_start_char(s.drop_first(), c)
    } else {
        s
    }
}

/// Where `v[from..]` begins once its leading `c`s are skipped.
pub fn skip_char(v: &Vec<char>, from: usize, c: char) -> (i: usize)
    requires
        from <= v@.len(),
    ensures
        from <= i <= v@.len(),
        trim_start_char(v@.skip(from as int), c) == v@.skip(i as int),
{
    let mut i = from;
    while i < v.len() && v[i] == c
        invariant
            from <= i <= v@.len(),
            trim_start_char(v@.skip(from as int), c) == trim_start_char(v@.skip(i as int), c),
        decreases v.len() - i,
    {
        assert(v@.skip(i as int).drop_first() =~= v@.skip(i + 1));
        i = i + 1;
    }
    i
}

/// The characters of each string in a sequence.
pub open spec fn strings_view(v: Seq<String>) -> Seq<Seq<char>> {
    v.map_values(|a: String| a@)
}

/// A copy of a vector of strings.
pub fn clone_strings(v: &[String]) -> (out: Vec<String>)
    ensures
        strings_view(out@) == strings_view(v@),
        out@.len() == v@.len(),
{
    let mut out: Vec<String> = Vec::new();
    let mut i: usize = 0;
    while i < v.len()
        invariant
            i <= v.len(),
            out@.len() == i,
            forall|j: int| 0 <= j < i ==> #[trigger] out@[j]@ == v@[j]@,
        decreases v.len() - i,
    {
        out.push(v[i].clone());
        i = i + 1;
    }
    assert(strings_view(out@) =~= strings_view(v@));
    out
}

/// Appends copies of `v[from..]` to `out`.
pub fn extend_strings(out: &mut Vec<String>, v: &[String], from: usize)
    requires
        from <= v@.len(),
    ensures
        strings_view(final(out)@) == strings_view(old(out)@) + strings_view(v@).skip(from as int),
{
    let mut i = from;
    while i < v.len()
        invariant
            from <= i <= v.len(),
            out@.len() == old(out)@.len() + (i - from),
            forall|j: int| 0 <= j < old(out)@.len() ==> #[trigger] out@[j]@ == old(out)@[j]@,
            forall|j: int|
                old(out)@.len() <= j < out@.len() ==> #[trigger] out@[j]@ == v@[j - old(
                    out,
                )@.len() + from]@,
        decreases v.len() - i,
    {
        out.push(v[i].clone());
        i = i + 1;
    }
    assert(strings_view(out@) =~= strings_view(old(out)@) + strings_view(v@).skip(from as int));
}

} // verus!
