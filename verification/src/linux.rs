//! Linux password dialog: zenity → kdialog → pinentry, whichever is present.
//! zenity/kdialog are preferred; pinentry is a last resort (it can be flaky
//! under some compositors, silently returning no dialog). This module holds
//! what the dialogs are given and how their answers are read; running them
//! is the driver's part.

use vstd::prelude::*;
use vstd::string::*;
use crate::text::{
    chars_of, flat_map, lemma_flat_map_step, line_at, line_end, lemma_lines_step, lines, newline_index, owned,
    push_char, replace, replace_all, starts_with, string_of, strings_view, strip_cr,
};

verus! {

/// `s` without one trailing line feed, and then without one carriage return
/// before it.
pub open spec fn without_newline(s: Seq<char>) -> Seq<char> {
    if s.len() > 0 && s.last() == '\n' {
        strip_cr(s.drop_last())
    } else {
        s
    }
}

/// Drops the line ending a dialog prints after the password.
pub fn trim_newline(s: String) -> (out: String)
    ensures
        out@ == without_newline(s@),
{
    let v = chars_of(s.as_str());
    let n = v.len();
    if n > 0 && v[n - 1] == '\n' {
        if n > 1 && v[n - 2] == '\r' {
            let w = crate::text::subvec(&v, 0, n - 2);
            assert(v@.drop_last().drop_last() == w@);
            string_of(&w)
        } else {
            let w = crate::text::subvec(&v, 0, n - 1);
            assert(v@.drop_last() == w@);
            string_of(&w)
        }
    } else {
        s
    }
}

/// What one character becomes under the percent-escaping Assuan applies to
/// `%`, CR and LF.
pub open spec fn esc_piece(c: char) -> Seq<char> {
    if c == '%' {
        seq!['%', '2', '5']
    } else if c == '\r' {
        seq!['%', '0', 'D']
    } else if c == '\n' {
        seq!['%', '0', 'A']
    } else {
        seq![c]
    }
}

/// The Assuan escape of `s`.
pub open spec fn escaped(s: Seq<char>) -> Seq<char> {
    flat_map(s, |c: char| esc_piece(c))
}

/// Percent-escapes `%`, CR and LF for an Assuan command line.
pub fn assuan_esc(s: &str) -> (out: String)
    ensures
        out@ == escaped(s@),
{
    let v = chars_of(s);
    let ghost f = |c: char| esc_piece(c);
    let mut out = String::new();
    let mut i: usize = 0;
    while i < v.len()
        invariant
            i <= v@.len(),
            f == (|c: char| esc_piece(c)),
            out@ == flat_map(v@.take(i as int), f),
        decreases v.len() - i,
    {
        proof {
            lemma_flat_map_step(v@, i as int, f);
        }
        let c = v[i];
        if c == '%' {
            push_char(&mut out, '%');
            push_char(&mut out, '2');
            push_char(&mut out, '5');
        } else if c == '\r' {
            push_char(&mut out, '%');
            push_char(&mut out, '0');
            push_char(&mut out, 'D');
        } else if c == '\n' {
            push_char(&mut out, '%');
            push_char(&mut out, '0');
            push_char(&mut out, 'A');
        } else {
            push_char(&mut out, c);
        }
        i = i + 1;
    }
    assert(v@.take(v@.len() as int) == v@);
    out
}

/// The decoding pinentry's answers get: `%0A`/`%0a` to LF, `%0D`/`%0d` to CR,
/// then `%25` to `%`, each replacement over the whole text in turn.
pub open spec fn decoded(s: Seq<char>) -> Seq<char> {
    replace(
        replace(
            replace(
                replace(replace(s, seq!['%', '0', 'A'], seq!['\n']), seq!['%', '0', 'a'], seq!['\n']),
                seq!['%', '0', 'D'],
                seq!['\r'],
            ),
            seq!['%', '0', 'd'],
            seq!['\r'],
        ),
        seq!['%', '2', '5'],
        seq!['%'],
    )
}

fn pattern3(a: char, b: char, c: char) -> (v: Vec<char>)
    ensures
        v@ == seq![a, b, c],
{
    let mut v: Vec<char> = Vec::new();
    v.push(a);
    v.push(b);
    v.push(c);
    assert(v@ =~= seq![a, b, c]);
    v
}

fn single(a: char) -> (v: Vec<char>)
    ensures
        v@ == seq![a],
{
    let mut v: Vec<char> = Vec::new();
    v.push(a);
    assert(v@ =~= seq![a]);
    v
}

/// Undoes the percent-escaping pinentry applies to `%`, CR and LF.
pub fn assuan_decode(s: &str) -> (out: String)
    ensures
        out@ == decoded(s@),
{
    let v = chars_of(s);
    let lf = single('\n');
    let cr = single('\r');
    let a = replace_all(&v, &pattern3('%', '0', 'A'), &lf);
    let b = replace_all(&a, &pattern3('%', '0', 'a'), &lf);
    let c = replace_all(&b, &pattern3('%', '0', 'D'), &cr);
    let d = replace_all(&c, &pattern3('%', '0', 'd'), &cr);
    let e = replace_all(&d, &pattern3('%', '2', '5'), &single('%'));
    string_of(&e)
}

proof fn lemma_replace_cons(c: char, y: Seq<char>, p: Seq<char>, r: Seq<char>)
    requires
        p.len() > 0,
        c != p[0],
    ensures
        replace(seq![c] + y, p, r) == seq![c] + replace(y, p, r),
{
    let t = seq![c] + y;
    assert(t[0] == c);
    assert(t.drop_first() =~= y);
    if t.len() >= p.len() {
        assert(t.take(p.len() as int)[0] == c);
    } else {
        assert(y.len() < p.len());
        assert(replace(y, p, r) == y);
    }
}

proof fn lemma_replace_hit(y: Seq<char>, p: Seq<char>, r: Seq<char>)
    requires
        p.len() > 0,
    ensures
        replace(p + y, p, r) == r + replace(y, p, r),
{
    let t = p + y;
    assert(t.take(p.len() as int) =~= p);
    assert(t.skip(p.len() as int) =~= y);
}

/// A three-character token `t` that is not `p`, with `%` only at its front,
/// passes through a replacement of a `%`-led three-character `p` unchanged.
proof fn lemma_replace_miss3(t: Seq<char>, y: Seq<char>, p: Seq<char>, r: Seq<char>)
    requires
        p.len() == 3,
        t.len() == 3,
        p[0] == '%',
        t != p,
        t[1] != '%',
        t[2] != '%',
    ensures
        replace(t + y, p, r) == t + replace(y, p, r),
{
    let w = t + y;
    assert(w.take(3) =~= t);
    assert(w[0] == t[0]);
    let w1 = w.drop_first();
    assert(w1 =~= seq![t[1]] + (seq![t[2]] + y));
    lemma_replace_cons(t[2], y, p, r);
    lemma_replace_cons(t[1], seq![t[2]] + y, p, r);
    assert(replace(w, p, r) == seq![t[0]] + replace(w1, p, r));
    assert(t =~= seq![t[0]] + seq![t[1]] + seq![t[2]]);
    assert(replace(w, p, r) =~= t + replace(y, p, r));
}

/// One replacement over a text made of tokens, one token per character:
/// when each `f` token becomes the matching `g` token whatever follows it,
/// the whole text becomes the `g` text.
proof fn lemma_replace_stage(
    v: Seq<char>,
    f: spec_fn(char) -> Seq<char>,
    g: spec_fn(char) -> Seq<char>,
    p: Seq<char>,
    r: Seq<char>,
)
    requires
        p.len() > 0,
        forall|c: char, y: Seq<char>| #[trigger] replace(f(c) + y, p, r) == g(c) + replace(y, p, r),
    ensures
        replace(flat_map(v, f), p, r) == flat_map(v, g),
    decreases v.len(),
{
    if v.len() == 0 {
        assert(flat_map(v, f) == Seq::<char>::empty());
        assert(flat_map(v, g) == Seq::<char>::empty());
    } else {
        lemma_replace_stage(v.drop_first(), f, g, p, r);
        assert(replace(f(v[0]) + flat_map(v.drop_first(), f), p, r) == g(v[0]) + replace(
            flat_map(v.drop_first(), f),
            p,
            r,
        ));
    }
}

proof fn lemma_flat_map_id(v: Seq<char>)
    ensures
        flat_map(v, |c: char| seq![c]) == v,
    decreases v.len(),
{
    if v.len() > 0 {
        lemma_flat_map_id(v.drop_first());
        assert(seq![v[0]] + v.drop_first() =~= v);
    }
}

spec fn after_lf(c: char) -> Seq<char> {
    if c == '%' {
        seq!['%', '2', '5']
    } else if c == '\r' {
        seq!['%', '0', 'D']
    } else {
        seq![c]
    }
}

spec fn after_cr(c: char) -> Seq<char> {
    if c == '%' {
        seq!['%', '2', '5']
    } else {
        seq![c]
    }
}

/// Replacing a `%`-led pattern `p` over tokens that are single non-`%`
/// characters or `%` followed by two non-`%` characters.
proof fn lemma_token(tok: Seq<char>, y: Seq<char>, p: Seq<char>, r: Seq<char>)
    requires
        p.len() == 3,
        p[0] == '%',
        p[1] != '%',
        p[2] != '%',
        (tok.len() == 1 && tok[0] != '%') || (tok.len() == 3 && tok[0] == '%' && tok[1] != '%'
            && tok[2] != '%'),
    ensures
        replace(tok + y, p, r) == (if tok == p {
            r
        } else {
            tok
        }) + replace(y, p, r),
{
    if tok.len() == 1 {
        assert(tok =~= seq![tok[0]]);
        lemma_replace_cons(tok[0], y, p, r);
    } else if tok == p {
        lemma_replace_hit(y, p, r);
    } else {
        lemma_replace_miss3(tok, y, p, r);
    }
}

/// Decoding undoes escaping: whatever the text, `assuan_decode` gives back
/// what `assuan_esc` was given.
pub proof fn decode_undoes_esc(v: Seq<char>)
    ensures
        decoded(escaped(v)) == v,
{
    let e0 = |c: char| esc_piece(c);
    let e1 = |c: char| after_lf(c);
    let e2 = |c: char| after_cr(c);
    let id = |c: char| seq![c];
    let lfa = seq!['%', '0', 'A'];
    let lfb = seq!['%', '0', 'a'];
    let cra = seq!['%', '0', 'D'];
    let crb = seq!['%', '0', 'd'];
    let pct = seq!['%', '2', '5'];
    let lf = seq!['\n'];
    let cr = seq!['\r'];
    assert forall|c: char, y: Seq<char>| #[trigger] replace(e0(c) + y, lfa, lf) == e1(c) + replace(
        y,
        lfa,
        lf,
    ) by {
        lemma_token(e0(c), y, lfa, lf);
        if c == '\n' {
            assert(e0(c) == lfa);
        } else if c == '%' || c == '\r' {
            assert(e0(c) != lfa);
        }
    }
    lemma_replace_stage(v, e0, e1, lfa, lf);
    assert forall|c: char, y: Seq<char>| #[trigger] replace(e1(c) + y, lfb, lf) == e1(c) + replace(
        y,
        lfb,
        lf,
    ) by {
        lemma_token(e1(c), y, lfb, lf);
        if c == '%' || c == '\r' {
            assert(e1(c)[2] != lfb[2]);
        }
    }
    lemma_replace_stage(v, e1, e1, lfb, lf);
    assert forall|c: char, y: Seq<char>| #[trigger] replace(e1(c) + y, cra, cr) == e2(c) + replace(
        y,
        cra,
        cr,
    ) by {
        lemma_token(e1(c), y, cra, cr);
        if c == '\r' {
            assert(e1(c) == cra);
        } else if c == '%' {
            assert(e1(c)[1] != cra[1]);
        }
    }
    lemma_replace_stage(v, e1, e2, cra, cr);
    assert forall|c: char, y: Seq<char>| #[trigger] replace(e2(c) + y, crb, cr) == e2(c) + replace(
        y,
        crb,
        cr,
    ) by {
        lemma_token(e2(c), y, crb, cr);
        if c == '%' {
            assert(e2(c)[1] != crb[1]);
        }
    }
    lemma_replace_stage(v, e2, e2, crb, cr);
    assert forall|c: char, y: Seq<char>| #[trigger] replace(e2(c) + y, pct, seq!['%']) == id(c)
        + replace(y, pct, seq!['%']) by {
        lemma_token(e2(c), y, pct, seq!['%']);
        if c == '%' {
            assert(e2(c) == pct);
        }
    }
    lemma_replace_stage(v, e2, id, pct, seq!['%']);
    lemma_flat_map_id(v);
}

/// The payloads of the `D ` lines, concatenated.
pub open spec fn data_of(ls: Seq<Seq<char>>) -> Seq<char>
    decreases ls.len(),
{
    if ls.len() == 0 {
        Seq::empty()
    } else {
        (if starts_with(ls[0], seq!['D', ' ']) {
            ls[0].skip(2)
        } else {
            Seq::empty()
        }) + data_of(ls.drop_first())
    }
}

/// Some line is a `D ` line.
pub open spec fn has_data(ls: Seq<Seq<char>>) -> bool
    decreases ls.len(),
{
    ls.len() > 0 && (starts_with(ls[0], seq!['D', ' ']) || has_data(ls.drop_first()))
}

/// The PIN an Assuan response carries: the decoded concatenation of its `D `
/// lines, or none when it has none (a cancel answers only OK/ERR).
pub open spec fn pin_of(stdout: Seq<char>) -> Option<Seq<char>> {
    if has_data(lines(stdout)) {
        Some(decoded(data_of(lines(stdout))))
    } else {
        None
    }
}

/// An escaped text holds no line break, so it stays on its Assuan command
/// line whatever the original text held.
pub proof fn escaped_is_one_line(v: Seq<char>)
    ensures
        forall|i: int| 0 <= i < escaped(v).len() ==> #[trigger] escaped(v)[i] != '\n' && escaped(v)[i] != '\r',
    decreases v.len(),
{
    if v.len() > 0 {
        escaped_is_one_line(v.drop_first());
        let head = esc_piece(v[0]);
        let tail = escaped(v.drop_first());
        assert(escaped(v) == head + tail);
        assert forall|i: int| 0 <= i < escaped(v).len() implies #[trigger] escaped(v)[i] != '\n'
            && escaped(v)[i] != '\r' by {
            if i >= head.len() {
                assert(escaped(v)[i] == tail[i - head.len()]);
            }
        }
    }
}

proof fn lemma_newline_index_concat(a: Seq<char>, b: Seq<char>)
    requires
        forall|i: int| 0 <= i < a.len() ==> #[trigger] a[i] != '\n',
    ensures
        newline_index(a + b) == a.len() + newline_index(b),
    decreases a.len(),
{
    if a.len() == 0 {
        assert(a + b =~= b);
    } else {
        assert((a + b)[0] == a[0]);
        assert((a + b).drop_first() =~= a.drop_first() + b);
        lemma_newline_index_concat(a.drop_first(), b);
    }
}

/// The PIN survives the Assuan transport: a pinentry reply that carries the
/// escaped PIN on its data line reads back as that PIN.
pub proof fn reply_reads_back(pin: Seq<char>)
    ensures
        pin_of(seq!['O', 'K', '\n', 'D', ' '] + escaped(pin) + seq!['\n', 'O', 'K', '\n'])
            == Some(pin),
{
    let e = escaped(pin);
    escaped_is_one_line(pin);
    let ok = seq!['O', 'K'];
    let l2 = seq!['D', ' '] + e;
    let tail = seq!['O', 'K', '\n'];
    let s = seq!['O', 'K', '\n', 'D', ' '] + e + seq!['\n', 'O', 'K', '\n'];
    assert forall|i: int| 0 <= i < ok.len() implies #[trigger] ok[i] != '\n' by {}
    assert(s =~= ok + (seq!['\n'] + (l2 + (seq!['\n'] + tail))));
    lemma_newline_index_concat(ok, seq!['\n'] + (l2 + (seq!['\n'] + tail)));
    assert(newline_index(seq!['\n'] + (l2 + (seq!['\n'] + tail))) == 0);
    assert(newline_index(s) == 2);
    assert(s.take(2) =~= ok);
    assert(strip_cr(ok) == ok);
    let s1 = s.skip(3);
    assert(s1 =~= l2 + (seq!['\n'] + tail));
    assert forall|i: int| 0 <= i < l2.len() implies #[trigger] l2[i] != '\n' by {
        if i >= 2 {
            assert(l2[i] == e[i - 2]);
        }
    }
    lemma_newline_index_concat(l2, seq!['\n'] + tail);
    assert(newline_index(seq!['\n'] + tail) == 0);
    assert(newline_index(s1) == l2.len());
    assert(s1.take(l2.len() as int) =~= l2);
    assert(l2.last() != '\r') by {
        if e.len() > 0 {
            assert(l2.last() == e[e.len() - 1]);
        }
    }
    assert(strip_cr(l2) == l2);
    let s2 = s1.skip(l2.len() + 1 as int);
    assert(s2 =~= tail);
    assert(tail =~= ok + seq!['\n']);
    lemma_newline_index_concat(ok, seq!['\n']);
    assert(newline_index(seq!['\n']) == 0);
    assert(newline_index(tail) == 2);
    assert(tail.take(2) =~= ok);
    assert(tail.skip(3) =~= Seq::<char>::empty());
    assert(lines(tail) == seq![ok] + lines(Seq::<char>::empty()));
    assert(lines(tail) =~= seq![ok]);
    assert(lines(s1) == seq![l2] + lines(s2));
    assert(lines(s) == seq![ok] + lines(s1));
    let ls = lines(s);
    assert(ls =~= seq![ok, l2, ok]);
    assert(!starts_with(ok, seq!['D', ' '])) by {
        assert(ok.subrange(0, 2)[0] == 'O');
    }
    assert(starts_with(l2, seq!['D', ' '])) by {
        assert(l2.subrange(0, 2) =~= seq!['D', ' ']);
    }
    assert(ls.drop_first() =~= seq![l2, ok]);
    assert(ls.drop_first().drop_first() =~= seq![ok]);
    assert(seq![ok].drop_first() =~= Seq::<Seq<char>>::empty());
    assert(seq![ok][0] == ok);
    assert(data_of(Seq::<Seq<char>>::empty()) == Seq::<char>::empty());
    assert(data_of(seq![ok]) =~= Seq::<char>::empty());
    assert(l2.skip(2) =~= e);
    assert(data_of(seq![l2, ok]) =~= e);
    assert(data_of(ls) =~= e);
    assert(ls.drop_first()[0] == l2);
    assert(has_data(ls.drop_first()));
    assert(has_data(ls));
    decode_undoes_esc(pin);
}

/// Reassemble the PIN from an Assuan response. A long PIN can arrive across
/// several "D " continuation lines; concatenate their payloads, then undo the
/// percent-escaping pinentry applies to '%', CR, and LF.
pub fn parse_pinentry(stdout: &str) -> (r: Option<String>)
    ensures
        r matches Some(p) ==> pin_of(stdout@) == Some(p@),
        r is None ==> pin_of(stdout@) is None,
{
    let v = chars_of(stdout);
    let n = v.len();
    let mut enc = String::new();
    let mut saw_data = false;
    let mut i: usize = 0;
    assert(v@.skip(0) == v@);
    while i < n
        invariant
            n == v@.len(),
            i <= n,
            data_of(lines(v@)) == enc@ + data_of(lines(v@.skip(i as int))),
            has_data(lines(v@)) == (saw_data || has_data(lines(v@.skip(i as int)))),
        decreases n - i,
    {
        let e = line_end(&v, i);
        let line = line_at(&v, i, e);
        proof {
            lemma_lines_step(v@, i as int, e as int);
        }
        let ghost rest = if e < n {
            lines(v@.skip(e + 1))
        } else {
            Seq::empty()
        };
        assert(lines(v@.skip(i as int)) == seq![line@] + rest);
        assert((seq![line@] + rest).drop_first() == rest);
        if line.len() >= 2 && line[0] == 'D' && line[1] == ' ' {
            assert(starts_with(line@, seq!['D', ' '])) by {
                assert(line@.subrange(0, 2) =~= seq!['D', ' ']);
            }
            let ghost before = enc@;
            crate::text::push_all(&mut enc, &line, 2);
            saw_data = true;
        } else {
            assert(!starts_with(line@, seq!['D', ' '])) by {
                if line@.len() >= 2 {
                    assert(line@.subrange(0, 2)[0] == line@[0]);
                    assert(line@.subrange(0, 2)[1] == line@[1]);
                }
            }
        }
        if e < n {
            i = e + 1;
        } else {
            assert(v@.skip(n as int) =~= Seq::<char>::empty());
            assert(rest =~= lines(v@.skip(n as int)));
            i = n;
        }
    }
    assert(v@.skip(n as int) =~= Seq::<char>::empty());
    if !saw_data {
        return None;
    }
    Some(assuan_decode(enc.as_str()))
}


/// The text every Linux dialog shows above its password field.
pub open spec fn body_text(preview: Seq<char>) -> Seq<char> {
    "vudo will run this command as root:\n\n"@ + preview + "\n\nEnter your password to authorize."@
}

/// The dialog text for `preview`.
pub fn password_body(preview: &str) -> (out: String)
    ensures
        out@ == body_text(preview@),
{
    let mut out = owned("vudo will run this command as root:\n\n");
    out.append(preview);
    out.append("\n\nEnter your password to authorize.");
    out
}

/// The arguments of `zenity` for the password entry.
pub fn zenity_args(body: &str) -> (out: Vec<String>)
    ensures
        strings_view(out@) == seq!["--entry"@, "--hide-text"@, "--title=vudo"@, "--text="@ + body@],
{
    let mut text = owned("--text=");
    text.append(body);
    let mut out: Vec<String> = Vec::new();
    out.push(owned("--entry"));
    out.push(owned("--hide-text"));
    out.push(owned("--title=vudo"));
    out.push(text);
    assert(strings_view(out@) =~= seq!["--entry"@, "--hide-text"@, "--title=vudo"@, "--text="@ + body@]);
    out
}

/// The arguments of `kdialog` for the password entry.
pub fn kdialog_args(body: &str) -> (out: Vec<String>)
    ensures
        strings_view(out@) == seq!["--title"@, "vudo"@, "--password"@, body@],
{
    let mut out: Vec<String> = Vec::new();
    out.push(owned("--title"));
    out.push(owned("vudo"));
    out.push(owned("--password"));
    out.push(owned(body));
    assert(strings_view(out@) =~= seq!["--title"@, "vudo"@, "--password"@, body@]);
    out
}

/// The Assuan commands that ask pinentry for the password.
pub open spec fn pinentry_commands(body: Seq<char>) -> Seq<char> {
    "SETTITLE "@ + escaped("vudo (sudo)"@) + "\nSETDESC "@ + escaped(body) + "\nSETPROMPT "@
        + escaped("Password:"@) + "\nGETPIN\nBYE\n"@
}

/// The script written to pinentry's stdin.
pub fn pinentry_script(body: &str) -> (out: String)
    ensures
        out@ == pinentry_commands(body@),
{
    let mut out = owned("SETTITLE ");
    out.append(assuan_esc("vudo (sudo)").as_str());
    out.append("\nSETDESC ");
    out.append(assuan_esc(body).as_str());
    out.append("\nSETPROMPT ");
    out.append(assuan_esc("Password:").as_str());
    out.append("\nGETPIN\nBYE\n");
    out
}


/// The pinentry programs tried, in order.
pub open spec fn pinentry_candidate(i: int) -> Seq<char> {
    if i == 0 {
        "pinentry-gnome3"@
    } else if i == 1 {
        "pinentry-qt"@
    } else {
        "pinentry"@
    }
}

/// How many pinentry programs are tried.
pub const PINENTRY_CANDIDATES: usize = 3;

fn candidate(i: usize) -> (out: String)
    requires
        i < PINENTRY_CANDIDATES,
    ensures
        out@ == pinentry_candidate(i as int),
{
    if i == 0 {
        owned("pinentry-gnome3")
    } else if i == 1 {
        owned("pinentry-qt")
    } else {
        owned("pinentry")
    }
}

/// Where a password prompt stands.
#[derive(Clone, Copy, PartialEq, Eq, Structural)]
pub enum PromptStage {
    Start,
    ProbeZenity,
    RunZenity,
    ProbeKdialog,
    RunKdialog,
    ProbePinentry,
    Handshake,
    RunPinentry,
    Done,
}

/// What the driver reports back to a password prompt.
pub enum PromptEvent {
    /// Begin.
    Start,
    /// Whether the program asked about is on the `PATH`.
    Present(bool),
    /// The dialog's stdout when it exited successfully; `None` when it
    /// could not run or was cancelled.
    Captured(Option<String>),
    /// Whether the pinentry handshake succeeded.
    HandshakeOk(bool),
    /// Everything pinentry printed, or `None` when it could not be run.
    Replied(Option<String>),
}

/// What the driver must do next for a password prompt.
pub enum PromptAction {
    /// Check whether `program` is on the `PATH` (`PromptEvent::Present`).
    Probe(String),
    /// Run `program` with `args`, stderr inherited, stdout captured
    /// (`PromptEvent::Captured`).
    Capture { program: String, args: Vec<String> },
    /// Start `program`, write `script` to its stdin and wait for it
    /// (`PromptEvent::HandshakeOk`).
    Handshake { program: String, script: String },
    /// Start `program`, write `script` to its stdin and read all it prints
    /// (`PromptEvent::Replied`).
    AskPin { program: String, script: String },
    /// The prompt is over: the password, or `None`; `message` goes to stderr.
    Finish { password: Option<String>, message: String },
}

/// The mathematical form of a [`PromptAction`].
pub enum PromptActionModel {
    Probe(Seq<char>),
    Capture { program: Seq<char>, args: Seq<Seq<char>> },
    Handshake { program: Seq<char>, script: Seq<char> },
    AskPin { program: Seq<char>, script: Seq<char> },
    Finish { password: Option<Seq<char>>, message: Seq<char> },
}

pub open spec fn opt_view(o: Option<String>) -> Option<Seq<char>> {
    match o {
        Some(s) => Some(s@),
        None => None,
    }
}

impl View for PromptAction {
    type V = PromptActionModel;

    open spec fn view(&self) -> PromptActionModel {
        match self {
            PromptAction::Probe(p) => PromptActionModel::Probe(p@),
            PromptAction::Capture { program, args } => PromptActionModel::Capture {
                program: program@,
                args: strings_view(args@),
            },
            PromptAction::Handshake { program, script } => PromptActionModel::Handshake {
                program: program@,
                script: script@,
            },
            PromptAction::AskPin { program, script } => PromptActionModel::AskPin {
                program: program@,
                script: script@,
            },
            PromptAction::Finish { password, message } => PromptActionModel::Finish {
                password: opt_view(*password),
                message: message@,
            },
        }
    }
}

/// A password prompt on Linux: zenity when present, else kdialog, else the
/// first pinentry that passes a handshake.
pub struct PasswordPrompt {
    body: String,
    stage: PromptStage,
    candidate: usize,
}

/// The mathematical form of a [`PasswordPrompt`].
pub struct PromptModel {
    pub body: Seq<char>,
    pub stage: PromptStage,
    pub candidate: nat,
}

impl View for PasswordPrompt {
    type V = PromptModel;

    closed spec fn view(&self) -> PromptModel {
        PromptModel { body: self.body@, stage: self.stage, candidate: self.candidate as nat }
    }
}

/// The event a prompt waits for in stage `s`.
pub open spec fn prompt_accepts(s: PromptStage, e: PromptEvent) -> bool {
    match s {
        PromptStage::Start => e is Start,
        PromptStage::ProbeZenity | PromptStage::ProbeKdialog | PromptStage::ProbePinentry => e is Present,
        PromptStage::RunZenity | PromptStage::RunKdialog => e is Captured,
        PromptStage::Handshake => e is HandshakeOk,
        PromptStage::RunPinentry => e is Replied,
        PromptStage::Done => false,
    }
}

/// The handshake written to a pinentry to see that it runs; it shows no
/// dialog.
pub open spec fn handshake_text() -> Seq<char> {
    "GETINFO version\nBYE\n"@
}

/// Trying the pinentry program `i`, or giving up when none is left.
pub open spec fn try_pinentry(m: PromptModel, i: nat) -> (PromptModel, PromptActionModel) {
    if i < PINENTRY_CANDIDATES {
        (
            PromptModel { stage: PromptStage::ProbePinentry, candidate: i, ..m },
            PromptActionModel::Probe(pinentry_candidate(i as int)),
        )
    } else {
        (
            PromptModel { stage: PromptStage::Done, candidate: i, ..m },
            PromptActionModel::Finish {
                password: None,
                message: "vudo: no graphical password prompt found \u{2014} install zenity or kdialog\n"@,
            },
        )
    }
}

/// One decision of a password prompt.
pub open spec fn prompt_next(m: PromptModel, e: PromptEvent) -> (PromptModel, PromptActionModel) {
    match e {
        PromptEvent::Start => (
            PromptModel { stage: PromptStage::ProbeZenity, ..m },
            PromptActionModel::Probe("zenity"@),
        ),
        PromptEvent::Present(present) => if m.stage == PromptStage::ProbeZenity {
            if present {
                (
                    PromptModel { stage: PromptStage::RunZenity, ..m },
                    PromptActionModel::Capture {
                        program: "zenity"@,
                        args: seq!["--entry"@, "--hide-text"@, "--title=vudo"@, "--text="@ + m.body],
                    },
                )
            } else {
                (PromptModel { stage: PromptStage::ProbeKdialog, ..m }, PromptActionModel::Probe("kdialog"@))
            }
        } else if m.stage == PromptStage::ProbeKdialog {
            if present {
                (
                    PromptModel { stage: PromptStage::RunKdialog, ..m },
                    PromptActionModel::Capture {
                        program: "kdialog"@,
                        args: seq!["--title"@, "vudo"@, "--password"@, m.body],
                    },
                )
            } else {
                try_pinentry(m, 0)
            }
        } else {
            if present {
                (
                    PromptModel { stage: PromptStage::Handshake, ..m },
                    PromptActionModel::Handshake {
                        program: pinentry_candidate(m.candidate as int),
                        script: handshake_text(),
                    },
                )
            } else {
                try_pinentry(m, m.candidate + 1)
            }
        },
        PromptEvent::Captured(out) => (
            PromptModel { stage: PromptStage::Done, ..m },
            PromptActionModel::Finish {
                password: match out {
                    Some(o) => Some(without_newline(o@)),
                    None => None,
                },
                message: Seq::empty(),
            },
        ),
        PromptEvent::HandshakeOk(ok) => if ok {
            (
                PromptModel { stage: PromptStage::RunPinentry, ..m },
                PromptActionModel::AskPin {
                    program: pinentry_candidate(m.candidate as int),
                    script: pinentry_commands(m.body),
                },
            )
        } else {
            try_pinentry(m, m.candidate + 1)
        },
        PromptEvent::Replied(out) => (
            PromptModel { stage: PromptStage::Done, ..m },
            PromptActionModel::Finish {
                password: match out {
                    Some(o) => pin_of(o@),
                    None => None,
                },
                message: Seq::empty(),
            },
        ),
    }
}

impl PasswordPrompt {
    /// A prompt that shows `body` (see [`password_body`]).
    pub fn new(body: &str) -> (p: PasswordPrompt)
        ensures
            p@ == (PromptModel { body: body@, stage: PromptStage::Start, candidate: 0 }),
    {
        PasswordPrompt { body: owned(body), stage: PromptStage::Start, candidate: 0 }
    }

    /// The stage the prompt is in.
    pub fn stage(&self) -> (s: PromptStage)
        ensures
            s == self@.stage,
    {
        self.stage
    }

    fn try_pinentry(&mut self, i: usize) -> (a: PromptAction)
        requires
            i <= PINENTRY_CANDIDATES,
        ensures
            (final(self)@, a@) == try_pinentry(old(self)@, i as nat),
    {
        self.candidate = i;
        if i < PINENTRY_CANDIDATES {
            self.stage = PromptStage::ProbePinentry;
            PromptAction::Probe(candidate(i))
        } else {
            self.stage = PromptStage::Done;
            PromptAction::Finish {
                password: None,
                message: owned("vudo: no graphical password prompt found \u{2014} install zenity or kdialog\n"),
            }
        }
    }

    /// Takes what the driver reported and decides what comes next.
    pub fn step(&mut self, e: PromptEvent) -> (a: PromptAction)
        requires
            prompt_accepts(old(self)@.stage, e),
            old(self)@.candidate < PINENTRY_CANDIDATES,
        ensures
            (final(self)@, a@) == prompt_next(old(self)@, e),
            final(self)@.candidate < PINENTRY_CANDIDATES || final(self)@.stage == PromptStage::Done,
            old(self)@.stage == PromptStage::ProbeZenity && e == PromptEvent::Present(true) ==> a@
                == (PromptActionModel::Capture {
                program: "zenity"@,
                args: seq!["--entry"@, "--hide-text"@, "--title=vudo"@, "--text="@ + old(self)@.body],
            }),
            old(self)@.stage == PromptStage::ProbeKdialog && e == PromptEvent::Present(true) ==> a@
                == (PromptActionModel::Capture {
                program: "kdialog"@,
                args: seq!["--title"@, "vudo"@, "--password"@, old(self)@.body],
            }),
    {
        match e {
            PromptEvent::Start => {
                self.stage = PromptStage::ProbeZenity;
                PromptAction::Probe(owned("zenity"))
            },
            PromptEvent::Present(present) => {
                if self.stage == PromptStage::ProbeZenity {
                    if present {
                        self.stage = PromptStage::RunZenity;
                        PromptAction::Capture { program: owned("zenity"), args: zenity_args(self.body.as_str()) }
                    } else {
                        self.stage = PromptStage::ProbeKdialog;
                        PromptAction::Probe(owned("kdialog"))
                    }
                } else if self.stage == PromptStage::ProbeKdialog {
                    if present {
                        self.stage = PromptStage::RunKdialog;
                        PromptAction::Capture {
                            program: owned("kdialog"),
                            args: kdialog_args(self.body.as_str()),
                        }
                    } else {
                        self.try_pinentry(0)
                    }
                } else {
                    if present {
                        self.stage = PromptStage::Handshake;
                        PromptAction::Handshake {
                            program: candidate(self.candidate),
                            script: owned("GETINFO version\nBYE\n"),
                        }
                    } else {
                        self.try_pinentry(self.candidate + 1)
                    }
                }
            },
            PromptEvent::Captured(out) => {
                self.stage = PromptStage::Done;
                let password = match out {
                    Some(o) => Some(trim_newline(o)),
                    None => None,
                };
                PromptAction::Finish { password, message: String::new() }
            },
            PromptEvent::HandshakeOk(ok) => {
                if ok {
                    self.stage = PromptStage::RunPinentry;
                    PromptAction::AskPin {
                        program: candidate(self.candidate),
                        script: pinentry_script(self.body.as_str()),
                    }
                } else {
                    self.try_pinentry(self.candidate + 1)
                }
            },
            PromptEvent::Replied(out) => {
                self.stage = PromptStage::Done;
                let password = match out {
                    Some(o) => parse_pinentry(o.as_str()),
                    None => None,
                };
                PromptAction::Finish { password, message: String::new() }
            },
        }
    }
}

/// The password dialogs are asked for with the options each program has:
/// zenity as a hidden-text entry (`--entry --hide-text --title=vudo
/// --text=<body>`), kdialog as a password box (`--title vudo --password
/// <body>`), in both cases showing the prompt's text.
pub proof fn dialogs_get_their_own_options(m: PromptModel)
    ensures
        m.stage == PromptStage::ProbeZenity ==> prompt_next(m, PromptEvent::Present(true)).1
            == (PromptActionModel::Capture {
            program: "zenity"@,
            args: seq!["--entry"@, "--hide-text"@, "--title=vudo"@, "--text="@ + m.body],
        }),
        m.stage == PromptStage::ProbeKdialog ==> prompt_next(m, PromptEvent::Present(true)).1
            == (PromptActionModel::Capture {
            program: "kdialog"@,
            args: seq!["--title"@, "vudo"@, "--password"@, m.body],
        }),
        m.stage == PromptStage::ProbeZenity ==> prompt_next(m, PromptEvent::Present(false))
            == (PromptModel { stage: PromptStage::ProbeKdialog, ..m }, PromptActionModel::Probe(
            "kdialog"@,
        )),
{
}


} // verus!
