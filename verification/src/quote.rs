//! Building the human-readable command preview.

use vstd::prelude::*;
use vstd::string::*;
use crate::text::{chars_of, flat_map, lemma_flat_map_step, push_char, string_of};

verus! {

/// Characters that may stand unquoted in the preview.
pub open spec fn is_safe_char(c: char) -> bool {
    ('A' <= c && c <= 'Z') || ('a' <= c && c <= 'z') || ('0' <= c && c <= '9')
        || c == '_' || c == '@' || c == '%' || c == '+' || c == '=' || c == ':'
        || c == ',' || c == '.' || c == '/' || c == '-'
}

pub open spec fn all_safe(s: Seq<char>) -> bool {
    forall|i: int| 0 <= i < s.len() ==> is_safe_char(#[trigger] s[i])
}

/// What a character becomes inside a single-quoted word: an embedded quote
/// closes the quote, adds an escaped quote, and reopens it.
pub open spec fn sq_piece(c: char) -> Seq<char> {
    if c == '\'' {
        seq!['\'', '\\', '\'', '\'']
    } else {
        seq![c]
    }
}

/// The quoted form of one argument.
pub open spec fn quoted(s: Seq<char>) -> Seq<char> {
    if s.len() == 0 {
        seq!['\'', '\'']
    } else if all_safe(s) {
        s
    } else {
        seq!['\''] + flat_map(s, |c: char| sq_piece(c)) + seq!['\'']
    }
}

/// POSIX-safe single-quoting. Leaves shell-safe tokens bare so the preview
/// stays readable (`pacman -Syu`, not `'pacman' '-Syu'`).
pub fn shell_quote(s: &str) -> (out: String)
    ensures
        out@ == quoted(s@),
{
    let cs = chars_of(s);
    if cs.len() == 0 {
        let mut out = String::new();
        push_char(&mut out, '\'');
        push_char(&mut out, '\'');
        return out;
    }
    let mut safe = true;
    let mut i: usize = 0;
    while i < cs.len()
        invariant
            i <= cs.len(),
            safe <==> forall|j: int| 0 <= j < i ==> is_safe_char(#[trigger] cs@[j]),
        decreases cs.len() - i,
    {
        let c = cs[i];
        let ok = ('A' <= c && c <= 'Z') || ('a' <= c && c <= 'z') || ('0' <= c && c <= '9')
            || c == '_' || c == '@' || c == '%' || c == '+' || c == '=' || c == ':'
            || c == ',' || c == '.' || c == '/' || c == '-';
        safe = safe && ok;
        i = i + 1;
    }
    if safe {
        return string_of(&cs);
    }
    let ghost f = |c: char| sq_piece(c);
    let mut out = String::new();
    push_char(&mut out, '\'');
    let mut i: usize = 0;
    while i < cs.len()
        invariant
            i <= cs.len(),
            cs@ == s@,
            f == (|c: char| sq_piece(c)),
            out@ == seq!['\''] + flat_map(cs@.take(i as int), f),
        decreases cs.len() - i,
    {
        let c = cs[i];
        proof {
            lemma_flat_map_step(cs@, i as int, f);
        }
        if c == '\'' {
            push_char(&mut out, '\'');
            push_char(&mut out, '\\');
            push_char(&mut out, '\'');
            push_char(&mut out, '\'');
        } else {
            push_char(&mut out, c);
        }
        i = i + 1;
    }
    push_char(&mut out, '\'');
    assert(cs@.take(cs@.len() as int) == cs@);
    out
}


/// Words joined with single spaces.
pub open spec fn join_words(ws: Seq<Seq<char>>) -> Seq<char>
    decreases ws.len(),
{
    if ws.len() == 0 {
        Seq::empty()
    } else if ws.len() == 1 {
        ws[0]
    } else {
        join_words(ws.drop_last()) + seq![' '] + ws.last()
    }
}

/// The preview of an argument vector: each argument quoted, joined by spaces.
pub open spec fn preview_of(args: Seq<Seq<char>>) -> Seq<char> {
    join_words(args.map_values(|a: Seq<char>| quoted(a)))
}

/// The characters of each `String` of a command vector.
pub open spec fn args_view(cmd: Seq<String>) -> Seq<Seq<char>> {
    cmd.map_values(|a: String| a@)
}

/// Render a command vector as a single preview line, quoting only the
/// arguments that need it. Display-only; not used to construct the actual
/// invocation (that goes through argv arrays, never a shell).
pub fn preview(cmd: &[String]) -> (out: String)
    ensures
        out@ == preview_of(args_view(cmd@)),
{
    let ghost q = args_view(cmd@).map_values(|a: Seq<char>| quoted(a));
    let mut out = String::new();
    let mut i: usize = 0;
    while i < cmd.len()
        invariant
            i <= cmd.len(),
            q == args_view(cmd@).map_values(|a: Seq<char>| quoted(a)),
            q.len() == cmd@.len(),
            out@ == join_words(q.take(i as int)),
        decreases cmd.len() - i,
    {
        let piece = shell_quote(cmd[i].as_str());
        assert(q[i as int] == piece@);
        assert(q.take(i + 1).drop_last() == q.take(i as int));
        if i > 0 {
            push_char(&mut out, ' ');
        } else {
            assert(out@ == Seq::<char>::empty());
        }
        out.append(piece.as_str());
        i = i + 1;
    }
    assert(q.take(cmd.len() as int) == q);
    out
}


/// How a POSIX shell reads a line made of plain words separated by single
/// spaces: unquoted safe characters stand for themselves, `'...'` quotes
/// everything up to the next `'`, and a backslash outside quotes takes the
/// next character literally. `quoting` tells whether a single-quoted stretch
/// is open, `cur` is the word read so far and `open` whether a word has
/// started. `None` for text that the preview never produces.
pub open spec fn shell_words_from(s: Seq<char>, quoting: bool, cur: Seq<char>, open: bool) -> Option<
    Seq<Seq<char>>,
>
    decreases s.len(),
{
    if s.len() == 0 {
        if quoting {
            None
        } else if open {
            Some(seq![cur])
        } else {
            Some(Seq::empty())
        }
    } else {
        let c = s[0];
        let r = s.drop_first();
        if quoting {
            if c == '\'' {
                shell_words_from(r, false, cur, true)
            } else {
                shell_words_from(r, true, cur.push(c), true)
            }
        } else if c == ' ' {
            match shell_words_from(r, false, Seq::empty(), false) {
                Some(ws) => if open {
                    Some(seq![cur] + ws)
                } else {
                    Some(ws)
                },
                None => None,
            }
        } else if c == '\'' {
            shell_words_from(r, true, cur, true)
        } else if c == '\\' {
            if r.len() == 0 {
                None
            } else {
                shell_words_from(r.drop_first(), false, cur.push(r[0]), true)
            }
        } else if is_safe_char(c) {
            shell_words_from(r, false, cur.push(c), true)
        } else {
            None
        }
    }
}

/// The words a POSIX shell reads from `line`.
pub open spec fn shell_words(line: Seq<char>) -> Option<Seq<Seq<char>>> {
    shell_words_from(line, false, Seq::empty(), false)
}

proof fn lemma_bare_word(s: Seq<char>, x: Seq<char>, cur: Seq<char>, open: bool)
    requires
        all_safe(s),
    ensures
        shell_words_from(s + x, false, cur, open) == shell_words_from(x, false, cur + s, open
            || s.len() > 0),
    decreases s.len(),
{
    if s.len() == 0 {
        assert(s + x == x);
        assert(cur + s == cur);
    } else {
        assert(is_safe_char(s[0]));
        assert((s + x)[0] == s[0]);
        assert((s + x).drop_first() == s.drop_first() + x);
        assert(all_safe(s.drop_first())) by {
            assert forall|i: int| 0 <= i < s.drop_first().len() implies is_safe_char(
                #[trigger] s.drop_first()[i],
            ) by {
                assert(s.drop_first()[i] == s[i + 1]);
            }
        }
        lemma_bare_word(s.drop_first(), x, cur.push(s[0]), true);
        assert(cur.push(s[0]) + s.drop_first() == cur + s);
    }
}

proof fn lemma_quoted_body(s: Seq<char>, x: Seq<char>, cur: Seq<char>)
    ensures
        shell_words_from(flat_map(s, |c: char| sq_piece(c)) + seq!['\''] + x, true, cur, true)
            == shell_words_from(x, false, cur + s, true),
    decreases s.len(),
{
    let f = |c: char| sq_piece(c);
    let t = flat_map(s, f) + seq!['\''] + x;
    if s.len() == 0 {
        assert(flat_map(s, f) == Seq::<char>::empty());
        assert(t == seq!['\''] + x);
        assert(t[0] == '\'');
        assert(t.drop_first() == x);
        assert(cur + s == cur);
        assert(shell_words_from(t, true, cur, true) == shell_words_from(x, false, cur, true));
    } else {
        let c = s[0];
        let rest = flat_map(s.drop_first(), f) + seq!['\''] + x;
        assert(flat_map(s, f) == f(c) + flat_map(s.drop_first(), f));
        assert(t =~= sq_piece(c) + rest);
        lemma_quoted_body(s.drop_first(), x, cur.push(c));
        assert(cur.push(c) + s.drop_first() == cur + s);
        if c == '\'' {
            let t1 = t.drop_first();
            let t2 = t1.drop_first();
            let t3 = t2.drop_first();
            assert(t[0] == '\'');
            assert(t1 =~= seq!['\\', '\'', '\''] + rest);
            assert(t1[0] == '\\');
            assert(t2 =~= seq!['\'', '\''] + rest);
            assert(t2[0] == '\'');
            assert(t3 =~= seq!['\''] + rest);
            assert(t3[0] == '\'');
            assert(t3.drop_first() =~= rest);
            assert(shell_words_from(t3, false, cur.push(c), true) == shell_words_from(
                rest,
                true,
                cur.push(c),
                true,
            ));
            assert(shell_words_from(t1, false, cur, true) == shell_words_from(
                t3,
                false,
                cur.push(t2[0]),
                true,
            ));
            assert(shell_words_from(t, true, cur, true) == shell_words_from(t1, false, cur, true));
        } else {
            assert(t[0] == c);
            assert(t.drop_first() =~= rest);
            assert(shell_words_from(t, true, cur, true) == shell_words_from(
                rest,
                true,
                cur.push(c),
                true,
            ));
        }
    }
}

/// Reading a quoted argument consumes exactly that argument.
proof fn lemma_quoted_word(s: Seq<char>, x: Seq<char>, cur: Seq<char>, open: bool)
    ensures
        shell_words_from(quoted(s) + x, false, cur, open) == shell_words_from(x, false, cur + s,
            true),
{
    let t = quoted(s) + x;
    if s.len() == 0 {
        assert(t =~= seq!['\'', '\''] + x);
        assert(t[0] == '\'');
        let t1 = t.drop_first();
        assert(t1[0] == '\'');
        assert(t1.drop_first() =~= x);
        assert(cur + s =~= cur);
        assert(shell_words_from(t1, true, cur, true) == shell_words_from(x, false, cur, true));
        assert(shell_words_from(t, false, cur, open) == shell_words_from(t1, true, cur, true));
    } else if all_safe(s) {
        lemma_bare_word(s, x, cur, open);
    } else {
        let body = flat_map(s, |c: char| sq_piece(c));
        assert(t =~= seq!['\''] + (body + seq!['\''] + x));
        assert(t[0] == '\'');
        assert(t.drop_first() =~= body + seq!['\''] + x);
        lemma_quoted_body(s, x, cur);
        assert(shell_words_from(t, false, cur, open) == shell_words_from(
            t.drop_first(),
            true,
            cur,
            true,
        ));
    }
}

proof fn lemma_join_front(ws: Seq<Seq<char>>)
    requires
        ws.len() >= 2,
    ensures
        join_words(ws) == ws[0] + seq![' '] + join_words(ws.drop_first()),
    decreases ws.len(),
{
    let dl = ws.drop_last();
    let df = ws.drop_first();
    if ws.len() == 2 {
        assert(dl.len() == 1);
        assert(join_words(dl) == dl[0]);
        assert(df.len() == 1);
        assert(join_words(df) == df[0]);
    } else {
        lemma_join_front(dl);
        assert(dl.drop_first() =~= df.drop_last());
        assert(df.last() == ws.last());
        assert(join_words(df) == join_words(df.drop_last()) + seq![' '] + df.last());
        assert(join_words(ws) == join_words(dl) + seq![' '] + ws.last());
        assert(join_words(ws) =~= ws[0] + seq![' '] + join_words(df));
    }
}

/// Reading back a preview yields the argument vector it was made from: the
/// quoting shows exactly the command that runs, one shell word per argument.
pub proof fn preview_reads_back(args: Seq<Seq<char>>)
    ensures
        shell_words(preview_of(args)) == Some(args),
    decreases args.len(),
{
    let q = args.map_values(|a: Seq<char>| quoted(a));
    if args.len() == 0 {
        assert(args =~= Seq::<Seq<char>>::empty());
    } else {
        let rest = args.drop_first();
        let qr = rest.map_values(|a: Seq<char>| quoted(a));
        assert(q.drop_first() =~= qr);
        preview_reads_back(rest);
        if args.len() == 1 {
            assert(preview_of(args) == quoted(args[0]) + Seq::<char>::empty());
            lemma_quoted_word(args[0], Seq::<char>::empty(), Seq::<char>::empty(), false);
            assert(Seq::<char>::empty() + args[0] == args[0]);
            assert(args =~= seq![args[0]]);
        } else {
            lemma_join_front(q);
            let tail = join_words(qr);
            assert(preview_of(args) == quoted(args[0]) + (seq![' '] + tail));
            lemma_quoted_word(args[0], seq![' '] + tail, Seq::<char>::empty(), false);
            assert(Seq::<char>::empty() + args[0] == args[0]);
            let t = seq![' '] + tail;
            assert(t[0] == ' ');
            assert(t.drop_first() == tail);
            assert(shell_words(tail) == Some(rest));
            assert(seq![args[0]] + rest =~= args);
        }
    }
}

proof fn lemma_sq_len(s: Seq<char>)
    ensures
        flat_map(s, |c: char| sq_piece(c)).len() >= s.len(),
    decreases s.len(),
{
    if s.len() > 0 {
        lemma_sq_len(s.drop_first());
    }
}

/// Which arguments a preview shows bare: exactly the non-empty ones made
/// only of ASCII letters, digits and `_ @ % + = : , . / -`. Every other
/// argument (empty, or holding a glob, a separator, a quote, a space, ...)
/// is shown inside single quotes.
pub proof fn bare_only_for_plain_words(s: Seq<char>)
    ensures
        quoted(s) == s <==> (s.len() > 0 && forall|i: int|
            0 <= i < s.len() ==> ('A' <= #[trigger] s[i] && s[i] <= 'Z') || ('a' <= s[i] && s[i]
                <= 'z') || ('0' <= s[i] && s[i] <= '9') || s[i] == '_' || s[i] == '@' || s[i]
                == '%' || s[i] == '+' || s[i] == '=' || s[i] == ':' || s[i] == ',' || s[i] == '.'
                || s[i] == '/' || s[i] == '-'),
        quoted(s) != s ==> quoted(s).len() >= 2 && quoted(s)[0] == '\'' && quoted(s).last()
            == '\'',
{
    lemma_sq_len(s);
}

} // verus!
