//! Best-effort identification of what invoked vudo, shown in the auth dialog
//! so the user can see where a root prompt originated — their own terminal vs.
//! an agent/automation (e.g. an AI coding CLI).
//!
//! A single, meaningful name is shown: the nearest ancestor that isn't a plain
//! shell. Shells are pass-through noise (`vudo` is almost always spawned by
//! one), so the interesting actor is the first non-shell above them — `agentd`
//! rather than `zsh`, or the terminal emulator when you run it yourself.

use vstd::prelude::*;
use vstd::string::*;
use crate::num::{parse_i32, parsed_i32};
use crate::text::{
    chars_of, eq_lit, first_words, occurs_at, owned, rfind_char, rfind_in, string_of_range,
    strings_view, subvec, trim, trim_bounds, words,
};

verus! {

/// ASCII lower case of one character.
pub open spec fn lower(c: char) -> char {
    if 'A' <= c && c <= 'Z' {
        ((c as u32) + 32) as char
    } else {
        c
    }
}

/// `s` without its leading dashes (a login shell shows as `-zsh`).
pub open spec fn strip_dashes(s: Seq<char>) -> Seq<char>
    decreases s.len(),
{
    if s.len() > 0 && s[0] == '-' {
        strip_dashes(s.drop_first())
    } else {
        s
    }
}

/// The name a process is compared by: dashes dropped, lower-cased, and a
/// trailing `.exe` removed.
pub open spec fn base_name(name: Seq<char>) -> Seq<char> {
    let l = strip_dashes(name).map_values(|c: char| lower(c));
    if l.len() >= 4 && l.subrange(l.len() - 4, l.len() as int) == ".exe"@ {
        l.take(l.len() - 4)
    } else {
        l
    }
}

/// The shells that are skipped over.
pub open spec fn is_shell_base(b: Seq<char>) -> bool {
    b == "sh"@ || b == "bash"@ || b == "zsh"@ || b == "dash"@ || b == "fish"@ || b == "ksh"@ || b
        == "tcsh"@ || b == "csh"@ || b == "ash"@ || b == "pwsh"@ || b == "powershell"@ || b
        == "cmd"@
}

/// A process name that is a plain shell.
pub open spec fn is_shell_name(name: Seq<char>) -> bool {
    is_shell_base(base_name(name))
}

fn lower_char(c: char) -> (d: char)
    ensures
        d == lower(c),
{
    if 'A' <= c && c <= 'Z' {
        ((c as u8) + 32) as char
    } else {
        c
    }
}

/// Whether `name` is a plain shell.
pub fn is_shell(name: &str) -> (b: bool)
    ensures
        b == is_shell_name(name@),
{
    let v = chars_of(name);
    let mut i: usize = 0;
    assert(v@.skip(0) =~= v@);
    while i < v.len() && v[i] == '-'
        invariant
            i <= v@.len(),
            strip_dashes(v@) == strip_dashes(v@.skip(i as int)),
        decreases v.len() - i,
    {
        assert(v@.skip(i as int).drop_first() =~= v@.skip(i + 1));
        i = i + 1;
    }
    let ghost rest = v@.skip(i as int);
    assert(strip_dashes(rest) == rest);
    let mut l: Vec<char> = Vec::new();
    let mut k = i;
    while k < v.len()
        invariant
            i <= k <= v@.len(),
            rest == v@.skip(i as int),
            l@ == v@.subrange(i as int, k as int).map_values(|c: char| lower(c)),
        decreases v.len() - k,
    {
        l.push(lower_char(v[k]));
        k = k + 1;
        assert(l@ =~= v@.subrange(i as int, k as int).map_values(|c: char| lower(c)));
    }
    assert(v@.subrange(i as int, v@.len() as int) == rest);
    let exe = chars_of(".exe");
    proof {
        reveal_strlit(".exe");
    }
    let n = l.len();
    let base = if n >= 4 && occurs_at(&l, n - 4, &exe) {
        subvec(&l, 0, n - 4)
    } else {
        proof {
            if l@.len() >= 4 {
                assert(!(l@.subrange(l@.len() - 4, l@.len() as int) == ".exe"@));
            }
        }
        l
    };
    assert(l@ == strip_dashes(name@).map_values(|c: char| lower(c)));
    assert(base@ == base_name(name@));
    eq_lit(&base, "sh") || eq_lit(&base, "bash") || eq_lit(&base, "zsh") || eq_lit(&base, "dash")
        || eq_lit(&base, "fish") || eq_lit(&base, "ksh") || eq_lit(&base, "tcsh") || eq_lit(
        &base,
        "csh",
    ) || eq_lit(&base, "ash") || eq_lit(&base, "pwsh") || eq_lit(&base, "powershell") || eq_lit(
        &base,
        "cmd",
    )
}

/// The index of the first name of `chain` that is not a shell.
pub open spec fn first_non_shell(chain: Seq<Seq<char>>) -> Option<int>
    decreases chain.len(),
{
    if chain.len() == 0 {
        None
    } else if !is_shell_name(chain[0]) {
        Some(0)
    } else {
        match first_non_shell(chain.drop_first()) {
            Some(i) => Some(i + 1),
            None => None,
        }
    }
}

/// The name shown for a parent-first chain of process names.
pub open spec fn picked(chain: Seq<Seq<char>>) -> Seq<char> {
    match first_non_shell(chain) {
        Some(i) => chain[i],
        None => if chain.len() > 0 {
            chain[0]
        } else {
            "unknown"@
        },
    }
}

proof fn lemma_first_non_shell(chain: Seq<Seq<char>>)
    ensures
        first_non_shell(chain) matches Some(i) ==> 0 <= i < chain.len() && !is_shell_name(chain[i])
            && forall|j: int| 0 <= j < i ==> is_shell_name(#[trigger] chain[j]),
        first_non_shell(chain) is None ==> forall|j: int|
            0 <= j < chain.len() ==> is_shell_name(#[trigger] chain[j]),
    decreases chain.len(),
{
    if chain.len() > 0 {
        lemma_first_non_shell(chain.drop_first());
        if is_shell_name(chain[0]) {
            assert forall|j: int| 1 <= j < chain.len() implies #[trigger] chain[j] == chain.drop_first()[j
                - 1] by {}
        }
    }
}

/// The plain shells are exactly these twelve: a process name is a shell
/// when, with its leading dashes dropped, lower-cased and a trailing `.exe`
/// removed, it reads `sh`, `bash`, `zsh`, `dash`, `fish`, `ksh`, `tcsh`,
/// `csh`, `ash`, `pwsh`, `powershell` or `cmd`.
pub proof fn shells_are_the_twelve(name: Seq<char>)
    ensures
        is_shell_name(name) <==> {
            let b = base_name(name);
            ||| b == "sh"@
            ||| b == "bash"@
            ||| b == "zsh"@
            ||| b == "dash"@
            ||| b == "fish"@
            ||| b == "ksh"@
            ||| b == "tcsh"@
            ||| b == "csh"@
            ||| b == "ash"@
            ||| b == "pwsh"@
            ||| b == "powershell"@
            ||| b == "cmd"@
        },
{
}

/// A login shell's leading dash does not hide it: `-zsh` is compared as
/// `zsh`.
pub proof fn leading_dash_is_ignored(name: Seq<char>)
    ensures
        base_name(seq!['-'] + name) == base_name(name),
        is_shell_name(seq!['-'] + name) == is_shell_name(name),
{
    assert((seq!['-'] + name).drop_first() =~= name);
}

/// A shell in front of the chain is passed over: when one of the twelve
/// shells spawned vudo and some ancestor further up is not a shell, the
/// name shown is the one the rest of the chain gives.
pub proof fn shell_parents_are_skipped(shell: Seq<char>, rest: Seq<Seq<char>>)
    requires
        ({
            let b = base_name(shell);
            ||| b == "sh"@
            ||| b == "bash"@
            ||| b == "zsh"@
            ||| b == "dash"@
            ||| b == "fish"@
            ||| b == "ksh"@
            ||| b == "tcsh"@
            ||| b == "csh"@
            ||| b == "ash"@
            ||| b == "pwsh"@
            ||| b == "powershell"@
            ||| b == "cmd"@
        }),
        exists|j: int| 0 <= j < rest.len() && !is_shell_name(#[trigger] rest[j]),
    ensures
        picked(seq![shell] + rest) == picked(rest),
        !is_shell_name(picked(rest)),
{
    let chain = seq![shell] + rest;
    assert(chain.drop_first() =~= rest);
    assert(chain[0] == shell);
    lemma_first_non_shell(rest);
    if first_non_shell(rest) is None {
        let j = choose|j: int| 0 <= j < rest.len() && !is_shell_name(#[trigger] rest[j]);
        assert(is_shell_name(rest[j]));
    }
    let i = first_non_shell(rest)->0;
    assert(chain[i + 1] == rest[i]);
}

/// From a parent-first chain of process names, pick the nearest one that isn't
/// a shell; fall back to the immediate parent, then "unknown".
pub fn pick(chain: &[String]) -> (out: String)
    ensures
        out@ == picked(strings_view(chain@)),
        chain@.len() > 0 ==> exists|i: int| 0 <= i < chain@.len() && out@ == chain@[i]@,
        (exists|i: int| 0 <= i < chain@.len() && !is_shell_name(#[trigger] chain@[i]@))
            ==> !is_shell_name(out@),
{
    let ghost names = strings_view(chain@);
    proof {
        lemma_first_non_shell(names);
    }
    let mut i: usize = 0;
    while i < chain.len()
        invariant
            i <= chain@.len(),
            names == strings_view(chain@),
            forall|j: int| 0 <= j < i ==> is_shell_name(#[trigger] names[j]),
        decreases chain.len() - i,
    {
        assert(names[i as int] == chain@[i as int]@);
        if !is_shell(chain[i].as_str()) {
            proof {
                lemma_first_non_shell(names);
                if let Some(k) = first_non_shell(names) {
                    assert(k == i as int);
                } else {
                    assert(is_shell_name(names[i as int]));
                }
            }
            return chain[i].clone();
        }
        i = i + 1;
    }
    assert(first_non_shell(names) is None) by {
        if let Some(k) = first_non_shell(names) {
            assert(is_shell_name(names[k]));
        }
    }
    proof {
        if exists|i: int| 0 <= i < chain@.len() && !is_shell_name(#[trigger] chain@[i]@) {
            let j = choose|i: int| 0 <= i < chain@.len() && !is_shell_name(#[trigger] chain@[i]@);
            assert(names[j] == chain@[j]@);
        }
    }
    if chain.len() > 0 {
        assert(names[0] == chain@[0]@);
        chain[0].clone()
    } else {
        owned("unknown")
    }
}


/// A process name as `/proc/<pid>/comm` gives it: the trimmed contents,
/// when not empty.
pub open spec fn comm_name_of(contents: Seq<char>) -> Option<Seq<char>> {
    if trim(contents).len() == 0 {
        None
    } else {
        Some(trim(contents))
    }
}

/// The name of a process from the contents of `/proc/<pid>/comm`.
pub fn comm_name(contents: &str) -> (r: Option<String>)
    ensures
        r matches Some(n) ==> comm_name_of(contents@) == Some(n@),
        r is None ==> comm_name_of(contents@) is None,
{
    let v = chars_of(contents);
    let (a, b) = trim_bounds(&v, 0, v.len());
    assert(v@.subrange(0, v@.len() as int) =~= v@);
    if a == b {
        None
    } else {
        Some(string_of_range(&v, a, b))
    }
}

/// The part of `s` after its last `/` (all of `s` when it has none).
pub open spec fn after_last_slash(s: Seq<char>) -> Seq<char> {
    match rfind_char(s, '/') {
        Some(i) => s.skip(i + 1),
        None => s,
    }
}

/// A process name as `ps -o comm=` prints it: the trimmed output when not
/// empty, reduced to the part after its last `/`.
pub open spec fn ps_name_of(out: Seq<char>) -> Option<Seq<char>> {
    if trim(out).len() == 0 {
        None
    } else {
        Some(after_last_slash(trim(out)))
    }
}

/// The name of a process from the output of `ps -o comm= -p <pid>`; comm may
/// be a full path, so just the basename is kept.
pub fn ps_comm_name(out: &str) -> (r: Option<String>)
    ensures
        r matches Some(n) ==> ps_name_of(out@) == Some(n@),
        r is None ==> ps_name_of(out@) is None,
{
    let v = chars_of(out);
    let (a, b) = trim_bounds(&v, 0, v.len());
    assert(v@.subrange(0, v@.len() as int) =~= v@);
    if a == b {
        return None;
    }
    let t = subvec(&v, a, b);
    match rfind_in(&t, '/', t.len()) {
        Some(i) => {
            assert(t@.take(t@.len() as int) =~= t@);
            assert(t@.subrange(i + 1, t@.len() as int) =~= t@.skip(i + 1));
            Some(string_of_range(&t, i + 1, t.len()))
        },
        None => {
            assert(t@.take(t@.len() as int) =~= t@);
            assert(t@.subrange(0, t@.len() as int) =~= t@);
            Some(string_of_range(&t, 0, t.len()))
        },
    }
}

/// The parent pid in the contents of `/proc/<pid>/stat`
/// (`pid (comm) state ppid ...`): comm can contain spaces and parens, so the
/// fields are read after the last `)`; the second of them is the parent pid.
pub open spec fn stat_ppid_of(stat: Seq<char>) -> Option<i32> {
    match rfind_char(stat, ')') {
        Some(i) => {
            let fields = words(stat.skip(i + 1));
            if fields.len() >= 2 {
                parsed_i32(fields[1])
            } else {
                None
            }
        },
        None => None,
    }
}

/// The parent pid from the contents of `/proc/<pid>/stat`.
pub fn stat_ppid(stat: &str) -> (r: Option<i32>)
    ensures
        r == stat_ppid_of(stat@),
{
    let v = chars_of(stat);
    assert(v@.take(v@.len() as int) =~= v@);
    match rfind_in(&v, ')', v.len()) {
        Some(i) => {
            let fields = first_words(&v, i + 1, 2);
            if fields.len() >= 2 {
                assert(fields@[1]@ == words(v@.skip(i + 1))[1]);
                parse_i32(&fields[1])
            } else {
                None
            }
        },
        None => None,
    }
}

/// The parent pid from the output of `ps -o ppid= -p <pid>`.
pub open spec fn ps_ppid_of(out: Seq<char>) -> Option<i32> {
    parsed_i32(trim(out))
}

/// The parent pid from the output of `ps -o ppid= -p <pid>`.
pub fn ps_ppid(out: &str) -> (r: Option<i32>)
    ensures
        r == ps_ppid_of(out@),
{
    let v = chars_of(out);
    let (a, b) = trim_bounds(&v, 0, v.len());
    assert(v@.subrange(0, v@.len() as int) =~= v@);
    parse_i32(&subvec(&v, a, b))
}

/// At most this many ancestors are looked at.
pub const MAX_DEPTH: u32 = 8;

/// A walk up the process tree from vudo's parent, collecting names until a
/// lookup fails, pid 1 is reached, or [`MAX_DEPTH`] ancestors were named.
/// The driver looks up the pid that [`Walk::next_pid`] gives, reports the
/// name with [`Walk::record_name`] and the parent with
/// [`Walk::record_parent`], and asks [`Walk::caller`] at the end.
pub struct Walk {
    chain: Vec<String>,
    pid: i32,
    depth: u32,
    done: bool,
}

/// The mathematical form of a [`Walk`].
pub struct WalkModel {
    pub chain: Seq<Seq<char>>,
    pub pid: i32,
    pub depth: nat,
    pub done: bool,
}

impl View for Walk {
    type V = WalkModel;

    closed spec fn view(&self) -> WalkModel {
        WalkModel { chain: strings_view(self.chain@), pid: self.pid, depth: self.depth as nat, done: self.done }
    }
}

impl WalkModel {
    /// The pid that still needs a lookup, if any.
    pub open spec fn pending(self) -> Option<i32> {
        if !self.done && self.pid > 1 && self.depth < MAX_DEPTH && self.chain.len() == self.depth {
            Some(self.pid)
        } else {
            None
        }
    }

    /// A name was recorded and the parent of its process is awaited.
    pub open spec fn awaiting_parent(self) -> bool {
        !self.done && self.chain.len() == self.depth + 1 && self.depth < MAX_DEPTH
    }
}

impl Walk {
    #[verifier::type_invariant]
    spec fn within_depth(self) -> bool {
        self.chain@.len() <= MAX_DEPTH && self.depth <= MAX_DEPTH
    }

    /// A walk that starts at `ppid`, vudo's parent.
    pub fn new(ppid: i32) -> (w: Walk)
        ensures
            w@ == (WalkModel { chain: Seq::empty(), pid: ppid, depth: 0, done: false }),
    {
        let w = Walk { chain: Vec::new(), pid: ppid, depth: 0, done: false };
        assert(strings_view(w.chain@) =~= Seq::<Seq<char>>::empty());
        w
    }

    /// The pid to look up next; `None` once the walk is over.
    pub fn next_pid(&self) -> (r: Option<i32>)
        ensures
            r == self@.pending(),
    {
        if !self.done && self.pid > 1 && self.depth < MAX_DEPTH && self.chain.len() == self.depth as usize {
            Some(self.pid)
        } else {
            None
        }
    }

    /// The name of the pid being looked up; `None` ends the walk.
    pub fn record_name(&mut self, name: Option<String>)
        requires
            old(self)@.pending() is Some,
        ensures
            name matches Some(n) ==> final(self)@ == (WalkModel {
                chain: old(self)@.chain.push(n@),
                ..old(self)@
            }) && final(self)@.awaiting_parent(),
            name is None ==> final(self)@ == (WalkModel { done: true, ..old(self)@ }),
    {
        proof {
            use_type_invariant(&*self);
        }
        match name {
            Some(n) => {
                let ghost n_view = n@;
                let mut c: Vec<String> = Vec::new();
                std::mem::swap(&mut c, &mut self.chain);
                c.push(n);
                self.chain = c;
                assert(strings_view(self.chain@) =~= old(self)@.chain.push(n_view));
            },
            None => {
                self.done = true;
            },
        }
    }

    /// The parent of the pid just named; `None` ends the walk.
    pub fn record_parent(&mut self, ppid: Option<i32>)
        requires
            old(self)@.awaiting_parent(),
        ensures
            ppid matches Some(p) ==> final(self)@ == (WalkModel {
                pid: p,
                depth: old(self)@.depth + 1,
                ..old(self)@
            }),
            ppid is None ==> final(self)@ == (WalkModel { done: true, ..old(self)@ }),
    {
        match ppid {
            Some(p) => {
                proof {
                    use_type_invariant(&*self);
                }
                self.pid = p;
                self.depth = self.depth + 1;
            },
            None => {
                self.done = true;
            },
        }
    }

    /// The caller the walk found (see [`pick`]).
    pub fn caller(&self) -> (out: String)
        ensures
            out@ == picked(self@.chain),
            self@.chain.len() <= MAX_DEPTH,
    {
        proof {
            use_type_invariant(self);
        }
        pick(self.chain.as_slice())
    }
}

} // verus!
