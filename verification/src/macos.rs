//! macOS: the osascript dialogs, and enabling and detecting Touch ID for
//! sudo (`pam_tid`). Reading the PAM files and running osascript are the
//! driver's part.

use vstd::prelude::*;
use vstd::string::*;
use crate::dialog::{info_block, info_text};
use crate::quote::{args_view, preview, preview_of, quoted, shell_quote};
use crate::text::{
    char_end, chars_of, contains, find_in, flat_map, lemma_flat_map_step, lemma_lines_step,
    lemma_split_step, line_at, line_end, lines, owned, push_char, skip_ws, split_char,
    starts_with, strings_view, subvec, trim_start,
};

verus! {

/// The PAM line that enables Touch ID for sudo.
pub const TID_LINE: &'static str = "auth       sufficient     pam_tid.so";

/// An uncommented `auth` line that mentions `needle`.
pub open spec fn is_auth_line(line: Seq<char>, needle: Seq<char>) -> bool {
    let t = trim_start(line);
    !(t.len() > 0 && t[0] == '#') && starts_with(t, "auth"@) && contains(t, needle)
}

/// Some line of `ls` is an uncommented `auth` line mentioning `needle`.
pub open spec fn any_auth_line(ls: Seq<Seq<char>>, needle: Seq<char>) -> bool
    decreases ls.len(),
{
    ls.len() > 0 && (is_auth_line(ls[0], needle) || any_auth_line(ls.drop_first(), needle))
}

/// Whether a PAM config has an uncommented `auth` line mentioning `needle`.
pub fn pam_auth_line(contents: &str, needle: &str) -> (b: bool)
    ensures
        b == any_auth_line(lines(contents@), needle@),
{
    let v = chars_of(contents);
    let nd = chars_of(needle);
    let auth = chars_of("auth");
    let n = v.len();
    let mut i: usize = 0;
    assert(v@.skip(0) == v@);
    while i < n
        invariant
            n == v@.len(),
            v@ == contents@,
            i <= n,
            nd@ == needle@,
            auth@ == "auth"@,
            any_auth_line(lines(v@), needle@) == any_auth_line(lines(v@.skip(i as int)), needle@),
        decreases n - i,
    {
        let e = line_end(&v, i);
        let line = line_at(&v, i, e);
        proof {
            lemma_lines_step(v@, i as int, e as int);
        }
        let ghost rest = if e < n {
            lines(v@.skip(e + 1))
        } else {
            Seq::empty()
        };
        assert(lines(v@.skip(i as int)) == seq![line@] + rest);
        assert((seq![line@] + rest).drop_first() == rest);
        let s = skip_ws(&line, 0, line.len());
        let t = subvec(&line, s, line.len());
        assert(line@.subrange(0, line@.len() as int) == line@);
        let hit = !(t.len() > 0 && t[0] == '#') && crate::text::occurs_at(&t, 0, &auth)
            && find_in(&t, &nd, 0).is_some();
        assert(t@ == trim_start(line@));
        assert((seq![line@] + rest)[0] == line@);
        if hit {
            proof {
                crate::text::lemma_find_from_bounds(t@, nd@, 0);
                assert(is_auth_line(line@, needle@));
                assert(any_auth_line(lines(v@.skip(i as int)), needle@));
            }
            return true;
        }
        assert(!is_auth_line(line@, needle@));
        if e < n {
            i = e + 1;
        } else {
            assert(v@.skip(n as int) =~= Seq::<char>::empty());
            assert(rest =~= lines(v@.skip(n as int)));
            i = n;
        }
    }
    assert(v@.skip(n as int) =~= Seq::<char>::empty());
    false
}

/// Touch ID is active: `pam_tid` in sudo's config, or in `sudo_local` when
/// (and only when) sudo's config includes it — a stray sudo_local on an older
/// system is ignored by PAM and must not count.
pub open spec fn touch_id_on(sudo_conf: Seq<char>, sudo_local: Option<Seq<char>>) -> bool {
    any_auth_line(lines(sudo_conf), "pam_tid.so"@) || (any_auth_line(lines(sudo_conf), "sudo_local"@)
        && match sudo_local {
        Some(l) => any_auth_line(lines(l), "pam_tid.so"@),
        None => false,
    })
}

/// True if `pam_tid` (Touch ID for sudo) is active, given the contents of
/// `/etc/pam.d/sudo` and, when it could be read, `/etc/pam.d/sudo_local`.
pub fn touch_id_active(sudo_conf: &str, sudo_local: Option<&str>) -> (b: bool)
    ensures
        b == touch_id_on(sudo_conf@, match sudo_local {
            Some(l) => Some(l@),
            None => None,
        }),
{
    if pam_auth_line(sudo_conf, "pam_tid.so") {
        return true;
    }
    pam_auth_line(sudo_conf, "sudo_local") && match sudo_local {
        Some(l) => pam_auth_line(l, "pam_tid.so"),
        None => false,
    }
}

/// The shell one-liner (run as root) that enables `pam_tid` in `target`.
pub open spec fn tid_script_text(target: Seq<char>, append: bool) -> Seq<char> {
    let t = quoted(target);
    if append {
        "grep -qs '^[^#]*pam_tid\\.so' "@ + t + " || printf '%s\\n' '"@ + TID_LINE@ + "' >> "@ + t
    } else {
        "grep -qs '^[^#]*pam_tid\\.so' "@ + t + " || sed -i '' '1i\\\n"@ + TID_LINE@ + "\n' "@ + t
    }
}

/// Idempotent shell one-liner (run as root) that enables `pam_tid` in
/// `target`. The grep matches only *uncommented* pam_tid lines: Apple's
/// sudo_local.template ships the line commented out, and a template-copied
/// file must not count as already enabled.
pub fn tid_script(target: &str, append: bool) -> (out: String)
    ensures
        out@ == tid_script_text(target@, append),
{
    let t = shell_quote(target);
    let mut out = owned("grep -qs '^[^#]*pam_tid\\.so' ");
    out.append(t.as_str());
    if append {
        // Dedicated include file (sudo_local): position doesn't matter.
        out.append(" || printf '%s\\n' '");
        out.append(TID_LINE);
        out.append("' >> ");
    } else {
        // Editing /etc/pam.d/sudo itself: pam_tid must run before the
        // password modules, so insert it as the first line.
        out.append(" || sed -i '' '1i\\\n");
        out.append(TID_LINE);
        out.append("\n' ");
    }
    out.append(t.as_str());
    out
}

/// Where the Touch ID line goes, and the root command that puts it there.
pub struct SetupPlan {
    /// The PAM file that is edited.
    pub target: String,
    /// `sh -c <script>`.
    pub command: Vec<String>,
}

/// Sonoma+ ships /etc/pam.d/sudo with an `auth include sudo_local` line;
/// there, sudo_local is the update-safe place for the pam_tid entry. Without
/// that include, sudo_local is inert and the entry must go in sudo itself.
pub open spec fn setup_target(sudo_conf: Seq<char>) -> Seq<char> {
    if any_auth_line(lines(sudo_conf), "sudo_local"@) {
        "/etc/pam.d/sudo_local"@
    } else {
        "/etc/pam.d/sudo"@
    }
}

/// The Touch ID setup for a system whose `/etc/pam.d/sudo` holds `sudo_conf`.
pub fn setup_plan(sudo_conf: &str) -> (s: SetupPlan)
    ensures
        s.target@ == setup_target(sudo_conf@),
        strings_view(s.command@) == seq![
            "sh"@,
            "-c"@,
            tid_script_text(setup_target(sudo_conf@), any_auth_line(lines(sudo_conf@), "sudo_local"@)),
        ],
{
    let uses_sudo_local = pam_auth_line(sudo_conf, "sudo_local");
    let target = if uses_sudo_local {
        owned("/etc/pam.d/sudo_local")
    } else {
        owned("/etc/pam.d/sudo")
    };
    let script = tid_script(target.as_str(), uses_sudo_local);
    let mut command: Vec<String> = Vec::new();
    command.push(owned("sh"));
    command.push(owned("-c"));
    command.push(script);
    assert(strings_view(command@) =~= seq![
        "sh"@,
        "-c"@,
        tid_script_text(setup_target(sudo_conf@), uses_sudo_local),
    ]);
    SetupPlan { target, command }
}

/// Where a Touch ID setup stands.
#[derive(Clone, Copy, PartialEq, Eq, Structural)]
pub enum SetupStage {
    Start,
    AwaitFirstCheck,
    AwaitSudoConf,
    AwaitElevation,
    AwaitRecheck,
    Done,
}

/// What the driver reports back to a Touch ID setup.
pub enum SetupEvent {
    /// Begin.
    Start,
    /// Whether Touch ID for sudo is active now.
    TouchIdActive(bool),
    /// The text of `/etc/pam.d/sudo` (empty when it cannot be read).
    SudoConf(String),
    /// The exit code of the elevated command.
    Elevated(i32),
}

/// What the driver must do next for a Touch ID setup.
pub enum SetupAction {
    /// Check whether Touch ID for sudo is active (`SetupEvent::TouchIdActive`).
    CheckTouchId,
    /// Read `/etc/pam.d/sudo` (`SetupEvent::SudoConf`).
    ReadSudoConf,
    /// Print `announce` to stdout, then run `command` as root through the
    /// normal vudo elevation with `preview` (`SetupEvent::Elevated`).
    Elevate { command: Vec<String>, preview: String, announce: String },
    /// Print `stdout` and `stderr`, and exit with `code`.
    Finish { code: i32, stdout: String, stderr: String },
}

/// The mathematical form of a [`SetupAction`].
pub enum SetupActionModel {
    CheckTouchId,
    ReadSudoConf,
    Elevate { command: Seq<Seq<char>>, preview: Seq<char>, announce: Seq<char> },
    Finish { code: i32, stdout: Seq<char>, stderr: Seq<char> },
}

impl View for SetupAction {
    type V = SetupActionModel;

    open spec fn view(&self) -> SetupActionModel {
        match self {
            SetupAction::CheckTouchId => SetupActionModel::CheckTouchId,
            SetupAction::ReadSudoConf => SetupActionModel::ReadSudoConf,
            SetupAction::Elevate { command, preview, announce } => SetupActionModel::Elevate {
                command: strings_view(command@),
                preview: preview@,
                announce: announce@,
            },
            SetupAction::Finish { code, stdout, stderr } => SetupActionModel::Finish {
                code: *code,
                stdout: stdout@,
                stderr: stderr@,
            },
        }
    }
}

/// Enabling Touch ID for sudo: idempotent, and it does not trust the
/// elevated command's exit code but checks again afterwards.
pub struct TouchIdSetup {
    stage: SetupStage,
    target: String,
}

/// The mathematical form of a [`TouchIdSetup`].
pub struct SetupModel {
    pub stage: SetupStage,
    /// The PAM file being edited, once it is known.
    pub target: Seq<char>,
}

impl View for TouchIdSetup {
    type V = SetupModel;

    closed spec fn view(&self) -> SetupModel {
        SetupModel { stage: self.stage, target: self.target@ }
    }
}

/// A setup that has not begun.
pub open spec fn setup_start() -> SetupModel {
    SetupModel { stage: SetupStage::Start, target: Seq::empty() }
}

/// The event a setup waits for in stage `s`.
pub open spec fn setup_accepts(s: SetupStage, e: SetupEvent) -> bool {
    match s {
        SetupStage::Start => e is Start,
        SetupStage::AwaitFirstCheck | SetupStage::AwaitRecheck => e is TouchIdActive,
        SetupStage::AwaitSudoConf => e is SudoConf,
        SetupStage::AwaitElevation => e is Elevated,
        SetupStage::Done => false,
    }
}

/// The root command that enables Touch ID on a system whose
/// `/etc/pam.d/sudo` holds `sudo_conf`.
pub open spec fn setup_command(sudo_conf: Seq<char>) -> Seq<Seq<char>> {
    seq![
        "sh"@,
        "-c"@,
        tid_script_text(setup_target(sudo_conf), any_auth_line(lines(sudo_conf), "sudo_local"@)),
    ]
}

/// What is announced before the elevation.
pub open spec fn announce_text(target: Seq<char>) -> Seq<char> {
    "vudo: this enables Touch ID for sudo by adding to "@ + target + ":\n        "@ + TID_LINE@
        + "\n\n"@
}

/// The complaint when the line is still not active after the elevation.
pub open spec fn still_inactive_text(target: Seq<char>) -> Seq<char> {
    "vudo: setup ran, but "@ + target
        + " still has no active pam_tid line;\n      please inspect the file and report a bug.\n"@
}

/// One decision of a Touch ID setup.
pub open spec fn setup_next(m: SetupModel, e: SetupEvent) -> (SetupModel, SetupActionModel) {
    match e {
        SetupEvent::Start => (
            SetupModel { stage: SetupStage::AwaitFirstCheck, ..m },
            SetupActionModel::CheckTouchId,
        ),
        SetupEvent::TouchIdActive(active) => if m.stage == SetupStage::AwaitFirstCheck {
            if active {
                (
                    SetupModel { stage: SetupStage::Done, ..m },
                    SetupActionModel::Finish {
                        code: 0,
                        stdout: "vudo: Touch ID for sudo is already enabled.\n"@,
                        stderr: Seq::empty(),
                    },
                )
            } else {
                (SetupModel { stage: SetupStage::AwaitSudoConf, ..m }, SetupActionModel::ReadSudoConf)
            }
        } else if active {
            (
                SetupModel { stage: SetupStage::Done, ..m },
                SetupActionModel::Finish { code: 0, stdout: ENABLED_TEXT@, stderr: Seq::empty() },
            )
        } else {
            (
                SetupModel { stage: SetupStage::Done, ..m },
                SetupActionModel::Finish {
                    code: 1,
                    stdout: Seq::empty(),
                    stderr: still_inactive_text(m.target),
                },
            )
        },
        SetupEvent::SudoConf(conf) => {
            let target = setup_target(conf@);
            let command = setup_command(conf@);
            (
                SetupModel { stage: SetupStage::AwaitElevation, target },
                SetupActionModel::Elevate {
                    command,
                    preview: preview_of(command),
                    announce: announce_text(target),
                },
            )
        },
        SetupEvent::Elevated(code) => if code != 0 {
            (
                SetupModel { stage: SetupStage::Done, ..m },
                SetupActionModel::Finish { code, stdout: Seq::empty(), stderr: Seq::empty() },
            )
        } else {
            (SetupModel { stage: SetupStage::AwaitRecheck, ..m }, SetupActionModel::CheckTouchId)
        },
    }
}

/// What is printed once Touch ID is enabled.
pub const ENABLED_TEXT: &'static str = "\nvudo: Touch ID enabled. Keep this terminal open, then in a NEW terminal\n      run 'sudo -k; sudo -v' \u{2014} you should get the Touch ID sheet.\n      No sheet? tmux/screen, SSH, a closed MacBook lid, and iTerm2's\n      \"sessions survive logging out\" setting all prevent it from showing.\n";

impl TouchIdSetup {
    /// A setup that has not begun.
    pub fn new() -> (s: TouchIdSetup)
        ensures
            s@ == setup_start(),
    {
        TouchIdSetup { stage: SetupStage::Start, target: String::new() }
    }

    /// The stage the setup is in.
    pub fn stage(&self) -> (s: SetupStage)
        ensures
            s == self@.stage,
    {
        self.stage
    }

    /// Takes what the driver reported and decides what comes next.
    pub fn step(&mut self, e: SetupEvent) -> (a: SetupAction)
        requires
            setup_accepts(old(self)@.stage, e),
        ensures
            (final(self)@, a@) == setup_next(old(self)@, e),
    {
        match e {
            SetupEvent::Start => {
                self.stage = SetupStage::AwaitFirstCheck;
                SetupAction::CheckTouchId
            },
            SetupEvent::TouchIdActive(active) => {
                let first = self.stage == SetupStage::AwaitFirstCheck;
                self.stage = if first && !active {
                    SetupStage::AwaitSudoConf
                } else {
                    SetupStage::Done
                };
                if first {
                    if active {
                        SetupAction::Finish {
                            code: 0,
                            stdout: owned("vudo: Touch ID for sudo is already enabled.\n"),
                            stderr: String::new(),
                        }
                    } else {
                        SetupAction::ReadSudoConf
                    }
                } else if active {
                    SetupAction::Finish { code: 0, stdout: owned(ENABLED_TEXT), stderr: String::new() }
                } else {
                    let mut msg = owned("vudo: setup ran, but ");
                    msg.append(self.target.as_str());
                    msg.append(
                        " still has no active pam_tid line;\n      please inspect the file and report a bug.\n",
                    );
                    SetupAction::Finish { code: 1, stdout: String::new(), stderr: msg }
                }
            },
            SetupEvent::SudoConf(conf) => {
                let plan = setup_plan(conf.as_str());
                let pv = preview(plan.command.as_slice());
                assert(args_view(plan.command@) =~= strings_view(plan.command@));
                let mut announce = owned("vudo: this enables Touch ID for sudo by adding to ");
                announce.append(plan.target.as_str());
                announce.append(":\n        ");
                announce.append(TID_LINE);
                announce.append("\n\n");
                self.stage = SetupStage::AwaitElevation;
                self.target = plan.target.clone();
                SetupAction::Elevate { command: plan.command, preview: pv, announce }
            },
            SetupEvent::Elevated(code) => {
                if code != 0 {
                    self.stage = SetupStage::Done;
                    SetupAction::Finish { code, stdout: String::new(), stderr: String::new() }
                } else {
                    self.stage = SetupStage::AwaitRecheck;
                    SetupAction::CheckTouchId
                }
            },
        }
    }
}

/// The actions a setup hands out for the events `es`, starting in `m`.
pub open spec fn setup_trace(m: SetupModel, es: Seq<SetupEvent>) -> Seq<SetupActionModel>
    decreases es.len(),
{
    if es.len() == 0 {
        Seq::empty()
    } else {
        let (m1, a) = setup_next(m, es[0]);
        seq![a] + setup_trace(m1, es.drop_first())
    }
}

/// Every event of `es` is the one the setup waits for when it comes.
pub open spec fn setup_follows(m: SetupModel, es: Seq<SetupEvent>) -> bool
    decreases es.len(),
{
    if es.len() == 0 {
        true
    } else {
        setup_accepts(m.stage, es[0]) && setup_follows(setup_next(m, es[0]).0, es.drop_first())
    }
}

/// Setup is idempotent: when Touch ID is already active at the first
/// check, the setup ends there with exit code 0 and nothing is ever run as
/// root, whatever the events.
pub proof fn already_active_elevates_nothing(es: Seq<SetupEvent>)
    requires
        setup_follows(setup_start(), es),
        es.len() > 1,
        es[1] == SetupEvent::TouchIdActive(true),
    ensures
        es.len() == 2,
        setup_trace(setup_start(), es)[1] == (SetupActionModel::Finish {
            code: 0,
            stdout: "vudo: Touch ID for sudo is already enabled.\n"@,
            stderr: Seq::empty(),
        }),
        forall|j: int| 0 <= j < es.len() ==> !(#[trigger] setup_trace(setup_start(), es)[j] is Elevate),
{
    let m0 = setup_start();
    let (m1, a0) = setup_next(m0, es[0]);
    let es1 = es.drop_first();
    assert(setup_follows(m1, es1));
    let (m2, a1) = setup_next(m1, es1[0]);
    let es2 = es1.drop_first();
    assert(es1[0] == es[1]);
    assert(m2.stage == SetupStage::Done);
    assert(setup_follows(m2, es2));
    if es2.len() > 0 {
        assert(setup_accepts(m2.stage, es2[0]));
    }
    assert(setup_trace(m2, es2) =~= Seq::<SetupActionModel>::empty());
    assert(setup_trace(m1, es1) =~= seq![a1]);
    assert(setup_trace(m0, es) =~= seq![a0, a1]);
}

/// The setup never reports success without a last check: a finish with
/// exit code 0 comes only from a check that found Touch ID active.
pub proof fn success_only_when_active(m: SetupModel, e: SetupEvent)
    requires
        setup_accepts(m.stage, e),
        setup_next(m, e).1 matches SetupActionModel::Finish { code, .. } && code == 0,
    ensures
        e == SetupEvent::TouchIdActive(true),
{
}

/// What one character becomes inside an AppleScript string literal.
pub open spec fn apple_piece(c: char) -> Seq<char> {
    if c == '\\' {
        seq!['\\', '\\']
    } else if c == '"' {
        seq!['\\', '"']
    } else if c == '\r' {
        Seq::empty()
    } else {
        seq![c]
    }
}

/// The AppleScript literal for one line.
pub open spec fn apple_literal(s: Seq<char>) -> Seq<char> {
    seq!['"'] + flat_map(s, |c: char| apple_piece(c)) + seq!['"']
}

/// AppleScript double-quoted string literal for a single line.
pub fn apple_str(s: &str) -> (out: String)
    ensures
        out@ == apple_literal(s@),
{
    let v = chars_of(s);
    let ghost f = |c: char| apple_piece(c);
    let mut out = String::new();
    push_char(&mut out, '"');
    let mut i: usize = 0;
    while i < v.len()
        invariant
            i <= v@.len(),
            f == (|c: char| apple_piece(c)),
            out@ == seq!['"'] + flat_map(v@.take(i as int), f),
        decreases v.len() - i,
    {
        proof {
            lemma_flat_map_step(v@, i as int, f);
        }
        let c = v[i];
        if c == '\\' {
            push_char(&mut out, '\\');
            push_char(&mut out, '\\');
        } else if c == '"' {
            push_char(&mut out, '\\');
            push_char(&mut out, '"');
        } else if c == '\r' {
        } else {
            push_char(&mut out, c);
        }
        i = i + 1;
    }
    push_char(&mut out, '"');
    assert(v@.take(v@.len() as int) == v@);
    out
}

/// How AppleScript reads the inside of a string literal: a backslash takes
/// the next character as it is; the literal ends at an unescaped `"`, which
/// must be the last character.
pub open spec fn apple_read_body(s: Seq<char>) -> Option<Seq<char>>
    decreases s.len(),
{
    if s.len() == 0 {
        None
    } else if s[0] == '"' {
        if s.len() == 1 {
            Some(Seq::empty())
        } else {
            None
        }
    } else if s[0] == '\\' {
        if s.len() < 2 {
            None
        } else {
            match apple_read_body(s.skip(2)) {
                Some(r) => Some(seq![s[1]] + r),
                None => None,
            }
        }
    } else {
        match apple_read_body(s.drop_first()) {
            Some(r) => Some(seq![s[0]] + r),
            None => None,
        }
    }
}

/// How AppleScript reads a string literal.
pub open spec fn apple_read(lit: Seq<char>) -> Option<Seq<char>> {
    if lit.len() > 0 && lit[0] == '"' {
        apple_read_body(lit.drop_first())
    } else {
        None
    }
}

/// `s` without its carriage returns.
pub open spec fn without_cr(s: Seq<char>) -> Seq<char>
    decreases s.len(),
{
    if s.len() == 0 {
        s
    } else if s[0] == '\r' {
        without_cr(s.drop_first())
    } else {
        seq![s[0]] + without_cr(s.drop_first())
    }
}

proof fn lemma_apple_body(s: Seq<char>)
    ensures
        apple_read_body(flat_map(s, |c: char| apple_piece(c)) + seq!['"']) == Some(without_cr(s)),
    decreases s.len(),
{
    let f = |c: char| apple_piece(c);
    if s.len() == 0 {
        assert(flat_map(s, f) + seq!['"'] =~= seq!['"']);
        assert(without_cr(s) =~= Seq::<char>::empty());
    } else {
        let c = s[0];
        let rest = flat_map(s.drop_first(), f) + seq!['"'];
        lemma_apple_body(s.drop_first());
        let t = flat_map(s, f) + seq!['"'];
        assert(t =~= apple_piece(c) + rest);
        if c == '\\' || c == '"' {
            assert(t[0] == '\\');
            assert(t[1] == c);
            assert(t.skip(2) =~= rest);
        } else if c == '\r' {
            assert(t =~= rest);
        } else {
            assert(t[0] == c);
            assert(t.drop_first() =~= rest);
        }
    }
}

/// AppleScript reads the literal back as the line it was made from, less
/// its carriage returns: no character of the line can end the literal early
/// or inject script text.
pub proof fn apple_literal_reads_back(s: Seq<char>)
    ensures
        apple_read(apple_literal(s)) == Some(without_cr(s)),
{
    let lit = apple_literal(s);
    assert(lit.drop_first() =~= flat_map(s, |c: char| apple_piece(c)) + seq!['"']);
    lemma_apple_body(s);
}

/// The lines of `s` as AppleScript literals joined with `& return &`.
pub open spec fn joined_literals(pieces: Seq<Seq<char>>) -> Seq<char>
    decreases pieces.len(),
{
    if pieces.len() == 0 {
        Seq::empty()
    } else if pieces.len() == 1 {
        apple_literal(pieces[0])
    } else {
        joined_literals(pieces.drop_last()) + " & return & "@ + apple_literal(pieces.last())
    }
}

/// The AppleScript expression for `s`.
pub open spec fn apple_text_of(s: Seq<char>) -> Seq<char> {
    joined_literals(split_char(s, '\n'))
}

/// AppleScript expression for a multi-line string: each line becomes a quoted
/// literal joined with `& return &`, so newlines render as actual line breaks.
pub fn apple_text(s: &str) -> (out: String)
    ensures
        out@ == apple_text_of(s@),
{
    let v = chars_of(s);
    let n = v.len();
    let ghost all = split_char(v@, '\n');
    let mut out = String::new();
    let mut i: usize = 0;
    let mut k: usize = 0;
    assert(v@.skip(0) =~= v@);
    loop
        invariant
            n == v@.len(),
            v@ == s@,
            i <= n,
            all == split_char(v@, '\n'),
            k <= all.len(),
            k <= i,
            split_char(v@.skip(i as int), '\n').len() + k == all.len(),
            forall|j: int|
                0 <= j < split_char(v@.skip(i as int), '\n').len() ==> #[trigger] split_char(
                    v@.skip(i as int),
                    '\n',
                )[j] == all[k + j],
            out@ == joined_literals(all.take(k as int)),
        decreases n - i + 1,
    {
        let e = char_end(&v, i, '\n');
        proof {
            lemma_split_step(v@, '\n', i as int, e as int);
        }
        let piece = crate::text::string_of_range(&v, i, e);
        let lit = apple_str(piece.as_str());
        let ghost rest = split_char(v@.skip(i as int), '\n');
        assert(rest[0] == v@.subrange(i as int, e as int));
        assert(all[k as int] == rest[0]);
        assert(all.take(k + 1).drop_last() =~= all.take(k as int));
        if k > 0 {
            out.append(" & return & ");
        } else {
            assert(out@ =~= Seq::<char>::empty());
        }
        out.append(lit.as_str());
        assert(lit@ == apple_literal(all[k as int]));
        assert(all.take(k + 1).last() == all[k as int]);
        assert(out@ == joined_literals(all.take(k + 1)));
        if e == n {
            assert(rest.len() == 1);
            assert(all.take(k + 1) =~= all);
            return out;
        }
        k = k + 1;
        proof {
            let next = split_char(v@.skip(e + 1), '\n');
            assert forall|j: int| 0 <= j < next.len() implies #[trigger] next[j] == all[k + j] by {
                assert(next[j] == rest[j + 1]);
            }
        }
        i = e + 1;
    }
}

/// The `with icon` clause: the brand icon when its file is available, else
/// the stock caution icon.
pub open spec fn icon_clause_text(icon: Option<Seq<char>>) -> Seq<char> {
    match icon {
        Some(p) => "with icon (POSIX file "@ + apple_literal(p) + ")"@,
        None => "with icon caution"@,
    }
}

/// `with icon` clause using the brand icon at `icon` when available, else
/// the stock caution icon.
pub fn icon_clause(icon: Option<&str>) -> (out: String)
    ensures
        out@ == icon_clause_text(match icon {
            Some(p) => Some(p@),
            None => None,
        }),
{
    match icon {
        Some(p) => {
            let mut out = owned("with icon (POSIX file ");
            out.append(apple_str(p).as_str());
            out.append(")");
            out
        },
        None => owned("with icon caution"),
    }
}

/// The preview-only confirmation dialog's script.
pub open spec fn confirm_script_text(msg: Seq<char>, icon: Seq<char>) -> Seq<char> {
    "display dialog "@ + apple_text_of(msg) + " with title \"vudo\" "@ + icon
        + " buttons {\"Cancel\", \"Run as root\"} default button \"Run as root\""@
}

/// The osascript script of the preview-only confirmation dialog (shown
/// ahead of the Touch ID sheet); `icon` is the `with icon` clause.
pub fn confirm_script(preview: &str, caller: &str, interactive: Option<bool>, icon: &str) -> (out:
    String)
    ensures
        out@ == confirm_script_text(info_text(preview@, caller@, interactive), icon@),
{
    let msg = info_block(preview, caller, interactive);
    let mut out = owned("display dialog ");
    out.append(apple_text(msg.as_str()).as_str());
    out.append(" with title \"vudo\" ");
    out.append(icon);
    out.append(" buttons {\"Cancel\", \"Run as root\"} default button \"Run as root\"");
    out
}

/// The password dialog's message.
pub open spec fn password_message(preview: Seq<char>, caller: Seq<char>, interactive: Option<bool>) -> Seq<
    char,
> {
    info_text(preview, caller, interactive) + "\n\nEnter your password to authorize."@
}

/// The password dialog's script.
pub open spec fn password_script_text(msg: Seq<char>, icon: Seq<char>) -> Seq<char> {
    "display dialog "@ + apple_text_of(msg) + " with title \"vudo\" "@ + icon
        + " default answer \"\" with hidden answer buttons {\"Cancel\", \"Run as root\"} default button \"Run as root\"\nreturn text returned of result"@
}

/// The osascript script of the password dialog that also previews the
/// command; `icon` is the `with icon` clause.
pub fn password_script(preview: &str, caller: &str, interactive: Option<bool>, icon: &str) -> (out:
    String)
    ensures
        out@ == password_script_text(password_message(preview@, caller@, interactive), icon@),
{
    let mut msg = info_block(preview, caller, interactive);
    msg.append("\n\nEnter your password to authorize.");
    let mut out = owned("display dialog ");
    out.append(apple_text(msg.as_str()).as_str());
    out.append(" with title \"vudo\" ");
    out.append(icon);
    out.append(
        " default answer \"\" with hidden answer buttons {\"Cancel\", \"Run as root\"} default button \"Run as root\"\nreturn text returned of result",
    );
    out
}

/// `s` without one trailing line feed.
pub open spec fn without_final_lf(s: Seq<char>) -> Seq<char> {
    if s.len() > 0 && s.last() == '\n' {
        s.drop_last()
    } else {
        s
    }
}

/// The password as osascript prints it, less the line feed it ends with.
pub fn dialog_answer(stdout: String) -> (out: String)
    ensures
        out@ == without_final_lf(stdout@),
{
    let v = chars_of(stdout.as_str());
    let n = v.len();
    if n > 0 && v[n - 1] == '\n' {
        let w = subvec(&v, 0, n - 1);
        assert(w@ == v@.drop_last());
        crate::text::string_of(&w)
    } else {
        stdout
    }
}

} // verus!
