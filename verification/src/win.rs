//! Windows elevation via UAC.
//!
//! There is no `sudo` on Windows, so elevation is requested through
//! PowerShell's `Start-Process -Verb RunAs`, which triggers the UAC
//! consent/credential prompt on the secure desktop. Because the elevated
//! process is separate and UAC can't display the command text, the preview is
//! shown as a message box first. The decisions of an elevation are a
//! [`UacElevation`]; this module also writes the PowerShell scripts and reads
//! the caller listing. Running PowerShell is the driver's part.

use vstd::prelude::*;
use vstd::string::*;
use crate::caller::{pick, picked};
use crate::unix::RunOutcome;
use crate::text::{
    chars_of, clone_strings, flat_map, lemma_flat_map_step, lemma_lines_step, line_at, line_end, lines, owned,
    push_char, string_of_range, strings_view, trim, trim_bounds,
};

verus! {

/// What one character becomes inside a PowerShell single-quoted string.
pub open spec fn ps_piece(c: char) -> Seq<char> {
    if c == '\'' {
        seq!['\'', '\'']
    } else {
        seq![c]
    }
}

/// The PowerShell single-quoted literal for `s`.
pub open spec fn ps_quoted(s: Seq<char>) -> Seq<char> {
    seq!['\''] + flat_map(s, |c: char| ps_piece(c)) + seq!['\'']
}

/// PowerShell single-quoted string literal (doubles embedded single quotes).
pub fn ps_quote(s: &str) -> (out: String)
    ensures
        out@ == ps_quoted(s@),
{
    let v = chars_of(s);
    let ghost f = |c: char| ps_piece(c);
    let mut out = String::new();
    push_char(&mut out, '\'');
    let mut i: usize = 0;
    while i < v.len()
        invariant
            i <= v@.len(),
            f == (|c: char| ps_piece(c)),
            out@ == seq!['\''] + flat_map(v@.take(i as int), f),
        decreases v.len() - i,
    {
        proof {
            lemma_flat_map_step(v@, i as int, f);
        }
        let c = v[i];
        if c == '\'' {
            push_char(&mut out, '\'');
            push_char(&mut out, '\'');
        } else {
            push_char(&mut out, c);
        }
        i = i + 1;
    }
    push_char(&mut out, '\'');
    assert(v@.take(v@.len() as int) == v@);
    out
}

/// How PowerShell reads the inside of a single-quoted string: `''` stands
/// for one quote, and a lone `'` ends the string, which must then be over.
pub open spec fn ps_read_body(s: Seq<char>) -> Option<Seq<char>>
    decreases s.len(),
{
    if s.len() == 0 {
        None
    } else if s[0] == '\'' {
        if s.len() == 1 {
            Some(Seq::empty())
        } else if s[1] == '\'' {
            match ps_read_body(s.skip(2)) {
                Some(r) => Some(seq!['\''] + r),
                None => None,
            }
        } else {
            None
        }
    } else {
        match ps_read_body(s.drop_first()) {
            Some(r) => Some(seq![s[0]] + r),
            None => None,
        }
    }
}

/// How PowerShell reads a single-quoted string literal.
pub open spec fn ps_read(lit: Seq<char>) -> Option<Seq<char>> {
    if lit.len() > 0 && lit[0] == '\'' {
        ps_read_body(lit.drop_first())
    } else {
        None
    }
}

proof fn lemma_ps_body(s: Seq<char>)
    ensures
        ps_read_body(flat_map(s, |c: char| ps_piece(c)) + seq!['\'']) == Some(s),
    decreases s.len(),
{
    let f = |c: char| ps_piece(c);
    if s.len() == 0 {
        assert(flat_map(s, f) + seq!['\''] =~= seq!['\'']);
        assert(s =~= Seq::<char>::empty());
    } else {
        let c = s[0];
        let rest = flat_map(s.drop_first(), f) + seq!['\''];
        lemma_ps_body(s.drop_first());
        let t = flat_map(s, f) + seq!['\''];
        assert(t =~= ps_piece(c) + rest);
        assert(seq![c] + s.drop_first() =~= s);
        if c == '\'' {
            assert(t[0] == '\'' && t[1] == '\'');
            assert(t.len() > 1);
            assert(t.skip(2) =~= rest);
        } else {
            assert(t[0] == c);
            assert(t.drop_first() =~= rest);
        }
    }
}

/// PowerShell reads the quoted literal back as exactly the original text:
/// no argument can end its string early or inject script.
pub proof fn ps_quote_reads_back(s: Seq<char>)
    ensures
        ps_read(ps_quoted(s)) == Some(s),
{
    let lit = ps_quoted(s);
    assert(lit.drop_first() =~= flat_map(s, |c: char| ps_piece(c)) + seq!['\'']);
    lemma_ps_body(s);
}

/// What one character becomes inside the message box text: quotes doubled,
/// line breaks turned into spaces.
pub open spec fn ps_literal_piece(c: char) -> Seq<char> {
    if c == '\'' {
        seq!['\'', '\'']
    } else if c == '\r' || c == '\n' {
        seq![' ']
    } else {
        seq![c]
    }
}

/// The text of `s` for embedding inside an existing single-quoted string.
pub open spec fn ps_literal_of(s: Seq<char>) -> Seq<char> {
    flat_map(s, |c: char| ps_literal_piece(c))
}

/// Escape a value for embedding inside an existing single-quoted PS string.
pub fn ps_literal(s: &str) -> (out: String)
    ensures
        out@ == ps_literal_of(s@),
{
    let v = chars_of(s);
    let ghost f = |c: char| ps_literal_piece(c);
    let mut out = String::new();
    let mut i: usize = 0;
    while i < v.len()
        invariant
            i <= v@.len(),
            f == (|c: char| ps_literal_piece(c)),
            out@ == flat_map(v@.take(i as int), f),
        decreases v.len() - i,
    {
        proof {
            lemma_flat_map_step(v@, i as int, f);
        }
        let c = v[i];
        if c == '\'' {
            push_char(&mut out, '\'');
            push_char(&mut out, '\'');
        } else if c == '\r' || c == '\n' {
            push_char(&mut out, ' ');
        } else {
            push_char(&mut out, c);
        }
        i = i + 1;
    }
    assert(v@.take(v@.len() as int) == v@);
    out
}

/// PowerShell literals joined by commas.
pub open spec fn ps_list(args: Seq<Seq<char>>) -> Seq<char>
    decreases args.len(),
{
    if args.len() == 0 {
        Seq::empty()
    } else if args.len() == 1 {
        ps_quoted(args[0])
    } else {
        ps_list(args.drop_last()) + seq![','] + ps_quoted(args.last())
    }
}

/// The script that starts `cmd` elevated and exits with its exit code.
pub open spec fn runas_script_text(cmd: Seq<Seq<char>>) -> Seq<char> {
    if cmd.len() > 1 {
        "$p = Start-Process -FilePath "@ + ps_quoted(cmd[0]) + " -ArgumentList "@ + ps_list(
            cmd.drop_first(),
        ) + " -Verb RunAs -PassThru -Wait; exit $p.ExitCode"@
    } else {
        "$p = Start-Process -FilePath "@ + ps_quoted(cmd[0])
            + " -Verb RunAs -PassThru -Wait; exit $p.ExitCode"@
    }
}

/// The PowerShell script that runs `cmd` through `Start-Process -Verb RunAs`.
pub fn runas_script(cmd: &[String]) -> (out: String)
    requires
        cmd@.len() > 0,
    ensures
        out@ == runas_script_text(strings_view(cmd@)),
{
    let ghost names = strings_view(cmd@);
    let mut out = owned("$p = Start-Process -FilePath ");
    out.append(ps_quote(cmd[0].as_str()).as_str());
    assert(names[0] == cmd@[0]@);
    if cmd.len() > 1 {
        out.append(" -ArgumentList ");
        let ghost head = out@;
        let ghost rest = names.drop_first();
        let mut list = String::new();
        let mut i: usize = 1;
        while i < cmd.len()
            invariant
                1 <= i <= cmd@.len(),
                names == strings_view(cmd@),
                rest == names.drop_first(),
                list@ == ps_list(rest.take(i - 1)),
            decreases cmd.len() - i,
        {
            assert(rest[i - 1] == cmd@[i as int]@);
            assert(rest.take(i as int).drop_last() =~= rest.take(i - 1));
            if i > 1 {
                push_char(&mut list, ',');
            } else {
                assert(list@ =~= Seq::<char>::empty());
            }
            list.append(ps_quote(cmd[i].as_str()).as_str());
            i = i + 1;
        }
        assert(rest.take(cmd@.len() - 1) =~= rest);
        out.append(list.as_str());
        out.append(" -Verb RunAs -PassThru -Wait; exit $p.ExitCode");
    } else {
        out.append(" -Verb RunAs -PassThru -Wait; exit $p.ExitCode");
    }
    out
}

/// The message box text.
pub open spec fn confirm_message(preview: Seq<char>, caller: Seq<char>) -> Seq<char> {
    "vudo will run this command as administrator:`n`n"@ + ps_literal_of(preview)
        + "`n`nRequested by: "@ + ps_literal_of(caller) + "`n`nProceed?"@
}

/// The script of the preview message box; it exits 0 on OK.
pub open spec fn confirm_script_text(preview: Seq<char>, caller: Seq<char>) -> Seq<char> {
    "Add-Type -AssemblyName System.Windows.Forms | Out-Null; $r = [System.Windows.Forms.MessageBox]::Show('"@
        + confirm_message(preview, caller)
        + "', 'vudo', 'OKCancel', 'Warning'); if ($r -eq 'OK') { exit 0 } else { exit 1 }"@
}

/// The PowerShell script of the message box that shows the preview before
/// UAC.
pub fn confirm_script(preview: &str, caller: &str) -> (out: String)
    ensures
        out@ == confirm_script_text(preview@, caller@),
{
    let mut out = owned(
        "Add-Type -AssemblyName System.Windows.Forms | Out-Null; $r = [System.Windows.Forms.MessageBox]::Show('",
    );
    out.append("vudo will run this command as administrator:`n`n");
    out.append(ps_literal(preview).as_str());
    out.append("`n`nRequested by: ");
    out.append(ps_literal(caller).as_str());
    out.append("`n`nProceed?");
    out.append("', 'vudo', 'OKCancel', 'Warning'); if ($r -eq 'OK') { exit 0 } else { exit 1 }");
    out
}

/// The names in a listing of ancestors, one per line: each line trimmed,
/// empty ones dropped.
pub open spec fn listed_names(ls: Seq<Seq<char>>) -> Seq<Seq<char>>
    decreases ls.len(),
{
    if ls.len() == 0 {
        Seq::empty()
    } else {
        (if trim(ls[0]).len() == 0 {
            Seq::empty()
        } else {
            seq![trim(ls[0])]
        }) + listed_names(ls.drop_first())
    }
}

/// The caller from PowerShell's listing of vudo's ancestors (parent first,
/// one name per line): the nearest non-shell, as [`pick`] chooses.
pub fn caller_from_listing(listing: &str) -> (out: String)
    ensures
        out@ == picked(listed_names(lines(listing@))),
{
    let v = chars_of(listing);
    let n = v.len();
    let mut names: Vec<String> = Vec::new();
    let mut i: usize = 0;
    assert(v@.skip(0) == v@);
    assert(strings_view(names@) =~= Seq::<Seq<char>>::empty());
    while i < n
        invariant
            n == v@.len(),
            v@ == listing@,
            i <= n,
            listed_names(lines(v@)) == strings_view(names@) + listed_names(lines(v@.skip(i as int))),
        decreases n - i,
    {
        let e = line_end(&v, i);
        let line = line_at(&v, i, e);
        proof {
            lemma_lines_step(v@, i as int, e as int);
        }
        let ghost rest = if e < n {
            lines(v@.skip(e + 1))
        } else {
            Seq::empty()
        };
        assert(lines(v@.skip(i as int)) == seq![line@] + rest);
        assert((seq![line@] + rest).drop_first() == rest);
        assert((seq![line@] + rest)[0] == line@);
        let (a, b) = trim_bounds(&line, 0, line.len());
        assert(line@.subrange(0, line@.len() as int) == line@);
        if a < b {
            let ghost before = strings_view(names@);
            let name = string_of_range(&line, a, b);
            names.push(name);
            assert(strings_view(names@) =~= before + seq![trim(line@)]);
        }
        if e < n {
            i = e + 1;
        } else {
            assert(v@.skip(n as int) =~= Seq::<char>::empty());
            assert(rest =~= lines(v@.skip(n as int)));
            i = n;
        }
    }
    assert(v@.skip(n as int) =~= Seq::<char>::empty());
    assert(strings_view(names@) =~= listed_names(lines(v@)));
    pick(names.as_slice())
}

/// Where a UAC elevation stands.
#[derive(Clone, Copy, PartialEq, Eq, Structural)]
pub enum UacStage {
    Start,
    AwaitListing,
    AwaitConfirm,
    AwaitRun,
    Done,
}

/// What the driver reports back to a UAC elevation.
pub enum UacEvent {
    /// Begin.
    Start,
    /// PowerShell's listing of vudo's ancestors, parent first, or `None` when
    /// it could not be had.
    Listed(Option<String>),
    /// Whether the preview message box was answered with OK.
    Confirmed(bool),
    /// How the elevating PowerShell came back.
    Ran(RunOutcome),
}

/// What the driver must do next for a UAC elevation.
pub enum UacAction {
    /// List vudo's ancestors through PowerShell (`UacEvent::Listed`).
    ListAncestors,
    /// Run the message box `script` and report whether it exited 0
    /// (`UacEvent::Confirmed`).
    Confirm { script: String },
    /// Run `script` in PowerShell, stdio inherited (`UacEvent::Ran`).
    RunPowerShell { script: String },
    /// Write `message` to stderr and exit with `code`.
    Finish { code: i32, message: String },
}

/// The mathematical form of a [`UacAction`].
pub enum UacActionModel {
    ListAncestors,
    Confirm { script: Seq<char> },
    RunPowerShell { script: Seq<char> },
    Finish { code: i32, message: Seq<char> },
}

impl View for UacAction {
    type V = UacActionModel;

    open spec fn view(&self) -> UacActionModel {
        match self {
            UacAction::ListAncestors => UacActionModel::ListAncestors,
            UacAction::Confirm { script } => UacActionModel::Confirm { script: script@ },
            UacAction::RunPowerShell { script } => UacActionModel::RunPowerShell { script: script@ },
            UacAction::Finish { code, message } => UacActionModel::Finish { code: *code, message: message@ },
        }
    }
}

/// Elevation on Windows: the preview in a message box first, then UAC
/// through `Start-Process -Verb RunAs`; only the exit code comes back.
pub struct UacElevation {
    cmd: Vec<String>,
    preview: String,
    stage: UacStage,
}

/// The mathematical form of a [`UacElevation`].
pub struct UacModel {
    pub cmd: Seq<Seq<char>>,
    pub preview: Seq<char>,
    pub stage: UacStage,
}

impl View for UacElevation {
    type V = UacModel;

    closed spec fn view(&self) -> UacModel {
        UacModel { cmd: strings_view(self.cmd@), preview: self.preview@, stage: self.stage }
    }
}

/// The event a UAC elevation waits for in stage `s`.
pub open spec fn uac_accepts(s: UacStage, e: UacEvent) -> bool {
    match s {
        UacStage::Start => e is Start,
        UacStage::AwaitListing => e is Listed,
        UacStage::AwaitConfirm => e is Confirmed,
        UacStage::AwaitRun => e is Ran,
        UacStage::Done => false,
    }
}

/// The caller shown in the message box: from the listing, or `unknown`.
pub open spec fn listed_caller(listing: Option<Seq<char>>) -> Seq<char> {
    match listing {
        Some(l) => picked(listed_names(lines(l))),
        None => "unknown"@,
    }
}

/// The exit code and stderr text once PowerShell came back: the elevated
/// command's exit code, 1 when there is none, 127 when PowerShell could not
/// be started.
pub open spec fn uac_result(o: RunOutcome) -> (i32, Seq<char>) {
    match o {
        RunOutcome::Exited(Some(c)) => (c, Seq::empty()),
        RunOutcome::Exited(None) => (1, Seq::empty()),
        RunOutcome::SpawnFailed(e) => (127, "vudo: failed to launch PowerShell: "@ + e@ + "\n"@),
    }
}

/// One decision of a UAC elevation.
pub open spec fn uac_next(m: UacModel, e: UacEvent) -> (UacModel, UacActionModel) {
    match e {
        UacEvent::Start => (UacModel { stage: UacStage::AwaitListing, ..m }, UacActionModel::ListAncestors),
        UacEvent::Listed(l) => (
            UacModel { stage: UacStage::AwaitConfirm, ..m },
            UacActionModel::Confirm {
                script: confirm_script_text(
                    m.preview,
                    listed_caller(
                        match l {
                            Some(t) => Some(t@),
                            None => None,
                        },
                    ),
                ),
            },
        ),
        UacEvent::Confirmed(yes) => if yes {
            (
                UacModel { stage: UacStage::AwaitRun, ..m },
                UacActionModel::RunPowerShell { script: runas_script_text(m.cmd) },
            )
        } else {
            (
                UacModel { stage: UacStage::Done, ..m },
                UacActionModel::Finish { code: 130, message: "vudo: cancelled\n"@ },
            )
        },
        UacEvent::Ran(o) => {
            let (code, message) = uac_result(o);
            (UacModel { stage: UacStage::Done, ..m }, UacActionModel::Finish { code, message })
        },
    }
}

impl UacElevation {
    /// A new elevation of `cmd`, previewed as `preview`.
    pub fn new(cmd: &[String], preview: &str) -> (u: UacElevation)
        requires
            cmd@.len() > 0,
        ensures
            u@ == (UacModel { cmd: strings_view(cmd@), preview: preview@, stage: UacStage::Start }),
    {
        UacElevation { cmd: clone_strings(cmd), preview: owned(preview), stage: UacStage::Start }
    }

    /// The stage the elevation is in.
    pub fn stage(&self) -> (s: UacStage)
        ensures
            s == self@.stage,
    {
        self.stage
    }

    /// Takes what the driver reported and decides what comes next.
    pub fn step(&mut self, e: UacEvent) -> (a: UacAction)
        requires
            old(self)@.cmd.len() > 0,
            uac_accepts(old(self)@.stage, e),
        ensures
            (final(self)@, a@) == uac_next(old(self)@, e),
            final(self)@.cmd.len() > 0,
    {
        match e {
            UacEvent::Start => {
                self.stage = UacStage::AwaitListing;
                UacAction::ListAncestors
            },
            UacEvent::Listed(l) => {
                let caller = match l {
                    Some(t) => caller_from_listing(t.as_str()),
                    None => owned("unknown"),
                };
                self.stage = UacStage::AwaitConfirm;
                UacAction::Confirm { script: confirm_script(self.preview.as_str(), caller.as_str()) }
            },
            UacEvent::Confirmed(yes) => {
                if yes {
                    self.stage = UacStage::AwaitRun;
                    UacAction::RunPowerShell { script: runas_script(self.cmd.as_slice()) }
                } else {
                    self.stage = UacStage::Done;
                    UacAction::Finish { code: 130, message: owned("vudo: cancelled\n") }
                }
            },
            UacEvent::Ran(o) => {
                self.stage = UacStage::Done;
                match o {
                    RunOutcome::Exited(Some(c)) => UacAction::Finish { code: c, message: String::new() },
                    RunOutcome::Exited(None) => UacAction::Finish { code: 1, message: String::new() },
                    RunOutcome::SpawnFailed(err) => {
                        let mut msg = owned("vudo: failed to launch PowerShell: ");
                        msg.append(err.as_str());
                        msg.append("\n");
                        UacAction::Finish { code: 127, message: msg }
                    },
                }
            },
        }
    }
}

/// The actions a UAC elevation hands out for the events `es`, starting in `m`.
pub open spec fn uac_trace(m: UacModel, es: Seq<UacEvent>) -> Seq<UacActionModel>
    decreases es.len(),
{
    if es.len() == 0 {
        Seq::empty()
    } else {
        let (m1, a) = uac_next(m, es[0]);
        seq![a] + uac_trace(m1, es.drop_first())
    }
}

/// Every event of `es` is the one the elevation waits for when it comes.
pub open spec fn uac_follows(m: UacModel, es: Seq<UacEvent>) -> bool
    decreases es.len(),
{
    if es.len() == 0 {
        true
    } else {
        uac_accepts(m.stage, es[0]) && uac_follows(uac_next(m, es[0]).0, es.drop_first())
    }
}

proof fn lemma_uac_trace_len(m: UacModel, es: Seq<UacEvent>)
    ensures
        uac_trace(m, es).len() == es.len(),
    decreases es.len(),
{
    if es.len() > 0 {
        lemma_uac_trace_len(uac_next(m, es[0]).0, es.drop_first());
    }
}

/// Nothing runs before the preview is confirmed: the elevating PowerShell
/// is started only in answer to an OK on the preview message box, and
/// declining ends the elevation with exit code 130 and nothing run.
pub proof fn nothing_runs_unconfirmed(m: UacModel, es: Seq<UacEvent>, i: int)
    requires
        uac_follows(m, es),
        0 <= i < es.len(),
    ensures
        uac_trace(m, es)[i] is RunPowerShell ==> es[i] == UacEvent::Confirmed(true),
        es[i] == UacEvent::Confirmed(false) ==> i == es.len() - 1 && uac_trace(m, es)[i] == (
        UacActionModel::Finish { code: 130, message: "vudo: cancelled\n"@ }),
    decreases es.len(),
{
    lemma_uac_trace_len(m, es);
    let (m1, a) = uac_next(m, es[0]);
    let rest = es.drop_first();
    assert(uac_trace(m, es)[0] == a);
    assert(uac_follows(m1, rest));
    if i == 0 {
        if es[0] == UacEvent::Confirmed(false) && rest.len() > 0 {
            assert(m1.stage == UacStage::Done);
            assert(uac_accepts(m1.stage, rest[0]));
        }
    } else {
        assert(uac_trace(m, es)[i] == uac_trace(m1, rest)[i - 1]);
        assert(rest[i - 1] == es[i]);
        nothing_runs_unconfirmed(m1, rest, i - 1);
    }
}


} // verus!
