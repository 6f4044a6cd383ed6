//! Shared Unix (Linux + macOS) elevation via `sudo -A`.
//!
//! `sudo -A` (askpass) is used rather than `sudo -S` (password on stdin) so
//! the command's stdin/tty stay free — interactive root commands like
//! `pacman -Syu` ("Proceed? [Y/n]") still work. sudo obtains the password by
//! exec'ing a tiny wrapper script that re-invokes this same binary as
//! `__askpass`, which then shows the platform password dialog and prints the
//! password on stdout. When sudo already holds a valid cached credential
//! (`sudo -n true` succeeds), the command runs straight through with no
//! prompt.
//!
//! The decisions of an elevation are an [`Elevation`]: the driver performs
//! each [`Action`] it hands out (a process to run, a check to make) and
//! reports what happened as an [`Event`].

use vstd::prelude::*;
use vstd::string::*;
use crate::quote::{quoted, shell_quote};
use crate::text::{clone_strings, extend_strings, owned, same_chars, strings_view};

verus! {

/// Where an elevation stands.
#[derive(Clone, Copy, PartialEq, Eq, Structural)]
pub enum Stage {
    Start,
    AwaitEuid,
    AwaitCached,
    AwaitCachedRun,
    AwaitFirstReset,
    AwaitDirect,
    AwaitIdentity,
    AwaitTouchId,
    AwaitConfirm,
    AwaitAskpass,
    AwaitAuth,
    AwaitCancelFlag,
    AwaitCommand,
    AwaitFinalReset,
    Done,
}

/// How a process that was asked to run came back.
pub enum RunOutcome {
    /// It ran and exited; `None` when it has no exit code (killed by a signal).
    Exited(Option<i32>),
    /// It could not be started; the error's text.
    SpawnFailed(String),
}

/// How the up-front `sudo -A -v` authorization came back.
pub enum AuthOutcome {
    Granted,
    /// sudo refused: its exit code (if any) and what it wrote to stderr.
    Refused { code: Option<i32>, stderr: String },
    /// sudo could not be started; the error's text.
    SpawnFailed(String),
}

/// What the driver reports back.
pub enum Event {
    /// Begin the elevation.
    Start,
    /// The effective user id.
    Euid(u32),
    /// Whether `sudo -n true` succeeded.
    Cached(bool),
    /// `sudo -k` has been run.
    TimestampReset,
    /// Who invoked vudo, and whether there is a controlling terminal.
    Identified { caller: String, interactive: bool },
    /// Whether Touch ID for sudo is active.
    TouchId(bool),
    /// The answer to the preview confirmation.
    Confirmed(bool),
    /// The askpass wrapper: its path, or why it could not be written.
    Askpass(Result<String, String>),
    /// The result of `sudo -A -v`.
    Authorized(AuthOutcome),
    /// Whether the askpass helper left its cancel flag.
    CancelFlag(bool),
    /// The result of the process of the last `Run` action.
    Ran(RunOutcome),
}

/// What the driver must do next.
pub enum Action {
    /// Report the effective user id (`Event::Euid`).
    QueryEuid,
    /// Run `program` with `args` and the extra environment `env`, stdio
    /// inherited (`Event::Ran`).
    Run { program: String, args: Vec<String>, env: Vec<(String, String)> },
    /// Run `sudo -n true` (`Event::Cached`).
    CheckCached,
    /// Run `sudo -k` (`Event::TimestampReset`).
    ResetTimestamp,
    /// Find the caller and whether there is a controlling terminal
    /// (`Event::Identified`).
    Identify,
    /// Check whether Touch ID for sudo is active (`Event::TouchId`).
    CheckTouchId,
    /// Show the preview and ask to proceed (`Event::Confirmed`).
    Confirm { preview: String, caller: String, interactive: bool },
    /// Write the askpass wrapper (`Event::Askpass`).
    MakeAskpass,
    /// Run `sudo -A -v` with the extra environment `env`, stderr captured
    /// (`Event::Authorized`).
    Authorize { env: Vec<(String, String)> },
    /// Check the askpass helper's cancel flag (`Event::CancelFlag`).
    CheckCancelled,
    /// Write `message` to stderr and exit with `code`.
    Finish { code: i32, message: String },
}

/// The mathematical form of an [`Action`].
pub enum ActionModel {
    QueryEuid,
    Run { program: Seq<char>, args: Seq<Seq<char>>, env: Seq<(Seq<char>, Seq<char>)> },
    CheckCached,
    ResetTimestamp,
    Identify,
    CheckTouchId,
    Confirm { preview: Seq<char>, caller: Seq<char>, interactive: bool },
    MakeAskpass,
    Authorize { env: Seq<(Seq<char>, Seq<char>)> },
    CheckCancelled,
    Finish { code: i32, message: Seq<char> },
}

pub open spec fn env_view(env: Seq<(String, String)>) -> Seq<(Seq<char>, Seq<char>)> {
    env.map_values(|p: (String, String)| (p.0@, p.1@))
}

impl View for Action {
    type V = ActionModel;

    open spec fn view(&self) -> ActionModel {
        match self {
            Action::QueryEuid => ActionModel::QueryEuid,
            Action::Run { program, args, env } => ActionModel::Run {
                program: program@,
                args: strings_view(args@),
                env: env_view(env@),
            },
            Action::CheckCached => ActionModel::CheckCached,
            Action::ResetTimestamp => ActionModel::ResetTimestamp,
            Action::Identify => ActionModel::Identify,
            Action::CheckTouchId => ActionModel::CheckTouchId,
            Action::Confirm { preview, caller, interactive } => ActionModel::Confirm {
                preview: preview@,
                caller: caller@,
                interactive: *interactive,
            },
            Action::MakeAskpass => ActionModel::MakeAskpass,
            Action::Authorize { env } => ActionModel::Authorize { env: env_view(env@) },
            Action::CheckCancelled => ActionModel::CheckCancelled,
            Action::Finish { code, message } => ActionModel::Finish { code: *code, message: message@ },
        }
    }
}

/// The state of one elevation.
pub struct Elevation {
    cmd: Vec<String>,
    preview: String,
    cache: bool,
    touch_id_platform: bool,
    stage: Stage,
    caller: String,
    interactive: bool,
    askpass: String,
    running: String,
    code: i32,
    message: String,
}

/// The mathematical form of an [`Elevation`].
pub struct ElevationModel {
    pub cmd: Seq<Seq<char>>,
    pub preview: Seq<char>,
    pub cache: bool,
    pub touch_id_platform: bool,
    pub stage: Stage,
    pub caller: Seq<char>,
    pub interactive: bool,
    pub askpass: Seq<char>,
    pub running: Seq<char>,
    pub code: i32,
    pub message: Seq<char>,
}

impl View for Elevation {
    type V = ElevationModel;

    closed spec fn view(&self) -> ElevationModel {
        ElevationModel {
            cmd: strings_view(self.cmd@),
            preview: self.preview@,
            cache: self.cache,
            touch_id_platform: self.touch_id_platform,
            stage: self.stage,
            caller: self.caller@,
            interactive: self.interactive,
            askpass: self.askpass@,
            running: self.running@,
            code: self.code,
            message: self.message@,
        }
    }
}

/// `"1"` or `"0"`.
pub open spec fn flag_text(b: bool) -> Seq<char> {
    if b {
        "1"@
    } else {
        "0"@
    }
}

/// The environment handed to sudo: where the askpass helper is, and what the
/// helper shows in its dialog.
pub open spec fn sudo_env(m: ElevationModel) -> Seq<(Seq<char>, Seq<char>)> {
    seq![
        ("SUDO_ASKPASS"@, m.askpass),
        ("VUDO_PREVIEW"@, m.preview),
        ("VUDO_CALLER"@, m.caller),
        ("VUDO_INTERACTIVE"@, flag_text(m.interactive)),
        ("VUDO_CACHE"@, flag_text(m.cache)),
    ]
}

/// The exit code and stderr text for a finished process run as `program`.
pub open spec fn run_result(program: Seq<char>, o: RunOutcome) -> (i32, Seq<char>) {
    match o {
        RunOutcome::Exited(Some(c)) => (c, Seq::empty()),
        RunOutcome::Exited(None) => (1, Seq::empty()),
        RunOutcome::SpawnFailed(e) => (
            127,
            "vudo: failed to run "@ + program + ": "@ + e@ + "\n"@,
        ),
    }
}

/// The event that the elevation waits for in stage `s`.
pub open spec fn accepts(s: Stage, e: Event) -> bool {
    match s {
        Stage::Start => e is Start,
        Stage::AwaitEuid => e is Euid,
        Stage::AwaitCached => e is Cached,
        Stage::AwaitCachedRun => e is Ran,
        Stage::AwaitFirstReset => e is TimestampReset,
        Stage::AwaitDirect => e is Ran,
        Stage::AwaitIdentity => e is Identified,
        Stage::AwaitTouchId => e is TouchId,
        Stage::AwaitConfirm => e is Confirmed,
        Stage::AwaitAskpass => e is Askpass,
        Stage::AwaitAuth => e is Authorized,
        Stage::AwaitCancelFlag => e is CancelFlag,
        Stage::AwaitCommand => e is Ran,
        Stage::AwaitFinalReset => e is TimestampReset,
        Stage::Done => false,
    }
}

/// After the command (or a refused authorization): in the default mode the
/// cached credential is cleared before exiting; in cache mode it is kept.
pub open spec fn wind_up(m: ElevationModel, code: i32, message: Seq<char>) -> (ElevationModel, ActionModel) {
    if m.cache {
        (ElevationModel { stage: Stage::Done, code, message, ..m }, ActionModel::Finish { code, message })
    } else {
        (
            ElevationModel { stage: Stage::AwaitFinalReset, code, message, ..m },
            ActionModel::ResetTimestamp,
        )
    }
}

/// After the caller is known: the preview confirmation where Touch ID may be
/// in use, else the askpass wrapper.
pub open spec fn after_identity(m: ElevationModel) -> (ElevationModel, ActionModel) {
    if m.touch_id_platform {
        (ElevationModel { stage: Stage::AwaitTouchId, ..m }, ActionModel::CheckTouchId)
    } else {
        (ElevationModel { stage: Stage::AwaitAskpass, ..m }, ActionModel::MakeAskpass)
    }
}

/// One decision of an elevation: the next state and action, given what the
/// driver reported.
pub open spec fn next(m: ElevationModel, e: Event) -> (ElevationModel, ActionModel) {
    match e {
        Event::Start => (ElevationModel { stage: Stage::AwaitEuid, ..m }, ActionModel::QueryEuid),
        Event::Euid(uid) => if uid == 0 {
            (
                ElevationModel { stage: Stage::AwaitDirect, running: m.cmd[0], ..m },
                ActionModel::Run { program: m.cmd[0], args: m.cmd.drop_first(), env: Seq::empty() },
            )
        } else {
            (ElevationModel { stage: Stage::AwaitCached, ..m }, ActionModel::CheckCached)
        },
        Event::Cached(ok) => if ok {
            (
                ElevationModel { stage: Stage::AwaitCachedRun, running: "sudo"@, ..m },
                ActionModel::Run { program: "sudo"@, args: seq!["-n"@, "--"@] + m.cmd, env: Seq::empty() },
            )
        } else if m.cache {
            (ElevationModel { stage: Stage::AwaitIdentity, ..m }, ActionModel::Identify)
        } else {
            (ElevationModel { stage: Stage::AwaitFirstReset, ..m }, ActionModel::ResetTimestamp)
        },
        Event::TimestampReset => if m.stage == Stage::AwaitFirstReset {
            (ElevationModel { stage: Stage::AwaitIdentity, ..m }, ActionModel::Identify)
        } else {
            (
                ElevationModel { stage: Stage::Done, ..m },
                ActionModel::Finish { code: m.code, message: m.message },
            )
        },
        Event::Identified { caller, interactive } => after_identity(
            ElevationModel { caller: caller@, interactive, ..m },
        ),
        Event::TouchId(active) => if active {
            (
                ElevationModel { stage: Stage::AwaitConfirm, ..m },
                ActionModel::Confirm { preview: m.preview, caller: m.caller, interactive: m.interactive },
            )
        } else {
            (ElevationModel { stage: Stage::AwaitAskpass, ..m }, ActionModel::MakeAskpass)
        },
        Event::Confirmed(yes) => if yes {
            (ElevationModel { stage: Stage::AwaitAskpass, ..m }, ActionModel::MakeAskpass)
        } else {
            (
                ElevationModel { stage: Stage::Done, code: 130, message: "vudo: cancelled\n"@, ..m },
                ActionModel::Finish { code: 130, message: "vudo: cancelled\n"@ },
            )
        },
        Event::Askpass(r) => match r {
            Ok(path) => {
                let m2 = ElevationModel { stage: Stage::AwaitAuth, askpass: path@, ..m };
                (m2, ActionModel::Authorize { env: sudo_env(m2) })
            },
            Err(err) => {
                let msg = "vudo: could not set up askpass helper: "@ + err@ + "\n"@;
                (
                    ElevationModel { stage: Stage::Done, code: 1, message: msg, ..m },
                    ActionModel::Finish { code: 1, message: msg },
                )
            },
        },
        Event::Authorized(o) => match o {
            AuthOutcome::Granted => (
                ElevationModel { stage: Stage::AwaitCommand, running: "sudo"@, ..m },
                ActionModel::Run { program: "sudo"@, args: seq!["-A"@, "--"@] + m.cmd, env: sudo_env(m) },
            ),
            AuthOutcome::Refused { code, stderr } => (
                ElevationModel {
                    stage: Stage::AwaitCancelFlag,
                    code: match code {
                        Some(c) => c,
                        None => 1,
                    },
                    message: stderr@,
                    ..m
                },
                ActionModel::CheckCancelled,
            ),
            AuthOutcome::SpawnFailed(err) => {
                let msg = "vudo: failed to run sudo: "@ + err@ + "\n"@;
                (
                    ElevationModel { stage: Stage::Done, code: 127, message: msg, ..m },
                    ActionModel::Finish { code: 127, message: msg },
                )
            },
        },
        Event::CancelFlag(cancelled) => if cancelled {
            wind_up(m, 130, "vudo: cancelled\n"@)
        } else {
            wind_up(m, m.code, m.message)
        },
        Event::Ran(o) => {
            let (code, message) = run_result(m.running, o);
            if m.stage == Stage::AwaitDirect {
                (
                    ElevationModel { stage: Stage::Done, code, message, ..m },
                    ActionModel::Finish { code, message },
                )
            } else {
                wind_up(m, code, message)
            }
        },
    }
}


/// The actions an elevation hands out for the events `es`, starting in `m`.
pub open spec fn trace(m: ElevationModel, es: Seq<Event>) -> Seq<ActionModel>
    decreases es.len(),
{
    if es.len() == 0 {
        Seq::empty()
    } else {
        let (m1, a) = next(m, es[0]);
        seq![a] + trace(m1, es.drop_first())
    }
}

/// Every event of `es` is the one the elevation waits for when it comes.
pub open spec fn follows(m: ElevationModel, es: Seq<Event>) -> bool
    decreases es.len(),
{
    if es.len() == 0 {
        true
    } else {
        accepts(m.stage, es[0]) && follows(next(m, es[0]).0, es.drop_first())
    }
}

/// A fresh elevation of `cmd`.
pub open spec fn fresh(m: ElevationModel) -> bool {
    m.stage == Stage::Start && m.cmd.len() > 0
}

/// Runs the command `cmd` through `sudo -A`.
pub open spec fn is_sudo_run(a: ActionModel, cmd: Seq<Seq<char>>) -> bool {
    a matches ActionModel::Run { program, args, .. } && program == "sudo"@ && args == seq![
        "-A"@,
        "--"@,
    ] + cmd
}

/// Runs the command `cmd` through `sudo -n`, on a cached credential.
pub open spec fn is_cached_run(a: ActionModel, cmd: Seq<Seq<char>>) -> bool {
    a matches ActionModel::Run { program, args, .. } && program == "sudo"@ && args == seq![
        "-n"@,
        "--"@,
    ] + cmd
}

/// A reset of sudo's timestamp has already been asked for (default mode).
pub open spec fn reset_asked(s: Stage) -> bool {
    s == Stage::AwaitFirstReset || s == Stage::AwaitIdentity || s == Stage::AwaitTouchId || s
        == Stage::AwaitConfirm || s == Stage::AwaitAskpass || s == Stage::AwaitAuth || s
        == Stage::AwaitCancelFlag || s == Stage::AwaitCommand || s == Stage::AwaitFinalReset
}

proof fn lemma_next_keeps(m: ElevationModel, e: Event)
    ensures
        next(m, e).0.cmd == m.cmd,
        next(m, e).0.cache == m.cache,
        next(m, e).0.touch_id_platform == m.touch_id_platform,
        next(m, e).0.preview == m.preview,
{
}

proof fn lemma_trace_len(m: ElevationModel, es: Seq<Event>)
    ensures
        trace(m, es).len() == es.len(),
    decreases es.len(),
{
    if es.len() > 0 {
        lemma_trace_len(next(m, es[0]).0, es.drop_first());
    }
}

proof fn lemma_authorize_after_reset(m: ElevationModel, es: Seq<Event>, i: int)
    requires
        !m.cache,
        follows(m, es),
        0 <= i < es.len(),
        trace(m, es)[i] is Authorize,
    ensures
        reset_asked(m.stage) || exists|j: int| 0 <= j < i && trace(m, es)[j] == ActionModel::ResetTimestamp,
    decreases es.len(),
{
    lemma_trace_len(m, es);
    let (m1, a) = next(m, es[0]);
    lemma_next_keeps(m, es[0]);
    assert(trace(m, es)[0] == a);
    if i > 0 {
        lemma_trace_len(m1, es.drop_first());
        assert(trace(m, es)[i] == trace(m1, es.drop_first())[i - 1]);
        lemma_authorize_after_reset(m1, es.drop_first(), i - 1);
        if reset_asked(m1.stage) {
            if !reset_asked(m.stage) {
                assert(a == ActionModel::ResetTimestamp);
            }
        } else {
            let j = choose|j: int|
                0 <= j < i - 1 && trace(m1, es.drop_first())[j] == ActionModel::ResetTimestamp;
            assert(trace(m, es)[j + 1] == trace(m1, es.drop_first())[j]);
        }
    }
}

/// Only the authorized run is the command through `sudo -A`.
proof fn lemma_sudo_run_only_from_auth(m: ElevationModel, e: Event)
    requires
        m.cmd.len() > 0,
        accepts(m.stage, e),
        is_sudo_run(next(m, e).1, m.cmd),
    ensures
        m.stage == Stage::AwaitAuth,
        next(m, e).0.stage == Stage::AwaitCommand,
{
    reveal_strlit("-n");
    reveal_strlit("-A");
    let want = seq!["-A"@, "--"@] + m.cmd;
    assert(want.len() == m.cmd.len() + 2);
    assert(want[0] == "-A"@);
    match e {
        Event::Euid(uid) => {
            if uid == 0 {
                assert(m.cmd.drop_first().len() == m.cmd.len() - 1);
            }
        },
        Event::Cached(ok) => {
            if ok {
                let got = seq!["-n"@, "--"@] + m.cmd;
                assert(got[0] == "-n"@);
                assert("-n"@ != "-A"@) by {
                    assert("-n"@[1] != "-A"@[1]);
                }
            }
        },
        _ => {},
    }
}

/// Only a valid cached credential leads to the command through `sudo -n`.
proof fn lemma_cached_run_only_from_check(m: ElevationModel, e: Event)
    requires
        m.cmd.len() > 0,
        accepts(m.stage, e),
        is_cached_run(next(m, e).1, m.cmd),
    ensures
        m.stage == Stage::AwaitCached,
        next(m, e).0.stage == Stage::AwaitCachedRun,
{
    reveal_strlit("-n");
    reveal_strlit("-A");
    let want = seq!["-n"@, "--"@] + m.cmd;
    assert(want.len() == m.cmd.len() + 2);
    assert(want[0] == "-n"@);
    match e {
        Event::Euid(uid) => {
            if uid == 0 {
                assert(m.cmd.drop_first().len() == m.cmd.len() - 1);
            }
        },
        Event::Authorized(o) => {
            if o is Granted {
                let got = seq!["-A"@, "--"@] + m.cmd;
                assert(got[0] == "-A"@);
                assert("-n"@ != "-A"@) by {
                    assert("-n"@[1] != "-A"@[1]);
                }
            }
        },
        _ => {},
    }
}

proof fn lemma_sudo_run_after_authorize(m: ElevationModel, es: Seq<Event>, i: int)
    requires
        m.cmd.len() > 0,
        follows(m, es),
        0 <= i < es.len(),
        is_sudo_run(trace(m, es)[i], m.cmd),
    ensures
        (i == 0 && m.stage == Stage::AwaitAuth) || exists|k: int|
            0 <= k < i && trace(m, es)[k] is Authorize,
    decreases es.len(),
{
    lemma_trace_len(m, es);
    let (m1, a) = next(m, es[0]);
    lemma_next_keeps(m, es[0]);
    assert(trace(m, es)[0] == a);
    if i == 0 {
        lemma_sudo_run_only_from_auth(m, es[0]);
    } else {
        lemma_trace_len(m1, es.drop_first());
        assert(trace(m, es)[i] == trace(m1, es.drop_first())[i - 1]);
        lemma_sudo_run_after_authorize(m1, es.drop_first(), i - 1);
        if i - 1 == 0 && m1.stage == Stage::AwaitAuth {
            assert(a is Authorize);
        } else {
            let k = choose|k: int| 0 <= k < i - 1 && trace(m1, es.drop_first())[k] is Authorize;
            assert(trace(m, es)[k + 1] == trace(m1, es.drop_first())[k]);
        }
    }
}

/// Every command without a valid cached credential is authorized on its
/// own: in the default mode, before the command runs through `sudo -A`
/// (which happens only once `sudo -n true` has failed), sudo's timestamp is
/// cleared and a fresh authorization (`sudo -A -v`) is asked for, in that
/// order.
pub proof fn fresh_authorization_before_run(m: ElevationModel, es: Seq<Event>, i: int)
    requires
        fresh(m),
        !m.cache,
        follows(m, es),
        0 <= i < es.len(),
        is_sudo_run(trace(m, es)[i], m.cmd),
    ensures
        exists|j: int, k: int|
            0 <= j < k < i && trace(m, es)[j] == ActionModel::ResetTimestamp && trace(m, es)[k] is Authorize,
{
    lemma_sudo_run_after_authorize(m, es, i);
    let k = choose|k: int| 0 <= k < i && trace(m, es)[k] is Authorize;
    lemma_authorize_after_reset(m, es, k);
    let j = choose|j: int| 0 <= j < k && trace(m, es)[j] == ActionModel::ResetTimestamp;
    assert(0 <= j < k < i && trace(m, es)[j] == ActionModel::ResetTimestamp && trace(m, es)[k] is Authorize);
}

proof fn lemma_reset_before_finish_from_command(m: ElevationModel, es: Seq<Event>)
    requires
        !m.cache,
        m.stage == Stage::AwaitCommand || m.stage == Stage::AwaitCachedRun,
        follows(m, es),
        es.len() > 0,
        trace(m, es).last() is Finish,
    ensures
        trace(m, es)[0] == ActionModel::ResetTimestamp,
        es.len() > 1,
{
    lemma_trace_len(m, es);
    let (m1, a) = next(m, es[0]);
    assert(trace(m, es)[0] == a);
    assert(a == ActionModel::ResetTimestamp);
}

/// No credential window is left open: in the default mode, once the command
/// has run through sudo (on a fresh authorization or on a cached
/// credential), sudo's cached credential is cleared again before vudo exits.
pub proof fn reset_after_run(m: ElevationModel, es: Seq<Event>, i: int)
    requires
        m.cmd.len() > 0,
        !m.cache,
        follows(m, es),
        0 <= i < es.len(),
        is_sudo_run(trace(m, es)[i], m.cmd) || is_cached_run(trace(m, es)[i], m.cmd),
        trace(m, es).last() is Finish,
    ensures
        exists|r: int| i < r < es.len() - 1 && trace(m, es)[r] == ActionModel::ResetTimestamp,
    decreases es.len(),
{
    lemma_trace_len(m, es);
    let (m1, a) = next(m, es[0]);
    lemma_next_keeps(m, es[0]);
    assert(trace(m, es)[0] == a);
    let rest = es.drop_first();
    lemma_trace_len(m1, rest);
    if i == 0 {
        if is_sudo_run(trace(m, es)[i], m.cmd) {
            lemma_sudo_run_only_from_auth(m, es[0]);
        } else {
            lemma_cached_run_only_from_check(m, es[0]);
        }
        assert(rest.len() > 0);
        assert(trace(m1, rest).last() == trace(m, es).last());
        lemma_reset_before_finish_from_command(m1, rest);
        assert(trace(m, es)[1] == trace(m1, rest)[0]);
    } else {
        assert(trace(m, es)[i] == trace(m1, rest)[i - 1]);
        assert(trace(m1, rest).last() == trace(m, es).last());
        reset_after_run(m1, rest, i - 1);
        let r = choose|r: int| i - 1 < r < rest.len() - 1 && trace(m1, rest)[r] == ActionModel::ResetTimestamp;
        assert(trace(m, es)[r + 1] == trace(m1, rest)[r]);
    }
}

/// The processes an elevation runs: the command itself when already root,
/// or the command behind `sudo -n --` or `sudo -A --`.
pub open spec fn runs_the_command(a: ActionModel, cmd: Seq<Seq<char>>) -> bool {
    match a {
        ActionModel::Run { program, args, env } => {
            ||| program == cmd[0] && args == cmd.drop_first() && env.len() == 0
            ||| program == "sudo"@ && args == seq!["-n"@, "--"@] + cmd && env.len() == 0
            ||| program == "sudo"@ && args == seq!["-A"@, "--"@] + cmd
        },
        _ => true,
    }
}

/// Every process the elevation asks to run is the requested command, run
/// exactly as given (no argument dropped, added or altered), either directly
/// or behind `sudo -n --` or `sudo -A --`.
pub proof fn only_the_command_runs(m: ElevationModel, es: Seq<Event>, i: int)
    requires
        0 <= i < es.len(),
    ensures
        runs_the_command(trace(m, es)[i], m.cmd),
    decreases es.len(),
{
    lemma_trace_len(m, es);
    let (m1, a) = next(m, es[0]);
    lemma_next_keeps(m, es[0]);
    assert(trace(m, es)[0] == a);
    if i > 0 {
        lemma_trace_len(m1, es.drop_first());
        assert(trace(m, es)[i] == trace(m1, es.drop_first())[i - 1]);
        only_the_command_runs(m1, es.drop_first(), i - 1);
    }
}

/// The state after the events `es`, starting in `m`.
pub open spec fn after(m: ElevationModel, es: Seq<Event>) -> ElevationModel
    decreases es.len(),
{
    if es.len() == 0 {
        m
    } else {
        after(next(m, es[0]).0, es.drop_first())
    }
}

proof fn lemma_split(m: ElevationModel, es: Seq<Event>, i: int)
    requires
        0 <= i <= es.len(),
    ensures
        trace(m, es) == trace(m, es.take(i)) + trace(after(m, es.take(i)), es.skip(i)),
        follows(m, es) ==> follows(after(m, es.take(i)), es.skip(i)),
    decreases i,
{
    if i == 0 {
        assert(es.take(0) =~= Seq::<Event>::empty());
        assert(es.skip(0) =~= es);
        assert(trace(m, es.take(0)) =~= Seq::<ActionModel>::empty());
        assert(trace(m, es) =~= trace(m, es.take(0)) + trace(m, es));
    } else {
        let m1 = next(m, es[0]).0;
        let rest = es.drop_first();
        lemma_split(m1, rest, i - 1);
        assert(es.take(i).drop_first() =~= rest.take(i - 1));
        assert(es.take(i)[0] == es[0]);
        assert(rest.skip(i - 1) =~= es.skip(i));
        assert(trace(m, es.take(i)) == seq![next(m, es[0]).1] + trace(m1, rest.take(i - 1)));
        assert(trace(m, es) =~= trace(m, es.take(i)) + trace(after(m, es.take(i)), es.skip(i)));
    }
}

/// An action that shows the user something or asks for a password: the
/// preview confirmation, the askpass helper, or `sudo -A -v`.
pub open spec fn prompts(a: ActionModel) -> bool {
    a is Confirm || a is MakeAskpass || a is Authorize
}

/// A valid cached credential runs straight through: when `sudo -n true`
/// succeeds, the command runs through `sudo -n --` exactly as given, and no
/// dialog is shown nor the askpass helper set up at any point.
pub proof fn cached_credential_runs_without_prompt(m: ElevationModel, es: Seq<Event>)
    requires
        fresh(m),
        follows(m, es),
        es.len() > 2,
        es[2] == Event::Cached(true),
    ensures
        trace(m, es)[0] == ActionModel::QueryEuid,
        trace(m, es)[1] == ActionModel::CheckCached,
        trace(m, es)[2] == (ActionModel::Run {
            program: "sudo"@,
            args: seq!["-n"@, "--"@] + m.cmd,
            env: Seq::empty(),
        }),
        forall|j: int| 0 <= j < es.len() ==> !prompts(#[trigger] trace(m, es)[j]),
{
    lemma_trace_len(m, es);
    let (m1, a0) = next(m, es[0]);
    let es1 = es.drop_first();
    let (m2, a1) = next(m1, es1[0]);
    let es2 = es1.drop_first();
    assert(es2[0] == es[2]);
    assert(follows(m1, es1));
    assert(follows(m2, es2));
    assert(accepts(m2.stage, es2[0]));
    let (m3, a2) = next(m2, es2[0]);
    let es3 = es2.drop_first();
    assert(m3.stage == Stage::AwaitCachedRun);
    assert(follows(m3, es3));
    let t3 = trace(m3, es3);
    lemma_trace_len(m3, es3);
    assert(trace(m2, es2) == seq![a2] + t3);
    assert(trace(m1, es1) == seq![a1] + trace(m2, es2));
    assert(trace(m, es) == seq![a0] + trace(m1, es1));
    assert forall|j: int| 0 <= j < t3.len() implies !prompts(#[trigger] t3[j]) by {
        let (m4, a3) = next(m3, es3[0]);
        let es4 = es3.drop_first();
        assert(t3[0] == a3);
        assert(accepts(m3.stage, es3[0]));
        assert(follows(m4, es4));
        if j > 0 {
            assert(es4.len() > 0);
            assert(accepts(m4.stage, es4[0]));
            assert(t3[j] == trace(m4, es4)[j - 1]);
            lemma_trace_len(m4, es4);
            let (m5, a4) = next(m4, es4[0]);
            assert(trace(m4, es4)[0] == a4);
            if j > 1 {
                assert(m4.stage == Stage::AwaitFinalReset);
                assert(m5.stage == Stage::Done);
                assert(follows(m5, es4.drop_first()));
                assert(es4.drop_first().len() > 0);
                assert(accepts(m5.stage, es4.drop_first()[0]));
            }
        }
    }
    assert forall|j: int| 0 <= j < es.len() implies !prompts(#[trigger] trace(m, es)[j]) by {
        if j >= 3 {
            assert(trace(m, es)[j] == t3[j - 3]);
        }
    }
}

proof fn lemma_after_keeps(m: ElevationModel, es: Seq<Event>)
    ensures
        after(m, es).cmd == m.cmd,
    decreases es.len(),
{
    if es.len() > 0 {
        lemma_next_keeps(m, es[0]);
        lemma_after_keeps(next(m, es[0]).0, es.drop_first());
    }
}

/// Accepting the preview confirmation goes on to the authorization: the
/// answer is met by setting up the askpass helper, never by finishing, and
/// once the helper is set up and `sudo -A -v` grants the authorization, the
/// command runs through `sudo -A --` exactly as given.
pub proof fn confirming_goes_on_to_authorize(m: ElevationModel, es: Seq<Event>, i: int)
    requires
        follows(m, es),
        0 <= i < es.len(),
        es[i] == Event::Confirmed(true),
    ensures
        trace(m, es)[i] == ActionModel::MakeAskpass,
        i + 2 < es.len() && es[i + 1] is Askpass && es[i + 1]->Askpass_0 is Ok && es[i + 2]
            == Event::Authorized(AuthOutcome::Granted) ==> is_sudo_run(trace(m, es)[i + 2], m.cmd),
{
    lemma_split(m, es, i);
    let mi = after(m, es.take(i));
    let tail = es.skip(i);
    lemma_trace_len(m, es.take(i));
    lemma_trace_len(mi, tail);
    lemma_after_keeps(m, es.take(i));
    assert(tail[0] == es[i]);
    let (m1, a0) = next(mi, tail[0]);
    let t1 = tail.drop_first();
    assert(trace(mi, tail) == seq![a0] + trace(m1, t1));
    assert(trace(m, es)[i] == trace(mi, tail)[0]);
    if i + 2 < es.len() && es[i + 1] is Askpass && es[i + 1]->Askpass_0 is Ok && es[i + 2]
        == Event::Authorized(AuthOutcome::Granted) {
        assert(t1[0] == es[i + 1]);
        let (m2, a1) = next(m1, t1[0]);
        let t2 = t1.drop_first();
        assert(t2[0] == es[i + 2]);
        lemma_trace_len(m1, t1);
        lemma_trace_len(m2, t2);
        assert(trace(m1, t1) == seq![a1] + trace(m2, t2));
        let (m3, a2) = next(m2, t2[0]);
        assert(trace(m2, t2) == seq![a2] + trace(m3, t2.drop_first()));
        assert(m2.cmd == m.cmd);
        assert(trace(m, es)[i + 2] == trace(mi, tail)[2]);
        assert(trace(mi, tail)[2] == a2);
    }
}

/// Where Touch ID stands in for the password dialog, the preview is shown
/// first: an active Touch ID is answered by asking to confirm exactly the
/// preview, with the caller and terminal status that were found.
pub proof fn touch_id_shows_the_preview_first(m: ElevationModel, es: Seq<Event>, i: int)
    requires
        follows(m, es),
        0 <= i < es.len(),
        es[i] == Event::TouchId(true),
    ensures
        trace(m, es)[i] == (ActionModel::Confirm {
            preview: m.preview,
            caller: after(m, es.take(i)).caller,
            interactive: after(m, es.take(i)).interactive,
        }),
{
    lemma_split(m, es, i);
    let mi = after(m, es.take(i));
    let tail = es.skip(i);
    lemma_trace_len(m, es.take(i));
    lemma_after_preview(m, es.take(i));
    assert(tail[0] == es[i]);
    assert(trace(mi, tail) == seq![next(mi, tail[0]).1] + trace(next(mi, tail[0]).0, tail.drop_first()));
    assert(trace(m, es)[i] == trace(mi, tail)[0]);
}

proof fn lemma_after_preview(m: ElevationModel, es: Seq<Event>)
    ensures
        after(m, es).preview == m.preview,
    decreases es.len(),
{
    if es.len() > 0 {
        lemma_next_keeps(m, es[0]);
        lemma_after_preview(next(m, es[0]).0, es.drop_first());
    }
}

/// Declining the preview confirmation ends the elevation with exit code
/// 130 and nothing more is run.
pub proof fn decline_exits_130(m: ElevationModel, es: Seq<Event>, i: int)
    requires
        follows(m, es),
        0 <= i < es.len(),
        es[i] == Event::Confirmed(false),
    ensures
        i == es.len() - 1,
        trace(m, es)[i] == (ActionModel::Finish { code: 130, message: "vudo: cancelled\n"@ }),
{
    lemma_split(m, es, i);
    let mi = after(m, es.take(i));
    let tail = es.skip(i);
    assert(tail[0] == es[i]);
    lemma_trace_len(m, es.take(i));
    assert(trace(m, es)[i] == trace(mi, tail)[0]);
    if es.len() > i + 1 {
        assert(follows(next(mi, tail[0]).0, tail.drop_first()));
        assert(tail.drop_first()[0] == es[i + 1]);
    }
}

/// A cancel reported by the askpass helper ends the elevation with exit
/// code 130 and a single cancel message.
pub proof fn helper_cancel_exits_130(m: ElevationModel, es: Seq<Event>, i: int)
    requires
        follows(m, es),
        0 <= i < es.len(),
        es[i] == Event::CancelFlag(true),
        trace(m, es).last() is Finish,
    ensures
        trace(m, es).last() == (ActionModel::Finish { code: 130, message: "vudo: cancelled\n"@ }),
{
    lemma_split(m, es, i);
    let mi = after(m, es.take(i));
    let tail = es.skip(i);
    assert(tail[0] == es[i]);
    lemma_trace_len(m, es.take(i));
    lemma_trace_len(mi, tail);
    let (m1, a) = next(mi, tail[0]);
    assert(trace(mi, tail)[0] == a);
    assert(trace(m, es).last() == trace(mi, tail).last());
    let rest = tail.drop_first();
    assert(follows(mi, tail));
    assert(follows(m1, rest));
    if rest.len() > 0 {
        assert(accepts(m1.stage, rest[0]));
        assert(!m1.cache);
        assert(m1.stage == Stage::AwaitFinalReset);
        assert(rest[0] is TimestampReset);
        let (m2, a2) = next(m1, rest[0]);
        assert(m2.stage == Stage::Done);
        lemma_trace_len(m1, rest);
        if rest.len() > 1 {
            assert(follows(m2, rest.drop_first()));
            assert(rest.drop_first()[0] == rest[1]);
            assert(accepts(m2.stage, rest[1]));
        }
        assert(trace(m1, rest)[0] == a2);
        assert(trace(mi, tail)[1] == a2);
    }
}

/// The askpass wrapper: a `#!/bin/sh` script that re-invokes vudo as
/// `__askpass` with the path of its cancel flag in the environment.
pub open spec fn askpass_script_text(cancel_flag: Seq<char>, exe: Seq<char>) -> Seq<char> {
    "#!/bin/sh\nVUDO_CANCEL_FLAG="@ + quoted(cancel_flag) + " exec "@ + quoted(exe)
        + " __askpass \"$@\"\n"@
}

/// The text of the askpass wrapper for the cancel flag at `cancel_flag` and
/// the vudo binary at `exe`.
pub fn askpass_script(cancel_flag: &str, exe: &str) -> (out: String)
    ensures
        out@ == askpass_script_text(cancel_flag@, exe@),
{
    let mut out = owned("#!/bin/sh\nVUDO_CANCEL_FLAG=");
    out.append(shell_quote(cancel_flag).as_str());
    out.append(" exec ");
    out.append(shell_quote(exe).as_str());
    out.append(" __askpass \"$@\"\n");
    out
}

/// What the askpass helper shows, from the environment sudo passes on.
pub struct AskpassRequest {
    pub preview: String,
    pub caller: String,
    pub interactive: Option<bool>,
    pub cache: bool,
}

/// The interactivity flag: `"1"`, `"0"`, or unknown.
pub open spec fn interactive_of(v: Option<Seq<char>>) -> Option<bool> {
    match v {
        Some(t) => if t == "1"@ {
            Some(true)
        } else if t == "0"@ {
            Some(false)
        } else {
            None
        },
        None => None,
    }
}

pub open spec fn view_opt(v: Option<&str>) -> Option<Seq<char>> {
    match v {
        Some(t) => Some(t@),
        None => None,
    }
}

/// Reads the askpass request from `VUDO_PREVIEW`, `VUDO_CALLER`,
/// `VUDO_INTERACTIVE` and `VUDO_CACHE` (each `None` when unset or not
/// Unicode).
pub fn askpass_request(
    preview: Option<&str>,
    caller: Option<&str>,
    interactive: Option<&str>,
    cache: Option<&str>,
) -> (r: AskpassRequest)
    ensures
        r.preview@ == match preview {
            Some(p) => p@,
            None => "a command"@,
        },
        r.caller@ == match caller {
            Some(c) => c@,
            None => "unknown"@,
        },
        r.interactive == interactive_of(view_opt(interactive)),
        r.cache == (view_opt(cache) == Some("1"@)),
{
    let preview = match preview {
        Some(p) => owned(p),
        None => owned("a command"),
    };
    let caller = match caller {
        Some(c) => owned(c),
        None => owned("unknown"),
    };
    let interactive = match interactive {
        Some(t) => if same_chars(t, "1") {
            Some(true)
        } else if same_chars(t, "0") {
            Some(false)
        } else {
            None
        },
        None => None,
    };
    let cache = match cache {
        Some(t) => same_chars(t, "1"),
        None => false,
    };
    AskpassRequest { preview, caller, interactive, cache }
}

/// The exit code and stderr text for a process run as `program`: its own
/// exit code, 1 when it has none, 127 when it could not be started.
pub fn run_exit(program: &str, o: RunOutcome) -> (r: (i32, String))
    ensures
        (r.0, r.1@) == run_result(program@, o),
{
    match o {
        RunOutcome::Exited(Some(c)) => (c, String::new()),
        RunOutcome::Exited(None) => (1, String::new()),
        RunOutcome::SpawnFailed(err) => {
            let mut t = message4("vudo: failed to run ", program, ": ", err.as_str());
            t.append("\n");
            (127, t)
        },
    }
}

fn flag(b: bool) -> (out: String)
    ensures
        out@ == flag_text(b),
{
    if b {
        owned("1")
    } else {
        owned("0")
    }
}

fn env_pair(k: &str, v: &str) -> (out: (String, String))
    ensures
        out.0@ == k@,
        out.1@ == v@,
{
    (owned(k), owned(v))
}

/// `prefix` followed by a copy of `cmd`.
fn sudo_args(a: &str, b: &str, cmd: &Vec<String>) -> (out: Vec<String>)
    ensures
        strings_view(out@) == seq![a@, b@] + strings_view(cmd@),
{
    let mut out: Vec<String> = Vec::new();
    out.push(owned(a));
    out.push(owned(b));
    proof {
        assert(strings_view(out@) =~= seq![a@, b@]);
    }
    extend_strings(&mut out, cmd.as_slice(), 0);
    assert(strings_view(cmd@).skip(0) == strings_view(cmd@));
    out
}

/// `"vudo: " + a + b + "\n"`-style messages: the concatenation of four parts.
fn message4(a: &str, b: &str, c: &str, d: &str) -> (out: String)
    ensures
        out@ == a@ + b@ + c@ + d@,
{
    let mut out = owned(a);
    out.append(b);
    out.append(c);
    out.append(d);
    out
}

fn message3(a: &str, b: &str, c: &str) -> (out: String)
    ensures
        out@ == a@ + b@ + c@,
{
    let mut out = owned(a);
    out.append(b);
    out.append(c);
    out
}

impl Elevation {
    /// A new elevation of `cmd` (previewed as `preview`). A valid cached
    /// credential is used in either mode; `cache` also keeps sudo's
    /// credential window after the run instead of clearing it; `touch_id_platform`
    /// tells whether Touch ID may stand in for the password dialog.
    pub fn new(cmd: &[String], preview: &str, cache: bool, touch_id_platform: bool) -> (out:
        Elevation)
        requires
            cmd@.len() > 0,
        ensures
            out@ == (ElevationModel {
                cmd: strings_view(cmd@),
                preview: preview@,
                cache,
                touch_id_platform,
                stage: Stage::Start,
                caller: Seq::empty(),
                interactive: false,
                askpass: Seq::empty(),
                running: Seq::empty(),
                code: 0,
                message: Seq::empty(),
            }),
    {
        Elevation {
            cmd: clone_strings(cmd),
            preview: owned(preview),
            cache,
            touch_id_platform,
            stage: Stage::Start,
            caller: String::new(),
            interactive: false,
            askpass: String::new(),
            running: String::new(),
            code: 0,
            message: String::new(),
        }
    }

    /// The stage the elevation is in.
    pub fn stage(&self) -> (s: Stage)
        ensures
            s == self@.stage,
    {
        self.stage
    }

    fn env(&self) -> (out: Vec<(String, String)>)
        ensures
            env_view(out@) == sudo_env(self@),
    {
        let mut out: Vec<(String, String)> = Vec::new();
        out.push(env_pair("SUDO_ASKPASS", self.askpass.as_str()));
        out.push(env_pair("VUDO_PREVIEW", self.preview.as_str()));
        out.push(env_pair("VUDO_CALLER", self.caller.as_str()));
        let i = flag(self.interactive);
        out.push(env_pair("VUDO_INTERACTIVE", i.as_str()));
        let c = flag(self.cache);
        out.push(env_pair("VUDO_CACHE", c.as_str()));
        assert(env_view(out@) =~= sudo_env(self@));
        out
    }

    fn finish(&mut self, code: i32, message: String) -> (a: Action)
        ensures
            final(self)@ == (ElevationModel { stage: Stage::Done, code, message: message@, ..old(self)@ }),
            a@ == (ActionModel::Finish { code, message: message@ }),
    {
        self.stage = Stage::Done;
        self.code = code;
        self.message = message.clone();
        Action::Finish { code, message }
    }

    fn wind_up(&mut self, code: i32, message: String) -> (a: Action)
        ensures
            (final(self)@, a@) == wind_up(old(self)@, code, message@),
    {
        if self.cache {
            self.finish(code, message)
        } else {
            self.stage = Stage::AwaitFinalReset;
            self.code = code;
            self.message = message;
            Action::ResetTimestamp
        }
    }

    /// Takes what the driver reported and decides what comes next.
    pub fn step(&mut self, e: Event) -> (a: Action)
        requires
            old(self)@.cmd.len() > 0,
            accepts(old(self)@.stage, e),
        ensures
            (final(self)@, a@) == next(old(self)@, e),
            final(self)@.cmd == old(self)@.cmd,
    {
        let ghost m = self@;
        match e {
            Event::Start => {
                self.stage = Stage::AwaitEuid;
                Action::QueryEuid
            },
            Event::Euid(uid) => {
                if uid == 0 {
                    self.stage = Stage::AwaitDirect;
                    self.running = self.cmd[0].clone();
                    let mut args: Vec<String> = Vec::new();
                    extend_strings(&mut args, self.cmd.as_slice(), 1);
                    assert(strings_view(args@) =~= m.cmd.drop_first());
                    let env: Vec<(String, String)> = Vec::new();
                    assert(env_view(env@) =~= Seq::empty());
                    Action::Run { program: self.cmd[0].clone(), args, env }
                } else {
                    self.stage = Stage::AwaitCached;
                    Action::CheckCached
                }
            },
            Event::Cached(ok) => {
                if ok {
                    self.stage = Stage::AwaitCachedRun;
                    self.running = owned("sudo");
                    let args = sudo_args("-n", "--", &self.cmd);
                    let env: Vec<(String, String)> = Vec::new();
                    assert(env_view(env@) =~= Seq::empty());
                    Action::Run { program: owned("sudo"), args, env }
                } else if self.cache {
                    self.stage = Stage::AwaitIdentity;
                    Action::Identify
                } else {
                    self.stage = Stage::AwaitFirstReset;
                    Action::ResetTimestamp
                }
            },
            Event::TimestampReset => {
                if self.stage == Stage::AwaitFirstReset {
                    self.stage = Stage::AwaitIdentity;
                    Action::Identify
                } else {
                    let msg = self.message.clone();
                    self.finish(self.code, msg)
                }
            },
            Event::Identified { caller, interactive } => {
                self.caller = caller;
                self.interactive = interactive;
                if self.touch_id_platform {
                    self.stage = Stage::AwaitTouchId;
                    Action::CheckTouchId
                } else {
                    self.stage = Stage::AwaitAskpass;
                    Action::MakeAskpass
                }
            },
            Event::TouchId(active) => {
                if active {
                    self.stage = Stage::AwaitConfirm;
                    Action::Confirm {
                        preview: self.preview.clone(),
                        caller: self.caller.clone(),
                        interactive: self.interactive,
                    }
                } else {
                    self.stage = Stage::AwaitAskpass;
                    Action::MakeAskpass
                }
            },
            Event::Confirmed(yes) => {
                if yes {
                    self.stage = Stage::AwaitAskpass;
                    Action::MakeAskpass
                } else {
                    self.finish(130, owned("vudo: cancelled\n"))
                }
            },
            Event::Askpass(r) => {
                match r {
                    Ok(path) => {
                        self.stage = Stage::AwaitAuth;
                        self.askpass = path;
                        Action::Authorize { env: self.env() }
                    },
                    Err(err) => {
                        let msg = message3("vudo: could not set up askpass helper: ", err.as_str(), "\n");
                        self.finish(1, msg)
                    },
                }
            },
            Event::Authorized(o) => {
                match o {
                    AuthOutcome::Granted => {
                        self.stage = Stage::AwaitCommand;
                        self.running = owned("sudo");
                        let args = sudo_args("-A", "--", &self.cmd);
                        Action::Run { program: owned("sudo"), args, env: self.env() }
                    },
                    AuthOutcome::Refused { code, stderr } => {
                        self.stage = Stage::AwaitCancelFlag;
                        self.code = match code {
                            Some(c) => c,
                            None => 1,
                        };
                        self.message = stderr;
                        Action::CheckCancelled
                    },
                    AuthOutcome::SpawnFailed(err) => {
                        let msg = message3("vudo: failed to run sudo: ", err.as_str(), "\n");
                        self.finish(127, msg)
                    },
                }
            },
            Event::CancelFlag(cancelled) => {
                if cancelled {
                    self.wind_up(130, owned("vudo: cancelled\n"))
                } else {
                    let msg = self.message.clone();
                    self.wind_up(self.code, msg)
                }
            },
            Event::Ran(o) => {
                let (code, message) = run_exit(self.running.as_str(), o);
                if self.stage == Stage::AwaitDirect {
                    self.finish(code, message)
                } else {
                    self.wind_up(code, message)
                }
            },
        }
    }
}

} // verus!
