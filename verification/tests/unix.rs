use vudo::unix::{
    askpass_request, askpass_script, run_exit, Action, AuthOutcome, Elevation, Event, RunOutcome,
    Stage,
};

fn v(xs: &[&str]) -> Vec<String> {
    xs.iter().map(|s| s.to_string()).collect()
}

fn env(pairs: &[(&str, &str)]) -> Vec<(String, String)> {
    pairs.iter().map(|(k, v)| (k.to_string(), v.to_string())).collect()
}

fn is_finish(a: &Action, code: i32, message: &str) -> bool {
    matches!(a, Action::Finish { code: c, message: m } if *c == code && m == message)
}

#[test]
fn root_runs_the_command_directly() {
    let cmd = v(&["pacman", "-Syu"]);
    let mut e = Elevation::new(&cmd, "pacman -Syu", false, false);
    assert!(matches!(e.step(Event::Start), Action::QueryEuid));
    match e.step(Event::Euid(0)) {
        Action::Run { program, args, env } => {
            assert_eq!(program, "pacman");
            assert_eq!(args, v(&["-Syu"]));
            assert!(env.is_empty());
        }
        _ => panic!("expected Run"),
    }
    assert!(is_finish(&e.step(Event::Ran(RunOutcome::Exited(Some(3)))), 3, ""));
    assert!(e.stage() == Stage::Done);
}

#[test]
fn default_mode_authorizes_fresh_and_clears_after() {
    let cmd = v(&["id"]);
    let mut e = Elevation::new(&cmd, "id", false, false);
    e.step(Event::Start);
    assert!(matches!(e.step(Event::Euid(1000)), Action::CheckCached));
    assert!(matches!(e.step(Event::Cached(false)), Action::ResetTimestamp));
    assert!(matches!(e.step(Event::TimestampReset), Action::Identify));
    assert!(matches!(
        e.step(Event::Identified { caller: "agentd".to_string(), interactive: false }),
        Action::MakeAskpass
    ));
    match e.step(Event::Askpass(Ok("/tmp/vudo-1/askpass".to_string()))) {
        Action::Authorize { env: got } => assert_eq!(
            got,
            env(&[
                ("SUDO_ASKPASS", "/tmp/vudo-1/askpass"),
                ("VUDO_PREVIEW", "id"),
                ("VUDO_CALLER", "agentd"),
                ("VUDO_INTERACTIVE", "0"),
                ("VUDO_CACHE", "0"),
            ])
        ),
        _ => panic!("expected Authorize"),
    }
    match e.step(Event::Authorized(AuthOutcome::Granted)) {
        Action::Run { program, args, env: got } => {
            assert_eq!(program, "sudo");
            assert_eq!(args, v(&["-A", "--", "id"]));
            assert_eq!(got.len(), 5);
        }
        _ => panic!("expected Run"),
    }
    assert!(matches!(e.step(Event::Ran(RunOutcome::Exited(Some(0)))), Action::ResetTimestamp));
    assert!(is_finish(&e.step(Event::TimestampReset), 0, ""));
}

#[test]
fn cache_mode_reuses_a_valid_credential() {
    let cmd = v(&["id"]);
    let mut e = Elevation::new(&cmd, "id", true, false);
    e.step(Event::Start);
    assert!(matches!(e.step(Event::Euid(501)), Action::CheckCached));
    match e.step(Event::Cached(true)) {
        Action::Run { program, args, env } => {
            assert_eq!(program, "sudo");
            assert_eq!(args, v(&["-n", "--", "id"]));
            assert!(env.is_empty());
        }
        _ => panic!("expected Run"),
    }
    assert!(is_finish(&e.step(Event::Ran(RunOutcome::Exited(None))), 1, ""));
}

#[test]
fn default_mode_cached_credential_runs_without_prompt() {
    let cmd = v(&["systemctl", "restart", "nginx"]);
    let mut e = Elevation::new(&cmd, "systemctl restart nginx", false, true);
    assert!(matches!(e.step(Event::Start), Action::QueryEuid));
    assert!(matches!(e.step(Event::Euid(1000)), Action::CheckCached));
    match e.step(Event::Cached(true)) {
        Action::Run { program, args, env } => {
            assert_eq!(program, "sudo");
            assert_eq!(args, v(&["-n", "--", "systemctl", "restart", "nginx"]));
            assert!(env.is_empty());
        }
        _ => panic!("expected Run"),
    }
    assert!(matches!(e.step(Event::Ran(RunOutcome::Exited(Some(4)))), Action::ResetTimestamp));
    assert!(is_finish(&e.step(Event::TimestampReset), 4, ""));
    assert!(e.stage() == Stage::Done);
}

#[test]
fn cache_mode_keeps_the_window_after_a_run() {
    let cmd = v(&["id"]);
    let mut e = Elevation::new(&cmd, "id", true, false);
    e.step(Event::Start);
    e.step(Event::Euid(501));
    assert!(matches!(e.step(Event::Cached(false)), Action::Identify));
    e.step(Event::Identified { caller: "kitty".to_string(), interactive: true });
    match e.step(Event::Askpass(Ok("/a".to_string()))) {
        Action::Authorize { env: got } => {
            assert_eq!(got[3], ("VUDO_INTERACTIVE".to_string(), "1".to_string()));
            assert_eq!(got[4], ("VUDO_CACHE".to_string(), "1".to_string()));
        }
        _ => panic!("expected Authorize"),
    }
    e.step(Event::Authorized(AuthOutcome::Granted));
    assert!(is_finish(&e.step(Event::Ran(RunOutcome::Exited(Some(2)))), 2, ""));
}

#[test]
fn helper_cancel_is_130_with_one_message() {
    let cmd = v(&["id"]);
    let mut e = Elevation::new(&cmd, "id", false, false);
    e.step(Event::Start);
    e.step(Event::Euid(1000));
    e.step(Event::Cached(false));
    e.step(Event::TimestampReset);
    e.step(Event::Identified { caller: "x".to_string(), interactive: true });
    e.step(Event::Askpass(Ok("/a".to_string())));
    let a = e.step(Event::Authorized(AuthOutcome::Refused {
        code: Some(1),
        stderr: "sudo: no password was provided\n".to_string(),
    }));
    assert!(matches!(a, Action::CheckCancelled));
    assert!(matches!(e.step(Event::CancelFlag(true)), Action::ResetTimestamp));
    assert!(is_finish(&e.step(Event::TimestampReset), 130, "vudo: cancelled\n"));
}

#[test]
fn refused_authorization_relays_sudo() {
    let cmd = v(&["id"]);
    let mut e = Elevation::new(&cmd, "id", true, false);
    e.step(Event::Start);
    e.step(Event::Euid(1000));
    e.step(Event::Cached(false));
    e.step(Event::Identified { caller: "x".to_string(), interactive: true });
    e.step(Event::Askpass(Ok("/a".to_string())));
    e.step(Event::Authorized(AuthOutcome::Refused {
        code: None,
        stderr: "sudo: 3 incorrect password attempts\n".to_string(),
    }));
    assert!(is_finish(
        &e.step(Event::CancelFlag(false)),
        1,
        "sudo: 3 incorrect password attempts\n"
    ));
}

#[test]
fn touch_id_confirmation_can_decline() {
    let cmd = v(&["id"]);
    let mut e = Elevation::new(&cmd, "id", false, true);
    e.step(Event::Start);
    e.step(Event::Euid(501));
    e.step(Event::Cached(false));
    e.step(Event::TimestampReset);
    assert!(matches!(
        e.step(Event::Identified { caller: "Terminal".to_string(), interactive: true }),
        Action::CheckTouchId
    ));
    match e.step(Event::TouchId(true)) {
        Action::Confirm { preview, caller, interactive } => {
            assert_eq!(preview, "id");
            assert_eq!(caller, "Terminal");
            assert!(interactive);
        }
        _ => panic!("expected Confirm"),
    }
    assert!(is_finish(&e.step(Event::Confirmed(false)), 130, "vudo: cancelled\n"));
}

#[test]
fn touch_id_off_goes_to_the_password_dialog() {
    let cmd = v(&["id"]);
    let mut e = Elevation::new(&cmd, "id", false, true);
    e.step(Event::Start);
    e.step(Event::Euid(501));
    e.step(Event::Cached(false));
    e.step(Event::TimestampReset);
    e.step(Event::Identified { caller: "Terminal".to_string(), interactive: true });
    assert!(matches!(e.step(Event::TouchId(false)), Action::MakeAskpass));
}

#[test]
fn setup_and_spawn_failures() {
    let cmd = v(&["id"]);
    let mut e = Elevation::new(&cmd, "id", false, false);
    e.step(Event::Start);
    e.step(Event::Euid(1000));
    e.step(Event::Cached(false));
    e.step(Event::TimestampReset);
    e.step(Event::Identified { caller: "x".to_string(), interactive: true });
    assert!(is_finish(
        &e.step(Event::Askpass(Err("permission denied".to_string()))),
        1,
        "vudo: could not set up askpass helper: permission denied\n"
    ));

    let mut e = Elevation::new(&cmd, "id", false, false);
    e.step(Event::Start);
    e.step(Event::Euid(1000));
    e.step(Event::Cached(false));
    e.step(Event::TimestampReset);
    e.step(Event::Identified { caller: "x".to_string(), interactive: true });
    e.step(Event::Askpass(Ok("/a".to_string())));
    assert!(is_finish(
        &e.step(Event::Authorized(AuthOutcome::SpawnFailed("not found".to_string()))),
        127,
        "vudo: failed to run sudo: not found\n"
    ));

    let mut e = Elevation::new(&v(&["nope", "x"]), "nope x", false, false);
    e.step(Event::Start);
    e.step(Event::Euid(0));
    assert!(is_finish(
        &e.step(Event::Ran(RunOutcome::SpawnFailed("No such file".to_string()))),
        127,
        "vudo: failed to run nope: No such file\n"
    ));
}

#[test]
fn run_exit_codes() {
    let (c, m) = run_exit("sudo", RunOutcome::Exited(Some(42)));
    assert_eq!((c, m.as_str()), (42, ""));
    let (c, m) = run_exit("sudo", RunOutcome::Exited(None));
    assert_eq!((c, m.as_str()), (1, ""));
    let (c, m) = run_exit("sudo", RunOutcome::SpawnFailed("gone".to_string()));
    assert_eq!((c, m.as_str()), (127, "vudo: failed to run sudo: gone\n"));
}

#[test]
fn askpass_wrapper_script() {
    assert_eq!(
        askpass_script("/tmp/vudo-7/cancelled", "/opt/my bin/vudo"),
        "#!/bin/sh\nVUDO_CANCEL_FLAG=/tmp/vudo-7/cancelled exec '/opt/my bin/vudo' __askpass \"$@\"\n"
    );
}

#[test]
fn askpass_request_defaults_and_flags() {
    let r = askpass_request(None, None, None, None);
    assert_eq!(r.preview, "a command");
    assert_eq!(r.caller, "unknown");
    assert_eq!(r.interactive, None);
    assert!(!r.cache);
    let r = askpass_request(Some("id"), Some("agentd"), Some("0"), Some("1"));
    assert_eq!(r.preview, "id");
    assert_eq!(r.caller, "agentd");
    assert_eq!(r.interactive, Some(false));
    assert!(r.cache);
    assert_eq!(askpass_request(None, None, Some("1"), Some("yes")).interactive, Some(true));
    assert_eq!(askpass_request(None, None, Some("true"), None).interactive, None);
    assert!(!askpass_request(None, None, None, Some("yes")).cache);
}
