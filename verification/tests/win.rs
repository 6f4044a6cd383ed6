use vudo::unix::RunOutcome;
use vudo::win::{
    caller_from_listing, confirm_script, ps_literal, ps_quote, runas_script, UacAction,
    UacElevation, UacEvent, UacStage,
};

#[test]
fn ps_quoting() {
    assert_eq!(ps_quote("it's"), "'it''s'");
    assert_eq!(ps_quote(""), "''");
    assert_eq!(ps_literal("a'b\r\nc"), "a''b  c");
}

#[test]
fn runas_scripts() {
    assert_eq!(
        runas_script(&["notepad".to_string()]),
        "$p = Start-Process -FilePath 'notepad' -Verb RunAs -PassThru -Wait; exit $p.ExitCode"
    );
    assert_eq!(
        runas_script(&["net".to_string(), "user".to_string(), "o'brien".to_string()]),
        "$p = Start-Process -FilePath 'net' -ArgumentList 'user','o''brien' -Verb RunAs -PassThru -Wait; exit $p.ExitCode"
    );
}

#[test]
fn message_box_script() {
    assert_eq!(
        confirm_script("del x", "it's"),
        "Add-Type -AssemblyName System.Windows.Forms | Out-Null; $r = [System.Windows.Forms.MessageBox]::Show('vudo will run this command as administrator:`n`ndel x`n`nRequested by: it''s`n`nProceed?', 'vudo', 'OKCancel', 'Warning'); if ($r -eq 'OK') { exit 0 } else { exit 1 }"
    );
}

#[test]
fn listing_picks_nearest_non_shell() {
    assert_eq!(caller_from_listing("pwsh.exe\r\n\r\n  Code.exe \r\nexplorer.exe\r\n"), "Code.exe");
    assert_eq!(caller_from_listing(""), "unknown");
    assert_eq!(caller_from_listing("cmd.exe\n"), "cmd.exe");
}

fn uac_finish(a: &UacAction, code: i32, message: &str) -> bool {
    matches!(a, UacAction::Finish { code: c, message: m } if *c == code && m == message)
}

#[test]
fn uac_confirms_before_running() {
    let cmd = vec!["net".to_string(), "stop".to_string(), "spooler".to_string()];
    let mut u = UacElevation::new(&cmd, "net stop spooler");
    assert!(matches!(u.step(UacEvent::Start), UacAction::ListAncestors));
    match u.step(UacEvent::Listed(Some("cmd.exe\nCode.exe\n".to_string()))) {
        UacAction::Confirm { script } => {
            assert_eq!(script, confirm_script("net stop spooler", "Code.exe"))
        }
        _ => panic!("expected Confirm"),
    }
    match u.step(UacEvent::Confirmed(true)) {
        UacAction::RunPowerShell { script } => assert_eq!(script, runas_script(&cmd)),
        _ => panic!("expected RunPowerShell"),
    }
    assert!(uac_finish(&u.step(UacEvent::Ran(RunOutcome::Exited(Some(2)))), 2, ""));
    assert!(u.stage() == UacStage::Done);
}

#[test]
fn uac_decline_is_130() {
    let cmd = vec!["notepad".to_string()];
    let mut u = UacElevation::new(&cmd, "notepad");
    u.step(UacEvent::Start);
    match u.step(UacEvent::Listed(None)) {
        UacAction::Confirm { script } => assert_eq!(script, confirm_script("notepad", "unknown")),
        _ => panic!("expected Confirm"),
    }
    assert!(uac_finish(&u.step(UacEvent::Confirmed(false)), 130, "vudo: cancelled\n"));
}

#[test]
fn uac_exit_codes() {
    let cmd = vec!["notepad".to_string()];
    let mut u = UacElevation::new(&cmd, "notepad");
    u.step(UacEvent::Start);
    u.step(UacEvent::Listed(None));
    u.step(UacEvent::Confirmed(true));
    assert!(uac_finish(&u.step(UacEvent::Ran(RunOutcome::Exited(None))), 1, ""));

    let mut u = UacElevation::new(&cmd, "notepad");
    u.step(UacEvent::Start);
    u.step(UacEvent::Listed(None));
    u.step(UacEvent::Confirmed(true));
    assert!(uac_finish(
        &u.step(UacEvent::Ran(RunOutcome::SpawnFailed("not found".to_string()))),
        127,
        "vudo: failed to launch PowerShell: not found\n"
    ));
}
