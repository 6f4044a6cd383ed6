use vudo::macos::{
    apple_str, apple_text, confirm_script, dialog_answer, icon_clause, pam_auth_line,
    password_script, setup_plan, tid_script, touch_id_active, SetupAction, SetupEvent,
    SetupStage, TouchIdSetup, ENABLED_TEXT, TID_LINE,
};
use vudo::quote::preview;

const TEMPLATE: &str = "# sudo_local: local config file which survives system update\n\
     # uncomment following line to enable Touch ID for sudo\n\
     #auth       sufficient     pam_tid.so\n";
const VENTURA_SUDO: &str = "# sudo: auth account password session\n\
     auth       sufficient     pam_smartcard.so\n\
     auth       required       pam_opendirectory.so\n\
     account    required       pam_permit.so\n";
const SONOMA_SUDO: &str = "# sudo: auth account password session\n\
     auth       include        sudo_local\n\
     auth       sufficient     pam_smartcard.so\n\
     auth       required       pam_opendirectory.so\n";

#[test]
fn commented_pam_lines_do_not_count() {
    assert!(!pam_auth_line(TEMPLATE, "pam_tid.so"));
    assert!(pam_auth_line(
        &format!("{TEMPLATE}{TID_LINE}\n"),
        "pam_tid.so"
    ));
}

#[test]
fn sudo_local_include_detection() {
    assert!(pam_auth_line(SONOMA_SUDO, "sudo_local"));
    assert!(!pam_auth_line(VENTURA_SUDO, "sudo_local"));
    // a commented-out include doesn't count either
    assert!(!pam_auth_line("#auth include sudo_local\n", "sudo_local"));
}

#[test]
fn indented_auth_lines_count_and_other_types_do_not() {
    assert!(pam_auth_line("   auth sufficient pam_tid.so", "pam_tid.so"));
    assert!(!pam_auth_line("account pam_tid.so\n", "pam_tid.so"));
    assert!(!pam_auth_line("  # auth pam_tid.so\n", "pam_tid.so"));
    assert!(!pam_auth_line("", "pam_tid.so"));
}

#[test]
fn touch_id_detection_follows_the_include() {
    let active_local = format!("{TID_LINE}\n");
    assert!(!touch_id_active(VENTURA_SUDO, Some(&active_local)));
    assert!(touch_id_active(SONOMA_SUDO, Some(&active_local)));
    assert!(!touch_id_active(SONOMA_SUDO, Some(TEMPLATE)));
    assert!(!touch_id_active(SONOMA_SUDO, None));
    assert!(touch_id_active(&format!("{TID_LINE}\n{VENTURA_SUDO}"), None));
}

#[test]
fn setup_targets_sudo_local_only_when_included() {
    let s = setup_plan(SONOMA_SUDO);
    assert_eq!(s.target, "/etc/pam.d/sudo_local");
    assert_eq!(s.command[0], "sh");
    assert_eq!(s.command[1], "-c");
    assert_eq!(s.command[2], tid_script("/etc/pam.d/sudo_local", true));
    let s = setup_plan(VENTURA_SUDO);
    assert_eq!(s.target, "/etc/pam.d/sudo");
    assert_eq!(s.command[2], tid_script("/etc/pam.d/sudo", false));
}

#[test]
fn tid_scripts_text() {
    assert_eq!(
        tid_script("/etc/pam.d/sudo_local", true),
        "grep -qs '^[^#]*pam_tid\\.so' /etc/pam.d/sudo_local || printf '%s\\n' 'auth       sufficient     pam_tid.so' >> /etc/pam.d/sudo_local"
    );
    assert_eq!(
        tid_script("/tmp/a b", false),
        "grep -qs '^[^#]*pam_tid\\.so' '/tmp/a b' || sed -i '' '1i\\\nauth       sufficient     pam_tid.so\n' '/tmp/a b'"
    );
}

#[test]
fn apple_literals_escape_quotes_and_backslashes() {
    assert_eq!(apple_str("say \"hi\" \\ now\r"), "\"say \\\"hi\\\" \\\\ now\"");
    assert_eq!(apple_str(""), "\"\"");
    assert_eq!(apple_text("a\nb"), "\"a\" & return & \"b\"");
    assert_eq!(apple_text(""), "\"\"");
    assert_eq!(apple_text("x\n"), "\"x\" & return & \"\"");
}

#[test]
fn icon_clause_uses_the_brand_icon_when_present() {
    assert_eq!(icon_clause(Some("/c/icon.png")), "with icon (POSIX file \"/c/icon.png\")");
    assert_eq!(icon_clause(None), "with icon caution");
}

#[test]
fn dialog_scripts() {
    assert_eq!(
        confirm_script("id", "kitty", None, "with icon caution"),
        "display dialog \"Run this command as root:\" & return & \"\" & return & \"    id\" & return & \"\" & return & \"Requested by:  kitty\" with title \"vudo\" with icon caution buttons {\"Cancel\", \"Run as root\"} default button \"Run as root\""
    );
    let p = password_script("id", "kitty", None, "with icon caution");
    assert!(p.starts_with("display dialog \"Run this command as root:\""));
    assert!(p.contains("\"Enter your password to authorize.\" with title \"vudo\" with icon caution default answer \"\" with hidden answer"));
    assert!(p.ends_with("default button \"Run as root\"\nreturn text returned of result"));
}

#[test]
fn dialog_answer_drops_one_line_feed() {
    assert_eq!(dialog_answer("pw\n".to_string()), "pw");
    assert_eq!(dialog_answer("pw\n\n".to_string()), "pw\n");
    assert_eq!(dialog_answer("pw".to_string()), "pw");
}

fn is_setup_finish(a: &SetupAction, code: i32, out: &str, err: &str) -> bool {
    matches!(a, SetupAction::Finish { code: c, stdout, stderr }
        if *c == code && stdout == out && stderr == err)
}

#[test]
fn setup_is_idempotent_when_already_active() {
    let mut s = TouchIdSetup::new();
    assert!(matches!(s.step(SetupEvent::Start), SetupAction::CheckTouchId));
    assert!(is_setup_finish(
        &s.step(SetupEvent::TouchIdActive(true)),
        0,
        "vudo: Touch ID for sudo is already enabled.\n",
        ""
    ));
    assert!(s.stage() == SetupStage::Done);
}

#[test]
fn setup_elevates_the_script_then_checks_again() {
    let mut s = TouchIdSetup::new();
    s.step(SetupEvent::Start);
    assert!(matches!(s.step(SetupEvent::TouchIdActive(false)), SetupAction::ReadSudoConf));
    match s.step(SetupEvent::SudoConf(SONOMA_SUDO.to_string())) {
        SetupAction::Elevate { command, preview: pv, announce } => {
            assert_eq!(command, setup_plan(SONOMA_SUDO).command);
            assert_eq!(pv, preview(&command));
            assert_eq!(
                announce,
                format!("vudo: this enables Touch ID for sudo by adding to /etc/pam.d/sudo_local:\n        {TID_LINE}\n\n")
            );
        }
        _ => panic!("expected Elevate"),
    }
    assert!(matches!(s.step(SetupEvent::Elevated(0)), SetupAction::CheckTouchId));
    assert!(is_setup_finish(&s.step(SetupEvent::TouchIdActive(true)), 0, ENABLED_TEXT, ""));
}

#[test]
fn setup_passes_on_a_failed_elevation() {
    let mut s = TouchIdSetup::new();
    s.step(SetupEvent::Start);
    s.step(SetupEvent::TouchIdActive(false));
    s.step(SetupEvent::SudoConf(String::new()));
    assert!(is_setup_finish(&s.step(SetupEvent::Elevated(130)), 130, "", ""));
}

#[test]
fn setup_does_not_trust_exit_zero() {
    let mut s = TouchIdSetup::new();
    s.step(SetupEvent::Start);
    s.step(SetupEvent::TouchIdActive(false));
    match s.step(SetupEvent::SudoConf(VENTURA_SUDO.to_string())) {
        SetupAction::Elevate { command, .. } => {
            assert_eq!(command[2], tid_script("/etc/pam.d/sudo", false))
        }
        _ => panic!("expected Elevate"),
    }
    s.step(SetupEvent::Elevated(0));
    assert!(is_setup_finish(
        &s.step(SetupEvent::TouchIdActive(false)),
        1,
        "",
        "vudo: setup ran, but /etc/pam.d/sudo still has no active pam_tid line;\n      please inspect the file and report a bug.\n"
    ));
}
