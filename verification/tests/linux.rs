use vudo::linux::{
    assuan_decode, assuan_esc, kdialog_args, parse_pinentry, password_body, pinentry_script,
    trim_newline, zenity_args,
};

#[test]
fn single_line_pin_with_space_preserved() {
    assert_eq!(
        parse_pinentry("OK\nD Test%2512 xy\nOK\n").as_deref(),
        Some("Test%12 xy")
    );
}

#[test]
fn continuation_lines_concatenated() {
    assert_eq!(
        parse_pinentry("OK\nD Test%2512\nD  xy\nOK\n").as_deref(),
        Some("Test%12 xy")
    );
}

#[test]
fn leading_space_preserved() {
    assert_eq!(
        parse_pinentry("OK\nD  hunter2\nOK\n").as_deref(),
        Some(" hunter2")
    );
}

#[test]
fn encoded_newline_and_cr_decode() {
    assert_eq!(
        parse_pinentry("OK\nD a%0Ab%0Dc\nOK\n").as_deref(),
        Some("a\nb\rc")
    );
}

#[test]
fn literal_percent_is_not_a_false_escape() {
    // user typed "%0A" as three chars -> pinentry sends %250A
    assert_eq!(parse_pinentry("OK\nD %250A\nOK\n").as_deref(), Some("%0A"));
}

#[test]
fn cancel_returns_none() {
    assert_eq!(parse_pinentry("OK\nERR 83886179 cancelled\n"), None);
}

#[test]
fn esc_decode_round_trips() {
    for v in [
        "p@ss w0rd",
        "100%sure",
        "a\nb",
        "trailing ",
        "  ",
        "quote'd",
    ] {
        assert_eq!(assuan_decode(&assuan_esc(v)), v);
    }
}

#[test]
fn esc_encodes_percent_cr_lf() {
    assert_eq!(assuan_esc("a%b\r\nc"), "a%25b%0D%0Ac");
    assert_eq!(assuan_esc(""), "");
}

#[test]
fn decode_accepts_lower_case_and_replaces_in_turn() {
    assert_eq!(assuan_decode("x%0ay%0dz"), "x\ny\rz");
    assert_eq!(assuan_decode("%%0A"), "%\n");
    assert_eq!(assuan_decode("%2525"), "%25");
}

#[test]
fn crlf_data_lines_and_empty_data() {
    assert_eq!(parse_pinentry("OK\r\nD pw\r\nOK\r\n").as_deref(), Some("pw"));
    assert_eq!(parse_pinentry("D \n").as_deref(), Some(""));
    assert_eq!(parse_pinentry("D pw").as_deref(), Some("pw"));
    assert_eq!(parse_pinentry(""), None);
    assert_eq!(parse_pinentry("DD x\n d x\n"), None);
}

#[test]
fn trim_newline_drops_one_line_ending() {
    assert_eq!(trim_newline("pw\n".to_string()), "pw");
    assert_eq!(trim_newline("pw\r\n".to_string()), "pw");
    assert_eq!(trim_newline("pw\n\n".to_string()), "pw\n");
    assert_eq!(trim_newline("pw\r".to_string()), "pw\r");
    assert_eq!(trim_newline("pw".to_string()), "pw");
}

#[test]
fn dialog_arguments() {
    let body = password_body("id");
    assert_eq!(
        body,
        "vudo will run this command as root:\n\nid\n\nEnter your password to authorize."
    );
    assert_eq!(
        zenity_args("B"),
        vec!["--entry", "--hide-text", "--title=vudo", "--text=B"]
    );
    assert_eq!(kdialog_args("B"), vec!["--title", "vudo", "--password", "B"]);
}

#[test]
fn pinentry_script_escapes_the_body() {
    assert_eq!(
        pinentry_script("a\n100%"),
        "SETTITLE vudo (sudo)\nSETDESC a%0A100%25\nSETPROMPT Password:\nGETPIN\nBYE\n"
    );
}

#[test]
fn escaped_pin_reads_back() {
    for pin in ["", "p w", "%0A", "a\r\nb", "100%"] {
        let reply = format!("OK\nD {}\nOK\n", assuan_esc(pin));
        assert_eq!(parse_pinentry(&reply).as_deref(), Some(pin));
    }
}

#[test]
fn escaped_text_has_no_line_breaks() {
    for v in ["a\nb", "\r\n", "x\ry", "%\n%"] {
        let e = assuan_esc(v);
        assert!(!e.contains('\n') && !e.contains('\r'));
    }
}

use vudo::linux::{PasswordPrompt, PromptAction, PromptEvent, PromptStage};

#[test]
fn prompt_prefers_zenity() {
    let mut p = PasswordPrompt::new("body");
    match p.step(PromptEvent::Start) {
        PromptAction::Probe(prog) => assert_eq!(prog, "zenity"),
        _ => panic!("expected Probe"),
    }
    match p.step(PromptEvent::Present(true)) {
        PromptAction::Capture { program, args } => {
            assert_eq!(program, "zenity");
            assert_eq!(args, vec!["--entry", "--hide-text", "--title=vudo", "--text=body"]);
        }
        _ => panic!("expected Capture"),
    }
    match p.step(PromptEvent::Captured(Some("pw\r\n".to_string()))) {
        PromptAction::Finish { password, message } => {
            assert_eq!(password.as_deref(), Some("pw"));
            assert_eq!(message, "");
        }
        _ => panic!("expected Finish"),
    }
    assert!(p.stage() == PromptStage::Done);
}

#[test]
fn prompt_falls_back_to_kdialog_then_pinentry() {
    let mut p = PasswordPrompt::new("b");
    p.step(PromptEvent::Start);
    match p.step(PromptEvent::Present(false)) {
        PromptAction::Probe(prog) => assert_eq!(prog, "kdialog"),
        _ => panic!("expected Probe"),
    }
    match p.step(PromptEvent::Present(false)) {
        PromptAction::Probe(prog) => assert_eq!(prog, "pinentry-gnome3"),
        _ => panic!("expected Probe"),
    }
    match p.step(PromptEvent::Present(true)) {
        PromptAction::Handshake { program, script } => {
            assert_eq!(program, "pinentry-gnome3");
            assert_eq!(script, "GETINFO version\nBYE\n");
        }
        _ => panic!("expected Handshake"),
    }
    match p.step(PromptEvent::HandshakeOk(false)) {
        PromptAction::Probe(prog) => assert_eq!(prog, "pinentry-qt"),
        _ => panic!("expected Probe"),
    }
    p.step(PromptEvent::Present(true));
    match p.step(PromptEvent::HandshakeOk(true)) {
        PromptAction::AskPin { program, script } => {
            assert_eq!(program, "pinentry-qt");
            assert_eq!(script, pinentry_script("b"));
        }
        _ => panic!("expected AskPin"),
    }
    match p.step(PromptEvent::Replied(Some("OK\nD s%25cret\nOK\n".to_string()))) {
        PromptAction::Finish { password, .. } => assert_eq!(password.as_deref(), Some("s%cret")),
        _ => panic!("expected Finish"),
    }
}

#[test]
fn prompt_gives_up_without_any_dialog() {
    let mut p = PasswordPrompt::new("b");
    p.step(PromptEvent::Start);
    p.step(PromptEvent::Present(false));
    p.step(PromptEvent::Present(false));
    p.step(PromptEvent::Present(false));
    p.step(PromptEvent::Present(false));
    match p.step(PromptEvent::Present(false)) {
        PromptAction::Finish { password, message } => {
            assert_eq!(password, None);
            assert_eq!(
                message,
                "vudo: no graphical password prompt found \u{2014} install zenity or kdialog\n"
            );
        }
        _ => panic!("expected Finish"),
    }
}

#[test]
fn prompt_cancel_gives_no_password() {
    let mut p = PasswordPrompt::new("b");
    p.step(PromptEvent::Start);
    p.step(PromptEvent::Present(false));
    p.step(PromptEvent::Present(true));
    match p.step(PromptEvent::Captured(None)) {
        PromptAction::Finish { password, .. } => assert_eq!(password, None),
        _ => panic!("expected Finish"),
    }
}
