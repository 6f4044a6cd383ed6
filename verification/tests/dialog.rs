use vudo::dialog::info_block;

#[test]
fn interactive_shows_terminal() {
    let b = info_block("id", "cosmic-term", Some(true));
    assert!(b.contains("    id"), "command is indented on its own line");
    assert!(b.contains("cosmic-term"));
    assert!(b.contains("interactive terminal"));
}

#[test]
fn automation_is_flagged() {
    let b = info_block("id", "agentd", Some(false));
    assert!(b.contains("agentd"));
    assert!(b.contains("automation"));
    assert!(
        b.contains('\u{26a0}'),
        "automation is marked with a warning sign"
    );
}

#[test]
fn unknown_interactivity_just_names_actor() {
    let b = info_block("id", "agentd", None);
    assert!(b.contains("Requested by:  agentd"));
    assert!(!b.contains("terminal"));
}

#[test]
fn info_block_exact_layout() {
    assert_eq!(
        info_block("rm -rf 'a b'", "agentd", Some(false)),
        "Run this command as root:\n\n    rm -rf 'a b'\n\nRequested by:  \u{26a0} agentd  \u{00b7} no terminal (automation)"
    );
    assert_eq!(
        info_block("id", "kitty", Some(true)),
        "Run this command as root:\n\n    id\n\nRequested by:  kitty  \u{00b7} interactive terminal"
    );
}
