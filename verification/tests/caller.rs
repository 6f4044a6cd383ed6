use vudo::caller::{comm_name, is_shell, pick, ps_comm_name, ps_ppid, stat_ppid, Walk};

fn v(xs: &[&str]) -> Vec<String> {
    xs.iter().map(|s| s.to_string()).collect()
}

#[test]
fn picks_first_non_shell() {
    assert_eq!(pick(&v(&["zsh", "agentd", "zsh", "cosmic-term"])), "agentd");
}

#[test]
fn manual_run_shows_terminal() {
    assert_eq!(pick(&v(&["zsh", "cosmic-term"])), "cosmic-term");
}

#[test]
fn login_shell_dash_prefix_is_a_shell() {
    assert_eq!(pick(&v(&["-zsh", "sshd"])), "sshd");
}

#[test]
fn windows_exe_shells_skipped() {
    assert_eq!(pick(&v(&["powershell.exe", "node.exe"])), "node.exe");
}

#[test]
fn all_shells_falls_back_to_immediate_parent() {
    assert_eq!(pick(&v(&["bash", "zsh"])), "bash");
}

#[test]
fn empty_is_unknown() {
    assert_eq!(pick(&[]), "unknown");
}

#[test]
fn shell_names_ignore_case_dashes_and_exe() {
    assert!(is_shell("BASH"));
    assert!(is_shell("--zsh"));
    assert!(is_shell("CMD.EXE"));
    assert!(is_shell("pwsh.exe"));
    assert!(!is_shell("bash.exe.exe"));
    assert!(!is_shell("zshx"));
    assert!(!is_shell(""));
    assert!(!is_shell("sudo"));
}

#[test]
fn comm_contents_are_trimmed() {
    assert_eq!(comm_name("agentd\n").as_deref(), Some("agentd"));
    assert_eq!(comm_name("  \n"), None);
    assert_eq!(comm_name(""), None);
}

#[test]
fn ps_comm_keeps_the_basename() {
    assert_eq!(ps_comm_name("/usr/bin/zsh\n").as_deref(), Some("zsh"));
    assert_eq!(ps_comm_name(" node \n").as_deref(), Some("node"));
    assert_eq!(ps_comm_name("/usr/bin/\n").as_deref(), Some(""));
    assert_eq!(ps_comm_name("\n"), None);
}

#[test]
fn stat_parent_pid_is_read_after_the_last_paren() {
    assert_eq!(stat_ppid("1234 (zsh) S 987 1234 1234 0"), Some(987));
    assert_eq!(stat_ppid("55 (weird ) name) R 42 x"), Some(42));
    assert_eq!(stat_ppid("55 (x) S"), None);
    assert_eq!(stat_ppid("55 x S 42"), None);
    assert_eq!(stat_ppid("55 (x) S notanumber"), None);
    assert_eq!(stat_ppid("55 (x) S 99999999999"), None);
    assert_eq!(stat_ppid("55 (x) S -7"), Some(-7));
}

#[test]
fn ps_parent_pid_is_trimmed_and_parsed() {
    assert_eq!(ps_ppid("  321\n"), Some(321));
    assert_eq!(ps_ppid("+5"), Some(5));
    assert_eq!(ps_ppid(""), None);
    assert_eq!(ps_ppid("-2147483648"), Some(-2147483648));
    assert_eq!(ps_ppid("2147483648"), None);
}

#[test]
fn walk_collects_names_until_pid_one() {
    let mut w = Walk::new(300);
    assert_eq!(w.next_pid(), Some(300));
    w.record_name(Some("zsh".to_string()));
    w.record_parent(Some(200));
    assert_eq!(w.next_pid(), Some(200));
    w.record_name(Some("agentd".to_string()));
    w.record_parent(Some(1));
    assert_eq!(w.next_pid(), None);
    assert_eq!(w.caller(), "agentd");
}

#[test]
fn walk_stops_at_a_failed_lookup() {
    let mut w = Walk::new(300);
    w.record_name(Some("bash".to_string()));
    w.record_parent(None);
    assert_eq!(w.next_pid(), None);
    assert_eq!(w.caller(), "bash");

    let mut w = Walk::new(300);
    w.record_name(None);
    assert_eq!(w.next_pid(), None);
    assert_eq!(w.caller(), "unknown");
}

#[test]
fn walk_looks_at_most_eight_ancestors() {
    let mut w = Walk::new(1000);
    let mut seen = 0;
    while let Some(pid) = w.next_pid() {
        w.record_name(Some("zsh".to_string()));
        w.record_parent(Some(pid - 1));
        seen += 1;
    }
    assert_eq!(seen, 8);
    assert_eq!(w.caller(), "zsh");
}
