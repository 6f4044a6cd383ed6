use vudo::unix::RunOutcome;
use vudo::update::{
    installer_command, installer_result, Install, InstallAction, InstallEvent, InstallStage,
    check_checksum, first_word, is_newer, parse_tag, parse_ver, platform_target, release_files,
    update_available,
};

#[test]
fn parses_tag_name() {
    let body = r#"{"url":"x","tag_name": "v1.2.3","name":"v1.2.3"}"#;
    assert_eq!(parse_tag(body).as_deref(), Some("v1.2.3"));
}

#[test]
fn missing_tag_is_none() {
    assert_eq!(parse_tag(r#"{"message":"Not Found"}"#), None);
}

#[test]
fn version_comparison() {
    assert!(is_newer("0.2.0", "0.3.0"));
    assert!(is_newer("0.3.0", "0.3.1"));
    assert!(is_newer("0.3.0", "1.0.0"));
    assert!(!is_newer("0.3.0", "0.3.0")); // equal
    assert!(!is_newer("0.3.0", "0.2.0")); // older release, don't downgrade
    assert!(!is_newer("0.3.0", "0.2.9"));
}

#[test]
fn versions_read_like_str_parse() {
    assert_eq!(parse_ver("1.2"), Some((1, 2, 0)));
    assert_eq!(parse_ver("1.2.3.4"), Some((1, 2, 3)));
    assert_eq!(parse_ver("+1.2.3"), Some((1, 2, 3)));
    assert_eq!(parse_ver("1"), None);
    assert_eq!(parse_ver("1..3"), None);
    assert_eq!(parse_ver("1.2."), None);
    assert_eq!(parse_ver("1.x.3"), None);
    assert_eq!(parse_ver("18446744073709551615.0"), Some((u64::MAX, 0, 0)));
    assert_eq!(parse_ver("18446744073709551616.0"), None);
}

#[test]
fn unreadable_versions_compare_by_difference() {
    assert!(is_newer("dev", "0.1.0"));
    assert!(is_newer("0.1.0", "dev"));
    assert!(!is_newer("dev", "dev"));
}

#[test]
fn tag_edge_cases() {
    assert_eq!(parse_tag(r#""tag_name":"""#).as_deref(), Some(""));
    assert_eq!(parse_tag(r#""tag_name": "v1"#), None);
    assert_eq!(parse_tag(r#""tag_name""#), None);
    assert_eq!(parse_tag(r#"x "tag_name" : "a" "tag_name": "b""#).as_deref(), Some("a"));
}

#[test]
fn update_offered_only_for_newer_tags() {
    assert!(update_available("0.3.0", "v0.4.0"));
    assert!(!update_available("0.3.0", "v0.3.0"));
    assert!(!update_available("0.3.0", "vv0.2.0"));
    assert!(update_available("0.3.0", "release"));
}

#[test]
fn targets_and_release_files() {
    assert_eq!(platform_target("linux", "x86_64").as_deref(), Some("x86_64-unknown-linux-musl"));
    assert_eq!(platform_target("linux", "aarch64").as_deref(), Some("aarch64-unknown-linux-musl"));
    assert_eq!(platform_target("macos", "x86_64").as_deref(), Some("x86_64-apple-darwin"));
    assert_eq!(platform_target("macos", "aarch64").as_deref(), Some("aarch64-apple-darwin"));
    assert_eq!(platform_target("freebsd", "x86_64"), None);
    let f = release_files("v0.4.0", "x86_64-apple-darwin");
    assert_eq!(f.asset, "vudo-v0.4.0-x86_64-apple-darwin.tar.gz");
    assert_eq!(
        f.url,
        "https://github.com/elleryfamilia/vudo/releases/download/v0.4.0/vudo-v0.4.0-x86_64-apple-darwin.tar.gz"
    );
    assert_eq!(f.sha_url, format!("{}.sha256", f.url));
    assert_eq!(f.dir, "vudo-v0.4.0-x86_64-apple-darwin");
}

#[test]
fn checksums() {
    assert_eq!(first_word("  abc  file\n").as_deref(), Some("abc"));
    assert_eq!(first_word(" \n"), None);
    assert_eq!(check_checksum("abc  vudo.tar.gz\n", Ok("abc".to_string())), Ok(()));
    assert_eq!(
        check_checksum("\n", Err("no sha256 tool found (sha256sum or shasum)".to_string())),
        Err("empty checksum file".to_string())
    );
    assert_eq!(
        check_checksum("abc x", Err("no sha256 tool found (sha256sum or shasum)".to_string())),
        Err("no sha256 tool found (sha256sum or shasum)".to_string())
    );
    assert_eq!(
        check_checksum("abd x", Ok("abc".to_string())),
        Err("checksum mismatch (expected abd, got abc)".to_string())
    );
}

use vudo::update::{install_outcome, update_plan, UpdatePlan};

#[test]
fn update_plans() {
    match update_plan("0.3.0", None) {
        UpdatePlan::Report { code, stdout, stderr } => {
            assert_eq!(code, 1);
            assert_eq!(stdout, "");
            assert_eq!(stderr, "vudo: could not determine the latest release (network?)\n");
        }
        _ => panic!("expected Report"),
    }
    match update_plan("0.3.0", Some("v0.3.0")) {
        UpdatePlan::Report { code, stdout, .. } => {
            assert_eq!(code, 0);
            assert_eq!(stdout, "vudo is already up to date (v0.3.0; latest is v0.3.0).\n");
        }
        _ => panic!("expected Report"),
    }
    match update_plan("0.3.0", Some("v0.4.0")) {
        UpdatePlan::Install { announce } => assert_eq!(announce, "vudo: updating v0.3.0 -> v0.4.0 ...\n"),
        _ => panic!("expected Install"),
    }
}

#[test]
fn install_reports() {
    let (c, o, e) = install_outcome("v0.4.0", Ok("/usr/local/bin/vudo".to_string()));
    assert_eq!((c, o.as_str(), e.as_str()), (0, "vudo: updated to v0.4.0 at /usr/local/bin/vudo\n", ""));
    let (c, o, e) = install_outcome("v0.4.0", Err("checksum mismatch".to_string()));
    assert_eq!((c, o.as_str(), e.as_str()), (1, "", "vudo: update failed: checksum mismatch\n"));
}

const ASSET: &str = "vudo-v0.4.0-x86_64-unknown-linux-musl.tar.gz";
const URL: &str = "https://github.com/elleryfamilia/vudo/releases/download/v0.4.0/vudo-v0.4.0-x86_64-unknown-linux-musl.tar.gz";

fn is_fail(a: &InstallAction, why: &str) -> bool {
    matches!(a, InstallAction::Finish(Err(e)) if e == why)
}

/// An install of v0.4.0 on x86_64 Linux, stepped up to the checksum.
fn up_to_digest() -> Install {
    let mut i = Install::new("linux", "x86_64", "v0.4.0");
    assert!(matches!(i.step(InstallEvent::Start), InstallAction::Prepare));
    match i.step(InstallEvent::Prepared(Ok(()))) {
        InstallAction::Fetch { url, file } => {
            assert_eq!(url, URL);
            assert_eq!(file, ASSET);
        }
        _ => panic!("expected Fetch"),
    }
    match i.step(InstallEvent::Fetched(true)) {
        InstallAction::Fetch { url, file } => {
            assert_eq!(url, format!("{URL}.sha256"));
            assert_eq!(file, format!("{ASSET}.sha256"));
        }
        _ => panic!("expected Fetch"),
    }
    match i.step(InstallEvent::Fetched(true)) {
        InstallAction::ReadChecksum { file } => assert_eq!(file, format!("{ASSET}.sha256")),
        _ => panic!("expected ReadChecksum"),
    }
    match i.step(InstallEvent::ChecksumFile(Ok(format!("abc123  {ASSET}\n")))) {
        InstallAction::Hash { file } => assert_eq!(file, ASSET),
        _ => panic!("expected Hash"),
    }
    i
}

#[test]
fn install_verifies_then_unpacks_then_swaps() {
    let mut i = up_to_digest();
    match i.step(InstallEvent::Digest(Ok("abc123".to_string()))) {
        InstallAction::Extract { archive } => assert_eq!(archive, ASSET),
        _ => panic!("expected Extract"),
    }
    match i.step(InstallEvent::Extracted(Ok(()))) {
        InstallAction::CheckBinary { dir } => assert_eq!(dir, "vudo-v0.4.0-x86_64-unknown-linux-musl"),
        _ => panic!("expected CheckBinary"),
    }
    match i.step(InstallEvent::BinaryPresent(true)) {
        InstallAction::Stage { dir } => assert_eq!(dir, "vudo-v0.4.0-x86_64-unknown-linux-musl"),
        _ => panic!("expected Stage"),
    }
    assert!(matches!(i.step(InstallEvent::Staged(Ok(()))), InstallAction::Swap));
    match i.step(InstallEvent::Swapped(Ok("/usr/local/bin/vudo".to_string()))) {
        InstallAction::Finish(Ok(p)) => assert_eq!(p, "/usr/local/bin/vudo"),
        _ => panic!("expected Finish"),
    }
    assert!(i.stage() == InstallStage::Done);
}

#[test]
fn install_stops_on_a_checksum_mismatch() {
    let mut i = up_to_digest();
    let a = i.step(InstallEvent::Digest(Ok("ffff".to_string())));
    assert!(is_fail(&a, "checksum mismatch (expected abc123, got ffff)"));
    assert!(i.stage() == InstallStage::Done);
}

#[test]
fn install_failures() {
    let mut i = Install::new("freebsd", "x86_64", "v0.4.0");
    assert!(is_fail(&i.step(InstallEvent::Start), "unsupported platform for self-update"));

    let mut i = Install::new("macos", "aarch64", "v1.0.0");
    i.step(InstallEvent::Start);
    assert!(is_fail(
        &i.step(InstallEvent::Prepared(Err("cannot locate the install directory".to_string()))),
        "cannot locate the install directory"
    ));

    let mut i = Install::new("linux", "x86_64", "v0.4.0");
    i.step(InstallEvent::Start);
    i.step(InstallEvent::Prepared(Ok(())));
    assert!(is_fail(
        &i.step(InstallEvent::Fetched(false)),
        &format!("could not download {URL} (need curl or wget)")
    ));

    let mut i = Install::new("linux", "x86_64", "v0.4.0");
    i.step(InstallEvent::Start);
    i.step(InstallEvent::Prepared(Ok(())));
    i.step(InstallEvent::Fetched(true));
    i.step(InstallEvent::Fetched(true));
    assert!(is_fail(&i.step(InstallEvent::ChecksumFile(Ok(" \n".to_string()))), "empty checksum file"));

    let mut i = up_to_digest();
    let why = "no sha256 tool found (sha256sum or shasum)";
    assert!(is_fail(&i.step(InstallEvent::Digest(Err(why.to_string()))), why));

    let mut i = up_to_digest();
    i.step(InstallEvent::Digest(Ok("abc123".to_string())));
    i.step(InstallEvent::Extracted(Ok(())));
    assert!(is_fail(&i.step(InstallEvent::BinaryPresent(false)), "extracted binary not found"));
}

#[test]
fn windows_installer_command_and_result() {
    assert_eq!(
        installer_command("C:\\Users\\o'brien\\bin", "v0.4.0"),
        "$env:VUDO_INSTALL_DIR = 'C:\\Users\\o''brien\\bin'; $env:VUDO_VERSION = 'v0.4.0'; irm https://raw.githubusercontent.com/elleryfamilia/vudo/main/install.ps1 | iex"
    );
    assert_eq!(installer_result("C:\\vudo.exe", RunOutcome::Exited(Some(0))), Ok("C:\\vudo.exe".to_string()));
    assert_eq!(
        installer_result("C:\\vudo.exe", RunOutcome::Exited(Some(1))),
        Err("the PowerShell installer reported an error".to_string())
    );
    assert_eq!(
        installer_result("C:\\vudo.exe", RunOutcome::SpawnFailed("not found".to_string())),
        Err("powershell: not found".to_string())
    );
}
