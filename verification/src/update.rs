//! `vudo --update`: which release to fetch, whether it is newer, and the
//! order of installing it: download, check the SHA-256, unpack, swap
//! ([`Install`]). The downloads, the hashing and the file operations
//! themselves are the driver's part.

use vstd::prelude::*;
use vstd::string::*;
use crate::num::{parse_u64, parsed_u64};
use crate::unix::RunOutcome;
use crate::win::{ps_quote, ps_quoted};
use crate::text::{
    char_end, chars_of, eq_lit, find, find_from, find_in, first_words, lemma_split_step,
    owned, same_chars, skip_char, split_char, string_of_range, subvec, trim_start_char, words,
};

verus! {

/// `s` read as a dotted version `major.minor[.patch]`; a missing patch is 0
/// and anything after a third dot is ignored.
pub open spec fn parsed_ver(s: Seq<char>) -> Option<(u64, u64, u64)> {
    let pieces = split_char(s, '.');
    let a = parsed_u64(pieces[0]);
    let b = if pieces.len() >= 2 {
        parsed_u64(pieces[1])
    } else {
        None
    };
    let c = if pieces.len() >= 3 {
        parsed_u64(pieces[2])
    } else {
        Some(0u64)
    };
    match (a, b, c) {
        (Some(x), Some(y), Some(z)) => Some((x, y, z)),
        _ => None,
    }
}

/// `a` comes before `b` in version order.
pub open spec fn ver_lt(a: (u64, u64, u64), b: (u64, u64, u64)) -> bool {
    a.0 < b.0 || (a.0 == b.0 && (a.1 < b.1 || (a.1 == b.1 && a.2 < b.2)))
}

/// `latest` is a strictly newer version than `current`; when either does not
/// read as a version, any difference counts as newer.
pub open spec fn newer(current: Seq<char>, latest: Seq<char>) -> bool {
    match (parsed_ver(current), parsed_ver(latest)) {
        (Some(c), Some(l)) => ver_lt(c, l),
        _ => current != latest,
    }
}

/// Reads a dotted version (`"0.3.0"`).
pub fn parse_ver(s: &str) -> (r: Option<(u64, u64, u64)>)
    ensures
        r == parsed_ver(s@),
{
    let v = chars_of(s);
    let n = v.len();
    assert(v@.skip(0) =~= v@);
    let e0 = char_end(&v, 0, '.');
    proof {
        lemma_split_step(v@, '.', 0, e0 as int);
    }
    let a = match parse_u64(&subvec(&v, 0, e0)) {
        Some(x) => x,
        None => {
            return None;
        },
    };
    if e0 == n {
        return None;
    }
    let ghost rest1 = split_char(v@.skip(e0 + 1), '.');
    let e1 = char_end(&v, e0 + 1, '.');
    proof {
        lemma_split_step(v@, '.', e0 + 1, e1 as int);
    }
    let b = match parse_u64(&subvec(&v, e0 + 1, e1)) {
        Some(x) => x,
        None => {
            return None;
        },
    };
    if e1 == n {
        assert(split_char(v@, '.').len() == 2);
        return Some((a, b, 0));
    }
    let e2 = char_end(&v, e1 + 1, '.');
    proof {
        lemma_split_step(v@, '.', e1 + 1, e2 as int);
        assert(split_char(v@, '.')[2] == v@.subrange(e1 + 1, e2 as int));
    }
    match parse_u64(&subvec(&v, e1 + 1, e2)) {
        Some(c) => Some((a, b, c)),
        None => None,
    }
}

/// Is `latest` a strictly newer version than `current`? Both are dotted
/// numeric versions ("0.3.0"). If either can't be parsed, fall back to a
/// plain inequality so an update is still offered.
pub fn is_newer(current: &str, latest: &str) -> (b: bool)
    ensures
        b == newer(current@, latest@),
{
    match (parse_ver(current), parse_ver(latest)) {
        (Some(c), Some(l)) => c.0 < l.0 || (c.0 == l.0 && (c.1 < l.1 || (c.1 == l.1 && c.2 < l.2))),
        _ => !same_chars(current, latest),
    }
}

/// Versions are compared part by part: a release is newer exactly when its
/// major number is higher, or the major numbers agree and its minor number
/// is higher, or both agree and its patch number is higher. A higher minor
/// number wins whatever the patch numbers are (0.4.0 is newer than 0.3.12).
pub proof fn newer_compares_major_then_minor_then_patch(
    current: Seq<char>,
    latest: Seq<char>,
    c: (u64, u64, u64),
    l: (u64, u64, u64),
)
    requires
        parsed_ver(current) == Some(c),
        parsed_ver(latest) == Some(l),
    ensures
        newer(current, latest) <==> (l.0 > c.0 || (l.0 == c.0 && l.1 > c.1) || (l.0 == c.0 && l.1
            == c.1 && l.2 > c.2)),
{
}

/// A version is never newer than itself.
pub proof fn never_newer_than_itself(v: Seq<char>)
    ensures
        !newer(v, v),
{
}

/// Between two versions that both read as versions, at most one direction
/// is an update, and being newer chains: no downgrade is ever offered as an
/// update.
pub proof fn newer_is_an_order(a: Seq<char>, b: Seq<char>, c: Seq<char>)
    requires
        parsed_ver(a) is Some,
        parsed_ver(b) is Some,
        parsed_ver(c) is Some,
    ensures
        newer(a, b) ==> !newer(b, a),
        newer(a, b) && newer(b, c) ==> newer(a, c),
{
}

/// The `tag_name` value of a GitHub release JSON payload: the text between
/// the first two double quotes after the first `"tag_name"`.
pub open spec fn tag_of(body: Seq<char>) -> Option<Seq<char>> {
    let key = "\"tag_name\""@;
    match find(body, key) {
        Some(i) => {
            let rest = body.skip(i + key.len());
            match find(rest, "\""@) {
                Some(q) => {
                    let start = q + 1;
                    match find(rest.skip(start), "\""@) {
                        Some(len) => Some(rest.subrange(start, start + len)),
                        None => None,
                    }
                },
                None => None,
            }
        },
        None => None,
    }
}

/// Extract the `tag_name` value from a GitHub release JSON payload.
pub fn parse_tag(body: &str) -> (r: Option<String>)
    ensures
        r matches Some(t) ==> tag_of(body@) == Some(t@),
        r is None ==> tag_of(body@) is None,
{
    let v = chars_of(body);
    let key = chars_of("\"tag_name\"");
    let quote = chars_of("\"");
    proof {
        reveal_strlit("\"");
        reveal_strlit("\"tag_name\"");
    }
    let i = match find_in(&v, &key, 0) {
        Some(i) => i,
        None => {
            return None;
        },
    };
    proof {
        crate::text::lemma_find_from_bounds(v@, key@, 0);
        assert(find_from(v@, key@, 0) == Some(i as int));
        assert(i + key@.len() <= v@.len());
    }
    let vlen = v.len();
    assert(i + key@.len() <= vlen);
    let rest_start = i + key.len();
    let rest = subvec(&v, rest_start, v.len());
    assert(rest@ == v@.skip(i + key@.len()));
    let q = match find_in(&rest, &quote, 0) {
        Some(q) => q,
        None => {
            return None;
        },
    };
    proof {
        crate::text::lemma_find_from_bounds(rest@, quote@, 0);
    }
    let start = q + 1;
    let tail = subvec(&rest, start, rest.len());
    assert(tail@ == rest@.skip(start as int));
    let len = match find_in(&tail, &quote, 0) {
        Some(l) => l,
        None => {
            return None;
        },
    };
    proof {
        crate::text::lemma_find_from_bounds(tail@, quote@, 0);
    }
    Some(string_of_range(&rest, start, start + len))
}

/// The release tag read as a version: leading `v`s dropped.
pub open spec fn tag_version(tag: Seq<char>) -> Seq<char> {
    trim_start_char(tag, 'v')
}

/// Whether the release `tag` is newer than the running version `current`.
pub fn update_available(current: &str, tag: &str) -> (b: bool)
    ensures
        b == newer(current@, tag_version(tag@)),
{
    let v = chars_of(tag);
    let i = skip_char(&v, 0, 'v');
    assert(v@.skip(0) =~= v@);
    let t = string_of_range(&v, i, v.len());
    assert(v@.subrange(i as int, v@.len() as int) =~= v@.skip(i as int));
    is_newer(current, t.as_str())
}

/// What `vudo --update` does once the latest release tag is known.
pub enum UpdatePlan {
    /// Nothing to install: exit with `code` after printing `stdout` and
    /// `stderr`.
    Report { code: i32, stdout: String, stderr: String },
    /// Print `announce`, then install the release.
    Install { announce: String },
}

/// The mathematical form of an [`UpdatePlan`].
pub enum UpdatePlanModel {
    Report { code: i32, stdout: Seq<char>, stderr: Seq<char> },
    Install { announce: Seq<char> },
}

impl View for UpdatePlan {
    type V = UpdatePlanModel;

    open spec fn view(&self) -> UpdatePlanModel {
        match self {
            UpdatePlan::Report { code, stdout, stderr } => UpdatePlanModel::Report {
                code: *code,
                stdout: stdout@,
                stderr: stderr@,
            },
            UpdatePlan::Install { announce } => UpdatePlanModel::Install { announce: announce@ },
        }
    }
}

/// The plan for the running version `current` and the latest release tag
/// (`None` when it could not be found).
pub open spec fn plan_of(current: Seq<char>, latest: Option<Seq<char>>) -> UpdatePlanModel {
    match latest {
        None => UpdatePlanModel::Report {
            code: 1,
            stdout: Seq::empty(),
            stderr: "vudo: could not determine the latest release (network?)\n"@,
        },
        Some(tag) => if !newer(current, tag_version(tag)) {
            UpdatePlanModel::Report {
                code: 0,
                stdout: "vudo is already up to date (v"@ + current + "; latest is "@ + tag + ").\n"@,
                stderr: Seq::empty(),
            }
        } else {
            UpdatePlanModel::Install { announce: "vudo: updating v"@ + current + " -> "@ + tag + " ...\n"@ }
        },
    }
}

/// Decides what `vudo --update` does: report that the latest release could
/// not be found, that this version is up to date, or install the release.
pub fn update_plan(current: &str, latest: Option<&str>) -> (p: UpdatePlan)
    ensures
        p@ == plan_of(current@, crate::unix::view_opt(latest)),
{
    match latest {
        None => UpdatePlan::Report {
            code: 1,
            stdout: String::new(),
            stderr: owned("vudo: could not determine the latest release (network?)\n"),
        },
        Some(tag) => {
            if !update_available(current, tag) {
                let mut out = owned("vudo is already up to date (v");
                out.append(current);
                out.append("; latest is ");
                out.append(tag);
                out.append(").\n");
                UpdatePlan::Report { code: 0, stdout: out, stderr: String::new() }
            } else {
                let mut out = owned("vudo: updating v");
                out.append(current);
                out.append(" -> ");
                out.append(tag);
                out.append(" ...\n");
                UpdatePlan::Install { announce: out }
            }
        },
    }
}

/// The exit code and the stdout and stderr text after installing the
/// release `tag`: where it went, or why it failed.
pub open spec fn install_report(tag: Seq<char>, r: Result<Seq<char>, Seq<char>>) -> (i32, Seq<char>, Seq<char>) {
    match r {
        Ok(path) => (0, "vudo: updated to "@ + tag + " at "@ + path + "\n"@, Seq::empty()),
        Err(e) => (1, Seq::empty(), "vudo: update failed: "@ + e + "\n"@),
    }
}

/// Reports how installing `tag` went.
pub fn install_outcome(tag: &str, r: Result<String, String>) -> (out: (i32, String, String))
    ensures
        (out.0, out.1@, out.2@) == install_report(tag@, result_view(r)),
{
    match r {
        Ok(path) => {
            let mut m = owned("vudo: updated to ");
            m.append(tag);
            m.append(" at ");
            m.append(path.as_str());
            m.append("\n");
            (0, m, String::new())
        },
        Err(e) => {
            let mut m = owned("vudo: update failed: ");
            m.append(e.as_str());
            m.append("\n");
            (1, String::new(), m)
        },
    }
}

/// The release build name for an operating system and architecture.
pub open spec fn target_of(os: Seq<char>, arch: Seq<char>) -> Option<Seq<char>> {
    if os == "linux"@ && arch == "x86_64"@ {
        Some("x86_64-unknown-linux-musl"@)
    } else if os == "linux"@ && arch == "aarch64"@ {
        Some("aarch64-unknown-linux-musl"@)
    } else if os == "macos"@ && arch == "x86_64"@ {
        Some("x86_64-apple-darwin"@)
    } else if os == "macos"@ && arch == "aarch64"@ {
        Some("aarch64-apple-darwin"@)
    } else {
        None
    }
}

/// The release build for this platform (`std::env::consts::OS` and `ARCH`).
pub fn platform_target(os: &str, arch: &str) -> (r: Option<String>)
    ensures
        r matches Some(t) ==> target_of(os@, arch@) == Some(t@),
        r is None ==> target_of(os@, arch@) is None,
{
    let o = chars_of(os);
    let a = chars_of(arch);
    if eq_lit(&o, "linux") && eq_lit(&a, "x86_64") {
        Some(owned("x86_64-unknown-linux-musl"))
    } else if eq_lit(&o, "linux") && eq_lit(&a, "aarch64") {
        Some(owned("aarch64-unknown-linux-musl"))
    } else if eq_lit(&o, "macos") && eq_lit(&a, "x86_64") {
        Some(owned("x86_64-apple-darwin"))
    } else if eq_lit(&o, "macos") && eq_lit(&a, "aarch64") {
        Some(owned("aarch64-apple-darwin"))
    } else {
        None
    }
}

/// The files of one release build.
pub struct ReleaseFiles {
    /// `vudo-<tag>-<target>.tar.gz`
    pub asset: String,
    /// Where the archive is downloaded from.
    pub url: String,
    /// Where its SHA-256 is downloaded from.
    pub sha_url: String,
    /// The directory the archive unpacks to.
    pub dir: String,
}

pub open spec fn asset_of(tag: Seq<char>, target: Seq<char>) -> Seq<char> {
    "vudo-"@ + tag + "-"@ + target + ".tar.gz"@
}

pub open spec fn url_of(tag: Seq<char>, target: Seq<char>) -> Seq<char> {
    "https://github.com/elleryfamilia/vudo/releases/download/"@ + tag + "/"@ + asset_of(tag, target)
}

/// The names and addresses of the release build `target` of `tag`.
pub fn release_files(tag: &str, target: &str) -> (f: ReleaseFiles)
    ensures
        f.asset@ == asset_of(tag@, target@),
        f.url@ == url_of(tag@, target@),
        f.sha_url@ == url_of(tag@, target@) + ".sha256"@,
        f.dir@ == "vudo-"@ + tag@ + "-"@ + target@,
{
    let mut dir = owned("vudo-");
    dir.append(tag);
    dir.append("-");
    dir.append(target);
    let mut asset = dir.clone();
    asset.append(".tar.gz");
    let mut url = owned("https://github.com/elleryfamilia/vudo/releases/download/");
    url.append(tag);
    url.append("/");
    url.append(asset.as_str());
    let mut sha_url = url.clone();
    sha_url.append(".sha256");
    ReleaseFiles { asset, url, sha_url, dir }
}

/// The first white-space separated word of `s`.
pub open spec fn first_word_of(s: Seq<char>) -> Option<Seq<char>> {
    if words(s).len() > 0 {
        Some(words(s)[0])
    } else {
        None
    }
}

/// The first word of a checksum tool's output or of a `.sha256` file.
pub fn first_word(s: &str) -> (r: Option<String>)
    ensures
        r matches Some(w) ==> first_word_of(s@) == Some(w@),
        r is None ==> first_word_of(s@) is None,
{
    let v = chars_of(s);
    assert(v@.skip(0) =~= v@);
    let ws = first_words(&v, 0, 1);
    if ws.len() == 0 {
        None
    } else {
        let w = &ws[0];
        let out = crate::text::string_of(w);
        Some(out)
    }
}

/// The verdict on a download: the expected digest is the first word of the
/// `.sha256` file, and it must equal the digest computed (`actual`, or why
/// it could not be computed).
pub open spec fn checksum_verdict(sha_file: Seq<char>, actual: Result<Seq<char>, Seq<char>>) -> Result<
    (),
    Seq<char>,
> {
    match first_word_of(sha_file) {
        None => Err("empty checksum file"@),
        Some(expected) => match actual {
            Err(why) => Err(why),
            Ok(a) => if expected == a {
                Ok(())
            } else {
                Err("checksum mismatch (expected "@ + expected + ", got "@ + a + ")"@)
            },
        },
    }
}

pub open spec fn result_view(r: Result<String, String>) -> Result<Seq<char>, Seq<char>> {
    match r {
        Ok(a) => Ok(a@),
        Err(e) => Err(e@),
    }
}

/// Judges a download against its `.sha256` file, given the digest computed
/// for it or why none could be.
pub fn check_checksum(sha_file: &str, actual: Result<String, String>) -> (r: Result<(), String>)
    ensures
        r matches Ok(_) ==> checksum_verdict(sha_file@, result_view(actual)) is Ok,
        r matches Err(e) ==> checksum_verdict(sha_file@, result_view(actual)) == Err::<
            (),
            Seq<char>,
        >(e@),
{
    match first_word(sha_file) {
        None => Err(owned("empty checksum file")),
        Some(expected) => match actual {
            Err(why) => Err(why),
            Ok(a) => {
                if same_chars(expected.as_str(), a.as_str()) {
                    Ok(())
                } else {
                    let mut msg = owned("checksum mismatch (expected ");
                    msg.append(expected.as_str());
                    msg.append(", got ");
                    msg.append(a.as_str());
                    msg.append(")");
                    Err(msg)
                }
            },
        },
    }
}

/// Where installing a release stands (Unix: download, verify, unpack,
/// swap).
#[derive(Clone, Copy, PartialEq, Eq, Structural)]
pub enum InstallStage {
    Start,
    AwaitPrepare,
    AwaitFetch,
    AwaitShaFetch,
    AwaitShaRead,
    AwaitDigest,
    AwaitExtract,
    AwaitBinary,
    AwaitStage,
    AwaitSwap,
    Done,
}

/// What the driver reports back while a release is installed.
pub enum InstallEvent {
    /// Begin.
    Start,
    /// The running executable and its directory were located and a private
    /// work directory (a UTF-8 path) was created, or why not.
    Prepared(Result<(), String>),
    /// Whether the last download succeeded (curl, else wget).
    Fetched(bool),
    /// The text of the downloaded `.sha256` file, or why it could not be read.
    ChecksumFile(Result<String, String>),
    /// The SHA-256 computed for the archive, or why none could be.
    Digest(Result<String, String>),
    /// Whether `tar` unpacked the archive, or its complaint.
    Extracted(Result<(), String>),
    /// Whether the unpacked binary exists.
    BinaryPresent(bool),
    /// Whether the new binary was copied next to the running one and made
    /// executable, or why not.
    Staged(Result<(), String>),
    /// The path of the replaced executable, or why the rename failed.
    Swapped(Result<String, String>),
}

/// What the driver must do next while a release is installed. File names
/// are relative to the work directory.
pub enum InstallAction {
    /// Locate the running executable and its directory and create the work
    /// directory (`InstallEvent::Prepared`).
    Prepare,
    /// Download `url` to `file` (`InstallEvent::Fetched`).
    Fetch { url: String, file: String },
    /// Read `file` (`InstallEvent::ChecksumFile`).
    ReadChecksum { file: String },
    /// Compute the SHA-256 of `file` (`InstallEvent::Digest`).
    Hash { file: String },
    /// Run `tar xzf <archive> -C <work directory>` (`InstallEvent::Extracted`).
    Extract { archive: String },
    /// Check that `<dir>/vudo` exists (`InstallEvent::BinaryPresent`).
    CheckBinary { dir: String },
    /// Copy `<dir>/vudo` next to the running executable and make it
    /// executable (`InstallEvent::Staged`).
    Stage { dir: String },
    /// Rename the staged binary over the running executable
    /// (`InstallEvent::Swapped`).
    Swap,
    /// The install is over: where the binary went, or why it failed.
    Finish(Result<String, String>),
}

/// The mathematical form of an [`InstallAction`].
pub enum InstallActionModel {
    Prepare,
    Fetch { url: Seq<char>, file: Seq<char> },
    ReadChecksum { file: Seq<char> },
    Hash { file: Seq<char> },
    Extract { archive: Seq<char> },
    CheckBinary { dir: Seq<char> },
    Stage { dir: Seq<char> },
    Swap,
    Finish(Result<Seq<char>, Seq<char>>),
}

impl View for InstallAction {
    type V = InstallActionModel;

    open spec fn view(&self) -> InstallActionModel {
        match self {
            InstallAction::Prepare => InstallActionModel::Prepare,
            InstallAction::Fetch { url, file } => InstallActionModel::Fetch { url: url@, file: file@ },
            InstallAction::ReadChecksum { file } => InstallActionModel::ReadChecksum { file: file@ },
            InstallAction::Hash { file } => InstallActionModel::Hash { file: file@ },
            InstallAction::Extract { archive } => InstallActionModel::Extract { archive: archive@ },
            InstallAction::CheckBinary { dir } => InstallActionModel::CheckBinary { dir: dir@ },
            InstallAction::Stage { dir } => InstallActionModel::Stage { dir: dir@ },
            InstallAction::Swap => InstallActionModel::Swap,
            InstallAction::Finish(r) => InstallActionModel::Finish(result_view(*r)),
        }
    }
}

/// Installing the release `tag` over the running binary. The archive's
/// SHA-256 is checked against the published one before anything is
/// unpacked or swapped.
pub struct Install {
    stage: InstallStage,
    tag: String,
    target: Option<String>,
    sha_text: String,
}

/// The mathematical form of an [`Install`].
pub struct InstallModel {
    pub stage: InstallStage,
    pub tag: Seq<char>,
    /// The release build for this platform, if there is one.
    pub target: Option<Seq<char>>,
    /// The text of the `.sha256` file, once read.
    pub sha_text: Seq<char>,
}

impl View for Install {
    type V = InstallModel;

    closed spec fn view(&self) -> InstallModel {
        InstallModel {
            stage: self.stage,
            tag: self.tag@,
            target: crate::linux::opt_view(self.target),
            sha_text: self.sha_text@,
        }
    }
}

/// An install of `tag` on the platform `os`/`arch` that has not begun.
pub open spec fn install_start(os: Seq<char>, arch: Seq<char>, tag: Seq<char>) -> InstallModel {
    InstallModel { stage: InstallStage::Start, tag, target: target_of(os, arch), sha_text: Seq::empty() }
}

/// The event an install waits for in stage `s`.
pub open spec fn install_accepts(s: InstallStage, e: InstallEvent) -> bool {
    match s {
        InstallStage::Start => e is Start,
        InstallStage::AwaitPrepare => e is Prepared,
        InstallStage::AwaitFetch | InstallStage::AwaitShaFetch => e is Fetched,
        InstallStage::AwaitShaRead => e is ChecksumFile,
        InstallStage::AwaitDigest => e is Digest,
        InstallStage::AwaitExtract => e is Extracted,
        InstallStage::AwaitBinary => e is BinaryPresent,
        InstallStage::AwaitStage => e is Staged,
        InstallStage::AwaitSwap => e is Swapped,
        InstallStage::Done => false,
    }
}

/// The release build being installed (empty before it is known).
pub open spec fn target_name(m: InstallModel) -> Seq<char> {
    match m.target {
        Some(t) => t,
        None => Seq::empty(),
    }
}

/// The directory the archive unpacks to.
pub open spec fn unpack_dir(m: InstallModel) -> Seq<char> {
    "vudo-"@ + m.tag + "-"@ + target_name(m)
}

/// Why a download failed.
pub open spec fn fetch_failure(url: Seq<char>) -> Seq<char> {
    "could not download "@ + url + " (need curl or wget)"@
}

/// The install has ended with `r`.
pub open spec fn install_end(m: InstallModel, r: Result<Seq<char>, Seq<char>>) -> (InstallModel, InstallActionModel) {
    (InstallModel { stage: InstallStage::Done, ..m }, InstallActionModel::Finish(r))
}

/// One decision of an install.
pub open spec fn install_next(m: InstallModel, e: InstallEvent) -> (InstallModel, InstallActionModel) {
    let asset = asset_of(m.tag, target_name(m));
    let url = url_of(m.tag, target_name(m));
    match e {
        InstallEvent::Start => match m.target {
            None => install_end(m, Err("unsupported platform for self-update"@)),
            Some(_) => (InstallModel { stage: InstallStage::AwaitPrepare, ..m }, InstallActionModel::Prepare),
        },
        InstallEvent::Prepared(r) => match r {
            Err(why) => install_end(m, Err(why@)),
            Ok(_) => (
                InstallModel { stage: InstallStage::AwaitFetch, ..m },
                InstallActionModel::Fetch { url, file: asset },
            ),
        },
        InstallEvent::Fetched(ok) => if m.stage == InstallStage::AwaitFetch {
            if ok {
                (
                    InstallModel { stage: InstallStage::AwaitShaFetch, ..m },
                    InstallActionModel::Fetch { url: url + ".sha256"@, file: asset + ".sha256"@ },
                )
            } else {
                install_end(m, Err(fetch_failure(url)))
            }
        } else if ok {
            (
                InstallModel { stage: InstallStage::AwaitShaRead, ..m },
                InstallActionModel::ReadChecksum { file: asset + ".sha256"@ },
            )
        } else {
            install_end(m, Err(fetch_failure(url + ".sha256"@)))
        },
        InstallEvent::ChecksumFile(r) => match r {
            Err(why) => install_end(m, Err(why@)),
            Ok(text) => if first_word_of(text@) is None {
                install_end(m, Err("empty checksum file"@))
            } else {
                (
                    InstallModel { stage: InstallStage::AwaitDigest, sha_text: text@, ..m },
                    InstallActionModel::Hash { file: asset },
                )
            },
        },
        InstallEvent::Digest(actual) => match checksum_verdict(m.sha_text, result_view(actual)) {
            Err(why) => install_end(m, Err(why)),
            Ok(_) => (
                InstallModel { stage: InstallStage::AwaitExtract, ..m },
                InstallActionModel::Extract { archive: asset },
            ),
        },
        InstallEvent::Extracted(r) => match r {
            Err(why) => install_end(m, Err(why@)),
            Ok(_) => (
                InstallModel { stage: InstallStage::AwaitBinary, ..m },
                InstallActionModel::CheckBinary { dir: unpack_dir(m) },
            ),
        },
        InstallEvent::BinaryPresent(present) => if present {
            (
                InstallModel { stage: InstallStage::AwaitStage, ..m },
                InstallActionModel::Stage { dir: unpack_dir(m) },
            )
        } else {
            install_end(m, Err("extracted binary not found"@))
        },
        InstallEvent::Staged(r) => match r {
            Err(why) => install_end(m, Err(why@)),
            Ok(_) => (InstallModel { stage: InstallStage::AwaitSwap, ..m }, InstallActionModel::Swap),
        },
        InstallEvent::Swapped(r) => install_end(m, result_view(r)),
    }
}

fn fail(why: &str) -> (r: Result<String, String>)
    ensures
        result_view(r) == Err::<Seq<char>, Seq<char>>(why@),
{
    Err(owned(why))
}

impl Install {
    #[verifier::type_invariant]
    spec fn target_known(self) -> bool {
        self.stage == InstallStage::Start || self.stage == InstallStage::Done || self.target is Some
    }

    /// An install of `tag` on the platform `os`/`arch` (as in
    /// `std::env::consts`).
    pub fn new(os: &str, arch: &str, tag: &str) -> (i: Install)
        ensures
            i@ == install_start(os@, arch@, tag@),
    {
        Install {
            stage: InstallStage::Start,
            tag: owned(tag),
            target: platform_target(os, arch),
            sha_text: String::new(),
        }
    }

    /// The stage the install is in.
    pub fn stage(&self) -> (s: InstallStage)
        ensures
            s == self@.stage,
    {
        self.stage
    }

    fn end(&mut self, r: Result<String, String>) -> (a: InstallAction)
        ensures
            (final(self)@, a@) == install_end(old(self)@, result_view(r)),
    {
        self.stage = InstallStage::Done;
        InstallAction::Finish(r)
    }

    /// Takes what the driver reported and decides what comes next.
    pub fn step(&mut self, e: InstallEvent) -> (a: InstallAction)
        requires
            install_accepts(old(self)@.stage, e),
        ensures
            (final(self)@, a@) == install_next(old(self)@, e),
    {
        proof {
            use_type_invariant(&*self);
        }
        if self.stage == InstallStage::Start {
            return match &self.target {
                None => self.end(fail("unsupported platform for self-update")),
                Some(_) => {
                    self.stage = InstallStage::AwaitPrepare;
                    InstallAction::Prepare
                },
            };
        }
        let target = match &self.target {
            Some(t) => t.clone(),
            None => String::new(),
        };
        let f = release_files(self.tag.as_str(), target.as_str());
        match e {
            InstallEvent::Start => self.end(fail("unsupported platform for self-update")),
            InstallEvent::Prepared(r) => match r {
                Err(why) => self.end(Err(why)),
                Ok(_) => {
                    self.stage = InstallStage::AwaitFetch;
                    InstallAction::Fetch { url: f.url, file: f.asset }
                },
            },
            InstallEvent::Fetched(ok) => {
                let mut sha_file = f.asset.clone();
                sha_file.append(".sha256");
                if self.stage == InstallStage::AwaitFetch {
                    if ok {
                        self.stage = InstallStage::AwaitShaFetch;
                        InstallAction::Fetch { url: f.sha_url, file: sha_file }
                    } else {
                        self.end(Err(fetch_failure_text(f.url.as_str())))
                    }
                } else if ok {
                    self.stage = InstallStage::AwaitShaRead;
                    InstallAction::ReadChecksum { file: sha_file }
                } else {
                    self.end(Err(fetch_failure_text(f.sha_url.as_str())))
                }
            },
            InstallEvent::ChecksumFile(r) => match r {
                Err(why) => self.end(Err(why)),
                Ok(text) => {
                    if first_word(text.as_str()).is_none() {
                        self.end(fail("empty checksum file"))
                    } else {
                        self.sha_text = text;
                        self.stage = InstallStage::AwaitDigest;
                        InstallAction::Hash { file: f.asset }
                    }
                },
            },
            InstallEvent::Digest(actual) => match check_checksum(self.sha_text.as_str(), actual) {
                Err(why) => self.end(Err(why)),
                Ok(_) => {
                    self.stage = InstallStage::AwaitExtract;
                    InstallAction::Extract { archive: f.asset }
                },
            },
            InstallEvent::Extracted(r) => match r {
                Err(why) => self.end(Err(why)),
                Ok(_) => {
                    self.stage = InstallStage::AwaitBinary;
                    InstallAction::CheckBinary { dir: f.dir }
                },
            },
            InstallEvent::BinaryPresent(present) => {
                if present {
                    self.stage = InstallStage::AwaitStage;
                    InstallAction::Stage { dir: f.dir }
                } else {
                    self.end(fail("extracted binary not found"))
                }
            },
            InstallEvent::Staged(r) => match r {
                Err(why) => self.end(Err(why)),
                Ok(_) => {
                    self.stage = InstallStage::AwaitSwap;
                    InstallAction::Swap
                },
            },
            InstallEvent::Swapped(r) => self.end(r),
        }
    }
}

fn fetch_failure_text(url: &str) -> (out: String)
    ensures
        out@ == fetch_failure(url@),
{
    let mut out = owned("could not download ");
    out.append(url);
    out.append(" (need curl or wget)");
    out
}


/// The actions an install hands out for the events `es`, starting in `m`.
pub open spec fn install_trace(m: InstallModel, es: Seq<InstallEvent>) -> Seq<InstallActionModel>
    decreases es.len(),
{
    if es.len() == 0 {
        Seq::empty()
    } else {
        let (m1, a) = install_next(m, es[0]);
        seq![a] + install_trace(m1, es.drop_first())
    }
}

/// Every event of `es` is the one the install waits for when it comes.
pub open spec fn install_follows(m: InstallModel, es: Seq<InstallEvent>) -> bool
    decreases es.len(),
{
    if es.len() == 0 {
        true
    } else {
        install_accepts(m.stage, es[0]) && install_follows(install_next(m, es[0]).0, es.drop_first())
    }
}

/// The state after the first `n` events of `es`, starting in `m`.
pub open spec fn install_at(m: InstallModel, es: Seq<InstallEvent>, n: int) -> InstallModel
    decreases n,
{
    if n <= 0 || es.len() == 0 {
        m
    } else {
        install_at(install_next(m, es[0]).0, es.drop_first(), n - 1)
    }
}

/// How far along the install a stage is.
pub open spec fn install_rank(s: InstallStage) -> int {
    match s {
        InstallStage::Start => 0,
        InstallStage::AwaitPrepare => 1,
        InstallStage::AwaitFetch => 2,
        InstallStage::AwaitShaFetch => 3,
        InstallStage::AwaitShaRead => 4,
        InstallStage::AwaitDigest => 5,
        InstallStage::AwaitExtract => 6,
        InstallStage::AwaitBinary => 7,
        InstallStage::AwaitStage => 8,
        InstallStage::AwaitSwap => 9,
        InstallStage::Done => 10,
    }
}

proof fn lemma_install_step_rank(m: InstallModel, e: InstallEvent)
    requires
        install_accepts(m.stage, e),
        install_next(m, e).0.stage != InstallStage::Done,
    ensures
        install_rank(install_next(m, e).0.stage) == install_rank(m.stage) + 1,
{
}

proof fn lemma_install_at(m: InstallModel, es: Seq<InstallEvent>, n: int)
    requires
        install_follows(m, es),
        0 <= n < es.len(),
    ensures
        install_accepts(install_at(m, es, n).stage, es[n]),
        install_trace(m, es)[n] == install_next(install_at(m, es, n), es[n]).1,
        install_at(m, es, n + 1) == install_next(install_at(m, es, n), es[n]).0,
        install_at(m, es, n).stage != InstallStage::Done,
        install_rank(install_at(m, es, n).stage) == install_rank(m.stage) + n,
    decreases n,
{
    let (m1, a) = install_next(m, es[0]);
    let rest = es.drop_first();
    assert(install_trace(m, es) == seq![a] + install_trace(m1, rest));
    lemma_install_trace_len(m1, rest);
    assert(install_at(m, es, n + 1) == install_at(m1, rest, n));
    assert(install_at(m1, rest, 0) == m1);
    if n > 0 {
        assert(install_at(m, es, n) == install_at(m1, rest, n - 1));
        assert(install_trace(m, es)[n] == install_trace(m1, rest)[n - 1]);
        assert(install_at(m1, rest, n) == install_at(install_next(m1, rest[0]).0, rest.drop_first(), n - 1));
        lemma_install_at(m1, rest, n - 1);
        assert(rest[n - 1] == es[n]);
        assert(install_at(m1, rest, n - 1).stage != InstallStage::Done);
        if m1.stage == InstallStage::Done {
            assert(install_at(m1, rest, n - 1) == m1) by {
                lemma_install_done_stays(m1, rest, n - 1);
            }
        }
        lemma_install_step_rank(m, es[0]);
    }
}

proof fn lemma_install_trace_len(m: InstallModel, es: Seq<InstallEvent>)
    ensures
        install_trace(m, es).len() == es.len(),
    decreases es.len(),
{
    if es.len() > 0 {
        lemma_install_trace_len(install_next(m, es[0]).0, es.drop_first());
    }
}

proof fn lemma_install_done_stays(m: InstallModel, es: Seq<InstallEvent>, n: int)
    requires
        install_follows(m, es),
        m.stage == InstallStage::Done,
    ensures
        install_at(m, es, n) == m,
{
    if n > 0 && es.len() > 0 {
        assert(install_accepts(m.stage, es[0]));
    }
}

/// The archive is checked before it is used: in any run of an install,
/// the binary is swapped in only as the ninth action, after the `.sha256`
/// file was read and the SHA-256 computed for the archive matched the one
/// it names.
pub proof fn swap_only_after_verified(
    os: Seq<char>,
    arch: Seq<char>,
    tag: Seq<char>,
    es: Seq<InstallEvent>,
    i: int,
)
    requires
        install_follows(install_start(os, arch, tag), es),
        0 <= i < es.len(),
        install_trace(install_start(os, arch, tag), es)[i] is Swap,
    ensures
        i == 8,
        es[4] matches InstallEvent::ChecksumFile(Ok(text)) && es[5] matches InstallEvent::Digest(
            actual,
        ) && checksum_verdict(text@, result_view(actual)) is Ok,
{
    let m = install_start(os, arch, tag);
    lemma_install_at(m, es, i);
    let mi = install_at(m, es, i);
    assert(mi.stage == InstallStage::AwaitStage);
    lemma_install_at(m, es, 4);
    lemma_install_at(m, es, 5);
    lemma_install_at(m, es, 6);
    let m4 = install_at(m, es, 4);
    let m5 = install_at(m, es, 5);
    assert(m4.stage == InstallStage::AwaitShaRead);
    assert(m5.stage == InstallStage::AwaitDigest);
    assert(install_at(m, es, 6).stage == InstallStage::AwaitExtract);
}

/// A mismatched checksum stops the install: when the SHA-256 computed for
/// the archive differs from the one its `.sha256` file names, the install
/// finishes at once with the mismatch, and nothing is unpacked or swapped.
pub proof fn mismatch_stops_the_install(
    os: Seq<char>,
    arch: Seq<char>,
    tag: Seq<char>,
    es: Seq<InstallEvent>,
    text: String,
    got: String,
    expected: Seq<char>,
)
    requires
        install_follows(install_start(os, arch, tag), es),
        es.len() > 5,
        es[4] == InstallEvent::ChecksumFile(Ok(text)),
        es[5] == InstallEvent::Digest(Ok(got)),
        first_word_of(text@) == Some(expected),
        expected != got@,
    ensures
        es.len() == 6,
        install_trace(install_start(os, arch, tag), es)[5] == InstallActionModel::Finish(
            Err("checksum mismatch (expected "@ + expected + ", got "@ + got@ + ")"@),
        ),
        forall|k: int|
            0 <= k < es.len() ==> !(#[trigger] install_trace(install_start(os, arch, tag), es)[k] is Extract)
                && !(install_trace(install_start(os, arch, tag), es)[k] is Swap),
{
    let m = install_start(os, arch, tag);
    lemma_install_at(m, es, 4);
    lemma_install_at(m, es, 5);
    let m4 = install_at(m, es, 4);
    let m5 = install_at(m, es, 5);
    assert(m4.stage == InstallStage::AwaitShaRead);
    assert(m5.sha_text == text@);
    assert(install_at(m, es, 6).stage == InstallStage::Done);
    if es.len() > 6 {
        lemma_install_at(m, es, 6);
    }
    assert forall|k: int| 0 <= k < es.len() implies !(#[trigger] install_trace(m, es)[k] is Extract)
        && !(install_trace(m, es)[k] is Swap) by {
        lemma_install_at(m, es, k);
        if k < 5 {
            assert(install_rank(install_at(m, es, k).stage) == k);
        }
    }
}

/// The PowerShell command that reinstalls vudo on Windows: the project's
/// installer, pinned to `tag` and aimed at the install directory `dir`.
pub open spec fn installer_command_text(dir: Seq<char>, tag: Seq<char>) -> Seq<char> {
    "$env:VUDO_INSTALL_DIR = "@ + ps_quoted(dir) + "; $env:VUDO_VERSION = "@ + ps_quoted(tag)
        + "; irm https://raw.githubusercontent.com/elleryfamilia/vudo/main/install.ps1 | iex"@
}

/// The PowerShell installer command for the install directory `dir` and the
/// release `tag`, both quoted as PowerShell literals.
pub fn installer_command(dir: &str, tag: &str) -> (out: String)
    ensures
        out@ == installer_command_text(dir@, tag@),
{
    let mut out = owned("$env:VUDO_INSTALL_DIR = ");
    out.append(ps_quote(dir).as_str());
    out.append("; $env:VUDO_VERSION = ");
    out.append(ps_quote(tag).as_str());
    out.append("; irm https://raw.githubusercontent.com/elleryfamilia/vudo/main/install.ps1 | iex");
    out
}

/// How the Windows install went, given the executable's path and how the
/// installer's PowerShell came back: exit code 0 is success.
pub open spec fn installer_verdict(exe: Seq<char>, o: RunOutcome) -> Result<Seq<char>, Seq<char>> {
    match o {
        RunOutcome::Exited(Some(c)) => if c == 0 {
            Ok(exe)
        } else {
            Err("the PowerShell installer reported an error"@)
        },
        RunOutcome::Exited(None) => Err("the PowerShell installer reported an error"@),
        RunOutcome::SpawnFailed(e) => Err("powershell: "@ + e@),
    }
}

/// Judges the Windows installer's run.
pub fn installer_result(exe: &str, o: RunOutcome) -> (r: Result<String, String>)
    ensures
        result_view(r) == installer_verdict(exe@, o),
{
    match o {
        RunOutcome::Exited(Some(c)) => {
            if c == 0 {
                Ok(owned(exe))
            } else {
                Err(owned("the PowerShell installer reported an error"))
            }
        },
        RunOutcome::Exited(None) => Err(owned("the PowerShell installer reported an error")),
        RunOutcome::SpawnFailed(e) => {
            let mut m = owned("powershell: ");
            m.append(e.as_str());
            Err(m)
        },
    }
}


} // verus!
