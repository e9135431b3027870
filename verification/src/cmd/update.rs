//! `latch update`: fetch the latest release, check its SHA-256, and put it in
//! the place of this binary.
//!
//! Fetching and unpacking is left to curl and tar. An update is a state that
//! takes in what the outside did and says what it is to do next.
use vstd::prelude::*;
use vstd::utf8::*;

use crate::{jwt, outside, text};

verus! {

pub const LATEST_URL: &'static str = "https://api.github.com/repos/TerryTsai/latch/releases/latest";

pub const DOWNLOAD_URL: &'static str = "https://github.com/TerryTsai/latch/releases/download/";

pub const ARCHIVE: &'static str = "/latch-x86_64-unknown-linux-musl.tar.gz";

// --- may the binary be replaced? --------------------------------------------

/// Who may replace a binary: root, its owner, or anybody where everybody may
/// write to it.
pub open spec fn may_replace(uid: u32, owner: u32, permissions: u32) -> bool {
    uid == 0 || owner == uid || permissions & 2 != 0
}

/// What is said to who may not replace a binary.
pub open spec fn not_replaceable(bin: Seq<char>) -> Seq<char> {
    "can't replace "@ + bin + " as the current user.\nrun:\n    sudo latch update"@
}

/// Whether the user `uid` may replace the binary at `bin`, given its owner and
/// its permissions.
pub fn require_writable_binary(bin: &str, uid: u32, owner: u32, permissions: u32) -> (res: Result<
    (),
    String,
>)
    ensures
        match res {
            Ok(_) => may_replace(uid, owner, permissions),
            Err(e) => !may_replace(uid, owner, permissions) && e@ == not_replaceable(bin@),
        },
{
    if uid == 0 {
        return Ok(());
    }
    if owner != uid && permissions & 2 == 0 {
        return Err(
            "can't replace ".to_owned().concat(bin).concat(
                " as the current user.\nrun:\n    sudo latch update",
            ),
        );
    }
    Ok(())
}

// --- fetching ---------------------------------------------------------------

/// What fetching a URL ended with.
#[derive(Debug)]
pub enum Fetched {
    /// curl could not be run, for the reason given.
    NotRun(String),
    /// curl failed, and said this.
    Failed(String),
    /// These bytes.
    Bytes(Vec<u8>),
}

/// The arguments of curl: fail on errors, follow redirects, and speak nothing
/// but https.
pub fn curl_args(url: &str) -> (res: Vec<String>)
    ensures
        text::texts(res@) == seq!["-fsSL"@, "--proto"@, "=https"@, "--tlsv1.2"@, url@],
{
    let mut out: Vec<String> = Vec::new();
    out.push("-fsSL".to_owned());
    out.push("--proto".to_owned());
    out.push("=https".to_owned());
    out.push("--tlsv1.2".to_owned());
    out.push(url.to_owned());
    assert(text::texts(out@) =~= seq!["-fsSL"@, "--proto"@, "=https"@, "--tlsv1.2"@, url@]);
    out
}

/// The bytes that fetching a URL gave.
pub open spec fn fetched_bytes(url: Seq<char>, fetched: Fetched) -> Result<Seq<u8>, Seq<char>> {
    match fetched {
        Fetched::NotRun(e) => Err("curl: "@ + e@),
        Fetched::Failed(e) => Err("curl "@ + url + ": "@ + e@),
        Fetched::Bytes(b) => Ok(b@),
    }
}

/// The text that fetching a URL gave.
pub open spec fn fetched_text(url: Seq<char>, fetched: Fetched) -> Result<Seq<char>, Seq<char>> {
    match fetched_bytes(url, fetched) {
        Err(e) => Err(e),
        Ok(b) => if valid_utf8(b) {
            Ok(decode_utf8(b))
        } else {
            Err("response not utf-8: "@ + outside::utf8_complaint(b))
        },
    }
}

/// The bytes that fetching a URL gave.
pub fn curl_bytes(url: &str, fetched: Fetched) -> (res: Result<Vec<u8>, String>)
    ensures
        jwt::bytes_or_text(res) == fetched_bytes(url@, fetched),
{
    match fetched {
        Fetched::NotRun(e) => Err("curl: ".to_owned().concat(e.as_str())),
        Fetched::Failed(e) => Err("curl ".to_owned().concat(url).concat(": ").concat(e.as_str())),
        Fetched::Bytes(b) => Ok(b),
    }
}

/// The text of a response, once decoding it has come to `decoded`.
pub fn response_text(decoded: Result<String, String>) -> (res: Result<String, String>)
    ensures
        jwt::text_or_text(res) == match jwt::text_or_text(decoded) {
            Ok(s) => Ok(s),
            Err(e) => Err("response not utf-8: "@ + e),
        },
{
    match decoded {
        Ok(s) => Ok(s),
        Err(e) => Err("response not utf-8: ".to_owned().concat(e.as_str())),
    }
}

/// The text that fetching a URL gave.
pub fn curl_text(url: &str, fetched: Fetched) -> (res: Result<String, String>)
    ensures
        jwt::text_or_text(res) == fetched_text(url@, fetched),
{
    match curl_bytes(url, fetched) {
        Err(e) => Err(e),
        Ok(b) => response_text(outside::string_from_utf8(b)),
    }
}

// --- the latest release -----------------------------------------------------

/// What follows the first `mark`, up to the next.
pub open spec fn behind(s: Seq<char>, mark: Seq<char>) -> Option<Seq<char>> {
    match text::first_at(s, mark) {
        None => None,
        Some(i) => {
            let rest = s.skip(i + mark.len());
            match text::first_at(rest, mark) {
                None => Some(rest),
                Some(j) => Some(rest.take(j)),
            }
        },
    }
}

/// The tag that an answer about the latest release names: what stands in the
/// next quotes behind `"tag_name":`.
pub open spec fn tag_in(body: Seq<char>) -> Result<Seq<char>, Seq<char>> {
    match behind(body, "\"tag_name\":"@) {
        None => Err("no tag_name in API response"@),
        Some(s) => if text::pieces(s, '"').len() < 2 {
            Err("no tag_name in API response"@)
        } else {
            Ok(text::pieces(s, '"')[1])
        },
    }
}

/// What follows the first `mark`, up to the next.
fn text_behind(s: &str, mark: &str) -> (res: Option<String>)
    ensures
        text::text_of(res) == behind(s@, mark@),
{
    let a = text::chars_of(s);
    let m = text::chars_of(mark);
    let n: usize = a.len();
    proof {
        text::lemma_find_from(s@, mark@, 0);
    }
    match text::position(&a, &m, 0) {
        None => None,
        Some(i) => {
            let rest = text::string_of(&a, i + m.len(), n);
            assert(rest@ =~= s@.skip(i + mark@.len()));
            let r = text::chars_of(rest.as_str());
            proof {
                text::lemma_find_from(rest@, mark@, 0);
            }
            match text::position(&r, &m, 0) {
                None => Some(rest),
                Some(j) => {
                    let head = text::string_of(&r, 0, j);
                    assert(head@ =~= rest@.take(j as int));
                    Some(head)
                },
            }
        },
    }
}

/// The tag that an answer about the latest release names.
pub fn latest_tag(body: &str) -> (res: Result<String, String>)
    ensures
        jwt::text_or_text(res) == tag_in(body@),
{
    match text_behind(body, "\"tag_name\":") {
        None => Err("no tag_name in API response".to_owned()),
        Some(s) => {
            let parts = text::split(s.as_str(), '"');
            if parts.len() < 2 {
                return Err("no tag_name in API response".to_owned());
            }
            assert(text::texts(parts@)[1] == parts@[1]@);
            Ok(parts[1].clone())
        },
    }
}

/// The tag of the latest release, given what fetching `LATEST_URL` ended
/// with.
pub fn fetch_latest_tag(fetched: Fetched) -> (res: Result<String, String>)
    ensures
        jwt::text_or_text(res) == tag_fetched(fetched),
{
    match curl_text(LATEST_URL, fetched) {
        Err(e) => Err(e),
        Ok(body) => latest_tag(body.as_str()),
    }
}

/// `s` without every `v` at its start.
pub open spec fn without_v(s: Seq<char>) -> Seq<char>
    decreases s.len(),
{
    if s.len() > 0 && s[0] == 'v' {
        without_v(s.drop_first())
    } else {
        s
    }
}

/// The version that a tag names.
pub fn version_of(tag: &str) -> (res: String)
    ensures
        res@ == without_v(tag@),
{
    let a = text::chars_of(tag);
    let n: usize = a.len();
    let mut i: usize = 0;
    assert(a@.skip(0) =~= a@);
    while i < n && a[i] == 'v'
        invariant
            n == a@.len(),
            i <= n,
            without_v(a@) == without_v(a@.skip(i as int)),
        decreases n - i,
    {
        assert(a@.skip(i as int).drop_first() =~= a@.skip(i + 1));
        i = i + 1;
    }
    assert(a@.subrange(i as int, n as int) =~= a@.skip(i as int));
    text::string_of(&a, i, n)
}

// --- the plan ---------------------------------------------------------------

/// What `latch update` does once it knows the latest release.
#[derive(Debug)]
pub enum Plan {
    /// Say this, and nothing else.
    UpToDate(String),
    /// Say this, then fetch an archive and the file that holds its SHA-256.
    Fetch { notes: String, version: String, archive: String, checksum: String },
}

/// The contents of a `Plan`.
pub enum PlanView {
    UpToDate(Seq<char>),
    Fetch { notes: Seq<char>, version: Seq<char>, archive: Seq<char>, checksum: Seq<char> },
}

impl View for Plan {
    type V = PlanView;

    open spec fn view(&self) -> PlanView {
        match self {
            Plan::UpToDate(note) => PlanView::UpToDate(note@),
            Plan::Fetch { notes, version, archive, checksum } => PlanView::Fetch {
                notes: notes@,
                version: version@,
                archive: archive@,
                checksum: checksum@,
            },
        }
    }
}

/// What `latch update` does, from version `current`, for the tag of the latest
/// release.
pub open spec fn planned(current: Seq<char>, tag: Seq<char>) -> PlanView {
    let version = without_v(tag);
    if current == version {
        PlanView::UpToDate("already up to date ("@ + current + ")\n"@)
    } else {
        let archive = DOWNLOAD_URL@ + tag + ARCHIVE@;
        PlanView::Fetch {
            notes: "updating: "@ + current + " \u{2192} "@ + version + "\ndownloading "@ + archive
                + "\n"@,
            version,
            archive,
            checksum: archive + ".sha256"@,
        }
    }
}

/// What `latch update` does, from version `current`, for the tag of the latest
/// release.
pub fn plan(current: &str, tag: &str) -> (res: Plan)
    ensures
        res@ == planned(current@, tag@),
{
    let version = version_of(tag);
    if text::same(current, version.as_str()) {
        return Plan::UpToDate("already up to date (".to_owned().concat(current).concat(")\n"));
    }
    let archive = DOWNLOAD_URL.to_owned().concat(tag).concat(ARCHIVE);
    let checksum = archive.clone().concat(".sha256");
    let notes = "updating: ".to_owned().concat(current).concat(" \u{2192} ").concat(
        version.as_str(),
    ).concat("\ndownloading ").concat(archive.as_str()).concat("\n");
    Plan::Fetch { notes, version, archive, checksum }
}

// --- checking what was fetched ----------------------------------------------

/// The SHA-256 that a checksum file names: its first word, in lower case.
pub open spec fn expected_digest(checksum: Seq<char>) -> Option<Seq<char>> {
    match text::leading_word(checksum) {
        Some(w) => Some(outside::lowercase_text(w)),
        None => None,
    }
}

/// What computing the SHA-256 of bytes can come to: its hexadecimal text, or a
/// failure of the machine.
pub open spec fn digest_outcome(bytes: Seq<u8>, digest: Result<Seq<char>, Seq<char>>) -> bool {
    digest matches Ok(d) ==> d == text::hex_text(outside::sha256_of(bytes))
}

/// What holding a digest against the one that is expected comes to.
pub open spec fn download_verdict(
    expected: Option<Seq<char>>,
    digest: Result<Seq<char>, Seq<char>>,
) -> Result<(), Seq<char>> {
    match expected {
        None => Err("malformed sha256 file"@),
        Some(want) => match digest {
            Err(e) => Err(e),
            Ok(got) => if want == got {
                Ok(())
            } else {
                Err("sha256 mismatch: expected "@ + want + ", got "@ + got)
            },
        },
    }
}

/// A result with the text of its error.
pub open spec fn unit_or_text(r: Result<(), String>) -> Result<(), Seq<char>> {
    match r {
        Ok(_) => Ok(()),
        Err(e) => Err(e@),
    }
}

/// The hexadecimal text of a digest, once computing it has come to `digest`.
pub fn digest_text(digest: Result<Vec<u8>, String>) -> (res: Result<String, String>)
    ensures
        jwt::text_or_text(res) == match jwt::bytes_or_text(digest) {
            Ok(d) => Ok(text::hex_text(d)),
            Err(e) => Err(e),
        },
{
    match digest {
        Ok(d) => Ok(text::hex(&d)),
        Err(e) => Err(e),
    }
}

/// The hexadecimal text of a SHA-256, or the text of OpenSSL's error. Whether
/// it can be computed rests with the machine.
pub fn sha256_hex(bytes: &[u8]) -> (res: Result<String, String>)
    ensures
        digest_outcome(bytes@, jwt::text_or_text(res)),
{
    digest_text(
        match outside::sha256(bytes) {
            Ok(d) => Ok(d),
            Err(e) => Err(e.to_string()),
        },
    )
}

/// What holding a digest against the one that is expected comes to.
pub fn match_digest(expected: Option<String>, digest: Result<String, String>) -> (res: Result<
    (),
    String,
>)
    ensures
        unit_or_text(res) == download_verdict(
            text::text_of(expected),
            jwt::text_or_text(digest),
        ),
{
    let want = match expected {
        Some(w) => w,
        None => {
            return Err("malformed sha256 file".to_owned());
        },
    };
    match digest {
        Err(e) => Err(e),
        Ok(got) => if text::same(want.as_str(), got.as_str()) {
            Ok(())
        } else {
            Err(
                "sha256 mismatch: expected ".to_owned().concat(want.as_str()).concat(
                    ", got ",
                ).concat(got.as_str()),
            )
        },
    }
}

/// Whether an archive is the one whose checksum was published.
pub fn verify_download(archive: &[u8], checksum: &str) -> (res: Result<(), String>)
    ensures
        exists|digest: Result<Seq<char>, Seq<char>>| #[trigger]
            digest_outcome(archive@, digest) && unit_or_text(res) == download_verdict(
                expected_digest(checksum@),
                digest,
            ),
{
    let expected = match text::first_word(checksum) {
        Some(w) => Some(outside::lowercase(w.as_str())),
        None => None,
    };
    let digest = sha256_hex(archive);
    assert(digest_outcome(archive@, jwt::text_or_text(digest)));
    assert(text::text_of(expected) == expected_digest(checksum@));
    match_digest(expected, digest)
}

/// How unpacking an archive ended.
#[derive(Debug)]
pub enum Unpacked {
    /// tar could not be run, for the reason given.
    NotRun(String),
    /// tar failed.
    Failed,
    /// tar is done; the archive held a file `latch`, or it did not.
    Done { binary: bool },
}

/// Whether an archive gave a new binary.
pub open spec fn unpack_verdict(unpacked: Unpacked) -> Result<(), Seq<char>> {
    match unpacked {
        Unpacked::NotRun(e) => Err("tar: "@ + e@),
        Unpacked::Failed => Err("tar failed"@),
        Unpacked::Done { binary } => if binary {
            Ok(())
        } else {
            Err("tarball didn't contain `latch`"@)
        },
    }
}

/// Whether an archive gave a new binary.
pub fn unpacked_binary(unpacked: &Unpacked) -> (res: Result<(), String>)
    ensures
        unit_or_text(res) == unpack_verdict(*unpacked),
{
    match unpacked {
        Unpacked::NotRun(e) => Err("tar: ".to_owned().concat(e.as_str())),
        Unpacked::Failed => Err("tar failed".to_owned()),
        Unpacked::Done { binary } => if *binary {
            Ok(())
        } else {
            Err("tarball didn't contain `latch`".to_owned())
        },
    }
}

/// What is said once the binary has been replaced.
pub open spec fn replaced_note(bin: Seq<char>, version: Seq<char>) -> Seq<char> {
    "replaced "@ + bin + " with "@ + version + "\n"@
}

/// What is said once the binary has been replaced.
pub fn replaced(bin: &str, version: &str) -> (res: String)
    ensures
        res@ == replaced_note(bin@, version@),
{
    "replaced ".to_owned().concat(bin).concat(" with ").concat(version).concat("\n")
}

/// What is said of the service at last.
pub open spec fn service_note(active: bool) -> Seq<char> {
    if active {
        "restarting systemd service...\n"@
    } else {
        "not running under systemd; restart manually if needed.\n"@
    }
}

/// What is said of the service at last.
pub fn restart_note(active: bool) -> (res: String)
    ensures
        res@ == service_note(active),
{
    if active {
        "restarting systemd service...\n".to_owned()
    } else {
        "not running under systemd; restart manually if needed.\n".to_owned()
    }
}

// --- the order of things ----------------------------------------------------

/// How far an update has come: what it waits for.
#[derive(Copy, Clone, Debug, PartialEq, Eq, Structural)]
pub enum Stage {
    /// Who owns the running binary.
    Inspect,
    /// The answer about the latest release.
    Latest,
    /// The archive.
    Archive,
    /// The checksum of the archive.
    Checksum,
    /// The archive, unpacked.
    Unpack,
    /// The new binary, in its place.
    Install,
    /// Whether the service is running.
    Service,
    /// The service, restarted.
    Restart,
    /// Nothing more.
    Over,
}

/// An update under way. What is not known yet is empty.
#[derive(Debug)]
pub struct Update {
    pub stage: Stage,
    /// What is said now.
    pub said: String,
    /// Why the update failed.
    pub failure: Option<String>,
    /// The running version, and where its binary is.
    pub current: String,
    pub bin: String,
    /// The version of the latest release.
    pub version: String,
    /// Where its archive is, and the checksum of that.
    pub archive_url: String,
    pub checksum_url: String,
    /// The archive, and the text of its checksum file.
    pub archive: Vec<u8>,
    pub checksum: String,
}

/// The contents of an `Update`.
pub struct UpdateView {
    pub stage: Stage,
    pub said: Seq<char>,
    pub failure: Option<Seq<char>>,
    pub current: Seq<char>,
    pub bin: Seq<char>,
    pub version: Seq<char>,
    pub archive_url: Seq<char>,
    pub checksum_url: Seq<char>,
    pub archive: Seq<u8>,
    pub checksum: Seq<char>,
}

impl View for Update {
    type V = UpdateView;

    open spec fn view(&self) -> UpdateView {
        UpdateView {
            stage: self.stage,
            said: self.said@,
            failure: text::text_of(self.failure),
            current: self.current@,
            bin: self.bin@,
            version: self.version@,
            archive_url: self.archive_url@,
            checksum_url: self.checksum_url@,
            archive: self.archive@,
            checksum: self.checksum@,
        }
    }
}

/// What the outside did.
#[derive(Debug)]
pub enum Event {
    /// It failed, in these words.
    Failed(String),
    /// The running binary is here, and this user may have to replace it, given
    /// its owner and its permissions.
    Binary { path: String, uid: u32, owner: u32, permissions: u32 },
    /// Fetching ended with this.
    Fetched(Fetched),
    /// Unpacking ended with this.
    Unpacked(Unpacked),
    /// The new binary is in its place.
    Installed,
    /// The service is running, or it is not.
    Service { active: bool },
    /// The service was told to restart.
    Restarted,
}

/// What the outside is to do next.
#[derive(Debug)]
pub enum Action {
    /// See who owns the running binary.
    Inspect,
    /// Fetch a URL.
    Fetch(String),
    /// Unpack the archive of the update.
    Unpack,
    /// Put the new binary in the place of the running one.
    Install,
    /// See whether the service is running.
    AskService,
    /// Restart the service.
    Restart,
    /// Nothing: all is done.
    Done,
    /// Nothing: the update failed, for the reason given.
    Fail(String),
}

/// The contents of an `Action`.
pub enum ActionView {
    Inspect,
    Fetch(Seq<char>),
    Unpack,
    Install,
    AskService,
    Restart,
    Done,
    Fail(Seq<char>),
}

impl View for Action {
    type V = ActionView;

    open spec fn view(&self) -> ActionView {
        match self {
            Action::Inspect => ActionView::Inspect,
            Action::Fetch(url) => ActionView::Fetch(url@),
            Action::Unpack => ActionView::Unpack,
            Action::Install => ActionView::Install,
            Action::AskService => ActionView::AskService,
            Action::Restart => ActionView::Restart,
            Action::Done => ActionView::Done,
            Action::Fail(why) => ActionView::Fail(why@),
        }
    }
}

/// What the outside is to do next in an update.
pub open spec fn asked(s: UpdateView) -> ActionView {
    match s.stage {
        Stage::Inspect => ActionView::Inspect,
        Stage::Latest => ActionView::Fetch(LATEST_URL@),
        Stage::Archive => ActionView::Fetch(s.archive_url),
        Stage::Checksum => ActionView::Fetch(s.checksum_url),
        Stage::Unpack => ActionView::Unpack,
        Stage::Install => ActionView::Install,
        Stage::Service => ActionView::AskService,
        Stage::Restart => ActionView::Restart,
        Stage::Over => match s.failure {
            Some(why) => ActionView::Fail(why),
            None => ActionView::Done,
        },
    }
}

/// An update that comes to a stage, with something said.
pub open spec fn moved(s: UpdateView, stage: Stage, said: Seq<char>) -> UpdateView {
    UpdateView { stage, said, ..s }
}

/// An update that fails.
pub open spec fn ended(s: UpdateView, why: Seq<char>) -> UpdateView {
    UpdateView { failure: Some(why), ..moved(s, Stage::Over, ""@) }
}

/// The tag of the latest release, given what fetching `LATEST_URL` ended
/// with.
pub open spec fn tag_fetched(fetched: Fetched) -> Result<Seq<char>, Seq<char>> {
    match fetched_text(LATEST_URL@, fetched) {
        Err(e) => Err(e),
        Ok(body) => tag_in(body),
    }
}

/// An update at its start.
pub open spec fn started(current: Seq<char>) -> UpdateView {
    UpdateView {
        stage: Stage::Inspect,
        said: ""@,
        failure: None,
        current,
        bin: ""@,
        version: ""@,
        archive_url: ""@,
        checksum_url: ""@,
        archive: Seq::empty(),
        checksum: ""@,
    }
}

/// An update once the outside has done something; `digest` is what computing
/// the SHA-256 of its archive comes to. What it does not wait for changes
/// nothing.
pub open spec fn stepped(
    s: UpdateView,
    event: Event,
    digest: Result<Seq<char>, Seq<char>>,
) -> UpdateView {
    match (s.stage, event) {
        (Stage::Over, _) => moved(s, Stage::Over, ""@),
        (_, Event::Failed(why)) => ended(s, why@),
        (Stage::Inspect, Event::Binary { path, uid, owner, permissions }) => if may_replace(
            uid,
            owner,
            permissions,
        ) {
            UpdateView { bin: path@, ..moved(s, Stage::Latest, ""@) }
        } else {
            ended(s, not_replaceable(path@))
        },
        (Stage::Latest, Event::Fetched(fetched)) => match tag_fetched(fetched) {
            Err(e) => ended(s, e),
            Ok(tag) => match planned(s.current, tag) {
                PlanView::UpToDate(note) => moved(s, Stage::Over, note),
                PlanView::Fetch { notes, version, archive, checksum } => UpdateView {
                    version,
                    archive_url: archive,
                    checksum_url: checksum,
                    ..moved(s, Stage::Archive, notes)
                },
            },
        },
        (Stage::Archive, Event::Fetched(fetched)) => match fetched_bytes(s.archive_url, fetched) {
            Err(e) => ended(s, e),
            Ok(archive) => UpdateView { archive, ..moved(s, Stage::Checksum, ""@) },
        },
        (Stage::Checksum, Event::Fetched(fetched)) => match fetched_text(s.checksum_url, fetched) {
            Err(e) => ended(s, e),
            Ok(checksum) => match download_verdict(expected_digest(checksum), digest) {
                Err(e) => ended(s, e),
                Ok(_) => UpdateView { checksum, ..moved(s, Stage::Unpack, "sha256 verified\n"@) },
            },
        },
        (Stage::Unpack, Event::Unpacked(unpacked)) => match unpack_verdict(unpacked) {
            Err(e) => ended(s, e),
            Ok(_) => moved(s, Stage::Install, ""@),
        },
        (Stage::Install, Event::Installed) => moved(
            s,
            Stage::Service,
            replaced_note(s.bin, s.version),
        ),
        (Stage::Service, Event::Service { active }) => moved(
            s,
            if active {
                Stage::Restart
            } else {
                Stage::Over
            },
            service_note(active),
        ),
        (Stage::Restart, Event::Restarted) => moved(s, Stage::Over, ""@),
        _ => moved(s, s.stage, ""@),
    }
}

/// An update at its start, from version `current`, and what the outside is to
/// do first.
pub fn start(current: &str) -> (res: (Update, Action))
    ensures
        res.0@ == started(current@),
        res.1@ == asked(res.0@),
{
    let s = Update {
        stage: Stage::Inspect,
        said: "".to_owned(),
        failure: None,
        current: current.to_owned(),
        bin: "".to_owned(),
        version: "".to_owned(),
        archive_url: "".to_owned(),
        checksum_url: "".to_owned(),
        archive: Vec::new(),
        checksum: "".to_owned(),
    };
    assert(s.archive@ =~= Seq::empty());
    (s, Action::Inspect)
}

/// What the outside is to do next in an update.
pub fn ask(s: &Update) -> (res: Action)
    ensures
        res@ == asked(s@),
{
    match s.stage {
        Stage::Inspect => Action::Inspect,
        Stage::Latest => Action::Fetch(LATEST_URL.to_owned()),
        Stage::Archive => Action::Fetch(s.archive_url.clone()),
        Stage::Checksum => Action::Fetch(s.checksum_url.clone()),
        Stage::Unpack => Action::Unpack,
        Stage::Install => Action::Install,
        Stage::Service => Action::AskService,
        Stage::Restart => Action::Restart,
        Stage::Over => match &s.failure {
            Some(why) => Action::Fail(why.clone()),
            None => Action::Done,
        },
    }
}

fn fail(state: Update, why: String) -> (res: Update)
    ensures
        res@ == ended(state@, why@),
{
    Update { stage: Stage::Over, said: "".to_owned(), failure: Some(why), ..state }
}

fn go(state: Update, stage: Stage, said: String) -> (res: Update)
    ensures
        res@ == moved(state@, stage, said@),
{
    Update { stage, said, ..state }
}

fn step_inspected(state: Update, path: String, uid: u32, owner: u32, permissions: u32) -> (res:
    Update)
    requires
        state.stage == Stage::Inspect,
    ensures
        forall|digest: Result<Seq<char>, Seq<char>>|
            res@ == #[trigger] stepped(
                state@,
                Event::Binary { path, uid, owner, permissions },
                digest,
            ),
{
    match require_writable_binary(path.as_str(), uid, owner, permissions) {
        Ok(_) => Update { bin: path, ..go(state, Stage::Latest, "".to_owned()) },
        Err(e) => fail(state, e),
    }
}

fn step_latest(state: Update, fetched: Fetched) -> (res: Update)
    requires
        state.stage == Stage::Latest,
    ensures
        forall|digest: Result<Seq<char>, Seq<char>>|
            res@ == #[trigger] stepped(state@, Event::Fetched(fetched), digest),
{
    match fetch_latest_tag(fetched) {
        Err(e) => fail(state, e),
        Ok(tag) => match plan(state.current.as_str(), tag.as_str()) {
            Plan::UpToDate(note) => go(state, Stage::Over, note),
            Plan::Fetch { notes, version, archive, checksum } => Update {
                version,
                archive_url: archive,
                checksum_url: checksum,
                ..go(state, Stage::Archive, notes)
            },
        },
    }
}

fn step_archive(state: Update, fetched: Fetched) -> (res: Update)
    requires
        state.stage == Stage::Archive,
    ensures
        forall|digest: Result<Seq<char>, Seq<char>>|
            res@ == #[trigger] stepped(state@, Event::Fetched(fetched), digest),
{
    match curl_bytes(state.archive_url.as_str(), fetched) {
        Err(e) => fail(state, e),
        Ok(archive) => Update { archive, ..go(state, Stage::Checksum, "".to_owned()) },
    }
}

fn step_checksum(state: Update, fetched: Fetched) -> (res: Update)
    requires
        state.stage == Stage::Checksum,
    ensures
        exists|digest: Result<Seq<char>, Seq<char>>| #[trigger]
            digest_outcome(state@.archive, digest) && res@ == stepped(
                state@,
                Event::Fetched(fetched),
                digest,
            ),
{
    let text = curl_text(state.checksum_url.as_str(), fetched);
    match text {
        Err(e) => {
            assert(digest_outcome(state@.archive, Err(Seq::empty())));
            fail(state, e)
        },
        Ok(checksum) => {
            let verdict = verify_download(state.archive.as_slice(), checksum.as_str());
            let ghost digest = choose|digest: Result<Seq<char>, Seq<char>>| #[trigger]
                digest_outcome(state@.archive, digest) && unit_or_text(verdict)
                    == download_verdict(expected_digest(checksum@), digest);
            assert(digest_outcome(state@.archive, digest));
            match verdict {
                Err(e) => fail(state, e),
                Ok(_) => Update {
                    checksum,
                    ..go(state, Stage::Unpack, "sha256 verified\n".to_owned())
                },
            }
        },
    }
}

fn step_unpacked(state: Update, unpacked: Unpacked) -> (res: Update)
    requires
        state.stage == Stage::Unpack,
    ensures
        forall|digest: Result<Seq<char>, Seq<char>>|
            res@ == #[trigger] stepped(state@, Event::Unpacked(unpacked), digest),
{
    match unpacked_binary(&unpacked) {
        Err(e) => fail(state, e),
        Ok(_) => go(state, Stage::Install, "".to_owned()),
    }
}

fn step(state: Update, event: Event) -> (res: Update)
    ensures
        exists|digest: Result<Seq<char>, Seq<char>>| #[trigger]
            digest_outcome(state@.archive, digest) && res@ == stepped(state@, event, digest),
{
    let stage = state.stage;
    assert(digest_outcome(state@.archive, Err(Seq::empty())));
    if stage == Stage::Over {
        return go(state, stage, "".to_owned());
    }
    match event {
        Event::Failed(why) => fail(state, why),
        Event::Binary { path, uid, owner, permissions } => if stage == Stage::Inspect {
            step_inspected(state, path, uid, owner, permissions)
        } else {
            go(state, stage, "".to_owned())
        },
        Event::Fetched(fetched) => if stage == Stage::Latest {
            step_latest(state, fetched)
        } else if stage == Stage::Archive {
            step_archive(state, fetched)
        } else if stage == Stage::Checksum {
            step_checksum(state, fetched)
        } else {
            go(state, stage, "".to_owned())
        },
        Event::Unpacked(unpacked) => if stage == Stage::Unpack {
            step_unpacked(state, unpacked)
        } else {
            go(state, stage, "".to_owned())
        },
        Event::Installed => if stage == Stage::Install {
            let note = replaced(state.bin.as_str(), state.version.as_str());
            go(state, Stage::Service, note)
        } else {
            go(state, stage, "".to_owned())
        },
        Event::Service { active } => if stage == Stage::Service {
            let next = if active {
                Stage::Restart
            } else {
                Stage::Over
            };
            go(state, next, restart_note(active))
        } else {
            go(state, stage, "".to_owned())
        },
        Event::Restarted => if stage == Stage::Restart {
            go(state, Stage::Over, "".to_owned())
        } else {
            go(state, stage, "".to_owned())
        },
    }
}

/// An update once the outside has done something, and what it is to do next.
/// Whether a SHA-256 can be computed rests with the machine.
pub fn next(state: Update, event: Event) -> (res: (Update, Action))
    ensures
        exists|digest: Result<Seq<char>, Seq<char>>| #[trigger]
            digest_outcome(state@.archive, digest) && res.0@ == stepped(state@, event, digest),
        res.1@ == asked(res.0@),
{
    let s = step(state, event);
    let action = ask(&s);
    (s, action)
}

// --- laws -------------------------------------------------------------------

/// An archive passes only with the SHA-256 that its checksum file names.
pub proof fn installed_archives_match(
    archive: Seq<u8>,
    checksum: Seq<char>,
    digest: Result<Seq<char>, Seq<char>>,
)
    requires
        digest_outcome(archive, digest),
        download_verdict(expected_digest(checksum), digest) is Ok,
    ensures
        expected_digest(checksum) == Some(text::hex_text(outside::sha256_of(archive))),
{
}

/// The archive of an update has the SHA-256 that its checksum file names.
pub open spec fn is_checked(s: UpdateView) -> bool {
    expected_digest(s.checksum) == Some(text::hex_text(outside::sha256_of(s.archive)))
}

/// An update that has come past the checksum has an archive that was checked.
pub open spec fn is_sound(s: UpdateView) -> bool {
    match s.stage {
        Stage::Unpack | Stage::Install | Stage::Service | Stage::Restart => is_checked(s),
        _ => true,
    }
}

/// One thing that the outside did, and what computing the SHA-256 came to.
pub struct Turn {
    pub event: Event,
    pub digest: Result<Seq<char>, Seq<char>>,
}

/// An update from version `current` after some turns.
pub open spec fn after_turns(current: Seq<char>, turns: Seq<Turn>) -> UpdateView
    decreases turns.len(),
{
    if turns.len() == 0 {
        started(current)
    } else {
        stepped(
            after_turns(current, turns.drop_last()),
            turns.last().event,
            turns.last().digest,
        )
    }
}

/// Every SHA-256 that was computed is that of the archive at hand.
pub open spec fn is_run(current: Seq<char>, turns: Seq<Turn>) -> bool {
    forall|i: int|
        0 <= i < turns.len() ==> digest_outcome(
            after_turns(current, turns.take(i)).archive,
            (#[trigger] turns[i]).digest,
        )
}

/// Nothing is unpacked, installed or restarted before the archive was found to
/// have the SHA-256 that its checksum file names, whatever the outside does
/// and in whatever order.
pub proof fn only_checked_archives_are_installed(current: Seq<char>, turns: Seq<Turn>)
    requires
        is_run(current, turns),
    ensures
        is_sound(after_turns(current, turns)),
        asked(after_turns(current, turns)) is Unpack ==> is_checked(after_turns(current, turns)),
        asked(after_turns(current, turns)) is Install ==> is_checked(after_turns(current, turns)),
        asked(after_turns(current, turns)) is Restart ==> is_checked(after_turns(current, turns)),
    decreases turns.len(),
{
    if turns.len() > 0 {
        let head = turns.drop_last();
        assert forall|i: int| 0 <= i < head.len() implies digest_outcome(
            after_turns(current, head.take(i)).archive,
            (#[trigger] head[i]).digest,
        ) by {
            assert(head.take(i) =~= turns.take(i));
            assert(head[i] == turns[i]);
        }
        only_checked_archives_are_installed(current, head);
        assert(turns.take(turns.len() - 1) =~= head);
        assert(turns[turns.len() - 1] == turns.last());
    }
}

/// An update that is over stays over, with the outcome it had.
pub proof fn nothing_follows_the_end(s: UpdateView, event: Event, digest: Result<Seq<char>, Seq<char>>)
    requires
        s.stage == Stage::Over,
    ensures
        asked(stepped(s, event, digest)) == asked(s),
        stepped(s, event, digest).stage == Stage::Over,
{
}

/// A failure ends an update wherever it stands, and a binary is put in place
/// only once one was unpacked.
pub proof fn failures_end_updates(s: UpdateView, event: Event, digest: Result<Seq<char>, Seq<char>>)
    requires
        s.stage != Stage::Over,
    ensures
        event matches Event::Failed(why) ==> asked(stepped(s, event, digest)) == ActionView::Fail(
            why@,
        ),
        s.stage != Stage::Install && asked(stepped(s, event, digest)) is Install ==> s.stage
            == Stage::Unpack && event == Event::Unpacked(Unpacked::Done { binary: true }),
{
}

/// A release tagged with the running version, behind a `v` or not, is not
/// fetched again.
pub proof fn the_same_version_is_not_fetched(version: Seq<char>)
    requires
        version.len() > 0 ==> version[0] != 'v',
    ensures
        planned(version, version) is UpToDate,
        planned(version, seq!['v'] + version) is UpToDate,
{
    assert((seq!['v'] + version).drop_first() =~= version);
    assert(without_v(seq!['v'] + version) == without_v(version));
}

} // verus!
