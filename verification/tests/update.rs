use latch::cmd::update::{
    ask, curl_args, curl_bytes, curl_text, digest_text, fetch_latest_tag, latest_tag, match_digest,
    next, plan, replaced, require_writable_binary, restart_note, sha256_hex, start, unpacked_binary,
    verify_download, version_of, Action, Event, Fetched, Plan, Stage, Unpacked, Update,
};

const EMPTY: &str = "e3b0c44298fc1c149afbf4c8996fb92427ae41e4649b934ca495991b7852b855";

#[test]
fn who_may_replace_the_binary() {
    assert!(require_writable_binary("/b", 0, 5, 0).is_ok());
    assert!(require_writable_binary("/b", 5, 5, 0).is_ok());
    assert!(require_writable_binary("/b", 5, 0, 0o777).is_ok());
    assert_eq!(
        require_writable_binary("/b", 5, 0, 0o755).unwrap_err(),
        "can't replace /b as the current user.\nrun:\n    sudo latch update"
    );
}

#[test]
fn fetching() {
    assert_eq!(curl_args("u"), ["-fsSL", "--proto", "=https", "--tlsv1.2", "u"]);
    assert_eq!(curl_bytes("u", Fetched::Bytes(vec![1])).unwrap(), [1]);
    assert_eq!(curl_bytes("u", Fetched::NotRun("x".into())).unwrap_err(), "curl: x");
    assert_eq!(curl_bytes("u", Fetched::Failed("404".into())).unwrap_err(), "curl u: 404");
    assert_eq!(curl_text("u", Fetched::Bytes("\u{e9}".as_bytes().to_vec())).unwrap(), "\u{e9}");
    assert_eq!(
        curl_text("u", Fetched::Bytes(vec![b'a', 0xff])).unwrap_err(),
        "response not utf-8: invalid utf-8 sequence of 1 bytes from index 1"
    );
}

#[test]
fn tags_are_found() {
    let err = "no tag_name in API response";
    assert_eq!(latest_tag("{\"id\":1,\"tag_name\": \"v0.6.1\",\"x\":\"y\"}").unwrap(), "v0.6.1");
    assert_eq!(latest_tag("{}").unwrap_err(), err);
    assert_eq!(latest_tag("\"tag_name\":null").unwrap_err(), err);
    assert_eq!(latest_tag("\"tag_name\":\"\"tag_name\":").unwrap(), "");
    assert_eq!(latest_tag("\"tag_name\":\"tag_name\":\"v1\"").unwrap_err(), err);
    let body = b"{\"tag_name\":\"v2\"}".to_vec();
    assert_eq!(fetch_latest_tag(Fetched::Bytes(body)).unwrap(), "v2");
    assert_eq!(
        fetch_latest_tag(Fetched::Failed("no".into())).unwrap_err(),
        "curl https://api.github.com/repos/TerryTsai/latch/releases/latest: no"
    );
}

#[test]
fn versions_of_tags() {
    assert_eq!(version_of("v0.6.0"), "0.6.0");
    assert_eq!(version_of("0.6.0"), "0.6.0");
    assert_eq!(version_of("vv1v"), "1v");
    assert_eq!(version_of("v"), "");
}

#[test]
fn plans() {
    match plan("0.6.0", "v0.6.0") {
        Plan::UpToDate(s) => assert_eq!(s, "already up to date (0.6.0)\n"),
        other => panic!("{other:?}"),
    }
    assert!(matches!(plan("0.6.0", "0.6.0"), Plan::UpToDate(_)));
    match plan("0.6.0", "v0.7.0") {
        Plan::Fetch { notes, version, archive, checksum } => {
            let url = "https://github.com/TerryTsai/latch/releases/download/v0.7.0/latch-x86_64-unknown-linux-musl.tar.gz";
            assert_eq!(version, "0.7.0");
            assert_eq!(archive, url);
            assert_eq!(checksum, format!("{url}.sha256"));
            assert_eq!(notes, format!("updating: 0.6.0 \u{2192} 0.7.0\ndownloading {url}\n"));
        }
        other => panic!("{other:?}"),
    }
}

#[test]
fn downloads_are_held_against_their_checksum() {
    assert_eq!(sha256_hex(b"").unwrap(), EMPTY);
    assert_eq!(digest_text(Ok(vec![0, 0xab, 15])).unwrap(), "00ab0f");
    assert_eq!(digest_text(Err("e".into())).unwrap_err(), "e");
    assert!(verify_download(b"", &format!("{EMPTY}  latch.tar.gz\n")).is_ok());
    assert!(verify_download(b"", &EMPTY.to_uppercase()).is_ok());
    assert_eq!(verify_download(b"", " \n").unwrap_err(), "malformed sha256 file");
    assert_eq!(
        verify_download(b"", "ABC x").unwrap_err(),
        format!("sha256 mismatch: expected abc, got {EMPTY}")
    );
    assert!(verify_download(b"x", EMPTY).is_err());
    assert_eq!(match_digest(Some("a".into()), Err("e".into())).unwrap_err(), "e");
    assert_eq!(match_digest(None, Err("e".into())).unwrap_err(), "malformed sha256 file");
    assert!(match_digest(Some("a".into()), Ok("a".into())).is_ok());
}

#[test]
fn archives_hold_a_binary() {
    assert!(unpacked_binary(&Unpacked::Done { binary: true }).is_ok());
    assert_eq!(
        unpacked_binary(&Unpacked::Done { binary: false }).unwrap_err(),
        "tarball didn't contain `latch`"
    );
    assert_eq!(unpacked_binary(&Unpacked::Failed).unwrap_err(), "tar failed");
    assert_eq!(unpacked_binary(&Unpacked::NotRun("x".into())).unwrap_err(), "tar: x");
}

#[test]
fn what_update_says() {
    assert_eq!(replaced("/b", "1"), "replaced /b with 1\n");
    assert_eq!(restart_note(true), "restarting systemd service...\n");
    assert_eq!(restart_note(false), "not running under systemd; restart manually if needed.\n");
}

const URL: &str = "https://github.com/TerryTsai/latch/releases/download/v0.7.0/latch-x86_64-unknown-linux-musl.tar.gz";

fn owned() -> Event {
    Event::Binary { path: "/b".into(), uid: 5, owner: 5, permissions: 0 }
}

fn got(bytes: &[u8]) -> Event {
    Event::Fetched(Fetched::Bytes(bytes.to_vec()))
}

/// Runs an update through events.
fn after(events: Vec<Event>) -> (Update, Action) {
    let mut at = start("0.6.0");
    for e in events {
        at = next(at.0, e);
    }
    at
}

fn failure(events: Vec<Event>) -> String {
    match after(events).1 {
        Action::Fail(why) => why,
        other => panic!("{other:?}"),
    }
}

fn released() -> Event {
    got(b"{\"tag_name\":\"v0.7.0\"}")
}

fn matching() -> Event {
    got(format!("{EMPTY}  latch.tar.gz\n").as_bytes())
}

#[test]
fn a_whole_update() {
    let (s, a) = start("0.6.0");
    assert!(matches!(a, Action::Inspect));
    let (s, a) = next(s, owned());
    match a {
        Action::Fetch(url) => {
            assert_eq!(url, "https://api.github.com/repos/TerryTsai/latch/releases/latest")
        }
        other => panic!("{other:?}"),
    }
    let (s, a) = next(s, released());
    assert_eq!(s.said, format!("updating: 0.6.0 \u{2192} 0.7.0\ndownloading {URL}\n"));
    assert!(matches!(a, Action::Fetch(url) if url == URL));
    let (s, a) = next(s, got(b""));
    assert!(matches!(a, Action::Fetch(url) if url == format!("{URL}.sha256")));
    let (s, a) = next(s, matching());
    assert_eq!(s.said, "sha256 verified\n");
    assert!(matches!(a, Action::Unpack));
    assert!(s.archive.is_empty());
    let (s, a) = next(s, Event::Unpacked(Unpacked::Done { binary: true }));
    assert!(matches!(a, Action::Install));
    let (s, a) = next(s, Event::Installed);
    assert_eq!(s.said, "replaced /b with 0.7.0\n");
    assert!(matches!(a, Action::AskService));
    let (s, a) = next(s, Event::Service { active: true });
    assert_eq!(s.said, "restarting systemd service...\n");
    assert!(matches!(a, Action::Restart));
    let (s, a) = next(s, Event::Restarted);
    assert!(matches!(a, Action::Done));
    assert_eq!(s.stage, Stage::Over);
    assert!(matches!(ask(&s), Action::Done));
    // What is over stays over.
    let (s, a) = next(s, Event::Failed("late".into()));
    assert!(matches!(a, Action::Done));
    assert_eq!(s.failure, None);
}

#[test]
fn updates_that_end_early() {
    let (s, a) = after(vec![owned(), got(b"{\"tag_name\":\"v0.6.0\"}")]);
    assert_eq!(s.said, "already up to date (0.6.0)\n");
    assert!(matches!(a, Action::Done));
    let (s, a) = after(vec![
        owned(),
        released(),
        got(b""),
        matching(),
        Event::Unpacked(Unpacked::Done { binary: true }),
        Event::Installed,
        Event::Service { active: false },
    ]);
    assert_eq!(s.said, "not running under systemd; restart manually if needed.\n");
    assert!(matches!(a, Action::Done));
}

#[test]
fn updates_that_fail() {
    let stranger = Event::Binary { path: "/b".into(), uid: 5, owner: 0, permissions: 0 };
    assert!(failure(vec![stranger]).starts_with("can't replace /b"));
    assert_eq!(failure(vec![Event::Failed("stat: x".into())]), "stat: x");
    let no = || Event::Fetched(Fetched::Failed("404".into()));
    assert!(failure(vec![owned(), no()]).ends_with("releases/latest: 404"));
    assert_eq!(failure(vec![owned(), got(b"{}")]), "no tag_name in API response");
    assert_eq!(failure(vec![owned(), released(), no()]), format!("curl {URL}: 404"));
    assert_eq!(
        failure(vec![owned(), released(), got(b""), no()]),
        format!("curl {URL}.sha256: 404")
    );
    assert_eq!(
        failure(vec![owned(), released(), got(b""), got(b"abc")]),
        format!("sha256 mismatch: expected abc, got {EMPTY}")
    );
    assert_eq!(
        failure(vec![owned(), released(), got(b""), got(b" ")]),
        "malformed sha256 file"
    );
    let unpacked = Event::Unpacked(Unpacked::Failed);
    assert_eq!(failure(vec![owned(), released(), got(b""), matching(), unpacked]), "tar failed");
}

#[test]
fn only_checked_archives_are_installed() {
    // Nothing that comes too early moves an update on.
    let early = || {
        vec![
            Event::Unpacked(Unpacked::Done { binary: true }),
            Event::Installed,
            Event::Service { active: true },
            Event::Restarted,
        ]
    };
    let path = || vec![owned(), released(), got(b"x")];
    for n in 0..=3 {
        let mut events: Vec<Event> = path().into_iter().take(n).collect();
        events.extend(early());
        let (_, a) = after(events);
        assert!(matches!(a, Action::Inspect | Action::Fetch(_)), "{a:?}");
    }
    let mut events = path();
    events.push(matching());
    assert!(failure(events).starts_with("sha256 mismatch: "));
}
