use latch::config::{Config, ConfigSource};
use latch::http::{
    bad, build_return_to, cookie, header_value, is_api_request, not_found, query_param, query_value,
    route, url_encode, Method, Reply, Request, Route,
};
use latch::jwt::{issue, Claims};
use latch::server::{
    answer, checked_session, clear_challenge_cookie, clear_session_cookie, grant, index,
    issue_challenge, live_session, logout, next_ceremony, revoke, session, session_claims, set_challenge_cookie, set_session_cookie,
    start_session, sweep, take_challenge, verify, verify_reply, Ceremony, ChKind, Latch,
    CHALLENGE_NANOS,
};
use latch::state::Table;

type Daemon = Latch<&'static str, u8, u8>;

fn cfg() -> Config {
    Config {
        hostname: "latch.foo.org".into(),
        origin: "https://latch.foo.org".into(),
        cookie_domain: "foo.org".into(),
        listen: "127.0.0.1:0".into(),
        data_dir: "/d".into(),
        passkeys_path: "/d/passkeys.json".into(),
        key_path: "/d/key".into(),
        revoked_path: "/d/revoked.json".into(),
        source: ConfigSource::Env,
    }
}

fn daemon(creds: Vec<&'static str>) -> Daemon {
    Latch::new(cfg(), vec![7; 32], creds, Table::new())
}

fn get(url: &str, headers: &[(&str, &str)]) -> Request {
    Request {
        method: Method::Get,
        url: url.to_string(),
        headers: headers.iter().map(|(n, v)| (n.to_string(), v.to_string())).collect(),
    }
}

fn decode(bytes: &[u8]) -> Result<Claims, String> {
    let v: serde_json::Value = serde_json::from_slice(bytes).map_err(|e| e.to_string())?;
    let text = |k: &str| v[k].as_str().map(String::from).ok_or("bad claims");
    let number = |k: &str| v[k].as_u64().ok_or("bad claims");
    Ok(Claims { sub: text("sub")?, iat: number("iat")?, exp: number("exp")?, jti: text("jti")? })
}

fn header<'a>(r: &'a Reply, name: &str) -> Option<&'a str> {
    r.headers.iter().find(|(n, _)| n == name).map(|(_, v)| v.as_str())
}

#[test]
fn url_encode_basic() {
    assert_eq!(url_encode("hello"), "hello");
    assert_eq!(
        url_encode("https://temp.terrytsai.dev/x?y=1"),
        "https%3A%2F%2Ftemp.terrytsai.dev%2Fx%3Fy%3D1"
    );
}

#[test]
fn url_encode_takes_bytes() {
    assert_eq!(url_encode("a-._~Z9"), "a-._~Z9");
    assert_eq!(url_encode("\u{e9} %"), "%C3%A9%20%25");
    assert_eq!(url_encode(""), "");
}

#[test]
fn encoded_parameters_are_read_back() {
    for s in ["https://a.b/x?y=1&z=2", "a b+c", "\u{e9}#", "%41"] {
        let url = format!("/login?return_to={}", url_encode(s));
        assert_eq!(query_param(&url, "return_to"), s);
    }
}

#[test]
fn query_parameters() {
    assert_eq!(query_param("/begin?a=1&return_to=%2Fx&return_to=y", "return_to"), "/x");
    assert_eq!(query_param("/begin?return_to=a+b", "return_to"), "a b");
    assert_eq!(query_param("/begin", "return_to"), "");
    assert_eq!(query_param("/begin?x", "return_to"), "");
    let pair = |a: &str, b: &str| (a.to_string(), b.to_string());
    assert_eq!(query_value(Some(vec![pair("a", "1"), pair("b", "2"), pair("b", "3")]), "b"), "2");
    assert_eq!(query_value(Some(vec![]), "b"), "");
    assert_eq!(query_value(None, "b"), "");
}

#[test]
fn routes() {
    let at = |method, url: &str| route(&Request { method, url: url.into(), headers: vec![] });
    assert_eq!(at(Method::Get, "/"), Route::Index);
    assert_eq!(at(Method::Get, "/login?return_to=x"), Route::Index);
    assert_eq!(at(Method::Get, "/verify"), Route::Verify);
    assert_eq!(at(Method::Post, "/begin?x"), Route::Begin);
    assert_eq!(at(Method::Post, "/complete"), Route::Complete);
    assert_eq!(at(Method::Post, "/logout"), Route::Logout);
    assert_eq!(at(Method::Get, "/logout"), Route::NotFound);
    assert_eq!(at(Method::Post, "/verify"), Route::NotFound);
    assert_eq!(at(Method::Other, "/"), Route::NotFound);
    assert_eq!(at(Method::Get, ""), Route::NotFound);
}

#[test]
fn headers_are_found_without_case() {
    let r = get("/", &[("accept", "a"), ("Accept", "b")]);
    assert_eq!(header_value(&r, "ACCEPT").as_deref(), Some("a"));
    assert_eq!(header_value(&r, "Cookie"), None);
}

#[test]
fn cookies_are_found() {
    let r = get("/", &[("COOKIE", "a=1; latch_session=x.y; latch_session=z")]);
    assert_eq!(cookie(&r, "latch_session").as_deref(), Some("x.y"));
    assert_eq!(cookie(&r, "a").as_deref(), Some("1"));
    assert_eq!(cookie(&r, "latch"), None);
    let r = get("/", &[("Cookie", "a=1"), ("Cookie", "b=2")]);
    assert_eq!(cookie(&r, "b"), None);
    assert_eq!(cookie(&get("/", &[]), "a"), None);
}

#[test]
fn programs_are_told_from_browsers() {
    assert!(is_api_request(&get("/", &[("X-Requested-With", "xmlhttprequest")])));
    assert!(is_api_request(&get("/", &[("Accept", "application/json")])));
    assert!(!is_api_request(&get("/", &[("Accept", "text/html,application/json")])));
    assert!(!is_api_request(&get("/", &[])));
}

#[test]
fn wanted_urls() {
    assert_eq!(build_return_to(&get("/", &[]), "h.org"), "https://h.org/");
    let r = get("/", &[("X-Forwarded-Host", "app.h.org"), ("X-Forwarded-Uri", "/x?y")]);
    assert_eq!(build_return_to(&r, "h.org"), "https://app.h.org/x?y");
}

#[test]
fn plain_replies() {
    let r = bad("no challenge cookie");
    assert_eq!((r.status, r.body.as_deref()), (400, Some("no challenge cookie")));
    let r = not_found();
    assert_eq!((r.status, r.body.as_deref()), (404, Some("not found")));
    assert_eq!(answer(Err("x".into())).status, 400);
    assert_eq!(answer(Ok(not_found())).status, 404);
}

#[test]
fn cookie_texts() {
    let c = cfg();
    assert_eq!(
        set_session_cookie(&c, "t"),
        "latch_session=t; Domain=foo.org; Path=/; HttpOnly; Secure; SameSite=Lax; Max-Age=604800"
    );
    assert_eq!(
        clear_session_cookie(&c),
        "latch_session=; Domain=foo.org; Path=/; HttpOnly; Secure; SameSite=Lax; Max-Age=0"
    );
    assert_eq!(
        set_challenge_cookie("t"),
        "latch_challenge=t; Path=/; HttpOnly; Secure; SameSite=Strict; Max-Age=300"
    );
    assert_eq!(
        clear_challenge_cookie(),
        "latch_challenge=; Path=/; HttpOnly; Secure; SameSite=Strict; Max-Age=0"
    );
}

#[test]
fn the_page_follows_the_passkeys() {
    let r = index(&daemon(vec![]), "<b>{{label}}</b>{{label}}");
    assert_eq!(r.body.as_deref(), Some("<b>register passkey</b>register passkey"));
    assert_eq!(header(&r, "Content-Type"), Some("text/html; charset=utf-8"));
    assert_eq!(index(&daemon(vec!["p"]), "{{label}}").body.as_deref(), Some("sign in"));
}

#[test]
fn the_ceremony_follows_the_passkeys() {
    let mut d = daemon(vec![]);
    let req = get("/begin?return_to=https%3A%2F%2Fapp.foo.org%2F", &[]);
    assert_eq!(next_ceremony(&req, &d), (Ceremony::Register, "https://app.foo.org/".to_string()));
    d.creds.push("p");
    let evil = get("/begin?return_to=https%3A%2F%2Fevil.org%2F", &[]);
    assert_eq!(next_ceremony(&evil, &d), (Ceremony::Login, "/".to_string()));
}

#[test]
fn challenges_are_taken_once() {
    let mut d = daemon(vec![]);
    let r = issue_challenge(&mut d, "tok".into(), 10, ChKind::Register(1), "{\"a\":1}", "/x".into());
    assert_eq!(r.body.as_deref(), Some(r#"{"mode":"register","options":{"a":1}}"#));
    assert_eq!(r.headers[1], ("Set-Cookie".to_string(), set_challenge_cookie("tok")));
    let req = get("/complete", &[("Cookie", "latch_challenge=tok")]);
    let c = take_challenge(&mut d, &req, 10 + CHALLENGE_NANOS - 1).unwrap();
    assert_eq!((c.expires, c.return_to.as_str()), (10 + CHALLENGE_NANOS, "/x"));
    assert!(matches!(c.kind, ChKind::Register(1)));
    assert_eq!(take_challenge(&mut d, &req, 10).unwrap_err(), "expired challenge");
    assert_eq!(take_challenge(&mut d, &get("/", &[]), 10).unwrap_err(), "no challenge cookie");
}

#[test]
fn challenges_end() {
    let mut d = daemon(vec!["p"]);
    let r = issue_challenge(&mut d, "tok".into(), 0, ChKind::Login(1), "null", "/".into());
    assert_eq!(r.body.as_deref(), Some(r#"{"mode":"login","options":null}"#));
    let req = get("/complete", &[("Cookie", "latch_challenge=tok")]);
    assert_eq!(take_challenge(&mut d, &req, CHALLENGE_NANOS).unwrap_err(), "expired challenge");
    assert!(!d.challenges.contains_key("tok"));
}

#[test]
fn completing_starts_a_session() {
    let d = daemon(vec!["p"]);
    let r = grant(&d, Ok(()), "/x\"", 100, "jti".into()).unwrap();
    let token = issue(&session_claims(100, "jti".into()), &[7; 32]).unwrap();
    assert_eq!(r.status, 200);
    assert_eq!(r.body.as_deref(), Some(r#"{"return_to":"/x\""}"#));
    assert_eq!(r.headers[0], ("Content-Type".to_string(), "application/json".to_string()));
    assert_eq!(r.headers[1], ("Set-Cookie".to_string(), set_session_cookie(&cfg(), &token)));
    assert_eq!(r.headers[2], ("Set-Cookie".to_string(), clear_challenge_cookie()));
    assert_eq!(grant(&d, Err("login: no".into()), "/", 1, "j".into()).unwrap_err(), "login: no");
    assert_eq!(start_session(&cfg(), Err("e".into()), "/").unwrap_err(), "issue: e");
}

#[test]
fn sessions_last_seven_days() {
    let c = session_claims(100, "j".into());
    assert_eq!((c.sub.as_str(), c.iat, c.exp), ("me", 100, 100 + 7 * 24 * 3600));
}

#[test]
fn who_signed_in_is_let_in() {
    let d = daemon(vec!["p"]);
    let token = issue(&session_claims(100, "j".into()), &[7; 32]).unwrap();
    let pair = format!("other=1; latch_session={token}");
    let req = get("/verify", &[("Cookie", &pair)]);
    let r = verify(&req, &d, 101, decode);
    assert_eq!((r.status, header(&r, "X-Forwarded-User")), (200, Some("me")));
    assert_eq!(session(&req, &d, 101, decode).unwrap().jti, "j");
    // Over at its end.
    assert_eq!(verify(&req, &d, 100 + 604_800, decode).status, 302);
}

#[test]
fn sessions_are_checked() {
    let token = issue(&session_claims(100, "j".into()), &[7; 32]).unwrap();
    let pair = format!("latch_session={token}");
    let req = get("/verify", &[("Cookie", &pair)]);
    let mut revoked = Table::new();
    let jti = |revoked: &Table<u64>, now| {
        checked_session(&req, &[7; 32], revoked, now, decode).unwrap().map(|c| c.jti)
    };
    assert_eq!(jti(&revoked, 101).as_deref(), Some("j"));
    assert_eq!(jti(&revoked, 100 + 604_800), None);
    revoked.insert("j".into(), 1);
    assert_eq!(jti(&revoked, 101), None);
    let none = checked_session(&get("/", &[]), &[7; 32], &revoked, 101, decode);
    assert!(none.unwrap().is_none());
}

#[test]
fn strangers_are_sent_away() {
    let d = daemon(vec!["p"]);
    let r = verify(&get("/verify", &[("X-Forwarded-Uri", "/a b")]), &d, 1, decode);
    assert_eq!(r.status, 302);
    assert_eq!(
        header(&r, "Location"),
        Some("https://latch.foo.org/login?return_to=https%3A%2F%2Flatch.foo.org%2Fa%20b")
    );
    let r = verify(&get("/verify", &[("Accept", "application/json")]), &d, 1, decode);
    assert_eq!((r.status, r.body.as_deref()), (401, Some(r#"{"error":"unauthenticated"}"#)));
    assert_eq!(header(&r, "Content-Type"), Some("application/json"));
    let r = verify_reply(&get("/verify", &[]), None, "h");
    assert_eq!(header(&r, "Location"), Some("https://h/login?return_to=https%3A%2F%2Fh%2F"));
}

#[test]
fn forged_and_cut_tokens_are_refused() {
    let d = daemon(vec!["p"]);
    let token = issue(&session_claims(100, "j".into()), &[8; 32]).unwrap();
    for t in [token.as_str(), "x.y.z", "", &token[..token.len() - 4]] {
        let pair = format!("latch_session={t}");
        assert_eq!(verify(&get("/verify", &[("Cookie", &pair)]), &d, 101, decode).status, 302);
    }
}

#[test]
fn logging_out_is_final() {
    let mut d = daemon(vec!["p"]);
    let token = issue(&session_claims(100, "j".into()), &[7; 32]).unwrap();
    let pair = format!("latch_session={token}");
    let req = get("/verify", &[("Cookie", &pair)]);
    assert_eq!(verify(&req, &d, 101, decode).status, 200);
    let (r, save) = logout(&req, &mut d, 101, decode);
    assert_eq!((r.status, save, r.body), (204, true, None));
    assert_eq!(r.headers[0], ("Set-Cookie".to_string(), clear_session_cookie(&cfg())));
    assert_eq!(verify(&req, &d, 102, decode).status, 302);
    assert!(!sweep(&mut d, 0, 200));
    assert_eq!(verify(&req, &d, 200, decode).status, 302);
    // Another session that ends changes nothing.
    let other = issue(&session_claims(150, "k".into()), &[7; 32]).unwrap();
    let other = format!("latch_session={other}");
    logout(&get("/logout", &[("Cookie", &other)]), &mut d, 210, decode);
    logout(&req, &mut d, 220, decode);
    assert_eq!(verify(&req, &d, 300, decode).status, 302);
    assert!(sweep(&mut d, 0, 100 + 604_800));
    assert!(!d.revoked.contains_key("j"));
    assert!(d.revoked.contains_key("k"));
    assert_eq!(verify(&req, &d, 100 + 604_800, decode).status, 302);
    let (_, save) = logout(&get("/logout", &[]), &mut d, 101, decode);
    assert!(!save);
}

#[test]
fn revoked_claims_are_no_session() {
    let mut d = daemon(vec![]);
    let c = || session_claims(1, "j".into());
    assert!(live_session(Ok(c()), &d.revoked).is_some());
    assert!(revoke(&mut d, Some(c())));
    assert_eq!(d.revoked.get("j"), Some(&604_801));
    assert!(live_session(Ok(c()), &d.revoked).is_none());
    assert!(live_session(Err("expired".into()), &d.revoked).is_none());
    assert!(!revoke(&mut d, None));
}

#[test]
fn sweeping_drops_what_has_ended() {
    let mut d = daemon(vec![]);
    issue_challenge(&mut d, "old".into(), 0, ChKind::Register(1), "1", "/".into());
    issue_challenge(&mut d, "new".into(), 1, ChKind::Register(1), "1", "/".into());
    assert!(!sweep(&mut d, CHALLENGE_NANOS, 0));
    assert!(!d.challenges.contains_key("old"));
    assert!(d.challenges.contains_key("new"));
}
