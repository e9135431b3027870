//! What the daemon promises: of the cookies it sets, of the replies it sends,
//! and of who is let in.
use vstd::prelude::*;
use vstd::utf8::*;

use webauthn_rs::prelude::{Passkey, PasskeyAuthentication, PasskeyRegistration, Webauthn};

use super::http::is_same_name;
use crate::http::{self, ReplyView, RequestView};
use crate::jwt::{self, Claims, ClaimsView};
use crate::server::{self, Ceremony, ChKind, Challenge, Completion, Daemon, Latch, Save};
use crate::state::{self, Expires};
use crate::{config, json, laws, outside, text};

verus! {

// --- cookies ----------------------------------------------------------------

/// What follows a semicolon and holds none is one attribute more.
proof fn lemma_attribute(a: Seq<char>, lit: Seq<char>, head: Seq<char>, v: Seq<char>)
    requires
        lit == seq![';'] + head,
        !head.contains(';'),
        !v.contains(';'),
    ensures
        text::pieces(a + lit + v, ';') == text::pieces(a, ';').push(head + v),
{
    let b = head + v;
    assert(!b.contains(';')) by {
        if b.contains(';') {
            let i = b.index_of(';');
            if i < head.len() {
                assert(head[i] == ';');
            } else {
                assert(v[i - head.len()] == ';');
            }
        }
    }
    text::lemma_pieces_append(a, ';', b);
    assert(a + lit + v =~= a + seq![';'] + b);
}

proof fn lemma_flag(a: Seq<char>, lit: Seq<char>, head: Seq<char>)
    requires
        lit == seq![';'] + head,
        !head.contains(';'),
    ensures
        text::pieces(a + lit, ';') == text::pieces(a, ';').push(head),
{
    let none = Seq::<char>::empty();
    lemma_attribute(a, lit, head, none);
    assert(a + lit + none =~= a + lit);
    assert(head + none =~= head);
}

proof fn lemma_first_attribute(name: Seq<char>, value: Seq<char>)
    requires
        !name.contains(';'),
        !value.contains(';'),
    ensures
        text::pieces(name + value, ';') == seq![name + value],
{
    let b = name + value;
    assert(!b.contains(';')) by {
        if b.contains(';') {
            let i = b.index_of(';');
            if i < name.len() {
                assert(name[i] == ';');
            } else {
                assert(value[i - name.len()] == ';');
            }
        }
    }
    text::lemma_pieces_single(b, ';');
}

/// The attributes of the cookie that a new session sets, which are parted by
/// semicolons, are its name and value, the cookie domain as it is configured,
/// the whole site, that scripts do not see it, that it goes by https alone and
/// with links from elsewhere, and seven days in seconds.
pub proof fn session_cookies_have_these_attributes(domain: Seq<char>, value: Seq<char>)
    requires
        !domain.contains(';'),
        !value.contains(';'),
    ensures
        text::pieces(server::session_cookie(domain, value), ';') == seq![
            "latch_session="@ + value,
            " Domain="@ + domain,
            " Path=/"@,
            " HttpOnly"@,
            " Secure"@,
            " SameSite=Lax"@,
            " Max-Age=604800"@,
        ],
{
    reveal_strlit("latch_session");
    reveal_strlit("=");
    reveal_strlit("latch_session=");
    reveal_strlit("; Domain=");
    reveal_strlit(" Domain=");
    reveal_strlit("; Path=/; HttpOnly; Secure; SameSite=Lax; Max-Age=");
    reveal_strlit("; Path=/");
    reveal_strlit(" Path=/");
    reveal_strlit("; HttpOnly");
    reveal_strlit(" HttpOnly");
    reveal_strlit("; Secure");
    reveal_strlit(" Secure");
    reveal_strlit("; SameSite=Lax");
    reveal_strlit(" SameSite=Lax");
    reveal_strlit("; Max-Age=");
    reveal_strlit(" Max-Age=");
    reveal_strlit(" Max-Age=604800");
    reveal_strlit("604800");
    reveal_with_fuel(text::decimal_text, 7);
    let age = text::decimal_text(604_800);
    assert(age =~= "604800"@);
    let a = "latch_session="@ + value;
    assert(config::COOKIE_SESSION@ + "="@ =~= "latch_session="@);
    lemma_first_attribute("latch_session="@, value);
    assert("; Domain="@ =~= seq![';'] + " Domain="@);
    lemma_attribute(a, "; Domain="@, " Domain="@, domain);
    let b = a + "; Domain="@ + domain;
    assert("; Path=/"@ =~= seq![';'] + " Path=/"@);
    lemma_flag(b, "; Path=/"@, " Path=/"@);
    let c = b + "; Path=/"@;
    assert("; HttpOnly"@ =~= seq![';'] + " HttpOnly"@);
    lemma_flag(c, "; HttpOnly"@, " HttpOnly"@);
    let d = c + "; HttpOnly"@;
    assert("; Secure"@ =~= seq![';'] + " Secure"@);
    lemma_flag(d, "; Secure"@, " Secure"@);
    let e = d + "; Secure"@;
    assert("; SameSite=Lax"@ =~= seq![';'] + " SameSite=Lax"@);
    lemma_flag(e, "; SameSite=Lax"@, " SameSite=Lax"@);
    let f = e + "; SameSite=Lax"@;
    assert("; Max-Age="@ =~= seq![';'] + " Max-Age="@);
    lemma_attribute(f, "; Max-Age="@, " Max-Age="@, age);
    assert(" Max-Age="@ + age =~= " Max-Age=604800"@);
    let tail = "; Path=/"@ + "; HttpOnly"@ + "; Secure"@ + "; SameSite=Lax"@ + "; Max-Age="@;
    assert("; Path=/; HttpOnly; Secure; SameSite=Lax; Max-Age="@ =~= tail);
    assert(b + tail + age =~= f + "; Max-Age="@ + age);
    assert(text::pieces(server::session_cookie(domain, value), ';') =~= seq![
        a,
        " Domain="@ + domain,
        " Path=/"@,
        " HttpOnly"@,
        " Secure"@,
        " SameSite=Lax"@,
        " Max-Age=604800"@,
    ]);
}

/// The cookie that logging out sets is the one that signing in sets, by name,
/// domain, path and the rest, but it is empty and over at once.
pub proof fn logging_out_takes_the_same_cookie_back(domain: Seq<char>)
    requires
        !domain.contains(';'),
    ensures
        text::pieces(server::no_session_cookie(domain), ';') == seq![
            "latch_session="@,
            " Domain="@ + domain,
            " Path=/"@,
            " HttpOnly"@,
            " Secure"@,
            " SameSite=Lax"@,
            " Max-Age=0"@,
        ],
        text::pieces(server::no_session_cookie(domain), ';').subrange(1, 6) == text::pieces(
            server::session_cookie(domain, Seq::empty()),
            ';',
        ).subrange(1, 6),
{
    reveal_strlit("latch_session");
    reveal_strlit("=; Domain=");
    reveal_strlit("latch_session=");
    reveal_strlit("; Domain=");
    reveal_strlit(" Domain=");
    reveal_strlit("; Path=/; HttpOnly; Secure; SameSite=Lax; Max-Age=0");
    reveal_strlit("; Path=/");
    reveal_strlit(" Path=/");
    reveal_strlit("; HttpOnly");
    reveal_strlit(" HttpOnly");
    reveal_strlit("; Secure");
    reveal_strlit(" Secure");
    reveal_strlit("; SameSite=Lax");
    reveal_strlit(" SameSite=Lax");
    reveal_strlit("; Max-Age=0");
    reveal_strlit(" Max-Age=0");
    let none = Seq::<char>::empty();
    let a = "latch_session="@;
    lemma_first_attribute(a, none);
    assert(a + none =~= a);
    assert(config::COOKIE_SESSION@ + "=; Domain="@ =~= a + "; Domain="@);
    assert("; Domain="@ =~= seq![';'] + " Domain="@);
    lemma_attribute(a, "; Domain="@, " Domain="@, domain);
    let b = a + "; Domain="@ + domain;
    assert("; Path=/"@ =~= seq![';'] + " Path=/"@);
    lemma_flag(b, "; Path=/"@, " Path=/"@);
    let c = b + "; Path=/"@;
    assert("; HttpOnly"@ =~= seq![';'] + " HttpOnly"@);
    lemma_flag(c, "; HttpOnly"@, " HttpOnly"@);
    let d = c + "; HttpOnly"@;
    assert("; Secure"@ =~= seq![';'] + " Secure"@);
    lemma_flag(d, "; Secure"@, " Secure"@);
    let e = d + "; Secure"@;
    assert("; SameSite=Lax"@ =~= seq![';'] + " SameSite=Lax"@);
    lemma_flag(e, "; SameSite=Lax"@, " SameSite=Lax"@);
    let f = e + "; SameSite=Lax"@;
    assert("; Max-Age=0"@ =~= seq![';'] + " Max-Age=0"@);
    lemma_flag(f, "; Max-Age=0"@, " Max-Age=0"@);
    let tail = "; Path=/"@ + "; HttpOnly"@ + "; Secure"@ + "; SameSite=Lax"@ + "; Max-Age=0"@;
    assert("; Path=/; HttpOnly; Secure; SameSite=Lax; Max-Age=0"@ =~= tail);
    assert(b + tail =~= f + "; Max-Age=0"@);
    assert(text::pieces(server::no_session_cookie(domain), ';') =~= seq![
        a,
        " Domain="@ + domain,
        " Path=/"@,
        " HttpOnly"@,
        " Secure"@,
        " SameSite=Lax"@,
        " Max-Age=0"@,
    ]);
    session_cookies_have_these_attributes(domain, none);
}

/// The attributes of the cookie that a challenge sets: its name and value, the
/// whole site, that scripts do not see it, that it goes by https alone and to
/// no request from elsewhere, and five minutes in seconds. It has no domain,
/// so that it stays on this host. It is taken back under the same name and
/// path.
pub proof fn challenge_cookies_have_these_attributes(value: Seq<char>)
    requires
        !value.contains(';'),
    ensures
        text::pieces(server::challenge_cookie(value), ';') == seq![
            "latch_challenge="@ + value,
            " Path=/"@,
            " HttpOnly"@,
            " Secure"@,
            " SameSite=Strict"@,
            " Max-Age=300"@,
        ],
        text::pieces(server::no_challenge_cookie(), ';') == seq![
            "latch_challenge="@,
            " Path=/"@,
            " HttpOnly"@,
            " Secure"@,
            " SameSite=Strict"@,
            " Max-Age=0"@,
        ],
{
    reveal_strlit("latch_challenge");
    reveal_strlit("=");
    reveal_strlit("latch_challenge=");
    reveal_strlit("; Path=/; HttpOnly; Secure; SameSite=Strict; Max-Age=");
    reveal_strlit("=; Path=/; HttpOnly; Secure; SameSite=Strict; Max-Age=0");
    reveal_strlit("; Path=/");
    reveal_strlit(" Path=/");
    reveal_strlit("; HttpOnly");
    reveal_strlit(" HttpOnly");
    reveal_strlit("; Secure");
    reveal_strlit(" Secure");
    reveal_strlit("; SameSite=Strict");
    reveal_strlit(" SameSite=Strict");
    reveal_strlit("; Max-Age=");
    reveal_strlit(" Max-Age=");
    reveal_strlit("; Max-Age=0");
    reveal_strlit(" Max-Age=0");
    reveal_strlit(" Max-Age=300");
    reveal_strlit("300");
    reveal_with_fuel(text::decimal_text, 4);
    let age = text::decimal_text(300);
    assert(age =~= "300"@);
    assert("; Path=/"@ =~= seq![';'] + " Path=/"@);
    assert("; HttpOnly"@ =~= seq![';'] + " HttpOnly"@);
    assert("; Secure"@ =~= seq![';'] + " Secure"@);
    assert("; SameSite=Strict"@ =~= seq![';'] + " SameSite=Strict"@);
    assert("; Max-Age="@ =~= seq![';'] + " Max-Age="@);
    assert("; Max-Age=0"@ =~= seq![';'] + " Max-Age=0"@);
    assert(config::COOKIE_CHALLENGE@ + "="@ =~= "latch_challenge="@);
    let none = Seq::<char>::empty();
    let tail = "; Path=/"@ + "; HttpOnly"@ + "; Secure"@ + "; SameSite=Strict"@;
    lemma_first_attribute("latch_challenge="@, value);
    let a = "latch_challenge="@ + value;
    lemma_flag(a, "; Path=/"@, " Path=/"@);
    lemma_flag(a + "; Path=/"@, "; HttpOnly"@, " HttpOnly"@);
    lemma_flag(a + "; Path=/"@ + "; HttpOnly"@, "; Secure"@, " Secure"@);
    let f = a + "; Path=/"@ + "; HttpOnly"@ + "; Secure"@;
    lemma_flag(f, "; SameSite=Strict"@, " SameSite=Strict"@);
    let g = f + "; SameSite=Strict"@;
    lemma_attribute(g, "; Max-Age="@, " Max-Age="@, age);
    assert(" Max-Age="@ + age =~= " Max-Age=300"@);
    assert("; Path=/; HttpOnly; Secure; SameSite=Strict; Max-Age="@ =~= tail + "; Max-Age="@);
    assert(a + (tail + "; Max-Age="@) + age =~= g + "; Max-Age="@ + age);
    assert(text::pieces(server::challenge_cookie(value), ';') =~= seq![
        a,
        " Path=/"@,
        " HttpOnly"@,
        " Secure"@,
        " SameSite=Strict"@,
        " Max-Age=300"@,
    ]);
    let o = "latch_challenge="@;
    lemma_first_attribute(o, none);
    assert(o + none =~= o);
    lemma_flag(o, "; Path=/"@, " Path=/"@);
    lemma_flag(o + "; Path=/"@, "; HttpOnly"@, " HttpOnly"@);
    lemma_flag(o + "; Path=/"@ + "; HttpOnly"@, "; Secure"@, " Secure"@);
    let p = o + "; Path=/"@ + "; HttpOnly"@ + "; Secure"@;
    lemma_flag(p, "; SameSite=Strict"@, " SameSite=Strict"@);
    lemma_flag(p + "; SameSite=Strict"@, "; Max-Age=0"@, " Max-Age=0"@);
    assert(config::COOKIE_CHALLENGE@
        + "=; Path=/; HttpOnly; Secure; SameSite=Strict; Max-Age=0"@ =~= p + "; SameSite=Strict"@
        + "; Max-Age=0"@);
    assert(text::pieces(server::no_challenge_cookie(), ';') =~= seq![
        o,
        " Path=/"@,
        " HttpOnly"@,
        " Secure"@,
        " SameSite=Strict"@,
        " Max-Age=0"@,
    ]);
}

// --- who may pass -----------------------------------------------------------

/// A program without a session gets 401 and a JSON text that says so: one that
/// takes JSON, whatever else it takes but pages.
pub proof fn programs_without_a_session_get_401(
    req: RequestView,
    a: Seq<char>,
    b: Seq<char>,
    hostname: Seq<char>,
)
    requires
        http::header_in(req.headers, "Accept"@) == Some(a + "application/json"@ + b),
        forall|x: Seq<char>, y: Seq<char>|
            a + "application/json"@ + b != #[trigger] (x + "text/html"@ + y),
    ensures
        ({
            let r = server::verify_answer(req, None, hostname);
            &&& r.status == 401
            &&& r.headers == seq![("Content-Type"@, "application/json"@)]
            &&& r.body == Some("{\"error\":\"unauthenticated\"}"@)
        }),
{
    laws::http::who_takes_json_is_a_program(req, a, b);
}

/// So does one that says that it is a program, whatever it takes.
pub proof fn who_says_to_be_a_program_gets_401(req: RequestView, v: Seq<char>, hostname: Seq<char>)
    requires
        http::header_in(req.headers, "X-Requested-With"@) == Some(v),
        is_same_name(v, "XMLHttpRequest"@),
    ensures
        server::verify_answer(req, None, hostname).status == 401,
{
    laws::http::who_says_so_is_a_program(req, v);
}

/// A browser without a session is sent to the login page on this host, with
/// what it wanted in the URL, so that it can be read out again.
pub open spec fn sends_to_the_login_page(
    r: ReplyView,
    hostname: Seq<char>,
    wanted: Seq<char>,
) -> bool {
    let start = "https://"@ + hostname + "/login?return_to="@;
    &&& r.status == 302
    &&& r.body is None
    &&& r.headers.len() == 1
    &&& r.headers[0].0 == "Location"@
    &&& start.is_prefix_of(r.headers[0].1)
    &&& http::percent_decoded(r.headers[0].1.skip(start.len() as int)) == encode_utf8(wanted)
}

/// A browser without a session, which takes pages, whatever else it takes, is
/// sent to the login page.
pub proof fn browsers_without_a_session_are_sent_to_the_login_page(
    req: RequestView,
    a: Seq<char>,
    b: Seq<char>,
    hostname: Seq<char>,
    host: Seq<char>,
    uri: Seq<char>,
)
    requires
        http::header_in(req.headers, "Accept"@) == Some(a + "text/html"@ + b),
        http::header_in(req.headers, "X-Requested-With"@) is None,
    ensures
        ({
            let r = server::verify_answer(req, None, hostname);
            let h = http::header_in(req.headers, "X-Forwarded-Host"@);
            let u = http::header_in(req.headers, "X-Forwarded-Uri"@);
            &&& r.status == 302
            &&& h == Some(host) && u == Some(uri) ==> sends_to_the_login_page(
                r,
                hostname,
                "https://"@ + host + uri,
            )
            &&& h is None && u == Some(uri) ==> sends_to_the_login_page(
                r,
                hostname,
                "https://"@ + hostname + uri,
            )
            &&& h is None && u is None ==> sends_to_the_login_page(
                r,
                hostname,
                "https://"@ + hostname + seq!['/'],
            )
        }),
{
    laws::http::who_takes_pages_is_a_browser(req, a, b);
    laws::http::wanted_urls_are_what_was_forwarded(req, hostname, host, uri);
    lemma_login_page(req, hostname);
}

/// A request that says nothing of itself is taken for a browser's.
pub proof fn who_says_nothing_is_sent_to_the_login_page(req: RequestView, hostname: Seq<char>)
    requires
        http::header_in(req.headers, "Accept"@) is None,
        http::header_in(req.headers, "X-Requested-With"@) is None,
    ensures
        sends_to_the_login_page(
            server::verify_answer(req, None, hostname),
            hostname,
            http::wanted_url(req, hostname),
        ),
{
    laws::http::who_takes_no_json_is_a_browser(req);
    lemma_login_page(req, hostname);
}

proof fn lemma_login_page(req: RequestView, hostname: Seq<char>)
    requires
        !http::is_api(req),
    ensures
        sends_to_the_login_page(
            server::verify_answer(req, None, hostname),
            hostname,
            http::wanted_url(req, hostname),
        ),
{
    let r = server::verify_answer(req, None, hostname);
    let start = "https://"@ + hostname + "/login?return_to="@;
    let wanted = encode_utf8(http::wanted_url(req, hostname));
    http::percent_decoding_undoes_encoding(wanted);
    assert(r.headers[0].1.take(start.len() as int) =~= start);
    assert(r.headers[0].1.skip(start.len() as int) =~= http::percent_encoded(wanted));
}

/// A request with a session passes, and the proxy is told whose it is.
pub proof fn who_has_a_session_passes(req: RequestView, c: ClaimsView, hostname: Seq<char>)
    ensures
        ({
            let r = server::verify_answer(req, Some(c), hostname);
            &&& r.status == 200
            &&& r.headers == seq![("X-Forwarded-User"@, c.sub)]
            &&& r.body is None
        }),
{
}

/// Only who brings the session cookie with a token that this daemon signed,
/// that has not ended and was not logged out, has a session.
pub proof fn sessions_are_signed_and_live<F: Fn(&[u8]) -> Result<Claims, String>>(
    req: RequestView,
    key: Seq<u8>,
    revoked: Map<Seq<char>, u64>,
    now: u64,
    decode: F,
    c: ClaimsView,
)
    requires
        server::session_outcome(req, key, revoked, now, decode, Some(c)),
    ensures
        http::cookie_of(req, "latch_session"@) matches Some(token) && (jwt::framed(token) matches Ok(
            (payload, signature),
        ) && {
            &&& crate::b64u::decoded(signature) == Some(
                outside::hmac_sha256_of(
                    key,
                    encode_utf8("eyJhbGciOiJIUzI1NiIsInR5cCI6IkpXVCJ9"@ + seq!['.'] + payload),
                ),
            )
            &&& crate::b64u::decoded(payload) matches Some(b) && jwt::decodes(decode, b, Ok(c))
        }),
        c.exp > now,
        !revoked.dom().contains(c.jti),
{
    let token = http::cookie_of(req, config::COOKIE_SESSION@)->0;
    assert(server::token_session(token, key, revoked, now, decode, Some(c)));
    let r = choose|r: Result<ClaimsView, Seq<char>>| #[trigger]
        jwt::verified(token, key, now, decode, r) && Some(c) == server::unless_revoked(r, revoked);
    assert(jwt::verified(token, key, now, decode, Ok(c)));
    jwt::accepted_tokens_are_signed(token, key, Some(now), decode, c);
}

/// Who brings a good token has a session until it is logged out, wherever the
/// HMAC can be computed.
pub proof fn good_tokens_are_sessions<F: Fn(&[u8]) -> Result<Claims, String>>(
    req: RequestView,
    token: Seq<char>,
    key: Seq<u8>,
    revoked: Map<Seq<char>, u64>,
    now: u64,
    decode: F,
    c: ClaimsView,
    s: Option<ClaimsView>,
)
    requires
        http::cookie_of(req, "latch_session"@) == Some(token),
        forall|r: Result<ClaimsView, Seq<char>>| #[trigger]
            jwt::verified(token, key, now, decode, r) ==> r == Ok::<ClaimsView, Seq<char>>(c),
        server::request_session(req, key, revoked, now, decode, s),
    ensures
        revoked.dom().contains(c.jti) ==> s is None,
        !revoked.dom().contains(c.jti) ==> s == Some(c),
{
    assert(server::token_session(token, key, revoked, now, decode, s));
    let r = choose|r: Result<ClaimsView, Seq<char>>| #[trigger]
        jwt::verified(token, key, now, decode, r) && s == server::unless_revoked(r, revoked);
}

/// A session is the user's, starts when it starts, and ends seven days later.
pub proof fn sessions_last_seven_days(now: u64, jti: Seq<char>)
    requires
        now <= u64::MAX - 604_800,
    ensures
        server::claims_from(now, jti).sub == "me"@,
        server::claims_from(now, jti).iat == now,
        server::claims_from(now, jti).exp == now + 7 * 24 * 60 * 60,
        server::claims_from(now, jti).jti == jti,
{
}

// --- signing in -------------------------------------------------------------

proof fn lemma_no_semicolon(c: ClaimsView, key: Seq<u8>)
    ensures
        !jwt::issued(c, key).contains(';'),
{
    let token = jwt::issued(c, key);
    let none = Seq::<char>::empty();
    text::lemma_pieces_single(none, ';');
    reveal_strlit("latch_session");
    reveal_strlit("=");
    assert(http::cookie_in(none, config::COOKIE_SESSION@) is None) by {
        let p = config::COOKIE_SESSION@ + seq!['='];
        assert(seq![none].skip(1) =~= Seq::<Seq<char>>::empty());
        reveal_with_fuel(http::first_with_prefix, 2);
        assert(text::trimmed(none).len() == 0);
    }
    server::session_cookies_come_back(none, c, key, none);
    let cookie = server::session_cookie(none, token);
    laws::text::pieces_are_what_separators_part(cookie, ';');
    let pair = text::pieces(cookie, ';')[0];
    if token.contains(';') {
        let i = token.index_of(';');
        assert(pair[14 + i] == ';');
    }
}

/// What a browser gets once its ceremony was accepted: the session cookie, on
/// the configured domain, with a token for seven days from this second; the
/// challenge cookie taken back; and where to go.
pub proof fn signing_in_sets_the_session_cookie<W: Fn(&Vec<Passkey>) -> Result<(), String>>(
    c: Completion<W>,
    before: Daemon,
    after: Daemon,
    r: ReplyView,
)
    requires
        server::complete_outcome(c, before, after, Ok(r)),
        c.now <= u64::MAX - 604_800,
        !before.config.cookie_domain@.contains(';'),
    ensures
        ({
            let claims = ClaimsView {
                sub: "me"@,
                iat: c.now,
                exp: (c.now + 604_800) as u64,
                jti: c.jti,
            };
            let set = text::pieces(r.headers[1].1, ';');
            let cleared = text::pieces(r.headers[2].1, ';');
            &&& r.status == 200
            &&& r.headers.len() == 3
            &&& r.headers[0] == ("Content-Type"@, "application/json"@)
            &&& r.headers[1].0 == "Set-Cookie"@
            &&& set[0] == "latch_session="@ + jwt::issued(claims, before.key@)
            &&& set[1] == " Domain="@ + before.config.cookie_domain@
            &&& set.contains(" HttpOnly"@) && set.contains(" Secure"@) && set.contains(" Path=/"@)
            &&& set.last() == " Max-Age=604800"@
            &&& r.headers[2].0 == "Set-Cookie"@
            &&& cleared[0] == "latch_challenge="@
            &&& cleared.last() == " Max-Age=0"@
            &&& server::answered(before.challenges@, c).1 matches Ok(challenge) && r.body == Some(
                "{\"return_to\":"@ + outside::json_text(challenge.return_to@) + "}"@,
            )
        }),
{
    server::sessions_follow_ceremonies(c, before, after, r);
    let claims = server::claims_from(c.now, c.jti);
    lemma_no_semicolon(claims, before.key@);
    let token = jwt::issued(claims, before.key@);
    session_cookies_have_these_attributes(before.config.cookie_domain@, token);
    challenge_cookies_have_these_attributes(Seq::empty());
    let set = text::pieces(r.headers[1].1, ';');
    assert(set[2] == " Path=/"@ && set[3] == " HttpOnly"@ && set[4] == " Secure"@);
    let challenge = server::answered(before.challenges@, c).1->Ok_0;
    lemma_one_field("return_to"@, outside::json_text(challenge.return_to@));
    reveal_strlit("{\"return_to\":");
    reveal_strlit("return_to");
    reveal_strlit("{\"");
    reveal_strlit("\":");
    assert("{\""@ + "return_to"@ + "\":"@ =~= "{\"return_to\":"@);
}

proof fn lemma_one_field(name: Seq<char>, value: Seq<char>)
    ensures
        json::object(seq![(json::key(name), value)]) == "{\""@ + name + "\":"@ + value + "}"@,
{
    reveal_strlit("{");
    reveal_strlit("\"");
    reveal_strlit(":");
    reveal_strlit("{\"");
    reveal_strlit("\":");
    let f = seq![(json::key(name), value)];
    assert(json::field_texts(f) =~= seq![json::field(f[0])]);
    assert(text::joined(json::field_texts(f), ","@) == json::field(f[0]));
    assert(json::object(f) =~= "{\""@ + name + "\":"@ + value + "}"@);
}

/// A challenge is answered by the cookie that carries its token, until it ends,
/// and is gone then.
pub proof fn challenges_are_found_by_their_cookie<W: Fn(&Vec<Passkey>) -> Result<(), String>>(
    c: Completion<W>,
    challenges: Map<Seq<char>, Challenge<PasskeyRegistration, PasskeyAuthentication>>,
    token: Seq<char>,
)
    ensures
        ({
            let (left, found) = server::answered(challenges, c);
            &&& http::cookie_of(c.req, "latch_challenge"@) is None ==> left == challenges && found
                == Err::<Challenge<PasskeyRegistration, PasskeyAuthentication>, Seq<char>>(
                "no challenge cookie"@,
            )
            &&& http::cookie_of(c.req, "latch_challenge"@) == Some(token) ==> {
                &&& !left.dom().contains(token)
                &&& forall|other: Seq<char>|
                    other != token ==> (#[trigger] left.dom().contains(other)
                        <==> challenges.dom().contains(other))
                &&& forall|other: Seq<char>|
                    other != token && left.dom().contains(other) ==> #[trigger] left[other]
                        == challenges[other]
                &&& if challenges.dom().contains(token) && c.clock < challenges[token].expires {
                    found == Ok::<_, Seq<char>>(challenges[token])
                } else {
                    found == Err::<
                        Challenge<PasskeyRegistration, PasskeyAuthentication>,
                        Seq<char>,
                    >("expired challenge"@)
                }
            }
        }),
{
}

/// A registration that is accepted adds its passkey behind the others, and it
/// must be saved; one that is not changes nothing.
pub proof fn registering_adds_one_passkey(
    site: Webauthn,
    body: Seq<char>,
    state: PasskeyRegistration,
    creds: Seq<Passkey>,
)
    ensures
        ({
            let (left, res) = server::finished(site, ChKind::Register(state), body, creds);
            match outside::registration_in(body) {
                Err(e) => left == creds && res == Err::<Save, Seq<char>>("parse: "@ + e),
                Ok(sent) => match outside::registration_result(site, sent, state) {
                    Err(e) => left == creds && res == Err::<Save, Seq<char>>("register: "@ + e),
                    Ok(p) => res == Ok::<Save, Seq<char>>(Save::Must) && left.len() == creds.len()
                        + 1 && left.last() == p && left.take(creds.len() as int) == creds,
                },
            }
        }),
{
    if let Ok(sent) = outside::registration_in(body) {
        if let Ok(p) = outside::registration_result(site, sent, state) {
            assert(creds.push(p).take(creds.len() as int) =~= creds);
        }
    }
}

/// A result is of the passkey at `i`, and of none before it.
pub open spec fn is_of(
    creds: Seq<Passkey>,
    result: webauthn_rs::prelude::AuthenticationResult,
    i: int,
) -> bool {
    &&& 0 <= i < creds.len()
    &&& outside::passkey_after(creds[i], result) is Some
    &&& forall|j: int| 0 <= j < i ==> outside::passkey_after(#[trigger] creds[j], result) is None
}

/// A login that is accepted brings the passkey that was used up to date, which
/// is saved if it can be, and leaves the others as they are; one that is not
/// changes nothing.
pub proof fn signing_in_updates_the_passkey_that_was_used(
    site: Webauthn,
    body: Seq<char>,
    state: PasskeyAuthentication,
    creds: Seq<Passkey>,
    i: int,
)
    ensures
        ({
            let (left, res) = server::finished(site, ChKind::Login(state), body, creds);
            match outside::login_in(body) {
                Err(e) => left == creds && res == Err::<Save, Seq<char>>("parse: "@ + e),
                Ok(sent) => match outside::login_result(site, sent, state) {
                    Err(e) => left == creds && res == Err::<Save, Seq<char>>("login: "@ + e),
                    Ok(r) => {
                        &&& is_of(creds, r, i) ==> {
                            &&& res == Ok::<Save, Seq<char>>(Save::Try)
                            &&& left.len() == creds.len()
                            &&& Some(left[i]) == outside::passkey_after(creds[i], r)
                            &&& forall|j: int|
                                0 <= j < creds.len() && j != i ==> #[trigger] left[j] == creds[j]
                        }
                        &&& (forall|j: int|
                            0 <= j < creds.len() ==> outside::passkey_after(#[trigger] creds[j], r)
                                is None) ==> left == creds && res == Ok::<Save, Seq<char>>(Save::No)
                    },
                },
            }
        }),
{
    if let Ok(sent) = outside::login_in(body) {
        if let Ok(r) = outside::login_result(site, sent, state) {
            if is_of(creds, r, i) {
                lemma_after(creds, r, i);
            }
            if forall|j: int|
                0 <= j < creds.len() ==> outside::passkey_after(#[trigger] creds[j], r) is None {
                lemma_none_after(creds, r);
            }
        }
    }
}

proof fn lemma_after(
    creds: Seq<Passkey>,
    result: webauthn_rs::prelude::AuthenticationResult,
    i: int,
)
    requires
        is_of(creds, result, i),
    ensures
        server::passkeys_after(creds, result) == Some(
            creds.update(i, outside::passkey_after(creds[i], result)->0),
        ),
    decreases i,
{
    let new = outside::passkey_after(creds[i], result)->0;
    if i == 0 {
        assert(creds.update(0, new) =~= seq![new] + creds.skip(1));
    } else {
        let rest = creds.skip(1);
        assert(outside::passkey_after(creds[0], result) is None);
        assert forall|j: int| 0 <= j < i - 1 implies outside::passkey_after(
            #[trigger] rest[j],
            result,
        ) is None by {
            assert(rest[j] == creds[j + 1]);
        }
        lemma_after(rest, result, i - 1);
        assert(creds.update(i, new) =~= seq![creds[0]] + rest.update(i - 1, new));
    }
}

proof fn lemma_none_after(
    creds: Seq<Passkey>,
    result: webauthn_rs::prelude::AuthenticationResult,
)
    requires
        forall|j: int|
            0 <= j < creds.len() ==> outside::passkey_after(#[trigger] creds[j], result) is None,
    ensures
        server::passkeys_after(creds, result) is None,
    decreases creds.len(),
{
    if creds.len() > 0 {
        let rest = creds.skip(1);
        assert(outside::passkey_after(creds[0], result) is None);
        assert forall|j: int| 0 <= j < rest.len() implies outside::passkey_after(
            #[trigger] rest[j],
            result,
        ) is None by {
            assert(rest[j] == creds[j + 1]);
        }
        lemma_none_after(rest, result);
    }
}

/// A new passkey that cannot be saved is an error; nothing else about saving
/// keeps a session from starting.
pub proof fn only_new_passkeys_must_be_saved(e: Seq<char>)
    ensures
        server::after_saving(Save::Must, Err(e)) == Err::<(), Seq<char>>("save: "@ + e),
        server::after_saving(Save::Must, Ok(())) == Ok::<(), Seq<char>>(()),
        server::after_saving(Save::Try, Err(e)) == Ok::<(), Seq<char>>(()),
        server::after_saving(Save::Try, Ok(())) == Ok::<(), Seq<char>>(()),
        server::after_saving(Save::No, Err(e)) == Ok::<(), Seq<char>>(()),
        server::after_saving(Save::No, Ok(())) == Ok::<(), Seq<char>>(()),
{
}

// --- beginning --------------------------------------------------------------

/// A ceremony is begun for the one user, by these names, and a login for the
/// passkeys that are registered; registering is for who has none.
pub proof fn ceremonies_are_begun_for_the_user(
    site: Webauthn,
    creds: Seq<Passkey>,
    kind: ChKind<PasskeyRegistration, PasskeyAuthentication>,
    options: Seq<char>,
)
    requires
        server::is_started(site, creds, kind, options),
    ensures
        creds.len() == 0 <==> kind is Register,
        kind matches ChKind::Register(state) ==> options == outside::registration_options(
            site,
            outside::uuid_in("c3a4b1f0-0000-0000-0000-000000000001"@)->0,
            "me"@,
            "latch"@,
            state,
        ),
        kind matches ChKind::Login(state) ==> options == outside::login_options(site, state)
            && outside::allowed_passkeys(state) == creds,
{
}

/// A challenge is handed out as JSON that names the ceremony and holds its
/// options, with a cookie that carries its token.
pub proof fn challenges_are_handed_out_with_their_cookie<R, L>(
    kind: ChKind<R, L>,
    options: Seq<char>,
    token: Seq<char>,
)
    requires
        !token.contains(';'),
    ensures
        ({
            let r = server::challenge_reply(server::kind_word(kind), options, token);
            &&& r.status == 200
            &&& r.headers.len() == 2
            &&& r.headers[0] == ("Content-Type"@, "application/json"@)
            &&& r.headers[1].0 == "Set-Cookie"@
            &&& text::pieces(r.headers[1].1, ';')[0] == "latch_challenge="@ + token
            &&& kind is Register ==> r.body == Some(
                "{\"mode\":\"register\",\"options\":"@ + options + "}"@,
            )
            &&& kind is Login ==> r.body == Some(
                "{\"mode\":\"login\",\"options\":"@ + options + "}"@,
            )
        }),
{
    challenge_cookies_have_these_attributes(token);
    reveal_strlit("{");
    reveal_strlit("\"");
    reveal_strlit(":");
    reveal_strlit(",");
    reveal_strlit("}");
    reveal_strlit("mode");
    reveal_strlit("options");
    reveal_strlit("register");
    reveal_strlit("login");
    reveal_strlit("{\"mode\":\"register\",\"options\":");
    reveal_strlit("{\"mode\":\"login\",\"options\":");
    let word = server::kind_word(kind);
    let a = json::key("mode"@) + ":"@ + json::key(word);
    let b = json::key("options"@) + ":"@ + options;
    let f = seq![(json::key("mode"@), json::key(word)), (json::key("options"@), options)];
    assert(json::field_texts(f) =~= seq![a, b]);
    assert(seq![a, b].drop_last() =~= seq![a]);
    reveal_with_fuel(text::joined, 3);
    assert(text::joined(seq![a, b], ","@) == a + ","@ + b);
    let head = "{"@ + a + ","@ + json::key("options"@) + ":"@;
    assert(json::object(f) =~= head + options + "}"@);
    if kind is Register {
        assert(head =~= "{\"mode\":\"register\",\"options\":"@);
    } else {
        assert(head =~= "{\"mode\":\"login\",\"options\":"@);
    }
}

/// A challenge can be answered for five minutes, which its cookie lasts too.
pub proof fn challenges_last_five_minutes()
    ensures
        server::CHALLENGE_NANOS == 5 * 60 * 1_000_000_000,
        config::CHALLENGE_TTL == 5 * 60,
{
}

/// Who begins a ceremony comes back to where it asked to: an https URL on the
/// cookie domain or below it, as it was, and anything that is neither that nor
/// a path on this host to the root.
pub proof fn browsers_come_back_to_where_they_asked(
    url: Seq<char>,
    domain: Seq<char>,
    next: Seq<char>,
    host: Seq<char>,
    below: Seq<char>,
)
    requires
        http::param_of(url, "return_to"@) == next,
    ensures
        (host == domain || host == below + seq!['.'] + domain) && outside::url_scheme_and_host(next)
            == Some(("https"@, Some(host))) ==> server::return_target(url, domain) == next,
        next.len() > 0 && next[0] == '/' && !(next.len() > 1 && next[1] == '/')
            ==> server::return_target(url, domain) == next,
        outside::url_scheme_and_host(next) is None && (next.len() == 0 || next[0] != '/' || (
        next.len() > 1 && next[1] == '/')) ==> server::return_target(url, domain) == seq!['/'],
{
    if (host == domain || host == below + seq!['.'] + domain) && outside::url_scheme_and_host(next)
        == Some(("https"@, Some(host))) {
        laws::config::urls_on_the_cookie_domain_are_kept(next, domain, host, below);
    }
    if next.len() > 0 && next[0] == '/' && !(next.len() > 1 && next[1] == '/') {
        laws::config::paths_on_this_host_are_kept(next.skip(1), domain);
        assert(seq!['/'] + next.skip(1) =~= next);
    }
    if outside::url_scheme_and_host(next) is None && (next.len() == 0 || next[0] != '/' || (
    next.len() > 1 && next[1] == '/')) {
        laws::config::anything_else_leads_to_the_root(next, domain);
    }
}

/// The page offers to register where there is no passkey, and else to sign in.
pub proof fn the_page_offers_what_can_be_done<P>(creds: Seq<P>)
    ensures
        creds.len() == 0 ==> server::label_for(server::ceremony_for(creds)) == "register passkey"@,
        creds.len() > 0 ==> server::label_for(server::ceremony_for(creds)) == "sign in"@,
{
}

// --- logging out and sweeping -----------------------------------------------

/// Logging out puts the session on the denylist until it ends, and leaves
/// every other entry as it is; without a session nothing changes.
pub proof fn logging_out_is_remembered(
    revoked: Map<Seq<char>, u64>,
    c: ClaimsView,
    other: Seq<char>,
)
    requires
        other != c.jti,
    ensures
        ({
            let after = server::logged_out(revoked, Some(c));
            &&& after.dom().contains(c.jti) && after[c.jti] == c.exp
            &&& after.dom().contains(other) <==> revoked.dom().contains(other)
            &&& revoked.dom().contains(other) ==> after[other] == revoked[other]
        }),
        server::logged_out(revoked, None) == revoked,
{
}

/// A logout counts only for who presents a token that has not ended.
pub proof fn logging_out_takes_a_good_token<F: Fn(&[u8]) -> Result<Claims, String>>(
    req: RequestView,
    key: Seq<u8>,
    now: u64,
    decode: F,
    s: Option<ClaimsView>,
)
    requires
        server::presented(req, key, now, decode, s),
    ensures
        s matches Some(c) ==> c.exp > now && http::cookie_of(req, "latch_session"@) is Some,
        http::cookie_of(req, "latch_session"@) is None ==> s is None,
{
    if let Some(c) = s {
        sessions_are_signed_and_live(req, key, Map::empty(), now, decode, c);
    }
}

/// Sweeping drops what has ended, and nothing else.
pub proof fn sweeping_drops_what_has_ended<V: Expires>(
    m: Map<Seq<char>, V>,
    now: u64,
    key: Seq<char>,
)
    ensures
        state::unexpired(m, now).dom().contains(key) <==> m.dom().contains(key) && now
            < m[key].expiry(),
        m.dom().contains(key) && now < m[key].expiry() ==> state::unexpired(m, now)[key] == m[key],
{
}

/// What fails before a ceremony is reported with the stage that failed.
pub proof fn failures_name_their_stage(why: outside::Setup)
    ensures
        server::begin_words(Ceremony::Register) == "register-begin: "@,
        server::begin_words(Ceremony::Login) == "login-begin: "@,
        why matches outside::Setup::Origin(e) ==> server::setup_text(why) == "invalid origin: "@
            + e@,
        why matches outside::Setup::Party(e) ==> server::setup_text(why) == "rp: "@ + e@,
        why matches outside::Setup::Build(e) ==> server::setup_text(why) == "webauthn: "@ + e@,
{
}

/// A site fits a hostname where its domain is the hostname or ends in it
/// behind a dot; one without a domain fits none.
pub proof fn sites_lie_below_the_hostname(a: Seq<char>, hostname: Seq<char>, d: Seq<char>)
    ensures
        outside::fits(Some(hostname), hostname),
        outside::fits(Some(a + seq!['.'] + hostname), hostname),
        !outside::fits(None, hostname),
        outside::fits(Some(d), hostname) ==> d == hostname || exists|x: Seq<char>|
            d == #[trigger] (x + seq!['.'] + hostname),
{
    reveal_strlit(".");
    let dotted = seq!['.'] + hostname;
    let s = a + seq!['.'] + hostname;
    assert("."@ =~= seq!['.']);
    assert(s.skip(s.len() - dotted.len()) =~= dotted);
    assert(dotted.is_suffix_of(s));
    if outside::fits(Some(d), hostname) && d != hostname {
        let x = d.take(d.len() - dotted.len());
        assert(dotted.is_suffix_of(d));
        assert(d =~= x + d.skip(d.len() - dotted.len()));
        assert(d =~= x + seq!['.'] + hostname);
    }
}

/// Handing a challenge out keeps it under its token beside the others, and
/// changes nothing else.
pub proof fn challenges_are_kept_beside_the_others<P, R, L>(
    before: Latch<P, R, L>,
    after: Latch<P, R, L>,
    token: Seq<char>,
    challenge: Challenge<R, L>,
    other: Seq<char>,
)
    requires
        server::is_handed_out(before, after, token, challenge),
    ensures
        after.challenges@.dom().contains(token) && after.challenges@[token] == challenge,
        other != token ==> (after.challenges@.dom().contains(other)
            <==> before.challenges@.dom().contains(other)),
        other != token && before.challenges@.dom().contains(other) ==> after.challenges@[other]
            == before.challenges@[other],
        after.revoked@ == before.revoked@,
        after.creds@ == before.creds@,
        after.key@ == before.key@,
        after.config == before.config,
{
}

/// Sweeping is due every five minutes, and the site is called latch.
pub proof fn names_and_times()
    ensures
        config::SWEEP_INTERVAL == 5 * 60,
        config::RP_NAME@ == "latch"@,
{
}

/// Writing passkeys comes to what writing all of them as they are comes to,
/// and where nothing is to be saved nothing can fail.
pub proof fn all_passkeys_are_written<W: Fn(&Vec<Passkey>) -> Result<(), String>>(
    write: W,
    save: Save,
    creds: Seq<Passkey>,
    w: Result<(), Seq<char>>,
)
    requires
        server::writes(write, save, creds, w),
    ensures
        save == Save::No ==> w is Ok,
        save != Save::No ==> exists|v: &Vec<Passkey>, r: Result<(), String>| #[trigger]
            call_ensures(write, (v,), r) && v@ == creds && (r is Ok <==> w is Ok) && (
            r matches Err(e) ==> w == Err::<(), Seq<char>>(e@)),
{
}

} // verus!
