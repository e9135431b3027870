//! The daemon's decisions: what each endpoint replies, and what it leaves of
//! the state.
//!
//! The sockets and the files are not here. `P` is a registered passkey, `R`
//! and `L` are what a ceremony must remember between its two requests, for
//! registering and for signing in; a `Daemon` has those of webauthn-rs.
use vstd::prelude::*;
use vstd::utf8::*;

use webauthn_rs::prelude::{
    AuthenticationResult, Passkey, PasskeyAuthentication, PasskeyRegistration, Uuid, Webauthn,
};

use crate::config::Config;
use crate::http::{Reply, Request};
use crate::jwt::Claims;
use crate::state::{Expires, Revoked, Table};
use crate::{b64u, config, http, json, jwt, outside, state, text};

verus! {

/// How long a challenge can be answered, in nanoseconds.
pub const CHALLENGE_NANOS: u64 = 300_000_000_000;

// --- state ------------------------------------------------------------------

/// What a challenge was issued for.
#[derive(Debug)]
pub enum ChKind<R, L> {
    Register(R),
    Login(L),
}

/// A challenge that waits for its answer. Times are nanoseconds on a clock
/// that never goes back.
#[derive(Debug)]
pub struct Challenge<R, L> {
    pub kind: ChKind<R, L>,
    pub expires: u64,
    pub return_to: String,
}

impl<R, L> Expires for Challenge<R, L> {
    open spec fn expiry(&self) -> u64 {
        self.expires
    }

    fn expires(&self) -> (res: u64) {
        self.expires
    }
}

/// The state of the daemon.
#[derive(Debug)]
pub struct Latch<P, R, L> {
    pub config: Config,
    pub key: Vec<u8>,
    pub creds: Vec<P>,
    pub challenges: Table<Challenge<R, L>>,
    pub revoked: Revoked,
}

impl<P, R, L> Latch<P, R, L> {
    /// The tables are tables, and the key is one that can sign.
    pub open spec fn wf(&self) -> bool {
        self.challenges.wf() && self.revoked.wf() && self.key@.len() <= i32::MAX
    }

    /// The state at start-up.
    pub fn new(config: Config, key: Vec<u8>, creds: Vec<P>, revoked: Revoked) -> (res: Self)
        requires
            revoked.wf(),
            key@.len() <= i32::MAX,
        ensures
            res.wf(),
            res.config == config,
            res.key == key,
            res.creds == creds,
            res.revoked == revoked,
            res.challenges@ == Map::<Seq<char>, Challenge<R, L>>::empty(),
    {
        Latch { config, key, creds, challenges: Table::new(), revoked }
    }
}

/// The state of a daemon whose passkeys are those of webauthn-rs.
pub type Daemon = Latch<Passkey, PasskeyRegistration, PasskeyAuthentication>;

/// What a setup that failed is reported as.
pub open spec fn setup_text(why: outside::Setup) -> Seq<char> {
    match why {
        outside::Setup::Origin(e) => "invalid origin: "@ + e@,
        outside::Setup::Party(e) => "rp: "@ + e@,
        outside::Setup::Build(e) => "webauthn: "@ + e@,
    }
}

/// What a setup that failed is reported as.
pub fn setup_error(why: outside::Setup) -> (res: String)
    ensures
        res@ == setup_text(why),
{
    match why {
        outside::Setup::Origin(e) => "invalid origin: ".to_owned().concat(e.as_str()),
        outside::Setup::Party(e) => "rp: ".to_owned().concat(e.as_str()),
        outside::Setup::Build(e) => "webauthn: ".to_owned().concat(e.as_str()),
    }
}

/// The site that passkeys are registered with: its origin must be a URL whose
/// domain is the hostname or lies below it.
pub fn relying_party(cfg: &Config) -> (res: Result<Webauthn, String>)
    ensures
        match outside::url_domain(cfg.origin@) {
            Err(e) => res matches Err(msg) && msg@ == "invalid origin: "@ + e,
            Ok(d) => if outside::fits(d, cfg.hostname@) {
                res matches Ok(site) && site == outside::site_of(
                    cfg.hostname@,
                    cfg.origin@,
                    config::RP_NAME@,
                )
            } else {
                res matches Err(msg) && msg@ == "rp: "@ + "The configuration was invalid"@
            },
        },
{
    match outside::new_site(cfg.hostname.as_str(), cfg.origin.as_str(), config::RP_NAME) {
        Ok(site) => Ok(site),
        Err(why) => Err(setup_error(why)),
    }
}

/// The first passkey is registered, after that one signs in.
#[derive(Copy, Clone, Debug, PartialEq, Eq, Structural)]
pub enum Ceremony {
    Register,
    Login,
}

/// The ceremony that a browser is led through, given the registered passkeys.
pub open spec fn ceremony_for<P>(creds: Seq<P>) -> Ceremony {
    if creds.len() == 0 {
        Ceremony::Register
    } else {
        Ceremony::Login
    }
}

// --- the page ---------------------------------------------------------------

/// What the button on the page says.
pub open spec fn label_for(ceremony: Ceremony) -> Seq<char> {
    match ceremony {
        Ceremony::Register => "register passkey"@,
        Ceremony::Login => "sign in"@,
    }
}

/// The page, made of its template.
pub fn index<P, R, L>(latch: &Latch<P, R, L>, page: &str) -> (res: Reply)
    ensures
        res@ == http::typed_reply(
            200,
            "text/html; charset=utf-8"@,
            text::replaced(page@, "{{label}}"@, label_for(ceremony_for(latch.creds@))),
        ),
{
    let label = if latch.creds.len() == 0 {
        "register passkey"
    } else {
        "sign in"
    };
    proof {
        reveal_strlit("{{label}}");
    }
    let html = text::replace(page, "{{label}}", label);
    http::typed(200, "text/html; charset=utf-8", html.as_str())
}

// --- cookies ----------------------------------------------------------------

/// Sets the session cookie.
pub open spec fn session_cookie(domain: Seq<char>, value: Seq<char>) -> Seq<char> {
    config::COOKIE_SESSION@ + "="@ + value + "; Domain="@ + domain
        + "; Path=/; HttpOnly; Secure; SameSite=Lax; Max-Age="@ + text::decimal_text(
        config::SESSION_TTL as nat,
    )
}

/// Takes the session cookie back.
pub open spec fn no_session_cookie(domain: Seq<char>) -> Seq<char> {
    config::COOKIE_SESSION@ + "=; Domain="@ + domain
        + "; Path=/; HttpOnly; Secure; SameSite=Lax; Max-Age=0"@
}

/// Sets the challenge cookie.
pub open spec fn challenge_cookie(value: Seq<char>) -> Seq<char> {
    config::COOKIE_CHALLENGE@ + "="@ + value
        + "; Path=/; HttpOnly; Secure; SameSite=Strict; Max-Age="@ + text::decimal_text(
        config::CHALLENGE_TTL as nat,
    )
}

/// Takes the challenge cookie back.
pub open spec fn no_challenge_cookie() -> Seq<char> {
    config::COOKIE_CHALLENGE@ + "=; Path=/; HttpOnly; Secure; SameSite=Strict; Max-Age=0"@
}

pub fn set_session_cookie(cfg: &Config, value: &str) -> (res: String)
    ensures
        res@ == session_cookie(cfg.cookie_domain@, value@),
{
    config::COOKIE_SESSION.to_owned().concat("=").concat(value).concat("; Domain=").concat(
        cfg.cookie_domain.as_str(),
    ).concat("; Path=/; HttpOnly; Secure; SameSite=Lax; Max-Age=").concat(
        text::decimal(config::SESSION_TTL).as_str(),
    )
}

pub fn clear_session_cookie(cfg: &Config) -> (res: String)
    ensures
        res@ == no_session_cookie(cfg.cookie_domain@),
{
    config::COOKIE_SESSION.to_owned().concat("=; Domain=").concat(
        cfg.cookie_domain.as_str(),
    ).concat("; Path=/; HttpOnly; Secure; SameSite=Lax; Max-Age=0")
}

pub fn set_challenge_cookie(value: &str) -> (res: String)
    ensures
        res@ == challenge_cookie(value@),
{
    config::COOKIE_CHALLENGE.to_owned().concat("=").concat(value).concat(
        "; Path=/; HttpOnly; Secure; SameSite=Strict; Max-Age=",
    ).concat(text::decimal(config::CHALLENGE_TTL).as_str())
}

pub fn clear_challenge_cookie() -> (res: String)
    ensures
        res@ == no_challenge_cookie(),
{
    config::COOKIE_CHALLENGE.to_owned().concat(
        "=; Path=/; HttpOnly; Secure; SameSite=Strict; Max-Age=0",
    )
}

// --- /verify ----------------------------------------------------------------

/// The contents of optional claims.
pub open spec fn claims_of(o: Option<Claims>) -> Option<jwt::ClaimsView> {
    match o {
        Some(c) => Some(c@),
        None => None,
    }
}

/// The session that verified claims are: none that was logged out.
pub open spec fn unless_revoked(
    verified: Result<jwt::ClaimsView, Seq<char>>,
    revoked: Map<Seq<char>, u64>,
) -> Option<jwt::ClaimsView> {
    match verified {
        Ok(c) => if revoked.dom().contains(c.jti) {
            None
        } else {
            Some(c)
        },
        Err(_) => None,
    }
}

/// `s` can be the session that a token stands for, wherever the HMAC can be
/// computed.
pub open spec fn token_session<F: Fn(&[u8]) -> Result<Claims, String>>(
    token: Seq<char>,
    key: Seq<u8>,
    revoked: Map<Seq<char>, u64>,
    now: u64,
    decode: F,
    s: Option<jwt::ClaimsView>,
) -> bool {
    exists|r: Result<jwt::ClaimsView, Seq<char>>| #[trigger]
        jwt::verified(token, key, now, decode, r) && s == unless_revoked(r, revoked)
}

/// `s` can be the session that a request belongs to, wherever the HMAC can be
/// computed.
pub open spec fn request_session<F: Fn(&[u8]) -> Result<Claims, String>>(
    req: http::RequestView,
    key: Seq<u8>,
    revoked: Map<Seq<char>, u64>,
    now: u64,
    decode: F,
    s: Option<jwt::ClaimsView>,
) -> bool {
    match http::cookie_of(req, config::COOKIE_SESSION@) {
        None => s is None,
        Some(token) => token_session(token, key, revoked, now, decode, s),
    }
}

/// The HMAC is needed to tell whether a request belongs to a session: it
/// presents a token that has the frame.
pub open spec fn needs_mac(req: http::RequestView) -> bool {
    match http::cookie_of(req, config::COOKIE_SESSION@) {
        None => false,
        Some(token) => jwt::framed(token) is Ok,
    }
}

/// `s` can be the session that a request belongs to. Where the HMAC is needed
/// and cannot be computed there is none.
pub open spec fn session_outcome<F: Fn(&[u8]) -> Result<Claims, String>>(
    req: http::RequestView,
    key: Seq<u8>,
    revoked: Map<Seq<char>, u64>,
    now: u64,
    decode: F,
    s: Option<jwt::ClaimsView>,
) -> bool {
    request_session(req, key, revoked, now, decode, s) || (needs_mac(req) && s is None)
}

/// The reply to the proxy's question whether a request may pass: the user of
/// its session; or for a browser, where to sign in; or for a program, no.
pub open spec fn verify_answer(
    req: http::RequestView,
    session: Option<jwt::ClaimsView>,
    hostname: Seq<char>,
) -> http::ReplyView {
    match session {
        Some(c) => http::empty_reply(200, "X-Forwarded-User"@, c.sub),
        None => if http::is_api(req) {
            http::typed_reply(401, "application/json"@, "{\"error\":\"unauthenticated\"}"@)
        } else {
            http::empty_reply(
                302,
                "Location"@,
                "https://"@ + hostname + "/login?return_to="@ + http::percent_encoded(
                    encode_utf8(http::wanted_url(req, hostname)),
                ),
            )
        },
    }
}

/// The session that verified claims are.
pub fn live_session(verified: Result<Claims, String>, revoked: &Revoked) -> (res: Option<Claims>)
    requires
        revoked.wf(),
    ensures
        claims_of(res) == unless_revoked(jwt::claims_or_text(verified), revoked@),
{
    match verified {
        Ok(c) => if revoked.contains_key(c.jti.as_str()) {
            None
        } else {
            Some(c)
        },
        Err(_) => None,
    }
}

/// The session that a request belongs to, or why the HMAC that tells could not
/// be computed. Nobody but the machine can make this fail.
pub fn checked_session<F: Fn(&[u8]) -> Result<Claims, String>>(
    req: &Request,
    key: &[u8],
    revoked: &Revoked,
    now: u64,
    decode: F,
) -> (res: Result<Option<Claims>, String>)
    requires
        key@.len() <= i32::MAX,
        revoked.wf(),
        forall|s: &[u8]| call_requires(decode, (s,)),
    ensures
        match res {
            Ok(s) => request_session(req@, key@, revoked@, now, decode, claims_of(s)),
            Err(_) => needs_mac(req@),
        },
{
    match http::cookie(req, config::COOKIE_SESSION) {
        None => Ok(None),
        Some(token) => {
            let verified = match jwt::check_at(token.as_str(), key, now, decode) {
                Ok(c) => Ok(c),
                Err(jwt::Fault::Refused(e)) => Err(e),
                Err(jwt::Fault::Machine(e)) => {
                    return Err(e);
                },
            };
            assert(jwt::verified(token@, key@, now, decode, jwt::claims_or_text(verified)));
            let s = live_session(verified, revoked);
            assert(token_session(token@, key@, revoked@, now, decode, claims_of(s)));
            Ok(s)
        },
    }
}

/// The session that a request belongs to.
pub fn session<P, R, L, F: Fn(&[u8]) -> Result<Claims, String>>(
    req: &Request,
    latch: &Latch<P, R, L>,
    now: u64,
    decode: F,
) -> (res: Option<Claims>)
    requires
        latch.wf(),
        forall|s: &[u8]| call_requires(decode, (s,)),
    ensures
        session_outcome(req@, latch.key@, latch.revoked@, now, decode, claims_of(res)),
{
    match checked_session(req, latch.key.as_slice(), &latch.revoked, now, decode) {
        Ok(s) => s,
        Err(_) => None,
    }
}

/// The reply to the proxy's question, once the session is known.
pub fn verify_reply(req: &Request, session: Option<Claims>, hostname: &str) -> (res: Reply)
    ensures
        res@ == verify_answer(req@, claims_of(session), hostname@),
{
    match session {
        Some(c) => http::empty(200, "X-Forwarded-User", c.sub.as_str()),
        None => if http::is_api_request(req) {
            http::typed(401, "application/json", "{\"error\":\"unauthenticated\"}")
        } else {
            let return_to = http::build_return_to(req, hostname);
            let location = "https://".to_owned().concat(hostname).concat(
                "/login?return_to=",
            ).concat(http::url_encode(return_to.as_str()).as_str());
            http::empty(302, "Location", location.as_str())
        },
    }
}

/// The reply to the proxy's question whether a request may pass.
pub fn verify<P, R, L, F: Fn(&[u8]) -> Result<Claims, String>>(
    req: &Request,
    latch: &Latch<P, R, L>,
    now: u64,
    decode: F,
) -> (res: Reply)
    requires
        latch.wf(),
        forall|s: &[u8]| call_requires(decode, (s,)),
    ensures
        exists|s: Option<jwt::ClaimsView>| #[trigger]
            session_outcome(req@, latch.key@, latch.revoked@, now, decode, s) && res@
                == verify_answer(req@, s, latch.config.hostname@),
{
    let s = session(req, latch, now, decode);
    assert(session_outcome(req@, latch.key@, latch.revoked@, now, decode, claims_of(s)));
    verify_reply(req, s, latch.config.hostname.as_str())
}

// --- /begin -----------------------------------------------------------------

/// Where a browser that starts a ceremony is sent when it is done.
pub open spec fn return_target(url: Seq<char>, cookie_domain: Seq<char>) -> Seq<char> {
    let next = http::param_of(url, "return_to"@);
    config::next_target(next, cookie_domain, outside::url_scheme_and_host(next))
}

/// The ceremony to start, and where the browser is sent when it is done.
pub fn next_ceremony<P, R, L>(req: &Request, latch: &Latch<P, R, L>) -> (res: (Ceremony, String))
    ensures
        res.0 == ceremony_for(latch.creds@),
        res.1@ == return_target(req@.url, latch.config.cookie_domain@),
{
    let next = http::query_param(req.url.as_str(), "return_to");
    let return_to = latch.config.validate_next(next.as_str());
    if latch.creds.len() == 0 {
        (Ceremony::Register, return_to)
    } else {
        (Ceremony::Login, return_to)
    }
}

/// The word for what a challenge was issued for.
pub open spec fn kind_word<R, L>(kind: ChKind<R, L>) -> Seq<char> {
    match kind {
        ChKind::Register(_) => "register"@,
        ChKind::Login(_) => "login"@,
    }
}

/// The reply that hands a challenge out. `options` is JSON.
pub open spec fn challenge_reply(
    mode: Seq<char>,
    options: Seq<char>,
    token: Seq<char>,
) -> http::ReplyView {
    http::and_header(
        http::typed_reply(
            200,
            "application/json"@,
            json::object(
                seq![(json::key("mode"@), json::key(mode)), (json::key("options"@), options)],
            ),
        ),
        "Set-Cookie"@,
        challenge_cookie(token),
    )
}

/// Keeps a challenge under `token` and hands it out. `options` is the JSON of
/// what the browser needs.
pub fn issue_challenge<P, R, L>(
    latch: &mut Latch<P, R, L>,
    token: String,
    now: u64,
    kind: ChKind<R, L>,
    options: &str,
    return_to: String,
) -> (res: Reply)
    requires
        old(latch).wf(),
        now <= u64::MAX - CHALLENGE_NANOS,
    ensures
        final(latch).wf(),
        final(latch).challenges@ == old(latch).challenges@.insert(
            token@,
            Challenge { kind, expires: (now + CHALLENGE_NANOS) as u64, return_to },
        ),
        final(latch).config == old(latch).config,
        final(latch).key == old(latch).key,
        final(latch).creds == old(latch).creds,
        final(latch).revoked == old(latch).revoked,
        res@ == challenge_reply(kind_word(kind), options@, token@),
{
    let mode = match &kind {
        ChKind::Register(_) => "register",
        ChKind::Login(_) => "login",
    };
    let mut fields: Vec<(String, String)> = Vec::new();
    json::push_field(&mut fields, "mode", "\"".to_owned().concat(mode).concat("\""));
    json::push_field(&mut fields, "options", options.to_owned());
    assert(outside::pair_texts(fields@) =~= seq![
        (json::key("mode"@), json::key(mode@)),
        (json::key("options"@), options@),
    ]);
    let body = json::to_object(&fields);
    let cookie = set_challenge_cookie(token.as_str());
    latch.challenges.insert(
        token,
        Challenge { kind, expires: now + CHALLENGE_NANOS, return_to },
    );
    http::with_header(
        http::typed(200, "application/json", body.as_str()),
        "Set-Cookie",
        cookie.as_str(),
    )
}

/// Hands out the challenge of a ceremony that was started, `started` being
/// what it must remember and the JSON of what the browser needs, or why it was
/// not started.
pub fn hand_out<P, R, L>(
    latch: &mut Latch<P, R, L>,
    started: Result<(ChKind<R, L>, String), String>,
    token: String,
    now: u64,
    return_to: String,
) -> (res: Result<Reply, String>)
    requires
        old(latch).wf(),
        now <= u64::MAX - CHALLENGE_NANOS,
    ensures
        final(latch).wf(),
        match started {
            Err(e) => *final(latch) == *old(latch) && (res matches Err(msg) && msg@ == e@),
            Ok((kind, options)) => {
                &&& is_handed_out(
                    *old(latch),
                    *final(latch),
                    token@,
                    Challenge { kind, expires: (now + CHALLENGE_NANOS) as u64, return_to },
                )
                &&& res matches Ok(r) && r@ == challenge_reply(kind_word(kind), options@, token@)
            },
        },
{
    match started {
        Err(e) => Err(e),
        Ok((kind, options)) => Ok(
            issue_challenge(latch, token, now, kind, options.as_str(), return_to),
        ),
    }
}

/// The only change is that a challenge is kept under a token.
pub open spec fn is_handed_out<P, R, L>(
    before: Latch<P, R, L>,
    after: Latch<P, R, L>,
    token: Seq<char>,
    challenge: Challenge<R, L>,
) -> bool {
    &&& after.challenges@ == before.challenges@.insert(token, challenge)
    &&& after.config == before.config
    &&& after.key == before.key
    &&& after.creds == before.creds
    &&& after.revoked == before.revoked
}

/// The user that passkeys are registered for.
pub open spec fn the_user() -> Uuid {
    outside::uuid_in(config::USER_ID@)->0
}

/// The user that passkeys are registered for.
pub fn user_id() -> (res: Uuid)
    ensures
        outside::uuid_in(config::USER_ID@) == Some(res),
        res == the_user(),
{
    let id = outside::parse_uuid(config::USER_ID);
    proof {
        reveal_strlit("c3a4b1f0-0000-0000-0000-000000000001");
        assert(outside::is_hyphenated(config::USER_ID@));
    }
    id.unwrap()
}

/// A ceremony was started at a site where these passkeys are registered:
/// `kind` is what it must remember, `options` the JSON of what the browser
/// needs. Without a passkey one is registered, for the user; with passkeys one
/// signs in with any of them.
pub open spec fn is_started(
    site: Webauthn,
    creds: Seq<Passkey>,
    kind: ChKind<PasskeyRegistration, PasskeyAuthentication>,
    options: Seq<char>,
) -> bool {
    match kind {
        ChKind::Register(state) => creds.len() == 0 && options == outside::registration_options(
            site,
            the_user(),
            config::USER_NAME@,
            config::USER_DISPLAY@,
            state,
        ),
        ChKind::Login(state) => creds.len() > 0 && options == outside::login_options(site, state)
            && outside::allowed_passkeys(state) == creds,
    }
}

/// The words before the reason why a ceremony was not started.
pub open spec fn begin_words(ceremony: Ceremony) -> Seq<char> {
    match ceremony {
        Ceremony::Register => "register-begin: "@,
        Ceremony::Login => "login-begin: "@,
    }
}

/// What a ceremony that was not started is reported as.
pub fn begin_error(ceremony: Ceremony, why: &str) -> (res: String)
    ensures
        res@ == begin_words(ceremony) + why@,
{
    match ceremony {
        Ceremony::Register => "register-begin: ".to_owned().concat(why),
        Ceremony::Login => "login-begin: ".to_owned().concat(why),
    }
}

/// Starts the ceremony that is next, given the registered passkeys.
fn start_ceremony(site: &Webauthn, ceremony: Ceremony, creds: &Vec<Passkey>) -> (res: Result<
    (ChKind<PasskeyRegistration, PasskeyAuthentication>, String),
    String,
>)
    requires
        ceremony == ceremony_for(creds@),
    ensures
        res matches Ok((kind, options)) && is_started(*site, creds@, kind, options@),
{
    proof {
        reveal_strlit("me");
        reveal_strlit("latch");
    }
    match ceremony {
        Ceremony::Register => match outside::start_registration(
            site,
            user_id(),
            config::USER_NAME,
            config::USER_DISPLAY,
        ) {
            Ok((options, state)) => Ok((ChKind::Register(state), options)),
            Err(e) => Err(begin_error(ceremony, e.to_string().as_str())),
        },
        Ceremony::Login => match outside::start_authentication(site, creds) {
            Ok((options, state)) => Ok((ChKind::Login(state), options)),
            Err(e) => Err(begin_error(ceremony, e.to_string().as_str())),
        },
    }
}

/// Starts the ceremony that is next and hands its challenge out under `token`.
/// Nothing can keep it from starting. What webauthn-rs puts into the challenge
/// is random.
pub fn begin(req: &Request, latch: &mut Daemon, site: &Webauthn, token: String, now: u64) -> (res:
    Result<Reply, String>)
    requires
        old(latch).wf(),
        now <= u64::MAX - CHALLENGE_NANOS,
    ensures
        final(latch).wf(),
        res matches Ok(r) && exists|
            challenge: Challenge<PasskeyRegistration, PasskeyAuthentication>,
            options: Seq<char>,
        |
            #![trigger challenge_reply(kind_word(challenge.kind), options, token@)]
            {
                &&& is_started(*site, old(latch).creds@, challenge.kind, options)
                &&& is_handed_out(*old(latch), *final(latch), token@, challenge)
                &&& challenge.expires == now + CHALLENGE_NANOS
                &&& challenge.return_to@ == return_target(
                    req@.url,
                    old(latch).config.cookie_domain@,
                )
                &&& r@ == challenge_reply(kind_word(challenge.kind), options, token@)
            },
{
    let (ceremony, return_to) = next_ceremony(req, latch);
    let started = start_ceremony(site, ceremony, &latch.creds);
    let ghost challenge = Challenge {
        kind: started->Ok_0.0,
        expires: (now + CHALLENGE_NANOS) as u64,
        return_to,
    };
    let ghost options = started->Ok_0.1@;
    let ghost t = token@;
    let res = hand_out(latch, started, token, now, return_to);
    proof {
        if let Ok(r) = &res {
            assert(r@ == challenge_reply(kind_word(challenge.kind), options, t));
        }
    }
    res
}

// --- /complete --------------------------------------------------------------

/// A result with the text of its error.
pub open spec fn unit_or_text(r: Result<(), String>) -> Result<(), Seq<char>> {
    match r {
        Ok(_) => Ok(()),
        Err(e) => Err(e@),
    }
}

/// What a body was read as, or the report that it was not.
pub fn parsed<T>(body: Result<T, String>) -> (res: Result<T, String>)
    ensures
        match body {
            Ok(t) => res == Ok::<T, String>(t),
            Err(e) => res matches Err(msg) && msg@ == "parse: "@ + e@,
        },
{
    match body {
        Ok(t) => Ok(t),
        Err(e) => Err("parse: ".to_owned().concat(e.as_str())),
    }
}

/// Keeps the passkey that a registration came to, if it did.
pub fn keep_registered<P>(creds: &mut Vec<P>, came_to: Result<P, String>) -> (res: Result<
    (),
    String,
>)
    ensures
        match came_to {
            Ok(p) => res is Ok && final(creds)@ == old(creds)@.push(p),
            Err(e) => final(creds)@ == old(creds)@ && (res matches Err(msg) && msg@ == "register: "@
                + e@),
        },
{
    match came_to {
        Ok(p) => {
            creds.push(p);
            Ok(())
        },
        Err(e) => Err("register: ".to_owned().concat(e.as_str())),
    }
}

/// What completing a registration with a body leaves of the passkeys, and what
/// it comes to: a body that is none is refused with the reason, and so is a
/// registration that webauthn-rs refuses; else the passkey that it comes to is
/// kept behind the others.
pub open spec fn registered(
    site: Webauthn,
    body: Seq<char>,
    state: PasskeyRegistration,
    creds: Seq<Passkey>,
) -> (Seq<Passkey>, Result<(), Seq<char>>) {
    match outside::registration_in(body) {
        Err(e) => (creds, Err("parse: "@ + e)),
        Ok(sent) => match outside::registration_result(site, sent, state) {
            Err(e) => (creds, Err("register: "@ + e)),
            Ok(p) => (creds.push(p), Ok(())),
        },
    }
}

/// Completes a registration with the body of a request.
pub fn finish_register(
    site: &Webauthn,
    creds: &mut Vec<Passkey>,
    body: &str,
    state: &PasskeyRegistration,
) -> (res: Result<(), String>)
    ensures
        (final(creds)@, unit_or_text(res)) == registered(*site, body@, *state, old(creds)@),
{
    let sent = match parsed(outside::parse_registration(body)) {
        Ok(sent) => sent,
        Err(e) => {
            return Err(e);
        },
    };
    keep_registered(creds, outside::finish_registration(site, &sent, state))
}

/// The passkeys once the first that a result is of has been brought up to
/// date; `None` where there is none.
pub open spec fn passkeys_after(creds: Seq<Passkey>, result: AuthenticationResult) -> Option<
    Seq<Passkey>,
>
    decreases creds.len(),
{
    if creds.len() == 0 {
        None
    } else {
        match outside::passkey_after(creds[0], result) {
            Some(new) => Some(seq![new] + creds.skip(1)),
            None => match passkeys_after(creds.skip(1), result) {
                Some(rest) => Some(seq![creds[0]] + rest),
                None => None,
            },
        }
    }
}

proof fn lemma_first_is_updated(
    creds: Seq<Passkey>,
    i: int,
    new: Passkey,
    result: AuthenticationResult,
)
    requires
        0 <= i < creds.len(),
        forall|j: int| 0 <= j < i ==> outside::passkey_after(#[trigger] creds[j], result) is None,
        outside::passkey_after(creds[i], result) == Some(new),
    ensures
        passkeys_after(creds, result) == Some(creds.update(i, new)),
    decreases i,
{
    if i == 0 {
        assert(creds.update(0, new) =~= seq![new] + creds.skip(1));
    } else {
        let rest = creds.skip(1);
        assert forall|j: int| 0 <= j < i - 1 implies outside::passkey_after(
            #[trigger] rest[j],
            result,
        ) is None by {
            assert(rest[j] == creds[j + 1]);
        }
        lemma_first_is_updated(rest, i - 1, new, result);
        assert(outside::passkey_after(creds[0], result) is None);
        assert(creds.update(i, new) =~= seq![creds[0]] + rest.update(i - 1, new));
    }
}

proof fn lemma_none_is_updated(creds: Seq<Passkey>, result: AuthenticationResult)
    requires
        forall|j: int|
            0 <= j < creds.len() ==> outside::passkey_after(#[trigger] creds[j], result) is None,
    ensures
        passkeys_after(creds, result) is None,
    decreases creds.len(),
{
    if creds.len() > 0 {
        let rest = creds.skip(1);
        assert forall|j: int| 0 <= j < rest.len() implies outside::passkey_after(
            #[trigger] rest[j],
            result,
        ) is None by {
            assert(rest[j] == creds[j + 1]);
        }
        lemma_none_is_updated(rest, result);
        assert(outside::passkey_after(creds[0], result) is None);
    }
}

/// `update` passes over the first `n` passkeys.
pub open spec fn passes_over<P, F: Fn(&P) -> Option<P>>(creds: Seq<P>, n: int, update: F) -> bool {
    forall|j: int|
        0 <= j < n ==> call_ensures(update, (&#[trigger] creds[j],), None::<P>)
}

/// `update` passes over all passkeys before the one at `i` and makes `new` of
/// that one.
pub open spec fn updates_at<P, F: Fn(&P) -> Option<P>>(
    creds: Seq<P>,
    i: int,
    new: P,
    update: F,
) -> bool {
    &&& 0 <= i < creds.len()
    &&& passes_over(creds, i, update)
    &&& call_ensures(update, (&creds[i],), Some(new))
}

/// Puts what `update` makes of a passkey in its place, for the first passkey
/// of which it makes anything, and says whether there is one.
pub fn update_first<P, F: Fn(&P) -> Option<P>>(creds: &mut Vec<P>, update: F) -> (res: bool)
    requires
        forall|p: &P| call_requires(update, (p,)),
    ensures
        if res {
            exists|i: int, new: P| #[trigger]
                updates_at(old(creds)@, i, new, update) && final(creds)@ == old(creds)@.update(
                    i,
                    new,
                )
        } else {
            passes_over(old(creds)@, old(creds)@.len() as int, update) && final(creds)@ == old(
                creds,
            )@
        },
{
    let n: usize = creds.len();
    let mut i: usize = 0;
    while i < n
        invariant
            n == creds@.len(),
            i <= n,
            creds@ == old(creds)@,
            forall|p: &P| call_requires(update, (p,)),
            passes_over(old(creds)@, i as int, update),
        decreases n - i,
    {
        match update(&creds[i]) {
            Some(new) => {
                assert(updates_at(old(creds)@, i as int, new, update));
                creds.set(i, new);
                return true;
            },
            None => {},
        }
        i = i + 1;
    }
    false
}

/// What a login came to, or the report that it was refused.
pub fn signed_in(came_to: Result<bool, String>) -> (res: Result<bool, String>)
    ensures
        match came_to {
            Ok(found) => res == Ok::<bool, String>(found),
            Err(e) => res matches Err(msg) && msg@ == "login: "@ + e@,
        },
{
    match came_to {
        Ok(found) => Ok(found),
        Err(e) => Err("login: ".to_owned().concat(e.as_str())),
    }
}

/// What completing a login with a body leaves of the passkeys, and what it
/// comes to: a body that is none is refused with the reason, and so is a login
/// that webauthn-rs refuses; else the passkey that was used is brought up to
/// date, which is to be saved, if there is one.
pub open spec fn logged_in(
    site: Webauthn,
    body: Seq<char>,
    state: PasskeyAuthentication,
    creds: Seq<Passkey>,
) -> (Seq<Passkey>, Result<bool, Seq<char>>) {
    match outside::login_in(body) {
        Err(e) => (creds, Err("parse: "@ + e)),
        Ok(sent) => match outside::login_result(site, sent, state) {
            Err(e) => (creds, Err("login: "@ + e)),
            Ok(result) => match passkeys_after(creds, result) {
                Some(updated) => (updated, Ok(true)),
                None => (creds, Ok(false)),
            },
        },
    }
}

/// A result with the text of its error.
pub open spec fn bool_or_text(r: Result<bool, String>) -> Result<bool, Seq<char>> {
    match r {
        Ok(b) => Ok(b),
        Err(e) => Err(e@),
    }
}

/// Completes a login with the body of a request, and says whether the passkeys
/// are to be saved.
pub fn finish_login(
    site: &Webauthn,
    creds: &mut Vec<Passkey>,
    body: &str,
    state: &PasskeyAuthentication,
) -> (res: Result<bool, String>)
    ensures
        (final(creds)@, bool_or_text(res)) == logged_in(*site, body@, *state, old(creds)@),
{
    let sent = match parsed(outside::parse_login(body)) {
        Ok(sent) => sent,
        Err(e) => {
            return Err(e);
        },
    };
    let came_to = match outside::finish_authentication(site, &sent, state) {
        Ok(result) => {
            let used = &result;
            let update = |p: &Passkey| -> (new: Option<Passkey>)
                ensures
                    new == outside::passkey_after(*p, *used),
                { outside::updated_passkey(p, used) };
            let found = update_first(creds, update);
            proof {
                let before = old(creds)@;
                if found {
                    let (i, new) = choose|i: int, new: Passkey| #[trigger]
                        updates_at(before, i, new, update) && creds@ == before.update(i, new);
                    assert forall|j: int| 0 <= j < i implies outside::passkey_after(
                        #[trigger] before[j],
                        result,
                    ) is None by {
                        assert(call_ensures(update, (&before[j],), None::<Passkey>));
                    }
                    lemma_first_is_updated(before, i, new, result);
                } else {
                    assert forall|j: int| 0 <= j < before.len() implies outside::passkey_after(
                        #[trigger] before[j],
                        result,
                    ) is None by {
                        assert(call_ensures(update, (&before[j],), None::<Passkey>));
                    }
                    lemma_none_is_updated(before, result);
                }
            }
            Ok(found)
        },
        Err(e) => Err(e),
    };
    signed_in(came_to)
}

/// What is done about the file of the passkeys after a ceremony.
#[derive(Copy, Clone, Debug, PartialEq, Eq, Structural)]
pub enum Save {
    /// It must be written.
    Must,
    /// It is written if it can be.
    Try,
    /// It stays as it is.
    No,
}

/// What completing a ceremony with a body leaves of the passkeys, and what it
/// comes to: what is to be done about their file.
pub open spec fn finished(
    site: Webauthn,
    kind: ChKind<PasskeyRegistration, PasskeyAuthentication>,
    body: Seq<char>,
    creds: Seq<Passkey>,
) -> (Seq<Passkey>, Result<Save, Seq<char>>) {
    match kind {
        ChKind::Register(state) => {
            let (left, res) = registered(site, body, state, creds);
            (
                left,
                match res {
                    Ok(_) => Ok(Save::Must),
                    Err(e) => Err(e),
                },
            )
        },
        ChKind::Login(state) => {
            let (left, res) = logged_in(site, body, state, creds);
            (
                left,
                match res {
                    Ok(true) => Ok(Save::Try),
                    Ok(false) => Ok(Save::No),
                    Err(e) => Err(e),
                },
            )
        },
    }
}

/// A result with the text of its error.
pub open spec fn save_or_text(r: Result<Save, String>) -> Result<Save, Seq<char>> {
    match r {
        Ok(save) => Ok(save),
        Err(e) => Err(e@),
    }
}

/// Completes the ceremony that a challenge was issued for with the body of a
/// request. A new passkey must be saved; one that was used is saved if it can
/// be.
pub fn finish(
    site: &Webauthn,
    creds: &mut Vec<Passkey>,
    kind: &ChKind<PasskeyRegistration, PasskeyAuthentication>,
    body: &str,
) -> (res: Result<Save, String>)
    ensures
        (final(creds)@, save_or_text(res)) == finished(*site, *kind, body@, old(creds)@),
{
    match kind {
        ChKind::Register(state) => match finish_register(site, creds, body, state) {
            Ok(_) => Ok(Save::Must),
            Err(e) => Err(e),
        },
        ChKind::Login(state) => match finish_login(site, creds, body, state) {
            Ok(true) => Ok(Save::Try),
            Ok(false) => Ok(Save::No),
            Err(e) => Err(e),
        },
    }
}

/// What a ceremony comes to, given what was to be done about the file and how
/// writing it ended: a new passkey that cannot be saved is an error.
pub open spec fn after_saving(save: Save, written: Result<(), Seq<char>>) -> Result<(), Seq<char>> {
    match written {
        Err(e) => if save == Save::Must {
            Err("save: "@ + e)
        } else {
            Ok(())
        },
        Ok(_) => Ok(()),
    }
}

/// What a ceremony came to, given what was to be done about the file and how
/// writing it ended.
pub fn saved(save: Save, written: Result<(), String>) -> (res: Result<(), String>)
    ensures
        unit_or_text(res) == after_saving(save, unit_or_text(written)),
{
    match written {
        Ok(_) => Ok(()),
        Err(e) => if save == Save::Must {
            Err("save: ".to_owned().concat(e.as_str()))
        } else {
            Ok(())
        },
    }
}

/// What taking out the challenge under a token leaves, and what it gives. A
/// challenge can be taken once, and not after it has ended.
pub open spec fn taken<R, L>(
    challenges: Map<Seq<char>, Challenge<R, L>>,
    token: Option<Seq<char>>,
    now: u64,
) -> (Map<Seq<char>, Challenge<R, L>>, Result<Challenge<R, L>, Seq<char>>) {
    match token {
        None => (challenges, Err("no challenge cookie"@)),
        Some(t) => (
            challenges.remove(t),
            if challenges.dom().contains(t) && challenges[t].expires > now {
                Ok(challenges[t])
            } else {
                Err("expired challenge"@)
            },
        ),
    }
}

/// A result with its challenge or the text of its error.
pub open spec fn challenge_or_text<R, L>(r: Result<Challenge<R, L>, String>) -> Result<
    Challenge<R, L>,
    Seq<char>,
> {
    match r {
        Ok(c) => Ok(c),
        Err(e) => Err(e@),
    }
}

/// Takes out the challenge that a request answers.
pub fn take_challenge<P, R, L>(latch: &mut Latch<P, R, L>, req: &Request, now: u64) -> (res:
    Result<Challenge<R, L>, String>)
    requires
        old(latch).wf(),
    ensures
        final(latch).wf(),
        final(latch).config == old(latch).config,
        final(latch).key == old(latch).key,
        final(latch).creds == old(latch).creds,
        final(latch).revoked == old(latch).revoked,
        (final(latch).challenges@, challenge_or_text(res)) == taken(
            old(latch).challenges@,
            http::cookie_of(req@, config::COOKIE_CHALLENGE@),
            now,
        ),
{
    let token = match http::cookie(req, config::COOKIE_CHALLENGE) {
        Some(t) => t,
        None => {
            return Err("no challenge cookie".to_owned());
        },
    };
    match latch.challenges.remove(token.as_str()) {
        Some(c) => if c.expires > now {
            Ok(c)
        } else {
            Err("expired challenge".to_owned())
        },
        None => Err("expired challenge".to_owned()),
    }
}

/// The claims of a session that starts at `now`.
pub open spec fn claims_from(now: u64, jti: Seq<char>) -> jwt::ClaimsView {
    jwt::ClaimsView {
        sub: config::USER_NAME@,
        iat: now,
        exp: (now + config::SESSION_TTL) as u64,
        jti,
    }
}

/// The claims of a session that starts at `now`.
pub fn session_claims(now: u64, jti: String) -> (res: Claims)
    requires
        now <= u64::MAX - config::SESSION_TTL,
    ensures
        res@ == claims_from(now, jti@),
{
    Claims { sub: config::USER_NAME.to_owned(), iat: now, exp: now + config::SESSION_TTL, jti }
}

/// The reply that starts a session: where to go, the session cookie, and no
/// challenge cookie any more.
pub open spec fn session_reply(domain: Seq<char>, token: Seq<char>, return_to: Seq<char>) -> http::ReplyView {
    http::and_header(
        http::and_header(
            http::typed_reply(
                200,
                "application/json"@,
                json::object(seq![(json::key("return_to"@), outside::json_text(return_to))]),
            ),
            "Set-Cookie"@,
            session_cookie(domain, token),
        ),
        "Set-Cookie"@,
        no_challenge_cookie(),
    )
}

/// The reply that starts a session, once issuing its token has come to
/// `token`.
pub fn start_session(cfg: &Config, token: Result<String, String>, return_to: &str) -> (res: Result<
    Reply,
    String,
>)
    ensures
        match token {
            Ok(t) => res matches Ok(r) && r@ == session_reply(cfg.cookie_domain@, t@, return_to@),
            Err(e) => res matches Err(msg) && msg@ == "issue: "@ + e@,
        },
{
    match token {
        Ok(t) => {
            let mut fields: Vec<(String, String)> = Vec::new();
            json::push_field(&mut fields, "return_to", outside::json_string(return_to));
            assert(outside::pair_texts(fields@) =~= seq![
                (json::key("return_to"@), outside::json_text(return_to@)),
            ]);
            let body = json::to_object(&fields);
            let reply = http::typed(200, "application/json", body.as_str());
            let reply = http::with_header(
                reply,
                "Set-Cookie",
                set_session_cookie(cfg, t.as_str()).as_str(),
            );
            Ok(http::with_header(reply, "Set-Cookie", clear_challenge_cookie().as_str()))
        },
        Err(e) => Err("issue: ".to_owned().concat(e.as_str())),
    }
}

/// A result with its reply or the text of its error.
pub open spec fn reply_or_text(r: Result<Reply, String>) -> Result<http::ReplyView, Seq<char>> {
    match r {
        Ok(reply) => Ok(reply@),
        Err(e) => Err(e@),
    }
}

/// `res` can be what starting a session comes to: the session, or the report
/// that its token could not be signed.
pub open spec fn grant_outcome(
    domain: Seq<char>,
    key: Seq<u8>,
    return_to: Seq<char>,
    now: u64,
    jti: Seq<char>,
    res: Result<http::ReplyView, Seq<char>>,
) -> bool {
    match res {
        Ok(r) => r == session_reply(domain, jwt::issued(claims_from(now, jti), key), return_to),
        Err(e) => "issue: "@.is_prefix_of(e),
    }
}

/// The reply once a ceremony has come to `done`: a session, named by `jti`, if
/// the ceremony came to an end, and else the reason why it did not.
pub fn grant<P, R, L>(
    latch: &Latch<P, R, L>,
    done: Result<(), String>,
    return_to: &str,
    now: u64,
    jti: String,
) -> (res: Result<Reply, String>)
    requires
        latch.wf(),
        now <= u64::MAX - config::SESSION_TTL,
    ensures
        match unit_or_text(done) {
            Err(why) => reply_or_text(res) == Err::<http::ReplyView, Seq<char>>(why),
            Ok(_) => grant_outcome(
                latch.config.cookie_domain@,
                latch.key@,
                return_to@,
                now,
                jti@,
                reply_or_text(res),
            ),
        },
{
    if let Err(why) = done {
        return Err(why);
    }
    let claims = session_claims(now, jti);
    let token = jwt::issue(&claims, latch.key.as_slice());
    let res = start_session(&latch.config, token, return_to);
    proof {
        if let Err(e) = &res {
            assert(e@.take("issue: "@.len() as int) =~= "issue: "@);
        }
    }
    res
}

/// `w` can be how writing the passkeys ended. They are not written where
/// nothing is to be saved.
pub open spec fn writes<W: Fn(&Vec<Passkey>) -> Result<(), String>>(
    write: W,
    save: Save,
    creds: Seq<Passkey>,
    w: Result<(), Seq<char>>,
) -> bool {
    if save == Save::No {
        w == Ok::<(), Seq<char>>(())
    } else {
        exists|v: &Vec<Passkey>, r: Result<(), String>|
            v@ == creds && #[trigger] call_ensures(write, (v,), r) && unit_or_text(r) == w
    }
}

/// A request that completes a ceremony: what it carries, and what it meets.
pub struct Completion<W> {
    /// The site, with what the browser sent.
    pub site: Webauthn,
    pub req: http::RequestView,
    /// The body, or why it could not be read.
    pub body: Result<Seq<char>, Seq<char>>,
    /// A clock that never goes back, in nanoseconds.
    pub clock: u64,
    /// Writes the passkeys.
    pub write: W,
    /// The second in which a session would start, and its name.
    pub now: u64,
    pub jti: Seq<char>,
}

/// What taking out the challenge of a request leaves, and what it gives.
pub open spec fn answered<W>(
    challenges: Map<Seq<char>, Challenge<PasskeyRegistration, PasskeyAuthentication>>,
    c: Completion<W>,
) -> (
    Map<Seq<char>, Challenge<PasskeyRegistration, PasskeyAuthentication>>,
    Result<Challenge<PasskeyRegistration, PasskeyAuthentication>, Seq<char>>,
) {
    taken(challenges, http::cookie_of(c.req, config::COOKIE_CHALLENGE@), c.clock)
}

/// `after` and `res` can be what completing a ceremony comes to. Its challenge
/// is taken out whatever happens. Where there is none, or the body could not
/// be read, nothing else is done. Else the ceremony is finished with the body,
/// and only if it is accepted, and a new passkey saved, a session starts.
pub open spec fn complete_outcome<W: Fn(&Vec<Passkey>) -> Result<(), String>>(
    c: Completion<W>,
    before: Daemon,
    after: Daemon,
    res: Result<http::ReplyView, Seq<char>>,
) -> bool {
    let (left, found) = answered(before.challenges@, c);
    &&& after.challenges@ == left
    &&& after.config == before.config
    &&& after.key == before.key
    &&& after.revoked == before.revoked
    &&& match found {
        Err(e) => after.creds == before.creds && res == Err::<http::ReplyView, Seq<char>>(e),
        Ok(challenge) => match c.body {
            Err(e) => after.creds == before.creds && res == Err::<http::ReplyView, Seq<char>>(
                "read: "@ + e,
            ),
            Ok(body) => {
                let (creds, came_to) = finished(c.site, challenge.kind, body, before.creds@);
                after.creds@ == creds && match came_to {
                    Err(e) => res == Err::<http::ReplyView, Seq<char>>(e),
                    Ok(save) => is_granted(c, before, challenge.return_to@, save, creds, res),
                }
            },
        },
    }
}

/// `res` can be what comes of a ceremony that was accepted, once its passkeys
/// have been written or not.
pub open spec fn is_granted<W: Fn(&Vec<Passkey>) -> Result<(), String>>(
    c: Completion<W>,
    before: Daemon,
    return_to: Seq<char>,
    save: Save,
    creds: Seq<Passkey>,
    res: Result<http::ReplyView, Seq<char>>,
) -> bool {
    exists|w: Result<(), Seq<char>>| #[trigger]
        writes(c.write, save, creds, w) && match after_saving(save, w) {
            Err(e) => res == Err::<http::ReplyView, Seq<char>>(e),
            Ok(_) => grant_outcome(
                before.config.cookie_domain@,
                before.key@,
                return_to,
                c.now,
                c.jti,
                res,
            ),
        }
}

/// Completes the ceremony of the challenge that a request answers, and starts
/// a session, named by `jti`, if it is accepted. `clock` never goes back;
/// `body` is the body of the request, or why it could not be read; `write`
/// writes the passkeys.
pub fn complete<W: Fn(&Vec<Passkey>) -> Result<(), String>>(
    latch: &mut Daemon,
    site: &Webauthn,
    req: &Request,
    clock: u64,
    body: &Result<String, String>,
    write: W,
    now: u64,
    jti: String,
) -> (res: Result<Reply, String>)
    requires
        old(latch).wf(),
        now <= u64::MAX - config::SESSION_TTL,
        forall|p: &Vec<Passkey>| call_requires(write, (p,)),
    ensures
        final(latch).wf(),
        complete_outcome(
            (Completion {
                site: *site,
                req: req@,
                body: jwt::text_or_text(*body),
                clock,
                write,
                now,
                jti: jti@,
            }),
            *old(latch),
            *final(latch),
            reply_or_text(res),
        ),
{
    let ghost c = Completion {
        site: *site,
        req: req@,
        body: jwt::text_or_text(*body),
        clock,
        write,
        now,
        jti: jti@,
    };
    let challenge = match take_challenge(latch, req, clock) {
        Ok(challenge) => challenge,
        Err(e) => {
            return Err(e);
        },
    };
    let body = match body {
        Ok(body) => body,
        Err(e) => {
            return Err("read: ".to_owned().concat(e.as_str()));
        },
    };
    let save = match finish(site, &mut latch.creds, &challenge.kind, body.as_str()) {
        Ok(save) => save,
        Err(e) => {
            return Err(e);
        },
    };
    let written = if save == Save::No {
        Ok(())
    } else {
        write(&latch.creds)
    };
    let ghost w = unit_or_text(written);
    assert(writes(c.write, save, latch.creds@, w));
    let done = saved(save, written);
    let ghost d = unit_or_text(done);
    let res = grant(latch, done, challenge.return_to.as_str(), now, jti);
    assert(d == after_saving(save, w));
    assert(is_granted(
        c,
        *old(latch),
        challenge.return_to@,
        save,
        latch.creds@,
        reply_or_text(res),
    ));
    res
}

// --- /logout ----------------------------------------------------------------

/// The denylist after a logout with verified claims, or without.
pub open spec fn logged_out(
    revoked: Map<Seq<char>, u64>,
    verified: Option<jwt::ClaimsView>,
) -> Map<Seq<char>, u64> {
    match verified {
        Some(c) => revoked.insert(c.jti, c.exp),
        None => revoked,
    }
}

/// `c` can be the claims that a logout request presents.
pub open spec fn presented<F: Fn(&[u8]) -> Result<Claims, String>>(
    req: http::RequestView,
    key: Seq<u8>,
    now: u64,
    decode: F,
    c: Option<jwt::ClaimsView>,
) -> bool {
    session_outcome(req, key, Map::empty(), now, decode, c)
}

/// Ends a session whose claims were verified, and says whether the denylist
/// is to be saved.
pub fn revoke<P, R, L>(latch: &mut Latch<P, R, L>, verified: Option<Claims>) -> (res: bool)
    requires
        old(latch).wf(),
    ensures
        final(latch).wf(),
        final(latch).revoked@ == logged_out(old(latch).revoked@, claims_of(verified)),
        final(latch).config == old(latch).config,
        final(latch).key == old(latch).key,
        final(latch).creds == old(latch).creds,
        final(latch).challenges == old(latch).challenges,
        res == verified is Some,
{
    match verified {
        Some(c) => {
            latch.revoked.insert(c.jti, c.exp);
            true
        },
        None => false,
    }
}

/// Ends the session that a request presents, if it does, and takes the cookie
/// back. The denylist is to be saved if the second value says so.
pub fn logout<P, R, L, F: Fn(&[u8]) -> Result<Claims, String>>(
    req: &Request,
    latch: &mut Latch<P, R, L>,
    now: u64,
    decode: F,
) -> (res: (Reply, bool))
    requires
        old(latch).wf(),
        forall|s: &[u8]| call_requires(decode, (s,)),
    ensures
        final(latch).wf(),
        final(latch).config == old(latch).config,
        final(latch).key == old(latch).key,
        final(latch).creds == old(latch).creds,
        final(latch).challenges == old(latch).challenges,
        exists|c: Option<jwt::ClaimsView>| #[trigger]
            presented(req@, old(latch).key@, now, decode, c) && final(latch).revoked@
                == logged_out(old(latch).revoked@, c) && res.1 == c is Some,
        res.0@ == http::empty_reply(
            204,
            "Set-Cookie"@,
            no_session_cookie(old(latch).config.cookie_domain@),
        ),
{
    let claims = match checked_session(req, latch.key.as_slice(), &Table::new(), now, decode) {
        Ok(c) => c,
        Err(_) => None,
    };
    assert(presented(req@, latch.key@, now, decode, claims_of(claims)));
    let save = revoke(latch, claims);
    (http::empty(204, "Set-Cookie", clear_session_cookie(&latch.config).as_str()), save)
}

// --- errors -----------------------------------------------------------------

/// The reply to a request, given what became of it.
pub fn answer(res: Result<Reply, String>) -> (reply: Reply)
    ensures
        match res {
            Ok(r) => reply == r,
            Err(e) => reply@ == http::plain_reply(400, e@),
        },
{
    match res {
        Ok(r) => r,
        Err(e) => http::bad(e.as_str()),
    }
}

// --- sweeping ---------------------------------------------------------------

/// Drops challenges that have ended at `clock` and revoked tokens that have
/// ended at the second `now`, and says whether the denylist is to be saved.
pub fn sweep<P, R, L>(latch: &mut Latch<P, R, L>, clock: u64, now: u64) -> (res: bool)
    requires
        old(latch).wf(),
    ensures
        final(latch).wf(),
        final(latch).challenges@ == state::unexpired(old(latch).challenges@, clock),
        final(latch).revoked@ == state::unexpired(old(latch).revoked@, now),
        final(latch).config == old(latch).config,
        final(latch).key == old(latch).key,
        final(latch).creds == old(latch).creds,
        res == exists|jti: Seq<char>| #[trigger]
            old(latch).revoked@.dom().contains(jti) && old(latch).revoked@[jti] <= now,
{
    let _ = latch.challenges.expire(clock);
    let res = latch.revoked.expire(now);
    res
}

// --- laws -------------------------------------------------------------------

/// The page offers what the next request to begin a ceremony starts: without a
/// passkey one is registered, and once there is one no new registration is
/// started. (One that was started before can still be completed.)
pub proof fn registration_closes<P>(creds: Seq<P>, passkey: P)
    ensures
        ceremony_for(Seq::<P>::empty()) == Ceremony::Register,
        ceremony_for(creds.push(passkey)) == Ceremony::Login,
        label_for(ceremony_for(creds.push(passkey))) == "sign in"@,
{
}

/// A challenge is given back to the request that carries its token, as it was
/// issued, until it ends; then, or a second time, it is refused. Challenges
/// under other tokens are left alone.
pub proof fn challenges_are_answered_once<R, L>(
    challenges: Map<Seq<char>, Challenge<R, L>>,
    token: Seq<char>,
    challenge: Challenge<R, L>,
    now: u64,
    later: u64,
    other: Seq<char>,
)
    ensures
        ({
            let issued = challenges.insert(token, challenge);
            let (left, first) = taken(issued, Some(token), now);
            let (_, second) = taken(left, Some(token), later);
            &&& first == if challenge.expires > now {
                Ok(challenge)
            } else {
                Err("expired challenge"@)
            }
            &&& second == Err::<Challenge<R, L>, Seq<char>>("expired challenge"@)
            &&& left == challenges.remove(token)
            &&& other != token ==> taken(left, Some(other), later).1 == taken(
                challenges,
                Some(other),
                later,
            ).1
        }),
{
    let issued = challenges.insert(token, challenge);
    assert(issued.remove(token) =~= challenges.remove(token));
}

/// The ceremony of a challenge was accepted with a body.
pub open spec fn is_accepted(
    site: Webauthn,
    kind: ChKind<PasskeyRegistration, PasskeyAuthentication>,
    body: Seq<char>,
) -> bool {
    match kind {
        ChKind::Register(state) => outside::registration_in(body) matches Ok(sent)
            && outside::registration_result(site, sent, state) is Ok,
        ChKind::Login(state) => outside::login_in(body) matches Ok(sent) && outside::login_result(
            site,
            sent,
            state,
        ) is Ok,
    }
}

/// A session starts only in answer to an open challenge whose ceremony was
/// accepted with the body of the request: nothing else makes completing
/// succeed, and then the session is the one of that moment and the browser is
/// sent where the challenge says.
pub proof fn sessions_follow_ceremonies<W: Fn(&Vec<Passkey>) -> Result<(), String>>(
    c: Completion<W>,
    before: Daemon,
    after: Daemon,
    r: http::ReplyView,
)
    requires
        complete_outcome(c, before, after, Ok(r)),
    ensures
        answered(before.challenges@, c).1 matches Ok(challenge) && (c.body matches Ok(body) && {
            &&& is_accepted(c.site, challenge.kind, body)
            &&& after.creds@ == finished(c.site, challenge.kind, body, before.creds@).0
            &&& r == session_reply(
                before.config.cookie_domain@,
                jwt::issued(claims_from(c.now, c.jti), before.key@),
                challenge.return_to@,
            )
        }),
{
}

/// Tapping a passkey gives a session: where an open challenge is answered with
/// a body that is accepted, and a new passkey can be saved, completing fails
/// only where the session's token cannot be signed.
pub proof fn tapping_a_passkey_gives_a_session<W: Fn(&Vec<Passkey>) -> Result<(), String>>(
    c: Completion<W>,
    before: Daemon,
    after: Daemon,
    res: Result<http::ReplyView, Seq<char>>,
    challenge: Challenge<PasskeyRegistration, PasskeyAuthentication>,
    body: Seq<char>,
)
    requires
        complete_outcome(c, before, after, res),
        answered(before.challenges@, c).1 == Ok::<_, Seq<char>>(challenge),
        c.body == Ok::<Seq<char>, Seq<char>>(body),
        is_accepted(c.site, challenge.kind, body),
        challenge.kind is Register ==> forall|v: &Vec<Passkey>, r: Result<(), String>| #[trigger]
            call_ensures(c.write, (v,), r) ==> r is Ok,
    ensures
        grant_outcome(
            before.config.cookie_domain@,
            before.key@,
            challenge.return_to@,
            c.now,
            c.jti,
            res,
        ),
{
}

/// A challenge is used once, even if its first use failed: a request that
/// carries the token of a challenge that was answered before, and was not
/// issued again since, gets no session and changes no passkey.
pub proof fn ceremonies_are_completed_once<W: Fn(&Vec<Passkey>) -> Result<(), String>>(
    first: Completion<W>,
    before: Daemon,
    between: Daemon,
    res: Result<http::ReplyView, Seq<char>>,
    token: Seq<char>,
    again: Completion<W>,
    later: Daemon,
    after: Daemon,
    second: Result<http::ReplyView, Seq<char>>,
)
    requires
        complete_outcome(first, before, between, res),
        http::cookie_of(first.req, config::COOKIE_CHALLENGE@) == Some(token),
        later.challenges@.dom().contains(token) ==> between.challenges@.dom().contains(token),
        http::cookie_of(again.req, config::COOKIE_CHALLENGE@) == Some(token),
        complete_outcome(again, later, after, second),
    ensures
        second == Err::<http::ReplyView, Seq<char>>("expired challenge"@),
        after.creds == later.creds,
        after.challenges@ == later.challenges@,
{
    assert(!later.challenges@.dom().contains(token));
    assert(later.challenges@.remove(token) =~= later.challenges@);
}

/// Sweeping takes away no challenge that could still be answered.
pub proof fn sweeping_spares_open_challenges<R, L>(
    challenges: Map<Seq<char>, Challenge<R, L>>,
    token: Option<Seq<char>>,
    swept: u64,
    now: u64,
)
    requires
        swept <= now,
    ensures
        taken(state::unexpired(challenges, swept), token, now).1 == taken(challenges, token, now).1,
{
}

/// `decode` gives one answer for the same bytes.
pub open spec fn is_settled<F: Fn(&[u8]) -> Result<Claims, String>>(decode: F) -> bool {
    forall|b: Seq<u8>, x: Result<jwt::ClaimsView, Seq<char>>, y: Result<jwt::ClaimsView, Seq<char>>|
        #[trigger] jwt::decodes(decode, b, x) && #[trigger] jwt::decodes(decode, b, y) ==> x == y
}

/// What can happen to the denylist.
pub enum Event {
    /// A logout, with the claims it presented, if any.
    Logout(Option<jwt::ClaimsView>),
    /// A sweep, at a second.
    Sweep(u64),
}

/// The denylist after one event.
pub open spec fn after(revoked: Map<Seq<char>, u64>, event: Event) -> Map<Seq<char>, u64> {
    match event {
        Event::Logout(c) => logged_out(revoked, c),
        Event::Sweep(at) => state::unexpired(revoked, at),
    }
}

/// The denylist after events, one after the other.
pub open spec fn after_all(revoked: Map<Seq<char>, u64>, events: Seq<Event>) -> Map<Seq<char>, u64>
    decreases events.len(),
{
    if events.len() == 0 {
        revoked
    } else {
        after(after_all(revoked, events.drop_last()), events.last())
    }
}

/// An event that can stand between a logout with claims `c` and `now`: a sweep
/// that is not later, or a logout, where no other token has the identifier of
/// this one and ends before it.
pub open spec fn is_between(event: Event, c: jwt::ClaimsView, now: u64) -> bool {
    match event {
        Event::Logout(Some(d)) => d.jti == c.jti ==> d.exp >= c.exp,
        Event::Logout(None) => true,
        Event::Sweep(at) => at <= now,
    }
}

/// Claims that cannot be used at `now`: they have ended, or the denylist holds
/// them for as long as they last.
pub open spec fn is_out(revoked: Map<Seq<char>, u64>, c: jwt::ClaimsView, now: u64) -> bool {
    c.exp <= now || (revoked.dom().contains(c.jti) && revoked[c.jti] >= c.exp)
}

proof fn lemma_stays_out(
    revoked: Map<Seq<char>, u64>,
    c: jwt::ClaimsView,
    events: Seq<Event>,
    now: u64,
)
    requires
        is_out(revoked, c, now),
        forall|i: int| 0 <= i < events.len() ==> is_between(#[trigger] events[i], c, now),
    ensures
        is_out(after_all(revoked, events), c, now),
    decreases events.len(),
{
    if events.len() > 0 {
        let head = events.drop_last();
        assert forall|i: int| 0 <= i < head.len() implies is_between(#[trigger] head[i], c, now) by {
            assert(head[i] == events[i]);
        }
        lemma_stays_out(revoked, c, head, now);
        assert(is_between(events[events.len() - 1], c, now));
    }
}

/// A session that was logged out is over: no request with its token is let in
/// afterwards, whatever other logouts and sweeps come in between.
pub proof fn logout_is_final<F: Fn(&[u8]) -> Result<Claims, String>>(
    req: http::RequestView,
    key: Seq<u8>,
    revoked: Map<Seq<char>, u64>,
    at: u64,
    decode: F,
    c: jwt::ClaimsView,
    events: Seq<Event>,
    again: http::RequestView,
    now: u64,
    s: Option<jwt::ClaimsView>,
)
    requires
        is_settled(decode),
        presented(req, key, at, decode, Some(c)),
        http::cookie_of(again, config::COOKIE_SESSION@) == http::cookie_of(
            req,
            config::COOKIE_SESSION@,
        ),
        forall|i: int| 0 <= i < events.len() ==> is_between(#[trigger] events[i], c, now),
        session_outcome(
            again,
            key,
            after_all(logged_out(revoked, Some(c)), events),
            now,
            decode,
            s,
        ),
    ensures
        s is None,
{
    let token = http::cookie_of(req, config::COOKIE_SESSION@)->0;
    let list = after_all(logged_out(revoked, Some(c)), events);
    lemma_stays_out(logged_out(revoked, Some(c)), c, events, now);
    assert(jwt::verified(token, key, at, decode, Ok(c)));
    jwt::accepted_tokens_are_signed(token, key, Some(at), decode, c);
    if let Some(d) = s {
        assert(jwt::verified(token, key, now, decode, Ok(d)));
        jwt::accepted_tokens_are_signed(token, key, Some(now), decode, d);
        let payload = jwt::framed(token)->Ok_0.0;
        let b = b64u::decoded(payload)->0;
        assert(jwt::decodes(decode, b, Ok(c)) && jwt::decodes(decode, b, Ok(d)));
        assert(c == d);
    }
}

proof fn lemma_token_is_a_cookie_value(c: jwt::ClaimsView, key: Seq<u8>)
    ensures
        http::is_cookie_value(jwt::issued(c, key)),
{
    let json = encode_utf8(jwt::claims_json(c));
    let payload = b64u::encoded(json);
    let mac = outside::hmac_sha256_of(key, encode_utf8(jwt::signing_input(payload)));
    let t = jwt::issued(c, key);
    let h = jwt::HEADER@;
    let m = b64u::encoded(mac);
    b64u::encoded_stays_in_the_alphabet(json);
    b64u::encoded_stays_in_the_alphabet(mac);
    reveal_strlit("eyJhbGciOiJIUzI1NiIsInR5cCI6IkpXVCJ9");
    assert forall|i: int| 0 <= i < t.len() implies #[trigger] t[i] != ';' && !text::is_space(t[i]) by {
        if i < h.len() {
            assert(t[i] == h[i]);
        } else if h.len() < i < h.len() + 1 + payload.len() {
            assert(t[i] == payload[i - h.len() - 1]);
            assert(b64u::symbol_value(payload[i - h.len() - 1]) is Some);
        } else if i > h.len() + 1 + payload.len() {
            let j = i - h.len() - payload.len() - 2;
            assert(t[i] == m[j]);
            assert(b64u::symbol_value(m[j]) is Some);
        }
    }
    if t.contains(';') {
        assert(t[t.index_of(';')] == ';');
    }
}

/// The cookie that a new session sets is a pair of a name and the session's
/// token, and a request that sends this pair back, alone or behind other
/// cookies, presents that token.
pub proof fn session_cookies_come_back(
    domain: Seq<char>,
    c: jwt::ClaimsView,
    key: Seq<u8>,
    before: Seq<char>,
)
    requires
        http::cookie_in(before, config::COOKIE_SESSION@) is None,
    ensures
        ({
            let token = jwt::issued(c, key);
            let pair = text::pieces(session_cookie(domain, token), ';')[0];
            &&& pair == config::COOKIE_SESSION@ + "="@ + token
            &&& http::cookie_in(pair, config::COOKIE_SESSION@) == Some(token)
            &&& http::cookie_in(before + "; "@ + pair, config::COOKIE_SESSION@) == Some(token)
        }),
{
    let token = jwt::issued(c, key);
    lemma_token_is_a_cookie_value(c, key);
    reveal_strlit("latch_session");
    reveal_strlit("=");
    reveal_strlit("; Domain=");
    assert("="@ =~= seq!['=']);
    let pair = config::COOKIE_SESSION@ + "="@ + token;
    assert(!pair.contains(';')) by {
        if pair.contains(';') {
            let i = pair.index_of(';');
            if i >= 14 {
                assert(token[i - 14] == ';');
            }
        }
    }
    let rest = "; Domain="@.skip(1) + domain + "; Path=/; HttpOnly; Secure; SameSite=Lax; Max-Age="@
        + text::decimal_text(config::SESSION_TTL as nat);
    assert(session_cookie(domain, token) =~= pair + seq![';'] + rest);
    text::lemma_pieces_first(pair, ';', rest);
    http::cookies_are_read_back(config::COOKIE_SESSION@, token, before);
}

/// Who has signed in is let in, by name, until the session ends or is logged
/// out: wherever the HMAC can be computed, and `decode` reads the claims back
/// out of their JSON, nothing else can come of a request with the token.
pub proof fn signing_in_opens_the_door<F: Fn(&[u8]) -> Result<Claims, String>>(
    req: http::RequestView,
    key: Seq<u8>,
    revoked: Map<Seq<char>, u64>,
    start: u64,
    jti: Seq<char>,
    now: u64,
    decode: F,
    s: Option<jwt::ClaimsView>,
    hostname: Seq<char>,
)
    requires
        start <= u64::MAX - config::SESSION_TTL,
        now < start + config::SESSION_TTL,
        !revoked.dom().contains(jti),
        forall|d: Result<jwt::ClaimsView, Seq<char>>| #[trigger]
            jwt::decodes(decode, encode_utf8(jwt::claims_json(claims_from(start, jti))), d) ==> d
                == Ok::<jwt::ClaimsView, Seq<char>>(claims_from(start, jti)),
        http::cookie_of(req, config::COOKIE_SESSION@) == Some(
            jwt::issued(claims_from(start, jti), key),
        ),
        request_session(req, key, revoked, now, decode, s),
    ensures
        s == Some(claims_from(start, jti)),
        verify_answer(req, s, hostname) == http::empty_reply(
            200,
            "X-Forwarded-User"@,
            config::USER_NAME@,
        ),
{
    let c = claims_from(start, jti);
    let token = jwt::issued(c, key);
    let r = choose|r: Result<jwt::ClaimsView, Seq<char>>| #[trigger]
        jwt::verified(token, key, now, decode, r) && s == unless_revoked(r, revoked);
    let mac = choose|mac: Result<Seq<u8>, Seq<char>>|
        mac is Ok && #[trigger] jwt::verified_with(token, key, Some(now), decode, mac, r);
    jwt::verify_gives_back_what_was_issued(c, key, now, decode, mac, r);
}

/// A request without a session gets 401 if it comes from a program, and else
/// is sent to the login page on this host, with the URL it wanted. No request
/// gets 200 but one with a session.
pub proof fn strangers_are_turned_away(
    req: http::RequestView,
    session: Option<jwt::ClaimsView>,
    hostname: Seq<char>,
)
    ensures
        ({
            let r = verify_answer(req, session, hostname);
            &&& r.status == 200 <==> session is Some
            &&& r.status == 401 <==> session is None && http::is_api(req)
            &&& r.status == 302 <==> session is None && !http::is_api(req)
        }),
{
}

} // verus!
