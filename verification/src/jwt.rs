//! Session tokens: JSON Web Tokens signed with HMAC-SHA-256 (HS256).
//!
//! A token is `<header>.<payload>.<signature>`, each part in base64url. The
//! header is fixed, the payload is the JSON of the claims, and the signature
//! is the HMAC of everything before its dot.
use vstd::prelude::*;
use vstd::utf8::*;

pub use crate::b64u::{b64u_decode, b64u_encode};
use crate::{b64u, json, outside, text};

verus! {

/// The base64url text of `{"alg":"HS256","typ":"JWT"}`.
pub const HEADER: &'static str = "eyJhbGciOiJIUzI1NiIsInR5cCI6IkpXVCJ9";

/// The length of an HMAC, in bytes.
pub const MAC_LEN: usize = 32;

/// What a session token says: whose session it is, when it was issued, when
/// it ends (both in seconds since the Unix epoch), and its own identifier.
#[derive(Debug)]
pub struct Claims {
    pub sub: String,
    pub iat: u64,
    pub exp: u64,
    pub jti: String,
}

/// The contents of `Claims`.
pub struct ClaimsView {
    pub sub: Seq<char>,
    pub iat: u64,
    pub exp: u64,
    pub jti: Seq<char>,
}

impl View for Claims {
    type V = ClaimsView;

    open spec fn view(&self) -> ClaimsView {
        ClaimsView { sub: self.sub@, iat: self.iat, exp: self.exp, jti: self.jti@ }
    }
}

// --- meanings ---------------------------------------------------------------

/// A result with the contents of its claims or the text of its error.
pub open spec fn claims_or_text(r: Result<Claims, String>) -> Result<ClaimsView, Seq<char>> {
    match r {
        Ok(c) => Ok(c@),
        Err(e) => Err(e@),
    }
}

/// A result with its bytes or the text of its error.
pub open spec fn bytes_or_text(r: Result<Vec<u8>, String>) -> Result<Seq<u8>, Seq<char>> {
    match r {
        Ok(b) => Ok(b@),
        Err(e) => Err(e@),
    }
}

/// A result with its text, or that of its error.
pub open spec fn text_or_text(r: Result<String, String>) -> Result<Seq<char>, Seq<char>> {
    match r {
        Ok(s) => Ok(s@),
        Err(e) => Err(e@),
    }
}

/// The JSON of claims: an object with their four fields, in this order.
pub open spec fn claims_json(c: ClaimsView) -> Seq<char> {
    json::object(
        seq![
            (json::key("sub"@), outside::json_text(c.sub)),
            (json::key("iat"@), text::decimal_text(c.iat as nat)),
            (json::key("exp"@), text::decimal_text(c.exp as nat)),
            (json::key("jti"@), outside::json_text(c.jti)),
        ],
    )
}

/// What is signed: the header and the encoded payload.
pub open spec fn signing_input(payload: Seq<char>) -> Seq<char> {
    HEADER@ + seq!['.'] + payload
}

/// A token with the given encoded payload and signature.
pub open spec fn token_text(payload: Seq<char>, mac: Seq<u8>) -> Seq<char> {
    signing_input(payload) + seq!['.'] + b64u::encoded(mac)
}

/// What computing an HMAC can come to: the HMAC, or a failure of the machine.
pub open spec fn mac_outcome(
    key: Seq<u8>,
    data: Seq<char>,
    mac: Result<Seq<u8>, Seq<char>>,
) -> bool {
    mac matches Ok(m) ==> m == outside::hmac_sha256_of(key, encode_utf8(data)) && m.len() == MAC_LEN
}

/// The encoded payload and signature of a token with the fixed header.
pub open spec fn framed(token: Seq<char>) -> Result<(Seq<char>, Seq<char>), Seq<char>> {
    let parts = text::pieces(token, '.');
    if parts.len() < 2 {
        Err("missing payload"@)
    } else if parts.len() == 2 {
        Err("missing signature"@)
    } else if parts.len() > 3 {
        Err("malformed"@)
    } else if parts[0] != HEADER@ {
        Err("bad header"@)
    } else {
        Ok((parts[1], parts[2]))
    }
}

/// The payload behind an encoded payload and signature, once the HMAC that
/// the signature is held against has come to `mac`.
pub open spec fn opened(
    payload: Seq<char>,
    signature: Seq<char>,
    mac: Result<Seq<u8>, Seq<char>>,
) -> Result<Seq<u8>, Seq<char>> {
    match mac {
        Err(e) => Err(e),
        Ok(expected) => match b64u::decoded(signature) {
            None => Err("bad signature encoding"@),
            Some(actual) => if actual != expected {
                Err("invalid signature"@)
            } else {
                match b64u::decoded(payload) {
                    None => Err("bad payload encoding"@),
                    Some(b) => Ok(b),
                }
            },
        },
    }
}

/// Claims are good until the second they end in.
pub open spec fn judged(
    claims: Result<ClaimsView, Seq<char>>,
    now: u64,
) -> Result<ClaimsView, Seq<char>> {
    match claims {
        Err(e) => Err(e),
        Ok(c) => if c.exp <= now {
            Err("expired"@)
        } else {
            Ok(c)
        },
    }
}

/// `decode` can give `r` for the bytes `b`.
pub open spec fn decodes<F: Fn(&[u8]) -> Result<Claims, String>>(
    decode: F,
    b: Seq<u8>,
    r: Result<ClaimsView, Seq<char>>,
) -> bool {
    exists|s: &[u8], d: Result<Claims, String>|
        s@ == b && #[trigger] call_ensures(decode, (s,), d) && claims_or_text(d) == r
}

/// The payload of a token, once the HMAC that its signature is held against
/// has come to `mac`.
pub open spec fn payload_with(token: Seq<char>, mac: Result<Seq<u8>, Seq<char>>) -> Result<
    Seq<u8>,
    Seq<char>,
> {
    match framed(token) {
        Err(e) => Err(e),
        Ok((payload, signature)) => opened(payload, signature, mac),
    }
}

/// `mac` can be what computing the HMAC that a token is held against comes to.
/// A token without the frame needs none.
pub open spec fn token_mac(token: Seq<char>, key: Seq<u8>, mac: Result<Seq<u8>, Seq<char>>) -> bool {
    match framed(token) {
        Err(_) => mac is Ok,
        Ok((payload, _)) => mac_outcome(key, signing_input(payload), mac),
    }
}

/// A token whose signature has the length of an HMAC.
pub open spec fn is_fully_signed(token: Seq<char>) -> bool {
    match framed(token) {
        Ok((_, signature)) => match b64u::decoded(signature) {
            Some(m) => m.len() == MAC_LEN,
            None => false,
        },
        Err(_) => false,
    }
}

/// `d` can be the claims that are read out of a payload.
pub open spec fn read_payload<F: Fn(&[u8]) -> Result<Claims, String>>(
    payload: Result<Seq<u8>, Seq<char>>,
    decode: F,
    d: Result<ClaimsView, Seq<char>>,
) -> bool {
    match payload {
        Err(e) => d == Err::<ClaimsView, Seq<char>>(e),
        Ok(b) => decodes(decode, b, d),
    }
}

/// `d` can be the claims that are read out of a token, once the HMAC has come
/// to `mac`.
pub open spec fn reads<F: Fn(&[u8]) -> Result<Claims, String>>(
    token: Seq<char>,
    key: Seq<u8>,
    decode: F,
    mac: Result<Seq<u8>, Seq<char>>,
    d: Result<ClaimsView, Seq<char>>,
) -> bool {
    token_mac(token, key, mac) && read_payload(payload_with(token, mac), decode, d)
}

/// What claims come to by a clock, which is `None` where it stands before the
/// Unix epoch.
pub open spec fn judged_by(
    claims: Result<ClaimsView, Seq<char>>,
    clock: Option<u64>,
) -> Result<ClaimsView, Seq<char>> {
    match clock {
        Some(now) => judged(claims, now),
        None => match claims {
            Err(e) => Err(e),
            Ok(_) => Err("system time before unix epoch"@),
        },
    }
}

/// `r` can be what verifying a token by a clock comes to, once the HMAC has
/// come to `mac`.
pub open spec fn verified_with<F: Fn(&[u8]) -> Result<Claims, String>>(
    token: Seq<char>,
    key: Seq<u8>,
    clock: Option<u64>,
    decode: F,
    mac: Result<Seq<u8>, Seq<char>>,
    r: Result<ClaimsView, Seq<char>>,
) -> bool {
    exists|d: Result<ClaimsView, Seq<char>>| #[trigger]
        reads(token, key, decode, mac, d) && r == judged_by(d, clock)
}

/// `r` can be what verifying a token at `now` comes to, wherever the HMAC can
/// be computed.
pub open spec fn verified<F: Fn(&[u8]) -> Result<Claims, String>>(
    token: Seq<char>,
    key: Seq<u8>,
    now: u64,
    decode: F,
    r: Result<ClaimsView, Seq<char>>,
) -> bool {
    exists|mac: Result<Seq<u8>, Seq<char>>|
        mac is Ok && #[trigger] verified_with(token, key, Some(now), decode, mac, r)
}

/// `r` can be what verifying a token by a clock comes to. A token with the
/// frame is refused also where the HMAC cannot be computed, in the words of
/// that failure.
pub open spec fn verify_outcome<F: Fn(&[u8]) -> Result<Claims, String>>(
    token: Seq<char>,
    key: Seq<u8>,
    clock: Option<u64>,
    decode: F,
    r: Result<ClaimsView, Seq<char>>,
) -> bool {
    exists|mac: Result<Seq<u8>, Seq<char>>| #[trigger]
        verified_with(token, key, clock, decode, mac, r)
}

/// The token that `issue` makes of claims.
pub open spec fn issued(c: ClaimsView, key: Seq<u8>) -> Seq<char> {
    let payload = b64u::encoded(encode_utf8(claims_json(c)));
    token_text(payload, outside::hmac_sha256_of(key, encode_utf8(signing_input(payload))))
}

// --- issuing ----------------------------------------------------------------

/// The JSON of claims.
pub fn claims_to_json(c: &Claims) -> (res: String)
    ensures
        res@ == claims_json(c@),
{
    let mut fields: Vec<(String, String)> = Vec::new();
    json::push_field(&mut fields, "sub", outside::json_string(c.sub.as_str()));
    json::push_field(&mut fields, "iat", text::decimal(c.iat));
    json::push_field(&mut fields, "exp", text::decimal(c.exp));
    json::push_field(&mut fields, "jti", outside::json_string(c.jti.as_str()));
    assert(outside::pair_texts(fields@) =~= seq![
        (json::key("sub"@), outside::json_text(c.sub@)),
        (json::key("iat"@), text::decimal_text(c.iat as nat)),
        (json::key("exp"@), text::decimal_text(c.exp as nat)),
        (json::key("jti"@), outside::json_text(c.jti@)),
    ]);
    json::to_object(&fields)
}

/// The text that a token with this payload is signed over.
pub fn input_to_sign(payload: &[u8]) -> (res: String)
    ensures
        res@ == signing_input(b64u::encoded(payload@)),
{
    let mut input = HEADER.to_owned();
    input.push('.');
    input.append(b64u_encode(payload).as_str());
    assert(input@ =~= signing_input(b64u::encoded(payload@)));
    input
}

/// The token for a signed text, once computing its HMAC has come to `mac`.
pub fn seal(input: String, mac: Result<Vec<u8>, String>) -> (res: Result<String, String>)
    ensures
        text_or_text(res) == match bytes_or_text(mac) {
            Ok(m) => Ok(input@ + seq!['.'] + b64u::encoded(m)),
            Err(e) => Err(e),
        },
{
    match mac {
        Ok(m) => {
            let mut token = input;
            let ghost before = token@;
            token.push('.');
            token.append(b64u_encode(m.as_slice()).as_str());
            assert(token@ =~= before + seq!['.'] + b64u::encoded(m@));
            Ok(token)
        },
        Err(e) => Err(e),
    }
}

/// The HMAC of a text, or the text of OpenSSL's error. Whether it can be
/// computed rests with the machine.
fn mac_of(key: &[u8], data: &str) -> (res: Result<Vec<u8>, String>)
    requires
        key@.len() <= i32::MAX,
    ensures
        mac_outcome(key@, data@, bytes_or_text(res)),
{
    match outside::hmac_sha256(key, data.as_bytes()) {
        Ok(m) => Ok(m),
        Err(e) => Err(e.to_string()),
    }
}

/// A token that carries `claims`, signed with `key`, or the text of OpenSSL's
/// error: it fails only where the HMAC cannot be computed.
pub fn issue(claims: &Claims, key: &[u8]) -> (res: Result<String, String>)
    requires
        key@.len() <= i32::MAX,
    ensures
        res matches Ok(token) ==> token@ == issued(claims@, key@),
{
    let json = claims_to_json(claims);
    let input = input_to_sign(json.as_str().as_bytes());
    let mac = mac_of(key, input.as_str());
    seal(input, mac)
}

// --- verifying --------------------------------------------------------------

/// The encoded payload and signature of a token.
pub fn frame(token: &str) -> (res: Result<(String, String), String>)
    ensures
        match res {
            Ok((payload, signature)) => framed(token@) == Ok::<(Seq<char>, Seq<char>), Seq<char>>(
                (payload@, signature@),
            ),
            Err(e) => framed(token@) == Err::<(Seq<char>, Seq<char>), Seq<char>>(e@),
        },
{
    let parts = text::split(token, '.');
    let ghost all = text::texts(parts@);
    if parts.len() < 2 {
        return Err("missing payload".to_owned());
    }
    if parts.len() < 3 {
        return Err("missing signature".to_owned());
    }
    if parts.len() > 3 {
        return Err("malformed".to_owned());
    }
    assert(all[0] == parts@[0]@ && all[1] == parts@[1]@ && all[2] == parts@[2]@);
    if !text::same(parts[0].as_str(), HEADER) {
        return Err("bad header".to_owned());
    }
    Ok((parts[1].clone(), parts[2].clone()))
}

/// The payload behind an encoded payload and signature, once computing the
/// HMAC has come to `mac`.
pub fn open_frame(payload: &str, signature: &str, mac: Result<Vec<u8>, String>) -> (res: Result<
    Vec<u8>,
    String,
>)
    ensures
        bytes_or_text(res) == opened(payload@, signature@, bytes_or_text(mac)),
{
    let expected = match mac {
        Ok(m) => m,
        Err(e) => {
            return Err(e);
        },
    };
    let actual = match b64u_decode(signature) {
        Some(b) => b,
        None => {
            return Err("bad signature encoding".to_owned());
        },
    };
    if actual.len() != expected.len() || !openssl::memcmp::eq(
        expected.as_slice(),
        actual.as_slice(),
    ) {
        return Err("invalid signature".to_owned());
    }
    match b64u_decode(payload) {
        Some(b) => Ok(b),
        None => Err("bad payload encoding".to_owned()),
    }
}

/// Why a token gave nothing.
#[derive(Debug)]
pub enum Fault {
    /// The HMAC could not be computed, for the reason given.
    Machine(String),
    /// The token is refused, for the reason given.
    Refused(String),
}

impl Fault {
    /// The reason, whatever it is.
    pub open spec fn words(&self) -> Seq<char> {
        match self {
            Fault::Machine(e) => e@,
            Fault::Refused(e) => e@,
        }
    }

    pub fn reason(self) -> (res: String)
        ensures
            res@ == self.words(),
    {
        match self {
            Fault::Machine(e) => e,
            Fault::Refused(e) => e,
        }
    }
}

/// The payload of a token that was signed with `key`. A token is refused only
/// for what it is; a machine that cannot compute the HMAC is told apart.
pub fn open(token: &str, key: &[u8]) -> (res: Result<Vec<u8>, Fault>)
    requires
        key@.len() <= i32::MAX,
    ensures
        exists|mac: Result<Seq<u8>, Seq<char>>| #[trigger]
            token_mac(token@, key@, mac) && match res {
                Ok(b) => mac is Ok && payload_with(token@, mac) == Ok::<Seq<u8>, Seq<char>>(b@),
                Err(Fault::Refused(e)) => mac is Ok && payload_with(token@, mac) == Err::<
                    Seq<u8>,
                    Seq<char>,
                >(e@),
                Err(Fault::Machine(e)) => framed(token@) is Ok && mac == Err::<
                    Seq<u8>,
                    Seq<char>,
                >(e@),
            },
{
    match frame(token) {
        Err(e) => {
            assert(token_mac(token@, key@, Ok(Seq::empty())));
            Err(Fault::Refused(e))
        },
        Ok((payload, signature)) => {
            let mut input = HEADER.to_owned();
            input.push('.');
            input.append(payload.as_str());
            assert(input@ =~= signing_input(payload@));
            let mac = mac_of(key, input.as_str());
            assert(token_mac(token@, key@, bytes_or_text(mac)));
            match mac {
                Err(e) => Err(Fault::Machine(e)),
                Ok(mac) => match open_frame(payload.as_str(), signature.as_str(), Ok(mac)) {
                    Ok(b) => Ok(b),
                    Err(e) => Err(Fault::Refused(e)),
                },
            }
        },
    }
}

/// The claims, unless they have ended.
pub fn judge(claims: Result<Claims, String>, now: u64) -> (res: Result<Claims, String>)
    ensures
        claims_or_text(res) == judged(claims_or_text(claims), now),
{
    match claims {
        Err(e) => Err(e),
        Ok(c) => if c.exp <= now {
            Err("expired".to_owned())
        } else {
            Ok(c)
        },
    }
}

/// The claims in a token that was signed with `key`, whether or not they have
/// ended. `decode` reads claims out of the payload's JSON.
pub fn read<F: Fn(&[u8]) -> Result<Claims, String>>(token: &str, key: &[u8], decode: F) -> (res:
    Result<Claims, Fault>)
    requires
        key@.len() <= i32::MAX,
        forall|s: &[u8]| call_requires(decode, (s,)),
    ensures
        exists|mac: Result<Seq<u8>, Seq<char>>| #[trigger]
            token_mac(token@, key@, mac) && match res {
                Ok(c) => mac is Ok && reads(token@, key@, decode, mac, Ok(c@)),
                Err(Fault::Refused(e)) => mac is Ok && reads(token@, key@, decode, mac, Err(e@)),
                Err(Fault::Machine(e)) => framed(token@) is Ok && mac == Err::<
                    Seq<u8>,
                    Seq<char>,
                >(e@),
            },
{
    match open(token, key) {
        Err(f) => Err(f),
        Ok(b) => {
            let bytes = b.as_slice();
            let claims = decode(bytes);
            assert(call_ensures(decode, (bytes,), claims));
            proof {
                let mac = choose|mac: Result<Seq<u8>, Seq<char>>| #[trigger]
                    token_mac(token@, key@, mac) && mac is Ok && payload_with(token@, mac) == Ok::<
                        Seq<u8>,
                        Seq<char>,
                    >(b@);
                assert(reads(token@, key@, decode, mac, claims_or_text(claims)));
            }
            match claims {
                Ok(c) => Ok(c),
                Err(e) => Err(Fault::Refused(e)),
            }
        },
    }
}

/// What the HMAC came to where reading a token came to `res`.
spec fn mac_behind<F: Fn(&[u8]) -> Result<Claims, String>>(
    token: Seq<char>,
    key: Seq<u8>,
    decode: F,
    res: Result<Claims, Fault>,
) -> Result<Seq<u8>, Seq<char>> {
    choose|mac: Result<Seq<u8>, Seq<char>>| #[trigger]
        token_mac(token, key, mac) && match res {
            Ok(c) => mac is Ok && reads(token, key, decode, mac, Ok(c@)),
            Err(Fault::Refused(e)) => mac is Ok && reads(token, key, decode, mac, Err(e@)),
            Err(Fault::Machine(e)) => framed(token) is Ok && mac == Err::<Seq<u8>, Seq<char>>(e@),
        }
}

/// The claims of a token that was signed with `key` and has not ended at
/// `now`. A token is refused only for what it is; a machine that cannot
/// compute the HMAC is told apart.
pub fn check_at<F: Fn(&[u8]) -> Result<Claims, String>>(
    token: &str,
    key: &[u8],
    now: u64,
    decode: F,
) -> (res: Result<Claims, Fault>)
    requires
        key@.len() <= i32::MAX,
        forall|s: &[u8]| call_requires(decode, (s,)),
    ensures
        match res {
            Ok(c) => verified(token@, key@, now, decode, Ok(c@)),
            Err(Fault::Refused(e)) => verified(token@, key@, now, decode, Err(e@)),
            Err(Fault::Machine(e)) => framed(token@) is Ok && verified_with(
                token@,
                key@,
                Some(now),
                decode,
                Err(e@),
                Err(e@),
            ),
        },
{
    let claims = read(token, key, decode);
    let ghost mac = mac_behind(token@, key@, decode, claims);
    match claims {
        Err(Fault::Machine(e)) => {
            let ghost d = Err::<ClaimsView, Seq<char>>(e@);
            assert(reads(token@, key@, decode, Err(e@), d));
            Err(Fault::Machine(e))
        },
        Err(Fault::Refused(e)) => {
            let ghost d = Err::<ClaimsView, Seq<char>>(e@);
            assert(reads(token@, key@, decode, mac, d));
            assert(verified_with(token@, key@, Some(now), decode, mac, d));
            Err(Fault::Refused(e))
        },
        Ok(c) => {
            let ghost d = Ok::<ClaimsView, Seq<char>>(c@);
            assert(reads(token@, key@, decode, mac, d));
            assert(verified_with(token@, key@, Some(now), decode, mac, judged(d, now)));
            match judge(Ok(c), now) {
                Ok(c) => Ok(c),
                Err(e) => Err(Fault::Refused(e)),
            }
        },
    }
}

/// The claims of a token that was signed with `key` and has not ended at
/// `now`.
pub fn verify_at<F: Fn(&[u8]) -> Result<Claims, String>>(
    token: &str,
    key: &[u8],
    now: u64,
    decode: F,
) -> (res: Result<Claims, String>)
    requires
        key@.len() <= i32::MAX,
        forall|s: &[u8]| call_requires(decode, (s,)),
    ensures
        verify_outcome(token@, key@, Some(now), decode, claims_or_text(res)),
{
    match check_at(token, key, now, decode) {
        Ok(c) => Ok(c),
        Err(f) => Err(f.reason()),
    }
}

/// The seconds that a clock shows, unless it stands before the Unix epoch.
pub fn epoch_seconds(clock: Option<u64>) -> (res: Result<u64, String>)
    ensures
        match clock {
            Some(s) => res == Ok::<u64, String>(s),
            None => res matches Err(e) && e@ == "system time before unix epoch"@,
        },
{
    match clock {
        Some(s) => Ok(s),
        None => Err("system time before unix epoch".to_owned()),
    }
}

/// Seconds since the Unix epoch, on a clock that does not stand before it.
/// Which second that is rests with the clock.
pub fn unix_now() -> (res: Result<u64, String>)
    ensures
        res matches Err(e) ==> e@ == "system time before unix epoch"@,
{
    epoch_seconds(outside::clock_seconds())
}

/// The claims of a token that was signed with `key` and has not ended at the
/// present second, whatever second the clock says that is.
pub fn verify<F: Fn(&[u8]) -> Result<Claims, String>>(token: &str, key: &[u8], decode: F) -> (res:
    Result<Claims, String>)
    requires
        key@.len() <= i32::MAX,
        forall|s: &[u8]| call_requires(decode, (s,)),
    ensures
        exists|clock: Option<u64>| #[trigger]
            verify_outcome(token@, key@, clock, decode, claims_or_text(res)),
{
    let claims = read(token, key, decode);
    let ghost mac = mac_behind(token@, key@, decode, claims);
    match claims {
        Err(f) => {
            proof {
                let d = Err::<ClaimsView, Seq<char>>(f.words());
                assert(reads(token@, key@, decode, mac, d) && d == judged_by(d, None));
                assert(verified_with(token@, key@, None, decode, mac, d));
                assert(verify_outcome(token@, key@, None, decode, d));
            }
            Err(f.reason())
        },
        Ok(c) => {
            let ghost d = Ok::<ClaimsView, Seq<char>>(c@);
            assert(reads(token@, key@, decode, mac, d));
            match unix_now() {
                Ok(now) => {
                    assert(verified_with(
                        token@,
                        key@,
                        Some(now),
                        decode,
                        mac,
                        judged(d, now),
                    ));
                    assert(verify_outcome(token@, key@, Some(now), decode, judged(d, now)));
                    judge(Ok(c), now)
                },
                Err(e) => {
                    assert(verified_with(token@, key@, None, decode, mac, Err(e@)));
                    assert(verify_outcome(token@, key@, None, decode, Err(e@)));
                    Err(e)
                },
            }
        },
    }
}

// --- laws -------------------------------------------------------------------

proof fn lemma_header_has_no_dot()
    ensures
        !HEADER@.contains('.'),
{
    reveal_strlit("eyJhbGciOiJIUzI1NiIsInR5cCI6IkpXVCJ9");
}

proof fn lemma_encoded_has_no_dot(b: Seq<u8>)
    ensures
        !b64u::encoded(b).contains('.'),
{
    b64u::encoded_stays_in_the_alphabet(b);
    if b64u::encoded(b).contains('.') {
        let i = b64u::encoded(b).index_of('.');
        assert(b64u::symbol_value(b64u::encoded(b)[i]) is Some);
    }
}

/// A token comes apart into the payload and the signature it was made of.
pub proof fn framing_is_undone(payload: Seq<u8>, mac: Seq<u8>)
    ensures
        framed(token_text(b64u::encoded(payload), mac)) == Ok::<
            (Seq<char>, Seq<char>),
            Seq<char>,
        >((b64u::encoded(payload), b64u::encoded(mac))),
{
    let p = b64u::encoded(payload);
    lemma_header_has_no_dot();
    lemma_encoded_has_no_dot(payload);
    lemma_encoded_has_no_dot(mac);
    text::lemma_pieces_single(HEADER@, '.');
    text::lemma_pieces_append(HEADER@, '.', p);
    text::lemma_pieces_append(signing_input(p), '.', b64u::encoded(mac));
}

/// The fixed header is the base64url text of `{"alg":"HS256","typ":"JWT"}`.
pub proof fn header_names_the_algorithm()
    ensures
        HEADER@ == b64u::encoded(encode_utf8("{\"alg\":\"HS256\",\"typ\":\"JWT\"}"@)),
{
    reveal_strlit("eyJhbGciOiJIUzI1NiIsInR5cCI6IkpXVCJ9");
    reveal_strlit("{\"alg\":\"HS256\",\"typ\":\"JWT\"}");
    let json = "{\"alg\":\"HS256\",\"typ\":\"JWT\"}"@;
    is_ascii_chars_encode_utf8(json);
    let b = encode_utf8(json);
    reveal_with_fuel(b64u::encoded, 10);
    assert(HEADER@ =~= b64u::encoded(b));
}

/// What a session was issued with is what verifying its token gives, until
/// it ends, and from that second on the token is refused as expired: wherever
/// the HMAC can be computed, and `decode` reads the claims back out of their
/// JSON, nothing else can come of the token.
pub proof fn verify_gives_back_what_was_issued<F: Fn(&[u8]) -> Result<Claims, String>>(
    c: ClaimsView,
    key: Seq<u8>,
    now: u64,
    decode: F,
    mac: Result<Seq<u8>, Seq<char>>,
    r: Result<ClaimsView, Seq<char>>,
)
    requires
        forall|d: Result<ClaimsView, Seq<char>>| #[trigger]
            decodes(decode, encode_utf8(claims_json(c)), d) ==> d == Ok::<ClaimsView, Seq<char>>(c),
        mac is Ok,
        verified_with(issued(c, key), key, Some(now), decode, mac, r),
    ensures
        r == if now < c.exp {
            Ok(c)
        } else {
            Err("expired"@)
        },
        r == Err::<ClaimsView, Seq<char>>("expired"@) <==> c.exp <= now,
{
    let json = encode_utf8(claims_json(c));
    let payload = b64u::encoded(json);
    let m = outside::hmac_sha256_of(key, encode_utf8(signing_input(payload)));
    framing_is_undone(json, m);
    b64u::decode_inverts_encode(json);
    b64u::decode_inverts_encode(m);
}

/// A token that was issued is refused before it ends only where the HMAC
/// cannot be computed, and then in the words of that failure.
pub proof fn issued_tokens_fail_with_the_machine<F: Fn(&[u8]) -> Result<Claims, String>>(
    c: ClaimsView,
    key: Seq<u8>,
    now: u64,
    decode: F,
    mac: Result<Seq<u8>, Seq<char>>,
    e: Seq<char>,
)
    requires
        forall|d: Result<ClaimsView, Seq<char>>| #[trigger]
            decodes(decode, encode_utf8(claims_json(c)), d) ==> d == Ok::<ClaimsView, Seq<char>>(c),
        now < c.exp,
        verified_with(issued(c, key), key, Some(now), decode, mac, Err(e)),
    ensures
        mac == Err::<Seq<u8>, Seq<char>>(e),
{
    let json = encode_utf8(claims_json(c));
    let payload = b64u::encoded(json);
    let m = outside::hmac_sha256_of(key, encode_utf8(signing_input(payload)));
    framing_is_undone(json, m);
    if mac is Ok {
        verify_gives_back_what_was_issued(c, key, now, decode, mac, Err(e));
    }
}

/// A signature of another length than an HMAC is invalid, wherever the HMAC
/// can be computed.
pub proof fn cut_signatures_are_invalid<F: Fn(&[u8]) -> Result<Claims, String>>(
    token: Seq<char>,
    key: Seq<u8>,
    clock: Option<u64>,
    decode: F,
    mac: Result<Seq<u8>, Seq<char>>,
    r: Result<ClaimsView, Seq<char>>,
)
    requires
        framed(token) matches Ok((_, signature)) && (b64u::decoded(signature) matches Some(m)
            && m.len() != MAC_LEN),
        mac is Ok,
        verified_with(token, key, clock, decode, mac, r),
    ensures
        r == Err::<ClaimsView, Seq<char>>("invalid signature"@),
{
}

/// Only a token whose signature is the HMAC of its header and payload under
/// the key is accepted, with the claims its payload reads as, and not once
/// they have ended.
pub proof fn accepted_tokens_are_signed<F: Fn(&[u8]) -> Result<Claims, String>>(
    token: Seq<char>,
    key: Seq<u8>,
    clock: Option<u64>,
    decode: F,
    c: ClaimsView,
)
    requires
        verify_outcome(token, key, clock, decode, Ok(c)),
    ensures
        framed(token) matches Ok((payload, signature)) && {
            &&& b64u::decoded(signature) == Some(
                outside::hmac_sha256_of(key, encode_utf8(signing_input(payload))),
            )
            &&& b64u::decoded(payload) matches Some(b) && decodes(decode, b, Ok(c))
        },
        is_fully_signed(token),
        clock matches Some(now) && c.exp > now,
{
}

/// A token whose payload was exchanged, or that was signed with another key,
/// is refused, unless the HMACs happen to agree.
pub proof fn tampered_tokens_are_refused<F: Fn(&[u8]) -> Result<Claims, String>>(
    payload: Seq<u8>,
    signed: Seq<char>,
    other_key: Seq<u8>,
    key: Seq<u8>,
    clock: Option<u64>,
    decode: F,
    res: Result<ClaimsView, Seq<char>>,
)
    requires
        outside::hmac_sha256_of(other_key, encode_utf8(signed)) != outside::hmac_sha256_of(
            key,
            encode_utf8(signing_input(b64u::encoded(payload))),
        ),
        verify_outcome(
            token_text(
                b64u::encoded(payload),
                outside::hmac_sha256_of(other_key, encode_utf8(signed)),
            ),
            key,
            clock,
            decode,
            res,
        ),
    ensures
        res is Err,
{
    let m = outside::hmac_sha256_of(other_key, encode_utf8(signed));
    framing_is_undone(payload, m);
    b64u::decode_inverts_encode(m);
}

} // verus!
