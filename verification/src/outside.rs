//! The calls into other crates, and into parts of std, that the library
//! makes. Nothing here is proved: each item states what the rest of the
//! library takes for granted about the function it names.
use vstd::prelude::*;
use vstd::utf8::*;

use openssl::error::ErrorStack;
use openssl::hash::{Hasher, MessageDigest};
use openssl::pkey::PKey;
use openssl::sign::Signer;
use serde_json::Value;
use std::collections::HashMap;
use std::time::{SystemTime, UNIX_EPOCH};
use webauthn_rs::prelude::{
    AuthenticationResult, Passkey, PasskeyAuthentication, PasskeyRegistration, PublicKeyCredential,
    RegisterPublicKeyCredential, Url, Uuid, Webauthn, WebauthnBuilder, WebauthnError,
};

verus! {

/// `String::push` puts one character behind the text.
pub assume_specification[ String::push ](s: &mut String, c: char)
    ensures
        final(s)@ == old(s)@.push(c),
;

/// The error that OpenSSL calls report.
#[verifier::external_type_specification]
#[verifier::external_body]
pub struct ExErrorStack(openssl::error::ErrorStack);

/// The HMAC-SHA-256 of `data` under `key`.
pub uninterp spec fn hmac_sha256_of(key: Seq<u8>, data: Seq<u8>) -> Seq<u8>;

/// `openssl::sign::Signer` over a key made by `PKey::hmac`, with SHA-256.
/// When it succeeds it gives the HMAC-SHA-256 of `data` under `key`, which
/// depends on these two alone; whether it succeeds rests with the machine.
/// An HMAC is as long as the digest it is made with, and `openssl::sha::sha256`
/// gives 32 bytes. `PKey::hmac` panics on a key longer than an `i32` can
/// count.
#[verifier::external_body]
pub(crate) fn hmac_sha256(key: &[u8], data: &[u8]) -> (res: Result<Vec<u8>, ErrorStack>)
    requires
        key@.len() <= i32::MAX,
    ensures
        res matches Ok(mac) ==> mac@ == hmac_sha256_of(key@, data@) && mac@.len() == 32,
{
    let pkey = PKey::hmac(key)?;
    let mut signer = Signer::new(MessageDigest::sha256(), &pkey)?;
    signer.update(data)?;
    signer.sign_to_vec()
}

/// The SHA-256 of `data`.
pub uninterp spec fn sha256_of(data: Seq<u8>) -> Seq<u8>;

/// `openssl::hash::Hasher` with SHA-256. When it succeeds it gives the
/// SHA-256 of `data`; whether it succeeds rests with the machine.
#[verifier::external_body]
pub(crate) fn sha256(data: &[u8]) -> (res: Result<Vec<u8>, ErrorStack>)
    ensures
        res matches Ok(digest) ==> digest@ == sha256_of(data@),
{
    let mut h = Hasher::new(MessageDigest::sha256())?;
    h.update(data)?;
    let digest = h.finish()?;
    Ok(digest.to_vec())
}

/// `openssl::memcmp::eq` compares two byte strings of the same length in a
/// time that does not depend on what they hold. It panics when the lengths
/// differ.
pub assume_specification[ openssl::memcmp::eq ](a: &[u8], b: &[u8]) -> (res: bool)
    requires
        a@.len() == b@.len(),
    ensures
        res == (a@ == b@),
;

/// One character in a JSON string: quotes, backslashes and control characters
/// are escaped, all others stand as they are.
pub open spec fn json_char(c: char) -> Seq<char> {
    match c {
        '"' => seq!['\\', '"'],
        '\\' => seq!['\\', '\\'],
        '\u{8}' => seq!['\\', 'b'],
        '\t' => seq!['\\', 't'],
        '\n' => seq!['\\', 'n'],
        '\u{c}' => seq!['\\', 'f'],
        '\r' => seq!['\\', 'r'],
        _ => if c as u32 <= 31 {
            seq!['\\', 'u', '0', '0'] + crate::text::hex_pair(c as u8, false)
        } else {
            seq![c]
        },
    }
}

/// The characters of a JSON string, one after the other.
pub open spec fn json_chars(s: Seq<char>) -> Seq<char>
    decreases s.len(),
{
    if s.len() == 0 {
        Seq::empty()
    } else {
        json_chars(s.drop_last()) + json_char(s.last())
    }
}

/// A text as a JSON string, with its quotes.
pub open spec fn json_text(s: Seq<char>) -> Seq<char> {
    seq!['"'] + json_chars(s) + seq!['"']
}

/// `serde_json::to_string` of a string slice: the text as a JSON string, with
/// the short escapes where JSON has one and four hexadecimal digits for other
/// control characters. It fails only for a type whose `Serialize` fails or a
/// map whose keys are no strings, and a string slice is neither.
#[verifier::external_body]
pub(crate) fn json_string(s: &str) -> (res: String)
    ensures
        res@ == json_text(s@),
{
    serde_json::to_string(s).unwrap()
}

/// A text in quotes, as it is shown to a developer: what cannot be seen
/// stands escaped.
pub uninterp spec fn debug_text(s: Seq<char>) -> Seq<char>;

/// `format!` with `{:?}` of a string slice: the text in quotes, which depends
/// on the text alone.
#[verifier::external_body]
pub(crate) fn debug_string(s: &str) -> (res: String)
    ensures
        res@ == debug_text(s@),
{
    format!("{s:?}")
}

/// A text in lower case.
pub uninterp spec fn lowercase_text(s: Seq<char>) -> Seq<char>;

/// `str::to_lowercase`: the text in lower case, by Unicode's rules, which
/// depends on the text alone.
#[verifier::external_body]
pub(crate) fn lowercase(s: &str) -> (res: String)
    ensures
        res@ == lowercase_text(s@),
{
    s.to_lowercase()
}

/// What is wrong with bytes that are no UTF-8, in words.
pub uninterp spec fn utf8_complaint(bytes: Seq<u8>) -> Seq<char>;

/// `String::from_utf8`: the text that the bytes are the UTF-8 of, or, for
/// bytes that are not valid UTF-8, the words of its error, which depend on
/// the bytes alone.
#[verifier::external_body]
pub(crate) fn string_from_utf8(bytes: Vec<u8>) -> (res: Result<String, String>)
    ensures
        match res {
            Ok(s) => valid_utf8(bytes@) && s@ == decode_utf8(bytes@),
            Err(e) => !valid_utf8(bytes@) && e@ == utf8_complaint(bytes@),
        },
{
    String::from_utf8(bytes).map_err(|e| e.to_string())
}

/// The scheme of a URL and its host, where it has one; `None` where the text
/// is no absolute URL.
pub uninterp spec fn url_scheme_and_host(s: Seq<char>) -> Option<(Seq<char>, Option<Seq<char>>)>;

/// The texts of what a URL was parsed into.
pub open spec fn parts_text(p: Option<(String, Option<String>)>) -> Option<
    (Seq<char>, Option<Seq<char>>),
> {
    match p {
        Some((scheme, host)) => Some((scheme@, crate::text::text_of(host))),
        None => None,
    }
}

/// `Url::parse`, then `Url::scheme` and `Url::host_str` of the URL: what they
/// give depends on the text alone.
#[verifier::external_body]
pub(crate) fn parse_url(s: &str) -> (res: Option<(String, Option<String>)>)
    ensures
        parts_text(res) == url_scheme_and_host(s@),
{
    let u = Url::parse(s).ok()?;
    Some((u.scheme().to_string(), u.host_str().map(String::from)))
}

/// The names and values in the query of a URL, in order and decoded; `None`
/// where the text is no absolute URL.
pub uninterp spec fn url_query(s: Seq<char>) -> Option<Seq<(Seq<char>, Seq<char>)>>;

/// The texts of a list of names and values.
pub open spec fn pair_texts(v: Seq<(String, String)>) -> Seq<(Seq<char>, Seq<char>)> {
    v.map_values(|p: (String, String)| (p.0@, p.1@))
}

/// The texts of an optional list of names and values.
pub open spec fn query_text(q: Option<Vec<(String, String)>>) -> Option<
    Seq<(Seq<char>, Seq<char>)>,
> {
    match q {
        Some(v) => Some(pair_texts(v@)),
        None => None,
    }
}

/// `Url::parse`, then `Url::query_pairs` of the URL: the pairs depend on the
/// text alone.
#[verifier::external_body]
pub(crate) fn parse_query(s: &str) -> (res: Option<Vec<(String, String)>>)
    ensures
        query_text(res) == url_query(s@),
{
    let u = Url::parse(s).ok()?;
    Some(u.query_pairs().map(|(k, v)| (k.into_owned(), v.into_owned())).collect())
}

/// The denylist that bytes are the JSON of: an object with a number under each
/// name. `None` where they are something else.
pub uninterp spec fn revoked_in(bytes: Seq<u8>) -> Option<Map<Seq<char>, u64>>;

/// `serde_json::from_slice` into a map of numbers under strings: what it holds
/// depends on the bytes alone. The pairs stand in no particular order.
#[verifier::external_body]
pub(crate) fn parse_revoked(bytes: &[u8]) -> (res: Option<Vec<(String, u64)>>)
    ensures
        match res {
            Some(v) => revoked_in(bytes@) == Some(crate::state::inserted(v@)),
            None => revoked_in(bytes@) is None,
        },
{
    let map: HashMap<String, u64> = serde_json::from_slice(bytes).ok()?;
    Some(map.into_iter().collect())
}

/// `serde_json::to_vec` of a map of numbers under strings: JSON that is read
/// back as the map. Of pairs with the same name the last counts. It cannot
/// fail, as every key is a string.
#[verifier::external_body]
pub(crate) fn revoked_to_json(entries: &Vec<(String, u64)>) -> (res: Vec<u8>)
    ensures
        revoked_in(res@) == Some(crate::state::inserted(entries@)),
{
    let map: HashMap<&str, u64> = entries.iter().map(|e| (e.0.as_str(), e.1)).collect();
    serde_json::to_vec(&map).unwrap()
}

// --- passkeys ---------------------------------------------------------------

/// A site that passkeys are registered with.
#[verifier::external_type_specification]
#[verifier::external_body]
pub struct ExWebauthn(webauthn_rs::prelude::Webauthn);

/// A registered passkey.
#[verifier::external_type_specification]
#[verifier::external_body]
pub struct ExPasskey(webauthn_rs::prelude::Passkey);

/// What a registration must remember until it is completed.
#[verifier::external_type_specification]
#[verifier::external_body]
pub struct ExPasskeyRegistration(webauthn_rs::prelude::PasskeyRegistration);

/// What signing in must remember until it is completed.
#[verifier::external_type_specification]
#[verifier::external_body]
pub struct ExPasskeyAuthentication(webauthn_rs::prelude::PasskeyAuthentication);

/// What a browser sends to register a passkey.
#[verifier::external_type_specification]
#[verifier::external_body]
pub struct ExRegisterPublicKeyCredential(webauthn_rs::prelude::RegisterPublicKeyCredential);

/// What a browser sends to sign in.
#[verifier::external_type_specification]
#[verifier::external_body]
pub struct ExPublicKeyCredential(webauthn_rs::prelude::PublicKeyCredential);

/// What signing in came to.
#[verifier::external_type_specification]
#[verifier::external_body]
pub struct ExAuthenticationResult(webauthn_rs::prelude::AuthenticationResult);

/// The error that the ceremonies report.
#[verifier::external_type_specification]
#[verifier::external_body]
pub struct ExWebauthnError(webauthn_rs::prelude::WebauthnError);

/// The identifier of a user.
#[verifier::external_type_specification]
#[verifier::external_body]
pub struct ExUuid(webauthn_rs::prelude::Uuid);

/// The domain of a URL, where its host is one, or the words of the error where
/// the text is no absolute URL.
pub uninterp spec fn url_domain(s: Seq<char>) -> Result<Option<Seq<char>>, Seq<char>>;

/// Why a site could not be set up.
#[derive(Debug)]
pub enum Setup {
    /// Its origin is no URL, for the reason given.
    Origin(String),
    /// The hostname does not fit the origin.
    Party(String),
    /// It could not be built.
    Build(String),
}

/// A hostname fits an origin whose domain it is, or lies above.
pub open spec fn fits(domain: Option<Seq<char>>, hostname: Seq<char>) -> bool {
    domain matches Some(d) && crate::config::in_domain(d, hostname)
}

/// The site of a hostname, an origin and a name, where the first two fit.
pub uninterp spec fn site_of(hostname: Seq<char>, origin: Seq<char>, name: Seq<char>) -> Webauthn;

/// `Url::parse`, `WebauthnBuilder::new` and `WebauthnBuilder::build`. The
/// first depends on the text alone. The second refuses an origin whose domain
/// is neither the hostname nor below it, always with the same words. The third
/// never fails. The site depends on the three texts alone.
#[verifier::external_body]
pub(crate) fn new_site(hostname: &str, origin: &str, name: &str) -> (res: Result<Webauthn, Setup>)
    ensures
        match res {
            Ok(site) => (url_domain(origin@) matches Ok(d) && fits(d, hostname@)) && site == site_of(
                hostname@,
                origin@,
                name@,
            ),
            Err(Setup::Build(_)) => url_domain(origin@) matches Ok(d) && fits(d, hostname@),
            Err(Setup::Origin(e)) => url_domain(origin@) == Err::<Option<Seq<char>>, Seq<char>>(e@),
            Err(Setup::Party(e)) => (url_domain(origin@) matches Ok(d) && !fits(d, hostname@)) && e@
                == "The configuration was invalid"@,
        },
        res matches Err(e) ==> !(e is Build),
{
    let url = Url::parse(origin).map_err(|e| Setup::Origin(e.to_string()))?;
    let site = WebauthnBuilder::new(hostname, &url).map_err(|e| Setup::Party(e.to_string()))?;
    site.rp_name(name).build().map_err(|e| Setup::Build(e.to_string()))
}

/// The identifier that a text is read as; `None` where it is none.
pub uninterp spec fn uuid_in(s: Seq<char>) -> Option<Uuid>;

/// A hexadecimal digit.
pub open spec fn is_hex_digit(c: char) -> bool {
    ('0' <= c && c <= '9') || ('a' <= c && c <= 'f') || ('A' <= c && c <= 'F')
}

/// Thirty-two hexadecimal digits in five groups, with hyphens between them.
pub open spec fn is_hyphenated(s: Seq<char>) -> bool {
    s.len() == 36 && forall|i: int|
        #![trigger s[i]]
        0 <= i < 36 ==> if i == 8 || i == 13 || i == 18 || i == 23 {
            s[i] == '-'
        } else {
            is_hex_digit(s[i])
        }
}

/// `Uuid::parse_str`: what it gives depends on the text alone, and a
/// hyphenated text is an identifier.
#[verifier::external_body]
pub(crate) fn parse_uuid(s: &str) -> (res: Option<Uuid>)
    ensures
        res == uuid_in(s@),
        is_hyphenated(s@) ==> res is Some,
{
    Uuid::parse_str(s).ok()
}

/// The JSON of what a browser needs to register a passkey, given the site, the
/// user with a name and a name to show, and what the registration remembers,
/// its challenge among it.
pub uninterp spec fn registration_options(
    site: Webauthn,
    user: Uuid,
    name: Seq<char>,
    display: Seq<char>,
    state: PasskeyRegistration,
) -> Seq<char>;

/// `Webauthn::start_passkey_registration`, and `serde_json::to_value` of the
/// options it gives, as a text. It refuses nothing but an empty name. The
/// challenge is random; it stands in what is remembered, and the options
/// depend on that and on the arguments alone. They hold no map whose keys are
/// no strings, so that turning them into JSON cannot fail.
#[verifier::external_body]
pub(crate) fn start_registration(site: &Webauthn, user: Uuid, name: &str, display: &str) -> (res:
    Result<(String, PasskeyRegistration), WebauthnError>)
    ensures
        name@.len() > 0 && display@.len() > 0 ==> res is Ok,
        res matches Ok((options, state)) ==> options@ == registration_options(
            *site,
            user,
            name@,
            display@,
            state,
        ),
{
    let (options, state) = site.start_passkey_registration(user, name, display, None)?;
    Ok((serde_json::to_value(&options).unwrap().to_string(), state))
}

/// The JSON of what a browser needs to sign in, given the site and what
/// signing in remembers, its challenge among it.
pub uninterp spec fn login_options(site: Webauthn, state: PasskeyAuthentication) -> Seq<char>;

/// The passkeys that can be signed in with, as signing in remembers them.
pub uninterp spec fn allowed_passkeys(state: PasskeyAuthentication) -> Seq<Passkey>;

/// `Webauthn::start_passkey_authentication`, and `serde_json::to_value` of the
/// options it gives, as a text. It never fails. The challenge is random; it
/// stands in what is remembered, beside the passkeys, and the options depend
/// on that and on the site alone. They hold no map whose keys are no strings,
/// so that turning them into JSON cannot fail.
#[verifier::external_body]
pub(crate) fn start_authentication(site: &Webauthn, passkeys: &Vec<Passkey>) -> (res: Result<
    (String, PasskeyAuthentication),
    WebauthnError,
>)
    ensures
        res is Ok,
        res matches Ok((options, state)) ==> options@ == login_options(*site, state)
            && allowed_passkeys(state) == passkeys@,
{
    let (options, state) = site.start_passkey_authentication(passkeys)?;
    Ok((serde_json::to_value(&options).unwrap().to_string(), state))
}

/// What registers a passkey, as a body is the JSON of it, or the words of the
/// error where it is something else.
pub uninterp spec fn registration_in(body: Seq<char>) -> Result<
    RegisterPublicKeyCredential,
    Seq<char>,
>;

/// `serde_json::from_str` into what registers a passkey: what it gives, and
/// the words of its error, depend on the body alone.
#[verifier::external_body]
pub(crate) fn parse_registration(body: &str) -> (res: Result<RegisterPublicKeyCredential, String>)
    ensures
        match res {
            Ok(sent) => registration_in(body@) == Ok::<RegisterPublicKeyCredential, Seq<char>>(sent),
            Err(e) => registration_in(body@) == Err::<RegisterPublicKeyCredential, Seq<char>>(e@),
        },
{
    serde_json::from_str(body).map_err(|e| e.to_string())
}

/// What signs in, as a body is the JSON of it, or the words of the error where
/// it is something else.
pub uninterp spec fn login_in(body: Seq<char>) -> Result<PublicKeyCredential, Seq<char>>;

/// `serde_json::from_str` into what signs in: what it gives, and the words of
/// its error, depend on the body alone.
#[verifier::external_body]
pub(crate) fn parse_login(body: &str) -> (res: Result<PublicKeyCredential, String>)
    ensures
        match res {
            Ok(sent) => login_in(body@) == Ok::<PublicKeyCredential, Seq<char>>(sent),
            Err(e) => login_in(body@) == Err::<PublicKeyCredential, Seq<char>>(e@),
        },
{
    serde_json::from_str(body).map_err(|e| e.to_string())
}

/// The passkey that a registration comes to, or the words of the error where
/// it is refused.
pub uninterp spec fn registration_result(
    site: Webauthn,
    sent: RegisterPublicKeyCredential,
    state: PasskeyRegistration,
) -> Result<Passkey, Seq<char>>;

/// `Webauthn::finish_passkey_registration`: the passkey, or that what was sent
/// is refused and the words why, depend on the three arguments alone. It reads
/// no clock and draws nothing at random, and its errors have fixed words.
#[verifier::external_body]
pub(crate) fn finish_registration(
    site: &Webauthn,
    sent: &RegisterPublicKeyCredential,
    state: &PasskeyRegistration,
) -> (res: Result<Passkey, String>)
    ensures
        match res {
            Ok(p) => registration_result(*site, *sent, *state) == Ok::<Passkey, Seq<char>>(p),
            Err(e) => registration_result(*site, *sent, *state) == Err::<Passkey, Seq<char>>(e@),
        },
{
    site.finish_passkey_registration(sent, state).map_err(|e| e.to_string())
}

/// What signing in comes to, or the words of the error where it is refused.
pub uninterp spec fn login_result(
    site: Webauthn,
    sent: PublicKeyCredential,
    state: PasskeyAuthentication,
) -> Result<AuthenticationResult, Seq<char>>;

/// `Webauthn::finish_passkey_authentication`: the result, or that what was
/// sent is refused and the words why, depend on the three arguments alone. It
/// reads no clock and draws nothing at random, and its errors have fixed words.
#[verifier::external_body]
pub(crate) fn finish_authentication(
    site: &Webauthn,
    sent: &PublicKeyCredential,
    state: &PasskeyAuthentication,
) -> (res: Result<AuthenticationResult, String>)
    ensures
        match res {
            Ok(r) => login_result(*site, *sent, *state) == Ok::<AuthenticationResult, Seq<char>>(r),
            Err(e) => login_result(*site, *sent, *state) == Err::<AuthenticationResult, Seq<char>>(
                e@,
            ),
        },
{
    site.finish_passkey_authentication(sent, state).map_err(|e| e.to_string())
}

/// A passkey with what a result says of its use; `None` for a result of
/// another passkey.
pub uninterp spec fn passkey_after(passkey: Passkey, result: AuthenticationResult) -> Option<
    Passkey,
>;

/// `Passkey::update_credential` on a copy: what it does depends on the passkey
/// and the result alone. Which passkey a result is of is inside values that
/// are not looked into here.
#[verifier::external_body]
pub(crate) fn updated_passkey(passkey: &Passkey, result: &AuthenticationResult) -> (res: Option<
    Passkey,
>)
    ensures
        res == passkey_after(*passkey, *result),
{
    let mut copy = passkey.clone();
    copy.update_credential(result).map(|_changed| copy)
}

/// The passkeys that bytes are the JSON of; `None` where they are something
/// else.
pub uninterp spec fn passkeys_in(bytes: Seq<u8>) -> Option<Seq<Passkey>>;

/// `serde_json::from_slice` into a list of passkeys: what it holds depends on
/// the bytes alone.
#[verifier::external_body]
pub(crate) fn parse_passkeys(bytes: &[u8]) -> (res: Option<Vec<Passkey>>)
    ensures
        match res {
            Some(v) => passkeys_in(bytes@) == Some(v@),
            None => passkeys_in(bytes@) is None,
        },
{
    serde_json::from_slice(bytes).ok()
}

/// The JSON of passkeys, or the words of the error where there is none.
pub uninterp spec fn passkeys_json(passkeys: Seq<Passkey>) -> Result<Seq<u8>, Seq<char>>;

/// `serde_json::to_vec_pretty` of passkeys: whether it succeeds, and what it
/// gives, depends on the passkeys alone. Where it succeeds, it is JSON that is
/// read back as the passkeys. Passkeys are made to be stored: every field of
/// one is written, and read back as it was.
#[verifier::external_body]
pub(crate) fn passkeys_to_json(passkeys: &Vec<Passkey>) -> (res: Result<Vec<u8>, String>)
    ensures
        match res {
            Ok(b) => passkeys_json(passkeys@) == Ok::<Seq<u8>, Seq<char>>(b@) && passkeys_in(b@)
                == Some(passkeys@),
            Err(e) => passkeys_json(passkeys@) == Err::<Seq<u8>, Seq<char>>(e@),
        },
{
    serde_json::to_vec_pretty(passkeys).map_err(|e| e.to_string())
}

/// A JSON value.
#[verifier::external_type_specification]
#[verifier::external_body]
pub struct ExValue(serde_json::Value);

/// A passkey as a JSON value; `None` where it is none.
pub uninterp spec fn passkey_value_of(passkey: Passkey) -> Option<Value>;

/// `serde_json::to_value` of a passkey: what it gives depends on the passkey
/// alone.
#[verifier::external_body]
pub(crate) fn passkey_value(passkey: &Passkey) -> (res: Option<Value>)
    ensures
        res == passkey_value_of(*passkey),
{
    serde_json::to_value(passkey).ok()
}

/// The value under a key of a JSON object; `None` where the value is no object
/// or has no such key.
pub uninterp spec fn member_in(v: Value, key: Seq<char>) -> Option<Value>;

/// `Value::get` with a string: what it gives depends on the value and the key
/// alone.
#[verifier::external_body]
pub(crate) fn value_member<'a>(v: &'a Value, key: &str) -> (res: Option<&'a Value>)
    ensures
        match res {
            Some(w) => member_in(*v, key@) == Some(*w),
            None => member_in(*v, key@) is None,
        },
{
    v.get(key)
}

/// The text that a JSON value is; `None` where it is something else.
pub uninterp spec fn text_in(v: Value) -> Option<Seq<char>>;

/// `Value::as_str`: what it gives depends on the value alone.
#[verifier::external_body]
pub(crate) fn value_text(v: &Value) -> (res: Option<String>)
    ensures
        crate::text::text_of(res) == text_in(*v),
{
    v.as_str().map(String::from)
}

// --- time -------------------------------------------------------------------

/// `SystemTime::now` in whole seconds since the Unix epoch, and `None` on a
/// clock that stands before it.
#[verifier::external_body]
pub(crate) fn clock_seconds() -> (res: Option<u64>) {
    SystemTime::now().duration_since(UNIX_EPOCH).ok().map(|d| d.as_secs())
}

} // verus!
