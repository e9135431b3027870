//! Whole passkey ceremonies, with an authenticator that lives in this file.

use latch::cmd::passkeys::{list, passkey_aaguid, passkey_cred_id, passkey_json};
use latch::config::{Config, ConfigSource, USER_ID};
use latch::http::{Method, Request};
use latch::jwt::{b64u_decode, b64u_encode, issue};
use latch::server::{
    begin, begin_error, complete, finish, finish_login, finish_register, hand_out, keep_registered,
    parsed, relying_party, saved, session_claims, set_session_cookie, signed_in, take_challenge,
    update_first, user_id, Ceremony, ChKind, Daemon, Latch, Save, CHALLENGE_NANOS,
};
use latch::state::{load_passkeys, save_passkeys, Table};
use openssl::bn::{BigNum, BigNumContext};
use openssl::ec::{EcGroup, EcKey};
use openssl::hash::MessageDigest;
use openssl::nid::Nid;
use openssl::pkey::{PKey, Private};
use openssl::sha::sha256;
use openssl::sign::Signer;
use webauthn_rs::prelude::{
    Passkey, PasskeyAuthentication, PasskeyRegistration, Uuid, Webauthn,
};

fn cfg() -> Config {
    Config {
        hostname: "latch.foo.org".into(),
        origin: "https://latch.foo.org".into(),
        cookie_domain: "foo.org".into(),
        listen: "127.0.0.1:0".into(),
        data_dir: "/d".into(),
        passkeys_path: "/d/passkeys.json".into(),
        key_path: "/d/key".into(),
        revoked_path: "/d/revoked.json".into(),
        source: ConfigSource::Env,
    }
}

fn site() -> Webauthn {
    relying_party(&cfg()).unwrap()
}

fn daemon() -> Daemon {
    Latch::new(cfg(), vec![7; 32], vec![], Table::new())
}

fn get(url: &str, headers: &[(&str, &str)]) -> Request {
    Request {
        method: Method::Post,
        url: url.to_string(),
        headers: headers.iter().map(|(n, v)| (n.to_string(), v.to_string())).collect(),
    }
}

/// A key that answers challenges.
struct Authenticator {
    id: Vec<u8>,
    key: EcKey<Private>,
}

/// A byte string in CBOR.
fn cbor_bytes(b: &[u8]) -> Vec<u8> {
    let mut out = vec![0x59, (b.len() >> 8) as u8, b.len() as u8];
    out.extend_from_slice(b);
    out
}

fn client_data(kind: &str, challenge: &str) -> Vec<u8> {
    format!(
        r#"{{"type":"webauthn.{kind}","challenge":"{challenge}","origin":"https://latch.foo.org","crossOrigin":false}}"#
    )
    .into_bytes()
}

impl Authenticator {
    fn new(id: &[u8]) -> Authenticator {
        let group = EcGroup::from_curve_name(Nid::X9_62_PRIME256V1).unwrap();
        Authenticator { id: id.to_vec(), key: EcKey::generate(&group).unwrap() }
    }

    /// What every answer starts with: the site, that the user is there and
    /// known, and how often the key was used.
    fn auth_data(&self, flags: u8, counter: u32) -> Vec<u8> {
        let mut out = sha256(b"latch.foo.org").to_vec();
        out.push(flags);
        out.extend_from_slice(&counter.to_be_bytes());
        out
    }

    fn public_key(&self) -> Vec<u8> {
        let mut ctx = BigNumContext::new().unwrap();
        let (mut x, mut y) = (BigNum::new().unwrap(), BigNum::new().unwrap());
        self.key
            .public_key()
            .affine_coordinates_gfp(self.key.group(), &mut x, &mut y, &mut ctx)
            .unwrap();
        // { 1: 2, 3: -7, -1: 1, -2: x, -3: y }
        let mut out = vec![0xa5, 0x01, 0x02, 0x03, 0x26, 0x20, 0x01, 0x21];
        out.extend(cbor_bytes(&x.to_vec_padded(32).unwrap()));
        out.push(0x22);
        out.extend(cbor_bytes(&y.to_vec_padded(32).unwrap()));
        out
    }

    /// The body that completes a registration.
    fn register(&self, challenge: &str) -> String {
        let mut data = self.auth_data(0x45, 0);
        data.extend_from_slice(&[0; 16]);
        data.extend_from_slice(&[0, self.id.len() as u8]);
        data.extend_from_slice(&self.id);
        data.extend(self.public_key());
        // { "fmt": "none", "attStmt": {}, "authData": data }
        let mut object = vec![0xa3, 0x63];
        object.extend_from_slice(b"fmt\x64none\x67attStmt\xa0\x68authData");
        object.extend(cbor_bytes(&data));
        format!(
            r#"{{"id":"{id}","rawId":"{id}","type":"public-key","response":{{"attestationObject":"{object}","clientDataJSON":"{client}"}}}}"#,
            id = b64u_encode(&self.id),
            object = b64u_encode(&object),
            client = b64u_encode(&client_data("create", challenge)),
        )
    }

    /// The body that completes a login.
    fn login(&self, challenge: &str, counter: u32) -> String {
        let data = self.auth_data(0x05, counter);
        let client = client_data("get", challenge);
        let key = PKey::from_ec_key(self.key.clone()).unwrap();
        let mut signer = Signer::new(MessageDigest::sha256(), &key).unwrap();
        signer.update(&data).unwrap();
        signer.update(&sha256(&client)).unwrap();
        format!(
            r#"{{"id":"{id}","rawId":"{id}","type":"public-key","response":{{"authenticatorData":"{data}","clientDataJSON":"{client}","signature":"{signature}","userHandle":null}}}}"#,
            id = b64u_encode(&self.id),
            data = b64u_encode(&data),
            client = b64u_encode(&client),
            signature = b64u_encode(&signer.sign_to_vec().unwrap()),
        )
    }
}

/// Begins a ceremony and gives its kind, what it was begun with and the
/// challenge.
fn ask(d: &mut Daemon) -> (ChKind<PasskeyRegistration, PasskeyAuthentication>, String, String) {
    let r = begin(&get("/begin", &[]), d, &site(), "tok".into(), 5).unwrap();
    assert_eq!(r.status, 200);
    let body: serde_json::Value = serde_json::from_str(r.body.as_deref().unwrap()).unwrap();
    let challenge = body["options"]["publicKey"]["challenge"].as_str().unwrap().to_string();
    assert_eq!(b64u_decode(&challenge).unwrap().len(), 32);
    let req = get("/complete", &[("Cookie", "latch_challenge=tok")]);
    let taken = take_challenge(d, &req, 6).unwrap();
    assert_eq!(taken.expires, 5 + CHALLENGE_NANOS);
    (taken.kind, body["mode"].as_str().unwrap().to_string(), challenge)
}

/// Begins a ceremony under a token and gives its challenge.
fn ask_as(d: &mut Daemon, token: &str) -> String {
    let req = get("/begin?return_to=https%3A%2F%2Fapp.foo.org%2F", &[]);
    let r = begin(&req, d, &site(), token.into(), 5).unwrap();
    let body: serde_json::Value = serde_json::from_str(r.body.as_deref().unwrap()).unwrap();
    body["options"]["publicKey"]["challenge"].as_str().unwrap().to_string()
}

fn answer_to(token: &str) -> Request {
    get("/complete", &[("Cookie", &format!("latch_challenge={token}"))])
}

fn counter_of(d: &Daemon) -> u64 {
    let v: serde_json::Value =
        serde_json::from_slice(&save_passkeys(&d.creds).unwrap()).unwrap();
    v[0]["cred"]["counter"].as_u64().unwrap()
}

#[test]
fn registering_and_signing_in() {
    let (site, mut d) = (site(), daemon());
    let phone = Authenticator::new(b"phone-credential");

    let (kind, mode, challenge) = ask(&mut d);
    assert_eq!(mode, "register");
    assert_eq!(finish(&site, &mut d.creds, &kind, &phone.register(&challenge)), Ok(Save::Must));
    assert_eq!(d.creds.len(), 1);
    assert_eq!(d.creds[0].cred_id().as_slice(), b"phone-credential");
    assert_eq!(counter_of(&d), 0);

    // A passkey closes registration; its use is counted and saved.
    let (kind, mode, challenge) = ask(&mut d);
    assert_eq!(mode, "login");
    assert_eq!(finish(&site, &mut d.creds, &kind, &phone.login(&challenge, 3)), Ok(Save::Try));
    assert_eq!((d.creds.len(), counter_of(&d)), (1, 3));

    // It is found again after a restart.
    d.creds = load_passkeys(Some(save_passkeys(&d.creds).unwrap()));
    let (kind, _, challenge) = ask(&mut d);
    assert_eq!(finish(&site, &mut d.creds, &kind, &phone.login(&challenge, 4)), Ok(Save::Try));
    assert_eq!(counter_of(&d), 4);
}

#[test]
fn tapping_a_passkey_gives_a_session() {
    let (site, mut d) = (site(), daemon());
    let phone = Authenticator::new(b"phone");
    let write = |p: &Vec<Passkey>| save_passkeys(p).map(|_| ());
    let done = |d: &mut Daemon, token: &str, body: Result<String, String>| {
        complete(d, &site, &answer_to(token), 6, &body, write, 100, "j".into())
    };

    let challenge = ask_as(&mut d, "one");
    let r = done(&mut d, "one", Ok(phone.register(&challenge))).unwrap();
    let token = issue(&session_claims(100, "j".into()), &[7; 32]).unwrap();
    assert_eq!(r.body.as_deref(), Some(r#"{"return_to":"https://app.foo.org/"}"#));
    assert_eq!(r.headers[1], ("Set-Cookie".to_string(), set_session_cookie(&cfg(), &token)));
    assert_eq!(d.creds.len(), 1);

    // The same challenge is not answered twice.
    let again = done(&mut d, "one", Ok(phone.register(&challenge)));
    assert_eq!(again.unwrap_err(), "expired challenge");
    assert_eq!(d.creds.len(), 1);

    // A failure uses a challenge up.
    let challenge = ask_as(&mut d, "two");
    assert_eq!(done(&mut d, "two", Err("gone".into())).unwrap_err(), "read: gone");
    let again = done(&mut d, "two", Ok(phone.login(&challenge, 1)));
    assert_eq!(again.unwrap_err(), "expired challenge");
    assert_eq!(counter_of(&d), 0);

    let challenge = ask_as(&mut d, "three");
    assert!(done(&mut d, "three", Ok(phone.login(&challenge, 2))).is_ok());
    assert_eq!(counter_of(&d), 2);

    let challenge = ask_as(&mut d, "four");
    let other = Authenticator::new(b"other");
    let refused = done(&mut d, "four", Ok(other.login(&challenge, 3))).unwrap_err();
    assert!(refused.starts_with("login: "), "{refused}");
    let nothing = complete(&mut d, &site, &get("/", &[]), 6, &Ok("".into()), write, 1, "j".into());
    assert_eq!(nothing.unwrap_err(), "no challenge cookie");
}

#[test]
fn passkeys_that_cannot_be_saved() {
    let (site, mut d) = (site(), daemon());
    let phone = Authenticator::new(b"phone");
    let full = |_: &Vec<Passkey>| Err("full".to_string());
    let challenge = ask_as(&mut d, "t");
    let body = Ok(phone.register(&challenge));
    let res = complete(&mut d, &site, &answer_to("t"), 6, &body, full, 100, "j".into());
    assert_eq!(res.unwrap_err(), "save: full");
    assert_eq!(d.creds.len(), 1);
    // A use that cannot be saved keeps nobody out.
    let challenge = ask_as(&mut d, "t");
    let body = Ok(phone.login(&challenge, 1));
    assert!(complete(&mut d, &site, &answer_to("t"), 6, &body, full, 100, "j".into()).is_ok());
}

#[test]
fn browsers_are_told_whom_and_what_to_ask_for() {
    let (site, mut d) = (site(), daemon());
    assert_eq!(user_id(), Uuid::parse_str(USER_ID).unwrap());
    let begun = |d: &mut Daemon| -> serde_json::Value {
        let r = begin(&get("/begin", &[]), d, &site, "t".into(), 5).unwrap();
        serde_json::from_str(r.body.as_deref().unwrap()).unwrap()
    };
    let options = begun(&mut d)["options"]["publicKey"].clone();
    assert_eq!(options["user"]["name"], "me");
    assert_eq!(options["user"]["displayName"], "latch");
    assert_eq!(options["user"]["id"], b64u_encode(user_id().as_bytes()));
    assert_eq!(options["rp"]["id"], "latch.foo.org");
    assert_eq!(options["rp"]["name"], "latch");
    let (kind, _, challenge) = ask(&mut d);
    let phone = Authenticator::new(b"phone");
    finish(&site, &mut d.creds, &kind, &phone.register(&challenge)).unwrap();
    let options = begun(&mut d)["options"]["publicKey"].clone();
    assert_eq!(options["allowCredentials"][0]["id"], b64u_encode(b"phone"));
    assert_eq!(options["rpId"], "latch.foo.org");
}

#[test]
fn registered_passkeys_are_listed() {
    let (site, mut d) = (site(), daemon());
    assert_eq!(list(&d.creds, "/p", false), "0 passkeys at /p\n");
    let (kind, _, challenge) = ask(&mut d);
    let phone = Authenticator::new(b"phone");
    finish(&site, &mut d.creds, &kind, &phone.register(&challenge)).unwrap();
    assert_eq!(passkey_cred_id(&d.creds[0]), "cGhvbmU");
    assert_eq!(passkey_aaguid(&d.creds[0]), None);
    assert_eq!(passkey_json(&d.creds[0]), r#"{"aaguid":null,"cred_id":"cGhvbmU"}"#);
    assert_eq!(list(&d.creds, "/p", false), "1 passkey(s) at /p\n  [0] cred_id=cGhvbmU\n");
    assert_eq!(list(&d.creds, "/p", true), "[{\"aaguid\":null,\"cred_id\":\"cGhvbmU\"}]\n");
}

#[test]
fn the_passkey_that_was_used_is_brought_up_to_date() {
    let (site, mut d) = (site(), daemon());
    let (first, second) = (Authenticator::new(b"first"), Authenticator::new(b"second"));
    let (kind, _, challenge) = ask(&mut d);
    finish(&site, &mut d.creds, &kind, &first.register(&challenge)).unwrap();
    let mut other = daemon();
    let (kind, _, challenge) = ask(&mut other);
    finish(&site, &mut other.creds, &kind, &second.register(&challenge)).unwrap();
    d.creds.push(other.creds.remove(0));

    let (kind, _, challenge) = ask(&mut d);
    let ChKind::Login(state) = kind else { panic!() };
    assert_eq!(finish_login(&site, &mut d.creds, &second.login(&challenge, 9), &state), Ok(true));
    let v: serde_json::Value =
        serde_json::from_slice(&save_passkeys(&d.creds).unwrap()).unwrap();
    assert_eq!(v[0]["cred"]["counter"].as_u64(), Some(0));
    assert_eq!(v[1]["cred"]["counter"].as_u64(), Some(9));

    // One that is not held any more is signed in with, and nothing is saved.
    let mut none = vec![];
    assert_eq!(finish_login(&site, &mut none, &second.login(&challenge, 9), &state), Ok(false));
    assert!(none.is_empty());
}

#[test]
fn answers_to_other_challenges_are_refused() {
    let (site, mut d) = (site(), daemon());
    let phone = Authenticator::new(b"phone");
    let (kind, _, challenge) = ask(&mut d);
    let other = b64u_encode(&[0; 32]);
    let refused = finish(&site, &mut d.creds, &kind, &phone.register(&other)).unwrap_err();
    assert!(refused.starts_with("register: "), "{refused}");
    assert!(d.creds.is_empty());
    finish(&site, &mut d.creds, &kind, &phone.register(&challenge)).unwrap();

    let (kind, _, challenge) = ask(&mut d);
    let refused = finish(&site, &mut d.creds, &kind, &phone.login(&other, 1)).unwrap_err();
    assert!(refused.starts_with("login: "), "{refused}");
    let thief = Authenticator { id: phone.id.clone(), ..Authenticator::new(b"") };
    let refused = finish(&site, &mut d.creds, &kind, &thief.login(&challenge, 1)).unwrap_err();
    assert!(refused.starts_with("login: "), "{refused}");
    assert_eq!((d.creds.len(), counter_of(&d)), (1, 0));
}

#[test]
fn bodies_that_make_no_sense_are_refused() {
    let (site, mut d) = (site(), daemon());
    let (kind, _, challenge) = ask(&mut d);
    let ChKind::Register(state) = &kind else { panic!() };
    assert_eq!(
        finish_register(&site, &mut d.creds, "", state).unwrap_err(),
        "parse: EOF while parsing a value at line 1 column 0"
    );
    assert_eq!(
        finish_register(&site, &mut d.creds, "{}", state).unwrap_err(),
        "parse: missing field `id` at line 1 column 2"
    );
    let phone = Authenticator::new(b"phone");
    finish(&site, &mut d.creds, &kind, &phone.register(&challenge)).unwrap();
    let (kind, _, _) = ask(&mut d);
    assert_eq!(
        finish(&site, &mut d.creds, &kind, "{}").unwrap_err(),
        "parse: missing field `id` at line 1 column 2"
    );
    assert_eq!(d.creds.len(), 1);
}

#[test]
fn sites_must_fit_their_hostname() {
    let err = |hostname: &str, origin: &str| {
        let c = Config { hostname: hostname.into(), origin: origin.into(), ..cfg() };
        relying_party(&c).err()
    };
    assert_eq!(err("foo.org", "https://latch.foo.org"), None);
    assert_eq!(err("latch.foo.org", "https://latch.foo.org:8443/x"), None);
    assert_eq!(
        err("h", "nowhere").as_deref(),
        Some("invalid origin: relative URL without a base")
    );
    assert_eq!(
        err("latch.foo.org", "https://foo.org").as_deref(),
        Some("rp: The configuration was invalid")
    );
    assert!(err("h", "data:x").unwrap().starts_with("rp: "));
}

#[test]
fn outcomes_are_passed_on() {
    let mut creds = vec!["a"];
    assert_eq!(keep_registered(&mut creds, Err("no".into())).unwrap_err(), "register: no");
    assert_eq!(creds, ["a"]);
    assert_eq!(keep_registered(&mut creds, Ok("b")), Ok(()));
    assert_eq!(creds, ["a", "b"]);
    assert_eq!(begin_error(Ceremony::Register, "x"), "register-begin: x");
    assert_eq!(begin_error(Ceremony::Login, "x"), "login-begin: x");
    assert_eq!(signed_in(Ok(true)), Ok(true));
    assert_eq!(signed_in(Ok(false)), Ok(false));
    assert_eq!(signed_in(Err("no".into())).unwrap_err(), "login: no");
    assert_eq!(parsed(Ok(1)), Ok(1));
    assert_eq!(parsed::<u8>(Err("x".into())).unwrap_err(), "parse: x");
    assert_eq!(saved(Save::Must, Err("full".into())).unwrap_err(), "save: full");
    assert_eq!(saved(Save::Try, Err("full".into())), Ok(()));
    assert_eq!(saved(Save::No, Ok(())), Ok(()));
    assert_eq!(saved(Save::Must, Ok(())), Ok(()));
}

#[test]
fn the_first_that_fits_is_updated() {
    let mut numbers = vec![1, 2, 3, 4];
    let double = |n: &i32| if n % 2 == 0 { Some(n * 10) } else { None };
    assert!(update_first(&mut numbers, double));
    assert_eq!(numbers, [1, 20, 3, 4]);
    assert!(!update_first(&mut numbers, |n| if *n > 99 { Some(0) } else { None }));
    assert_eq!(numbers, [1, 20, 3, 4]);
    assert!(!update_first(&mut vec![], double));
}

#[test]
fn challenges_are_handed_out() {
    let mut d: Latch<u8, u8, u8> = Latch::new(cfg(), vec![7; 32], vec![], Table::new());
    let r = hand_out(&mut d, Err("login-begin: x".into()), "t".into(), 0, "/".into());
    assert_eq!(r.err().as_deref(), Some("login-begin: x"));
    assert!(!d.challenges.contains_key("t"));
    let started = Ok((ChKind::Register(1), "{}".to_string()));
    let r = hand_out(&mut d, started, "t".into(), 0, "/".into()).unwrap();
    assert_eq!(r.body.as_deref(), Some(r#"{"mode":"register","options":{}}"#));
    assert!(d.challenges.contains_key("t"));
}
