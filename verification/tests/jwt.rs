use latch::jwt::{
    b64u_decode, b64u_encode, check_at, claims_to_json, epoch_seconds, frame, input_to_sign, issue,
    judge, open, open_frame, read, seal, unix_now, verify, verify_at, Claims, Fault, HEADER,
};

fn key() -> Vec<u8> {
    (0u8..32).collect()
}

fn now() -> u64 {
    unix_now().unwrap()
}

fn sample_claims(exp_offset: i64) -> Claims {
    let now = now();
    Claims {
        sub: "me".into(),
        iat: now,
        exp: (now as i64 + exp_offset) as u64,
        jti: "test-jti".into(),
    }
}

fn decode(bytes: &[u8]) -> Result<Claims, String> {
    let v: serde_json::Value =
        serde_json::from_slice(bytes).map_err(|e| format!("bad claims: {e}"))?;
    let text = |k: &str| v[k].as_str().map(String::from).ok_or("bad claims");
    let number = |k: &str| v[k].as_u64().ok_or("bad claims");
    Ok(Claims { sub: text("sub")?, iat: number("iat")?, exp: number("exp")?, jti: text("jti")? })
}

#[test]
fn b64u_roundtrip() {
    for n in 0..16 {
        let bytes: Vec<u8> = (0..n).map(|i| (i * 7 + 3) as u8).collect();
        let enc = b64u_encode(&bytes);
        assert!(!enc.contains('='), "no padding for len {n}");
        assert_eq!(b64u_decode(&enc), Some(bytes), "roundtrip len {n}");
    }
}

#[test]
fn b64u_known_vectors() {
    assert_eq!(b64u_encode(b""), "");
    assert_eq!(b64u_encode(b"foobar"), "Zm9vYmFy");
    assert_eq!(b64u_decode("Zm9vYmFy"), Some(b"foobar".to_vec()));
}

#[test]
fn b64u_edges() {
    assert_eq!(b64u_encode(b"f"), "Zg");
    assert_eq!(b64u_encode(b"fo"), "Zm8");
    assert_eq!(b64u_encode(&[0xfb, 0xff]), "-_8");
    assert_eq!(b64u_decode("Zg"), Some(b"f".to_vec()));
    assert_eq!(b64u_decode("A"), None);
    assert_eq!(b64u_decode("Zg=="), None);
    assert_eq!(b64u_decode("Z g"), None);
    assert_eq!(b64u_decode("Zm9vYmFy\u{e9}"), None);
}

#[test]
fn issue_verify_roundtrip() {
    let claims = sample_claims(60);
    let token = issue(&claims, &key()).unwrap();
    let decoded = verify(&token, &key(), decode).unwrap();
    assert_eq!(decoded.sub, "me");
    assert_eq!(decoded.jti, "test-jti");
    assert_eq!(decoded.exp, claims.exp);
}

#[test]
fn rejects_expired() {
    let claims = sample_claims(-1);
    let token = issue(&claims, &key()).unwrap();
    assert!(verify(&token, &key(), decode).unwrap_err().contains("expired"));
}

#[test]
fn rejects_bad_signature() {
    let token = issue(&sample_claims(60), &key()).unwrap();
    let bad_key: Vec<u8> = (1u8..33).collect();
    assert!(verify(&token, &bad_key, decode).unwrap_err().contains("invalid signature"));
}

#[test]
fn rejects_malformed() {
    assert!(verify("not-a-jwt", &key(), decode).is_err());
    assert!(verify("a.b", &key(), decode).is_err());
    assert!(verify("a.b.c.d", &key(), decode).is_err());
}

#[test]
fn rejects_tampered_payload() {
    let token = issue(&sample_claims(60), &key()).unwrap();
    let parts: Vec<&str> = token.split('.').collect();
    let other = Claims {
        sub: "attacker".into(),
        iat: now(),
        exp: now() + 60,
        jti: "different".into(),
    };
    let other_payload = b64u_encode(claims_to_json(&other).as_bytes());
    let tampered = format!("{}.{}.{}", parts[0], other_payload, parts[2]);
    assert!(verify(&tampered, &key(), decode).unwrap_err().contains("invalid signature"));
}

#[test]
fn names_what_is_wrong_with_a_token() {
    let k = key();
    let err = |t: &str| verify(t, &k, decode).unwrap_err();
    assert_eq!(err("x"), "missing payload");
    assert_eq!(err("x.y"), "missing signature");
    assert_eq!(err("x.y.z.w"), "malformed");
    assert_eq!(err("x.y.z"), "bad header");
    assert_eq!(err(&format!("{HEADER}.e30.!")), "bad signature encoding");
    assert_eq!(err(&format!("{HEADER}.e30.AAAA")), "invalid signature");
    let input = format!("{HEADER}.!");
    let sealed = token_over(&input, &k);
    assert_eq!(err(&sealed), "bad payload encoding");
    let claimless = token_over(&format!("{HEADER}.e30"), &k);
    assert_eq!(err(&claimless), "bad claims");
}

/// A token over a text, signed by OpenSSL directly.
fn token_over(input: &str, key: &[u8]) -> String {
    let pkey = openssl::pkey::PKey::hmac(key).unwrap();
    let mut s =
        openssl::sign::Signer::new(openssl::hash::MessageDigest::sha256(), &pkey).unwrap();
    s.update(input.as_bytes()).unwrap();
    let mac = s.sign_to_vec().unwrap();
    seal(input.to_string(), Ok(mac)).unwrap()
}

#[test]
fn a_known_token() {
    let c = Claims { sub: "me".into(), iat: 1, exp: 2, jti: "j\"".into() };
    assert_eq!(claims_to_json(&c), r#"{"sub":"me","iat":1,"exp":2,"jti":"j\""}"#);
    let token = issue(&c, b"key").unwrap();
    let input = input_to_sign(claims_to_json(&c).as_bytes());
    assert_eq!(token, token_over(&input, b"key"));
    assert_eq!(open(&token, b"key").unwrap(), claims_to_json(&c).as_bytes());
    assert_eq!(
        HEADER,
        b64u_encode(br#"{"alg":"HS256","typ":"JWT"}"#)
    );
}

#[test]
fn frames_come_apart() {
    let (p, s) = frame(&format!("{HEADER}.a.b")).unwrap();
    assert_eq!((p.as_str(), s.as_str()), ("a", "b"));
    assert_eq!(open_frame("Zg", "AAAA", Ok(vec![0, 0, 0])).unwrap(), b"f");
    assert_eq!(open_frame("Zg", "AAAA", Ok(vec![0, 0])).unwrap_err(), "invalid signature");
    assert_eq!(open_frame("Zg", "AAAA", Ok(vec![0, 0, 1])).unwrap_err(), "invalid signature");
    assert_eq!(open_frame("Zg", "AAAA", Err("broken".into())).unwrap_err(), "broken");
    assert_eq!(seal("in".into(), Err("broken".into())).unwrap_err(), "broken");
}

#[test]
fn clocks_count_from_the_epoch() {
    assert_eq!(epoch_seconds(Some(7)), Ok(7));
    assert_eq!(epoch_seconds(None).unwrap_err(), "system time before unix epoch");
    // The clock of a machine that runs this stands after 2020.
    assert!(now() > 1_577_836_800);
}

#[test]
fn sessions_end_at_their_second() {
    let c = |exp| Claims { sub: "me".into(), iat: 0, exp, jti: "j".into() };
    assert!(judge(Ok(c(11)), 10).is_ok());
    assert_eq!(judge(Ok(c(10)), 10).unwrap_err(), "expired");
    assert_eq!(judge(Err("x".into()), 0).unwrap_err(), "x");
    let token = issue(&c(10), &key()).unwrap();
    assert_eq!(verify_at(&token, &key(), 9, decode).unwrap().exp, 10);
    assert_eq!(verify_at(&token, &key(), 10, decode).unwrap_err(), "expired");
}

#[test]
fn refusals_are_told_from_failures() {
    let c = Claims { sub: "me".into(), iat: 0, exp: 10, jti: "j".into() };
    let token = issue(&c, &key()).unwrap();
    assert_eq!(check_at(&token, &key(), 9, decode).unwrap().jti, "j");
    let refused = |e: Fault| match e {
        Fault::Refused(why) => why,
        Fault::Machine(why) => panic!("{why}"),
    };
    assert_eq!(refused(check_at(&token, &key(), 10, decode).unwrap_err()), "expired");
    assert_eq!(refused(check_at(&token, b"other", 9, decode).unwrap_err()), "invalid signature");
    assert_eq!(refused(read("x.y", &key(), decode).unwrap_err()), "missing signature");
    assert_eq!(refused(open("x.y.z", &key()).unwrap_err()), "bad header");
    assert_eq!(Fault::Machine("m".into()).reason(), "m");
    assert_eq!(Fault::Refused("r".into()).reason(), "r");
}

#[test]
fn signatures_are_whole() {
    // What is accepted carries all 32 bytes of the signature.
    let token = issue(&sample_claims(60), &key()).unwrap();
    let signature = token.rsplit('.').next().unwrap();
    assert_eq!(b64u_decode(signature).unwrap().len(), 32);
    let (rest, _) = token.rsplit_once('.').unwrap();
    for n in [0, 16, 31] {
        let part = b64u_encode(&b64u_decode(signature).unwrap()[..n]);
        assert_eq!(verify(&format!("{rest}.{part}"), &key(), decode).unwrap_err(), "invalid signature");
    }
}
