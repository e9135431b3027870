use latch::state::{
    count_passkeys, denylist_of, key_generated, list_or_empty, load_or_create_key, load_passkeys,
    load_revoked, save_passkeys, save_revoked, KeyPlan, Table, KEY_LEN, KEY_PERMISSIONS,
};

#[test]
fn tables_hold_one_entry_per_key() {
    let mut t: Table<u64> = Table::new();
    t.insert("a".into(), 1);
    t.insert("b".into(), 2);
    t.insert("a".into(), 3);
    assert_eq!(t.get("a"), Some(&3));
    assert_eq!(t.entries().len(), 2);
    assert_eq!(t.remove("a"), Some(3));
    assert_eq!(t.remove("a"), None);
    assert!(!t.contains_key("a"));
    assert!(t.contains_key("b"));
}

#[test]
fn expired_entries_go() {
    let mut t = Table::from_entries(vec![("a".into(), 1u64), ("b".into(), 2), ("c".into(), 3)]);
    assert!(!t.expire(0));
    assert!(t.expire(2));
    assert_eq!(t.entries(), &vec![("c".to_string(), 3)]);
    assert!(!t.expire(2));
}

#[test]
fn denylists_are_loaded_and_saved() {
    let t = load_revoked(Some(br#"{"a\"":1,"b":2}"#.to_vec()));
    assert_eq!(t.entries().len(), 2);
    let saved = save_revoked(&t);
    let v: serde_json::Value = serde_json::from_slice(&saved).unwrap();
    assert_eq!(v["a\""].as_u64(), Some(1));
    assert_eq!(v["b"].as_u64(), Some(2));
    let again = load_revoked(Some(saved));
    assert_eq!(again.get("a\""), Some(&1));
    assert_eq!(again.get("b"), Some(&2));
    assert_eq!(save_revoked(&load_revoked(None)), b"{}");
    let one = denylist_of(Some(vec![("j".into(), 7)]));
    assert_eq!(save_revoked(&one), br#"{"j":7}"#);
}

#[test]
fn denylists_that_make_no_sense_are_empty() {
    for bad in ["", "[]", "{\"j\":-1}", "{\"j\":\"7\"}", "{\"j\":7", "{\"j\":7} x"] {
        assert!(load_revoked(Some(bad.as_bytes().to_vec())).entries().is_empty(), "{bad}");
    }
    assert!(load_revoked(None).entries().is_empty());
    // The last of two entries with one key counts.
    assert_eq!(load_revoked(Some(br#"{"j":1,"j":2}"#.to_vec())).get("j"), Some(&2));
    let t = denylist_of(Some(vec![("j".into(), 1), ("k".into(), 3), ("j".into(), 2)]));
    assert_eq!((t.get("j"), t.get("k")), (Some(&2), Some(&3)));
    assert!(denylist_of(None).entries().is_empty());
}

#[test]
fn passkeys_default_to_none() {
    assert_eq!(list_or_empty::<u8>(None), Vec::<u8>::new());
    assert_eq!(list_or_empty(Some(vec![1, 2])), vec![1, 2]);
    assert!(load_passkeys(None).is_empty());
    assert!(load_passkeys(Some(b"nonsense".to_vec())).is_empty());
    assert!(load_passkeys(Some(b"[{}]".to_vec())).is_empty());
    assert!(load_passkeys(Some(b"[]".to_vec())).is_empty());
}

/// A passkey with an ES256 key, as a file holds it.
const PASSKEY: &str = r#"{"cred":{"cred_id":"AQID","cred":{"type_":"ES256","key":{"EC_EC2":{"curve":"SECP256R1","x":"qT9mSXZxFeUAvCyPJ9jKxzTO7Wo8rwdS7mv6yOHcVZ4","y":"kbLMIVEBW1WzZfXnXBcXxpRvTgNhYDJYZlMpMLl0Avc"}}},"counter":0,"transports":null,"user_verified":true,"backup_eligible":false,"backup_state":false,"registration_policy":"required","extensions":{"cred_protect":"Ignored","hmac_create_secret":"NotRequested","appid":"NotRequested","cred_props":"Ignored"},"attestation":{"data":"None","metadata":"None"},"attestation_format":"none"}}"#;

#[test]
fn passkeys_survive_a_restart() {
    let file = format!("[{PASSKEY},{PASSKEY}]").into_bytes();
    let passkeys = load_passkeys(Some(file));
    assert_eq!(passkeys.len(), 2);
    let saved = save_passkeys(&passkeys).unwrap();
    // One value to a line.
    assert!(saved.starts_with(b"[\n  {"));
    let again = load_passkeys(Some(saved.clone()));
    assert_eq!(again.len(), 2);
    assert_eq!(again[0].cred_id(), passkeys[0].cred_id());
    assert_eq!(save_passkeys(&again).unwrap(), saved);
    assert_eq!(save_passkeys(&vec![]).unwrap(), b"[]");
}

#[test]
fn passkeys_are_counted_as_they_are_found() {
    assert_eq!(count_passkeys(false, None), Some(0));
    assert_eq!(count_passkeys(true, None), None);
    assert_eq!(count_passkeys(true, Some(b"nonsense".to_vec())), None);
    assert_eq!(count_passkeys(true, Some(b"[]".to_vec())), Some(0));
    assert_eq!(count_passkeys(true, Some(format!("[{PASSKEY}]").into_bytes())), Some(1));
}

#[test]
fn keys_have_one_size() {
    match load_or_create_key(Some(vec![1; 32]), "/k") {
        KeyPlan::Use(k) => assert_eq!(k, vec![1; 32]),
        other => panic!("{other:?}"),
    }
    match load_or_create_key(Some(vec![1; 31]), "/k") {
        KeyPlan::Generate(w) => assert_eq!(
            w.as_deref(),
            Some("warning: /k has unexpected size; regenerating")
        ),
        other => panic!("{other:?}"),
    }
    assert!(matches!(load_or_create_key(None, "/k"), KeyPlan::Generate(None)));
}

#[test]
fn keys_are_kept_once_they_are_written() {
    assert_eq!((KEY_LEN, KEY_PERMISSIONS), (32, 0o600));
    assert_eq!(key_generated("/k"), "generated new signing key at /k\n");
    let made: Vec<u8> = (0u8..32).collect();
    assert!(matches!(load_or_create_key(None, "/k"), KeyPlan::Generate(_)));
    for _ in 0..2 {
        match load_or_create_key(Some(made.clone()), "/k") {
            KeyPlan::Use(k) => assert_eq!(k, made),
            other => panic!("{other:?}"),
        }
    }
}
