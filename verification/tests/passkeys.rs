use latch::cmd::passkeys::{
    choose_aaguid, choose_id, confirm, deleted, dig, info_to_json, list_infos, nothing_to_delete,
    passkey_aaguid_from_json, passkey_cred_id_from_json, remove_error, reset, Info, Reset,
};
use latch::output::{EX_FAIL, EX_USAGE};
use serde_json::Value;

const NIL: &str = "00000000-0000-0000-0000-000000000000";

fn value(s: &str) -> Value {
    serde_json::from_str(s).unwrap()
}

#[test]
fn paths_are_dug() {
    let v = value(r#"{"a":{"b":"x"},"c":1}"#);
    let at = |p: &[&str]| {
        let path = p.iter().map(|s| s.to_string()).collect();
        dig(&v, &path).map(|w| w.to_string())
    };
    assert_eq!(at(&["a", "b"]).as_deref(), Some("\"x\""));
    assert_eq!(at(&["a"]).as_deref(), Some(r#"{"b":"x"}"#));
    assert_eq!(at(&[]).as_deref(), Some(r#"{"a":{"b":"x"},"c":1}"#));
    assert_eq!(at(&["a", "x"]), None);
    assert_eq!(at(&["c", "x"]), None);
}

#[test]
fn credential_ids() {
    let id = |s: &str| passkey_cred_id_from_json(&value(s));
    assert_eq!(id(r#"{"cred":{"cred_id":"1"},"cred_id":"2"}"#), "1");
    assert_eq!(id(r#"{"id":"3","cred_id":"2"}"#), "2");
    assert_eq!(id(r#"{"id":"3","cred_id":7}"#), "3");
    assert_eq!(id("null"), "?");
    assert_eq!(choose_id(&vec![None, Some("b".into()), Some("c".into())]), "b");
    assert_eq!(choose_id(&vec![Some("".into())]), "");
    assert_eq!(choose_id(&vec![None]), "?");
}

#[test]
fn aaguids() {
    let guid = |s: &str| passkey_aaguid_from_json(&value(s));
    assert_eq!(guid(r#"{"aaguid":"g"}"#).as_deref(), Some("g"));
    let both = format!(r#"{{"cred":{{"aaguid":"{NIL}"}},"aaguid":"g"}}"#);
    assert_eq!(guid(&both).as_deref(), Some("g"));
    assert_eq!(guid(r#"{"cred":{"aaguid":"h"},"aaguid":"g"}"#).as_deref(), Some("h"));
    assert_eq!(guid(&format!(r#"{{"aaguid":"{NIL}"}}"#)), None);
    assert_eq!(guid(r#"{"aaguid":""}"#), None);
    assert_eq!(guid("null"), None);
    let found = vec![None, Some(NIL.into()), Some("".into()), Some("g".into())];
    assert_eq!(choose_aaguid(&found).as_deref(), Some("g"));
    assert_eq!(choose_aaguid(&vec![Some(NIL.into())]), None);
}

#[test]
fn passkeys_are_listed() {
    let keys = vec![
        Info { cred_id: "a\"".into(), aaguid: Some("g".into()) },
        Info { cred_id: "b".into(), aaguid: None },
    ];
    assert_eq!(
        list_infos(&keys, "/p", false),
        "2 passkey(s) at /p\n  [0] cred_id=a\"  aaguid=g\n  [1] cred_id=b\n"
    );
    assert_eq!(
        list_infos(&keys, "/p", true),
        "[{\"aaguid\":\"g\",\"cred_id\":\"a\\\"\"},{\"aaguid\":null,\"cred_id\":\"b\"}]\n"
    );
    assert_eq!(list_infos(&vec![], "/p", false), "0 passkeys at /p\n");
    assert_eq!(list_infos(&vec![], "/p", true), "[]\n");
    assert_eq!(info_to_json(&keys[1]), "{\"aaguid\":null,\"cred_id\":\"b\"}");
}

#[test]
fn resetting_takes_a_yes() {
    assert!(matches!(reset(2, "/p", true, false).unwrap(), Reset::Proceed));
    match reset(2, "/p", false, true).unwrap() {
        Reset::Ask(q) => assert_eq!(q, "This will delete 2 passkey(s) at /p. Continue? [y/N] "),
        Reset::Proceed => panic!("no question"),
    }
    let e = reset(0, "/p", false, false).unwrap_err();
    assert_eq!((e.msg.as_str(), e.code), ("would delete 0 passkey(s) at /p", EX_USAGE));
    assert_eq!(e.hint.as_deref(), Some("pass --yes to confirm on a non-TTY"));
    assert!(confirm("y\n").is_ok());
    assert!(confirm(" Y").is_ok());
    for no in ["", "\n", "n", "yes"] {
        let e = confirm(no).unwrap_err();
        assert_eq!((e.msg.as_str(), e.code), ("aborted", EX_FAIL));
    }
}

#[test]
fn what_reset_says() {
    assert_eq!(nothing_to_delete("/p"), "nothing to delete (/p doesn't exist)\n");
    assert_eq!(
        deleted("/p", 3),
        "deleted /p (3 passkey(s))\nthe next visit to the page will register a new passkey.\n"
    );
    let e = remove_error("/p", "denied");
    assert_eq!((e.msg.as_str(), e.code), ("remove /p: denied", EX_FAIL));
}
