use latch::json::{bool_text, push_field, quote_all, to_array, to_object};

#[test]
fn objects_and_lists() {
    let mut fields = vec![];
    assert_eq!(to_object(&fields), "{}");
    push_field(&mut fields, "a", "1".to_string());
    assert_eq!(to_object(&fields), "{\"a\":1}");
    push_field(&mut fields, "b", bool_text(false).to_string());
    assert_eq!(to_object(&fields), "{\"a\":1,\"b\":false}");
    assert_eq!(to_array(&vec![]), "[]");
    assert_eq!(to_array(&vec!["1".to_string(), "null".to_string()]), "[1,null]");
    assert_eq!(bool_text(true), "true");
}

#[test]
fn strings_are_quoted() {
    let items = vec!["a\"\\".to_string(), "\n\u{1}\u{e9}".to_string()];
    assert_eq!(quote_all(&items), ["\"a\\\"\\\\\"", "\"\\n\\u0001\u{e9}\""]);
    let escapes = vec!["\u{8}\t\n\u{c}\r\u{1f}\u{7f}/".to_string()];
    assert_eq!(quote_all(&escapes), ["\"\\b\\t\\n\\f\\r\\u001f\u{7f}/\""]);
    for (text, json) in items.iter().zip(quote_all(&items)) {
        let back: String = serde_json::from_str(&json).unwrap();
        assert_eq!(&back, text);
    }
}
