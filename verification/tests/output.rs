use latch::output::{
    color_enabled, cross, json_mode, note, quiet, set_json, set_no_color, set_quiet, tick, Error,
    Flags, Terminal, EX_CANTCREAT, EX_CONFIG, EX_FAIL, EX_USAGE,
};

fn tty() -> Terminal {
    Terminal { no_color_env: false, stdout_tty: true }
}

#[test]
fn error_with_hint_carries_both() {
    let e = Error::config("bad").with_hint("try this");
    assert_eq!(e.msg, "bad");
    assert_eq!(e.hint.as_deref(), Some("try this"));
    assert_eq!(e.code, EX_CONFIG);
}

#[test]
fn from_string_is_generic_failure() {
    let e: Error = "boom".to_string().into();
    assert_eq!(e.code, EX_FAIL);
    let e: Error = "boom".into();
    assert_eq!((e.msg.as_str(), e.code), ("boom", EX_FAIL));
}

#[test]
fn no_color_flag_disables_color() {
    let mut flags = Flags::default();
    set_no_color(&mut flags, true);
    assert!(!color_enabled(&flags, &tty()));
    set_no_color(&mut flags, false);
    assert!(color_enabled(&flags, &tty()));
}

#[test]
fn any_switch_is_enough() {
    let flags = Flags::default();
    assert!(!color_enabled(&flags, &Terminal { no_color_env: true, stdout_tty: true }));
    assert!(!color_enabled(&flags, &Terminal { no_color_env: false, stdout_tty: false }));
}

#[test]
fn marks() {
    let plain = Flags { no_color: true, json: false, quiet: false };
    assert_eq!(tick(&plain, &tty()), "ok");
    assert_eq!(cross(&plain, &tty()), "FAIL");
    assert_eq!(tick(&Flags::default(), &tty()), "\x1b[32m\u{2713}\x1b[0m");
    assert_eq!(cross(&Flags::default(), &tty()), "\x1b[31m\u{2717}\x1b[0m");
}

#[test]
fn json_is_asked_for_or_piped() {
    let mut flags = Flags::default();
    assert!(!json_mode(&flags, &tty()));
    assert!(json_mode(&flags, &Terminal { no_color_env: false, stdout_tty: false }));
    set_json(&mut flags, true);
    assert!(json_mode(&flags, &tty()));
}

#[test]
fn notes_are_held_back() {
    let mut flags = Flags::default();
    assert_eq!(note(&flags, "hello").as_deref(), Some("hello\n"));
    set_quiet(&mut flags, true);
    assert!(quiet(&flags));
    assert_eq!(note(&flags, "hello"), None);
}

#[test]
fn errors_print_with_their_hint() {
    let e = Error::usage("no");
    assert_eq!((e.print().as_str(), e.code), ("error: no\n", EX_USAGE));
    let e = Error::cantcreat("no").with_hint("try");
    assert_eq!((e.print().as_str(), e.code), ("error: no\n  hint: try\n", EX_CANTCREAT));
    assert_eq!(e.display(), "no");
    assert_eq!(Error::fail("x").code, 1);
}
