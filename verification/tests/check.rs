use latch::cmd::check::{
    count_label, emit_human, emit_json, examine, insecure_origin, legacy_hint, run, Probe,
};
use latch::config::{Config, ConfigSource, Env, Mode};
use latch::output::{Flags, Terminal, EX_CONFIG};

fn env() -> Env {
    Env {
        home: Some("/home/me".to_string()),
        xdg_config_home: None,
        xdg_data_home: None,
        xdg_state_home: None,
        latch_config: None,
        latch_hostname: None,
        latch_origin: None,
        latch_cookie_domain: None,
        latch_listen: None,
        latch_data_dir: None,
    }
}

fn cfg(origin: &str) -> Config {
    Config {
        hostname: "latch.foo.org".into(),
        origin: origin.into(),
        cookie_domain: "foo.org".into(),
        listen: "127.0.0.1:0".into(),
        data_dir: "/d".into(),
        passkeys_path: "/d/passkeys.json".into(),
        key_path: "/d/key".into(),
        revoked_path: "/d/revoked.json".into(),
        source: ConfigSource::File("/c.toml".into()),
    }
}

fn fine() -> Probe {
    Probe { writable: true, vacant: false, legacy: false, passkeys: Some(1) }
}

fn person() -> (Flags, Terminal) {
    (
        Flags { no_color: true, json: false, quiet: false },
        Terminal { no_color_env: false, stdout_tty: true },
    )
}

fn program() -> (Flags, Terminal) {
    (Flags { no_color: false, json: true, quiet: false }, Terminal { no_color_env: false, stdout_tty: true })
}

#[test]
fn a_good_report() {
    let (f, t) = person();
    let r = run(&Ok((cfg("https://latch.foo.org"), fine())), &f, &t, Mode::User, &env());
    assert!(r.result.is_ok());
    assert_eq!(
        r.out,
        "ok config         /c.toml\n\
         ok hostname       latch.foo.org\n\
         ok origin         https://latch.foo.org\n\
         ok cookie_domain  foo.org\n\
         ok listen         127.0.0.1:0\n\
         ok data_dir       /d    writable\n\
         ok passkeys       /d/passkeys.json    1 passkey\n\
         ok\n"
    );
}

#[test]
fn a_poor_report() {
    let (f, t) = person();
    let probe = Probe { writable: false, vacant: false, legacy: false, passkeys: None };
    let r = run(&Ok((cfg("http://x"), probe)), &f, &t, Mode::User, &env());
    let e = r.result.unwrap_err();
    assert_eq!((e.msg.as_str(), e.code), ("3 problem(s)", EX_CONFIG));
    assert!(r.out.contains("FAIL origin         http://x    must start with https://\n"));
    assert!(r.out.contains("FAIL data_dir       /d    not writable\n"));
    assert!(r.out.contains("FAIL passkeys       /d/passkeys.json    not readable\n"));
    assert!(r.out.ends_with("not ok: 3 problem(s)\n"));
}

#[test]
fn reports_for_programs() {
    let (f, t) = program();
    let r = run(&Ok((cfg("https://latch.foo.org"), fine())), &f, &t, Mode::User, &env());
    assert_eq!(
        r.out,
        "{\"config\":\"/c.toml\",\"cookie_domain\":\"foo.org\",\"data_dir\":\"/d\",\"hostname\":\"latch.foo.org\",\"listen\":\"127.0.0.1:0\",\"ok\":true,\"origin\":\"https://latch.foo.org\",\"passkeys\":1,\"problems\":[]}\n"
    );
    let probe = Probe { writable: false, ..fine() };
    let r = run(&Ok((cfg("a\"b"), probe)), &f, &t, Mode::User, &env());
    let v: serde_json::Value = serde_json::from_str(&r.out).unwrap();
    assert_eq!(v["ok"], serde_json::Value::Bool(false));
    assert_eq!(v["problems"][0], "origin must start with https:// (got \"a\\\"b\")");
    assert_eq!(v["problems"][1], "data_dir not writable: /d");
    assert_eq!(v["passkeys"].as_u64(), Some(1));
}

#[test]
fn no_config() {
    let (f, t) = person();
    let r = run(&Err("why".into()), &f, &t, Mode::System, &env());
    assert_eq!(r.out, "FAIL no config\n    why\n");
    let e = r.result.unwrap_err();
    assert_eq!((e.msg.as_str(), e.code), ("no config found", EX_CONFIG));
    assert_eq!(e.hint.as_deref(), Some("run `latch config init` to create /etc/latch/config.toml"));
    let (f, t) = program();
    let r = run(&Err("w\"y".into()), &f, &t, Mode::System, &env());
    assert_eq!(r.out, "{\"ok\":false,\"problems\":[\"w\\\"y\"]}\n");
}

#[test]
fn old_data_is_pointed_out() {
    let old = "v0.5 data found at /home/me/.local/state/latch; run: mv /home/me/.local/state/latch /d";
    let hint = |current: &str, has_data, vacant, mode| legacy_hint(current, has_data, vacant, mode, &env());
    assert_eq!(hint("/d", true, true, Mode::User).as_deref(), Some(old));
    assert_eq!(hint("/d", true, false, Mode::User), None);
    assert_eq!(hint("/d", false, true, Mode::User), None);
    assert_eq!(hint("/d", true, true, Mode::System), None);
    assert_eq!(hint("/home/me/.local/state//latch/", true, true, Mode::User), None);
    let detail = |probe: Probe| {
        let (rows, problems) = examine(&cfg("https://x"), &probe, Mode::User, &env());
        assert_eq!(rows[5].ok, problems.is_empty());
        rows[5].detail.clone().unwrap()
    };
    assert_eq!(detail(Probe { legacy: true, vacant: true, ..fine() }), old);
    assert_eq!(detail(Probe { legacy: true, vacant: true, writable: false, ..fine() }), old);
    // Nothing is moved into a directory that holds data, writable or not.
    assert_eq!(detail(Probe { legacy: true, ..fine() }), "writable");
    assert_eq!(detail(Probe { legacy: true, writable: false, ..fine() }), "not writable");
    assert_eq!(detail(Probe { vacant: true, ..fine() }), "writable");
    assert_eq!(detail(Probe { vacant: true, writable: false, ..fine() }), "not writable");
}

#[test]
fn passkeys_are_counted() {
    assert_eq!(count_label(0), "0 passkeys (register one by visiting the page)");
    assert_eq!(count_label(1), "1 passkey");
    assert_eq!(count_label(12), "12 passkeys");
}

#[test]
fn problems_are_the_rows_that_are_not_good() {
    for writable in [false, true] {
        for passkeys in [None, Some(0)] {
            for origin in ["https://x", "x"] {
                let probe = Probe { writable, vacant: false, legacy: false, passkeys };
                let (rows, problems) = examine(&cfg(origin), &probe, Mode::User, &env());
                assert_eq!(rows.iter().filter(|r| !r.ok).count(), problems.len());
            }
        }
    }
}

#[test]
fn colour_marks_rows() {
    let (rows, problems) = examine(&cfg("https://x"), &fine(), Mode::User, &env());
    let flags = Flags::default();
    let out = emit_human(&rows, &problems, &flags, &person().1);
    assert!(out.starts_with("\x1b[32m\u{2713}\x1b[0m config"));
    assert!(emit_json(&cfg("https://x"), 3, &problems).contains("\"passkeys\":3,"));
    assert_eq!(insecure_origin("\"x\""), "origin must start with https:// (got \"x\")");
}
