use latch::cmd::config::{
    confirm, init, init_with_hostname, mkdir_error, path, render_config, show, show_field, write_error,
    written, Init, InitOpts,
};
use latch::config::{Config, ConfigSource, Env, Mode};
use latch::output::{EX_CANTCREAT, EX_CONFIG, EX_FAIL, EX_USAGE};

fn env() -> Env {
    Env {
        home: Some("/home/me".to_string()),
        xdg_config_home: None,
        xdg_data_home: None,
        xdg_state_home: None,
        latch_config: None,
        latch_hostname: None,
        latch_origin: None,
        latch_cookie_domain: None,
        latch_listen: None,
        latch_data_dir: None,
    }
}

fn cfg() -> Config {
    Config {
        hostname: "latch.foo.org".into(),
        origin: "https://latch.foo.org".into(),
        cookie_domain: "foo.org".into(),
        listen: "127.0.0.1:0".into(),
        data_dir: "/d".into(),
        passkeys_path: "/d/passkeys.json".into(),
        key_path: "/d/key".into(),
        revoked_path: "/d/revoked.json".into(),
        source: ConfigSource::File("/c.toml".into()),
    }
}

#[test]
fn render_config_defaults_are_commented() {
    let s = render_config(
        "a.b.com",
        None, "https://a.b.com",
        None, "b.com",
        None,
        None, "/tmp/latch",
    );
    assert!(s.contains("hostname = \"a.b.com\""));
    assert!(s.contains("# origin        = \"https://a.b.com\""));
    assert!(s.contains("# data_dir      = \"/tmp/latch\""));
}

#[test]
fn render_config_explicit_overrides_uncommented() {
    let s = render_config(
        "a.b.com",
        Some("https://other.b.com"), "https://a.b.com",
        None, "b.com",
        Some("0.0.0.0:8080"),
        None, "/tmp/latch",
    );
    assert!(s.contains("origin        = \"https://other.b.com\""));
    assert!(s.contains("listen        = \"0.0.0.0:8080\""));
    assert!(s.contains("# cookie_domain"));  // not overridden
}

#[test]
fn a_whole_config() {
    assert_eq!(
        render_config("a.b.org", None, "https://a.b.org", Some("b.org"), "x", None, None, "/d"),
        "# latch config\n# https://github.com/TerryTsai/latch\n\n\
         # REQUIRED. Hostname where latch is publicly reachable.\n\
         hostname = \"a.b.org\"\n\n\
         # Optional overrides. Defaults shown commented.\n\
         # origin        = \"https://a.b.org\"\n\
         cookie_domain = \"b.org\"\n\
         # listen        = \"127.0.0.1:8080\"\n\
         # data_dir      = \"/d\"\n"
    );
}

#[test]
fn configs_that_are_written_parse() {
    let opts = InitOpts { yes: true, listen: Some("0.0.0.0:1".into()), ..Default::default() };
    match init_with_hostname(&opts, " a.b.org\n", Mode::System, &env()).unwrap() {
        Init::Write { target, content } => {
            assert_eq!(target, "/etc/latch/config.toml");
            let v: toml::Table = content.parse().unwrap();
            assert_eq!(v["hostname"].as_str(), Some("a.b.org"));
            assert_eq!(v["listen"].as_str(), Some("0.0.0.0:1"));
            assert_eq!(v.len(), 2);
        }
        _ => panic!("no write"),
    }
}

#[test]
fn configs_say_what_they_were_made_of() {
    let dirs = [None, Some("/x = \u{e9}#"), Some("")];
    for origin in [None, Some("https://o.org")] {
        for domain in [None, Some("b.org")] {
            for listen in [None, Some("[::]:80")] {
                for dir in dirs {
                    let s = render_config("a.b.org", origin, "O", domain, "D", listen, dir, "/d");
                    let v: toml::Table = s.parse().unwrap();
                    let given = |k: &str| v.get(k).and_then(|v| v.as_str());
                    assert_eq!(given("hostname"), Some("a.b.org"));
                    assert_eq!(given("origin"), origin);
                    assert_eq!(given("cookie_domain"), domain);
                    assert_eq!(given("listen"), listen);
                    assert_eq!(given("data_dir"), dir);
                    assert_eq!(s.lines().count(), 11);
                }
            }
        }
    }
    // A text that does not stand for itself between quotes is not read back.
    let s = render_config("a\"b", None, "O", None, "D", None, None, "/d");
    assert!(s.contains("hostname = \"a\"b\"\n"));
    assert!(s.parse::<toml::Table>().is_err());
}

#[test]
fn init_asks_for_the_hostname() {
    let opts = InitOpts::default();
    match init(&opts, true, Mode::User, &env()).unwrap() {
        Init::Ask { question } => assert_eq!(question, "Hostname (e.g. latch.example.com): "),
        _ => panic!("no question"),
    }
    let e = init(&opts, false, Mode::User, &env()).err().unwrap();
    assert_eq!((e.msg.as_str(), e.code), ("hostname is required on non-TTY", EX_USAGE));
    assert_eq!(e.hint.as_deref(), Some("pass --hostname=<host> or run interactively"));
}

#[test]
fn init_refuses_hostnames() {
    let opts = |h: &str| InitOpts { hostname: Some(h.into()), yes: true, ..Default::default() };
    let e = init(&opts("  "), false, Mode::User, &env()).err().unwrap();
    assert_eq!((e.msg.as_str(), e.code), ("hostname is required", EX_USAGE));
    let e = init(&opts("latch.example.com"), false, Mode::User, &env()).err().unwrap();
    assert_eq!((e.msg.as_str(), e.code), ("hostname can't be a placeholder", EX_USAGE));
}

#[test]
fn init_confirms() {
    let opts = InitOpts {
        hostname: Some("a.b.org".into()),
        origin: Some("https://o".into()),
        path: Some("/p".into()),
        ..Default::default()
    };
    match init(&opts, false, Mode::User, &env()).unwrap() {
        Init::Confirm { summary, question, target, .. } => {
            assert_eq!(
                summary,
                "\n  mode          = user\n  hostname      = a.b.org\n  origin        = https://o\n  cookie_domain = b.org   (default)\n  listen        = 127.0.0.1:8080   (default)\n  data_dir      = /home/me/.local/share/latch   (default)\n\n"
            );
            assert_eq!(question, "Write to /p? [Y/n] ");
            assert_eq!(target, "/p");
        }
        _ => panic!("no question"),
    }
    assert_eq!(show_field("x", None, "d"), "  x             = d   (default)\n");
}

#[test]
fn init_prints() {
    let opts = InitOpts {
        hostname: Some("a.b.org".into()),
        print: true,
        yes: true,
        ..Default::default()
    };
    match init(&opts, false, Mode::User, &env()).unwrap() {
        Init::Print { content } => assert!(content.contains("hostname = \"a.b.org\"\n")),
        _ => panic!("no text"),
    }
}

#[test]
fn answers_to_init() {
    for yes in ["", "\n", "y\n", " Y "] {
        assert!(confirm(yes).is_ok());
    }
    for no in ["n", "yes\n", "x"] {
        let e = confirm(no).unwrap_err();
        assert_eq!((e.msg.as_str(), e.code), ("aborted", EX_FAIL));
    }
}

#[test]
fn writing_and_failing_to() {
    assert_eq!(written("/p", Mode::User), "Wrote /p\nNext:\n    latch service start\n");
    assert_eq!(written("/p", Mode::System), "Wrote /p\nNext:\n    sudo latch service start\n");
    let e = mkdir_error("/x", "denied");
    assert_eq!((e.msg.as_str(), e.code), ("mkdir /x: denied", EX_CANTCREAT));
    let e = write_error("/x", "denied");
    assert_eq!((e.msg.as_str(), e.code), ("write /x: denied", EX_CANTCREAT));
}

#[test]
fn configs_are_shown() {
    let s = show(&Ok(cfg()), false, Mode::User, &env()).unwrap();
    assert_eq!(
        s,
        "config        = /c.toml\nhostname      = latch.foo.org\norigin        = https://latch.foo.org\ncookie_domain = foo.org\nlisten        = 127.0.0.1:0\ndata_dir      = /d\npasskeys_path = /d/passkeys.json\n"
    );
    let s = show(&Ok(cfg()), true, Mode::User, &env()).unwrap();
    let v: serde_json::Value = serde_json::from_str(&s).unwrap();
    assert_eq!(v["hostname"], "latch.foo.org");
    assert_eq!(v["passkeys_path"], "/d/passkeys.json");
    assert_eq!(v.as_object().unwrap().len(), 7);
    assert_eq!(format!("{v}\n"), s);
    let e = show(&Err("why".into()), true, Mode::System, &env()).unwrap_err();
    assert_eq!((e.msg.as_str(), e.code), ("why", EX_CONFIG));
    assert_eq!(
        e.hint.as_deref(),
        Some("run `latch config init` to create /etc/latch/config.toml, or set LATCH_HOSTNAME")
    );
}

#[test]
fn config_paths_are_printed() {
    let mut e = env();
    assert_eq!(path(&Ok("/c".into()), Mode::User, &e).unwrap(), "/c\n");
    let err = path(&Err("why".into()), Mode::User, &e).unwrap_err();
    assert_eq!((err.msg.as_str(), err.code), ("why", EX_CONFIG));
    e.latch_hostname = Some("h".into());
    assert_eq!(path(&Err("why".into()), Mode::User, &e).unwrap(), "(env)\n");
}
