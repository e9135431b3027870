use latch::config::{
    default_config_path, default_data_dir, derive_cookie_domain, find_config, join,
    legacy_user_data_dir, next_or_root, same_path, Config, ConfigFile, ConfigSource, Env, Found,
    Mode, Present, DEFAULT_LISTEN,
};

fn env() -> Env {
    Env {
        home: Some("/home/me".to_string()),
        xdg_config_home: None,
        xdg_data_home: None,
        xdg_state_home: None,
        latch_config: None,
        latch_hostname: None,
        latch_origin: None,
        latch_cookie_domain: None,
        latch_listen: None,
        latch_data_dir: None,
    }
}

fn cfg() -> Config {
    Config {
        hostname: "latch.example.org".into(),
        origin: "https://latch.example.org".into(),
        cookie_domain: "example.org".into(),
        listen: "127.0.0.1:0".into(),
        data_dir: "/tmp/test-latch".into(),
        passkeys_path: "/tmp/test-latch/passkeys.json".into(),
        key_path: "/tmp/test-latch/key".into(),
        revoked_path: "/tmp/test-latch/revoked.json".into(),
        source: ConfigSource::File("/tmp/test-latch/config.toml".into()),
    }
}

fn absent() -> Present {
    Present { explicit: false, env: false, local: false, default: false }
}

#[test]
fn derives_cookie_domain_from_subdomain() {
    assert_eq!(derive_cookie_domain("latch.example.com"), "example.com");
    assert_eq!(derive_cookie_domain("auth.foo.bar.dev"), "foo.bar.dev");
}

#[test]
fn derives_cookie_domain_for_apex_and_bare() {
    // Apex and bare hostnames scope the cookie to themselves.
    assert_eq!(derive_cookie_domain("example.com"), "example.com");
    assert_eq!(derive_cookie_domain("localhost"), "localhost");
}

#[test]
fn derives_cookie_domain_at_the_edges() {
    assert_eq!(derive_cookie_domain(""), "");
    assert_eq!(derive_cookie_domain("."), ".");
    assert_eq!(derive_cookie_domain(".a.b"), "a.b");
    assert_eq!(derive_cookie_domain("a.b."), "b.");
}

#[test]
fn validate_next_paths() {
    let c = cfg();
    assert_eq!(c.validate_next("/foo"), "/foo");
    assert_eq!(c.validate_next("/"), "/");
}

#[test]
fn validate_next_rejects() {
    let c = cfg();
    assert_eq!(c.validate_next("//evil.com"), "/");
    assert_eq!(c.validate_next("https://evil.com"), "/");
    assert_eq!(c.validate_next("http://example.org/"), "/");
}

#[test]
fn validate_next_accepts() {
    let c = cfg();
    assert_eq!(c.validate_next("https://app.example.org/dash"), "https://app.example.org/dash");
    assert_eq!(c.validate_next("https://example.org/"), "https://example.org/");
}

#[test]
fn validate_next_wants_whole_labels() {
    let c = cfg();
    assert_eq!(c.validate_next("https://notexample.org/"), "/");
    assert_eq!(c.validate_next("https://example.org.evil.com/"), "/");
    assert_eq!(c.validate_next(""), "/");
    assert_eq!(c.validate_next("foo"), "/");
    assert_eq!(c.validate_next("mailto:me@example.org"), "/");
}

#[test]
fn validate_next_reads_the_host_of_the_url() {
    // The parser lowers the host and drops the user; the text is kept.
    let c = cfg();
    assert_eq!(c.validate_next("https://APP.Example.ORG/"), "https://APP.Example.ORG/");
    assert_eq!(c.validate_next("https://example.org@evil.com/"), "/");
}

#[test]
fn redirects_follow_the_parsed_parts() {
    let part = |s: &str, h: Option<&str>| Some((s.to_string(), h.map(String::from)));
    assert_eq!(next_or_root("x", "b.c", part("https", Some("a.b.c"))), "x");
    assert_eq!(next_or_root("x", "b.c", part("https", Some("b.c"))), "x");
    assert_eq!(next_or_root("x", "b.c", part("http", Some("b.c"))), "/");
    assert_eq!(next_or_root("x", "b.c", part("https", None)), "/");
    assert_eq!(next_or_root("x", "b.c", None), "/");
    assert_eq!(next_or_root("/x", "b.c", None), "/x");
    assert_eq!(next_or_root("//x", "b.c", None), "/");
}

#[test]
fn redirects_settle() {
    let c = cfg();
    for next in ["/foo", "//evil.com", "https://app.example.org/dash", "nonsense"] {
        let to = c.validate_next(next);
        assert_eq!(c.validate_next(&to), to);
    }
}

#[test]
fn default_paths_differ_by_mode() {
    let e = env();
    assert_eq!(default_config_path(Mode::System, &e), "/etc/latch/config.toml");
    assert!(default_config_path(Mode::User, &e).ends_with("latch/config.toml"));
    assert_eq!(default_data_dir(Mode::System, &e), "/var/lib/latch");
    // User-mode default lives under XDG_DATA_HOME (~/.local/share/latch).
    let user_default = default_data_dir(Mode::User, &e);
    assert!(user_default.ends_with("latch"));
    let parent = std::path::Path::new(&user_default).parent().unwrap().to_string_lossy().to_string();
    assert!(
        parent.ends_with(".local/share") || parent.ends_with("share"),
        "expected XDG_DATA_HOME path, got {parent}"
    );
}

#[test]
fn default_paths_follow_the_environment() {
    let mut e = env();
    assert_eq!(default_config_path(Mode::User, &e), "/home/me/.config/latch/config.toml");
    assert_eq!(default_data_dir(Mode::User, &e), "/home/me/.local/share/latch");
    assert_eq!(legacy_user_data_dir(&e), "/home/me/.local/state/latch");
    e.xdg_config_home = Some("/c".into());
    e.xdg_data_home = Some("relative".into());
    e.xdg_state_home = Some("/s/".into());
    assert_eq!(default_config_path(Mode::User, &e), "/c/latch/config.toml");
    assert_eq!(default_data_dir(Mode::User, &e), "/home/me/.local/share/latch");
    assert_eq!(legacy_user_data_dir(&e), "/s/latch");
    e.home = None;
    assert_eq!(default_data_dir(Mode::User, &e), "/.local/share/latch");
}

#[test]
fn joining_agrees_with_std() {
    for base in ["", "/", "/a", "/a/", "a/b"] {
        for rel in ["x", "x/y", "/x", ""] {
            let want = std::path::Path::new(base).join(rel);
            assert_eq!(join(base, rel), want.to_str().unwrap());
        }
    }
}

#[test]
fn path_equality_agrees_with_std() {
    let paths = [
        "", ".", "./", "/", "//", "a", "./a", "a/", "a//b", "a/b", "a/./b", "a/../b", "/a/b", "/a/b/",
        "/./a/b", "..", "/a", ".//a",
    ];
    for a in paths {
        for b in paths {
            let want = std::path::Path::new(a) == std::path::Path::new(b);
            assert_eq!(same_path(a, b), want, "{a} {b}");
        }
    }
}

#[test]
fn modes_follow_the_user() {
    assert_eq!(Mode::detect(0), Mode::System);
    assert_eq!(Mode::detect(1000), Mode::User);
    assert_eq!(Mode::System.label(), "system");
    assert_eq!(Mode::User.label(), "user");
}

#[test]
fn merge_replaces_present_fields_only() {
    let mut a = ConfigFile {
        hostname: Some("a.com".into()),
        listen: Some("127.0.0.1:1".into()),
        ..Default::default()
    };
    let b = ConfigFile {
        hostname: Some("b.com".into()),
        data_dir: Some("/x".into()),
        ..Default::default()
    };
    a.merge(b);
    assert_eq!(a.hostname.as_deref(), Some("b.com"));
    assert_eq!(a.listen.as_deref(), Some("127.0.0.1:1")); // unchanged
    assert_eq!(a.data_dir.as_deref(), Some("/x"));
}

#[test]
fn empty_layers_change_nothing() {
    let mut a = ConfigFile { origin: Some("https://o".into()), ..Default::default() };
    a.merge(ConfigFile::default());
    assert_eq!(a.origin.as_deref(), Some("https://o"));
    assert_eq!(a.hostname, None);
}

#[test]
fn resolve_requires_hostname() {
    let cf = ConfigFile::default();
    assert!(Config::resolve(cf, ConfigSource::Env, Mode::System, &env()).is_err());
}

#[test]
fn resolve_refuses_placeholders() {
    let cf = ConfigFile { hostname: Some("latch.example.com".into()), ..Default::default() };
    assert_eq!(
        Config::resolve(cf, ConfigSource::Env, Mode::System, &env()).unwrap_err(),
        "hostname still has placeholder; edit your config or env"
    );
    assert_eq!(
        Config::resolve(ConfigFile::default(), ConfigSource::Env, Mode::User, &env()).unwrap_err(),
        "hostname is required (set in config or via LATCH_HOSTNAME)"
    );
}

#[test]
fn resolve_synthesizes_from_minimum() {
    let cf = ConfigFile { hostname: Some("latch.foo.org".into()), ..Default::default() };
    let c = Config::resolve(cf, ConfigSource::Env, Mode::System, &env()).unwrap();
    assert_eq!(c.origin, "https://latch.foo.org");
    assert_eq!(c.cookie_domain, "foo.org");
    assert_eq!(c.listen, DEFAULT_LISTEN);
}

#[test]
fn passkeys_path_is_under_data_dir() {
    let cf = ConfigFile {
        hostname: Some("latch.foo.org".into()),
        data_dir: Some("/var/lib/latch".into()),
        ..Default::default()
    };
    let c = Config::resolve(cf, ConfigSource::Env, Mode::System, &env()).unwrap();
    assert_eq!(c.passkeys_path, "/var/lib/latch/passkeys.json");
    assert_eq!(c.key_path, "/var/lib/latch/key");
    assert_eq!(c.revoked_path, "/var/lib/latch/revoked.json");
}

#[test]
fn the_environment_overrules_the_file() {
    let mut e = env();
    e.latch_hostname = Some("env.foo.org".into());
    e.latch_listen = Some("0.0.0.0:1".into());
    let file = ConfigFile {
        hostname: Some("file.foo.org".into()),
        origin: Some("https://file".into()),
        ..Default::default()
    };
    let found = Found::Parsed { path: "/c.toml".into(), file };
    let c = Config::load(found, Mode::User, &e).unwrap();
    assert_eq!(c.hostname, "env.foo.org");
    assert_eq!(c.origin, "https://file");
    assert_eq!(c.listen, "0.0.0.0:1");
    assert_eq!(c.data_dir, "/home/me/.local/share/latch");
    assert_eq!(c.source.display(), "/c.toml");
}

#[test]
fn the_environment_is_enough() {
    let mut e = env();
    let missing = || Found::Missing("why".to_string());
    assert_eq!(Config::load(missing(), Mode::User, &e).unwrap_err(), "why");
    e.latch_hostname = Some("env.foo.org".into());
    let c = Config::load(missing(), Mode::User, &e).unwrap();
    assert_eq!(c.hostname, "env.foo.org");
    assert_eq!(c.source.display(), "(env)");
}

#[test]
fn files_that_cannot_be_used_are_named() {
    let e = env();
    let unreadable = Found::Unreadable { path: "/c".into(), error: "denied".into() };
    assert_eq!(Config::load(unreadable, Mode::User, &e).unwrap_err(), "read /c: denied");
    let malformed = Found::Malformed { path: "/c".into(), error: "line 1".into() };
    assert_eq!(Config::load(malformed, Mode::User, &e).unwrap_err(), "parse /c: line 1");
}

#[test]
fn config_files_are_found_in_order() {
    let mut e = env();
    e.latch_config = Some("/env.toml".into());
    let all = Present { explicit: true, env: true, local: true, default: true };
    assert_eq!(find_config(Some("/x"), Mode::System, &e, &all).unwrap(), "/x");
    assert_eq!(
        find_config(Some("/x"), Mode::System, &e, &Present { explicit: false, ..all }).unwrap_err(),
        "config not found: /x"
    );
    let all = Present { explicit: false, env: true, local: true, default: true };
    assert_eq!(find_config(None, Mode::System, &e, &all).unwrap(), "/env.toml");
    let local = Present { local: true, default: true, ..absent() };
    assert_eq!(find_config(None, Mode::System, &e, &local).unwrap(), "./latch.toml");
    let default = Present { default: true, ..absent() };
    assert_eq!(find_config(None, Mode::System, &e, &default).unwrap(), "/etc/latch/config.toml");
    assert_eq!(
        find_config(None, Mode::System, &e, &absent()).unwrap_err(),
        "no config found. Run `latch config init` to create /etc/latch/config.toml, or set LATCH_HOSTNAME in env"
    );
}

#[test]
fn the_banner_names_the_settings() {
    assert_eq!(
        cfg().print("0.6.0"),
        "latch 0.6.0 on 127.0.0.1:0\n  config        = /tmp/test-latch/config.toml\n  hostname      = latch.example.org\n  origin        = https://latch.example.org\n  cookie_domain = example.org\n  data_dir      = /tmp/test-latch\n"
    );
}
