use latch::cmd::config::Init;
use latch::cmd::service::{Action, Found};
use latch::config::{Env, Mode};
use latch::lifecycle::{
    default_state_dir, init, purge_actions, render_config, render_system_unit, render_unit,
    render_user_unit, start, status, uninstall, written, Leftovers, Purge,
};

fn env() -> Env {
    Env {
        home: Some("/home/me".to_string()),
        xdg_config_home: None,
        xdg_data_home: None,
        xdg_state_home: None,
        latch_config: None,
        latch_hostname: None,
        latch_origin: None,
        latch_cookie_domain: None,
        latch_listen: None,
        latch_data_dir: None,
    }
}

#[test]
fn render_config_has_required_field() {
    let s = render_config("a.b.com", "https://a.b.com", "b.com", "/tmp/latch");
    assert!(s.contains("rp_id = \"a.b.com\""));
    assert!(s.contains("# rp_origin"));
    assert!(s.contains("# state_dir     = \"/tmp/latch\""));
}

#[test]
fn lifecycle_user_unit_has_no_privileged_directives() {
    let u = render_user_unit(
        "/usr/local/bin/latch",
        "/home/me/.config/latch/config.toml",
        "/home/me/.local/state/latch",
    );
    assert!(!u.contains("User="));
    assert!(!u.contains("Group="));
    assert!(!u.contains("ProtectHome="));
    assert!(!u.contains("ProtectSystem="));
    // These implicitly drop caps and fail in --user mode.
    assert!(!u.contains("ProtectKernel"));
    assert!(!u.contains("ProtectClock"));
    assert!(!u.contains("ProtectControlGroups"));
    assert!(!u.contains("ProtectHostname"));
    assert!(!u.contains("PrivateDevices"));
    assert!(u.contains("NoNewPrivileges=true"));
    assert!(u.contains("WantedBy=default.target"));
}

#[test]
fn lifecycle_system_unit_keeps_protections() {
    let u = render_system_unit("/usr/local/bin/latch", "/etc/latch/config.toml", "/var/lib/latch");
    assert!(u.contains("User=latch"));
    assert!(u.contains("ProtectHome=true"));
    assert!(u.contains("ProtectSystem=strict"));
    assert!(u.contains("WantedBy=multi-user.target"));
}

#[test]
fn units_invoke_run() {
    assert!(render_unit(Mode::User, "/b", "/c", "/d").contains("\nExecStart=/b run --config /c\n"));
    assert!(render_unit(Mode::System, "/b", "/c", "/d").contains("\nReadWritePaths=/d\n"));
}

#[test]
fn state_directories() {
    assert_eq!(default_state_dir(Mode::System, &env()), "/var/lib/latch");
    assert_eq!(default_state_dir(Mode::User, &env()), "/home/me/.local/state/latch");
}

#[test]
fn init_steps() {
    let at = |h: Option<&str>, print, yes| init(h, None, print, yes, Mode::User, &env());
    assert!(matches!(at(None, false, false), Ok(Init::Ask { .. })));
    assert_eq!(at(Some(" "), false, true).err().unwrap(), "rp_id is required");
    assert_eq!(at(Some("x.example.com"), false, true).err().unwrap(), "rp_id can't be a placeholder");
    assert!(matches!(at(Some("a.b.org"), true, false), Ok(Init::Print { .. })));
    assert!(matches!(at(Some("a.b.org"), false, true), Ok(Init::Write { .. })));
    match at(Some("a.b.org"), false, false).unwrap() {
        Init::Confirm { summary, question, target, content } => {
            assert_eq!(
                summary,
                "\n  mode          = user\n  rp_id         = a.b.org\n  rp_origin     = https://a.b.org   (derived)\n  cookie_domain = b.org   (derived)\n  listen        = 127.0.0.1:8080   (default)\n  state_dir     = /home/me/.local/state/latch   (default)\n\n"
            );
            assert_eq!(target, "/home/me/.config/latch/config.toml");
            assert_eq!(question, format!("Write to {target}? [Y/n] "));
            assert_eq!(
                content,
                render_config("a.b.org", "https://a.b.org", "b.org", "/home/me/.local/state/latch")
            );
        }
        _ => panic!("no question"),
    }
    assert_eq!(written("/p", Mode::System), "Wrote /p\nNext:\n    sudo latch start\n");
}

#[test]
fn starting_runs() {
    let plan = start(Mode::User, "/c", "/s", &Ok("/b".into()), &env());
    assert!(matches!(&plan[0], Action::EnsureDataDir(d) if d == "/s"));
    assert!(matches!(&plan[1], Action::WriteUnit { unit, .. } if *unit == render_user_unit("/b", "/c", "/s")));
    assert_eq!(plan.len(), 5);
    let plan = start(Mode::System, "/c", "/s", &Err("x".into()), &env());
    assert!(matches!(&plan[2], Action::Fail(e) if e.msg == "can't locate own binary: x"));
    let none = Found { active: false, enabled: false, unit: false, config: false };
    assert!(status(Mode::System, &none, &env()).contains("(run `sudo latch start`)"));
}

#[test]
fn purging() {
    let left = Leftovers { state_dir: Some("/s".into()), config: true };
    assert!(purge_actions(false, Mode::System, &left, &env()).is_empty());
    let plan = purge_actions(true, Mode::System, &left, &env());
    assert!(matches!(&plan[0], Purge::Directory(d) if d == "/s"));
    assert!(matches!(&plan[1], Purge::File(p) if p == "/etc/latch/config.toml"));
    assert!(matches!(&plan[2], Purge::User(u) if u == "latch"));
    assert_eq!(
        uninstall(true, Mode::User, &left, Some("/b")),
        "removed user systemd unit\nremoved state dir: /s\nremoved config\n\nthe binary itself is at /b\nremove with:\n    rm /b\n"
    );
    assert_eq!(uninstall(false, Mode::System, &left, None), "removed system systemd unit\n");
}
