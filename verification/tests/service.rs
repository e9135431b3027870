use latch::cmd::service::{
    chown_args, getent_args, is_unit_active, journalctl_cmd, render_system_unit, render_unit,
    render_user_unit, require_success, restart, start, started, status, stop, systemctl, systemctl_args, uninstall,
    uninstall_actions, unit_path, user_created, useradd_args, write_unit, Action, Exit, Found, Ran, Verb,
    DATA_DIR_PERMISSIONS,
};
use latch::config::{Config, ConfigSource, Env, Mode};
use latch::output::{EX_CONFIG, EX_FAIL};

fn env() -> Env {
    Env {
        home: Some("/home/me".to_string()),
        xdg_config_home: None,
        xdg_data_home: None,
        xdg_state_home: None,
        latch_config: None,
        latch_hostname: None,
        latch_origin: None,
        latch_cookie_domain: None,
        latch_listen: None,
        latch_data_dir: None,
    }
}

fn cfg(source: ConfigSource) -> Config {
    Config {
        hostname: "latch.foo.org".into(),
        origin: "https://latch.foo.org".into(),
        cookie_domain: "foo.org".into(),
        listen: "127.0.0.1:0".into(),
        data_dir: "/d".into(),
        passkeys_path: "/d/passkeys.json".into(),
        key_path: "/d/key".into(),
        revoked_path: "/d/revoked.json".into(),
        source,
    }
}

#[test]
fn service_user_unit_has_no_privileged_directives() {
    let u = render_user_unit(
        "/usr/local/bin/latch",
        "/home/me/.config/latch/config.toml",
        "/home/me/.local/share/latch",
    );
    assert!(!u.contains("User="));
    assert!(!u.contains("Group="));
    assert!(!u.contains("ProtectHome="));
    assert!(!u.contains("ProtectSystem="));
    assert!(!u.contains("ProtectKernel"));
    assert!(!u.contains("ProtectClock"));
    assert!(!u.contains("ProtectControlGroups"));
    assert!(!u.contains("ProtectHostname"));
    assert!(!u.contains("PrivateDevices"));
    assert!(u.contains("NoNewPrivileges=true"));
    assert!(u.contains("WantedBy=default.target"));
}

#[test]
fn service_system_unit_keeps_protections() {
    let u = render_system_unit("/usr/local/bin/latch", "/etc/latch/config.toml", "/var/lib/latch");
    assert!(u.contains("User=latch"));
    assert!(u.contains("ProtectHome=true"));
    assert!(u.contains("ProtectSystem=strict"));
    assert!(u.contains("WantedBy=multi-user.target"));
}

#[test]
fn units_invoke_serve_subcommand() {
    let s = render_system_unit("/usr/local/bin/latch", "/etc/latch/config.toml", "/var/lib/latch");
    assert!(s.contains("ExecStart=/usr/local/bin/latch serve --config"));
    let u = render_user_unit("/usr/local/bin/latch", "/c", "/d");
    assert!(u.contains("ExecStart=/usr/local/bin/latch serve --config"));
}

#[test]
fn units_follow_the_mode() {
    let u = render_unit(Mode::User, "/b", "/c", "/d");
    assert_eq!(
        u,
        "[Unit]\nDescription=latch \u{2014} single-user passkey-based auth\nAfter=network.target\n\n[Service]\nType=simple\nExecStart=/b serve --config /c\nWorkingDirectory=/d\nRestart=on-failure\nRestartSec=2\n\n# Hardening (user-mode safe)\nNoNewPrivileges=true\nLockPersonality=true\nRestrictRealtime=true\nRestrictNamespaces=true\nSystemCallArchitectures=native\nSystemCallFilter=@system-service\nSystemCallFilter=~@privileged @resources\nUMask=0077\n\n[Install]\nWantedBy=default.target\n"
    );
    let s = render_unit(Mode::System, "/b", "/c", "/d");
    assert!(s.contains("\nExecStart=/b serve --config /c\nWorkingDirectory=/d\nUser=latch\nGroup=latch\n"));
    assert!(s.contains("\nProtectSystem=strict\nReadWritePaths=/d\nProtectHome=true\n"));
    assert_eq!(unit_path(Mode::System, &env()), "/etc/systemd/system/latch.service");
    assert_eq!(unit_path(Mode::User, &env()), "/home/me/.config/systemd/user/latch.service");
}

#[test]
fn calls_of_systemctl() {
    assert_eq!(systemctl_args(Mode::System, Verb::DaemonReload), ["daemon-reload"]);
    assert_eq!(
        systemctl_args(Mode::User, Verb::EnableNow),
        ["--user", "enable", "--now", "latch.service"]
    );
    assert_eq!(systemctl_args(Mode::System, Verb::IsActive), ["is-active", "--quiet", "latch.service"]);
    assert_eq!(systemctl_args(Mode::User, Verb::IsEnabled)[1], "is-enabled");
    assert!(systemctl(Mode::User, Verb::Stop, &Exit::Success).is_ok());
    let msg = |m, v, e: Exit| {
        let e = systemctl(m, v, &e).unwrap_err();
        assert_eq!(e.code, EX_FAIL);
        e.msg
    };
    assert_eq!(
        msg(Mode::User, Verb::EnableNow, Exit::Code(5)),
        "systemctl --user enable --now latch.service failed (exit 5)"
    );
    assert_eq!(
        msg(Mode::System, Verb::Disable, Exit::NoCode),
        "systemctl disable latch.service failed (exit ?)"
    );
    assert_eq!(
        msg(Mode::System, Verb::Restart, Exit::Code(-1)),
        "systemctl restart latch.service failed (exit -1)"
    );
    assert_eq!(msg(Mode::System, Verb::Stop, Exit::NotRun("gone".into())), "run systemctl: gone");
    assert!(is_unit_active(&Exit::Success));
    assert!(!is_unit_active(&Exit::Code(3)));
    assert!(!is_unit_active(&Exit::NotRun("x".into())));
    assert_eq!(journalctl_cmd(Mode::User), "journalctl --user");
}

#[test]
fn starting_goes_in_order() {
    let plan = start(Mode::System, &cfg(ConfigSource::File("/c".into())), &Ok("/b".into()), &env());
    assert_eq!(plan.len(), 6);
    assert!(matches!(plan[0], Action::EnsureSystemUser));
    assert!(matches!(&plan[1], Action::EnsureDataDir(d) if d == "/d"));
    match &plan[2] {
        Action::WriteUnit { path, unit } => {
            assert_eq!(path, "/etc/systemd/system/latch.service");
            assert_eq!(unit, &render_system_unit("/b", "/c", "/d"));
        }
        other => panic!("{other:?}"),
    }
    assert!(matches!(plan[3], Action::Systemctl(Verb::DaemonReload)));
    assert!(matches!(plan[4], Action::Systemctl(Verb::EnableNow)));
    assert!(matches!(plan[5], Action::ExpectActive));
    let plan = start(Mode::User, &cfg(ConfigSource::File("/c".into())), &Ok("/b".into()), &env());
    assert!(matches!(&plan[0], Action::EnsureDataDir(_)));
}

#[test]
fn starting_needs_a_file_and_a_binary() {
    let plan = start(Mode::User, &cfg(ConfigSource::Env), &Ok("/b".into()), &env());
    assert_eq!(plan.len(), 2);
    match &plan[1] {
        Action::Fail(e) => {
            assert_eq!((e.msg.as_str(), e.code), ("latch service start needs a config file", EX_CONFIG));
            assert_eq!(
                e.hint.as_deref(),
                Some("run `latch config init` first, or use `latch serve` directly with env vars")
            );
        }
        other => panic!("{other:?}"),
    }
    let e = write_unit(Mode::User, &cfg(ConfigSource::File("/c".into())), &Err("x".into())).unwrap_err();
    assert_eq!((e.msg.as_str(), e.code), ("can't locate own binary: x", EX_FAIL));
}

#[test]
fn the_system_user() {
    assert_eq!(getent_args(), ["passwd", "latch"]);
    assert_eq!(
        useradd_args(&env()),
        ["--system", "--no-create-home", "--shell", "/usr/sbin/nologin", "--home-dir", "/var/lib/latch", "latch"]
    );
    assert_eq!(chown_args("/d"), ["latch:latch", "/d"]);
    assert!(require_success("useradd", &Ran::Success).is_ok());
    assert_eq!(require_success("useradd", &Ran::NotRun("x".into())).unwrap_err().msg, "useradd: x");
    let e = require_success("chown", &Ran::Failed("exit status: 1".into())).unwrap_err();
    assert_eq!((e.msg.as_str(), e.code), ("chown failed: exit status: 1", EX_FAIL));
    assert_eq!(user_created(), "created system user 'latch'\n");
    assert_eq!(DATA_DIR_PERMISSIONS, 0o700);
}

#[test]
fn what_start_says() {
    assert_eq!(
        started(Mode::System, true, Some("me")).unwrap(),
        "\nlatch is running (system mode).\n\nlogs:\n    journalctl -u latch -f\n"
    );
    assert_eq!(
        started(Mode::User, true, None).unwrap(),
        "\nlatch is running (user mode).\n\nlogs:\n    journalctl --user -u latch -f\n\nto survive logout/reboot without an active session, run once:\n    sudo loginctl enable-linger $USER\n"
    );
    assert!(started(Mode::User, true, Some("me")).unwrap().ends_with("enable-linger me\n"));
    let e = started(Mode::User, false, None).unwrap_err();
    assert_eq!(
        (e.msg.as_str(), e.code),
        ("started, but service is not active. Check: journalctl --user -u latch -n 50", EX_FAIL)
    );
}

#[test]
fn stopping_and_restarting() {
    assert_eq!(stop(Mode::User, &Exit::Success).unwrap(), "latch stopped.\n");
    assert_eq!(restart(Mode::User, &Exit::Success).unwrap(), "latch restarted.\n");
    assert_eq!(
        stop(Mode::System, &Exit::Code(1)).unwrap_err().msg,
        "systemctl stop latch.service failed (exit 1)"
    );
    assert!(restart(Mode::System, &Exit::NoCode).is_err());
}

#[test]
fn status_reports() {
    let found = Found { active: true, enabled: true, unit: true, config: true };
    assert_eq!(
        status(Mode::System, &found, &env()),
        "latch:  active  (enabled)\nmode:   system\nunit:   /etc/systemd/system/latch.service\nconfig: /etc/latch/config.toml\n"
    );
    let none = Found { active: false, enabled: false, unit: false, config: false };
    assert_eq!(
        status(Mode::User, &none, &env()),
        "latch:  inactive  (disabled)\nmode:   user\nunit:   not installed (run `latch service start`)\n"
    );
    assert!(status(Mode::System, &none, &env()).contains("(run `sudo latch service start`)"));
}

#[test]
fn uninstalling() {
    let plan = uninstall_actions(Mode::User, &env());
    assert!(matches!(plan[0], Action::TrySystemctl(Verb::Stop)));
    assert!(matches!(plan[1], Action::TrySystemctl(Verb::Disable)));
    assert!(matches!(&plan[2], Action::TryRemove(p) if p == "/home/me/.config/systemd/user/latch.service"));
    assert!(matches!(plan[3], Action::TrySystemctl(Verb::DaemonReload)));
    assert_eq!(
        uninstall(Mode::System, &Ok(cfg(ConfigSource::Env)), Some("/b"), &env()),
        "removed system systemd unit.\n\nto also remove your data:\n    sudo rm -rf /d\nto remove the config:\n    sudo rm /etc/latch/config.toml\nto remove the system user:\n    sudo userdel latch\nto remove the binary:\n    sudo rm /b\n"
    );
    assert_eq!(
        uninstall(Mode::User, &Err("x".into()), None, &env()),
        "removed user systemd unit.\n\nto also remove your data:\n    rm -rf /home/me/.local/share/latch\nto remove the config:\n    rm /home/me/.config/latch/config.toml\n"
    );
}
