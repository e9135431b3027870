use latch::cli::{
    classify, help_for, parse_init, print_help, print_version, run, Command, Consumed, Flag, Globals,
    Setting, HELP_CONFIG,
};
use latch::config::Env;
use latch::output::{Flags, EX_USAGE};

fn args(words: &[&str]) -> Vec<String> {
    words.iter().map(|w| w.to_string()).collect()
}

fn command(words: &[&str]) -> Command {
    run(&args(words), "0.6.0").1.unwrap()
}

fn failure(words: &[&str]) -> (String, Option<String>) {
    let e = run(&args(words), "0.6.0").1.unwrap_err();
    assert_eq!(e.code, EX_USAGE);
    (e.msg, e.hint)
}

fn words(consumed: Consumed) -> Vec<String> {
    match consumed {
        Consumed::Words(w) => w,
        Consumed::Version => panic!("version"),
    }
}

#[test]
fn flags_are_told_apart() {
    assert_eq!(classify("--"), Flag::End);
    assert_eq!(classify("-c"), Flag::Next(Setting::Config));
    assert_eq!(classify("--config=x"), Flag::Own(Setting::Config));
    assert_eq!(classify("--data-dir="), Flag::Own(Setting::DataDir));
    assert_eq!(classify("--listens"), Flag::Word);
    assert_eq!(classify(""), Flag::Word);
}

#[test]
fn global_flags_are_taken_out() {
    let mut g = Globals::default();
    let out = g
        .consume(&args(&["-q", "config", "--json", "-c", "/c", "show", "--listen=a", "--data-dir", "d"]))
        .unwrap();
    assert_eq!(words(out), ["config", "show"]);
    assert!(g.quiet && g.json && !g.verbose && !g.yes && !g.no_color);
    assert_eq!(g.config.as_deref(), Some("/c"));
    assert_eq!(g.listen.as_deref(), Some("a"));
    assert_eq!(g.data_dir.as_deref(), Some("d"));
    let mut g = Globals::default();
    g.consume(&args(&["-v", "-y", "--no-color", "--config=", "--listen", "b"])).unwrap();
    assert!(g.verbose && g.yes && g.no_color);
    assert_eq!(g.config.as_deref(), Some(""));
    assert_eq!(g.listen.as_deref(), Some("b"));
}

#[test]
fn dashes_end_flags() {
    let mut g = Globals::default();
    let out = g.consume(&args(&["a", "--", "--json", "--", "-V"])).unwrap();
    assert_eq!(words(out), ["a", "--json", "--", "-V"]);
    assert!(!g.json);
}

#[test]
fn help_becomes_the_first_word() {
    let mut g = Globals::default();
    let out = g.consume(&args(&["config", "-h", "--json"])).unwrap();
    assert_eq!(words(out), ["help", "config", "--json"]);
    assert!(!g.json);
}

#[test]
fn flags_can_stand_anywhere() {
    for line in [["-y", "passkeys", "reset"], ["passkeys", "-y", "reset"], ["passkeys", "reset", "-y"]] {
        let (g, c) = run(&args(&line), "v");
        assert!(g.yes);
        assert!(matches!(c, Ok(Command::PasskeysReset)));
    }
}

#[test]
fn values_must_follow() {
    assert_eq!(failure(&["-c"]).0, "--config requires a path");
    assert_eq!(failure(&["serve", "--listen"]).0, "--listen requires an addr");
    assert_eq!(failure(&["--data-dir"]).0, "--data-dir requires a path");
}

#[test]
fn globals_reach_output_and_environment() {
    let mut flags = Flags::default();
    let mut env = Env {
        home: None,
        xdg_config_home: None,
        xdg_data_home: None,
        xdg_state_home: None,
        latch_config: Some("/c".into()),
        latch_hostname: None,
        latch_origin: None,
        latch_cookie_domain: None,
        latch_listen: Some("old".into()),
        latch_data_dir: Some("kept".into()),
    };
    let mut g = Globals::default();
    g.consume(&args(&["--json", "--no-color", "--listen=new"])).unwrap();
    g.apply(&mut flags, &mut env);
    assert!(flags.json && flags.no_color && !flags.quiet);
    assert_eq!(env.latch_listen.as_deref(), Some("new"));
    assert_eq!(env.latch_data_dir.as_deref(), Some("kept"));
    assert_eq!(env.latch_config.as_deref(), Some("/c"));
}

#[test]
fn commands_are_found() {
    assert!(matches!(command(&["serve"]), Command::Serve));
    assert!(matches!(command(&["check"]), Command::Check));
    assert!(matches!(command(&["config", "show"]), Command::ConfigShow));
    assert!(matches!(command(&["config", "path"]), Command::ConfigPath));
    assert!(matches!(command(&["passkeys", "list"]), Command::PasskeysList));
    assert!(matches!(command(&["passkeys", "reset"]), Command::PasskeysReset));
    assert!(matches!(command(&["service", "start"]), Command::ServiceStart));
    assert!(matches!(command(&["service", "stop"]), Command::ServiceStop));
    assert!(matches!(command(&["service", "restart"]), Command::ServiceRestart));
    assert!(matches!(command(&["service", "status"]), Command::ServiceStatus));
    assert!(matches!(command(&["service", "uninstall"]), Command::ServiceUninstall));
    assert!(matches!(command(&["update"]), Command::Update));
}

#[test]
fn texts_are_printed() {
    let print = |words: &[&str]| match command(words) {
        Command::Print(s) => s,
        other => panic!("{other:?}"),
    };
    assert_eq!(print(&["version"]), "latch 0.6.0\n");
    assert_eq!(print(&["-V"]), print_version("0.6.0"));
    assert_eq!(print(&[]), print_help("0.6.0"));
    assert_eq!(print(&["help"]), print_help("0.6.0"));
    assert_eq!(print(&["help", "config"]), format!("{HELP_CONFIG}\n"));
    for c in ["serve", "check", "config", "passkeys", "service", "update"] {
        assert!(print(&[c, "--help"]).starts_with(&format!("latch {c} \u{2014} ")));
    }
    let help = print_help("1");
    assert!(help.starts_with("latch 1 \u{2014} single-user passkey auth\n\nUSAGE:\n"));
    assert!(help.ends_with("# wipe credentials\n"));
}

#[test]
fn command_lines_that_are_wrong() {
    assert_eq!(
        failure(&["nope"]),
        ("unknown command `nope`".into(), Some("run `latch help` to list commands".into()))
    );
    assert_eq!(
        failure(&["config", "nope"]),
        (
            "unknown config subcommand `nope`".into(),
            Some("run `latch help config` for the list".into())
        )
    );
    assert_eq!(failure(&["passkeys", "x"]).0, "unknown passkeys subcommand `x`");
    assert_eq!(failure(&["service", "x"]).0, "unknown service subcommand `x`");
    assert_eq!(failure(&["config"]).0, "missing subcommand: config init|show|path");
    assert_eq!(failure(&["passkeys"]).0, "missing subcommand: passkeys list|reset");
    assert_eq!(
        failure(&["service"]).0,
        "missing subcommand: service start|stop|restart|status|uninstall"
    );
    assert_eq!(failure(&["serve", "x", "y"]).0, "serve: takes no arguments (got `x`)");
    assert_eq!(failure(&["config", "show", "x"]).0, "config show: takes no arguments (got `x`)");
    assert_eq!(failure(&["help", "version"]).0, "unknown command `version`");
    assert!(help_for(&args(&["help", "x"]), "v").is_err());
}

#[test]
fn init_options() {
    let g = run(&args(&["-y", "--listen=g", "--data-dir=gd"]), "v").0;
    let words = args(&["config", "init", "--hostname=a.b.org", "--print", "--listen=l", "--path", "/p"]);
    let o = parse_init(&words, 2, &g).unwrap();
    assert_eq!(o.hostname.as_deref(), Some("a.b.org"));
    assert_eq!(o.listen.as_deref(), Some("l"));
    assert_eq!(o.data_dir.as_deref(), Some("gd"));
    assert_eq!(o.path.as_deref(), Some("/p"));
    assert!(o.print && o.yes);
    assert_eq!(o.origin, None);
}

#[test]
fn init_takes_both_forms_of_a_value() {
    for line in [
        vec!["config", "init", "--hostname", "a.b.org", "--origin", "o", "--cookie-domain", "c", "--yes"],
        vec!["config", "init", "--hostname=a.b.org", "--origin=o", "--cookie-domain=c", "--yes"],
    ] {
        match command(&line) {
            Command::ConfigInit(o) => {
                assert_eq!(o.hostname.as_deref(), Some("a.b.org"));
                assert_eq!(o.origin.as_deref(), Some("o"));
                assert_eq!(o.cookie_domain.as_deref(), Some("c"));
                assert!(o.yes);
            }
            other => panic!("{other:?}"),
        }
    }
    assert_eq!(
        failure(&["config", "init", "--hostname"]).0,
        "config init: --hostname requires a value"
    );
    assert_eq!(failure(&["config", "init", "--x"]).0, "config init: unknown flag `--x`");
}
