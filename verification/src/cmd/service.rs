//! `latch service`: start, stop, restart, status, uninstall.
//!
//! Latch runs as a systemd unit, of the system for root and of the user for
//! anybody else; paths, units and the calls of systemctl follow the mode.
use vstd::prelude::*;

use crate::config::{Config, ConfigSource, Env, Mode};
use crate::output::Error;
use crate::{cmd, config, output, text};

verus! {

pub const UNIT_FILE: &'static str = "latch.service";

pub const SYSTEM_UNIT_PATH: &'static str = "/etc/systemd/system/latch.service";

pub const SYSTEM_USER: &'static str = "latch";

/// The permissions of the data directory: its owner's alone.
pub const DATA_DIR_PERMISSIONS: u32 = 0o700;

// --- calling systemctl ------------------------------------------------------

/// What systemctl is asked to do.
#[derive(Copy, Clone, Debug, PartialEq, Eq, Structural)]
pub enum Verb {
    DaemonReload,
    EnableNow,
    Stop,
    Restart,
    Disable,
    IsActive,
    IsEnabled,
}

/// How running a program ended.
#[derive(Debug)]
pub enum Exit {
    /// It could not be run, for the reason given.
    NotRun(String),
    Success,
    /// It failed with a code.
    Code(i32),
    /// It failed without one.
    NoCode,
}

/// The words for what systemctl is asked to do.
pub open spec fn verb_words(verb: Verb) -> Seq<Seq<char>> {
    match verb {
        Verb::DaemonReload => seq!["daemon-reload"@],
        Verb::EnableNow => seq!["enable"@, "--now"@, UNIT_FILE@],
        Verb::Stop => seq!["stop"@, UNIT_FILE@],
        Verb::Restart => seq!["restart"@, UNIT_FILE@],
        Verb::Disable => seq!["disable"@, UNIT_FILE@],
        Verb::IsActive => seq!["is-active"@, "--quiet"@, UNIT_FILE@],
        Verb::IsEnabled => seq!["is-enabled"@, "--quiet"@, UNIT_FILE@],
    }
}

/// The arguments of systemctl.
pub open spec fn systemctl_words(mode: Mode, verb: Verb) -> Seq<Seq<char>> {
    match mode {
        Mode::System => verb_words(verb),
        Mode::User => seq!["--user"@] + verb_words(verb),
    }
}

/// What a failed call of systemctl says.
pub open spec fn systemctl_failure(mode: Mode, verb: Verb, code: Seq<char>) -> Seq<char> {
    "systemctl "@ + text::joined(systemctl_words(mode, verb), " "@) + " failed (exit "@ + code
        + ")"@
}

/// What a call of systemctl comes to.
pub open spec fn systemctl_outcome(mode: Mode, verb: Verb, exit: Exit) -> Result<
    (),
    output::ErrorView,
> {
    match exit {
        Exit::Success => Ok(()),
        Exit::NotRun(e) => Err(output::plain_error("run systemctl: "@ + e@, output::EX_FAIL)),
        Exit::Code(c) => Err(
            output::plain_error(
                systemctl_failure(mode, verb, text::signed_text(c as int)),
                output::EX_FAIL,
            ),
        ),
        Exit::NoCode => Err(
            output::plain_error(systemctl_failure(mode, verb, "?"@), output::EX_FAIL),
        ),
    }
}

fn words(a: &str, b: Option<&str>, c: Option<&str>) -> (res: Vec<String>)
    ensures
        text::texts(res@) == seq![a@] + match b {
            Some(t) => seq![t@],
            None => Seq::empty(),
        } + match c {
            Some(t) => seq![t@],
            None => Seq::empty(),
        },
{
    let mut out: Vec<String> = Vec::new();
    out.push(a.to_owned());
    if let Some(t) = b {
        out.push(t.to_owned());
    }
    if let Some(t) = c {
        out.push(t.to_owned());
    }
    assert(text::texts(out@) =~= seq![a@] + match b {
        Some(t) => seq![t@],
        None => Seq::empty(),
    } + match c {
        Some(t) => seq![t@],
        None => Seq::empty(),
    });
    out
}

/// The arguments of systemctl.
pub fn systemctl_args(mode: Mode, verb: Verb) -> (res: Vec<String>)
    ensures
        text::texts(res@) == systemctl_words(mode, verb),
{
    let mut out = match verb {
        Verb::DaemonReload => words("daemon-reload", None, None),
        Verb::EnableNow => words("enable", Some("--now"), Some(UNIT_FILE)),
        Verb::Stop => words("stop", Some(UNIT_FILE), None),
        Verb::Restart => words("restart", Some(UNIT_FILE), None),
        Verb::Disable => words("disable", Some(UNIT_FILE), None),
        Verb::IsActive => words("is-active", Some("--quiet"), Some(UNIT_FILE)),
        Verb::IsEnabled => words("is-enabled", Some("--quiet"), Some(UNIT_FILE)),
    };
    assert(text::texts(out@) =~= verb_words(verb));
    match mode {
        Mode::System => {},
        Mode::User => {
            out.insert(0, "--user".to_owned());
            assert(text::texts(out@) =~= seq!["--user"@] + verb_words(verb));
        },
    }
    out
}

/// What a call of systemctl comes to.
pub fn systemctl(mode: Mode, verb: Verb, exit: &Exit) -> (res: Result<(), Error>)
    ensures
        cmd::check::unit_or_error(res) == systemctl_outcome(mode, verb, *exit),
{
    let code = match exit {
        Exit::Success => {
            return Ok(());
        },
        Exit::NotRun(e) => {
            return Err(Error::fail("run systemctl: ".to_owned().concat(e.as_str()).as_str()));
        },
        Exit::Code(c) => text::signed(*c),
        Exit::NoCode => "?".to_owned(),
    };
    let args = systemctl_args(mode, verb);
    Err(
        Error::fail(
            "systemctl ".to_owned().concat(text::join(&args, " ").as_str()).concat(
                " failed (exit ",
            ).concat(code.as_str()).concat(")").as_str(),
        ),
    )
}

/// Whether the unit is active, given how asking for it ended.
pub fn is_unit_active(exit: &Exit) -> (res: bool)
    ensures
        res == (exit is Success),
{
    matches!(exit, Exit::Success)
}

/// The program that shows the journal.
pub open spec fn journal_word(mode: Mode) -> Seq<char> {
    match mode {
        Mode::System => "journalctl"@,
        Mode::User => "journalctl --user"@,
    }
}

pub fn journalctl_cmd(mode: Mode) -> (res: &'static str)
    ensures
        res@ == journal_word(mode),
{
    match mode {
        Mode::System => "journalctl",
        Mode::User => "journalctl --user",
    }
}

/// Where the unit stands.
pub open spec fn unit_place(mode: Mode, env: Env) -> Seq<char> {
    match mode {
        Mode::System => SYSTEM_UNIT_PATH@,
        Mode::User => config::under(
            config::under(config::config_home_of(env), "systemd/user"@),
            UNIT_FILE@,
        ),
    }
}

pub fn unit_path(mode: Mode, env: &Env) -> (res: String)
    ensures
        res@ == unit_place(mode, *env),
{
    match mode {
        Mode::System => SYSTEM_UNIT_PATH.to_owned(),
        Mode::User => config::join(
            config::join(config::xdg_config_home(env).as_str(), "systemd/user").as_str(),
            UNIT_FILE,
        ),
    }
}

// --- units ------------------------------------------------------------------

/// A system unit, up to the binary.
pub const SYSTEM_HEAD: &'static str = "[Unit]
Description=latch — single-user passkey-based auth
After=network.target
Wants=network-online.target

[Service]
Type=simple
ExecStart=";

/// A system unit, from the user it runs as to the paths it may write.
pub const SYSTEM_MIDDLE: &'static str = "
User=latch
Group=latch
Restart=on-failure
RestartSec=2

# Hardening
NoNewPrivileges=true
ProtectSystem=strict
ReadWritePaths=";

/// A system unit, behind the paths it may write.
pub const SYSTEM_TAIL: &'static str = "
ProtectHome=true
PrivateTmp=true
PrivateDevices=true
ProtectKernelTunables=true
ProtectKernelModules=true
ProtectKernelLogs=true
ProtectControlGroups=true
ProtectClock=true
ProtectHostname=true
ProtectProc=invisible
ProcSubset=pid
RestrictNamespaces=true
RestrictRealtime=true
RestrictSUIDSGID=true
RestrictAddressFamilies=AF_UNIX AF_INET AF_INET6
LockPersonality=true
CapabilityBoundingSet=
AmbientCapabilities=
SystemCallArchitectures=native
SystemCallFilter=@system-service
SystemCallFilter=~@privileged @resources
UMask=0077

[Install]
WantedBy=multi-user.target
";

/// A user unit, up to the binary.
pub const USER_HEAD: &'static str = "[Unit]
Description=latch — single-user passkey-based auth
After=network.target

[Service]
Type=simple
ExecStart=";

/// A user unit, behind its directory. A user's systemd cannot drop
/// capabilities, so every directive that would is left out: what stands here
/// works by seccomp and process attributes alone.
pub const USER_TAIL: &'static str = "
Restart=on-failure
RestartSec=2

# Hardening (user-mode safe)
NoNewPrivileges=true
LockPersonality=true
RestrictRealtime=true
RestrictNamespaces=true
SystemCallArchitectures=native
SystemCallFilter=@system-service
SystemCallFilter=~@privileged @resources
UMask=0077

[Install]
WantedBy=default.target
";

/// The unit that runs `bin` with a command on a config and a data directory.
pub open spec fn unit_text(
    mode: Mode,
    bin: Seq<char>,
    command: Seq<char>,
    config: Seq<char>,
    dir: Seq<char>,
) -> Seq<char> {
    let exec = bin + " "@ + command + " --config "@ + config + "\nWorkingDirectory="@ + dir;
    match mode {
        Mode::System => SYSTEM_HEAD@ + exec + SYSTEM_MIDDLE@ + dir + SYSTEM_TAIL@,
        Mode::User => USER_HEAD@ + exec + USER_TAIL@,
    }
}

/// The unit that runs `bin` with a command on a config and a data directory.
pub fn unit(mode: Mode, bin: &str, command: &str, config: &str, dir: &str) -> (res: String)
    ensures
        res@ == unit_text(mode, bin@, command@, config@, dir@),
{
    let exec = bin.to_owned().concat(" ").concat(command).concat(" --config ").concat(
        config,
    ).concat("\nWorkingDirectory=").concat(dir);
    match mode {
        Mode::System => SYSTEM_HEAD.to_owned().concat(exec.as_str()).concat(SYSTEM_MIDDLE).concat(
            dir,
        ).concat(SYSTEM_TAIL),
        Mode::User => USER_HEAD.to_owned().concat(exec.as_str()).concat(USER_TAIL),
    }
}

/// The unit that serves.
pub fn render_unit(mode: Mode, bin: &str, config: &str, data_dir: &str) -> (res: String)
    ensures
        res@ == unit_text(mode, bin@, "serve"@, config@, data_dir@),
{
    match mode {
        Mode::System => render_system_unit(bin, config, data_dir),
        Mode::User => render_user_unit(bin, config, data_dir),
    }
}

pub fn render_system_unit(bin: &str, config: &str, data_dir: &str) -> (res: String)
    ensures
        res@ == unit_text(Mode::System, bin@, "serve"@, config@, data_dir@),
{
    unit(Mode::System, bin, "serve", config, data_dir)
}

pub fn render_user_unit(bin: &str, config: &str, data_dir: &str) -> (res: String)
    ensures
        res@ == unit_text(Mode::User, bin@, "serve"@, config@, data_dir@),
{
    unit(Mode::User, bin, "serve", config, data_dir)
}

/// The unit to write: it needs a config file to point to, and the path of the
/// running binary.
pub open spec fn unit_for(
    mode: Mode,
    source: Option<Seq<char>>,
    data_dir: Seq<char>,
    bin: Result<Seq<char>, Seq<char>>,
) -> Result<Seq<char>, output::ErrorView> {
    match source {
        None => Err(
            output::hinted_error(
                "latch service start needs a config file"@,
                "run `latch config init` first, or use `latch serve` directly with env vars"@,
                output::EX_CONFIG,
            ),
        ),
        Some(path) => match bin {
            Err(e) => Err(
                output::plain_error("can't locate own binary: "@ + e, output::EX_FAIL),
            ),
            Ok(b) => Ok(unit_text(mode, b, "serve"@, path, data_dir)),
        },
    }
}

/// The unit to write.
pub fn write_unit(mode: Mode, cfg: &Config, bin: &Result<String, String>) -> (res: Result<
    String,
    Error,
>)
    ensures
        cmd::config::text_or_error(res) == unit_for(
            mode,
            cfg.source@,
            cfg.data_dir@,
            crate::jwt::text_or_text(*bin),
        ),
{
    match &cfg.source {
        ConfigSource::Env => Err(
            Error::config("latch service start needs a config file").with_hint(
                "run `latch config init` first, or use `latch serve` directly with env vars",
            ),
        ),
        ConfigSource::File(path) => match bin {
            Err(e) => Err(
                Error::fail("can't locate own binary: ".to_owned().concat(e.as_str()).as_str()),
            ),
            Ok(b) => Ok(render_unit(mode, b.as_str(), path.as_str(), cfg.data_dir.as_str())),
        },
    }
}

// --- start ------------------------------------------------------------------

/// One thing that a command does to the machine.
#[derive(Debug)]
pub enum Action {
    /// Make the system user, if it is not there.
    EnsureSystemUser,
    /// Make the data directory, hand it to the system user in system mode,
    /// and close it to others.
    EnsureDataDir(String),
    /// Write the unit to a path.
    WriteUnit { path: String, unit: String },
    /// Call systemctl; fail if it does.
    Systemctl(Verb),
    /// Call systemctl, whatever comes of it.
    TrySystemctl(Verb),
    /// Remove a file, if it can be.
    TryRemove(String),
    /// After a moment, look whether the unit is active; fail if it is not.
    ExpectActive,
    /// Fail.
    Fail(Error),
}

/// The contents of an `Action`.
pub enum ActionView {
    EnsureSystemUser,
    EnsureDataDir(Seq<char>),
    WriteUnit { path: Seq<char>, unit: Seq<char> },
    Systemctl(Verb),
    TrySystemctl(Verb),
    TryRemove(Seq<char>),
    ExpectActive,
    Fail(output::ErrorView),
}

impl View for Action {
    type V = ActionView;

    open spec fn view(&self) -> ActionView {
        match self {
            Action::EnsureSystemUser => ActionView::EnsureSystemUser,
            Action::EnsureDataDir(p) => ActionView::EnsureDataDir(p@),
            Action::WriteUnit { path, unit } => ActionView::WriteUnit { path: path@, unit: unit@ },
            Action::Systemctl(v) => ActionView::Systemctl(*v),
            Action::TrySystemctl(v) => ActionView::TrySystemctl(*v),
            Action::TryRemove(p) => ActionView::TryRemove(p@),
            Action::ExpectActive => ActionView::ExpectActive,
            Action::Fail(e) => ActionView::Fail(e@),
        }
    }
}

/// The contents of actions.
pub open spec fn action_views(actions: Seq<Action>) -> Seq<ActionView> {
    actions.map_values(|a: Action| a@)
}

/// What `service start` does, one thing after the other until one fails.
pub open spec fn start_plan(
    mode: Mode,
    data_dir: Seq<char>,
    unit: Result<Seq<char>, output::ErrorView>,
    place: Seq<char>,
) -> Seq<ActionView> {
    let user = match mode {
        Mode::System => seq![ActionView::EnsureSystemUser],
        Mode::User => Seq::empty(),
    };
    user + seq![ActionView::EnsureDataDir(data_dir)] + match unit {
        Err(e) => seq![ActionView::Fail(e)],
        Ok(text) => seq![
            ActionView::WriteUnit { path: place, unit: text },
            ActionView::Systemctl(Verb::DaemonReload),
            ActionView::Systemctl(Verb::EnableNow),
            ActionView::ExpectActive,
        ],
    }
}

/// What `service start` does, one thing after the other until one fails.
/// `bin` is the path of the running binary, or why it is not known.
pub fn start(mode: Mode, cfg: &Config, bin: &Result<String, String>, env: &Env) -> (res: Vec<Action>)
    ensures
        action_views(res@) == start_plan(
            mode,
            cfg.data_dir@,
            unit_for(mode, cfg.source@, cfg.data_dir@, crate::jwt::text_or_text(*bin)),
            unit_place(mode, *env),
        ),
{
    let mut plan: Vec<Action> = Vec::new();
    match mode {
        Mode::System => {
            plan.push(Action::EnsureSystemUser);
        },
        Mode::User => {},
    }
    plan.push(Action::EnsureDataDir(cfg.data_dir.clone()));
    match write_unit(mode, cfg, bin) {
        Err(e) => {
            plan.push(Action::Fail(e));
        },
        Ok(unit) => {
            plan.push(Action::WriteUnit { path: unit_path(mode, env), unit });
            plan.push(Action::Systemctl(Verb::DaemonReload));
            plan.push(Action::Systemctl(Verb::EnableNow));
            plan.push(Action::ExpectActive);
        },
    }
    proof {
        let unit = unit_for(mode, cfg.source@, cfg.data_dir@, crate::jwt::text_or_text(*bin));
        assert(action_views(plan@) =~= start_plan(
            mode,
            cfg.data_dir@,
            unit,
            unit_place(mode, *env),
        ));
    }
    plan
}

/// The arguments of `getent` that look for the system user.
pub fn getent_args() -> (res: Vec<String>)
    ensures
        text::texts(res@) == seq!["passwd"@, SYSTEM_USER@],
{
    let res = words("passwd", Some(SYSTEM_USER), None);
    assert(text::texts(res@) =~= seq!["passwd"@, SYSTEM_USER@]);
    res
}

/// The arguments of `useradd` that make the system user: with no home of its
/// own and no shell.
pub fn useradd_args(env: &Env) -> (res: Vec<String>)
    ensures
        text::texts(res@) == seq![
            "--system"@,
            "--no-create-home"@,
            "--shell"@,
            "/usr/sbin/nologin"@,
            "--home-dir"@,
            config::data_dir_of(Mode::System, *env),
            SYSTEM_USER@,
        ],
{
    let mut out: Vec<String> = Vec::new();
    out.push("--system".to_owned());
    out.push("--no-create-home".to_owned());
    out.push("--shell".to_owned());
    out.push("/usr/sbin/nologin".to_owned());
    out.push("--home-dir".to_owned());
    out.push(config::default_data_dir(Mode::System, env));
    out.push(SYSTEM_USER.to_owned());
    assert(text::texts(out@) =~= seq![
        "--system"@,
        "--no-create-home"@,
        "--shell"@,
        "/usr/sbin/nologin"@,
        "--home-dir"@,
        config::data_dir_of(Mode::System, *env),
        SYSTEM_USER@,
    ]);
    out
}

/// The arguments of `chown` that hand a directory to the system user.
pub fn chown_args(path: &str) -> (res: Vec<String>)
    ensures
        text::texts(res@) == seq![SYSTEM_USER@ + ":"@ + SYSTEM_USER@, path@],
{
    let owner = SYSTEM_USER.to_owned().concat(":").concat(SYSTEM_USER);
    let res = words(owner.as_str(), Some(path), None);
    assert(text::texts(res@) =~= seq![SYSTEM_USER@ + ":"@ + SYSTEM_USER@, path@]);
    res
}

/// How running a program that must succeed ended.
#[derive(Debug)]
pub enum Ran {
    /// It could not be run, for the reason given.
    NotRun(String),
    Success,
    /// It failed, with this status.
    Failed(String),
}

/// What running a program that must succeed comes to.
pub open spec fn ran_outcome(program: Seq<char>, ran: Ran) -> Result<(), output::ErrorView> {
    match ran {
        Ran::Success => Ok(()),
        Ran::NotRun(e) => Err(output::plain_error(program + ": "@ + e@, output::EX_FAIL)),
        Ran::Failed(status) => Err(
            output::plain_error(program + " failed: "@ + status@, output::EX_FAIL),
        ),
    }
}

/// What running a program that must succeed comes to.
pub fn require_success(program: &str, ran: &Ran) -> (res: Result<(), Error>)
    ensures
        cmd::check::unit_or_error(res) == ran_outcome(program@, *ran),
{
    match ran {
        Ran::Success => Ok(()),
        Ran::NotRun(e) => Err(
            Error::fail(program.to_owned().concat(": ").concat(e.as_str()).as_str()),
        ),
        Ran::Failed(status) => Err(
            Error::fail(program.to_owned().concat(" failed: ").concat(status.as_str()).as_str()),
        ),
    }
}

/// What is said once the system user has been made.
pub fn user_created() -> (res: String)
    ensures
        res@ == "created system user '"@ + SYSTEM_USER@ + "'\n"@,
{
    "created system user '".to_owned().concat(SYSTEM_USER).concat("'\n")
}

/// What is said once latch runs.
pub open spec fn started_text(mode: Mode, user: Option<Seq<char>>) -> Seq<char> {
    let head = "\nlatch is running ("@ + mode.word() + " mode).\n\nlogs:\n    "@ + journal_word(
        mode,
    ) + " -u latch -f\n"@;
    match mode {
        Mode::System => head,
        Mode::User => head
            + "\nto survive logout/reboot without an active session, run once:\n    sudo loginctl enable-linger "@
            + config::given_or(user, "$USER"@) + "\n"@,
    }
}

/// What is said once latch runs. `user` is the name of the user, if it is
/// known.
pub fn print_started(mode: Mode, user: Option<&str>) -> (res: String)
    ensures
        res@ == started_text(mode, text::slice_text_of(user)),
{
    let head = "\nlatch is running (".to_owned().concat(mode.label()).concat(
        " mode).\n\nlogs:\n    ",
    ).concat(journalctl_cmd(mode)).concat(" -u latch -f\n");
    match mode {
        Mode::System => head,
        Mode::User => {
            let name = match user {
                Some(u) => u,
                None => "$USER",
            };
            head.concat(
                "\nto survive logout/reboot without an active session, run once:\n    sudo loginctl enable-linger ",
            ).concat(name).concat("\n")
        },
    }
}

/// What `service start` comes to at last, given whether the unit is active.
pub fn started(mode: Mode, active: bool, user: Option<&str>) -> (res: Result<String, Error>)
    ensures
        cmd::config::text_or_error(res) == if active {
            Ok(started_text(mode, text::slice_text_of(user)))
        } else {
            Err(
                output::plain_error(
                    "started, but service is not active. Check: "@ + journal_word(mode)
                        + " -u latch -n 50"@,
                    output::EX_FAIL,
                ),
            )
        },
{
    if !active {
        return Err(
            Error::fail(
                "started, but service is not active. Check: ".to_owned().concat(
                    journalctl_cmd(mode),
                ).concat(" -u latch -n 50").as_str(),
            ),
        );
    }
    Ok(print_started(mode, user))
}

// --- stop, restart, status --------------------------------------------------

/// What `service stop` says, given how calling systemctl ended.
pub fn stop(mode: Mode, exit: &Exit) -> (res: Result<String, Error>)
    ensures
        cmd::config::text_or_error(res) == match systemctl_outcome(mode, Verb::Stop, *exit) {
            Ok(_) => Ok("latch stopped.\n"@),
            Err(e) => Err(e),
        },
{
    match systemctl(mode, Verb::Stop, exit) {
        Ok(_) => Ok("latch stopped.\n".to_owned()),
        Err(e) => Err(e),
    }
}

/// What `service restart` says, given how calling systemctl ended.
pub fn restart(mode: Mode, exit: &Exit) -> (res: Result<String, Error>)
    ensures
        cmd::config::text_or_error(res) == match systemctl_outcome(mode, Verb::Restart, *exit) {
            Ok(_) => Ok("latch restarted.\n"@),
            Err(e) => Err(e),
        },
{
    match systemctl(mode, Verb::Restart, exit) {
        Ok(_) => Ok("latch restarted.\n".to_owned()),
        Err(e) => Err(e),
    }
}

/// What was found of the service.
#[derive(Debug)]
pub struct Found {
    pub active: bool,
    pub enabled: bool,
    /// The unit is there.
    pub unit: bool,
    /// There is a config in the default place.
    pub config: bool,
}

/// What `service status` prints. `start` is the command that starts latch.
pub open spec fn status_text(
    mode: Mode,
    found: Found,
    unit: Seq<char>,
    config: Seq<char>,
    start: Seq<char>,
) -> Seq<char> {
    "latch:  "@ + if found.active {
        "active"@
    } else {
        "inactive"@
    } + "  ("@ + if found.enabled {
        "enabled"@
    } else {
        "disabled"@
    } + ")\nmode:   "@ + mode.word() + "\nunit:   "@ + if found.unit {
        unit
    } else {
        "not installed (run `"@ + sudo(mode) + start + "`)"@
    } + "\n"@ + if found.config {
        "config: "@ + config + "\n"@
    } else {
        Seq::empty()
    }
}

/// What a command needs before it to change what belongs to the mode.
pub open spec fn sudo(mode: Mode) -> Seq<char> {
    match mode {
        Mode::System => "sudo "@,
        Mode::User => Seq::empty(),
    }
}

pub(crate) fn sudo_word(mode: Mode) -> (res: &'static str)
    ensures
        res@ == sudo(mode),
{
    match mode {
        Mode::System => "sudo ",
        Mode::User => {
            proof {
                reveal_strlit("");
                assert(""@ =~= Seq::<char>::empty());
            }
            ""
        },
    }
}

/// The report that `service status` prints, `start` being the command that
/// starts latch.
pub(crate) fn status_report(mode: Mode, found: &Found, env: &Env, start: &str) -> (res: String)
    ensures
        res@ == status_text(
            mode,
            *found,
            unit_place(mode, *env),
            config::config_path_of(mode, *env),
            start@,
        ),
{
    let active = if found.active {
        "active"
    } else {
        "inactive"
    };
    let enabled = if found.enabled {
        "enabled"
    } else {
        "disabled"
    };
    let unit = if found.unit {
        unit_path(mode, env)
    } else {
        "not installed (run `".to_owned().concat(sudo_word(mode)).concat(start).concat("`)")
    };
    let config = if found.config {
        "config: ".to_owned().concat(config::default_config_path(mode, env).as_str()).concat("\n")
    } else {
        String::new()
    };
    "latch:  ".to_owned().concat(active).concat("  (").concat(enabled).concat(
        ")\nmode:   ",
    ).concat(mode.label()).concat("\nunit:   ").concat(unit.as_str()).concat("\n").concat(
        config.as_str(),
    )
}

/// What `service status` prints.
pub fn status(mode: Mode, found: &Found, env: &Env) -> (res: String)
    ensures
        res@ == status_text(
            mode,
            *found,
            unit_place(mode, *env),
            config::config_path_of(mode, *env),
            "latch service start"@,
        ),
{
    status_report(mode, found, env, "latch service start")
}

// --- uninstall --------------------------------------------------------------

/// What `service uninstall` does, whatever comes of each.
pub open spec fn uninstall_plan(place: Seq<char>) -> Seq<ActionView> {
    seq![
        ActionView::TrySystemctl(Verb::Stop),
        ActionView::TrySystemctl(Verb::Disable),
        ActionView::TryRemove(place),
        ActionView::TrySystemctl(Verb::DaemonReload),
    ]
}

/// What `service uninstall` does, whatever comes of each.
pub fn uninstall_actions(mode: Mode, env: &Env) -> (res: Vec<Action>)
    ensures
        action_views(res@) == uninstall_plan(unit_place(mode, *env)),
{
    let mut plan: Vec<Action> = Vec::new();
    plan.push(Action::TrySystemctl(Verb::Stop));
    plan.push(Action::TrySystemctl(Verb::Disable));
    plan.push(Action::TryRemove(unit_path(mode, env)));
    plan.push(Action::TrySystemctl(Verb::DaemonReload));
    assert(action_views(plan@) =~= uninstall_plan(unit_place(mode, *env)));
    plan
}

/// What `service uninstall` says: the commands that remove what it leaves.
pub open spec fn uninstalled_text(
    mode: Mode,
    data_dir: Seq<char>,
    config: Seq<char>,
    bin: Option<Seq<char>>,
) -> Seq<char> {
    "removed "@ + mode.word() + " systemd unit.\n\nto also remove your data:\n    "@ + sudo(mode)
        + "rm -rf "@ + data_dir + "\nto remove the config:\n    "@ + sudo(mode) + "rm "@ + config
        + "\n"@ + match mode {
        Mode::System => "to remove the system user:\n    sudo userdel "@ + SYSTEM_USER@ + "\n"@,
        Mode::User => Seq::empty(),
    } + match bin {
        Some(b) => "to remove the binary:\n    "@ + sudo(mode) + "rm "@ + b + "\n"@,
        None => Seq::empty(),
    }
}

/// What `service uninstall` says once the unit is gone. The data directory is
/// the one in use, where a config says so, and else the default.
pub fn uninstall(mode: Mode, loaded: &Result<Config, String>, bin: Option<&str>, env: &Env) -> (res:
    String)
    ensures
        res@ == uninstalled_text(
            mode,
            match *loaded {
                Ok(cfg) => cfg.data_dir@,
                Err(_) => config::data_dir_of(mode, *env),
            },
            config::config_path_of(mode, *env),
            text::slice_text_of(bin),
        ),
{
    let data_dir = match loaded {
        Ok(cfg) => cfg.data_dir.clone(),
        Err(_) => config::default_data_dir(mode, env),
    };
    let user = match mode {
        Mode::System => "to remove the system user:\n    sudo userdel ".to_owned().concat(
            SYSTEM_USER,
        ).concat("\n"),
        Mode::User => String::new(),
    };
    let binary = match bin {
        Some(b) => "to remove the binary:\n    ".to_owned().concat(sudo_word(mode)).concat(
            "rm ",
        ).concat(b).concat("\n"),
        None => String::new(),
    };
    "removed ".to_owned().concat(mode.label()).concat(
        " systemd unit.\n\nto also remove your data:\n    ",
    ).concat(sudo_word(mode)).concat("rm -rf ").concat(data_dir.as_str()).concat(
        "\nto remove the config:\n    ",
    ).concat(sudo_word(mode)).concat("rm ").concat(
        config::default_config_path(mode, env).as_str(),
    ).concat("\n").concat(user.as_str()).concat(binary.as_str())
}

// --- laws -------------------------------------------------------------------

/// Systemd is told of the unit after it is written and before it is enabled,
/// and nothing is written for a configuration without a file, which fails
/// with the code for configuration.
pub proof fn units_are_written_before_they_are_enabled(
    mode: Mode,
    source: Option<Seq<char>>,
    data_dir: Seq<char>,
    bin: Result<Seq<char>, Seq<char>>,
    place: Seq<char>,
)
    ensures
        ({
            let unit = unit_for(mode, source, data_dir, bin);
            let plan = start_plan(mode, data_dir, unit, place);
            let n = plan.len();
            &&& unit matches Ok(text) ==> {
                &&& plan[n - 4] == ActionView::WriteUnit { path: place, unit: text }
                &&& plan[n - 3] == ActionView::Systemctl(Verb::DaemonReload)
                &&& plan[n - 2] == ActionView::Systemctl(Verb::EnableNow)
                &&& plan[n - 1] == ActionView::ExpectActive
            }
            &&& source is None ==> {
                &&& plan.last() matches ActionView::Fail(e) && e.code == output::EX_CONFIG
                &&& forall|i: int| 0 <= i < n ==> !(#[trigger] plan[i] is WriteUnit)
            }
        }),
{
}

/// Uninstalling removes nothing but the unit.
pub proof fn uninstalling_removes_the_unit_alone(place: Seq<char>)
    ensures
        forall|i: int|
            0 <= i < uninstall_plan(place).len() ==> match #[trigger] uninstall_plan(place)[i] {
                ActionView::TrySystemctl(_) => true,
                ActionView::TryRemove(p) => p == place,
                _ => false,
            },
{
}

/// Only root's service makes a system user.
pub proof fn users_touch_no_system_user(
    data_dir: Seq<char>,
    unit: Result<Seq<char>, output::ErrorView>,
    place: Seq<char>,
)
    ensures
        forall|i: int|
            0 <= i < start_plan(Mode::User, data_dir, unit, place).len() ==> !(
            #[trigger] start_plan(Mode::User, data_dir, unit, place)[i] is EnsureSystemUser),
{
}

} // verus!
