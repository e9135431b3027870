//! The service commands in the form they have up to version 0.5: a config
//! that names the host `rp_id`, data below `state_dir`, and units that call
//! `latch run`.
use vstd::prelude::*;

pub use crate::cmd::service::{is_unit_active, journalctl_cmd, restart, stop, unit_path};
use crate::cmd::config::Init;
use crate::cmd::service::{Action, Found, Verb, SYSTEM_USER};
use crate::config::{Env, Mode, DEFAULT_LISTEN};
use crate::output::Error;
use crate::{cmd, config, output, text};

verus! {

// --- init -------------------------------------------------------------------

/// Where data is kept by default.
pub open spec fn state_dir_of(mode: Mode, env: Env) -> Seq<char> {
    match mode {
        Mode::System => "/var/lib/latch"@,
        Mode::User => config::under(config::state_home_of(env), "latch"@),
    }
}

pub fn default_state_dir(mode: Mode, env: &Env) -> (res: String)
    ensures
        res@ == state_dir_of(mode, *env),
{
    match mode {
        Mode::System => "/var/lib/latch".to_owned(),
        Mode::User => config::legacy_user_data_dir(env),
    }
}

/// A config file.
pub open spec fn config_text(
    rp_id: Seq<char>,
    rp_origin: Seq<char>,
    cookie_domain: Seq<char>,
    state_dir: Seq<char>,
) -> Seq<char> {
    "# latch config\n# https://github.com/TerryTsai/latch\n\n# REQUIRED. Hostname where latch is publicly reachable.\nrp_id = \""@
        + rp_id + "\"\n\n# Optional overrides. Defaults shown commented.\n# rp_origin     = \""@
        + rp_origin + "\"\n# cookie_domain = \""@ + cookie_domain + "\"\n# listen        = \""@
        + DEFAULT_LISTEN@ + "\"\n# state_dir     = \""@ + state_dir + "\"\n"@
}

pub fn render_config(rp_id: &str, rp_origin: &str, cookie_domain: &str, state_dir: &str) -> (res:
    String)
    ensures
        res@ == config_text(rp_id@, rp_origin@, cookie_domain@, state_dir@),
{
    "# latch config\n# https://github.com/TerryTsai/latch\n\n# REQUIRED. Hostname where latch is publicly reachable.\nrp_id = \"".to_owned().concat(
        rp_id,
    ).concat("\"\n\n# Optional overrides. Defaults shown commented.\n# rp_origin     = \"").concat(
        rp_origin,
    ).concat("\"\n# cookie_domain = \"").concat(cookie_domain).concat(
        "\"\n# listen        = \"",
    ).concat(DEFAULT_LISTEN).concat("\"\n# state_dir     = \"").concat(state_dir).concat("\"\n")
}

/// The summary of what will be written.
pub open spec fn summary_text(
    mode: Mode,
    rp_id: Seq<char>,
    cookie_domain: Seq<char>,
    state_dir: Seq<char>,
) -> Seq<char> {
    "\n  mode          = "@ + mode.word() + "\n  rp_id         = "@ + rp_id
        + "\n  rp_origin     = https://"@ + rp_id + "   (derived)\n  cookie_domain = "@
        + cookie_domain + "   (derived)\n  listen        = "@ + DEFAULT_LISTEN@
        + "   (default)\n  state_dir     = "@ + state_dir + "   (default)\n\n"@
}

/// What `init` does for a hostname.
pub open spec fn init_for(
    rp_id: Seq<char>,
    path: Option<Seq<char>>,
    print: bool,
    yes: bool,
    mode: Mode,
    default_path: Seq<char>,
    state_dir: Seq<char>,
) -> Result<cmd::config::InitView, Seq<char>> {
    let target = config::given_or(path, default_path);
    let domain = config::parent_domain(rp_id);
    let content = config_text(rp_id, "https://"@ + rp_id, domain, state_dir);
    if rp_id.len() == 0 {
        Err("rp_id is required"@)
    } else if text::holds(rp_id, "example.com"@) {
        Err("rp_id can't be a placeholder"@)
    } else if print {
        Ok(cmd::config::InitView::Print { content })
    } else if yes {
        Ok(cmd::config::InitView::Write { target, content })
    } else {
        Ok(
            cmd::config::InitView::Confirm {
                summary: summary_text(mode, rp_id, domain, state_dir),
                question: "Write to "@ + target + "? [Y/n] "@,
                target,
                content,
            },
        )
    }
}

/// A result with the contents of its step or the text of its error.
pub open spec fn init_or_text(r: Result<Init, String>) -> Result<
    cmd::config::InitView,
    Seq<char>,
> {
    match r {
        Ok(s) => Ok(s@),
        Err(e) => Err(e@),
    }
}

/// What `init` does: ask for the hostname where none is given, and else print
/// the config, or write it after a question or without one.
pub fn init(
    rp_id: Option<&str>,
    path: Option<&str>,
    print: bool,
    yes: bool,
    mode: Mode,
    env: &Env,
) -> (res: Result<Init, String>)
    ensures
        init_or_text(res) == match rp_id {
            None => Ok(
                cmd::config::InitView::Ask { question: "Hostname (e.g. latch.example.com): "@ },
            ),
            Some(h) => init_for(
                text::trimmed(h@),
                text::slice_text_of(path),
                print,
                yes,
                mode,
                config::config_path_of(mode, *env),
                state_dir_of(mode, *env),
            ),
        },
{
    let given = match rp_id {
        Some(h) => h,
        None => {
            return Ok(Init::Ask { question: "Hostname (e.g. latch.example.com): ".to_owned() });
        },
    };
    let target = match path {
        Some(p) => p.to_owned(),
        None => config::default_config_path(mode, env),
    };
    let id = text::trim(given);
    if text::chars_of(id.as_str()).len() == 0 {
        return Err("rp_id is required".to_owned());
    }
    if text::contains(id.as_str(), "example.com") {
        return Err("rp_id can't be a placeholder".to_owned());
    }
    let origin = "https://".to_owned().concat(id.as_str());
    let domain = config::derive_cookie_domain(id.as_str());
    let state_dir = default_state_dir(mode, env);
    let content = render_config(
        id.as_str(),
        origin.as_str(),
        domain.as_str(),
        state_dir.as_str(),
    );
    if print {
        return Ok(Init::Print { content });
    }
    if yes {
        return Ok(Init::Write { target, content });
    }
    let summary = "\n  mode          = ".to_owned().concat(mode.label()).concat(
        "\n  rp_id         = ",
    ).concat(id.as_str()).concat("\n  rp_origin     = https://").concat(id.as_str()).concat(
        "   (derived)\n  cookie_domain = ",
    ).concat(domain.as_str()).concat("   (derived)\n  listen        = ").concat(
        DEFAULT_LISTEN,
    ).concat("   (default)\n  state_dir     = ").concat(state_dir.as_str()).concat(
        "   (default)\n\n",
    );
    let question = "Write to ".to_owned().concat(target.as_str()).concat("? [Y/n] ");
    Ok(Init::Confirm { summary, question, target, content })
}

/// What is said once the config has been written.
pub fn written(target: &str, mode: Mode) -> (res: String)
    ensures
        res@ == "Wrote "@ + target@ + "\nNext:\n    "@ + cmd::service::sudo(mode)
            + "latch start\n"@,
{
    "Wrote ".to_owned().concat(target).concat("\nNext:\n    ").concat(
        cmd::service::sudo_word(mode),
    ).concat("latch start\n")
}

// --- start ------------------------------------------------------------------

/// The unit that runs.
pub fn render_unit(mode: Mode, bin: &str, config: &str, state_dir: &str) -> (res: String)
    ensures
        res@ == cmd::service::unit_text(mode, bin@, "run"@, config@, state_dir@),
{
    match mode {
        Mode::System => render_system_unit(bin, config, state_dir),
        Mode::User => render_user_unit(bin, config, state_dir),
    }
}

pub fn render_system_unit(bin: &str, config: &str, state_dir: &str) -> (res: String)
    ensures
        res@ == cmd::service::unit_text(Mode::System, bin@, "run"@, config@, state_dir@),
{
    cmd::service::unit(Mode::System, bin, "run", config, state_dir)
}

pub fn render_user_unit(bin: &str, config: &str, state_dir: &str) -> (res: String)
    ensures
        res@ == cmd::service::unit_text(Mode::User, bin@, "run"@, config@, state_dir@),
{
    cmd::service::unit(Mode::User, bin, "run", config, state_dir)
}

/// The unit to write: it needs the path of the running binary.
pub open spec fn unit_for(
    mode: Mode,
    source: Seq<char>,
    state_dir: Seq<char>,
    bin: Result<Seq<char>, Seq<char>>,
) -> Result<Seq<char>, output::ErrorView> {
    match bin {
        Err(e) => Err(output::plain_error("can't locate own binary: "@ + e, output::EX_FAIL)),
        Ok(b) => Ok(cmd::service::unit_text(mode, b, "run"@, source, state_dir)),
    }
}

/// What `start` does, one thing after the other until one fails. `source` is
/// the path of the config, and `bin` that of the running binary, or why it is
/// not known.
pub fn start(
    mode: Mode,
    source: &str,
    state_dir: &str,
    bin: &Result<String, String>,
    env: &Env,
) -> (res: Vec<Action>)
    ensures
        cmd::service::action_views(res@) == cmd::service::start_plan(
            mode,
            state_dir@,
            unit_for(mode, source@, state_dir@, crate::jwt::text_or_text(*bin)),
            cmd::service::unit_place(mode, *env),
        ),
{
    let mut plan: Vec<Action> = Vec::new();
    match mode {
        Mode::System => {
            plan.push(Action::EnsureSystemUser);
        },
        Mode::User => {},
    }
    plan.push(Action::EnsureDataDir(state_dir.to_owned()));
    match bin {
        Err(e) => {
            plan.push(
                Action::Fail(
                    Error::fail("can't locate own binary: ".to_owned().concat(e.as_str()).as_str()),
                ),
            );
        },
        Ok(b) => {
            plan.push(
                Action::WriteUnit {
                    path: unit_path(mode, env),
                    unit: render_unit(mode, b.as_str(), source, state_dir),
                },
            );
            plan.push(Action::Systemctl(Verb::DaemonReload));
            plan.push(Action::Systemctl(Verb::EnableNow));
            plan.push(Action::ExpectActive);
        },
    }
    proof {
        let unit = unit_for(mode, source@, state_dir@, crate::jwt::text_or_text(*bin));
        assert(cmd::service::action_views(plan@) =~= cmd::service::start_plan(
            mode,
            state_dir@,
            unit,
            cmd::service::unit_place(mode, *env),
        ));
    }
    plan
}

// --- status -----------------------------------------------------------------

/// What `status` prints.
pub fn status(mode: Mode, found: &Found, env: &Env) -> (res: String)
    ensures
        res@ == cmd::service::status_text(
            mode,
            *found,
            cmd::service::unit_place(mode, *env),
            config::config_path_of(mode, *env),
            "latch start"@,
        ),
{
    cmd::service::status_report(mode, found, env, "latch start")
}

// --- uninstall --------------------------------------------------------------

/// What `uninstall --purge` finds to remove.
#[derive(Debug)]
pub struct Leftovers {
    /// The data directory, where a config loads and the directory is there.
    pub state_dir: Option<String>,
    /// There is a config in the default place.
    pub config: bool,
}

/// One thing that `uninstall --purge` removes.
#[derive(Debug)]
pub enum Purge {
    /// A directory with all that is in it.
    Directory(String),
    /// A file, and its directory if nothing else is in it.
    File(String),
    /// The system user.
    User(String),
}

/// The contents of a `Purge`.
pub enum PurgeView {
    Directory(Seq<char>),
    File(Seq<char>),
    User(Seq<char>),
}

impl View for Purge {
    type V = PurgeView;

    open spec fn view(&self) -> PurgeView {
        match self {
            Purge::Directory(p) => PurgeView::Directory(p@),
            Purge::File(p) => PurgeView::File(p@),
            Purge::User(u) => PurgeView::User(u@),
        }
    }
}

/// The contents of what is removed.
pub open spec fn purge_views(purges: Seq<Purge>) -> Seq<PurgeView> {
    purges.map_values(|p: Purge| p@)
}

/// What is removed along with the unit: nothing without `--purge`.
pub open spec fn purge_plan(
    purge: bool,
    mode: Mode,
    state_dir: Option<Seq<char>>,
    config: Option<Seq<char>>,
) -> Seq<PurgeView> {
    if !purge {
        Seq::empty()
    } else {
        let dir = match state_dir {
            Some(d) => seq![PurgeView::Directory(d)],
            None => Seq::empty(),
        };
        let file = match config {
            Some(p) => seq![PurgeView::File(p)],
            None => Seq::empty(),
        };
        let user = match mode {
            Mode::System => seq![PurgeView::User(SYSTEM_USER@)],
            Mode::User => Seq::empty(),
        };
        dir + file + user
    }
}

/// The path of the config, where there is one.
pub open spec fn config_left(there: bool, path: Seq<char>) -> Option<Seq<char>> {
    if there {
        Some(path)
    } else {
        None
    }
}

/// What is removed along with the unit.
pub fn purge_actions(purge: bool, mode: Mode, left: &Leftovers, env: &Env) -> (res: Vec<Purge>)
    ensures
        purge_views(res@) == purge_plan(
            purge,
            mode,
            text::text_of(left.state_dir),
            config_left(left.config, config::config_path_of(mode, *env)),
        ),
{
    let mut plan: Vec<Purge> = Vec::new();
    if purge {
        if let Some(d) = &left.state_dir {
            plan.push(Purge::Directory(d.clone()));
        }
        if left.config {
            plan.push(Purge::File(config::default_config_path(mode, env)));
        }
        match mode {
            Mode::System => {
                plan.push(Purge::User(SYSTEM_USER.to_owned()));
            },
            Mode::User => {},
        }
    }
    assert(purge_views(plan@) =~= purge_plan(
        purge,
        mode,
        text::text_of(left.state_dir),
        config_left(left.config, config::config_path_of(mode, *env)),
    ));
    plan
}

/// What `uninstall` says.
pub open spec fn uninstalled_text(
    purge: bool,
    mode: Mode,
    state_dir: Option<Seq<char>>,
    config: bool,
    bin: Option<Seq<char>>,
) -> Seq<char> {
    "removed "@ + mode.word() + " systemd unit\n"@ + match state_dir {
        Some(d) => if purge {
            "removed state dir: "@ + d + "\n"@
        } else {
            Seq::empty()
        },
        None => Seq::empty(),
    } + if purge && config {
        "removed config\n"@
    } else {
        Seq::empty()
    } + match bin {
        Some(b) => "\nthe binary itself is at "@ + b + "\nremove with:\n    "@ + cmd::service::sudo(
            mode,
        ) + "rm "@ + b + "\n"@,
        None => Seq::empty(),
    }
}

/// What `uninstall` says, given what it found and the path of the running
/// binary, if it is known.
pub fn uninstall(purge: bool, mode: Mode, left: &Leftovers, bin: Option<&str>) -> (res: String)
    ensures
        res@ == uninstalled_text(
            purge,
            mode,
            text::text_of(left.state_dir),
            left.config,
            text::slice_text_of(bin),
        ),
{
    let state_dir = match &left.state_dir {
        Some(d) => if purge {
            "removed state dir: ".to_owned().concat(d.as_str()).concat("\n")
        } else {
            String::new()
        },
        None => String::new(),
    };
    let config = if purge && left.config {
        "removed config\n".to_owned()
    } else {
        String::new()
    };
    let binary = match bin {
        Some(b) => "\nthe binary itself is at ".to_owned().concat(b).concat(
            "\nremove with:\n    ",
        ).concat(cmd::service::sudo_word(mode)).concat("rm ").concat(b).concat("\n"),
        None => String::new(),
    };
    "removed ".to_owned().concat(mode.label()).concat(" systemd unit\n").concat(
        state_dir.as_str(),
    ).concat(config.as_str()).concat(binary.as_str())
}

} // verus!
