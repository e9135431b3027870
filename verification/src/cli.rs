//! The command line: the flags that every command knows, the commands, and
//! the texts that explain them.
use vstd::prelude::*;

use crate::cmd::config::InitOpts;
use crate::config::Env;
use crate::output::{Error, Flags};
use crate::{cmd, config, output, text};

verus! {

// --- global flags -----------------------------------------------------------

/// The flags that stand before, among or behind the words of any command.
#[derive(Debug)]
pub struct Globals {
    pub config: Option<String>,
    pub listen: Option<String>,
    pub data_dir: Option<String>,
    pub json: bool,
    pub quiet: bool,
    pub verbose: bool,
    pub no_color: bool,
    pub yes: bool,
}

/// The contents of `Globals`.
pub struct GlobalsView {
    pub config: Option<Seq<char>>,
    pub listen: Option<Seq<char>>,
    pub data_dir: Option<Seq<char>>,
    pub json: bool,
    pub quiet: bool,
    pub verbose: bool,
    pub no_color: bool,
    pub yes: bool,
}

impl View for Globals {
    type V = GlobalsView;

    open spec fn view(&self) -> GlobalsView {
        GlobalsView {
            config: text::text_of(self.config),
            listen: text::text_of(self.listen),
            data_dir: text::text_of(self.data_dir),
            json: self.json,
            quiet: self.quiet,
            verbose: self.verbose,
            no_color: self.no_color,
            yes: self.yes,
        }
    }
}

/// No flag is given.
pub open spec fn no_globals() -> GlobalsView {
    GlobalsView {
        config: None,
        listen: None,
        data_dir: None,
        json: false,
        quiet: false,
        verbose: false,
        no_color: false,
        yes: false,
    }
}

impl Default for Globals {
    fn default() -> (res: Globals)
        ensures
            res@ == no_globals(),
    {
        Globals {
            config: None,
            listen: None,
            data_dir: None,
            json: false,
            quiet: false,
            verbose: false,
            no_color: false,
            yes: false,
        }
    }
}

/// A global flag that takes a value.
#[derive(Copy, Clone, Debug, PartialEq, Eq, Structural)]
pub enum Setting {
    Config,
    Listen,
    DataDir,
}

/// What an argument is to the global flags.
#[derive(Copy, Clone, Debug, PartialEq, Eq, Structural)]
pub enum Flag {
    /// `--`: no flag follows.
    End,
    Version,
    Help,
    Quiet,
    Verbose,
    Yes,
    Json,
    NoColor,
    /// A setting whose value is the next argument.
    Next(Setting),
    /// A setting that carries its value, behind an equals sign.
    Own(Setting),
    /// No global flag.
    Word,
}

/// What stands before the value in an argument that carries one.
pub open spec fn prefix_of(s: Setting) -> Seq<char> {
    match s {
        Setting::Config => "--config="@,
        Setting::Listen => "--listen="@,
        Setting::DataDir => "--data-dir="@,
    }
}

/// What an argument is to the global flags.
pub open spec fn flag_of(a: Seq<char>) -> Flag {
    if a == "--"@ {
        Flag::End
    } else if a == "-V"@ || a == "--version"@ {
        Flag::Version
    } else if a == "-h"@ || a == "--help"@ {
        Flag::Help
    } else if a == "-q"@ || a == "--quiet"@ {
        Flag::Quiet
    } else if a == "-v"@ || a == "--verbose"@ {
        Flag::Verbose
    } else if a == "-y"@ || a == "--yes"@ {
        Flag::Yes
    } else if a == "--json"@ {
        Flag::Json
    } else if a == "--no-color"@ {
        Flag::NoColor
    } else if a == "-c"@ || a == "--config"@ {
        Flag::Next(Setting::Config)
    } else if a == "--listen"@ {
        Flag::Next(Setting::Listen)
    } else if a == "--data-dir"@ {
        Flag::Next(Setting::DataDir)
    } else if prefix_of(Setting::Config).is_prefix_of(a) {
        Flag::Own(Setting::Config)
    } else if prefix_of(Setting::Listen).is_prefix_of(a) {
        Flag::Own(Setting::Listen)
    } else if prefix_of(Setting::DataDir).is_prefix_of(a) {
        Flag::Own(Setting::DataDir)
    } else {
        Flag::Word
    }
}

/// The flags with one setting given.
pub open spec fn with_setting(g: GlobalsView, s: Setting, v: Seq<char>) -> GlobalsView {
    match s {
        Setting::Config => GlobalsView { config: Some(v), ..g },
        Setting::Listen => GlobalsView { listen: Some(v), ..g },
        Setting::DataDir => GlobalsView { data_dir: Some(v), ..g },
    }
}

/// What is said of a setting without a value.
pub open spec fn missing_value(s: Setting) -> Seq<char> {
    match s {
        Setting::Config => "--config requires a path"@,
        Setting::Listen => "--listen requires an addr"@,
        Setting::DataDir => "--data-dir requires a path"@,
    }
}

/// What the arguments come to once the global flags are taken out.
#[derive(Debug)]
pub enum Consumed {
    /// The version is asked for.
    Version,
    /// The words of a command.
    Words(Vec<String>),
}

/// The contents of what `consume` gives.
pub enum ConsumedView {
    Version,
    Words(Seq<Seq<char>>),
    Usage(output::ErrorView),
}

/// The contents of what `consume` gives.
pub open spec fn consumed_of(r: Result<Consumed, Error>) -> ConsumedView {
    match r {
        Ok(Consumed::Version) => ConsumedView::Version,
        Ok(Consumed::Words(v)) => ConsumedView::Words(text::texts(v@)),
        Err(e) => ConsumedView::Usage(e@),
    }
}

/// The flags and words that arguments come to, read from the left, when the
/// flags `g` and the words `out` have been read already. `ended` says that
/// every argument is a word.
pub open spec fn reading(
    args: Seq<Seq<char>>,
    g: GlobalsView,
    out: Seq<Seq<char>>,
    ended: bool,
) -> (GlobalsView, ConsumedView)
    decreases args.len(),
{
    if args.len() == 0 {
        (g, ConsumedView::Words(out))
    } else {
        let a = args[0];
        let rest = args.skip(1);
        if ended {
            reading(rest, g, out.push(a), true)
        } else {
            match flag_of(a) {
                Flag::End => reading(rest, g, out, true),
                Flag::Version => (g, ConsumedView::Version),
                Flag::Help => reading(rest, g, seq!["help"@] + out, true),
                Flag::Quiet => reading(rest, GlobalsView { quiet: true, ..g }, out, false),
                Flag::Verbose => reading(rest, GlobalsView { verbose: true, ..g }, out, false),
                Flag::Yes => reading(rest, GlobalsView { yes: true, ..g }, out, false),
                Flag::Json => reading(rest, GlobalsView { json: true, ..g }, out, false),
                Flag::NoColor => reading(rest, GlobalsView { no_color: true, ..g }, out, false),
                Flag::Next(s) => if rest.len() == 0 {
                    (
                        g,
                        ConsumedView::Usage(
                            output::plain_error(missing_value(s), output::EX_USAGE),
                        ),
                    )
                } else {
                    reading(rest.skip(1), with_setting(g, s, rest[0]), out, false)
                },
                Flag::Own(s) => reading(
                    rest,
                    with_setting(g, s, a.skip(prefix_of(s).len() as int)),
                    out,
                    false,
                ),
                Flag::Word => reading(rest, g, out.push(a), false),
            }
        }
    }
}

/// What an argument is to the global flags.
pub fn classify(a: &str) -> (res: Flag)
    ensures
        res == flag_of(a@),
{
    if text::same(a, "--") {
        Flag::End
    } else if text::same(a, "-V") || text::same(a, "--version") {
        Flag::Version
    } else if text::same(a, "-h") || text::same(a, "--help") {
        Flag::Help
    } else if text::same(a, "-q") || text::same(a, "--quiet") {
        Flag::Quiet
    } else if text::same(a, "-v") || text::same(a, "--verbose") {
        Flag::Verbose
    } else if text::same(a, "-y") || text::same(a, "--yes") {
        Flag::Yes
    } else if text::same(a, "--json") {
        Flag::Json
    } else if text::same(a, "--no-color") {
        Flag::NoColor
    } else if text::same(a, "-c") || text::same(a, "--config") {
        Flag::Next(Setting::Config)
    } else if text::same(a, "--listen") {
        Flag::Next(Setting::Listen)
    } else if text::same(a, "--data-dir") {
        Flag::Next(Setting::DataDir)
    } else if text::starts_with(a, "--config=") {
        Flag::Own(Setting::Config)
    } else if text::starts_with(a, "--listen=") {
        Flag::Own(Setting::Listen)
    } else if text::starts_with(a, "--data-dir=") {
        Flag::Own(Setting::DataDir)
    } else {
        Flag::Word
    }
}

/// The value that an argument carries behind its equals sign.
fn own_value(a: &str, s: Setting) -> (res: String)
    requires
        prefix_of(s).is_prefix_of(a@),
    ensures
        res@ == a@.skip(prefix_of(s).len() as int),
{
    let prefix = match s {
        Setting::Config => "--config=",
        Setting::Listen => "--listen=",
        Setting::DataDir => "--data-dir=",
    };
    match text::strip_prefix(a, prefix) {
        Some(v) => v,
        None => String::new(),
    }
}

impl Globals {
    fn set(&mut self, s: Setting, v: String)
        ensures
            final(self)@ == with_setting(old(self)@, s, v@),
    {
        match s {
            Setting::Config => {
                self.config = Some(v);
            },
            Setting::Listen => {
                self.listen = Some(v);
            },
            Setting::DataDir => {
                self.data_dir = Some(v);
            },
        }
    }

    /// Takes the global flags out of the arguments and gives the words that
    /// are left. `--` ends the flags; so does a request for help, which
    /// becomes the first word.
    pub fn consume(&mut self, args: &Vec<String>) -> (res: Result<Consumed, Error>)
        ensures
            (final(self)@, consumed_of(res)) == reading(
                text::texts(args@),
                old(self)@,
                Seq::empty(),
                false,
            ),
    {
        let mut out: Vec<String> = Vec::new();
        let mut ended = false;
        let mut i: usize = 0;
        let n: usize = args.len();
        let ghost all = text::texts(args@);
        let ghost target = reading(all, self@, Seq::empty(), false);
        assert(all.skip(0) =~= all);
        assert(text::texts(out@) =~= Seq::empty());
        while i < n
            invariant
                n == args@.len(),
                i <= n,
                all == text::texts(args@),
                reading(all.skip(i as int), self@, text::texts(out@), ended) == target,
                target == reading(text::texts(args@), old(self)@, Seq::empty(), false),
            decreases n - i,
        {
            let ghost words = text::texts(out@);
            assert(all.skip(i as int)[0] == args@[i as int]@);
            assert(all.skip(i as int).skip(1) =~= all.skip(i + 1));
            let a = args[i].as_str();
            i = i + 1;
            if ended {
                out.push(a.to_owned());
                assert(text::texts(out@) =~= words.push(a@));
                continue;
            }
            match classify(a) {
                Flag::End => {
                    ended = true;
                },
                Flag::Version => {
                    return Ok(Consumed::Version);
                },
                Flag::Help => {
                    out.insert(0, "help".to_owned());
                    assert(text::texts(out@) =~= seq!["help"@] + words);
                    ended = true;
                },
                Flag::Quiet => {
                    self.quiet = true;
                },
                Flag::Verbose => {
                    self.verbose = true;
                },
                Flag::Yes => {
                    self.yes = true;
                },
                Flag::Json => {
                    self.json = true;
                },
                Flag::NoColor => {
                    self.no_color = true;
                },
                Flag::Next(s) => {
                    if i == n {
                        let msg = match s {
                            Setting::Config => "--config requires a path",
                            Setting::Listen => "--listen requires an addr",
                            Setting::DataDir => "--data-dir requires a path",
                        };
                        return Err(Error::usage(msg));
                    }
                    assert(all.skip(i as int)[0] == args@[i as int]@);
                    assert(all.skip(i as int).skip(1) =~= all.skip(i + 1));
                    self.set(s, args[i].clone());
                    i = i + 1;
                },
                Flag::Own(s) => {
                    let v = own_value(a, s);
                    self.set(s, v);
                },
                Flag::Word => {
                    out.push(a.to_owned());
                    assert(text::texts(out@) =~= words.push(a@));
                },
            }
        }
        assert(all.skip(n as int) =~= Seq::empty());
        Ok(Consumed::Words(out))
    }

    /// Carries the flags over: into the output, and, over what it says, into
    /// the environment that the config is loaded from.
    pub fn apply(&self, flags: &mut Flags, env: &mut Env)
        ensures
            *final(flags) == (Flags {
                no_color: self.no_color,
                json: self.json,
                quiet: self.quiet,
            }),
            config::env_layer(*final(env)) == (config::ConfigFileView {
                listen: config::over(self@.listen, config::env_layer(*old(env)).listen),
                data_dir: config::over(self@.data_dir, config::env_layer(*old(env)).data_dir),
                ..config::env_layer(*old(env))
            }),
            *final(env) == (Env {
                latch_listen: final(env).latch_listen,
                latch_data_dir: final(env).latch_data_dir,
                ..*old(env)
            }),
    {
        output::set_no_color(flags, self.no_color);
        output::set_json(flags, self.json);
        output::set_quiet(flags, self.quiet);
        if let Some(l) = &self.listen {
            env.latch_listen = Some(l.clone());
        }
        if let Some(d) = &self.data_dir {
            env.latch_data_dir = Some(d.clone());
        }
    }
}

// --- commands ---------------------------------------------------------------

/// A command to carry out.
#[derive(Debug)]
pub enum Command {
    /// Print a text.
    Print(String),
    Serve,
    Check,
    ConfigInit(InitOpts),
    ConfigShow,
    ConfigPath,
    PasskeysList,
    PasskeysReset,
    ServiceStart,
    ServiceStop,
    ServiceRestart,
    ServiceStatus,
    ServiceUninstall,
    Update,
}

/// The contents of a `Command`.
pub enum CommandView {
    Print(Seq<char>),
    Serve,
    Check,
    ConfigInit(cmd::config::InitOptsView),
    ConfigShow,
    ConfigPath,
    PasskeysList,
    PasskeysReset,
    ServiceStart,
    ServiceStop,
    ServiceRestart,
    ServiceStatus,
    ServiceUninstall,
    Update,
}

impl View for Command {
    type V = CommandView;

    open spec fn view(&self) -> CommandView {
        match self {
            Command::Print(s) => CommandView::Print(s@),
            Command::Serve => CommandView::Serve,
            Command::Check => CommandView::Check,
            Command::ConfigInit(o) => CommandView::ConfigInit(o@),
            Command::ConfigShow => CommandView::ConfigShow,
            Command::ConfigPath => CommandView::ConfigPath,
            Command::PasskeysList => CommandView::PasskeysList,
            Command::PasskeysReset => CommandView::PasskeysReset,
            Command::ServiceStart => CommandView::ServiceStart,
            Command::ServiceStop => CommandView::ServiceStop,
            Command::ServiceRestart => CommandView::ServiceRestart,
            Command::ServiceStatus => CommandView::ServiceStatus,
            Command::ServiceUninstall => CommandView::ServiceUninstall,
            Command::Update => CommandView::Update,
        }
    }
}

/// A result with the contents of its command or of its error.
pub open spec fn command_or_error(r: Result<Command, Error>) -> Result<
    CommandView,
    output::ErrorView,
> {
    match r {
        Ok(c) => Ok(c@),
        Err(e) => Err(e@),
    }
}

/// What a command that takes no arguments comes to.
pub open spec fn bare(name: Seq<char>, args: Seq<Seq<char>>, c: CommandView) -> Result<
    CommandView,
    output::ErrorView,
> {
    if args.len() == 0 {
        Ok(c)
    } else {
        Err(
            output::plain_error(
                name + ": takes no arguments (got `"@ + args[0] + "`)"@,
                output::EX_USAGE,
            ),
        )
    }
}

/// The error for a word that is no command.
pub open spec fn unknown_command(name: Seq<char>) -> output::ErrorView {
    output::hinted_error(
        "unknown command `"@ + name + "`"@,
        "run `latch help` to list commands"@,
        output::EX_USAGE,
    )
}

/// The error for a word that is no command of its group.
pub open spec fn unknown_subcommand(group: Seq<char>, name: Seq<char>) -> output::ErrorView {
    output::hinted_error(
        "unknown "@ + group + " subcommand `"@ + name + "`"@,
        "run `latch help "@ + group + "` for the list"@,
        output::EX_USAGE,
    )
}

/// Nothing may follow the words of a command.
pub fn no_args(name: &str, args: &Vec<String>, from: usize) -> (res: Result<(), Error>)
    requires
        from <= args@.len(),
    ensures
        match res {
            Ok(_) => from == args@.len(),
            Err(e) => from < args@.len() && e@ == output::plain_error(
                name@ + ": takes no arguments (got `"@ + args@[from as int]@ + "`)"@,
                output::EX_USAGE,
            ),
        },
{
    if args.len() == from {
        return Ok(());
    }
    Err(
        Error::usage(
            name.to_owned().concat(": takes no arguments (got `").concat(
                args[from].as_str(),
            ).concat("`)").as_str(),
        ),
    )
}

pub fn unknown_cmd(name: &str) -> (res: Error)
    ensures
        res@ == unknown_command(name@),
{
    Error::usage("unknown command `".to_owned().concat(name).concat("`").as_str()).with_hint(
        "run `latch help` to list commands",
    )
}

pub fn unknown_subcmd(group: &str, name: &str) -> (res: Error)
    ensures
        res@ == unknown_subcommand(group@, name@),
{
    Error::usage(
        "unknown ".to_owned().concat(group).concat(" subcommand `").concat(name).concat(
            "`",
        ).as_str(),
    ).with_hint("run `latch help ".to_owned().concat(group).concat("` for the list").as_str())
}

/// A command that takes no arguments.
fn alone(name: &str, args: &Vec<String>, from: usize, c: Command) -> (res: Result<Command, Error>)
    requires
        from <= args@.len(),
    ensures
        command_or_error(res) == bare(name@, text::texts(args@).skip(from as int), c@),
{
    let ghost rest = text::texts(args@).skip(from as int);
    assert(from < args@.len() ==> rest[0] == args@[from as int]@);
    match no_args(name, args, from) {
        Ok(_) => Ok(c),
        Err(e) => Err(e),
    }
}

// --- config init ------------------------------------------------------------

/// A setting that `config init` can be given.
#[derive(Copy, Clone, Debug, PartialEq, Eq, Structural)]
pub enum InitSetting {
    Hostname,
    Origin,
    CookieDomain,
    Listen,
    DataDir,
    Path,
}

/// What an argument is to `config init`.
#[derive(Copy, Clone, Debug, PartialEq, Eq, Structural)]
pub enum InitFlag {
    Print,
    Yes,
    /// A setting whose value is the next argument.
    Next(InitSetting),
    /// A setting that carries its value, behind an equals sign.
    Own(InitSetting),
    Unknown,
}

/// The flag for a setting.
pub open spec fn init_word(s: InitSetting) -> Seq<char> {
    match s {
        InitSetting::Hostname => "--hostname"@,
        InitSetting::Origin => "--origin"@,
        InitSetting::CookieDomain => "--cookie-domain"@,
        InitSetting::Listen => "--listen"@,
        InitSetting::DataDir => "--data-dir"@,
        InitSetting::Path => "--path"@,
    }
}

/// The flag for a setting and an equals sign.
pub open spec fn init_prefix(s: InitSetting) -> Seq<char> {
    init_word(s) + "="@
}

/// What an argument is to `config init`.
pub open spec fn init_flag_of(a: Seq<char>) -> InitFlag {
    if init_prefix(InitSetting::Hostname).is_prefix_of(a) {
        InitFlag::Own(InitSetting::Hostname)
    } else if init_prefix(InitSetting::Origin).is_prefix_of(a) {
        InitFlag::Own(InitSetting::Origin)
    } else if init_prefix(InitSetting::CookieDomain).is_prefix_of(a) {
        InitFlag::Own(InitSetting::CookieDomain)
    } else if init_prefix(InitSetting::Listen).is_prefix_of(a) {
        InitFlag::Own(InitSetting::Listen)
    } else if init_prefix(InitSetting::DataDir).is_prefix_of(a) {
        InitFlag::Own(InitSetting::DataDir)
    } else if init_prefix(InitSetting::Path).is_prefix_of(a) {
        InitFlag::Own(InitSetting::Path)
    } else if a == init_word(InitSetting::Hostname) {
        InitFlag::Next(InitSetting::Hostname)
    } else if a == init_word(InitSetting::Origin) {
        InitFlag::Next(InitSetting::Origin)
    } else if a == init_word(InitSetting::CookieDomain) {
        InitFlag::Next(InitSetting::CookieDomain)
    } else if a == init_word(InitSetting::Listen) {
        InitFlag::Next(InitSetting::Listen)
    } else if a == init_word(InitSetting::DataDir) {
        InitFlag::Next(InitSetting::DataDir)
    } else if a == init_word(InitSetting::Path) {
        InitFlag::Next(InitSetting::Path)
    } else if a == "--print"@ {
        InitFlag::Print
    } else if a == "--yes"@ || a == "-y"@ {
        InitFlag::Yes
    } else {
        InitFlag::Unknown
    }
}

/// The options with one setting given.
pub open spec fn with_init_setting(
    o: cmd::config::InitOptsView,
    s: InitSetting,
    v: Seq<char>,
) -> cmd::config::InitOptsView {
    match s {
        InitSetting::Hostname => cmd::config::InitOptsView { hostname: Some(v), ..o },
        InitSetting::Origin => cmd::config::InitOptsView { origin: Some(v), ..o },
        InitSetting::CookieDomain => cmd::config::InitOptsView { cookie_domain: Some(v), ..o },
        InitSetting::Listen => cmd::config::InitOptsView { listen: Some(v), ..o },
        InitSetting::DataDir => cmd::config::InitOptsView { data_dir: Some(v), ..o },
        InitSetting::Path => cmd::config::InitOptsView { path: Some(v), ..o },
    }
}

/// The options that the arguments of `config init` come to, read from the
/// left, when `o` has been read already.
pub open spec fn init_reading(args: Seq<Seq<char>>, o: cmd::config::InitOptsView) -> Result<
    cmd::config::InitOptsView,
    output::ErrorView,
>
    decreases args.len(),
{
    if args.len() == 0 {
        Ok(o)
    } else {
        let a = args[0];
        let rest = args.skip(1);
        match init_flag_of(a) {
            InitFlag::Print => init_reading(rest, cmd::config::InitOptsView { print: true, ..o }),
            InitFlag::Yes => init_reading(rest, cmd::config::InitOptsView { yes: true, ..o }),
            InitFlag::Own(s) => init_reading(
                rest,
                with_init_setting(o, s, a.skip(init_prefix(s).len() as int)),
            ),
            InitFlag::Next(s) => if rest.len() == 0 {
                Err(
                    output::plain_error(
                        "config init: "@ + a + " requires a value"@,
                        output::EX_USAGE,
                    ),
                )
            } else {
                init_reading(rest.skip(1), with_init_setting(o, s, rest[0]))
            },
            InitFlag::Unknown => Err(
                output::plain_error("config init: unknown flag `"@ + a + "`"@, output::EX_USAGE),
            ),
        }
    }
}

/// The options that global flags give to `config init`.
pub open spec fn init_globals(g: GlobalsView) -> cmd::config::InitOptsView {
    cmd::config::InitOptsView {
        data_dir: g.data_dir,
        listen: g.listen,
        yes: g.yes,
        ..cmd::config::no_opts()
    }
}

/// The value that an argument carries for a setting of `config init`.
fn init_own(a: &str, s: InitSetting) -> (res: Option<String>)
    ensures
        match res {
            Some(v) => init_prefix(s).is_prefix_of(a@) && v@ == a@.skip(
                init_prefix(s).len() as int,
            ),
            None => !init_prefix(s).is_prefix_of(a@),
        },
{
    let word = match s {
        InitSetting::Hostname => "--hostname",
        InitSetting::Origin => "--origin",
        InitSetting::CookieDomain => "--cookie-domain",
        InitSetting::Listen => "--listen",
        InitSetting::DataDir => "--data-dir",
        InitSetting::Path => "--path",
    };
    text::strip_prefix(a, word.to_owned().concat("=").as_str())
}

/// What an argument is to `config init`, and the value it carries, if any.
fn init_classify(a: &str) -> (res: (InitFlag, String))
    ensures
        res.0 == init_flag_of(a@),
        res.0 matches InitFlag::Own(s) ==> res.1@ == a@.skip(init_prefix(s).len() as int),
{
    if let Some(v) = init_own(a, InitSetting::Hostname) {
        return (InitFlag::Own(InitSetting::Hostname), v);
    }
    if let Some(v) = init_own(a, InitSetting::Origin) {
        return (InitFlag::Own(InitSetting::Origin), v);
    }
    if let Some(v) = init_own(a, InitSetting::CookieDomain) {
        return (InitFlag::Own(InitSetting::CookieDomain), v);
    }
    if let Some(v) = init_own(a, InitSetting::Listen) {
        return (InitFlag::Own(InitSetting::Listen), v);
    }
    if let Some(v) = init_own(a, InitSetting::DataDir) {
        return (InitFlag::Own(InitSetting::DataDir), v);
    }
    if let Some(v) = init_own(a, InitSetting::Path) {
        return (InitFlag::Own(InitSetting::Path), v);
    }
    let flag = if text::same(a, "--hostname") {
        InitFlag::Next(InitSetting::Hostname)
    } else if text::same(a, "--origin") {
        InitFlag::Next(InitSetting::Origin)
    } else if text::same(a, "--cookie-domain") {
        InitFlag::Next(InitSetting::CookieDomain)
    } else if text::same(a, "--listen") {
        InitFlag::Next(InitSetting::Listen)
    } else if text::same(a, "--data-dir") {
        InitFlag::Next(InitSetting::DataDir)
    } else if text::same(a, "--path") {
        InitFlag::Next(InitSetting::Path)
    } else if text::same(a, "--print") {
        InitFlag::Print
    } else if text::same(a, "--yes") || text::same(a, "-y") {
        InitFlag::Yes
    } else {
        InitFlag::Unknown
    };
    (flag, String::new())
}

fn set_init(o: &mut InitOpts, s: InitSetting, v: String)
    ensures
        final(o)@ == with_init_setting(old(o)@, s, v@),
{
    match s {
        InitSetting::Hostname => {
            o.hostname = Some(v);
        },
        InitSetting::Origin => {
            o.origin = Some(v);
        },
        InitSetting::CookieDomain => {
            o.cookie_domain = Some(v);
        },
        InitSetting::Listen => {
            o.listen = Some(v);
        },
        InitSetting::DataDir => {
            o.data_dir = Some(v);
        },
        InitSetting::Path => {
            o.path = Some(v);
        },
    }
}

/// The options of `config init`, from the arguments behind the first `from`.
pub fn parse_init(args: &Vec<String>, from: usize, g: &Globals) -> (res: Result<InitOpts, Error>)
    requires
        from <= args@.len(),
    ensures
        match res {
            Ok(o) => init_reading(text::texts(args@).skip(from as int), init_globals(g@)) == Ok::<
                cmd::config::InitOptsView,
                output::ErrorView,
            >(o@),
            Err(e) => init_reading(text::texts(args@).skip(from as int), init_globals(g@)) == Err::<
                cmd::config::InitOptsView,
                output::ErrorView,
            >(e@),
        },
{
    let mut o = InitOpts::default();
    o.yes = g.yes;
    o.data_dir = text::copy(&g.data_dir);
    o.listen = text::copy(&g.listen);
    let n: usize = args.len();
    let mut i: usize = from;
    let ghost all = text::texts(args@);
    let ghost target = init_reading(all.skip(from as int), init_globals(g@));
    assert(o@ == init_globals(g@));
    while i < n
        invariant
            n == args@.len(),
            i <= n,
            all == text::texts(args@),
            target == init_reading(all.skip(from as int), init_globals(g@)),
            init_reading(all.skip(i as int), o@) == target,
        decreases n - i,
    {
        assert(all.skip(i as int)[0] == args@[i as int]@);
        assert(all.skip(i as int).skip(1) =~= all.skip(i + 1));
        let a = args[i].as_str();
        i = i + 1;
        let (flag, own) = init_classify(a);
        match flag {
            InitFlag::Print => {
                o.print = true;
            },
            InitFlag::Yes => {
                o.yes = true;
            },
            InitFlag::Own(s) => {
                set_init(&mut o, s, own);
            },
            InitFlag::Next(s) => {
                if i == n {
                    return Err(
                        Error::usage(
                            "config init: ".to_owned().concat(a).concat(
                                " requires a value",
                            ).as_str(),
                        ),
                    );
                }
                assert(all.skip(i as int)[0] == args@[i as int]@);
                assert(all.skip(i as int).skip(1) =~= all.skip(i + 1));
                set_init(&mut o, s, args[i].clone());
                i = i + 1;
            },
            InitFlag::Unknown => {
                return Err(
                    Error::usage(
                        "config init: unknown flag `".to_owned().concat(a).concat("`").as_str(),
                    ),
                );
            },
        }
    }
    assert(all.skip(n as int) =~= Seq::empty());
    Ok(o)
}

// --- dispatch ---------------------------------------------------------------

/// What the words behind `config` come to.
pub open spec fn config_command(args: Seq<Seq<char>>, g: GlobalsView) -> Result<
    CommandView,
    output::ErrorView,
> {
    if args.len() == 0 {
        Err(output::plain_error("missing subcommand: config init|show|path"@, output::EX_USAGE))
    } else if args[0] == "init"@ {
        match init_reading(args.skip(1), init_globals(g)) {
            Ok(o) => Ok(CommandView::ConfigInit(o)),
            Err(e) => Err(e),
        }
    } else if args[0] == "show"@ {
        bare("config show"@, args.skip(1), CommandView::ConfigShow)
    } else if args[0] == "path"@ {
        bare("config path"@, args.skip(1), CommandView::ConfigPath)
    } else {
        Err(unknown_subcommand("config"@, args[0]))
    }
}

/// What the words behind `passkeys` come to.
pub open spec fn passkeys_command(args: Seq<Seq<char>>) -> Result<CommandView, output::ErrorView> {
    if args.len() == 0 {
        Err(output::plain_error("missing subcommand: passkeys list|reset"@, output::EX_USAGE))
    } else if args[0] == "list"@ {
        bare("passkeys list"@, args.skip(1), CommandView::PasskeysList)
    } else if args[0] == "reset"@ {
        bare("passkeys reset"@, args.skip(1), CommandView::PasskeysReset)
    } else {
        Err(unknown_subcommand("passkeys"@, args[0]))
    }
}

/// What the words behind `service` come to.
pub open spec fn service_command(args: Seq<Seq<char>>) -> Result<CommandView, output::ErrorView> {
    if args.len() == 0 {
        Err(
            output::plain_error(
                "missing subcommand: service start|stop|restart|status|uninstall"@,
                output::EX_USAGE,
            ),
        )
    } else if args[0] == "start"@ {
        bare("service start"@, args.skip(1), CommandView::ServiceStart)
    } else if args[0] == "stop"@ {
        bare("service stop"@, args.skip(1), CommandView::ServiceStop)
    } else if args[0] == "restart"@ {
        bare("service restart"@, args.skip(1), CommandView::ServiceRestart)
    } else if args[0] == "status"@ {
        bare("service status"@, args.skip(1), CommandView::ServiceStatus)
    } else if args[0] == "uninstall"@ {
        bare("service uninstall"@, args.skip(1), CommandView::ServiceUninstall)
    } else {
        Err(unknown_subcommand("service"@, args[0]))
    }
}

/// What the words behind `help` come to.
pub open spec fn help_command(args: Seq<Seq<char>>, version: Seq<char>) -> Result<
    CommandView,
    output::ErrorView,
> {
    if args.len() == 0 {
        Ok(CommandView::Print(help_text(version)))
    } else if args[0] == "serve"@ {
        Ok(CommandView::Print(HELP_SERVE@ + "\n"@))
    } else if args[0] == "check"@ {
        Ok(CommandView::Print(HELP_CHECK@ + "\n"@))
    } else if args[0] == "config"@ {
        Ok(CommandView::Print(HELP_CONFIG@ + "\n"@))
    } else if args[0] == "passkeys"@ {
        Ok(CommandView::Print(HELP_PASSKEYS@ + "\n"@))
    } else if args[0] == "service"@ {
        Ok(CommandView::Print(HELP_SERVICE@ + "\n"@))
    } else if args[0] == "update"@ {
        Ok(CommandView::Print(HELP_UPDATE@ + "\n"@))
    } else {
        Err(unknown_command(args[0]))
    }
}

/// What the words of a command come to.
pub open spec fn command_for(words: Seq<Seq<char>>, g: GlobalsView, version: Seq<char>) -> Result<
    CommandView,
    output::ErrorView,
> {
    if words.len() == 0 {
        Ok(CommandView::Print(help_text(version)))
    } else {
        let rest = words.skip(1);
        if words[0] == "serve"@ {
            bare("serve"@, rest, CommandView::Serve)
        } else if words[0] == "check"@ {
            bare("check"@, rest, CommandView::Check)
        } else if words[0] == "config"@ {
            config_command(rest, g)
        } else if words[0] == "passkeys"@ {
            passkeys_command(rest)
        } else if words[0] == "service"@ {
            service_command(rest)
        } else if words[0] == "update"@ {
            bare("update"@, rest, CommandView::Update)
        } else if words[0] == "version"@ {
            Ok(CommandView::Print(version_text(version)))
        } else if words[0] == "help"@ {
            help_command(rest, version)
        } else {
            Err(unknown_command(words[0]))
        }
    }
}

/// What a command line comes to.
pub open spec fn commanded(args: Seq<Seq<char>>, version: Seq<char>) -> (
    GlobalsView,
    Result<CommandView, output::ErrorView>,
) {
    let (g, read) = reading(args, no_globals(), Seq::empty(), false);
    (
        g,
        match read {
            ConsumedView::Version => Ok(CommandView::Print(version_text(version))),
            ConsumedView::Words(words) => command_for(words, g, version),
            ConsumedView::Usage(e) => Err(e),
        },
    )
}

/// The command for the words behind `serve`.
pub fn serve(args: &Vec<String>) -> (res: Result<Command, Error>)
    requires
        args@.len() > 0,
    ensures
        command_or_error(res) == bare("serve"@, text::texts(args@).skip(1), CommandView::Serve),
{
    alone("serve", args, 1, Command::Serve)
}

/// The command for the words behind `check`.
pub fn check_cmd(args: &Vec<String>) -> (res: Result<Command, Error>)
    requires
        args@.len() > 0,
    ensures
        command_or_error(res) == bare("check"@, text::texts(args@).skip(1), CommandView::Check),
{
    alone("check", args, 1, Command::Check)
}

/// The command for the words behind `config`.
pub fn dispatch_config(args: &Vec<String>, g: &Globals) -> (res: Result<Command, Error>)
    requires
        args@.len() > 0,
    ensures
        command_or_error(res) == config_command(text::texts(args@).skip(1), g@),
{
    let ghost rest = text::texts(args@).skip(1);
    if args.len() == 1 {
        return Err(Error::usage("missing subcommand: config init|show|path"));
    }
    assert(rest[0] == args@[1]@);
    assert(rest.skip(1) =~= text::texts(args@).skip(2));
    let leaf = args[1].as_str();
    if text::same(leaf, "init") {
        match parse_init(args, 2, g) {
            Ok(o) => Ok(Command::ConfigInit(o)),
            Err(e) => Err(e),
        }
    } else if text::same(leaf, "show") {
        alone("config show", args, 2, Command::ConfigShow)
    } else if text::same(leaf, "path") {
        alone("config path", args, 2, Command::ConfigPath)
    } else {
        Err(unknown_subcmd("config", leaf))
    }
}

/// The command for the words behind `passkeys`.
pub fn dispatch_passkeys(args: &Vec<String>) -> (res: Result<Command, Error>)
    requires
        args@.len() > 0,
    ensures
        command_or_error(res) == passkeys_command(text::texts(args@).skip(1)),
{
    let ghost rest = text::texts(args@).skip(1);
    if args.len() == 1 {
        return Err(Error::usage("missing subcommand: passkeys list|reset"));
    }
    assert(rest[0] == args@[1]@);
    assert(rest.skip(1) =~= text::texts(args@).skip(2));
    let leaf = args[1].as_str();
    if text::same(leaf, "list") {
        alone("passkeys list", args, 2, Command::PasskeysList)
    } else if text::same(leaf, "reset") {
        alone("passkeys reset", args, 2, Command::PasskeysReset)
    } else {
        Err(unknown_subcmd("passkeys", leaf))
    }
}

/// The command for the words behind `service`.
pub fn dispatch_service(args: &Vec<String>) -> (res: Result<Command, Error>)
    requires
        args@.len() > 0,
    ensures
        command_or_error(res) == service_command(text::texts(args@).skip(1)),
{
    let ghost rest = text::texts(args@).skip(1);
    if args.len() == 1 {
        return Err(
            Error::usage("missing subcommand: service start|stop|restart|status|uninstall"),
        );
    }
    assert(rest[0] == args@[1]@);
    assert(rest.skip(1) =~= text::texts(args@).skip(2));
    let leaf = args[1].as_str();
    if text::same(leaf, "start") {
        alone("service start", args, 2, Command::ServiceStart)
    } else if text::same(leaf, "stop") {
        alone("service stop", args, 2, Command::ServiceStop)
    } else if text::same(leaf, "restart") {
        alone("service restart", args, 2, Command::ServiceRestart)
    } else if text::same(leaf, "status") {
        alone("service status", args, 2, Command::ServiceStatus)
    } else if text::same(leaf, "uninstall") {
        alone("service uninstall", args, 2, Command::ServiceUninstall)
    } else {
        Err(unknown_subcmd("service", leaf))
    }
}

/// The command for the words behind `help`.
pub fn help_for(args: &Vec<String>, version: &str) -> (res: Result<Command, Error>)
    requires
        args@.len() > 0,
    ensures
        command_or_error(res) == help_command(text::texts(args@).skip(1), version@),
{
    let ghost rest = text::texts(args@).skip(1);
    if args.len() == 1 {
        return Ok(Command::Print(print_help(version)));
    }
    assert(rest[0] == args@[1]@);
    let name = args[1].as_str();
    let usage = if text::same(name, "serve") {
        help_serve()
    } else if text::same(name, "check") {
        help_check()
    } else if text::same(name, "config") {
        help_config()
    } else if text::same(name, "passkeys") {
        help_passkeys()
    } else if text::same(name, "service") {
        help_service()
    } else if text::same(name, "update") {
        help_update()
    } else {
        return Err(unknown_cmd(name));
    };
    Ok(Command::Print(usage.to_owned().concat("\n")))
}

/// The command for the words that are left when the global flags are taken
/// out.
pub fn dispatch(words: &Vec<String>, g: &Globals, version: &str) -> (res: Result<Command, Error>)
    ensures
        command_or_error(res) == command_for(text::texts(words@), g@, version@),
{
    if words.len() == 0 {
        return Ok(Command::Print(print_help(version)));
    }
    assert(text::texts(words@)[0] == words@[0]@);
    let head = words[0].as_str();
    if text::same(head, "serve") {
        serve(words)
    } else if text::same(head, "check") {
        check_cmd(words)
    } else if text::same(head, "config") {
        dispatch_config(words, g)
    } else if text::same(head, "passkeys") {
        dispatch_passkeys(words)
    } else if text::same(head, "service") {
        dispatch_service(words)
    } else if text::same(head, "update") {
        alone("update", words, 1, Command::Update)
    } else if text::same(head, "version") {
        Ok(Command::Print(print_version(version)))
    } else if text::same(head, "help") {
        help_for(words, version)
    } else {
        Err(unknown_cmd(head))
    }
}

/// The command that a command line comes to, and its global flags. `args`
/// does not hold the name of the program.
pub fn run(args: &Vec<String>, version: &str) -> (res: (Globals, Result<Command, Error>))
    ensures
        (res.0@, command_or_error(res.1)) == commanded(text::texts(args@), version@),
{
    let mut globals = Globals::default();
    match globals.consume(args) {
        Ok(Consumed::Version) => (globals, Ok(Command::Print(print_version(version)))),
        Ok(Consumed::Words(words)) => {
            let res = dispatch(&words, &globals, version);
            (globals, res)
        },
        Err(e) => (globals, Err(e)),
    }
}

// --- help -------------------------------------------------------------------

/// The line that names the version.
pub open spec fn version_text(version: Seq<char>) -> Seq<char> {
    "latch "@ + version + "\n"@
}

/// How latch is used.
pub open spec fn help_text(version: Seq<char>) -> Seq<char> {
    "latch "@ + version + HELP_BODY@
}

pub fn print_version(version: &str) -> (res: String)
    ensures
        res@ == version_text(version@),
{
    "latch ".to_owned().concat(version).concat("\n")
}

pub fn print_help(version: &str) -> (res: String)
    ensures
        res@ == help_text(version@),
{
    "latch ".to_owned().concat(version).concat(HELP_BODY)
}

pub fn help_serve() -> (res: &'static str)
    ensures
        res@ == HELP_SERVE@,
{
    HELP_SERVE
}

pub fn help_check() -> (res: &'static str)
    ensures
        res@ == HELP_CHECK@,
{
    HELP_CHECK
}

pub fn help_config() -> (res: &'static str)
    ensures
        res@ == HELP_CONFIG@,
{
    HELP_CONFIG
}

pub fn help_passkeys() -> (res: &'static str)
    ensures
        res@ == HELP_PASSKEYS@,
{
    HELP_PASSKEYS
}

pub fn help_service() -> (res: &'static str)
    ensures
        res@ == HELP_SERVICE@,
{
    HELP_SERVICE
}

pub fn help_update() -> (res: &'static str)
    ensures
        res@ == HELP_UPDATE@,
{
    HELP_UPDATE
}

/// How `latch serve` is used.
pub const HELP_SERVE: &'static str = "latch serve — run the daemon in the foreground.

USAGE:
  latch serve [--config PATH] [--listen ADDR] [--data-dir PATH]

Reads config from --config, $LATCH_CONFIG, ./latch.toml, or the default
($XDG_CONFIG_HOME/latch/config.toml or /etc/latch/config.toml).
Env vars override file values.

Traps SIGTERM/SIGINT and exits cleanly.

EXAMPLE:
  LATCH_HOSTNAME=latch.example.com latch serve --listen 127.0.0.1:9000";

/// How `latch check` is used.
pub const HELP_CHECK: &'static str = "latch check — validate config and state, then exit.

USAGE:
  latch check [--config PATH] [--json]

Verifies that the config loads, origin is https://, hostname is not a
placeholder, data_dir is writable, and passkeys.json is readable.
Exits 78 on any problem.

EXAMPLE:
  latch check --json | jq .ok";

/// How `latch config` is used.
pub const HELP_CONFIG: &'static str = "latch config — manage the config file.

USAGE:
  latch config init  [--hostname HOST] [--origin URL] [--cookie-domain D]
                     [--listen ADDR] [--data-dir PATH] [--path FILE]
                     [--print] [--yes]
  latch config show  [--config PATH] [--json]
  latch config path  [--config PATH]

EXAMPLES:
  latch config init --hostname latch.example.com --yes
  latch config show --json | jq .hostname
  latch config path";

/// How `latch passkeys` is used.
pub const HELP_PASSKEYS: &'static str = "latch passkeys — manage registered passkeys.

USAGE:
  latch passkeys list  [--config PATH] [--json]
  latch passkeys reset [--config PATH] [--yes]

reset deletes the passkeys file. Prompts on TTY; requires --yes on
non-TTY (exit 64 otherwise).

EXAMPLES:
  latch passkeys list
  latch passkeys list --json | jq length
  latch passkeys reset --yes";

/// How `latch service` is used.
pub const HELP_SERVICE: &'static str = "latch service — manage the systemd unit.

USAGE:
  latch service start      install + enable + start (idempotent)
  latch service stop
  latch service restart
  latch service status
  latch service uninstall  remove the unit; prints copy-paste commands
                           for removing data, config, and binary

Run as root for system-wide install (/etc/latch, /var/lib/latch);
otherwise everything lives under your home directory.

EXAMPLE:
  sudo latch service start
  latch service status";

/// How `latch update` is used.
pub const HELP_UPDATE: &'static str = "latch update — download and install the latest release.

USAGE:
  latch update

Verifies the SHA-256 against the published checksum, replaces the
binary atomically, and restarts the systemd service if active.

EXAMPLE:
  sudo latch update";

/// How latch is used: what follows its version.
pub const HELP_BODY: &'static str = " — single-user passkey auth

USAGE:
  latch <command> [subcommand] [options]

COMMANDS:
  serve              run the daemon in the foreground
  check              validate config and state, then exit
  config init        write a new config file
  config show        print the resolved (file + env) config
  config path        print the path of the loaded config
  passkeys list      list registered passkeys
  passkeys reset     delete all passkeys (prompts on TTY)
  service start      install systemd unit and start in the background
  service stop       stop the systemd service
  service restart    restart the systemd service
  service status     show whether the service is running
  service uninstall  remove the systemd unit
  update             download + install the latest release
  version            print version (also -V, --version)
  help [<command>]   per-command usage (also -h, --help)

GLOBAL FLAGS:
  --config <path>    config file (default: $XDG_CONFIG_HOME/latch/config.toml)
  --listen <addr>    override LATCH_LISTEN
  --data-dir <path>  override LATCH_DATA_DIR
  --json             machine-readable output
  -q, --quiet        diagnostics off
  -v, --verbose      diagnostics on
  --no-color         disable color (also honored: NO_COLOR env)
  -y, --yes          skip confirmation prompts

CONFIG:
  TOML file is canonical; env vars override individual fields.
  Env: LATCH_HOSTNAME, LATCH_ORIGIN, LATCH_COOKIE_DOMAIN,
       LATCH_LISTEN, LATCH_DATA_DIR, LATCH_CONFIG.

EXAMPLES:
  latch check                                    # before deploy
  latch serve                                    # foreground server
  latch passkeys list --json | jq                # scripting
  latch passkeys reset --yes                     # wipe credentials
";

// --- laws -------------------------------------------------------------------

proof fn lemma_all_words(args: Seq<Seq<char>>, g: GlobalsView, out: Seq<Seq<char>>)
    ensures
        reading(args, g, out, true) == (g, ConsumedView::Words(out + args)),
    decreases args.len(),
{
    if args.len() == 0 {
        assert(out + args =~= out);
    } else {
        lemma_all_words(args.skip(1), g, out.push(args[0]));
        assert(out.push(args[0]) + args.skip(1) =~= out + args);
    }
}

/// `--` ends the flags: what follows it is taken as it stands.
pub proof fn dashes_end_the_flags(args: Seq<Seq<char>>, g: GlobalsView, out: Seq<Seq<char>>)
    ensures
        reading(seq!["--"@] + args, g, out, false) == (g, ConsumedView::Words(out + args)),
{
    let all = seq!["--"@] + args;
    assert(all.skip(1) =~= args);
    lemma_all_words(args, g, out);
}

proof fn lemma_words_first(
    words: Seq<Seq<char>>,
    tail: Seq<Seq<char>>,
    g: GlobalsView,
    out: Seq<Seq<char>>,
)
    requires
        forall|i: int| 0 <= i < words.len() ==> flag_of(#[trigger] words[i]) == Flag::Word,
    ensures
        reading(words + tail, g, out, false) == reading(tail, g, out + words, false),
    decreases words.len(),
{
    let all = words + tail;
    if words.len() == 0 {
        assert(all =~= tail);
        assert(out + words =~= out);
    } else {
        let rest = words.skip(1);
        assert(flag_of(words[0]) == Flag::Word);
        assert forall|i: int| 0 <= i < rest.len() implies flag_of(#[trigger] rest[i])
            == Flag::Word by {
            assert(rest[i] == words[i + 1]);
        }
        lemma_words_first(rest, tail, g, out.push(words[0]));
        assert(all.skip(1) =~= rest + tail);
        assert(out.push(words[0]) + rest =~= out + words);
    }
}

/// Arguments that are no flags are kept, in order, and set nothing.
pub proof fn words_are_kept(words: Seq<Seq<char>>, g: GlobalsView, out: Seq<Seq<char>>)
    requires
        forall|i: int| 0 <= i < words.len() ==> flag_of(#[trigger] words[i]) == Flag::Word,
    ensures
        reading(words, g, out, false) == (g, ConsumedView::Words(out + words)),
{
    lemma_words_first(words, Seq::empty(), g, out);
    assert(words + Seq::<Seq<char>>::empty() =~= words);
}

/// A flag means the same before the words of a command and behind them.
pub proof fn flags_may_stand_anywhere(
    words: Seq<Seq<char>>,
    flag: Seq<char>,
    g: GlobalsView,
    out: Seq<Seq<char>>,
)
    requires
        forall|i: int| 0 <= i < words.len() ==> flag_of(#[trigger] words[i]) == Flag::Word,
        ({
            let f = flag_of(flag);
            f == Flag::Quiet || f == Flag::Verbose || f == Flag::Yes || f == Flag::Json || f
                == Flag::NoColor || f is Own
        }),
    ensures
        reading(seq![flag] + words, g, out, false) == reading(words + seq![flag], g, out, false),
{
    reveal_with_fuel(reading, 2);
    let front = seq![flag] + words;
    let one = seq![flag];
    assert(front.skip(1) =~= words);
    assert(one.skip(1) =~= Seq::<Seq<char>>::empty());
    lemma_words_first(words, one, g, out);
    let set = reading(one, g, out, false).0;
    words_are_kept(words, set, out);
}

/// Every error of the command line itself exits with the code for usage.
pub proof fn command_line_errors_are_usage_errors(args: Seq<Seq<char>>, version: Seq<char>)
    ensures
        commanded(args, version).1 matches Err(e) ==> e.code == output::EX_USAGE,
{
    let (g, read) = reading(args, no_globals(), Seq::empty(), false);
    lemma_reading_errors(args, no_globals(), Seq::empty(), false);
    if let ConsumedView::Words(words) = read {
        if words.len() > 1 {
            lemma_init_errors(words.skip(1).skip(1), init_globals(g));
        }
    }
}

proof fn lemma_reading_errors(
    args: Seq<Seq<char>>,
    g: GlobalsView,
    out: Seq<Seq<char>>,
    ended: bool,
)
    ensures
        reading(args, g, out, ended).1 matches ConsumedView::Usage(e) ==> e.code
            == output::EX_USAGE,
    decreases args.len(),
{
    if args.len() > 0 {
        let a = args[0];
        let rest = args.skip(1);
        if ended {
            lemma_reading_errors(rest, g, out.push(a), true);
        } else {
            match flag_of(a) {
                Flag::End => lemma_reading_errors(rest, g, out, true),
                Flag::Version => {},
                Flag::Help => lemma_reading_errors(rest, g, seq!["help"@] + out, true),
                Flag::Quiet => lemma_reading_errors(
                    rest,
                    GlobalsView { quiet: true, ..g },
                    out,
                    false,
                ),
                Flag::Verbose => lemma_reading_errors(
                    rest,
                    GlobalsView { verbose: true, ..g },
                    out,
                    false,
                ),
                Flag::Yes => lemma_reading_errors(rest, GlobalsView { yes: true, ..g }, out, false),
                Flag::Json => lemma_reading_errors(
                    rest,
                    GlobalsView { json: true, ..g },
                    out,
                    false,
                ),
                Flag::NoColor => lemma_reading_errors(
                    rest,
                    GlobalsView { no_color: true, ..g },
                    out,
                    false,
                ),
                Flag::Next(s) => if rest.len() > 0 {
                    lemma_reading_errors(rest.skip(1), with_setting(g, s, rest[0]), out, false)
                },
                Flag::Own(s) => lemma_reading_errors(
                    rest,
                    with_setting(g, s, a.skip(prefix_of(s).len() as int)),
                    out,
                    false,
                ),
                Flag::Word => lemma_reading_errors(rest, g, out.push(a), false),
            }
        }
    }
}

proof fn lemma_init_errors(args: Seq<Seq<char>>, o: cmd::config::InitOptsView)
    ensures
        init_reading(args, o) matches Err(e) ==> e.code == output::EX_USAGE,
    decreases args.len(),
{
    if args.len() > 0 {
        let a = args[0];
        let rest = args.skip(1);
        match init_flag_of(a) {
            InitFlag::Print => lemma_init_errors(
                rest,
                cmd::config::InitOptsView { print: true, ..o },
            ),
            InitFlag::Yes => lemma_init_errors(rest, cmd::config::InitOptsView { yes: true, ..o }),
            InitFlag::Own(s) => lemma_init_errors(
                rest,
                with_init_setting(o, s, a.skip(init_prefix(s).len() as int)),
            ),
            InitFlag::Next(s) => if rest.len() > 0 {
                lemma_init_errors(rest.skip(1), with_init_setting(o, s, rest[0]))
            },
            InitFlag::Unknown => {},
        }
    }
}

} // verus!
