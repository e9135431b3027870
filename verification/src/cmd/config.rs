//! `latch config`: init, show, path.
//!
//! init writes a TOML file, asking for what it was not told. show prints the
//! configuration that file and environment come to. path prints where it is
//! loaded from.
use vstd::prelude::*;

use crate::config::{Config, Env, Mode, DEFAULT_LISTEN};
use crate::output::Error;
use crate::{config, json, outside, output, text};

verus! {

// --- init -------------------------------------------------------------------

/// What the command line says about the config to write.
#[derive(Debug)]
pub struct InitOpts {
    pub hostname: Option<String>,
    pub origin: Option<String>,
    pub cookie_domain: Option<String>,
    pub listen: Option<String>,
    pub data_dir: Option<String>,
    pub path: Option<String>,
    pub print: bool,
    pub yes: bool,
}

/// The contents of `InitOpts`.
pub struct InitOptsView {
    pub hostname: Option<Seq<char>>,
    pub origin: Option<Seq<char>>,
    pub cookie_domain: Option<Seq<char>>,
    pub listen: Option<Seq<char>>,
    pub data_dir: Option<Seq<char>>,
    pub path: Option<Seq<char>>,
    pub print: bool,
    pub yes: bool,
}

impl View for InitOpts {
    type V = InitOptsView;

    open spec fn view(&self) -> InitOptsView {
        InitOptsView {
            hostname: text::text_of(self.hostname),
            origin: text::text_of(self.origin),
            cookie_domain: text::text_of(self.cookie_domain),
            listen: text::text_of(self.listen),
            data_dir: text::text_of(self.data_dir),
            path: text::text_of(self.path),
            print: self.print,
            yes: self.yes,
        }
    }
}

/// What the command line says when it says nothing.
pub open spec fn no_opts() -> InitOptsView {
    InitOptsView {
        hostname: None,
        origin: None,
        cookie_domain: None,
        listen: None,
        data_dir: None,
        path: None,
        print: false,
        yes: false,
    }
}

impl Default for InitOpts {
    fn default() -> (res: InitOpts)
        ensures
            res@ == no_opts(),
    {
        InitOpts {
            hostname: None,
            origin: None,
            cookie_domain: None,
            listen: None,
            data_dir: None,
            path: None,
            print: false,
            yes: false,
        }
    }
}

/// The line of one setting in a config file: as it was given, or its default
/// behind a comment sign.
pub open spec fn setting_line(name: Seq<char>, value: Option<Seq<char>>, default: Seq<char>) -> Seq<
    char,
> {
    match value {
        Some(v) => text::padded(name, 13) + " = \""@ + v + "\""@,
        None => "# "@ + text::padded(name, 13) + " = \""@ + default + "\""@,
    }
}

/// Puts one setting behind the text of a config file.
pub fn line(buf: &mut String, name: &str, value: Option<&str>, default: &str)
    ensures
        final(buf)@ == old(buf)@ + setting_line(name@, text::slice_text_of(value), default@)
            + "\n"@,
{
    let key = text::pad(name, 13);
    let added = match value {
        Some(v) => key.concat(" = \"").concat(v).concat("\""),
        None => "# ".to_owned().concat(key.as_str()).concat(" = \"").concat(default).concat("\""),
    };
    buf.append(added.as_str());
    buf.append("\n");
}

/// Lines, each with its end.
pub open spec fn ended(lines: Seq<Seq<char>>) -> Seq<char>
    decreases lines.len(),
{
    if lines.len() == 0 {
        Seq::empty()
    } else {
        ended(lines.drop_last()) + lines.last() + "\n"@
    }
}

/// The lines of a config file.
pub open spec fn file_lines(
    hostname: Seq<char>,
    layer: config::ConfigFileView,
    origin: Seq<char>,
    domain: Seq<char>,
    data_dir: Seq<char>,
) -> Seq<Seq<char>> {
    seq![
        "# latch config"@,
        "# https://github.com/TerryTsai/latch"@,
        Seq::empty(),
        "# REQUIRED. Hostname where latch is publicly reachable."@,
        "hostname"@ + " = \""@ + hostname + "\""@,
        Seq::empty(),
        "# Optional overrides. Defaults shown commented."@,
        setting_line("origin"@, layer.origin, origin),
        setting_line("cookie_domain"@, layer.cookie_domain, domain),
        setting_line("listen"@, layer.listen, DEFAULT_LISTEN@),
        setting_line("data_dir"@, layer.data_dir, data_dir),
    ]
}

/// A config file.
pub open spec fn config_text(
    hostname: Seq<char>,
    layer: config::ConfigFileView,
    origin: Seq<char>,
    domain: Seq<char>,
    data_dir: Seq<char>,
) -> Seq<char> {
    ended(file_lines(hostname, layer, origin, domain, data_dir))
}

fn add_line(buf: &mut String, l: &str)
    ensures
        final(buf)@ == old(buf)@ + l@ + "\n"@,
{
    buf.append(l);
    buf.append("\n");
}

/// The text of a config file. A setting that is given stands as it is; the
/// others stand with their default behind a comment sign.
pub fn render_config(
    hostname: &str,
    origin: Option<&str>,
    derived_origin: &str,
    cookie_domain: Option<&str>,
    derived_domain: &str,
    listen: Option<&str>,
    data_dir: Option<&str>,
    default_data_dir: &str,
) -> (res: String)
    ensures
        res@ == config_text(
            hostname@,
            (config::ConfigFileView {
                hostname: Some(hostname@),
                origin: text::slice_text_of(origin),
                cookie_domain: text::slice_text_of(cookie_domain),
                listen: text::slice_text_of(listen),
                data_dir: text::slice_text_of(data_dir),
            }),
            derived_origin@,
            derived_domain@,
            default_data_dir@,
        ),
{
    let ghost layer = config::ConfigFileView {
        hostname: Some(hostname@),
        origin: text::slice_text_of(origin),
        cookie_domain: text::slice_text_of(cookie_domain),
        listen: text::slice_text_of(listen),
        data_dir: text::slice_text_of(data_dir),
    };
    let ghost all = file_lines(
        hostname@,
        layer,
        derived_origin@,
        derived_domain@,
        default_data_dir@,
    );
    let mut out = String::new();
    proof {
        reveal_strlit("");
        assert(""@ =~= Seq::<char>::empty());
        assert(all.take(0) =~= Seq::empty());
        assert forall|i: int| 0 <= i < all.len() implies #[trigger] ended(all.take(i + 1)) == ended(
            all.take(i),
        ) + all[i] + "\n"@ by {
            assert(all.take(i + 1).drop_last() =~= all.take(i));
        }
        assert(all.take(11) =~= all);
        assert(ended(all.take(0int + 1)) == ended(all.take(0)) + all[0] + "\n"@);
        assert(ended(all.take(1int + 1)) == ended(all.take(1)) + all[1] + "\n"@);
        assert(ended(all.take(2int + 1)) == ended(all.take(2)) + all[2] + "\n"@);
        assert(ended(all.take(3int + 1)) == ended(all.take(3)) + all[3] + "\n"@);
        assert(ended(all.take(4int + 1)) == ended(all.take(4)) + all[4] + "\n"@);
        assert(ended(all.take(5int + 1)) == ended(all.take(5)) + all[5] + "\n"@);
        assert(ended(all.take(6int + 1)) == ended(all.take(6)) + all[6] + "\n"@);
        assert(ended(all.take(7int + 1)) == ended(all.take(7)) + all[7] + "\n"@);
        assert(ended(all.take(8int + 1)) == ended(all.take(8)) + all[8] + "\n"@);
        assert(ended(all.take(9int + 1)) == ended(all.take(9)) + all[9] + "\n"@);
        assert(ended(all.take(10int + 1)) == ended(all.take(10)) + all[10] + "\n"@);
    }
    add_line(&mut out, "# latch config");
    add_line(&mut out, "# https://github.com/TerryTsai/latch");
    add_line(&mut out, "");
    add_line(&mut out, "# REQUIRED. Hostname where latch is publicly reachable.");
    add_line(&mut out, "hostname".to_owned().concat(" = \"").concat(hostname).concat("\"").as_str());
    add_line(&mut out, "");
    add_line(&mut out, "# Optional overrides. Defaults shown commented.");
    line(&mut out, "origin", origin, derived_origin);
    line(&mut out, "cookie_domain", cookie_domain, derived_domain);
    line(&mut out, "listen", listen, DEFAULT_LISTEN);
    line(&mut out, "data_dir", data_dir, default_data_dir);
    out
}

/// One setting in the summary of what will be written.
pub open spec fn shown_field(name: Seq<char>, value: Option<Seq<char>>, default: Seq<char>) -> Seq<
    char,
> {
    match value {
        Some(v) => "  "@ + text::padded(name, 13) + " = "@ + v + "\n"@,
        None => "  "@ + text::padded(name, 13) + " = "@ + default + "   (default)\n"@,
    }
}

/// The line for one setting in the summary of what will be written.
pub fn show_field(name: &str, value: Option<&str>, default: &str) -> (res: String)
    ensures
        res@ == shown_field(name@, text::slice_text_of(value), default@),
{
    let key = "  ".to_owned().concat(text::pad(name, 13).as_str());
    match value {
        Some(v) => key.concat(" = ").concat(v).concat("\n"),
        None => key.concat(" = ").concat(default).concat("   (default)\n"),
    }
}

/// What `config init` does next.
pub enum Init {
    /// Ask for the hostname.
    Ask { question: String },
    /// Print the config to stdout.
    Print { content: String },
    /// Show the summary, ask, and write the config if the answer is yes.
    Confirm { summary: String, question: String, target: String, content: String },
    /// Write the config.
    Write { target: String, content: String },
}

/// The contents of an `Init`.
pub enum InitView {
    Ask { question: Seq<char> },
    Print { content: Seq<char> },
    Confirm { summary: Seq<char>, question: Seq<char>, target: Seq<char>, content: Seq<char> },
    Write { target: Seq<char>, content: Seq<char> },
}

impl View for Init {
    type V = InitView;

    open spec fn view(&self) -> InitView {
        match self {
            Init::Ask { question } => InitView::Ask { question: question@ },
            Init::Print { content } => InitView::Print { content: content@ },
            Init::Confirm { summary, question, target, content } => InitView::Confirm {
                summary: summary@,
                question: question@,
                target: target@,
                content: content@,
            },
            Init::Write { target, content } => InitView::Write {
                target: target@,
                content: content@,
            },
        }
    }
}

/// A result with the contents of its step or of its error.
pub open spec fn init_or_error(r: Result<Init, Error>) -> Result<InitView, output::ErrorView> {
    match r {
        Ok(s) => Ok(s@),
        Err(e) => Err(e@),
    }
}

/// The layer that a command line puts down for a hostname.
pub open spec fn opts_layer(o: InitOptsView, hostname: Seq<char>) -> config::ConfigFileView {
    config::ConfigFileView {
        hostname: Some(hostname),
        origin: o.origin,
        cookie_domain: o.cookie_domain,
        listen: o.listen,
        data_dir: o.data_dir,
    }
}

/// The config that is written for a hostname.
pub open spec fn init_content(o: InitOptsView, hostname: Seq<char>, default_dir: Seq<char>) -> Seq<
    char,
> {
    config_text(
        hostname,
        opts_layer(o, hostname),
        "https://"@ + hostname,
        config::parent_domain(hostname),
        default_dir,
    )
}

/// The summary of what will be written.
pub open spec fn init_summary(
    o: InitOptsView,
    hostname: Seq<char>,
    mode: Mode,
    default_dir: Seq<char>,
) -> Seq<char> {
    "\n  mode          = "@ + mode.word() + "\n  hostname      = "@ + hostname + "\n"@ + shown_field(
        "origin"@,
        o.origin,
        "https://"@ + hostname,
    ) + shown_field("cookie_domain"@, o.cookie_domain, config::parent_domain(hostname))
        + shown_field("listen"@, o.listen, DEFAULT_LISTEN@) + shown_field(
        "data_dir"@,
        o.data_dir,
        default_dir,
    ) + "\n"@
}

/// What `config init` does for a hostname: a placeholder is refused, and else
/// the config is printed, or written after a question or without one.
pub open spec fn init_for(
    o: InitOptsView,
    hostname: Seq<char>,
    mode: Mode,
    default_path: Seq<char>,
    default_dir: Seq<char>,
) -> Result<InitView, output::ErrorView> {
    let target = config::given_or(o.path, default_path);
    let content = init_content(o, hostname, default_dir);
    if hostname.len() == 0 {
        Err(output::plain_error("hostname is required"@, output::EX_USAGE))
    } else if text::holds(hostname, "example.com"@) {
        Err(output::plain_error("hostname can't be a placeholder"@, output::EX_USAGE))
    } else if o.print {
        Ok(InitView::Print { content })
    } else if o.yes {
        Ok(InitView::Write { target, content })
    } else {
        Ok(
            InitView::Confirm {
                summary: init_summary(o, hostname, mode, default_dir),
                question: "Write to "@ + target + "? [Y/n] "@,
                target,
                content,
            },
        )
    }
}

/// What `config init` does first.
pub open spec fn init_start(
    o: InitOptsView,
    stdin_tty: bool,
    mode: Mode,
    default_path: Seq<char>,
    default_dir: Seq<char>,
) -> Result<InitView, output::ErrorView> {
    match o.hostname {
        Some(h) => init_for(o, text::trimmed(h), mode, default_path, default_dir),
        None => if stdin_tty {
            Ok(InitView::Ask { question: "Hostname (e.g. latch.example.com): "@ })
        } else {
            Err(
                output::hinted_error(
                    "hostname is required on non-TTY"@,
                    "pass --hostname=<host> or run interactively"@,
                    output::EX_USAGE,
                ),
            )
        },
    }
}

fn slice(o: &Option<String>) -> (res: Option<&str>)
    ensures
        text::slice_text_of(res) == text::text_of(*o),
{
    match o {
        Some(s) => Some(s.as_str()),
        None => None,
    }
}

/// What `config init` does once it knows the hostname.
pub fn init_with_hostname(opts: &InitOpts, hostname: &str, mode: Mode, env: &Env) -> (res: Result<
    Init,
    Error,
>)
    ensures
        init_or_error(res) == init_for(
            opts@,
            text::trimmed(hostname@),
            mode,
            config::config_path_of(mode, *env),
            config::data_dir_of(mode, *env),
        ),
{
    let target = match &opts.path {
        Some(p) => p.clone(),
        None => config::default_config_path(mode, env),
    };
    let hostname = text::trim(hostname);
    let host = hostname.as_str();
    if text::chars_of(host).len() == 0 {
        return Err(Error::usage("hostname is required"));
    }
    if text::contains(host, "example.com") {
        return Err(Error::usage("hostname can't be a placeholder"));
    }
    let origin = "https://".to_owned().concat(host);
    let domain = config::derive_cookie_domain(host);
    let data_dir = config::default_data_dir(mode, env);
    let content = render_config(
        host,
        slice(&opts.origin),
        origin.as_str(),
        slice(&opts.cookie_domain),
        domain.as_str(),
        slice(&opts.listen),
        slice(&opts.data_dir),
        data_dir.as_str(),
    );
    if opts.print {
        return Ok(Init::Print { content });
    }
    if opts.yes {
        return Ok(Init::Write { target, content });
    }
    let summary = "\n  mode          = ".to_owned().concat(mode.label()).concat(
        "\n  hostname      = ",
    ).concat(host).concat("\n").concat(
        show_field("origin", slice(&opts.origin), origin.as_str()).as_str(),
    ).concat(
        show_field("cookie_domain", slice(&opts.cookie_domain), domain.as_str()).as_str(),
    ).concat(show_field("listen", slice(&opts.listen), DEFAULT_LISTEN).as_str()).concat(
        show_field("data_dir", slice(&opts.data_dir), data_dir.as_str()).as_str(),
    ).concat("\n");
    let question = "Write to ".to_owned().concat(target.as_str()).concat("? [Y/n] ");
    Ok(Init::Confirm { summary, question, target, content })
}

/// What `config init` does first. `stdin_tty` says that there is somebody to
/// ask.
pub fn init(opts: &InitOpts, stdin_tty: bool, mode: Mode, env: &Env) -> (res: Result<Init, Error>)
    ensures
        init_or_error(res) == init_start(
            opts@,
            stdin_tty,
            mode,
            config::config_path_of(mode, *env),
            config::data_dir_of(mode, *env),
        ),
{
    match &opts.hostname {
        Some(h) => init_with_hostname(opts, h.as_str(), mode, env),
        None => if stdin_tty {
            Ok(Init::Ask { question: "Hostname (e.g. latch.example.com): ".to_owned() })
        } else {
            Err(
                Error::usage("hostname is required on non-TTY").with_hint(
                    "pass --hostname=<host> or run interactively",
                ),
            )
        },
    }
}

/// An answer that says yes, or says nothing.
pub open spec fn agrees(line: Seq<char>) -> bool {
    let answer = text::trimmed(line);
    answer.len() == 0 || text::same_letters(answer, "y"@)
}

/// Whether the config is written, given the line that was answered.
pub fn confirm(line: &str) -> (res: Result<(), Error>)
    ensures
        match res {
            Ok(_) => agrees(line@),
            Err(e) => !agrees(line@) && e@ == output::plain_error("aborted"@, output::EX_FAIL),
        },
{
    let answer = text::trim(line);
    if text::chars_of(answer.as_str()).len() > 0 && !text::same_ignoring_case(answer.as_str(), "y") {
        return Err(Error::fail("aborted"));
    }
    Ok(())
}

/// The error where a directory for the config cannot be made.
pub fn mkdir_error(dir: &str, error: &str) -> (res: Error)
    ensures
        res@ == output::plain_error("mkdir "@ + dir@ + ": "@ + error@, output::EX_CANTCREAT),
{
    Error::cantcreat("mkdir ".to_owned().concat(dir).concat(": ").concat(error).as_str())
}

/// The error where the config cannot be written.
pub fn write_error(target: &str, error: &str) -> (res: Error)
    ensures
        res@ == output::plain_error("write "@ + target@ + ": "@ + error@, output::EX_CANTCREAT),
{
    Error::cantcreat("write ".to_owned().concat(target).concat(": ").concat(error).as_str())
}

/// What is said once the config has been written.
pub fn written(target: &str, mode: Mode) -> (res: String)
    ensures
        res@ == "Wrote "@ + target@ + "\nNext:\n    "@ + match mode {
            Mode::System => "sudo latch service start"@,
            Mode::User => "latch service start"@,
        } + "\n"@,
{
    let next = match mode {
        Mode::System => "sudo latch service start",
        Mode::User => "latch service start",
    };
    "Wrote ".to_owned().concat(target).concat("\nNext:\n    ").concat(next).concat("\n")
}

// --- show -------------------------------------------------------------------

/// The fields of a configuration, in alphabetical order.
pub open spec fn config_fields(c: config::ConfigView) -> Seq<(Seq<char>, Seq<char>)> {
    seq![
        (json::key("config"@), outside::json_text(config::source_text(c.source))),
        (json::key("cookie_domain"@), outside::json_text(c.cookie_domain)),
        (json::key("data_dir"@), outside::json_text(c.data_dir)),
        (json::key("hostname"@), outside::json_text(c.hostname)),
        (json::key("listen"@), outside::json_text(c.listen)),
        (json::key("origin"@), outside::json_text(c.origin)),
        (json::key("passkeys_path"@), outside::json_text(c.passkeys_path)),
    ]
}

/// A configuration in lines.
pub open spec fn config_lines(c: config::ConfigView) -> Seq<char> {
    "config        = "@ + config::source_text(c.source) + "\nhostname      = "@ + c.hostname
        + "\norigin        = "@ + c.origin + "\ncookie_domain = "@ + c.cookie_domain
        + "\nlisten        = "@ + c.listen + "\ndata_dir      = "@ + c.data_dir
        + "\npasskeys_path = "@ + c.passkeys_path
}

/// The text of a result, or the contents of its error.
pub open spec fn text_or_error(r: Result<String, Error>) -> Result<Seq<char>, output::ErrorView> {
    match r {
        Ok(s) => Ok(s@),
        Err(e) => Err(e@),
    }
}

/// What may help where no configuration is found.
pub open spec fn load_hint_text(default_path: Seq<char>) -> Seq<char> {
    "run `latch config init` to create "@ + default_path + ", or set LATCH_HOSTNAME"@
}

pub fn load_hint(mode: Mode, env: &Env) -> (res: String)
    ensures
        res@ == load_hint_text(config::config_path_of(mode, *env)),
{
    let default = config::default_config_path(mode, env);
    "run `latch config init` to create ".to_owned().concat(default.as_str()).concat(
        ", or set LATCH_HOSTNAME",
    )
}

/// A configuration as one JSON object.
pub fn to_json(cfg: &Config) -> (res: String)
    ensures
        res@ == json::object(config_fields(cfg@)),
{
    let mut fields: Vec<(String, String)> = Vec::new();
    let source = cfg.source.display();
    json::push_field(&mut fields, "config", outside::json_string(source.as_str()));
    json::push_field(
        &mut fields,
        "cookie_domain",
        outside::json_string(cfg.cookie_domain.as_str()),
    );
    json::push_field(&mut fields, "data_dir", outside::json_string(cfg.data_dir.as_str()));
    json::push_field(&mut fields, "hostname", outside::json_string(cfg.hostname.as_str()));
    json::push_field(&mut fields, "listen", outside::json_string(cfg.listen.as_str()));
    json::push_field(&mut fields, "origin", outside::json_string(cfg.origin.as_str()));
    json::push_field(
        &mut fields,
        "passkeys_path",
        outside::json_string(cfg.passkeys_path.as_str()),
    );
    assert(outside::pair_texts(fields@) =~= config_fields(cfg@));
    json::to_object(&fields)
}

/// What `config show` prints, given what loading the config came to.
pub fn show(loaded: &Result<Config, String>, json: bool, mode: Mode, env: &Env) -> (res: Result<
    String,
    Error,
>)
    ensures
        text_or_error(res) == match *loaded {
            Ok(cfg) => Ok(
                if json {
                    json::object(config_fields(cfg@))
                } else {
                    config_lines(cfg@)
                } + "\n"@,
            ),
            Err(e) => Err(
                output::hinted_error(
                    e@,
                    load_hint_text(config::config_path_of(mode, *env)),
                    output::EX_CONFIG,
                ),
            ),
        },
{
    match loaded {
        Ok(cfg) => if json {
            Ok(to_json(cfg).concat("\n"))
        } else {
            Ok(
                "config        = ".to_owned().concat(cfg.source.display().as_str()).concat(
                    "\nhostname      = ",
                ).concat(cfg.hostname.as_str()).concat("\norigin        = ").concat(
                    cfg.origin.as_str(),
                ).concat("\ncookie_domain = ").concat(cfg.cookie_domain.as_str()).concat(
                    "\nlisten        = ",
                ).concat(cfg.listen.as_str()).concat("\ndata_dir      = ").concat(
                    cfg.data_dir.as_str(),
                ).concat("\npasskeys_path = ").concat(cfg.passkeys_path.as_str()).concat("\n"),
            )
        },
        Err(e) => Err(Error::config(e.as_str()).with_hint(load_hint(mode, env).as_str())),
    }
}

// --- path -------------------------------------------------------------------

/// What `config path` prints, given where the config was found: its path, or
/// `(env)` where the environment alone is enough.
pub fn path(found: &Result<String, String>, mode: Mode, env: &Env) -> (res: Result<String, Error>)
    ensures
        text_or_error(res) == match *found {
            Ok(p) => Ok(p@ + "\n"@),
            Err(e) => if env.latch_hostname is Some {
                Ok("(env)\n"@)
            } else {
                Err(
                    output::hinted_error(
                        e@,
                        load_hint_text(config::config_path_of(mode, *env)),
                        output::EX_CONFIG,
                    ),
                )
            },
        },
{
    match found {
        Ok(p) => Ok(p.clone().concat("\n")),
        Err(e) => if env.latch_hostname.is_some() {
            Ok("(env)\n".to_owned())
        } else {
            Err(Error::config(e.as_str()).with_hint(load_hint(mode, env).as_str()))
        },
    }
}

// --- reading back -----------------------------------------------------------

/// A text that stands for itself between quotes: without quotes, backslashes
/// and control characters.
pub open spec fn is_plain(v: Seq<char>) -> bool {
    forall|i: int|
        0 <= i < v.len() ==> {
            let c = #[trigger] v[i];
            c != '"' && c != '\\' && c as u32 >= 32 && c as u32 != 127
        }
}

/// The name and the value of a line `name = "value"`, the value being plain.
/// A line that is empty or a comment, or has another form, has none.
pub open spec fn read_line(l: Seq<char>) -> Option<(Seq<char>, Seq<char>)> {
    if l.len() == 0 || l[0] == '#' {
        None
    } else {
        match text::first_at(l, " = \""@) {
            Some(i) => if i + 4 < l.len() && l.last() == '"' && is_plain(
                l.subrange(i + 4, l.len() - 1),
            ) {
                Some((text::trimmed_end(l.take(i)), l.subrange(i + 4, l.len() - 1)))
            } else {
                None
            },
            None => None,
        }
    }
}

/// The value of the first line with a name.
pub open spec fn setting_in(lines: Seq<Seq<char>>, name: Seq<char>) -> Option<Seq<char>>
    decreases lines.len(),
{
    if lines.len() == 0 {
        None
    } else {
        match read_line(lines[0]) {
            Some((n, v)) => if n == name {
                Some(v)
            } else {
                setting_in(lines.skip(1), name)
            },
            None => setting_in(lines.skip(1), name),
        }
    }
}

/// The layer that a text of such lines puts down.
pub open spec fn layer_in(content: Seq<char>) -> config::ConfigFileView {
    let lines = text::pieces(content, '\n');
    config::ConfigFileView {
        hostname: setting_in(lines, "hostname"@),
        origin: setting_in(lines, "origin"@),
        cookie_domain: setting_in(lines, "cookie_domain"@),
        listen: setting_in(lines, "listen"@),
        data_dir: setting_in(lines, "data_dir"@),
    }
}

/// A line is that of a setting, given or behind a comment sign.
pub open spec fn is_line_of(l: Seq<char>, name: Seq<char>) -> bool {
    let start = text::padded(name, 13) + " = \""@;
    start.is_prefix_of(l) || ("# "@ + start).is_prefix_of(l)
}

/// A setting has exactly one line, the one at `i`.
pub open spec fn has_one_line(lines: Seq<Seq<char>>, name: Seq<char>, i: int) -> bool {
    &&& 0 <= i < lines.len()
    &&& forall|j: int| 0 <= j < lines.len() ==> (#[trigger] is_line_of(lines[j], name) <==> j == i)
}

/// A setting that is plain, if it is given.
pub open spec fn is_plain_option(v: Option<Seq<char>>) -> bool {
    v matches Some(t) ==> is_plain(t)
}

proof fn lemma_plain_has_no_end(v: Seq<char>)
    requires
        is_plain(v),
    ensures
        !v.contains('\n'),
{
    if v.contains('\n') {
        let i = v.index_of('\n');
        assert(v[i] as u32 >= 32);
    }
}

proof fn lemma_ended_pieces(lines: Seq<Seq<char>>, rest: Seq<char>)
    requires
        forall|i: int| 0 <= i < lines.len() ==> !(#[trigger] lines[i]).contains('\n'),
        !rest.contains('\n'),
    ensures
        text::pieces(ended(lines) + rest, '\n') == lines.push(rest),
    decreases lines.len(),
{
    reveal_strlit("\n");
    if lines.len() == 0 {
        assert(ended(lines) + rest =~= rest);
        text::lemma_pieces_single(rest, '\n');
        assert(lines.push(rest) =~= seq![rest]);
    } else {
        let head = lines.drop_last();
        let last = lines.last();
        assert forall|i: int| 0 <= i < head.len() implies !(#[trigger] head[i]).contains('\n') by {
            assert(head[i] == lines[i]);
        }
        assert(!lines[lines.len() - 1].contains('\n'));
        lemma_ended_pieces(head, last);
        text::lemma_pieces_append(ended(head) + last, '\n', rest);
        assert(ended(lines) + rest =~= (ended(head) + last) + seq!['\n'] + rest);
        assert(head.push(last) =~= lines);
    }
}

/// Padding does not change a name that does not end in white space.
proof fn lemma_padded_trims(name: Seq<char>, n: nat)
    requires
        name.len() > 0,
        !text::is_space(name.last()),
    ensures
        text::trimmed_end(name + text::spaces(n)) == name,
    decreases n,
{
    if n == 0 {
        assert(name + text::spaces(0) =~= name);
    } else {
        let s = name + text::spaces(n);
        assert(s.drop_last() =~= name + text::spaces((n - 1) as nat));
        assert(s.last() == ' ');
        lemma_padded_trims(name, (n - 1) as nat);
    }
}

/// A name, padded or not, and a plain value between quotes are read back.
proof fn lemma_line_reads(name: Seq<char>, key: Seq<char>, v: Seq<char>)
    requires
        name.len() > 0,
        name[0] != '#',
        !text::is_space(name.last()),
        !name.contains('='),
        key == name || key == text::padded(name, 13),
        is_plain(v),
    ensures
        read_line(key + " = \""@ + v + "\""@) == Some((name, v)),
{
    reveal_strlit(" = \"");
    reveal_strlit("\"");
    let mark = " = \""@;
    let l = key + mark + v + "\""@;
    let k = key.len() as int;
    if key.len() > name.len() {
        assert(key == name + text::spaces((13 - name.len()) as nat));
        lemma_padded_trims(name, (13 - name.len()) as nat);
    } else {
        assert(key == name);
    }
    assert forall|i: int| 0 <= i < k implies key[i] != '=' by {
        if i < name.len() {
            if name[i] == '=' {
                assert(name.contains('='));
            }
        }
    }
    assert(l.subrange(k, k + 4) =~= mark);
    text::lemma_find_from(l, mark, 0);
    assert(text::occurs_at(l, mark, k));
    assert forall|j: int| 0 <= j < k implies !text::occurs_at(l, mark, j) by {
        if text::occurs_at(l, mark, j) {
            assert(l.subrange(j, j + 4)[1] == mark[1]);
            assert(l[j + 1] == '=');
            if j + 1 < k {
                assert(key[j + 1] == l[j + 1]);
            }
        }
    }
    assert(text::first_at(l, mark) == Some(k));
    assert(l.take(k) =~= key);
    assert(l.subrange(k + 4, l.len() - 1) =~= v);
    assert(l[0] == name[0]);
    assert(l.last() == '"');
}

/// A line behind a comment sign says nothing.
proof fn lemma_comment_reads(rest: Seq<char>)
    ensures
        read_line("# "@ + rest) is None,
{
    reveal_strlit("# ");
}

proof fn lemma_setting_line(name: Seq<char>, value: Option<Seq<char>>, default: Seq<char>)
    requires
        name.len() > 0,
        name[0] != '#',
        !text::is_space(name.last()),
        !name.contains('='),
        !name.contains('\n'),
        is_plain_option(value),
        is_plain(default),
    ensures
        read_line(setting_line(name, value, default)) == match value {
            Some(v) => Some((name, v)),
            None => None,
        },
        !setting_line(name, value, default).contains('\n'),
{
    reveal_strlit("# ");
    reveal_strlit(" = \"");
    reveal_strlit("\"");
    let l = setting_line(name, value, default);
    let key = text::padded(name, 13);
    let shown = match value {
        Some(v) => v,
        None => default,
    };
    lemma_plain_has_no_end(shown);
    match value {
        Some(v) => lemma_line_reads(name, key, v),
        None => {
            let rest = key + " = \""@ + default + "\""@;
            assert(l =~= "# "@ + rest);
            lemma_comment_reads(rest);
        },
    }
    if l.contains('\n') {
        let i = l.index_of('\n');
        let from = if value is Some {
            0int
        } else {
            2int
        };
        if from <= i < from + key.len() {
            assert(l[i] == key[i - from]);
            if i - from < name.len() {
                assert(name.contains('\n'));
            }
        } else if from + key.len() + 4 <= i < l.len() - 1 {
            assert(l[i] == shown[i - from - key.len() - 4]);
            assert(shown.contains('\n'));
        }
    }
}

proof fn lemma_names()
    ensures
        ({
            let name = "hostname"@;
            name.len() == 8 && name[0] == 'h' && !text::is_space(name.last()) && !name.contains('=')
                && !name.contains('\n')
        }),
        ({
            let name = "origin"@;
            name.len() == 6 && name[0] == 'o' && !text::is_space(name.last()) && !name.contains('=')
                && !name.contains('\n')
        }),
        ({
            let name = "cookie_domain"@;
            name.len() == 13 && name[0] == 'c' && !text::is_space(name.last()) && !name.contains(
                '=',
            ) && !name.contains('\n')
        }),
        ({
            let name = "listen"@;
            name.len() == 6 && name[0] == 'l' && !text::is_space(name.last()) && !name.contains('=')
                && !name.contains('\n')
        }),
        ({
            let name = "data_dir"@;
            name.len() == 8 && name[0] == 'd' && !text::is_space(name.last()) && !name.contains('=')
                && !name.contains('\n')
        }),
{
    reveal_strlit("hostname");
    reveal_strlit("origin");
    reveal_strlit("cookie_domain");
    reveal_strlit("listen");
    reveal_strlit("data_dir");
}

proof fn lemma_fixed_lines()
    ensures
        read_line("# latch config"@) is None,
        !"# latch config"@.contains('\n'),
        read_line("# https://github.com/TerryTsai/latch"@) is None,
        !"# https://github.com/TerryTsai/latch"@.contains('\n'),
        read_line("# REQUIRED. Hostname where latch is publicly reachable."@) is None,
        !"# REQUIRED. Hostname where latch is publicly reachable."@.contains('\n'),
        read_line("# Optional overrides. Defaults shown commented."@) is None,
        !"# Optional overrides. Defaults shown commented."@.contains('\n'),
        is_plain(DEFAULT_LISTEN@),
{
    reveal_strlit("# latch config");
    reveal_strlit("# https://github.com/TerryTsai/latch");
    reveal_strlit("# REQUIRED. Hostname where latch is publicly reachable.");
    reveal_strlit("# Optional overrides. Defaults shown commented.");
    reveal_strlit("127.0.0.1:8080");
}

// --- laws -------------------------------------------------------------------

/// A config file says what it was made of: read line by line, it puts down the
/// hostname and the settings that were given, and nothing for the others,
/// whose defaults stand in comments. Each setting has one line either way.
/// This holds of texts that stand for
/// themselves between quotes; others are written as they are, and may not be
/// read back at all.
#[verifier::rlimit(60)]
pub proof fn configs_say_what_they_were_made_of(
    hostname: Seq<char>,
    layer: config::ConfigFileView,
    origin: Seq<char>,
    domain: Seq<char>,
    data_dir: Seq<char>,
)
    requires
        layer.hostname == Some(hostname),
        is_plain(hostname),
        is_plain_option(layer.origin),
        is_plain_option(layer.cookie_domain),
        is_plain_option(layer.listen),
        is_plain_option(layer.data_dir),
        is_plain(origin),
        is_plain(domain),
        is_plain(data_dir),
    ensures
        layer_in(config_text(hostname, layer, origin, domain, data_dir)) == layer,
        text::pieces(config_text(hostname, layer, origin, domain, data_dir), '\n') == file_lines(
            hostname,
            layer,
            origin,
            domain,
            data_dir,
        ).push(Seq::empty()),
        ({
            let lines = text::pieces(
                config_text(hostname, layer, origin, domain, data_dir),
                '\n',
            );
            &&& has_one_line(lines, "origin"@, 7)
            &&& has_one_line(lines, "cookie_domain"@, 8)
            &&& has_one_line(lines, "listen"@, 9)
            &&& has_one_line(lines, "data_dir"@, 10)
        }),
{
    let all = file_lines(hostname, layer, origin, domain, data_dir);
    lemma_names();
    lemma_fixed_lines();
    lemma_setting_line("origin"@, layer.origin, origin);
    lemma_setting_line("cookie_domain"@, layer.cookie_domain, domain);
    lemma_setting_line("listen"@, layer.listen, DEFAULT_LISTEN@);
    lemma_setting_line("data_dir"@, layer.data_dir, data_dir);
    lemma_line_reads("hostname"@, "hostname"@, hostname);
    lemma_plain_has_no_end(hostname);
    let host_line = "hostname"@ + " = \""@ + hostname + "\""@;
    assert(!host_line.contains('\n')) by {
        reveal_strlit(" = \"");
        reveal_strlit("\"");
        if host_line.contains('\n') {
            let i = host_line.index_of('\n');
            if i < 8 {
                assert("hostname"@[i] == '\n');
            } else if 12 <= i < host_line.len() - 1 {
                assert(hostname[i - 12] == '\n');
            }
        }
    }
    let none = Seq::<char>::empty();
    lemma_ended_pieces(all, none);
    let lines = all.push(none);
    assert(ended(all) + none =~= ended(all));
    assert(text::pieces(ended(all), '\n') == lines);
    lemma_settings(lines, hostname, layer);
    lemma_one_line_each(hostname, layer, origin, domain, data_dir);
}

/// What the line of a setting starts with.
proof fn lemma_line_start(name: Seq<char>, value: Option<Seq<char>>, default: Seq<char>)
    requires
        name.len() > 1,
        name[0] != '#',
    ensures
        is_line_of(setting_line(name, value, default), name),
        ({
            let l = setting_line(name, value, default);
            ||| l.len() > 3 && l[0] == '#' && l[1] == ' ' && l[2] == name[0] && l[3] == name[1]
            ||| l.len() > 3 && l[0] == name[0] && l[1] == name[1]
        }),
{
    reveal_strlit("# ");
    reveal_strlit(" = \"");
    let start = text::padded(name, 13) + " = \""@;
    let l = setting_line(name, value, default);
    match value {
        Some(v) => {
            assert(l.take(start.len() as int) =~= start);
        },
        None => {
            let c = "# "@ + start;
            assert(l.take(c.len() as int) =~= c);
        },
    }
}

/// A line that starts otherwise is of another setting, or of none.
proof fn lemma_other_line(l: Seq<char>, name: Seq<char>)
    requires
        name.len() > 1,
        name[0] != '#',
        l.len() < 4 || {
            &&& l[0] != name[0] || l[1] != name[1]
            &&& l[0] != '#' || l[2] != name[0] || l[3] != name[1]
        },
    ensures
        !is_line_of(l, name),
{
    reveal_strlit("# ");
    reveal_strlit(" = \"");
    let start = text::padded(name, 13) + " = \""@;
    let c = "# "@ + start;
    assert(start[0] == name[0] && start[1] == name[1]);
    if start.is_prefix_of(l) {
        assert(l.take(start.len() as int) == start);
        assert(l[0] == start[0] && l[1] == start[1]);
    }
    if c.is_prefix_of(l) {
        assert(l.take(c.len() as int) == c);
        assert(l[0] == c[0] && l[2] == c[2] && l[3] == c[3]);
    }
}

proof fn lemma_one_line_each(
    hostname: Seq<char>,
    layer: config::ConfigFileView,
    origin: Seq<char>,
    domain: Seq<char>,
    data_dir: Seq<char>,
)
    ensures
        ({
            let lines = file_lines(hostname, layer, origin, domain, data_dir).push(Seq::empty());
            &&& has_one_line(lines, "origin"@, 7)
            &&& has_one_line(lines, "cookie_domain"@, 8)
            &&& has_one_line(lines, "listen"@, 9)
            &&& has_one_line(lines, "data_dir"@, 10)
        }),
{
    let lines = file_lines(hostname, layer, origin, domain, data_dir).push(Seq::empty());
    reveal_strlit("hostname");
    reveal_strlit("origin");
    reveal_strlit("cookie_domain");
    reveal_strlit("listen");
    reveal_strlit("data_dir");
    reveal_strlit(" = \"");
    reveal_strlit("# latch config");
    reveal_strlit("# https://github.com/TerryTsai/latch");
    reveal_strlit("# REQUIRED. Hostname where latch is publicly reachable.");
    reveal_strlit("# Optional overrides. Defaults shown commented.");
    lemma_line_start("origin"@, layer.origin, origin);
    lemma_line_start("cookie_domain"@, layer.cookie_domain, domain);
    lemma_line_start("listen"@, layer.listen, DEFAULT_LISTEN@);
    lemma_line_start("data_dir"@, layer.data_dir, data_dir);
    assert forall|j: int| 0 <= j < lines.len() implies (#[trigger] is_line_of(
        lines[j],
        "origin"@,
    ) <==> j == 7) by {
        if j != 7 {
            lemma_other_line(lines[j], "origin"@);
        }
    }
    assert forall|j: int| 0 <= j < lines.len() implies (#[trigger] is_line_of(
        lines[j],
        "cookie_domain"@,
    ) <==> j == 8) by {
        if j != 8 {
            lemma_other_line(lines[j], "cookie_domain"@);
        }
    }
    assert forall|j: int| 0 <= j < lines.len() implies (#[trigger] is_line_of(
        lines[j],
        "listen"@,
    ) <==> j == 9) by {
        if j != 9 {
            lemma_other_line(lines[j], "listen"@);
        }
    }
    assert forall|j: int| 0 <= j < lines.len() implies (#[trigger] is_line_of(
        lines[j],
        "data_dir"@,
    ) <==> j == 10) by {
        if j != 10 {
            lemma_other_line(lines[j], "data_dir"@);
        }
    }
}

/// The settings of the twelve lines, given what each reads as.
proof fn lemma_settings(lines: Seq<Seq<char>>, hostname: Seq<char>, layer: config::ConfigFileView)
    requires
        lines.len() == 12,
        forall|i: int|
            #![trigger lines[i]]
            0 <= i < 12 && i != 4 && !(7 <= i <= 10) ==> read_line(lines[i]) is None,
        read_line(lines[4]) == Some(("hostname"@, hostname)),
        read_line(lines[7]) == match layer.origin {
            Some(v) => Some(("origin"@, v)),
            None => None,
        },
        read_line(lines[8]) == match layer.cookie_domain {
            Some(v) => Some(("cookie_domain"@, v)),
            None => None,
        },
        read_line(lines[9]) == match layer.listen {
            Some(v) => Some(("listen"@, v)),
            None => None,
        },
        read_line(lines[10]) == match layer.data_dir {
            Some(v) => Some(("data_dir"@, v)),
            None => None,
        },
    ensures
        setting_in(lines, "hostname"@) == Some(hostname),
        setting_in(lines, "origin"@) == layer.origin,
        setting_in(lines, "cookie_domain"@) == layer.cookie_domain,
        setting_in(lines, "listen"@) == layer.listen,
        setting_in(lines, "data_dir"@) == layer.data_dir,
{
    lemma_names();
    lemma_setting_at(lines, "hostname"@, 0, 4);
    lemma_setting_at(lines, "origin"@, 0, 7);
    lemma_setting_at(lines, "cookie_domain"@, 0, 8);
    lemma_setting_at(lines, "listen"@, 0, 9);
    lemma_setting_at(lines, "data_dir"@, 0, 10);
    lemma_setting_at(lines, "origin"@, 0, 12);
    lemma_setting_at(lines, "cookie_domain"@, 0, 12);
    lemma_setting_at(lines, "listen"@, 0, 12);
    lemma_setting_at(lines, "data_dir"@, 0, 12);
    assert(lines.skip(0) =~= lines);
}

/// Lines with other names, or none, are passed over.
proof fn lemma_setting_at(lines: Seq<Seq<char>>, name: Seq<char>, from: int, to: int)
    requires
        0 <= from <= to <= lines.len(),
    ensures
        (forall|i: int|
            from <= i < to ==> match read_line(#[trigger] lines[i]) {
                Some((n, _)) => n != name,
                None => true,
            }) ==> setting_in(lines.skip(from), name) == match if to < lines.len() {
            read_line(lines[to])
        } else {
            None
        } {
            Some((n, v)) => if n == name {
                Some(v)
            } else {
                setting_in(lines.skip(to), name)
            },
            None => setting_in(lines.skip(to), name),
        },
    decreases to - from,
{
    if from < to {
        lemma_setting_at(lines, name, from + 1, to);
        assert(lines.skip(from).skip(1) =~= lines.skip(from + 1));
        assert(lines.skip(from)[0] == lines[from]);
    } else if to < lines.len() {
        assert(lines.skip(from).skip(1) =~= lines.skip(from + 1));
        assert(lines.skip(from)[0] == lines[from]);
    }
}

/// The settings that `config init` puts down come to a configuration: no
/// hostname it takes is refused later, and the defaults it shows are those
/// that loading fills in.
pub proof fn init_shows_what_loading_gives(
    o: InitOptsView,
    hostname: Seq<char>,
    mode: Mode,
    default_path: Seq<char>,
    default_dir: Seq<char>,
    source: Option<Seq<char>>,
)
    requires
        init_for(o, hostname, mode, default_path, default_dir) is Ok,
    ensures
        config::resolved(opts_layer(o, hostname), source, default_dir) matches Ok(c) && {
            &&& c.hostname == hostname
            &&& c.origin == config::given_or(o.origin, "https://"@ + hostname)
            &&& c.cookie_domain == config::given_or(
                o.cookie_domain,
                config::parent_domain(hostname),
            )
            &&& c.listen == config::given_or(o.listen, DEFAULT_LISTEN@)
            &&& c.data_dir == config::given_or(o.data_dir, default_dir)
        },
{
}

/// Nothing is written without a yes, given on the command line or to a
/// question, and nothing at all with `--print`.
pub proof fn init_asks_before_writing(
    o: InitOptsView,
    stdin_tty: bool,
    mode: Mode,
    default_path: Seq<char>,
    default_dir: Seq<char>,
)
    ensures
        init_start(o, stdin_tty, mode, default_path, default_dir) matches Ok(InitView::Write { .. })
            ==> o.yes && !o.print,
        init_start(o, stdin_tty, mode, default_path, default_dir) matches Ok(
            InitView::Confirm { .. },
        ) ==> !o.yes && !o.print,
{
}

} // verus!
