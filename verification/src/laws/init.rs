//! What `latch config` promises.
use vstd::prelude::*;

use super::text::{chain, is_blank, is_white, lemma_chain_push, lemma_last_line, lemma_next_line};
use super::tokens::fields_in;
use crate::cmd::config::{self as cmd_config, InitOptsView, InitView};
use crate::config::{self, ConfigFileView, ConfigView, Mode};
use crate::{json, laws, outside, output, text};

verus! {

// --- what is written --------------------------------------------------------

/// The config that a step of `config init` prints, asks about or writes.
pub open spec fn content_of(step: InitView) -> Option<Seq<char>> {
    match step {
        InitView::Ask { .. } => None,
        InitView::Print { content } => Some(content),
        InitView::Confirm { content, .. } => Some(content),
        InitView::Write { content, .. } => Some(content),
    }
}

/// The options of a command line that stand for themselves between quotes.
pub open spec fn are_plain(o: InitOptsView) -> bool {
    &&& o.origin matches Some(v) ==> cmd_config::is_plain(v)
    &&& o.cookie_domain matches Some(v) ==> cmd_config::is_plain(v)
    &&& o.listen matches Some(v) ==> cmd_config::is_plain(v)
    &&& o.data_dir matches Some(v) ==> cmd_config::is_plain(v)
}

proof fn lemma_parent_is_plain(hostname: Seq<char>)
    requires
        cmd_config::is_plain(hostname),
    ensures
        cmd_config::is_plain(config::parent_domain(hostname)),
        cmd_config::is_plain("https://"@ + hostname),
{
    reveal_strlit("https://");
    config::derived_domain_covers_the_host(hostname);
    let p = config::parent_domain(hostname);
    let d = seq!['.'] + p;
    if p != hostname {
        assert(d.is_suffix_of(hostname));
        assert forall|i: int| 0 <= i < p.len() implies {
            let c = #[trigger] p[i];
            c != '"' && c != '\\' && c as u32 >= 32 && c as u32 != 127
        } by {
            assert(hostname.skip(hostname.len() - d.len()) == d);
            assert(hostname.skip(hostname.len() - d.len())[i + 1] == d[i + 1]);
            assert(hostname[hostname.len() - d.len() + i + 1] == p[i]);
        }
    }
}

/// Whatever `config init` prints, asks about or writes says the hostname and
/// the options of the command line, each as it was given, and nothing of those
/// that were not: that is what reading it line by line gives.
pub proof fn init_says_what_it_was_told(
    o: InitOptsView,
    hostname: Seq<char>,
    mode: Mode,
    default_path: Seq<char>,
    default_dir: Seq<char>,
    step: InitView,
)
    requires
        cmd_config::init_for(o, hostname, mode, default_path, default_dir) == Ok::<
            InitView,
            output::ErrorView,
        >(step),
        cmd_config::is_plain(hostname),
        are_plain(o),
        cmd_config::is_plain(default_dir),
    ensures
        content_of(step) matches Some(content) && {
            let read = cmd_config::layer_in(content);
            &&& read.hostname == Some(hostname)
            &&& read.origin == o.origin
            &&& read.cookie_domain == o.cookie_domain
            &&& read.listen == o.listen
            &&& read.data_dir == o.data_dir
        },
{
    lemma_parent_is_plain(hostname);
    let layer = ConfigFileView {
        hostname: Some(hostname),
        origin: o.origin,
        cookie_domain: o.cookie_domain,
        listen: o.listen,
        data_dir: o.data_dir,
    };
    cmd_config::configs_say_what_they_were_made_of(
        hostname,
        layer,
        "https://"@ + hostname,
        config::parent_domain(hostname),
        default_dir,
    );
}

proof fn lemma_ended(lines: Seq<Seq<char>>)
    requires
        lines.len() > 0,
    ensures
        cmd_config::ended(lines) == chain(lines.push(Seq::empty()), seq!['\n']),
    decreases lines.len(),
{
    let e = Seq::<char>::empty();
    let n = seq!['\n'];
    reveal_strlit("\n");
    assert("\n"@ =~= n);
    let head = lines.drop_last();
    lemma_chain_push(lines, e, n);
    assert(head.push(lines.last()) =~= lines);
    if head.len() == 0 {
        assert(cmd_config::ended(head) =~= e);
        assert(chain(lines, n) == lines[0]);
        assert(e + lines.last() + n =~= lines[0] + n + e);
    } else {
        lemma_ended(head);
        lemma_chain_push(head, e, n);
        lemma_chain_push(head, lines.last(), n);
        assert(chain(head, n) + n + e + lines.last() + n =~= chain(head, n) + n + lines.last() + n
            + e);
    }
}

/// One of two lines, by whether a setting was given.
pub open spec fn given_line(
    value: Option<Seq<char>>,
    given: Seq<char>,
    comment: Seq<char>,
    default: Seq<char>,
) -> Seq<char> {
    match value {
        Some(v) => given + v + seq!['"'],
        None => comment + default + seq!['"'],
    }
}

/// The lines of a config: two of them name the program, one the hostname, and
/// one each of the settings, which is a comment with the default where it was
/// not given.
pub proof fn the_lines_of_a_config(
    o: InitOptsView,
    hostname: Seq<char>,
    default_dir: Seq<char>,
)
    ensures
        cmd_config::init_content(o, hostname, default_dir) == chain(
            seq![
                "# latch config"@,
                "# https://github.com/TerryTsai/latch"@,
                Seq::empty(),
                "# REQUIRED. Hostname where latch is publicly reachable."@,
                "hostname = \""@ + hostname + seq!['"'],
                Seq::empty(),
                "# Optional overrides. Defaults shown commented."@,
                given_line(
                    o.origin,
                    "origin        = \""@,
                    "# origin        = \""@,
                    "https://"@ + hostname,
                ),
                given_line(
                    o.cookie_domain,
                    "cookie_domain = \""@,
                    "# cookie_domain = \""@,
                    config::parent_domain(hostname),
                ),
                given_line(
                    o.listen,
                    "listen        = \""@,
                    "# listen        = \""@,
                    "127.0.0.1:8080"@,
                ),
                given_line(
                    o.data_dir,
                    "data_dir      = \""@,
                    "# data_dir      = \""@,
                    default_dir,
                ),
                Seq::empty(),
            ],
            seq!['\n'],
        ),
{
    reveal_strlit("hostname");
    reveal_strlit("hostname = \"");
    reveal_strlit("# ");
    reveal_strlit("\"");
    reveal_strlit(" = \"");
    assert("hostname"@ + " = \""@ =~= "hostname = \""@);
    assert("\""@ =~= seq!['"']);
    let layer = cmd_config::opts_layer(o, hostname);
    let all = cmd_config::file_lines(
        hostname,
        layer,
        "https://"@ + hostname,
        config::parent_domain(hostname),
        default_dir,
    );
    lemma_ended(all);
    reveal_strlit("origin");
    reveal_strlit("origin        = \"");
    reveal_strlit("# origin        = \"");
    assert(text::padded("origin"@, 13) + " = \""@ =~= "origin        = \""@);
    assert("# "@ + text::padded("origin"@, 13) + " = \""@ =~= "# origin        = \""@);
    lemma_setting("origin"@, "origin        = \""@, "# origin        = \""@);
    reveal_strlit("cookie_domain");
    reveal_strlit("cookie_domain = \"");
    reveal_strlit("# cookie_domain = \"");
    assert(text::padded("cookie_domain"@, 13) + " = \""@ =~= "cookie_domain = \""@);
    assert("# "@ + text::padded("cookie_domain"@, 13) + " = \""@ =~= "# cookie_domain = \""@);
    lemma_setting("cookie_domain"@, "cookie_domain = \""@, "# cookie_domain = \""@);
    reveal_strlit("listen");
    reveal_strlit("listen        = \"");
    reveal_strlit("# listen        = \"");
    assert(text::padded("listen"@, 13) + " = \""@ =~= "listen        = \""@);
    assert("# "@ + text::padded("listen"@, 13) + " = \""@ =~= "# listen        = \""@);
    lemma_setting("listen"@, "listen        = \""@, "# listen        = \""@);
    reveal_strlit("data_dir");
    reveal_strlit("data_dir      = \"");
    reveal_strlit("# data_dir      = \"");
    assert(text::padded("data_dir"@, 13) + " = \""@ =~= "data_dir      = \""@);
    assert("# "@ + text::padded("data_dir"@, 13) + " = \""@ =~= "# data_dir      = \""@);
    lemma_setting("data_dir"@, "data_dir      = \""@, "# data_dir      = \""@);
    assert(all.push(Seq::empty()) =~= seq![
        "# latch config"@,
        "# https://github.com/TerryTsai/latch"@,
        Seq::empty(),
        "# REQUIRED. Hostname where latch is publicly reachable."@,
        "hostname = \""@ + hostname + seq!['"'],
        Seq::empty(),
        "# Optional overrides. Defaults shown commented."@,
        given_line(
            o.origin,
            "origin        = \""@,
            "# origin        = \""@,
            "https://"@ + hostname,
        ),
        given_line(
            o.cookie_domain,
            "cookie_domain = \""@,
            "# cookie_domain = \""@,
            config::parent_domain(hostname),
        ),
        given_line(
            o.listen,
            "listen        = \""@,
            "# listen        = \""@,
            "127.0.0.1:8080"@,
        ),
        given_line(o.data_dir, "data_dir      = \""@, "# data_dir      = \""@, default_dir),
        Seq::empty(),
    ]);
}

proof fn lemma_setting(name: Seq<char>, given: Seq<char>, comment: Seq<char>)
    requires
        text::padded(name, 13) + " = \""@ == given,
        "# "@ + text::padded(name, 13) + " = \""@ == comment,
    ensures
        forall|value: Option<Seq<char>>, default: Seq<char>| #[trigger]
            cmd_config::setting_line(name, value, default) == given_line(
                value,
                given,
                comment,
                default,
            ),
{
    reveal_strlit("\"");
    assert("\""@ =~= seq!['"']);
}

/// A hostname that is missing or a placeholder is refused, as a mistake in the
/// command line; any other is printed, or written to the path that was given
/// or the default one, after a question or without one.
pub proof fn init_prints_asks_or_writes(
    o: InitOptsView,
    hostname: Seq<char>,
    mode: Mode,
    default_path: Seq<char>,
    default_dir: Seq<char>,
)
    ensures
        ({
            let res = cmd_config::init_for(o, hostname, mode, default_path, default_dir);
            let to = if let Some(p) = o.path {
                p
            } else {
                default_path
            };
            let good = laws::config::is_real(hostname);
            &&& hostname.len() == 0 ==> (res matches Err(e) && e.msg == "hostname is required"@
                && e.code == 64 && e.hint is None)
            &&& hostname.len() > 0 && !good ==> (res matches Err(e) && e.msg
                == "hostname can't be a placeholder"@ && e.code == 64 && e.hint is None)
            &&& hostname.len() > 0 && good ==> (res matches Ok(step) && if o.print {
                step is Print
            } else if o.yes {
                step matches InitView::Write { target, .. } && target == to
            } else {
                step matches InitView::Confirm { target, question, .. } && target == to
                    && question == "Write to "@ + to + "? [Y/n] "@
            })
        }),
{
    if text::holds(hostname, "example.com"@) {
        laws::text::what_a_text_holds_stands_in_it(hostname, "example.com"@);
    }
    if !laws::config::is_real(hostname) {
        let (a, b) = choose|a: Seq<char>, b: Seq<char>|
            hostname == #[trigger] (a + "example.com"@ + b);
        laws::text::a_text_holds_what_stands_in_it(a, "example.com"@, b);
    }
}

/// White space around the hostname does not count, and without a hostname
/// somebody is asked for it, if there is anybody.
pub proof fn init_takes_the_hostname(
    o: InitOptsView,
    a: Seq<char>,
    hostname: Seq<char>,
    b: Seq<char>,
    tty: bool,
    mode: Mode,
    default_path: Seq<char>,
    default_dir: Seq<char>,
)
    requires
        is_blank(a),
        is_blank(b),
        hostname.len() > 0 ==> !is_white(hostname[0] as int) && !is_white(hostname.last() as int),
    ensures
        o.hostname == Some(a + hostname + b) ==> cmd_config::init_start(
            o,
            tty,
            mode,
            default_path,
            default_dir,
        ) == cmd_config::init_for(o, hostname, mode, default_path, default_dir),
        o.hostname is None && tty ==> (cmd_config::init_start(
            o,
            tty,
            mode,
            default_path,
            default_dir,
        ) matches Ok(step) && step is Ask),
        o.hostname is None && !tty ==> (cmd_config::init_start(
            o,
            tty,
            mode,
            default_path,
            default_dir,
        ) matches Err(e) && e.msg == "hostname is required on non-TTY"@ && e.code == 64 && e.hint
            == Some("pass --hostname=<host> or run interactively"@)),
{
    laws::text::trimming_undoes_blanks(a, hostname, b);
}

/// The summary shows what will be written, one line each, and marks what was
/// not given as a default.
pub proof fn the_lines_of_a_summary(
    o: InitOptsView,
    hostname: Seq<char>,
    mode: Mode,
    default_dir: Seq<char>,
)
    ensures
        cmd_config::init_summary(o, hostname, mode, default_dir) == chain(
            seq![
                Seq::empty(),
                "  mode          = "@ + if mode is System {
                    "system"@
                } else {
                    "user"@
                },
                "  hostname      = "@ + hostname,
                shown("  origin        = "@, o.origin, "https://"@ + hostname),
                shown("  cookie_domain = "@, o.cookie_domain, config::parent_domain(hostname)),
                shown("  listen        = "@, o.listen, "127.0.0.1:8080"@),
                shown("  data_dir      = "@, o.data_dir, default_dir),
                Seq::empty(),
                Seq::empty(),
            ],
            seq!['\n'],
        ),
{
    reveal_strlit("\n  mode          = ");
    reveal_strlit("  mode          = ");
    reveal_strlit("\n  hostname      = ");
    reveal_strlit("  hostname      = ");
    reveal_strlit("\n");
    let e = Seq::<char>::empty();
    let n = seq!['\n'];
    let a = seq![e];
    assert("\n  mode          = "@ =~= n + "  mode          = "@);
    lemma_next_line(a, "\n  mode          = "@, "  mode          = "@, mode.word());
    let b = a.push("  mode          = "@ + mode.word());
    assert("\n  hostname      = "@ =~= n + "  hostname      = "@);
    lemma_next_line(b, "\n  hostname      = "@, "  hostname      = "@, hostname);
    let c = b.push("  hostname      = "@ + hostname);
    lemma_last_line(c);
    reveal_strlit("  ");
    reveal_strlit(" = ");
    reveal_strlit("origin");
    reveal_strlit("  origin        = ");
    reveal_strlit("cookie_domain");
    reveal_strlit("  cookie_domain = ");
    reveal_strlit("listen");
    reveal_strlit("  listen        = ");
    reveal_strlit("data_dir");
    reveal_strlit("  data_dir      = ");
    assert("  "@ + text::padded("origin"@, 13) + " = "@ =~= "  origin        = "@);
    assert("  "@ + text::padded("cookie_domain"@, 13) + " = "@ =~= "  cookie_domain = "@);
    assert("  "@ + text::padded("listen"@, 13) + " = "@ =~= "  listen        = "@);
    assert("  "@ + text::padded("data_dir"@, 13) + " = "@ =~= "  data_dir      = "@);
    lemma_shown(c, "origin"@, "  origin        = "@, o.origin, "https://"@ + hostname);
    let d = c.push(shown("  origin        = "@, o.origin, "https://"@ + hostname));
    lemma_shown(
        d,
        "cookie_domain"@,
        "  cookie_domain = "@,
        o.cookie_domain,
        config::parent_domain(hostname),
    );
    let f = d.push(
        shown("  cookie_domain = "@, o.cookie_domain, config::parent_domain(hostname)),
    );
    lemma_shown(f, "listen"@, "  listen        = "@, o.listen, "127.0.0.1:8080"@);
    let g = f.push(shown("  listen        = "@, o.listen, "127.0.0.1:8080"@));
    lemma_shown(g, "data_dir"@, "  data_dir      = "@, o.data_dir, default_dir);
    let h = g.push(shown("  data_dir      = "@, o.data_dir, default_dir));
    lemma_last_line(h);
    lemma_last_line(h.push(e));
    assert(chain(a, n) == e);
    assert(e + "\n  mode          = "@ + mode.word() =~= "\n  mode          = "@ + mode.word());
    assert(h.push(e).push(e) =~= seq![
        e,
        "  mode          = "@ + if mode is System {
            "system"@
        } else {
            "user"@
        },
        "  hostname      = "@ + hostname,
        shown("  origin        = "@, o.origin, "https://"@ + hostname),
        shown("  cookie_domain = "@, o.cookie_domain, config::parent_domain(hostname)),
        shown("  listen        = "@, o.listen, "127.0.0.1:8080"@),
        shown("  data_dir      = "@, o.data_dir, default_dir),
        e,
        e,
    ]);
}

/// A line of the summary.
pub open spec fn shown(head: Seq<char>, value: Option<Seq<char>>, default: Seq<char>) -> Seq<char> {
    match value {
        Some(v) => head + v,
        None => head + default + "   (default)"@,
    }
}

proof fn lemma_shown(
    lines: Seq<Seq<char>>,
    name: Seq<char>,
    head: Seq<char>,
    value: Option<Seq<char>>,
    default: Seq<char>,
)
    requires
        lines.len() > 0,
        "  "@ + text::padded(name, 13) + " = "@ == head,
    ensures
        chain(lines.push(shown(head, value, default)).push(Seq::empty()), seq!['\n']) == chain(
            lines.push(Seq::empty()),
            seq!['\n'],
        ) + cmd_config::shown_field(name, value, default),
{
    reveal_strlit("\n");
    reveal_strlit("   (default)\n");
    reveal_strlit("   (default)");
    let e = Seq::<char>::empty();
    let n = seq!['\n'];
    let s = shown(head, value, default);
    lemma_chain_push(lines, e, n);
    lemma_chain_push(lines, s, n);
    lemma_chain_push(lines.push(s), e, n);
    assert(chain(lines, n) + n + s + n + e =~= chain(lines, n) + n + e + (s + n));
    assert(cmd_config::shown_field(name, value, default) =~= s + n);
}

/// A config is written after nothing but an empty answer or a yes, in upper or
/// lower case.
pub proof fn only_yes_or_nothing_agrees(line: Seq<char>)
    ensures
        cmd_config::agrees(line) <==> text::trimmed(line) == Seq::<char>::empty() || text::trimmed(
            line,
        ) == seq!['y'] || text::trimmed(line) == seq!['Y'],
{
    reveal_strlit("y");
    let t = text::trimmed(line);
    laws::text::case_is_all_that_does_not_count(t, "y"@);
    if t.len() == 0 {
        assert(t =~= Seq::<char>::empty());
    }
    if text::same_letters(t, "y"@) {
        assert(laws::text::is_same_letter(t[0], "y"@[0]));
        assert(t =~= seq!['y'] || t =~= seq!['Y']);
    }
    if t == seq!['y'] || t == seq!['Y'] {
        assert forall|i: int| 0 <= i < t.len() implies laws::text::is_same_letter(
            #[trigger] t[i],
            "y"@[i],
        ) by {}
    }
}

// --- what is shown ----------------------------------------------------------

/// Where a config is from, in words.
pub open spec fn from(c: ConfigView) -> Seq<char> {
    if let Some(path) = c.source {
        path
    } else {
        "(env)"@
    }
}

/// A configuration is shown one setting to a line.
pub proof fn the_lines_that_are_shown(c: ConfigView)
    ensures
        cmd_config::config_lines(c) == chain(
            seq![
                "config        = "@ + from(c),
                "hostname      = "@ + c.hostname,
                "origin        = "@ + c.origin,
                "cookie_domain = "@ + c.cookie_domain,
                "listen        = "@ + c.listen,
                "data_dir      = "@ + c.data_dir,
                "passkeys_path = "@ + c.passkeys_path,
            ],
            seq!['\n'],
        ),
{
    reveal_strlit("hostname      = ");
    reveal_strlit("\nhostname      = ");
    reveal_strlit("origin        = ");
    reveal_strlit("\norigin        = ");
    reveal_strlit("cookie_domain = ");
    reveal_strlit("\ncookie_domain = ");
    reveal_strlit("listen        = ");
    reveal_strlit("\nlisten        = ");
    reveal_strlit("data_dir      = ");
    reveal_strlit("\ndata_dir      = ");
    reveal_strlit("passkeys_path = ");
    reveal_strlit("\npasskeys_path = ");
    let n = seq!['\n'];
    let a = seq!["config        = "@ + from(c)];
    assert("\nhostname      = "@ =~= n + "hostname      = "@);
    lemma_next_line(a, "\nhostname      = "@, "hostname      = "@, c.hostname);
    let b = a.push("hostname      = "@ + c.hostname);
    assert("\norigin        = "@ =~= n + "origin        = "@);
    lemma_next_line(b, "\norigin        = "@, "origin        = "@, c.origin);
    let d = b.push("origin        = "@ + c.origin);
    assert("\ncookie_domain = "@ =~= n + "cookie_domain = "@);
    lemma_next_line(d, "\ncookie_domain = "@, "cookie_domain = "@, c.cookie_domain);
    let e = d.push("cookie_domain = "@ + c.cookie_domain);
    assert("\nlisten        = "@ =~= n + "listen        = "@);
    lemma_next_line(e, "\nlisten        = "@, "listen        = "@, c.listen);
    let f = e.push("listen        = "@ + c.listen);
    assert("\ndata_dir      = "@ =~= n + "data_dir      = "@);
    lemma_next_line(f, "\ndata_dir      = "@, "data_dir      = "@, c.data_dir);
    let g = f.push("data_dir      = "@ + c.data_dir);
    assert("\npasskeys_path = "@ =~= n + "passkeys_path = "@);
    lemma_next_line(g, "\npasskeys_path = "@, "passkeys_path = "@, c.passkeys_path);
    assert(g.push("passkeys_path = "@ + c.passkeys_path) =~= seq![
        "config        = "@ + from(c),
        "hostname      = "@ + c.hostname,
        "origin        = "@ + c.origin,
        "cookie_domain = "@ + c.cookie_domain,
        "listen        = "@ + c.listen,
        "data_dir      = "@ + c.data_dir,
        "passkeys_path = "@ + c.passkeys_path,
    ]);
}

/// For programs a configuration is a JSON object with a field for each
/// setting.
pub proof fn the_fields_that_are_shown(c: ConfigView)
    ensures
        json::object(cmd_config::config_fields(c)) == seq!['{'] + chain(
            seq![
                "\"config\":"@ + outside::json_text(from(c)),
                "\"cookie_domain\":"@ + outside::json_text(c.cookie_domain),
                "\"data_dir\":"@ + outside::json_text(c.data_dir),
                "\"hostname\":"@ + outside::json_text(c.hostname),
                "\"listen\":"@ + outside::json_text(c.listen),
                "\"origin\":"@ + outside::json_text(c.origin),
                "\"passkeys_path\":"@ + outside::json_text(c.passkeys_path),
            ],
            seq![','],
        ) + seq!['}'],
{
    let f = cmd_config::config_fields(c);
    laws::tokens::objects_and_lists(f, Seq::empty());
    reveal_strlit("\"");
    reveal_strlit("config");
    reveal_strlit("\"config\":");
    reveal_strlit("cookie_domain");
    reveal_strlit("\"cookie_domain\":");
    reveal_strlit("data_dir");
    reveal_strlit("\"data_dir\":");
    reveal_strlit("hostname");
    reveal_strlit("\"hostname\":");
    reveal_strlit("listen");
    reveal_strlit("\"listen\":");
    reveal_strlit("origin");
    reveal_strlit("\"origin\":");
    reveal_strlit("passkeys_path");
    reveal_strlit("\"passkeys_path\":");
    assert(json::key("config"@) + seq![':'] =~= "\"config\":"@);
    assert(json::key("cookie_domain"@) + seq![':'] =~= "\"cookie_domain\":"@);
    assert(json::key("data_dir"@) + seq![':'] =~= "\"data_dir\":"@);
    assert(json::key("hostname"@) + seq![':'] =~= "\"hostname\":"@);
    assert(json::key("listen"@) + seq![':'] =~= "\"listen\":"@);
    assert(json::key("origin"@) + seq![':'] =~= "\"origin\":"@);
    assert(json::key("passkeys_path"@) + seq![':'] =~= "\"passkeys_path\":"@);
    assert(fields_in(f) =~= seq![
        "\"config\":"@ + outside::json_text(from(c)),
        "\"cookie_domain\":"@ + outside::json_text(c.cookie_domain),
        "\"data_dir\":"@ + outside::json_text(c.data_dir),
        "\"hostname\":"@ + outside::json_text(c.hostname),
        "\"listen\":"@ + outside::json_text(c.listen),
        "\"origin\":"@ + outside::json_text(c.origin),
        "\"passkeys_path\":"@ + outside::json_text(c.passkeys_path),
    ]);
}

/// Where no configuration is found, the two ways to one are named.
pub proof fn the_hint_names_both_ways(path: Seq<char>)
    ensures
        cmd_config::load_hint_text(path) == "run `latch config init` to create "@ + path
            + ", or set LATCH_HOSTNAME"@,
{
}

} // verus!
