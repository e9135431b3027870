//! What finding, loading and completing a configuration promises, and where
//! browsers are sent by it.
use vstd::prelude::*;

use super::text::{chain, lemma_last_line, lemma_next_line};
use crate::config::{self, ConfigFileView, ConfigView, Env, Found, Mode, Present};
use crate::{laws, outside, text};

verus! {

// --- where browsers are sent ------------------------------------------------

/// A URL by https on the cookie domain, or on a host below it, is where a
/// browser that asked for it is sent, whatever its path and query are.
pub proof fn urls_on_the_cookie_domain_are_kept(
    next: Seq<char>,
    domain: Seq<char>,
    host: Seq<char>,
    below: Seq<char>,
)
    requires
        host == domain || host == below + seq!['.'] + domain,
        outside::url_scheme_and_host(next) == Some(("https"@, Some(host))),
    ensures
        config::next_target(next, domain, outside::url_scheme_and_host(next)) == next,
{
    if host == below + seq!['.'] + domain {
        let d = seq!['.'] + domain;
        assert(host.skip(host.len() - d.len()) =~= d);
    }
}

/// A path on this host is where a browser that asked for it is sent: a text
/// that starts with one slash and not with two.
pub proof fn paths_on_this_host_are_kept(rest: Seq<char>, domain: Seq<char>)
    requires
        rest.len() == 0 || rest[0] != '/',
    ensures
        ({
            let next = seq!['/'] + rest;
            config::next_target(next, domain, outside::url_scheme_and_host(next)) == next
        }),
{
}

/// Whatever else a browser asks for, it is sent to the root: another scheme, a
/// host that is neither the cookie domain nor below it, no host, or no URL.
pub proof fn anything_else_leads_to_the_root(next: Seq<char>, domain: Seq<char>)
    requires
        next.len() == 0 || next[0] != '/' || (next.len() > 1 && next[1] == '/'),
        match outside::url_scheme_and_host(next) {
            Some((scheme, Some(host))) => scheme != "https"@ || (host != domain && forall|
                below: Seq<char>,
            | host != #[trigger] (below + seq!['.'] + domain)),
            _ => true,
        },
    ensures
        config::next_target(next, domain, outside::url_scheme_and_host(next)) == seq!['/'],
{
    reveal_strlit("/");
    assert("/"@ =~= seq!['/']);
    if let Some((scheme, Some(host))) = outside::url_scheme_and_host(next) {
        let d = seq!['.'] + domain;
        if scheme == "https"@ && d.is_suffix_of(host) {
            let below = host.take(host.len() - d.len());
            assert(host.skip(host.len() - d.len()) == d);
            assert(host =~= below + host.skip(host.len() - d.len()));
            assert(below + d =~= below + seq!['.'] + domain);
        }
    }
}

// --- the cookie domain ------------------------------------------------------

/// The cookie domain of a host with more than two labels is what follows the
/// first of them.
pub proof fn the_first_label_is_dropped(label: Seq<char>, parent: Seq<char>)
    requires
        !label.contains('.'),
    ensures
        parent.contains('.') ==> config::parent_domain(label + seq!['.'] + parent) == parent,
        !parent.contains('.') ==> config::parent_domain(label + seq!['.'] + parent) == label
            + seq!['.'] + parent,
        config::parent_domain(label) == label,
    decreases label.len(),
{
    lemma_after_first_dot(label, parent);
    lemma_no_dot(label);
}

proof fn lemma_after_first_dot(label: Seq<char>, parent: Seq<char>)
    requires
        !label.contains('.'),
    ensures
        config::after_dot(label + seq!['.'] + parent) == Some(parent),
    decreases label.len(),
{
    let s = label + seq!['.'] + parent;
    if label.len() == 0 {
        assert(s[0] == '.');
        assert(s.drop_first() =~= parent);
    } else {
        assert(label[0] != '.') by {
            if label[0] == '.' {
                assert(label.contains('.'));
            }
        }
        let t = label.drop_first();
        assert(!t.contains('.')) by {
            if t.contains('.') {
                let i = t.index_of('.');
                assert(label[i + 1] == '.');
            }
        }
        assert(s.drop_first() =~= t + seq!['.'] + parent);
        lemma_after_first_dot(t, parent);
    }
}

proof fn lemma_no_dot(label: Seq<char>)
    requires
        !label.contains('.'),
    ensures
        config::after_dot(label) is None,
    decreases label.len(),
{
    if label.len() > 0 {
        assert(label[0] != '.') by {
            if label[0] == '.' {
                assert(label.contains('.'));
            }
        }
        let t = label.drop_first();
        assert(!t.contains('.')) by {
            if t.contains('.') {
                let i = t.index_of('.');
                assert(label[i + 1] == '.');
            }
        }
        lemma_no_dot(t);
    }
}

// --- paths ------------------------------------------------------------------

/// A relative path below a directory has one slash before it, and a path from
/// the root stays as it is.
pub proof fn paths_are_put_below_directories(dir: Seq<char>, rel: Seq<char>, c: char)
    requires
        rel.len() > 0 ==> rel[0] != '/',
        c != '/',
    ensures
        config::under(dir.push(c), rel) == dir.push(c) + seq!['/'] + rel,
        config::under(dir.push('/'), rel) == dir + seq!['/'] + rel,
        config::under(dir, seq!['/'] + rel) == seq!['/'] + rel,
{
    assert(dir.push('/') + rel =~= dir + seq!['/'] + rel);
}

/// The home directory of an environment is `home`, without a slash at its end.
pub open spec fn lives_in(env: Env, home: Seq<char>) -> bool {
    &&& env.home matches Some(h) && h@ == home
    &&& home.len() > 0
    &&& home.last() != '/'
}

/// Latch keeps its config and its data where the system and the desktop say:
/// root's in `/etc` and `/var/lib`, a user's below the home directory, unless
/// the environment names a directory from the root.
pub proof fn files_have_their_places(env: Env, home: Seq<char>, dir: Seq<char>, c: char)
    requires
        lives_in(env, home),
        dir.len() > 0 ==> dir[0] == '/',
        c != '/',
    ensures
        config::config_path_of(Mode::System, env) == "/etc/latch/config.toml"@,
        config::data_dir_of(Mode::System, env) == "/var/lib/latch"@,
        env.xdg_config_home is None ==> config::config_path_of(Mode::User, env) == home
            + "/.config/latch/config.toml"@,
        env.xdg_data_home is None ==> config::data_dir_of(Mode::User, env) == home
            + "/.local/share/latch"@,
        env.xdg_state_home is None ==> config::under(config::state_home_of(env), "latch"@) == home
            + "/.local/state/latch"@,
        dir.len() > 0 && text::text_of(env.xdg_config_home) == Some(dir.push(c))
            ==> config::config_path_of(Mode::User, env) == dir.push(c) + "/latch/config.toml"@,
        dir.len() > 0 && text::text_of(env.xdg_data_home) == Some(dir.push(c))
            ==> config::data_dir_of(Mode::User, env) == dir.push(c) + "/latch"@,
        dir.len() > 0 && text::text_of(env.xdg_state_home) == Some(dir.push(c)) ==> config::under(
            config::state_home_of(env),
            "latch"@,
        ) == dir.push(c) + "/latch"@,
{
    reveal_strlit(".config");
    reveal_strlit(".local/share");
    reveal_strlit(".local/state");
    reveal_strlit("latch/config.toml");
    reveal_strlit("latch");
    reveal_strlit("/.config/latch/config.toml");
    reveal_strlit("/.local/share/latch");
    reveal_strlit("/.local/state/latch");
    reveal_strlit("/latch/config.toml");
    reveal_strlit("/latch");
    assert(home + seq!['/'] + ".config"@ + seq!['/'] + "latch/config.toml"@ =~= home
        + "/.config/latch/config.toml"@);
    assert(home + seq!['/'] + ".local/share"@ + seq!['/'] + "latch"@ =~= home
        + "/.local/share/latch"@);
    assert(home + seq!['/'] + ".local/state"@ + seq!['/'] + "latch"@ =~= home
        + "/.local/state/latch"@);
    assert(dir.push(c) + seq!['/'] + "latch/config.toml"@ =~= dir.push(c) + "/latch/config.toml"@);
    assert(dir.push(c) + seq!['/'] + "latch"@ =~= dir.push(c) + "/latch"@);
}

/// A directory of the environment that does not start at the root is as good
/// as none.
pub proof fn relative_directories_do_not_count(env: Env, other: Env)
    requires
        other == (Env {
            xdg_config_home: other.xdg_config_home,
            xdg_data_home: other.xdg_data_home,
            xdg_state_home: other.xdg_state_home,
            ..env
        }),
        env.xdg_config_home is None && env.xdg_data_home is None && env.xdg_state_home is None,
        other.xdg_config_home matches Some(p) ==> p@.len() == 0 || p@[0] != '/',
        other.xdg_data_home matches Some(p) ==> p@.len() == 0 || p@[0] != '/',
        other.xdg_state_home matches Some(p) ==> p@.len() == 0 || p@[0] != '/',
    ensures
        config::config_path_of(Mode::User, env) == config::config_path_of(Mode::User, other),
        config::data_dir_of(Mode::User, env) == config::data_dir_of(Mode::User, other),
        config::state_home_of(env) == config::state_home_of(other),
{
}

/// A path from the root in which every step leads somewhere.
pub open spec fn is_tidy(path: Seq<char>) -> bool {
    let p = text::pieces(path, '/');
    &&& path.len() > 0 && path[0] == '/'
    &&& forall|i: int|
        1 <= i < p.len() ==> (#[trigger] p[i]).len() > 0 && p[i] != seq!['.']
}

proof fn lemma_steps_kept(pieces: Seq<Seq<char>>)
    requires
        pieces.len() > 0,
        pieces[0].len() == 0,
        forall|i: int|
            1 <= i < pieces.len() ==> (#[trigger] pieces[i]).len() > 0 && pieces[i] != seq!['.'],
    ensures
        config::steps_in(pieces) == pieces.skip(1),
    decreases pieces.len(),
{
    reveal_strlit(".");
    assert("."@ =~= seq!['.']);
    if pieces.len() == 1 {
        assert(pieces.drop_last() =~= Seq::<Seq<char>>::empty());
        assert(config::steps_in(pieces.drop_last()) =~= Seq::<Seq<char>>::empty());
        assert(pieces.skip(1) =~= Seq::<Seq<char>>::empty());
    } else {
        lemma_steps_kept(pieces.drop_last());
        assert(pieces[pieces.len() - 1].len() > 0);
        assert(pieces.drop_last().skip(1).push(pieces.last()) =~= pieces.skip(1));
    }
}

proof fn lemma_first_piece(path: Seq<char>)
    requires
        path.len() > 0,
        path[0] == '/',
    ensures
        text::pieces(path, '/')[0] == Seq::<char>::empty(),
        text::pieces(path, '/').len() > 1,
{
    let none = Seq::<char>::empty();
    text::lemma_pieces_first(none, '/', path.skip(1));
    assert(none + seq!['/'] + path.skip(1) =~= path);
}

/// Two tidy paths are the same only where their texts are.
pub proof fn different_paths_differ(a: Seq<char>, b: Seq<char>)
    requires
        is_tidy(a),
        is_tidy(b),
    ensures
        config::same_steps(a, b) <==> a == b,
{
    let p = text::pieces(a, '/');
    let q = text::pieces(b, '/');
    lemma_first_piece(a);
    lemma_first_piece(b);
    lemma_steps_kept(p);
    lemma_steps_kept(q);
    laws::text::pieces_are_what_separators_part(a, '/');
    laws::text::pieces_are_what_separators_part(b, '/');
    if config::same_steps(a, b) {
        assert(p =~= seq![p[0]] + p.skip(1));
        assert(q =~= seq![q[0]] + q.skip(1));
        assert(chain(p, seq!['/']) == chain(q, seq!['/']));
    }
}

/// A slash at the end of a path does not count.
pub proof fn slashes_at_the_end_do_not_count(a: Seq<char>)
    requires
        a.len() > 0,
    ensures
        config::same_steps(a, a.push('/')),
        config::same_steps(a.push('/'), a),
{
    let none = Seq::<char>::empty();
    text::lemma_pieces_append(a, '/', none);
    assert(a + seq!['/'] + none =~= a.push('/'));
    let p = text::pieces(a, '/');
    assert(p.push(none).drop_last() =~= p);
    laws::text::pieces_are_what_separators_part(a, '/');
}

// --- layers -----------------------------------------------------------------

/// What a setting comes to: what the environment says, or else the file, or
/// else the default.
pub open spec fn settled(
    env: Option<Seq<char>>,
    file: Option<Seq<char>>,
    default: Seq<char>,
    v: Seq<char>,
) -> bool {
    &&& env matches Some(e) ==> v == e
    &&& env is None ==> (file matches Some(f) ==> v == f)
    &&& env is None && file is None ==> v == default
}

/// A hostname that is no placeholder.
pub open spec fn is_real(hostname: Seq<char>) -> bool {
    forall|a: Seq<char>, b: Seq<char>| hostname != #[trigger] (a + "example.com"@ + b)
}

proof fn lemma_is_real(hostname: Seq<char>)
    ensures
        text::holds(hostname, "example.com"@) <==> !is_real(hostname),
{
    if text::holds(hostname, "example.com"@) {
        laws::text::what_a_text_holds_stands_in_it(hostname, "example.com"@);
    }
    if !is_real(hostname) {
        let (a, b) = choose|a: Seq<char>, b: Seq<char>|
            hostname == #[trigger] (a + "example.com"@ + b);
        laws::text::a_text_holds_what_stands_in_it(a, "example.com"@, b);
    }
}

/// A config file and the environment over it come to a configuration exactly
/// where they name a hostname that is no placeholder. Each setting is what the
/// environment says, or else the file, or else the default: the hostname by
/// https, its parent domain, the local port 8080 and the default directory.
/// The files of the data stand in the data directory.
pub proof fn the_environment_stands_over_the_file(
    path: String,
    file: config::ConfigFile,
    env: Env,
    dir: Seq<char>,
)
    ensures
        ({
            let res = config::loaded(Found::Parsed { path, file }, env, dir);
            let named = if env.latch_hostname is Some {
                text::text_of(env.latch_hostname)
            } else {
                text::text_of(file.hostname)
            };
            &&& res is Ok <==> (named matches Some(h) && is_real(h))
            &&& res matches Ok(c) ==> {
                &&& named == Some(c.hostname)
                &&& c.source == Some(path@)
                &&& settled(
                    text::text_of(env.latch_origin),
                    text::text_of(file.origin),
                    "https://"@ + c.hostname,
                    c.origin,
                )
                &&& settled(
                    text::text_of(env.latch_cookie_domain),
                    text::text_of(file.cookie_domain),
                    config::parent_domain(c.hostname),
                    c.cookie_domain,
                )
                &&& settled(
                    text::text_of(env.latch_listen),
                    text::text_of(file.listen),
                    "127.0.0.1:8080"@,
                    c.listen,
                )
                &&& settled(
                    text::text_of(env.latch_data_dir),
                    text::text_of(file.data_dir),
                    dir,
                    c.data_dir,
                )
            }
            &&& named is None ==> res == Err::<ConfigView, Seq<char>>(
                "hostname is required (set in config or via LATCH_HOSTNAME)"@,
            )
            &&& (named matches Some(h) && !is_real(h)) ==> res == Err::<ConfigView, Seq<char>>(
                "hostname still has placeholder; edit your config or env"@,
            )
        }),
{
    if let Some(h) = env.latch_hostname {
        lemma_is_real(h@);
    }
    if let Some(h) = file.hostname {
        lemma_is_real(h@);
    }
}

/// Without a config file the environment must name a hostname, and then it is
/// as if the file said nothing; a file that cannot be read or parsed is an
/// error that names it.
pub proof fn files_that_are_not_there(
    why: String,
    path: String,
    error: String,
    nothing: config::ConfigFile,
    env: Env,
    dir: Seq<char>,
)
    requires
        nothing.hostname is None && nothing.origin is None && nothing.cookie_domain is None
            && nothing.listen is None && nothing.data_dir is None,
    ensures
        env.latch_hostname is None ==> config::loaded(Found::Missing(why), env, dir) == Err::<
            ConfigView,
            Seq<char>,
        >(why@),
        env.latch_hostname is Some ==> match (
            config::loaded(Found::Missing(why), env, dir),
            config::loaded(Found::Parsed { path, file: nothing }, env, dir),
        ) {
            (Ok(a), Ok(b)) => a == (ConfigView { source: None, ..b }),
            (Err(a), Err(b)) => a == b,
            _ => false,
        },
        config::loaded(Found::Unreadable { path, error }, env, dir) == Err::<ConfigView, Seq<char>>(
            "read "@ + path@ + ": "@ + error@,
        ),
        config::loaded(Found::Malformed { path, error }, env, dir) == Err::<ConfigView, Seq<char>>(
            "parse "@ + path@ + ": "@ + error@,
        ),
{
}

/// The files of the data stand in the data directory, each under its own name.
pub proof fn data_stands_in_the_data_directory(
    layer: ConfigFileView,
    source: Option<Seq<char>>,
    default_dir: Seq<char>,
    c: ConfigView,
)
    requires
        config::resolved(layer, source, default_dir) == Ok::<ConfigView, Seq<char>>(c),
        c.data_dir.len() > 0,
        c.data_dir.last() != '/',
    ensures
        c.passkeys_path == c.data_dir + "/passkeys.json"@,
        c.key_path == c.data_dir + "/key"@,
        c.revoked_path == c.data_dir + "/revoked.json"@,
{
    reveal_strlit("passkeys.json");
    reveal_strlit("key");
    reveal_strlit("revoked.json");
    reveal_strlit("/passkeys.json");
    reveal_strlit("/key");
    reveal_strlit("/revoked.json");
    assert(c.data_dir + seq!['/'] + "passkeys.json"@ =~= c.data_dir + "/passkeys.json"@);
    assert(c.data_dir + seq!['/'] + "key"@ =~= c.data_dir + "/key"@);
    assert(c.data_dir + seq!['/'] + "revoked.json"@ =~= c.data_dir + "/revoked.json"@);
}

// --- finding ----------------------------------------------------------------

/// A path that was given is the only place looked at. Else the file that the
/// environment names comes first, then the one in the working directory, then
/// the default, each if it is there; and where none is, the reason names the
/// default.
pub proof fn config_files_are_looked_for_in_order(
    explicit: Option<Seq<char>>,
    env_path: Option<Seq<char>>,
    default: Seq<char>,
    there: Present,
)
    ensures
        ({
            let res = config::config_place(explicit, env_path, default, there);
            let named = env_path is Some && there.env;
            &&& explicit matches Some(p) ==> if there.explicit {
                res == Ok::<Seq<char>, Seq<char>>(p)
            } else {
                res == Err::<Seq<char>, Seq<char>>("config not found: "@ + p)
            }
            &&& explicit is None && named ==> (env_path matches Some(p) && res == Ok::<
                Seq<char>,
                Seq<char>,
            >(p))
            &&& explicit is None && !named && there.local ==> res == Ok::<Seq<char>, Seq<char>>(
                "./latch.toml"@,
            )
            &&& explicit is None && !named && !there.local && there.default ==> res == Ok::<
                Seq<char>,
                Seq<char>,
            >(default)
            &&& explicit is None && !named && !there.local && !there.default ==> (res matches Err(e)
                && exists|a: Seq<char>, b: Seq<char>| e == #[trigger] (a + default + b))
        }),
{
    let a = "no config found. Run `latch config init` to create "@;
    let b = ", or set LATCH_HOSTNAME in env"@;
    assert(a + default + b == a + default + b);
}

/// The report of a starting daemon has a line for where it listens, where its
/// config is from, and each setting, in this order.
pub proof fn daemons_report_their_settings(c: ConfigView, version: Seq<char>, from: Seq<char>)
    requires
        c.source matches Some(p) ==> from == p,
        c.source is None ==> from == "(env)"@,
    ensures
        config::banner(c, version) == chain(
            seq![
                "latch "@ + version + " on "@ + c.listen,
                "  config        = "@ + from,
                "  hostname      = "@ + c.hostname,
                "  origin        = "@ + c.origin,
                "  cookie_domain = "@ + c.cookie_domain,
                "  data_dir      = "@ + c.data_dir,
                Seq::empty(),
            ],
            seq!['\n'],
        ),
{
    reveal_strlit("\n  config        = ");
    reveal_strlit("\n  hostname      = ");
    reveal_strlit("\n  origin        = ");
    reveal_strlit("\n  cookie_domain = ");
    reveal_strlit("\n  data_dir      = ");
    reveal_strlit("\n");
    reveal_strlit("  config        = ");
    reveal_strlit("  hostname      = ");
    reveal_strlit("  origin        = ");
    reveal_strlit("  cookie_domain = ");
    reveal_strlit("  data_dir      = ");
    let first = "latch "@ + version + " on "@ + c.listen;
    let a = seq![first];
    assert("\n  config        = "@ =~= seq!['\n'] + "  config        = "@);
    lemma_next_line(a, "\n  config        = "@, "  config        = "@, from);
    let b = a.push("  config        = "@ + from);
    assert("\n  hostname      = "@ =~= seq!['\n'] + "  hostname      = "@);
    lemma_next_line(b, "\n  hostname      = "@, "  hostname      = "@, c.hostname);
    let d = b.push("  hostname      = "@ + c.hostname);
    assert("\n  origin        = "@ =~= seq!['\n'] + "  origin        = "@);
    lemma_next_line(d, "\n  origin        = "@, "  origin        = "@, c.origin);
    let e = d.push("  origin        = "@ + c.origin);
    assert("\n  cookie_domain = "@ =~= seq!['\n'] + "  cookie_domain = "@);
    lemma_next_line(e, "\n  cookie_domain = "@, "  cookie_domain = "@, c.cookie_domain);
    let f = e.push("  cookie_domain = "@ + c.cookie_domain);
    assert("\n  data_dir      = "@ =~= seq!['\n'] + "  data_dir      = "@);
    lemma_next_line(f, "\n  data_dir      = "@, "  data_dir      = "@, c.data_dir);
    let g = f.push("  data_dir      = "@ + c.data_dir);
    lemma_last_line(g);
    assert(g.push(Seq::empty()) =~= seq![
        first,
        "  config        = "@ + from,
        "  hostname      = "@ + c.hostname,
        "  origin        = "@ + c.origin,
        "  cookie_domain = "@ + c.cookie_domain,
        "  data_dir      = "@ + c.data_dir,
        Seq::empty(),
    ]);
}

/// Who has no home directory lives in the root.
pub proof fn who_has_no_home_lives_in_the_root(env: Env)
    requires
        env.home is None,
    ensures
        env.xdg_config_home is None ==> config::config_path_of(Mode::User, env)
            == "/.config/latch/config.toml"@,
        env.xdg_data_home is None ==> config::data_dir_of(Mode::User, env)
            == "/.local/share/latch"@,
        env.xdg_state_home is None ==> config::under(config::state_home_of(env), "latch"@)
            == "/.local/state/latch"@,
{
    reveal_strlit("/");
    reveal_strlit(".config");
    reveal_strlit(".local/share");
    reveal_strlit(".local/state");
    reveal_strlit("latch/config.toml");
    reveal_strlit("latch");
    reveal_strlit("/.config/latch/config.toml");
    reveal_strlit("/.local/share/latch");
    reveal_strlit("/.local/state/latch");
    assert("/"@ + ".config"@ + seq!['/'] + "latch/config.toml"@ =~= "/.config/latch/config.toml"@);
    assert("/"@ + ".local/share"@ + seq!['/'] + "latch"@ =~= "/.local/share/latch"@);
    assert("/"@ + ".local/state"@ + seq!['/'] + "latch"@ =~= "/.local/state/latch"@);
}

} // verus!
