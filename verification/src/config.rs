//! Configuration: the layers it is made of, the defaults it is completed
//! with, and the places it is looked for.
//!
//! Paths are texts, and what the process finds around it is handed in: its
//! environment as an `Env`, its user as a `Mode`.
use vstd::prelude::*;

use crate::{outside, text};

verus! {

// --- universal constants ----------------------------------------------------

pub const RP_NAME: &'static str = "latch";

pub const USER_ID: &'static str = "c3a4b1f0-0000-0000-0000-000000000001";

pub const USER_NAME: &'static str = "me";

pub const USER_DISPLAY: &'static str = "latch";

/// How long a session lasts, in seconds: seven days.
pub const SESSION_TTL: u64 = 604_800;

/// How long a challenge can be answered, in seconds: five minutes.
pub const CHALLENGE_TTL: u64 = 300;

/// How long the sweeper rests between two runs, in seconds.
pub const SWEEP_INTERVAL: u64 = 300;

pub const COOKIE_SESSION: &'static str = "latch_session";

pub const COOKIE_CHALLENGE: &'static str = "latch_challenge";

pub const DEFAULT_LISTEN: &'static str = "127.0.0.1:8080";

// --- mode -------------------------------------------------------------------

/// Whether latch runs for the whole system or for one user of it.
#[derive(Copy, Clone, Debug, PartialEq, Eq, Structural)]
pub enum Mode {
    System,
    User,
}

impl Mode {
    /// The mode of a process that runs as the user `uid`.
    pub fn detect(uid: u32) -> (res: Mode)
        ensures
            res == if uid == 0 {
                Mode::System
            } else {
                Mode::User
            },
    {
        if uid == 0 {
            Mode::System
        } else {
            Mode::User
        }
    }

    /// The word for a mode.
    pub open spec fn word(self) -> Seq<char> {
        match self {
            Mode::System => "system"@,
            Mode::User => "user"@,
        }
    }

    pub fn label(&self) -> (res: &'static str)
        ensures
            res@ == self.word(),
    {
        match self {
            Mode::System => "system",
            Mode::User => "user",
        }
    }
}

// --- environment ------------------------------------------------------------

/// The environment variables that latch reads, as far as they are set.
pub struct Env {
    pub home: Option<String>,
    pub xdg_config_home: Option<String>,
    pub xdg_data_home: Option<String>,
    pub xdg_state_home: Option<String>,
    pub latch_config: Option<String>,
    pub latch_hostname: Option<String>,
    pub latch_origin: Option<String>,
    pub latch_cookie_domain: Option<String>,
    pub latch_listen: Option<String>,
    pub latch_data_dir: Option<String>,
}

/// A path that starts at the root.
pub open spec fn is_absolute(path: Seq<char>) -> bool {
    path.len() > 0 && path[0] == '/'
}

/// `rel` as seen from the directory `base`.
pub open spec fn under(base: Seq<char>, rel: Seq<char>) -> Seq<char> {
    if is_absolute(rel) {
        rel
    } else if base.len() == 0 || base.last() == '/' {
        base + rel
    } else {
        base + seq!['/'] + rel
    }
}

/// The home directory, or the root where none is set.
pub open spec fn home_of(env: Env) -> Seq<char> {
    match env.home {
        Some(p) => p@,
        None => "/"@,
    }
}

/// The directory a variable names, if it names one from the root, and else
/// `rel` below the home directory.
pub open spec fn base_dir(var: Option<Seq<char>>, env: Env, rel: Seq<char>) -> Seq<char> {
    match var {
        Some(p) => if is_absolute(p) {
            p
        } else {
            under(home_of(env), rel)
        },
        None => under(home_of(env), rel),
    }
}

pub open spec fn config_home_of(env: Env) -> Seq<char> {
    base_dir(text::text_of(env.xdg_config_home), env, ".config"@)
}

pub open spec fn data_home_of(env: Env) -> Seq<char> {
    base_dir(text::text_of(env.xdg_data_home), env, ".local/share"@)
}

pub open spec fn state_home_of(env: Env) -> Seq<char> {
    base_dir(text::text_of(env.xdg_state_home), env, ".local/state"@)
}

/// Where the config is looked for last, and written by default.
pub open spec fn config_path_of(mode: Mode, env: Env) -> Seq<char> {
    match mode {
        Mode::System => "/etc/latch/config.toml"@,
        Mode::User => under(config_home_of(env), "latch/config.toml"@),
    }
}

/// Where data is kept by default.
pub open spec fn data_dir_of(mode: Mode, env: Env) -> Seq<char> {
    match mode {
        Mode::System => "/var/lib/latch"@,
        Mode::User => under(data_home_of(env), "latch"@),
    }
}

/// A piece of a path that leads somewhere.
pub open spec fn is_step(piece: Seq<char>) -> bool {
    piece.len() > 0 && piece != "."@
}

/// The pieces of a path that lead somewhere, in order.
pub open spec fn steps_in(pieces: Seq<Seq<char>>) -> Seq<Seq<char>>
    decreases pieces.len(),
{
    if pieces.len() == 0 {
        Seq::empty()
    } else if is_step(pieces.last()) {
        steps_in(pieces.drop_last()).push(pieces.last())
    } else {
        steps_in(pieces.drop_last())
    }
}

/// Two paths are the same when they start at the same place, and say so in
/// the same way, and take the same steps. Slashes that are doubled or stand
/// at the end do not count, nor do dots but at the start.
pub open spec fn same_steps(a: Seq<char>, b: Seq<char>) -> bool {
    &&& is_absolute(a) == is_absolute(b)
    &&& text::pieces(a, '/')[0] == "."@ <==> text::pieces(b, '/')[0] == "."@
    &&& steps_in(text::pieces(a, '/')) == steps_in(text::pieces(b, '/'))
}

/// The pieces of a path that lead somewhere, in order.
fn steps_of(pieces: &Vec<String>) -> (res: Vec<String>)
    ensures
        text::texts(res@) == steps_in(text::texts(pieces@)),
{
    let mut out: Vec<String> = Vec::new();
    let mut i: usize = 0;
    let ghost all = text::texts(pieces@);
    assert(all.take(0) =~= Seq::empty());
    assert(text::texts(out@) =~= Seq::empty());
    while i < pieces.len()
        invariant
            i <= pieces@.len(),
            all == text::texts(pieces@),
            text::texts(out@) == steps_in(all.take(i as int)),
        decreases pieces@.len() - i,
    {
        let ghost before = text::texts(out@);
        assert(all.take(i + 1).drop_last() =~= all.take(i as int));
        assert(all.take(i + 1).last() == pieces@[i as int]@);
        let piece = pieces[i].as_str();
        if text::chars_of(piece).len() > 0 && !text::same(piece, ".") {
            out.push(piece.to_owned());
            assert(text::texts(out@) =~= before.push(piece@));
        }
        i = i + 1;
    }
    assert(all.take(pieces@.len() as int) =~= all);
    out
}

/// Whether two paths are the same.
pub fn same_path(a: &str, b: &str) -> (res: bool)
    ensures
        res == same_steps(a@, b@),
{
    let x = text::split(a, '/');
    let y = text::split(b, '/');
    assert(text::texts(x@)[0] == x@[0]@ && text::texts(y@)[0] == y@[0]@);
    if path_is_absolute(a) != path_is_absolute(b) || text::same(x[0].as_str(), ".") != text::same(
        y[0].as_str(),
        ".",
    ) {
        return false;
    }
    text::same_list(&steps_of(&x), &steps_of(&y))
}

/// Whether a path starts at the root.
pub fn path_is_absolute(path: &str) -> (res: bool)
    ensures
        res == is_absolute(path@),
{
    let a = text::chars_of(path);
    a.len() > 0 && a[0] == '/'
}

/// `rel` as seen from the directory `base`.
pub fn join(base: &str, rel: &str) -> (res: String)
    ensures
        res@ == under(base@, rel@),
{
    if path_is_absolute(rel) {
        return rel.to_owned();
    }
    let a = text::chars_of(base);
    let mut out = base.to_owned();
    if a.len() > 0 && a[a.len() - 1] != '/' {
        out.push('/');
    }
    out.append(rel);
    assert(out@ =~= under(base@, rel@));
    out
}

pub fn home_dir(env: &Env) -> (res: String)
    ensures
        res@ == home_of(*env),
{
    match &env.home {
        Some(p) => p.clone(),
        None => "/".to_owned(),
    }
}

fn base_dir_or(var: &Option<String>, env: &Env, rel: &str) -> (res: String)
    ensures
        res@ == base_dir(text::text_of(*var), *env, rel@),
{
    if let Some(p) = var {
        if path_is_absolute(p.as_str()) {
            return p.clone();
        }
    }
    join(home_dir(env).as_str(), rel)
}

pub fn xdg_config_home(env: &Env) -> (res: String)
    ensures
        res@ == config_home_of(*env),
{
    base_dir_or(&env.xdg_config_home, env, ".config")
}

pub fn xdg_data_home(env: &Env) -> (res: String)
    ensures
        res@ == data_home_of(*env),
{
    base_dir_or(&env.xdg_data_home, env, ".local/share")
}

pub fn xdg_state_home(env: &Env) -> (res: String)
    ensures
        res@ == state_home_of(*env),
{
    base_dir_or(&env.xdg_state_home, env, ".local/state")
}

pub fn default_config_path(mode: Mode, env: &Env) -> (res: String)
    ensures
        res@ == config_path_of(mode, *env),
{
    match mode {
        Mode::System => "/etc/latch/config.toml".to_owned(),
        Mode::User => join(xdg_config_home(env).as_str(), "latch/config.toml"),
    }
}

pub fn default_data_dir(mode: Mode, env: &Env) -> (res: String)
    ensures
        res@ == data_dir_of(mode, *env),
{
    match mode {
        Mode::System => "/var/lib/latch".to_owned(),
        Mode::User => join(xdg_data_home(env).as_str(), "latch"),
    }
}

/// Where data of a user stood up to version 0.5. Looked up so that commands
/// can point to it instead of running with no passkeys.
pub fn legacy_user_data_dir(env: &Env) -> (res: String)
    ensures
        res@ == under(state_home_of(*env), "latch"@),
{
    join(xdg_state_home(env).as_str(), "latch")
}

// --- config layers ----------------------------------------------------------

/// One layer of configuration: a parsed file, the environment, or layers
/// laid over each other.
#[derive(Debug)]
pub struct ConfigFile {
    pub hostname: Option<String>,
    pub origin: Option<String>,
    pub cookie_domain: Option<String>,
    pub listen: Option<String>,
    pub data_dir: Option<String>,
}

/// The contents of a `ConfigFile`.
pub struct ConfigFileView {
    pub hostname: Option<Seq<char>>,
    pub origin: Option<Seq<char>>,
    pub cookie_domain: Option<Seq<char>>,
    pub listen: Option<Seq<char>>,
    pub data_dir: Option<Seq<char>>,
}

impl View for ConfigFile {
    type V = ConfigFileView;

    open spec fn view(&self) -> ConfigFileView {
        ConfigFileView {
            hostname: text::text_of(self.hostname),
            origin: text::text_of(self.origin),
            cookie_domain: text::text_of(self.cookie_domain),
            listen: text::text_of(self.listen),
            data_dir: text::text_of(self.data_dir),
        }
    }
}

/// The layer that says nothing.
pub open spec fn empty_layer() -> ConfigFileView {
    ConfigFileView { hostname: None, origin: None, cookie_domain: None, listen: None, data_dir: None }
}

/// A field of the upper layer, or of the lower one where the upper says
/// nothing.
pub open spec fn over(upper: Option<Seq<char>>, lower: Option<Seq<char>>) -> Option<Seq<char>> {
    if upper is Some {
        upper
    } else {
        lower
    }
}

/// `upper` laid over `lower`.
pub open spec fn laid_over(upper: ConfigFileView, lower: ConfigFileView) -> ConfigFileView {
    ConfigFileView {
        hostname: over(upper.hostname, lower.hostname),
        origin: over(upper.origin, lower.origin),
        cookie_domain: over(upper.cookie_domain, lower.cookie_domain),
        listen: over(upper.listen, lower.listen),
        data_dir: over(upper.data_dir, lower.data_dir),
    }
}

/// What the environment says.
pub open spec fn env_layer(env: Env) -> ConfigFileView {
    ConfigFileView {
        hostname: text::text_of(env.latch_hostname),
        origin: text::text_of(env.latch_origin),
        cookie_domain: text::text_of(env.latch_cookie_domain),
        listen: text::text_of(env.latch_listen),
        data_dir: text::text_of(env.latch_data_dir),
    }
}

impl Default for ConfigFile {
    fn default() -> (res: ConfigFile)
        ensures
            res@ == empty_layer(),
    {
        ConfigFile { hostname: None, origin: None, cookie_domain: None, listen: None, data_dir: None }
    }
}

impl ConfigFile {
    pub fn from_env(env: &Env) -> (res: ConfigFile)
        ensures
            res@ == env_layer(*env),
    {
        ConfigFile {
            hostname: text::copy(&env.latch_hostname),
            origin: text::copy(&env.latch_origin),
            cookie_domain: text::copy(&env.latch_cookie_domain),
            listen: text::copy(&env.latch_listen),
            data_dir: text::copy(&env.latch_data_dir),
        }
    }

    /// Lays `other` over this layer.
    pub fn merge(&mut self, other: ConfigFile)
        ensures
            final(self)@ == laid_over(other@, old(self)@),
    {
        if other.hostname.is_some() {
            self.hostname = other.hostname;
        }
        if other.origin.is_some() {
            self.origin = other.origin;
        }
        if other.cookie_domain.is_some() {
            self.cookie_domain = other.cookie_domain;
        }
        if other.listen.is_some() {
            self.listen = other.listen;
        }
        if other.data_dir.is_some() {
            self.data_dir = other.data_dir;
        }
    }
}

// --- resolved config --------------------------------------------------------

/// A complete configuration.
#[derive(Debug)]
pub struct Config {
    pub hostname: String,
    pub origin: String,
    pub cookie_domain: String,
    pub listen: String,
    pub data_dir: String,
    pub passkeys_path: String,
    pub key_path: String,
    pub revoked_path: String,
    pub source: ConfigSource,
}

/// Where a configuration comes from.
#[derive(Debug)]
pub enum ConfigSource {
    File(String),
    Env,
}

/// The contents of a `Config`. The source is the path of its file, if it has
/// one.
pub struct ConfigView {
    pub hostname: Seq<char>,
    pub origin: Seq<char>,
    pub cookie_domain: Seq<char>,
    pub listen: Seq<char>,
    pub data_dir: Seq<char>,
    pub passkeys_path: Seq<char>,
    pub key_path: Seq<char>,
    pub revoked_path: Seq<char>,
    pub source: Option<Seq<char>>,
}

impl View for ConfigSource {
    type V = Option<Seq<char>>;

    open spec fn view(&self) -> Option<Seq<char>> {
        match self {
            ConfigSource::File(p) => Some(p@),
            ConfigSource::Env => None,
        }
    }
}

impl View for Config {
    type V = ConfigView;

    open spec fn view(&self) -> ConfigView {
        ConfigView {
            hostname: self.hostname@,
            origin: self.origin@,
            cookie_domain: self.cookie_domain@,
            listen: self.listen@,
            data_dir: self.data_dir@,
            passkeys_path: self.passkeys_path@,
            key_path: self.key_path@,
            revoked_path: self.revoked_path@,
            source: self.source@,
        }
    }
}

/// A result with the contents of its config or the text of its error.
pub open spec fn config_or_text(r: Result<Config, String>) -> Result<ConfigView, Seq<char>> {
    match r {
        Ok(c) => Ok(c@),
        Err(e) => Err(e@),
    }
}

/// How a source is shown.
pub open spec fn source_text(source: Option<Seq<char>>) -> Seq<char> {
    match source {
        Some(path) => path,
        None => "(env)"@,
    }
}

impl ConfigSource {
    pub fn display(&self) -> (res: String)
        ensures
            res@ == source_text(self@),
    {
        match self {
            ConfigSource::File(p) => p.clone(),
            ConfigSource::Env => "(env)".to_owned(),
        }
    }
}

/// What follows the first dot.
pub open spec fn after_dot(s: Seq<char>) -> Option<Seq<char>>
    decreases s.len(),
{
    if s.len() == 0 {
        None
    } else if s[0] == '.' {
        Some(s.drop_first())
    } else {
        after_dot(s.drop_first())
    }
}

/// The cookie domain for a hostname: what follows its leftmost label, where
/// that still has a dot, and else the hostname itself. So an apex domain does
/// not become its top-level domain.
pub open spec fn parent_domain(hostname: Seq<char>) -> Seq<char> {
    match after_dot(hostname) {
        Some(parent) => if parent.contains('.') {
            parent
        } else {
            hostname
        },
        None => hostname,
    }
}

/// A value, or a default for it.
pub open spec fn given_or(value: Option<Seq<char>>, default: Seq<char>) -> Seq<char> {
    match value {
        Some(v) => v,
        None => default,
    }
}

/// The complete configuration for a hostname and the layer it stands in.
pub open spec fn completed(
    hostname: Seq<char>,
    layer: ConfigFileView,
    source: Option<Seq<char>>,
    default_dir: Seq<char>,
) -> ConfigView {
    let data_dir = given_or(layer.data_dir, default_dir);
    ConfigView {
        hostname,
        origin: given_or(layer.origin, "https://"@ + hostname),
        cookie_domain: given_or(layer.cookie_domain, parent_domain(hostname)),
        listen: given_or(layer.listen, DEFAULT_LISTEN@),
        data_dir,
        passkeys_path: under(data_dir, "passkeys.json"@),
        key_path: under(data_dir, "key"@),
        revoked_path: under(data_dir, "revoked.json"@),
        source,
    }
}

/// The configuration that a layer comes to.
pub open spec fn resolved(
    layer: ConfigFileView,
    source: Option<Seq<char>>,
    default_dir: Seq<char>,
) -> Result<ConfigView, Seq<char>> {
    match layer.hostname {
        None => Err("hostname is required (set in config or via LATCH_HOSTNAME)"@),
        Some(hostname) => if text::holds(hostname, "example.com"@) {
            Err("hostname still has placeholder; edit your config or env"@)
        } else {
            Ok(completed(hostname, layer, source, default_dir))
        },
    }
}

/// The cookie domain for a hostname.
pub fn derive_cookie_domain(hostname: &str) -> (res: String)
    ensures
        res@ == parent_domain(hostname@),
{
    let a = text::chars_of(hostname);
    let n: usize = a.len();
    let mut i: usize = 0;
    assert(a@.skip(0) =~= a@);
    while i < n && a[i] != '.'
        invariant
            n == a@.len(),
            i <= n,
            after_dot(a@) == after_dot(a@.skip(i as int)),
        decreases n - i,
    {
        assert(a@.skip(i as int).drop_first() =~= a@.skip(i + 1));
        i = i + 1;
    }
    if i == n {
        return hostname.to_owned();
    }
    assert(a@.skip(i as int).drop_first() =~= a@.skip(i + 1));
    let ghost parent = a@.skip(i + 1);
    let mut j: usize = i + 1;
    while j < n
        invariant
            n == a@.len(),
            i < j <= n,
            a@ == hostname@,
            parent == a@.skip(i + 1),
            after_dot(a@) == Some(parent),
            forall|k: int| i + 1 <= k < j ==> a@[k] != '.',
        decreases n - j,
    {
        if a[j] == '.' {
            assert(parent[j - i - 1] == '.');
            assert(a@.subrange(i + 1, n as int) =~= parent);
            return text::string_of(&a, i + 1, n);
        }
        j = j + 1;
    }
    assert(!parent.contains('.')) by {
        if parent.contains('.') {
            let k = parent.index_of('.');
            assert(a@[k + i + 1] == '.');
        }
    }
    hostname.to_owned()
}

/// What is known of the config file once it has been looked for.
pub enum Found {
    /// None was found, for the reason given.
    Missing(String),
    /// Reading it failed.
    Unreadable { path: String, error: String },
    /// It does not parse.
    Malformed { path: String, error: String },
    /// It says this.
    Parsed { path: String, file: ConfigFile },
}

/// The configuration that a file, or its absence, and the environment over
/// it come to. Without a file the environment must name a hostname.
pub open spec fn loaded(found: Found, env: Env, default_dir: Seq<char>) -> Result<
    ConfigView,
    Seq<char>,
> {
    match found {
        Found::Missing(why) => if env.latch_hostname is None {
            Err(why@)
        } else {
            resolved(env_layer(env), None, default_dir)
        },
        Found::Unreadable { path, error } => Err("read "@ + path@ + ": "@ + error@),
        Found::Malformed { path, error } => Err("parse "@ + path@ + ": "@ + error@),
        Found::Parsed { path, file } => resolved(
            laid_over(env_layer(env), file@),
            Some(path@),
            default_dir,
        ),
    }
}

fn or_default(value: Option<String>, default: String) -> (res: String)
    ensures
        res@ == given_or(text::text_of(value), default@),
{
    match value {
        Some(v) => v,
        None => default,
    }
}

impl Config {
    /// The configuration that a file, or its absence, and the environment
    /// come to.
    pub fn load(found: Found, mode: Mode, env: &Env) -> (res: Result<Config, String>)
        ensures
            config_or_text(res) == loaded(found, *env, data_dir_of(mode, *env)),
    {
        let layer = ConfigFile::from_env(env);
        match found {
            Found::Missing(why) => {
                if layer.hostname.is_none() {
                    return Err(why);
                }
                let mut cf = ConfigFile::default();
                cf.merge(layer);
                assert(cf@ == env_layer(*env));
                Config::resolve(cf, ConfigSource::Env, mode, env)
            },
            Found::Unreadable { path, error } => Err(
                "read ".to_owned().concat(path.as_str()).concat(": ").concat(error.as_str()),
            ),
            Found::Malformed { path, error } => Err(
                "parse ".to_owned().concat(path.as_str()).concat(": ").concat(error.as_str()),
            ),
            Found::Parsed { path, file } => {
                let mut cf = file;
                cf.merge(layer);
                Config::resolve(cf, ConfigSource::File(path), mode, env)
            },
        }
    }

    /// The configuration that a layer comes to.
    pub fn resolve(cf: ConfigFile, source: ConfigSource, mode: Mode, env: &Env) -> (res: Result<
        Config,
        String,
    >)
        ensures
            config_or_text(res) == resolved(cf@, source@, data_dir_of(mode, *env)),
    {
        let hostname = match cf.hostname {
            Some(h) => h,
            None => {
                return Err(
                    "hostname is required (set in config or via LATCH_HOSTNAME)".to_owned(),
                );
            },
        };
        if text::contains(hostname.as_str(), "example.com") {
            return Err("hostname still has placeholder; edit your config or env".to_owned());
        }
        let origin = or_default(cf.origin, "https://".to_owned().concat(hostname.as_str()));
        let cookie_domain = or_default(
            cf.cookie_domain,
            derive_cookie_domain(hostname.as_str()),
        );
        let listen = or_default(cf.listen, DEFAULT_LISTEN.to_owned());
        let data_dir = or_default(cf.data_dir, default_data_dir(mode, env));
        let passkeys_path = join(data_dir.as_str(), "passkeys.json");
        let key_path = join(data_dir.as_str(), "key");
        let revoked_path = join(data_dir.as_str(), "revoked.json");
        Ok(
            Config {
                hostname,
                origin,
                cookie_domain,
                listen,
                data_dir,
                passkeys_path,
                key_path,
                revoked_path,
                source,
            },
        )
    }

    /// The lines that a starting daemon reports of its configuration.
    pub fn print(&self, version: &str) -> (res: String)
        ensures
            res@ == banner(self@, version@),
    {
        "latch ".to_owned().concat(version).concat(" on ").concat(self.listen.as_str()).concat(
            "\n  config        = ",
        ).concat(self.source.display().as_str()).concat("\n  hostname      = ").concat(
            self.hostname.as_str(),
        ).concat("\n  origin        = ").concat(self.origin.as_str()).concat(
            "\n  cookie_domain = ",
        ).concat(self.cookie_domain.as_str()).concat("\n  data_dir      = ").concat(
            self.data_dir.as_str(),
        ).concat("\n")
    }

    /// Where a browser that asked for `next` is sent after signing in.
    pub fn validate_next(&self, next: &str) -> (res: String)
        ensures
            res@ == next_target(next@, self.cookie_domain@, outside::url_scheme_and_host(next@)),
    {
        next_or_root(next, self.cookie_domain.as_str(), outside::parse_url(next))
    }
}

/// The lines that a starting daemon reports of its configuration.
pub open spec fn banner(c: ConfigView, version: Seq<char>) -> Seq<char> {
    "latch "@ + version + " on "@ + c.listen + "\n  config        = "@ + source_text(c.source)
        + "\n  hostname      = "@ + c.hostname + "\n  origin        = "@ + c.origin
        + "\n  cookie_domain = "@ + c.cookie_domain + "\n  data_dir      = "@ + c.data_dir + "\n"@
}

// --- where to go after signing in -------------------------------------------

/// A path on this host: it starts with one slash, not with two.
pub open spec fn is_local(next: Seq<char>) -> bool {
    next.len() > 0 && next[0] == '/' && !(next.len() > 1 && next[1] == '/')
}

/// A host that gets the cookies of a domain: the domain or one below it.
pub open spec fn in_domain(host: Seq<char>, domain: Seq<char>) -> bool {
    host == domain || (seq!['.'] + domain).is_suffix_of(host)
}

/// A URL, parsed into its scheme and host, of a site that gets the session
/// cookie.
pub open spec fn is_trusted_url(
    parts: Option<(Seq<char>, Option<Seq<char>>)>,
    cookie_domain: Seq<char>,
) -> bool {
    match parts {
        Some((scheme, Some(host))) => scheme == "https"@ && in_domain(host, cookie_domain),
        _ => false,
    }
}

/// Where a browser that asked for `next` is sent: there, if it is a path on
/// this host or a site that gets the session cookie, and else to the root.
pub open spec fn next_target(
    next: Seq<char>,
    cookie_domain: Seq<char>,
    parts: Option<(Seq<char>, Option<Seq<char>>)>,
) -> Seq<char> {
    if is_local(next) || is_trusted_url(parts, cookie_domain) {
        next
    } else {
        "/"@
    }
}

/// Where a browser that asked for `next` is sent, `next` having been parsed
/// into `parts`.
pub fn next_or_root(
    next: &str,
    cookie_domain: &str,
    parts: Option<(String, Option<String>)>,
) -> (res: String)
    ensures
        res@ == next_target(next@, cookie_domain@, outside::parts_text(parts)),
{
    let a = text::chars_of(next);
    if a.len() > 0 && a[0] == '/' && !(a.len() > 1 && a[1] == '/') {
        return next.to_owned();
    }
    if let Some((scheme, host)) = parts {
        if let Some(h) = host {
            let mut dot = String::new();
            dot.push('.');
            dot.append(cookie_domain);
            assert(dot@ =~= seq!['.'] + cookie_domain@);
            if text::same(scheme.as_str(), "https") && (text::same(h.as_str(), cookie_domain)
                || text::ends_with(h.as_str(), dot.as_str())) {
                return next.to_owned();
            }
        }
    }
    "/".to_owned()
}

// --- looking for the config file --------------------------------------------

/// Which of the places for a config file hold one.
pub struct Present {
    /// The path that was given.
    pub explicit: bool,
    /// The path that the environment names.
    pub env: bool,
    /// `./latch.toml`.
    pub local: bool,
    /// The default for the mode.
    pub default: bool,
}

/// The place a config file is read from. A path that was given is the only
/// place looked at; else the first that holds a file counts, of the one that
/// the environment names, the working directory and the default.
pub open spec fn config_place(
    explicit: Option<Seq<char>>,
    env_path: Option<Seq<char>>,
    default: Seq<char>,
    present: Present,
) -> Result<Seq<char>, Seq<char>> {
    if let Some(p) = explicit {
        if present.explicit {
            Ok(p)
        } else {
            Err("config not found: "@ + p)
        }
    } else if env_path is Some && present.env {
        Ok(env_path->0)
    } else if present.local {
        Ok("./latch.toml"@)
    } else if present.default {
        Ok(default)
    } else {
        Err(
            "no config found. Run `latch config init` to create "@ + default
                + ", or set LATCH_HOSTNAME in env"@,
        )
    }
}

/// The place a config file is read from.
pub fn find_config(explicit: Option<&str>, mode: Mode, env: &Env, present: &Present) -> (res:
    Result<String, String>)
    ensures
        crate::jwt::text_or_text(res) == config_place(
            text::slice_text_of(explicit),
            text::text_of(env.latch_config),
            config_path_of(mode, *env),
            *present,
        ),
{
    if let Some(p) = explicit {
        if present.explicit {
            return Ok(p.to_owned());
        }
        return Err("config not found: ".to_owned().concat(p));
    }
    if let Some(p) = &env.latch_config {
        if present.env {
            return Ok(p.clone());
        }
    }
    if present.local {
        return Ok("./latch.toml".to_owned());
    }
    let default = default_config_path(mode, env);
    if present.default {
        return Ok(default);
    }
    Err(
        "no config found. Run `latch config init` to create ".to_owned().concat(
            default.as_str(),
        ).concat(", or set LATCH_HOSTNAME in env"),
    )
}

// --- laws -------------------------------------------------------------------

/// A layer that says nothing changes nothing, above or below; a layer over
/// itself is itself; and it does not matter how three layers are grouped.
pub proof fn layering_laws(a: ConfigFileView, b: ConfigFileView, c: ConfigFileView)
    ensures
        laid_over(empty_layer(), a) == a,
        laid_over(a, empty_layer()) == a,
        laid_over(a, a) == a,
        laid_over(a, laid_over(b, c)) == laid_over(laid_over(a, b), c),
{
}

proof fn lemma_after_dot(s: Seq<char>)
    ensures
        after_dot(s) matches Some(p) ==> (seq!['.'] + p).is_suffix_of(s) && p.len() < s.len(),
        after_dot(s) is Some <==> s.contains('.'),
    decreases s.len(),
{
    if s.len() > 0 {
        let t = s.drop_first();
        if s[0] == '.' {
            assert(seq!['.'] + t =~= s);
            assert(s.skip(0) =~= s);
        } else {
            lemma_after_dot(t);
            if let Some(p) = after_dot(t) {
                let d = seq!['.'] + p;
                assert(t.skip(t.len() - d.len()) =~= s.skip(s.len() - d.len()));
            }
            if t.contains('.') {
                assert(s[t.index_of('.') + 1] == '.');
            }
            if s.contains('.') {
                assert(t[s.index_of('.') - 1] == '.');
            }
        }
    }
}

/// The host that latch runs on always gets the cookies of the domain that is
/// derived for it, and a hostname with a dot never gets a domain without one.
pub proof fn derived_domain_covers_the_host(hostname: Seq<char>)
    ensures
        in_domain(hostname, parent_domain(hostname)),
        hostname.contains('.') ==> parent_domain(hostname).contains('.'),
{
    lemma_after_dot(hostname);
}

/// A browser is never sent anywhere but to a path on this host or, by https,
/// to a site that gets the session cookie.
pub proof fn redirects_stay_home(
    next: Seq<char>,
    cookie_domain: Seq<char>,
    parts: Option<(Seq<char>, Option<Seq<char>>)>,
)
    ensures
        ({
            let to = next_target(next, cookie_domain, parts);
            is_local(to) || (to == next && is_trusted_url(parts, cookie_domain))
        }),
{
    reveal_strlit("/");
}

/// Where a browser is sent stands a second look: asking for it again leads
/// to the same place.
pub proof fn redirects_are_settled(next: Seq<char>, cookie_domain: Seq<char>)
    ensures
        ({
            let to = next_target(next, cookie_domain, outside::url_scheme_and_host(next));
            next_target(to, cookie_domain, outside::url_scheme_and_host(to)) == to
        }),
{
    reveal_strlit("/");
}

/// A resolved configuration keeps its three files in its data directory, by
/// these names, whatever the directory is; and it names every setting of its
/// layer that is set.
pub proof fn resolved_config_keeps_its_layer(
    layer: ConfigFileView,
    source: Option<Seq<char>>,
    default_dir: Seq<char>,
    c: ConfigView,
)
    requires
        resolved(layer, source, default_dir) == Ok::<ConfigView, Seq<char>>(c),
    ensures
        c.passkeys_path == under(c.data_dir, "passkeys.json"@),
        c.key_path == under(c.data_dir, "key"@),
        c.revoked_path == under(c.data_dir, "revoked.json"@),
        layer.hostname == Some(c.hostname),
        layer.origin is Some ==> layer.origin == Some(c.origin),
        layer.cookie_domain is Some ==> layer.cookie_domain == Some(c.cookie_domain),
        layer.listen is Some ==> layer.listen == Some(c.listen),
        layer.data_dir is Some ==> layer.data_dir == Some(c.data_dir),
        c.source == source,
{
}

/// With a hostname in the environment no config file is needed: what the
/// environment says is all there is, and no field of it can be overruled.
pub proof fn environment_rules(found: Found, env: Env, default_dir: Seq<char>, c: ConfigView)
    requires
        loaded(found, env, default_dir) == Ok::<ConfigView, Seq<char>>(c),
    ensures
        env.latch_hostname matches Some(h) ==> c.hostname == h@,
        env.latch_origin matches Some(o) ==> c.origin == o@,
        env.latch_cookie_domain matches Some(d) ==> c.cookie_domain == d@,
        env.latch_listen matches Some(l) ==> c.listen == l@,
        env.latch_data_dir matches Some(d) ==> c.data_dir == d@,
        found is Missing ==> env.latch_hostname is Some && c.source is None,
{
}

} // verus!
