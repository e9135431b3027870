//! Output discipline: errors with exit codes, and when output is coloured,
//! machine-readable or held back.
//!
//! Data goes to stdout and diagnostics to stderr. Colour is used only when
//! stdout is a terminal, `NO_COLOR` is unset and `--no-color` was not given.
use vstd::prelude::*;

use crate::text;

verus! {

// --- exit codes (sysexits.h) ------------------------------------------------

pub const EX_OK: i32 = 0;

pub const EX_FAIL: i32 = 1;

pub const EX_USAGE: i32 = 64;

pub const EX_CANTCREAT: i32 = 73;

pub const EX_CONFIG: i32 = 78;

// --- errors -----------------------------------------------------------------

/// Why a command failed, what may help, and the code it exits with.
#[derive(Debug)]
pub struct Error {
    pub msg: String,
    pub hint: Option<String>,
    pub code: i32,
}

/// The contents of an `Error`.
pub struct ErrorView {
    pub msg: Seq<char>,
    pub hint: Option<Seq<char>>,
    pub code: i32,
}

impl View for Error {
    type V = ErrorView;

    open spec fn view(&self) -> ErrorView {
        ErrorView { msg: self.msg@, hint: text::text_of(self.hint), code: self.code }
    }
}

/// An error without a hint.
pub open spec fn plain_error(msg: Seq<char>, code: i32) -> ErrorView {
    ErrorView { msg, hint: None, code }
}

/// An error with a hint.
pub open spec fn hinted_error(msg: Seq<char>, hint: Seq<char>, code: i32) -> ErrorView {
    ErrorView { msg, hint: Some(hint), code }
}

impl Error {
    /// The command line is wrong.
    pub fn usage(msg: &str) -> (res: Error)
        ensures
            res@ == plain_error(msg@, EX_USAGE),
    {
        Error { msg: msg.to_owned(), hint: None, code: EX_USAGE }
    }

    /// The configuration is wrong.
    pub fn config(msg: &str) -> (res: Error)
        ensures
            res@ == plain_error(msg@, EX_CONFIG),
    {
        Error { msg: msg.to_owned(), hint: None, code: EX_CONFIG }
    }

    /// A file cannot be written.
    pub fn cantcreat(msg: &str) -> (res: Error)
        ensures
            res@ == plain_error(msg@, EX_CANTCREAT),
    {
        Error { msg: msg.to_owned(), hint: None, code: EX_CANTCREAT }
    }

    /// Anything else.
    pub fn fail(msg: &str) -> (res: Error)
        ensures
            res@ == plain_error(msg@, EX_FAIL),
    {
        Error { msg: msg.to_owned(), hint: None, code: EX_FAIL }
    }

    pub fn with_hint(self, hint: &str) -> (res: Error)
        ensures
            res@ == hinted_error(self@.msg, hint@, self@.code),
    {
        Error { msg: self.msg, hint: Some(hint.to_owned()), code: self.code }
    }

    /// The lines that are printed for an error.
    pub fn print(&self) -> (res: String)
        ensures
            res@ == error_lines(self@),
    {
        let line = "error: ".to_owned().concat(self.msg.as_str()).concat("\n");
        match &self.hint {
            Some(h) => line.concat("  hint: ").concat(h.as_str()).concat("\n"),
            None => line,
        }
    }

    /// The error in one line.
    pub fn display(&self) -> (res: String)
        ensures
            res@ == self@.msg,
    {
        self.msg.clone()
    }
}

/// The lines that are printed for an error.
pub open spec fn error_lines(e: ErrorView) -> Seq<char> {
    let line = "error: "@ + e.msg + "\n"@;
    match e.hint {
        Some(h) => line + "  hint: "@ + h + "\n"@,
        None => line,
    }
}

impl From<String> for Error {
    fn from(s: String) -> (res: Error)
        ensures
            res@ == plain_error(s@, EX_FAIL),
    {
        Error { msg: s, hint: None, code: EX_FAIL }
    }
}

impl vstd::std_specs::convert::FromSpecImpl<String> for Error {
    open spec fn obeys_from_spec() -> bool {
        true
    }

    open spec fn from_spec(s: String) -> Error {
        Error { msg: s, hint: None, code: EX_FAIL }
    }
}

impl From<&str> for Error {
    fn from(s: &str) -> (res: Error)
        ensures
            res@ == plain_error(s@, EX_FAIL),
    {
        Error::fail(s)
    }
}

impl vstd::std_specs::convert::FromSpecImpl<&str> for Error {
    open spec fn obeys_from_spec() -> bool {
        false
    }

    open spec fn from_spec(s: &str) -> Error {
        arbitrary()
    }
}

// --- colour -----------------------------------------------------------------

/// What the command line asks of the output.
#[derive(Debug)]
pub struct Flags {
    pub no_color: bool,
    pub json: bool,
    pub quiet: bool,
}

/// What the process finds its output to be.
#[derive(Debug)]
pub struct Terminal {
    /// `NO_COLOR` is set.
    pub no_color_env: bool,
    /// Stdout is a terminal.
    pub stdout_tty: bool,
}

impl Default for Flags {
    fn default() -> (res: Flags)
        ensures
            !res.no_color && !res.json && !res.quiet,
    {
        Flags { no_color: false, json: false, quiet: false }
    }
}

pub fn set_no_color(flags: &mut Flags, v: bool)
    ensures
        *final(flags) == (Flags { no_color: v, ..*old(flags) }),
{
    flags.no_color = v;
}

/// Whether output is coloured.
pub open spec fn coloured(flags: Flags, term: Terminal) -> bool {
    !flags.no_color && !term.no_color_env && term.stdout_tty
}

pub fn color_enabled(flags: &Flags, term: &Terminal) -> (res: bool)
    ensures
        res == coloured(*flags, *term),
{
    if flags.no_color {
        return false;
    }
    if term.no_color_env {
        return false;
    }
    term.stdout_tty
}

/// The mark of something that is as it should be.
pub open spec fn tick_mark(color: bool) -> Seq<char> {
    if color {
        "\x1b[32m\u{2713}\x1b[0m"@
    } else {
        "ok"@
    }
}

/// The mark of something that is not.
pub open spec fn cross_mark(color: bool) -> Seq<char> {
    if color {
        "\x1b[31m\u{2717}\x1b[0m"@
    } else {
        "FAIL"@
    }
}

pub fn tick(flags: &Flags, term: &Terminal) -> (res: String)
    ensures
        res@ == tick_mark(coloured(*flags, *term)),
{
    if color_enabled(flags, term) {
        "\x1b[32m\u{2713}\x1b[0m".to_owned()
    } else {
        "ok".to_owned()
    }
}

pub fn cross(flags: &Flags, term: &Terminal) -> (res: String)
    ensures
        res@ == cross_mark(coloured(*flags, *term)),
{
    if color_enabled(flags, term) {
        "\x1b[31m\u{2717}\x1b[0m".to_owned()
    } else {
        "FAIL".to_owned()
    }
}

// --- machine-readable mode --------------------------------------------------

pub fn set_json(flags: &mut Flags, v: bool)
    ensures
        *final(flags) == (Flags { json: v, ..*old(flags) }),
{
    flags.json = v;
}

pub fn set_quiet(flags: &mut Flags, v: bool)
    ensures
        *final(flags) == (Flags { quiet: v, ..*old(flags) }),
{
    flags.quiet = v;
}

/// Whether structured data is printed as JSON: when asked for, or when stdout
/// is no terminal.
pub fn json_mode(flags: &Flags, term: &Terminal) -> (res: bool)
    ensures
        res == (flags.json || !term.stdout_tty),
{
    flags.json || !term.stdout_tty
}

pub fn quiet(flags: &Flags) -> (res: bool)
    ensures
        res == flags.quiet,
{
    flags.quiet
}

/// The line that a note prints, if notes are printed.
pub fn note(flags: &Flags, msg: &str) -> (res: Option<String>)
    ensures
        text::text_of(res) == if flags.quiet {
            None
        } else {
            Some(msg@ + "\n"@)
        },
{
    if quiet(flags) {
        None
    } else {
        Some(msg.to_owned().concat("\n"))
    }
}

// --- laws -------------------------------------------------------------------

/// Each of the three ways to switch colour off is enough.
pub proof fn any_switch_turns_colour_off(flags: Flags, term: Terminal)
    requires
        flags.no_color || term.no_color_env || !term.stdout_tty,
    ensures
        !coloured(flags, term),
        tick_mark(coloured(flags, term)) == "ok"@,
        cross_mark(coloured(flags, term)) == "FAIL"@,
{
}

} // verus!
