//! `latch check`: whether configuration and state are fit to serve with.
//!
//! The config must load, with an origin by https and a hostname that is no
//! placeholder; the data directory must be writable, and the passkeys
//! readable.
use vstd::prelude::*;

use crate::config::{Config, Env, Mode};
use crate::output::{Error, Flags, Terminal};
use crate::{config, json, outside, output, text};

verus! {

/// One line of the report.
#[derive(Debug)]
pub struct Row {
    pub label: String,
    pub value: String,
    pub ok: bool,
    pub detail: Option<String>,
}

/// The contents of a `Row`.
pub struct RowView {
    pub label: Seq<char>,
    pub value: Seq<char>,
    pub ok: bool,
    pub detail: Option<Seq<char>>,
}

impl View for Row {
    type V = RowView;

    open spec fn view(&self) -> RowView {
        RowView {
            label: self.label@,
            value: self.value@,
            ok: self.ok,
            detail: text::text_of(self.detail),
        }
    }
}

/// The contents of rows.
pub open spec fn row_views(rows: Seq<Row>) -> Seq<RowView> {
    rows.map_values(|r: Row| r@)
}

/// What was found of the state that a configuration names.
#[derive(Debug)]
pub struct Probe {
    /// The data directory can be written to.
    pub writable: bool,
    /// The data directory holds nothing, or was not there.
    pub vacant: bool,
    /// There is data where version 0.5 kept it.
    pub legacy: bool,
    /// How many passkeys there are, if they can be read. None where the file
    /// is there and cannot.
    pub passkeys: Option<u64>,
}

// --- the report -------------------------------------------------------------

/// A row about something that is as it should be.
pub open spec fn good(label: Seq<char>, value: Seq<char>, detail: Option<Seq<char>>) -> RowView {
    RowView { label, value, ok: true, detail }
}

/// A row about something that is not.
pub open spec fn poor(label: Seq<char>, value: Seq<char>, detail: Seq<char>) -> RowView {
    RowView { label, value, ok: false, detail: Some(detail) }
}

/// An origin that browsers do the ceremonies for.
pub open spec fn is_secure(origin: Seq<char>) -> bool {
    "https://"@.is_prefix_of(origin)
}

/// What is said of data that version 0.5 left behind: it matters to a user
/// whose data directory is another one now and holds nothing, or is not there.
pub open spec fn legacy_note(
    mode: Mode,
    legacy: Seq<char>,
    current: Seq<char>,
    has_data: bool,
    vacant: bool,
) -> Option<Seq<char>> {
    if mode == Mode::User && !config::same_steps(legacy, current) && has_data && vacant {
        Some("v0.5 data found at "@ + legacy + "; run: mv "@ + legacy + " "@ + current)
    } else {
        None
    }
}

/// What is said of the data directory: what version 0.5 left behind comes
/// first.
pub open spec fn data_dir_note(writable: bool, note: Option<Seq<char>>) -> Seq<char> {
    match note {
        Some(n) => n,
        None => if writable {
            "writable"@
        } else {
            "not writable"@
        },
    }
}

/// How many passkeys there are, in words.
pub open spec fn count_text(n: nat) -> Seq<char> {
    if n == 0 {
        "0 passkeys (register one by visiting the page)"@
    } else if n == 1 {
        "1 passkey"@
    } else {
        text::decimal_text(n) + " passkeys"@
    }
}

/// The row about the origin.
pub open spec fn origin_row(origin: Seq<char>) -> RowView {
    if is_secure(origin) {
        good("origin"@, origin, None)
    } else {
        poor("origin"@, origin, "must start with https://"@)
    }
}

/// The row about the passkeys.
pub open spec fn passkeys_row(path: Seq<char>, passkeys: Option<u64>) -> RowView {
    match passkeys {
        Some(n) => good("passkeys"@, path, Some(count_text(n as nat))),
        None => poor("passkeys"@, path, "not readable"@),
    }
}

/// The rows of the report.
pub open spec fn rows_for(c: config::ConfigView, probe: Probe, note: Option<Seq<char>>) -> Seq<
    RowView,
> {
    seq![
        good("config"@, config::source_text(c.source), None),
        good("hostname"@, c.hostname, None),
        origin_row(c.origin),
        good("cookie_domain"@, c.cookie_domain, None),
        good("listen"@, c.listen, None),
        RowView {
            label: "data_dir"@,
            value: c.data_dir,
            ok: probe.writable,
            detail: Some(data_dir_note(probe.writable, note)),
        },
        passkeys_row(c.passkeys_path, probe.passkeys),
    ]
}

/// The problem with an origin, which is shown in quotes.
pub open spec fn origin_problem(shown: Seq<char>) -> Seq<char> {
    "origin must start with https:// (got "@ + shown + ")"@
}

/// The problems of the report, in the order of its rows.
pub open spec fn problems_for(c: config::ConfigView, probe: Probe) -> Seq<Seq<char>> {
    let origin = if is_secure(c.origin) {
        Seq::empty()
    } else {
        seq![origin_problem(outside::debug_text(c.origin))]
    };
    let data_dir = if probe.writable {
        Seq::empty()
    } else {
        seq!["data_dir not writable: "@ + c.data_dir]
    };
    let passkeys = if probe.passkeys is Some {
        Seq::empty()
    } else {
        seq!["passkeys not readable: "@ + c.passkeys_path]
    };
    origin + data_dir + passkeys
}

/// What is said of data that version 0.5 left behind. `has_data` says that
/// there is some, `vacant` that the data directory in use holds nothing or is
/// not there.
pub fn legacy_hint(current: &str, has_data: bool, vacant: bool, mode: Mode, env: &Env) -> (res:
    Option<String>)
    ensures
        text::text_of(res) == legacy_note(
            mode,
            config::under(config::state_home_of(*env), "latch"@),
            current@,
            has_data,
            vacant,
        ),
{
    if mode != Mode::User {
        return None;
    }
    let legacy = config::legacy_user_data_dir(env);
    if config::same_path(legacy.as_str(), current) {
        return None;
    }
    if !has_data || !vacant {
        return None;
    }
    Some(
        "v0.5 data found at ".to_owned().concat(legacy.as_str()).concat("; run: mv ").concat(
            legacy.as_str(),
        ).concat(" ").concat(current),
    )
}

fn row(label: &str, value: &str, ok: bool, detail: Option<String>) -> (res: Row)
    ensures
        res@ == (RowView { label: label@, value: value@, ok, detail: text::text_of(detail) }),
{
    Row { label: label.to_owned(), value: value.to_owned(), ok, detail }
}

/// The problem with an origin, which is shown in quotes.
pub fn insecure_origin(shown: &str) -> (res: String)
    ensures
        res@ == origin_problem(shown@),
{
    "origin must start with https:// (got ".to_owned().concat(shown).concat(")")
}

/// How many passkeys there are, in words.
pub fn count_label(n: u64) -> (res: String)
    ensures
        res@ == count_text(n as nat),
{
    if n == 0 {
        "0 passkeys (register one by visiting the page)".to_owned()
    } else if n == 1 {
        "1 passkey".to_owned()
    } else {
        text::decimal(n).concat(" passkeys")
    }
}

/// The rows and the problems of the report.
pub fn examine(cfg: &Config, probe: &Probe, mode: Mode, env: &Env) -> (res: (
    Vec<Row>,
    Vec<String>,
))
    ensures
        row_views(res.0@) == rows_for(
            cfg@,
            *probe,
            legacy_note(
                mode,
                config::under(config::state_home_of(*env), "latch"@),
                cfg.data_dir@,
                probe.legacy,
                probe.vacant,
            ),
        ),
        text::texts(res.1@) == problems_for(cfg@, *probe),
{
    let mut rows: Vec<Row> = Vec::new();
    let mut problems: Vec<String> = Vec::new();
    rows.push(row("config", cfg.source.display().as_str(), true, None));
    rows.push(row("hostname", cfg.hostname.as_str(), true, None));
    let secure = text::starts_with(cfg.origin.as_str(), "https://");
    if secure {
        rows.push(row("origin", cfg.origin.as_str(), true, None));
    } else {
        problems.push(insecure_origin(outside::debug_string(cfg.origin.as_str()).as_str()));
        rows.push(
            row("origin", cfg.origin.as_str(), false, Some("must start with https://".to_owned())),
        );
    }
    rows.push(row("cookie_domain", cfg.cookie_domain.as_str(), true, None));
    rows.push(row("listen", cfg.listen.as_str(), true, None));
    if !probe.writable {
        problems.push("data_dir not writable: ".to_owned().concat(cfg.data_dir.as_str()));
    }
    let plain = if probe.writable {
        "writable".to_owned()
    } else {
        "not writable".to_owned()
    };
    let detail = match legacy_hint(
        cfg.data_dir.as_str(),
        probe.legacy,
        probe.vacant,
        mode,
        env,
    ) {
        Some(h) => h,
        None => plain,
    };
    rows.push(row("data_dir", cfg.data_dir.as_str(), probe.writable, Some(detail)));
    match probe.passkeys {
        Some(n) => {
            rows.push(row("passkeys", cfg.passkeys_path.as_str(), true, Some(count_label(n))));
        },
        None => {
            problems.push("passkeys not readable: ".to_owned().concat(cfg.passkeys_path.as_str()));
            rows.push(
                row("passkeys", cfg.passkeys_path.as_str(), false, Some("not readable".to_owned())),
            );
        },
    }
    proof {
        let note = legacy_note(
            mode,
            config::under(config::state_home_of(*env), "latch"@),
            cfg.data_dir@,
            probe.legacy,
            probe.vacant,
        );
        assert(row_views(rows@) =~= rows_for(cfg@, *probe, note));
        assert(text::texts(problems@) =~= problems_for(cfg@, *probe));
    }
    (rows, problems)
}

// --- for people -------------------------------------------------------------

/// The width of the widest label.
pub open spec fn widest(rows: Seq<RowView>) -> nat
    decreases rows.len(),
{
    if rows.len() == 0 {
        0
    } else {
        let w = widest(rows.drop_last());
        if rows.last().label.len() > w {
            rows.last().label.len()
        } else {
            w
        }
    }
}

/// One row of the report, for people.
pub open spec fn row_line(r: RowView, width: nat, color: bool) -> Seq<char> {
    let mark = if r.ok {
        output::tick_mark(color)
    } else {
        output::cross_mark(color)
    };
    let line = mark + " "@ + text::padded(r.label, width) + "  "@ + r.value;
    match r.detail {
        Some(d) => line + "    "@ + d + "\n"@,
        None => line + "\n"@,
    }
}

/// The rows of the report, for people.
pub open spec fn row_lines(rows: Seq<RowView>, width: nat, color: bool) -> Seq<char>
    decreases rows.len(),
{
    if rows.len() == 0 {
        Seq::empty()
    } else {
        row_lines(rows.drop_last(), width, color) + row_line(rows.last(), width, color)
    }
}

/// How many problems there are, in words.
pub open spec fn problem_count(n: nat) -> Seq<char> {
    text::decimal_text(n) + " problem(s)"@
}

/// The report, for people.
pub open spec fn human_report(rows: Seq<RowView>, problems: nat, color: bool) -> Seq<char> {
    row_lines(rows, widest(rows), color) + if problems == 0 {
        "ok\n"@
    } else {
        "not ok: "@ + problem_count(problems) + "\n"@
    }
}

/// The report, for people.
pub fn emit_human(rows: &Vec<Row>, problems: &Vec<String>, flags: &Flags, term: &Terminal) -> (res:
    String)
    ensures
        res@ == human_report(
            row_views(rows@),
            problems@.len(),
            output::coloured(*flags, *term),
        ),
{
    let ghost all = row_views(rows@);
    let mut width: usize = 0;
    let mut i: usize = 0;
    assert(all.take(0) =~= Seq::empty());
    while i < rows.len()
        invariant
            i <= rows@.len(),
            all == row_views(rows@),
            width == widest(all.take(i as int)),
        decreases rows@.len() - i,
    {
        assert(all.take(i + 1).drop_last() =~= all.take(i as int));
        assert(all.take(i + 1).last() == rows@[i as int]@);
        let w: usize = text::chars_of(rows[i].label.as_str()).len();
        if w > width {
            width = w;
        }
        i = i + 1;
    }
    assert(all.take(rows@.len() as int) =~= all);
    let ghost color = output::coloured(*flags, *term);
    let mut out = String::new();
    let mut k: usize = 0;
    while k < rows.len()
        invariant
            k <= rows@.len(),
            all == row_views(rows@),
            color == output::coloured(*flags, *term),
            out@ == row_lines(all.take(k as int), width as nat, color),
        decreases rows@.len() - k,
    {
        assert(all.take(k + 1).drop_last() =~= all.take(k as int));
        assert(all.take(k + 1).last() == rows@[k as int]@);
        let r = &rows[k];
        let mark = if r.ok {
            output::tick(flags, term)
        } else {
            output::cross(flags, term)
        };
        let line = mark.concat(" ").concat(text::pad(r.label.as_str(), width).as_str()).concat(
            "  ",
        ).concat(r.value.as_str());
        let line = match &r.detail {
            Some(d) => line.concat("    ").concat(d.as_str()).concat("\n"),
            None => line.concat("\n"),
        };
        out.append(line.as_str());
        k = k + 1;
    }
    if problems.len() == 0 {
        out.concat("ok\n")
    } else {
        let count = text::decimal(problems.len() as u64).concat(" problem(s)");
        let last = "not ok: ".to_owned().concat(count.as_str()).concat("\n");
        out.concat(last.as_str())
    }
}

// --- for programs -----------------------------------------------------------

/// The fields of the report, in alphabetical order.
pub open spec fn report_fields(c: config::ConfigView, passkeys: nat, problems: Seq<Seq<char>>) -> Seq<
    (Seq<char>, Seq<char>),
> {
    seq![
        (json::key("config"@), outside::json_text(config::source_text(c.source))),
        (json::key("cookie_domain"@), outside::json_text(c.cookie_domain)),
        (json::key("data_dir"@), outside::json_text(c.data_dir)),
        (json::key("hostname"@), outside::json_text(c.hostname)),
        (json::key("listen"@), outside::json_text(c.listen)),
        (json::key("ok"@), json::truth(problems.len() == 0)),
        (json::key("origin"@), outside::json_text(c.origin)),
        (json::key("passkeys"@), text::decimal_text(passkeys)),
        (json::key("problems"@), json::array(json::quoted(problems))),
    ]
}

/// The report as one JSON object.
pub fn emit_json(cfg: &Config, passkeys: u64, problems: &Vec<String>) -> (res: String)
    ensures
        res@ == json::object(report_fields(cfg@, passkeys as nat, text::texts(problems@))) + "\n"@,
{
    let mut fields: Vec<(String, String)> = Vec::new();
    let source = cfg.source.display();
    json::push_field(&mut fields, "config", outside::json_string(source.as_str()));
    json::push_field(
        &mut fields,
        "cookie_domain",
        outside::json_string(cfg.cookie_domain.as_str()),
    );
    json::push_field(&mut fields, "data_dir", outside::json_string(cfg.data_dir.as_str()));
    json::push_field(&mut fields, "hostname", outside::json_string(cfg.hostname.as_str()));
    json::push_field(&mut fields, "listen", outside::json_string(cfg.listen.as_str()));
    json::push_field(&mut fields, "ok", json::bool_text(problems.len() == 0).to_owned());
    json::push_field(&mut fields, "origin", outside::json_string(cfg.origin.as_str()));
    json::push_field(&mut fields, "passkeys", text::decimal(passkeys));
    json::push_field(&mut fields, "problems", json::to_array(&json::quote_all(problems)));
    assert(outside::pair_texts(fields@) =~= report_fields(
        cfg@,
        passkeys as nat,
        text::texts(problems@),
    ));
    json::to_object(&fields).concat("\n")
}

// --- the command ------------------------------------------------------------

/// What `latch check` prints, and what it comes to.
#[derive(Debug)]
pub struct Report {
    pub out: String,
    pub result: Result<(), Error>,
}

/// The contents of what a command without data comes to.
pub open spec fn unit_or_error(r: Result<(), Error>) -> Result<(), output::ErrorView> {
    match r {
        Ok(_) => Ok(()),
        Err(e) => Err(e@),
    }
}

/// What is printed where no configuration loads.
pub open spec fn no_config_report(why: Seq<char>, json: bool, color: bool) -> Seq<char> {
    if json {
        json::object(
            seq![
                (json::key("ok"@), json::truth(false)),
                (json::key("problems"@), json::array(json::quoted(seq![why]))),
            ],
        ) + "\n"@
    } else {
        output::cross_mark(color) + " no config\n    "@ + why + "\n"@
    }
}

/// The error where no configuration loads.
pub open spec fn no_config_error(default_path: Seq<char>) -> output::ErrorView {
    output::hinted_error(
        "no config found"@,
        "run `latch config init` to create "@ + default_path,
        output::EX_CONFIG,
    )
}

/// What `latch check` does where no configuration loads.
pub fn fail_no_config(why: &str, flags: &Flags, term: &Terminal, mode: Mode, env: &Env) -> (res:
    Report)
    ensures
        res.out@ == no_config_report(
            why@,
            flags.json || !term.stdout_tty,
            output::coloured(*flags, *term),
        ),
        unit_or_error(res.result) == Err::<(), output::ErrorView>(
            no_config_error(config::config_path_of(mode, *env)),
        ),
{
    let out = if output::json_mode(flags, term) {
        let mut problems: Vec<String> = Vec::new();
        problems.push(why.to_owned());
        assert(text::texts(problems@) =~= seq![why@]);
        let mut fields: Vec<(String, String)> = Vec::new();
        json::push_field(&mut fields, "ok", json::bool_text(false).to_owned());
        json::push_field(&mut fields, "problems", json::to_array(&json::quote_all(&problems)));
        assert(outside::pair_texts(fields@) =~= seq![
            (json::key("ok"@), json::truth(false)),
            (json::key("problems"@), json::array(json::quoted(seq![why@]))),
        ]);
        json::to_object(&fields).concat("\n")
    } else {
        output::cross(flags, term).concat(" no config\n    ").concat(why).concat("\n")
    };
    let default = config::default_config_path(mode, env);
    let error = Error::config("no config found").with_hint(
        "run `latch config init` to create ".to_owned().concat(default.as_str()).as_str(),
    );
    Report { out, result: Err(error) }
}

/// What the report comes to.
pub open spec fn verdict(problems: nat) -> Result<(), output::ErrorView> {
    if problems == 0 {
        Ok(())
    } else {
        Err(output::plain_error(problem_count(problems), output::EX_CONFIG))
    }
}

/// What `latch check` prints and comes to, given the configuration that was
/// loaded and the state that was found, or why none was loaded.
pub fn run(
    loaded: &Result<(Config, Probe), String>,
    flags: &Flags,
    term: &Terminal,
    mode: Mode,
    env: &Env,
) -> (res: Report)
    ensures
        match *loaded {
            Err(why) => {
                &&& res.out@ == no_config_report(
                    why@,
                    flags.json || !term.stdout_tty,
                    output::coloured(*flags, *term),
                )
                &&& unit_or_error(res.result) == Err::<(), output::ErrorView>(
                    no_config_error(config::config_path_of(mode, *env)),
                )
            },
            Ok((cfg, probe)) => {
                let problems = problems_for(cfg@, probe);
                let rows = rows_for(
                    cfg@,
                    probe,
                    legacy_note(
                        mode,
                        config::under(config::state_home_of(*env), "latch"@),
                        cfg.data_dir@,
                        probe.legacy,
                        probe.vacant,
                    ),
                );
                &&& res.out@ == if flags.json || !term.stdout_tty {
                    json::object(
                        report_fields(
                            cfg@,
                            match probe.passkeys {
                                Some(n) => n as nat,
                                None => 0,
                            },
                            problems,
                        ),
                    ) + "\n"@
                } else {
                    human_report(rows, problems.len(), output::coloured(*flags, *term))
                }
                &&& unit_or_error(res.result) == verdict(problems.len())
            },
        },
{
    match loaded {
        Err(why) => fail_no_config(why.as_str(), flags, term, mode, env),
        Ok((cfg, probe)) => {
            let (rows, problems) = examine(cfg, probe, mode, env);
            assert(text::texts(problems@).len() == problems@.len());
            let count: u64 = match probe.passkeys {
                Some(n) => n,
                None => 0,
            };
            let out = if output::json_mode(flags, term) {
                emit_json(cfg, count, &problems)
            } else {
                emit_human(&rows, &problems, flags, term)
            };
            let result = if problems.len() == 0 {
                Ok(())
            } else {
                Err(
                    Error::config(
                        text::decimal(problems.len() as u64).concat(" problem(s)").as_str(),
                    ),
                )
            };
            Report { out, result }
        },
    }
}

// --- laws -------------------------------------------------------------------

/// The command succeeds exactly when every row of its report is good, and
/// there are as many problems as rows that are not.
pub proof fn problems_are_the_poor_rows(
    c: config::ConfigView,
    probe: Probe,
    note: Option<Seq<char>>,
)
    ensures
        problems_for(c, probe).len() == rows_for(c, probe, note).filter(|r: RowView| !r.ok).len(),
        verdict(problems_for(c, probe).len()) is Ok <==> (forall|i: int|
            0 <= i < rows_for(c, probe, note).len() ==> (#[trigger] rows_for(
                c,
                probe,
                note,
            )[i]).ok),
{
    let rows = rows_for(c, probe, note);
    reveal_with_fuel(Seq::filter, 8);
    assert(rows.len() == 7);
    let a = rows.drop_last();
    let b = a.drop_last();
    let d = b.drop_last();
    let e = d.drop_last();
    let f = e.drop_last();
    let g = f.drop_last();
    assert(g.drop_last().len() == 0);
    assert(rows[2].ok == is_secure(c.origin));
    assert(rows[5].ok == probe.writable);
    assert(rows[6].ok == probe.passkeys is Some);
}

} // verus!
