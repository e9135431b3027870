//! What `latch check` promises.
use vstd::prelude::*;

use super::text::{chain, lemma_chain_push};
use super::tokens::fields_in;
use crate::cmd::check::{self, Probe, RowView};
use crate::config::{self, ConfigView, Mode};
use crate::{json, laws, outside, output, text};

verus! {

/// An origin by https.
pub open spec fn is_https(origin: Seq<char>) -> bool {
    exists|rest: Seq<char>| origin == #[trigger] ("https://"@ + rest)
}

proof fn lemma_is_https(origin: Seq<char>)
    ensures
        check::is_secure(origin) == is_https(origin),
{
    let p = "https://"@;
    if p.is_prefix_of(origin) {
        let rest = origin.skip(p.len() as int);
        assert(origin =~= p + rest);
    }
    if is_https(origin) {
        let rest = choose|rest: Seq<char>| origin == #[trigger] (p + rest);
        assert((p + rest).take(p.len() as int) =~= p);
    }
}

/// The command succeeds exactly where the origin is by https, the data
/// directory can be written to and the passkeys can be read; else it fails with
/// the code for configuration and says how many of these are wrong.
pub proof fn three_things_are_checked(c: ConfigView, probe: Probe)
    ensures
        ({
            let n = (if is_https(c.origin) {
                0int
            } else {
                1int
            }) + (if probe.writable {
                0int
            } else {
                1int
            }) + (if probe.passkeys is Some {
                0int
            } else {
                1int
            });
            let problems = check::problems_for(c, probe);
            &&& problems.len() == n
            &&& n == 0 ==> check::verdict(problems.len()) == Ok::<(), output::ErrorView>(())
            &&& n > 0 ==> (check::verdict(problems.len()) matches Err(e) && e.code == 78 && e.msg
                == text::decimal_text(n as nat) + " problem(s)"@)
        }),
{
    lemma_is_https(c.origin);
}

/// Each thing that is wrong is a problem that names it.
pub proof fn problems_name_what_is_wrong(c: ConfigView, probe: Probe)
    ensures
        ({
            let problems = check::problems_for(c, probe);
            &&& !is_https(c.origin) ==> problems.contains(
                "origin must start with https:// (got "@ + outside::debug_text(c.origin) + ")"@,
            )
            &&& !probe.writable ==> problems.contains("data_dir not writable: "@ + c.data_dir)
            &&& probe.passkeys is None ==> problems.contains(
                "passkeys not readable: "@ + c.passkeys_path,
            )
        }),
{
    lemma_is_https(c.origin);
    let problems = check::problems_for(c, probe);
    if !is_https(c.origin) {
        assert(problems[0] == "origin must start with https:// (got "@ + outside::debug_text(
            c.origin,
        ) + ")"@);
    }
    if !probe.writable {
        let k = if is_https(c.origin) {
            0int
        } else {
            1int
        };
        assert(problems[k] == "data_dir not writable: "@ + c.data_dir);
    }
    if probe.passkeys is None {
        assert(problems.last() == "passkeys not readable: "@ + c.passkeys_path);
    }
}

/// The report has a row for each of seven things, which names it, shows it and
/// says whether it is good.
pub proof fn the_rows_of_the_report(c: ConfigView, probe: Probe, note: Option<Seq<char>>)
    ensures
        ({
            let rows = check::rows_for(c, probe, note);
            &&& rows.len() == 7
            &&& rows[0].label == "config"@ && rows[0].ok && rows[0].value == (if let Some(p) =
                c.source {
                p
            } else {
                "(env)"@
            })
            &&& rows[1] == (RowView {
                label: "hostname"@,
                value: c.hostname,
                ok: true,
                detail: None,
            })
            &&& rows[2].label == "origin"@ && rows[2].value == c.origin && rows[2].ok == is_https(
                c.origin,
            )
            &&& rows[2].ok ==> rows[2].detail is None
            &&& !rows[2].ok ==> rows[2].detail == Some("must start with https://"@)
            &&& rows[3] == (RowView {
                label: "cookie_domain"@,
                value: c.cookie_domain,
                ok: true,
                detail: None,
            })
            &&& rows[4] == (RowView { label: "listen"@, value: c.listen, ok: true, detail: None })
            &&& rows[5].label == "data_dir"@ && rows[5].value == c.data_dir && rows[5].ok
                == probe.writable
            &&& note is Some ==> rows[5].detail == note
            &&& note is None && probe.writable ==> rows[5].detail == Some("writable"@)
            &&& note is None && !probe.writable ==> rows[5].detail == Some("not writable"@)
            &&& rows[6].label == "passkeys"@ && rows[6].value == c.passkeys_path && rows[6].ok == (
            probe.passkeys is Some)
            &&& probe.passkeys is None ==> rows[6].detail == Some("not readable"@)
            &&& probe.passkeys == Some(0u64) ==> rows[6].detail == Some(
                "0 passkeys (register one by visiting the page)"@,
            )
            &&& probe.passkeys == Some(1u64) ==> rows[6].detail == Some("1 passkey"@)
            &&& probe.passkeys is Some && probe.passkeys->0 > 1 ==> rows[6].detail == Some(
                text::decimal_text(probe.passkeys->0 as nat) + " passkeys"@,
            )
        }),
{
    lemma_is_https(c.origin);
}

/// Data of version 0.5 is pointed out to a user exactly where there is some,
/// in another directory than the one in use, which holds nothing; and the
/// command that moves it is said.
pub proof fn old_data_is_pointed_out(
    mode: Mode,
    legacy: Seq<char>,
    current: Seq<char>,
    has_data: bool,
    vacant: bool,
)
    ensures
        ({
            let note = check::legacy_note(mode, legacy, current, has_data, vacant);
            &&& note is Some <==> mode is User && has_data && vacant && !config::same_steps(
                legacy,
                current,
            )
            &&& note matches Some(n) ==> exists|a: Seq<char>| n == #[trigger] (a + (" mv "@ + legacy
                + " "@ + current))
        }),
{
    reveal_strlit("; run: mv ");
    reveal_strlit("; run:");
    reveal_strlit(" mv ");
    if let Some(n) = check::legacy_note(mode, legacy, current, has_data, vacant) {
        let a = "v0.5 data found at "@ + legacy + "; run:"@;
        assert("; run: mv "@ =~= "; run:"@ + " mv "@);
        assert(n =~= a + (" mv "@ + legacy + " "@ + current));
    }
}

/// A row in a line: the mark, the label filled up to the width, the value and
/// the detail, if there is any.
pub open spec fn line(r: RowView, width: nat, color: bool) -> Seq<char> {
    let mark = if r.ok {
        output::tick_mark(color)
    } else {
        output::cross_mark(color)
    };
    let start = mark + seq![' '] + text::padded(r.label, width) + seq![' ', ' '] + r.value;
    if let Some(d) = r.detail {
        start + seq![' ', ' ', ' ', ' '] + d
    } else {
        start
    }
}

proof fn lemma_rows(rows: Seq<RowView>, width: nat, color: bool)
    requires
        rows.len() > 0,
    ensures
        check::row_lines(rows, width, color) == chain(
            Seq::new(rows.len(), |i: int| line(rows[i], width, color)),
            seq!['\n'],
        ) + seq!['\n'],
    decreases rows.len(),
{
    reveal_strlit("\n");
    reveal_strlit(" ");
    reveal_strlit("  ");
    reveal_strlit("    ");
    let n = seq!['\n'];
    assert("\n"@ =~= n);
    let all = Seq::new(rows.len(), |i: int| line(rows[i], width, color));
    let last = line(rows.last(), width, color);
    assert(check::row_line(rows.last(), width, color) =~= last + n);
    if rows.len() == 1 {
        assert(check::row_lines(rows.drop_last(), width, color) =~= Seq::<char>::empty());
        assert(all =~= seq![last]);
        assert(chain(all, n) == last);
    } else {
        let w = rows.drop_last();
        let before = Seq::new(w.len(), |i: int| line(w[i], width, color));
        lemma_rows(w, width, color);
        assert(all =~= before.push(last));
        lemma_chain_push(before, last, n);
        assert(chain(before, n) + n + (last + n) =~= chain(before, n) + n + last + n);
    }
}

/// The report for people is a line for each row and one that says whether all
/// is good.
pub proof fn the_lines_of_the_report(rows: Seq<RowView>, problems: nat, color: bool)
    requires
        rows.len() > 0,
    ensures
        ({
            let width = check::widest(rows);
            check::human_report(rows, problems, color) == chain(
                Seq::new(rows.len(), |i: int| line(rows[i], width, color)),
                seq!['\n'],
            ) + seq!['\n'] + if problems == 0 {
                "ok"@ + seq!['\n']
            } else {
                "not ok: "@ + text::decimal_text(problems) + " problem(s)"@ + seq!['\n']
            }
        }),
        forall|i: int| 0 <= i < rows.len() ==> #[trigger] rows[i].label.len() <= check::widest(rows),
        exists|i: int| 0 <= i < rows.len() && #[trigger] rows[i].label.len() == check::widest(rows),
{
    reveal_strlit("\n");
    reveal_strlit("ok\n");
    reveal_strlit("ok");
    lemma_rows(rows, check::widest(rows), color);
    assert("ok\n"@ =~= "ok"@ + seq!['\n']);
    assert("\n"@ =~= seq!['\n']);
    assert("not ok: "@ + (text::decimal_text(problems) + " problem(s)"@) + "\n"@ =~= "not ok: "@
        + text::decimal_text(problems) + " problem(s)"@ + seq!['\n']);
    lemma_widest(rows);
}

proof fn lemma_widest(rows: Seq<RowView>)
    ensures
        forall|i: int| 0 <= i < rows.len() ==> #[trigger] rows[i].label.len() <= check::widest(rows),
        rows.len() > 0 ==> exists|i: int|
            0 <= i < rows.len() && #[trigger] rows[i].label.len() == check::widest(rows),
    decreases rows.len(),
{
    if rows.len() > 0 {
        let w = rows.drop_last();
        lemma_widest(w);
        assert forall|i: int| 0 <= i < rows.len() implies #[trigger] rows[i].label.len()
            <= check::widest(rows) by {
            if i < w.len() {
                assert(w[i] == rows[i]);
            }
        }
        if rows.last().label.len() > check::widest(w) || w.len() == 0 {
            assert(rows[rows.len() - 1].label.len() == check::widest(rows));
        } else {
            let i = choose|i: int|
                0 <= i < w.len() && #[trigger] w[i].label.len() == check::widest(w);
            assert(rows[i].label.len() == check::widest(rows));
        }
    }
}

/// The report for programs is a JSON object that says whether all is good, what
/// the settings are, how many passkeys there are and what is wrong.
pub proof fn the_fields_of_the_report(c: ConfigView, passkeys: nat, problems: Seq<Seq<char>>)
    ensures
        json::object(check::report_fields(c, passkeys, problems)) == seq!['{'] + chain(
            seq![
                "\"config\":"@ + outside::json_text(laws::init::from(c)),
                "\"cookie_domain\":"@ + outside::json_text(c.cookie_domain),
                "\"data_dir\":"@ + outside::json_text(c.data_dir),
                "\"hostname\":"@ + outside::json_text(c.hostname),
                "\"listen\":"@ + outside::json_text(c.listen),
                "\"ok\":"@ + if problems.len() == 0 {
                    "true"@
                } else {
                    "false"@
                },
                "\"origin\":"@ + outside::json_text(c.origin),
                "\"passkeys\":"@ + text::decimal_text(passkeys),
                "\"problems\":"@ + json::array(json::quoted(problems)),
            ],
            seq![','],
        ) + seq!['}'],
{
    let f = check::report_fields(c, passkeys, problems);
    laws::tokens::objects_and_lists(f, Seq::empty());
    reveal_strlit("\"");
    reveal_strlit("config");
    reveal_strlit("\"config\":");
    reveal_strlit("cookie_domain");
    reveal_strlit("\"cookie_domain\":");
    reveal_strlit("data_dir");
    reveal_strlit("\"data_dir\":");
    reveal_strlit("hostname");
    reveal_strlit("\"hostname\":");
    reveal_strlit("listen");
    reveal_strlit("\"listen\":");
    reveal_strlit("ok");
    reveal_strlit("\"ok\":");
    reveal_strlit("origin");
    reveal_strlit("\"origin\":");
    reveal_strlit("passkeys");
    reveal_strlit("\"passkeys\":");
    reveal_strlit("problems");
    reveal_strlit("\"problems\":");
    assert(json::key("config"@) + seq![':'] =~= "\"config\":"@);
    assert(json::key("cookie_domain"@) + seq![':'] =~= "\"cookie_domain\":"@);
    assert(json::key("data_dir"@) + seq![':'] =~= "\"data_dir\":"@);
    assert(json::key("hostname"@) + seq![':'] =~= "\"hostname\":"@);
    assert(json::key("listen"@) + seq![':'] =~= "\"listen\":"@);
    assert(json::key("ok"@) + seq![':'] =~= "\"ok\":"@);
    assert(json::key("origin"@) + seq![':'] =~= "\"origin\":"@);
    assert(json::key("passkeys"@) + seq![':'] =~= "\"passkeys\":"@);
    assert(json::key("problems"@) + seq![':'] =~= "\"problems\":"@);
    assert(fields_in(f) =~= seq![
        "\"config\":"@ + outside::json_text(laws::init::from(c)),
        "\"cookie_domain\":"@ + outside::json_text(c.cookie_domain),
        "\"data_dir\":"@ + outside::json_text(c.data_dir),
        "\"hostname\":"@ + outside::json_text(c.hostname),
        "\"listen\":"@ + outside::json_text(c.listen),
        "\"ok\":"@ + if problems.len() == 0 {
            "true"@
        } else {
            "false"@
        },
        "\"origin\":"@ + outside::json_text(c.origin),
        "\"passkeys\":"@ + text::decimal_text(passkeys),
        "\"problems\":"@ + json::array(json::quoted(problems)),
    ]);
}

/// Where no configuration loads, that is said with the reason, and the error
/// says how to make one.
pub proof fn no_config_is_reported(why: Seq<char>, path: Seq<char>, color: bool)
    ensures
        check::no_config_report(why, false, color) == output::cross_mark(color) + " no config\n    "@
            + why + seq!['\n'],
        check::no_config_report(why, true, color) == "{\"ok\":false,\"problems\":["@
            + outside::json_text(why) + "]}"@ + seq!['\n'],
        check::no_config_error(path).msg == "no config found"@,
        check::no_config_error(path).code == 78,
        check::no_config_error(path).hint == Some("run `latch config init` to create "@ + path),
{
    reveal_strlit("\n");
    assert("\n"@ =~= seq!['\n']);
    reveal_strlit("\"");
    reveal_strlit("ok");
    reveal_strlit("problems");
    reveal_strlit("false");
    reveal_strlit("{\"ok\":false,\"problems\":[");
    reveal_strlit("]}");
    let one = json::quoted(seq![why]);
    assert(one =~= seq![outside::json_text(why)]);
    let list = json::array(one);
    let f = seq![
        (json::key("ok"@), json::truth(false)),
        (json::key("problems"@), list),
    ];
    laws::tokens::objects_and_lists(f, one);
    let parts = fields_in(f);
    assert(parts.skip(1) =~= seq![parts[1]]);
    reveal_with_fuel(chain, 3);
    assert(chain(parts, seq![',']) == parts[0] + seq![','] + parts[1]);
    assert(chain(one, seq![',']) == outside::json_text(why));
    assert(json::object(f) =~= "{\"ok\":false,\"problems\":["@ + outside::json_text(why) + "]}"@);
}

} // verus!
