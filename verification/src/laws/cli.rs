//! What the command line promises: what each word and flag means, wherever it
//! stands, and how errors are told.
use vstd::prelude::*;

use crate::cli::{self, CommandView, ConsumedView, Flag, GlobalsView, InitFlag};
use crate::cmd::config::InitOptsView;
use crate::output::{self, ErrorView, Flags, Terminal};
use crate::text;

verus! {

// --- global flags -----------------------------------------------------------

/// The flags that stand for themselves: each sets what it says, in both of its
/// forms, and reading goes on behind it.
pub proof fn flags_set_what_they_say(
    rest: Seq<Seq<char>>,
    g: GlobalsView,
    out: Seq<Seq<char>>,
    flag: Seq<char>,
)
    ensures
        flag == "-q"@ || flag == "--quiet"@ ==> cli::reading(seq![flag] + rest, g, out, false)
            == cli::reading(rest, GlobalsView { quiet: true, ..g }, out, false),
        flag == "-v"@ || flag == "--verbose"@ ==> cli::reading(seq![flag] + rest, g, out, false)
            == cli::reading(rest, GlobalsView { verbose: true, ..g }, out, false),
        flag == "-y"@ || flag == "--yes"@ ==> cli::reading(seq![flag] + rest, g, out, false)
            == cli::reading(rest, GlobalsView { yes: true, ..g }, out, false),
        flag == "--json"@ ==> cli::reading(seq![flag] + rest, g, out, false) == cli::reading(
            rest,
            GlobalsView { json: true, ..g },
            out,
            false,
        ),
        flag == "--no-color"@ ==> cli::reading(seq![flag] + rest, g, out, false) == cli::reading(
            rest,
            GlobalsView { no_color: true, ..g },
            out,
            false,
        ),
        flag == "-V"@ || flag == "--version"@ ==> cli::reading(seq![flag] + rest, g, out, false).1
            is Version,
        flag == "-h"@ || flag == "--help"@ ==> cli::reading(seq![flag] + rest, g, out, false)
            == cli::reading(rest, g, seq!["help"@] + out, true),
        flag == "--"@ ==> cli::reading(seq![flag] + rest, g, out, false) == cli::reading(
            rest,
            g,
            out,
            true,
        ),
{
    lemma_literals();
    assert((seq![flag] + rest).skip(1) =~= rest);
}

proof fn lemma_literals()
    ensures
        "-q"@.len() == 2 && "-q"@[1] == 'q',
        "-v"@.len() == 2 && "-v"@[1] == 'v',
        "-y"@.len() == 2 && "-y"@[1] == 'y',
        "-V"@.len() == 2 && "-V"@[1] == 'V',
        "-h"@.len() == 2 && "-h"@[1] == 'h',
        "-c"@.len() == 2 && "-c"@[1] == 'c',
        "--"@.len() == 2 && "--"@[1] == '-',
        "--quiet"@.len() == 7 && "--quiet"@[2] == 'q',
        "--verbose"@.len() == 9 && "--verbose"@[5] == 'b',
        "--version"@.len() == 9 && "--version"@[5] == 's',
        "--yes"@.len() == 5,
        "--json"@.len() == 6 && "--json"@[2] == 'j',
        "--help"@.len() == 6 && "--help"@[2] == 'h',
        "--no-color"@.len() == 10 && "--no-color"@[2] == 'n',
        "--config"@.len() == 8 && "--config"@[2] == 'c',
        "--listen"@.len() == 8 && "--listen"@[2] == 'l',
        "--data-dir"@.len() == 10 && "--data-dir"@[2] == 'd',
        "--config="@.len() == 9 && "--config="@[8] == '=' && "--config="@[2] == 'c',
        "--listen="@.len() == 9 && "--listen="@[8] == '=' && "--listen="@[2] == 'l',
        "--data-dir="@.len() == 11 && "--data-dir="@[10] == '=' && "--data-dir="@[2] == 'd',
        "--version"@[8] == 'n' && "--verbose"@[8] == 'e',
{
    reveal_strlit("-q");
    reveal_strlit("-v");
    reveal_strlit("-y");
    reveal_strlit("-V");
    reveal_strlit("-h");
    reveal_strlit("-c");
    reveal_strlit("--");
    reveal_strlit("--quiet");
    reveal_strlit("--verbose");
    reveal_strlit("--version");
    reveal_strlit("--yes");
    reveal_strlit("--json");
    reveal_strlit("--help");
    reveal_strlit("--no-color");
    reveal_strlit("--config");
    reveal_strlit("--listen");
    reveal_strlit("--data-dir");
    reveal_strlit("--config=");
    reveal_strlit("--listen=");
    reveal_strlit("--data-dir=");
}

/// The flags that take a value take the next argument, whatever it is, or what
/// follows their equals sign.
pub proof fn settings_take_their_value(
    rest: Seq<Seq<char>>,
    g: GlobalsView,
    out: Seq<Seq<char>>,
    flag: Seq<char>,
    v: Seq<char>,
)
    ensures
        flag == "-c"@ || flag == "--config"@ ==> cli::reading(
            seq![flag, v] + rest,
            g,
            out,
            false,
        ) == cli::reading(rest, GlobalsView { config: Some(v), ..g }, out, false),
        cli::reading(seq!["--listen"@, v] + rest, g, out, false) == cli::reading(
            rest,
            GlobalsView { listen: Some(v), ..g },
            out,
            false,
        ),
        cli::reading(seq!["--data-dir"@, v] + rest, g, out, false) == cli::reading(
            rest,
            GlobalsView { data_dir: Some(v), ..g },
            out,
            false,
        ),
        cli::reading(seq!["--config="@ + v] + rest, g, out, false) == cli::reading(
            rest,
            GlobalsView { config: Some(v), ..g },
            out,
            false,
        ),
        cli::reading(seq!["--listen="@ + v] + rest, g, out, false) == cli::reading(
            rest,
            GlobalsView { listen: Some(v), ..g },
            out,
            false,
        ),
        cli::reading(seq!["--data-dir="@ + v] + rest, g, out, false) == cli::reading(
            rest,
            GlobalsView { data_dir: Some(v), ..g },
            out,
            false,
        ),
{
    lemma_literals();
    assert((seq![flag, v] + rest).skip(1) =~= seq![v] + rest);
    assert((seq![v] + rest).skip(1) =~= rest);
    assert((seq!["--listen"@, v] + rest).skip(1) =~= seq![v] + rest);
    assert((seq!["--data-dir"@, v] + rest).skip(1) =~= seq![v] + rest);
    let c = "--config="@ + v;
    let l = "--listen="@ + v;
    let d = "--data-dir="@ + v;
    assert((seq![c] + rest).skip(1) =~= rest);
    assert((seq![l] + rest).skip(1) =~= rest);
    assert((seq![d] + rest).skip(1) =~= rest);
    assert(c.take(9) =~= "--config="@);
    assert(l.take(9) =~= "--listen="@);
    assert(d.take(11) =~= "--data-dir="@);
    assert(c.skip(9) =~= v);
    assert(l.skip(9) =~= v);
    assert(d.skip(11) =~= v);
    assert(c[2] == 'c' && l[2] == 'l' && d[2] == 'd');
    assert(c[8] == '=' && l[8] == '=' && d[10] == '=');
    assert(!"--config="@.is_prefix_of(l)) by {
        if "--config="@.is_prefix_of(l) {
            assert(l.take(9)[2] == 'c');
        }
    }
    assert(!"--config="@.is_prefix_of(d)) by {
        if "--config="@.is_prefix_of(d) {
            assert(d.take(9)[2] == 'c');
        }
    }
    assert(!"--listen="@.is_prefix_of(d)) by {
        if "--listen="@.is_prefix_of(d) {
            assert(d.take(9)[2] == 'l');
        }
    }
    reveal_strlit("--data-dir=");
    reveal_strlit("--no-color");
    assert(d != "--no-color"@);
    assert(cli::flag_of(c) == Flag::Own(cli::Setting::Config));
    assert(cli::flag_of(l) == Flag::Own(cli::Setting::Listen));
    assert(cli::flag_of(d) == Flag::Own(cli::Setting::DataDir));
}

/// A flag that takes a value is a mistake where none follows, and the message
/// names it.
pub proof fn settings_need_their_value(g: GlobalsView, out: Seq<Seq<char>>, flag: Seq<char>)
    ensures
        flag == "-c"@ || flag == "--config"@ ==> (cli::reading(seq![flag], g, out, false).1 matches
            ConsumedView::Usage(e) && e.msg == "--config requires a path"@ && e.code == 64),
        cli::reading(seq!["--listen"@], g, out, false).1 matches ConsumedView::Usage(e) && e.msg
            == "--listen requires an addr"@ && e.code == 64,
        cli::reading(seq!["--data-dir"@], g, out, false).1 matches ConsumedView::Usage(e) && e.msg
            == "--data-dir requires a path"@ && e.code == 64,
{
    lemma_literals();
}

/// Words, which do not start with a dash, are kept in order.
pub proof fn words_are_no_flags(
    rest: Seq<Seq<char>>,
    g: GlobalsView,
    out: Seq<Seq<char>>,
    word: Seq<char>,
)
    requires
        word.len() == 0 || word[0] != '-',
    ensures
        cli::reading(seq![word] + rest, g, out, false) == cli::reading(
            rest,
            g,
            out.push(word),
            false,
        ),
{
    lemma_dashes();
    assert((seq![word] + rest).skip(1) =~= rest);
    if "--config="@.is_prefix_of(word) {
        assert(word.take(9)[0] == '-');
    }
    if "--listen="@.is_prefix_of(word) {
        assert(word.take(9)[0] == '-');
    }
    if "--data-dir="@.is_prefix_of(word) {
        assert(word.take(11)[0] == '-');
    }
    assert(cli::flag_of(word) == Flag::Word);
}

proof fn lemma_dashes()
    ensures
        "-q"@[0] == '-' && "-v"@[0] == '-' && "-y"@[0] == '-' && "-V"@[0] == '-' && "-h"@[0] == '-'
            && "-c"@[0] == '-' && "--"@[0] == '-',
        "-q"@.len() > 0 && "-v"@.len() > 0 && "-y"@.len() > 0 && "-V"@.len() > 0 && "-h"@.len() > 0
            && "-c"@.len() > 0 && "--"@.len() > 0,
        "--quiet"@.len() > 0 && "--quiet"@[0] == '-',
        "--verbose"@.len() > 0 && "--verbose"@[0] == '-',
        "--version"@.len() > 0 && "--version"@[0] == '-',
        "--yes"@.len() > 0 && "--yes"@[0] == '-',
        "--json"@.len() > 0 && "--json"@[0] == '-',
        "--help"@.len() > 0 && "--help"@[0] == '-',
        "--no-color"@.len() > 0 && "--no-color"@[0] == '-',
        "--config"@.len() > 0 && "--config"@[0] == '-',
        "--listen"@.len() > 0 && "--listen"@[0] == '-',
        "--data-dir"@.len() > 0 && "--data-dir"@[0] == '-',
        "--config="@.len() == 9 && "--config="@[0] == '-',
        "--listen="@.len() == 9 && "--listen="@[0] == '-',
        "--data-dir="@.len() == 11 && "--data-dir="@[0] == '-',
{
    reveal_strlit("-q");
    reveal_strlit("-v");
    reveal_strlit("-y");
    reveal_strlit("-V");
    reveal_strlit("-h");
    reveal_strlit("-c");
    reveal_strlit("--");
    reveal_strlit("--quiet");
    reveal_strlit("--verbose");
    reveal_strlit("--version");
    reveal_strlit("--yes");
    reveal_strlit("--json");
    reveal_strlit("--help");
    reveal_strlit("--no-color");
    reveal_strlit("--config");
    reveal_strlit("--listen");
    reveal_strlit("--data-dir");
    reveal_strlit("--config=");
    reveal_strlit("--listen=");
    reveal_strlit("--data-dir=");
}

// --- commands ---------------------------------------------------------------

/// A command that takes no arguments, by its words, its full name and what it
/// stands for.
pub open spec fn is_plain_command(
    words: Seq<Seq<char>>,
    name: Seq<char>,
    c: CommandView,
) -> bool {
    ||| words == seq!["serve"@] && name == "serve"@ && c is Serve
    ||| words == seq!["check"@] && name == "check"@ && c is Check
    ||| words == seq!["update"@] && name == "update"@ && c is Update
    ||| words == seq!["config"@, "show"@] && name == "config show"@ && c is ConfigShow
    ||| words == seq!["config"@, "path"@] && name == "config path"@ && c is ConfigPath
    ||| words == seq!["passkeys"@, "list"@] && name == "passkeys list"@ && c is PasskeysList
    ||| words == seq!["passkeys"@, "reset"@] && name == "passkeys reset"@ && c is PasskeysReset
    ||| words == seq!["service"@, "start"@] && name == "service start"@ && c is ServiceStart
    ||| words == seq!["service"@, "stop"@] && name == "service stop"@ && c is ServiceStop
    ||| words == seq!["service"@, "restart"@] && name == "service restart"@ && c is ServiceRestart
    ||| words == seq!["service"@, "status"@] && name == "service status"@ && c is ServiceStatus
    ||| words == seq!["service"@, "uninstall"@] && name == "service uninstall"@
        && c is ServiceUninstall
}

proof fn lemma_words()
    ensures
        "serve"@.len() == 5 && "serve"@[4] == 'e',
        "check"@.len() == 5 && "check"@[4] == 'k',
        "config"@.len() == 6 && "config"@[0] == 'c',
        "passkeys"@.len() == 8,
        "service"@.len() == 7 && "service"@[0] == 's',
        "update"@.len() == 6 && "update"@[0] == 'u',
        "version"@.len() == 7 && "version"@[0] == 'v',
        "help"@.len() == 4 && "help"@[0] == 'h',
        "init"@.len() == 4 && "init"@[0] == 'i',
        "show"@.len() == 4 && "show"@[0] == 's',
        "path"@.len() == 4 && "path"@[0] == 'p',
        "list"@.len() == 4,
        "reset"@.len() == 5,
        "start"@.len() == 5,
        "stop"@.len() == 4,
        "restart"@.len() == 7,
        "status"@.len() == 6,
        "uninstall"@.len() == 9,
{
    reveal_strlit("serve");
    reveal_strlit("check");
    reveal_strlit("config");
    reveal_strlit("passkeys");
    reveal_strlit("service");
    reveal_strlit("update");
    reveal_strlit("version");
    reveal_strlit("help");
    reveal_strlit("init");
    reveal_strlit("show");
    reveal_strlit("path");
    reveal_strlit("list");
    reveal_strlit("reset");
    reveal_strlit("start");
    reveal_strlit("stop");
    reveal_strlit("restart");
    reveal_strlit("status");
    reveal_strlit("uninstall");
}

/// Each command is called by its words, and by nothing more: an argument too
/// many is a mistake that names the command and the argument.
pub proof fn commands_are_called_by_their_words(
    words: Seq<Seq<char>>,
    name: Seq<char>,
    c: CommandView,
    more: Seq<Seq<char>>,
    g: GlobalsView,
    version: Seq<char>,
)
    requires
        is_plain_command(words, name, c),
    ensures
        more.len() == 0 ==> cli::command_for(words + more, g, version) == Ok::<
            CommandView,
            ErrorView,
        >(c),
        more.len() > 0 ==> (cli::command_for(words + more, g, version) matches Err(e) && e.msg
            == name + ": takes no arguments (got `"@ + more[0] + "`)"@ && e.code == 64 && e.hint
            is None),
{
    lemma_words();
    let all = words + more;
    if words.len() == 1 {
        assert(all.skip(1) =~= more);
    } else {
        assert(all.skip(1).skip(1) =~= more);
        assert(all.skip(1)[0] == words[1]);
    }
}

/// What is no command is a mistake: its error names it, says where the
/// commands are listed, and exits with the code for usage.
pub proof fn other_words_are_mistakes(
    word: Seq<char>,
    more: Seq<Seq<char>>,
    g: GlobalsView,
    version: Seq<char>,
)
    ensures
        word != "serve"@ && word != "check"@ && word != "config"@ && word != "passkeys"@ && word
            != "service"@ && word != "update"@ && word != "version"@ && word != "help"@ ==> (
        cli::command_for(seq![word] + more, g, version) matches Err(e) && e.msg
            == "unknown command `"@ + word + "`"@ && e.code == 64 && e.hint == Some(
            "run `latch help` to list commands"@,
        )),
        word != "init"@ && word != "show"@ && word != "path"@ ==> (cli::command_for(
            seq!["config"@, word] + more,
            g,
            version,
        ) matches Err(e) && e.msg == "unknown config subcommand `"@ + word + "`"@ && e.code == 64),
        word != "list"@ && word != "reset"@ ==> (cli::command_for(
            seq!["passkeys"@, word] + more,
            g,
            version,
        ) matches Err(e) && e.msg == "unknown passkeys subcommand `"@ + word + "`"@ && e.code
            == 64),
        word != "start"@ && word != "stop"@ && word != "restart"@ && word != "status"@ && word
            != "uninstall"@ ==> (cli::command_for(
            seq!["service"@, word] + more,
            g,
            version,
        ) matches Err(e) && e.msg == "unknown service subcommand `"@ + word + "`"@ && e.code == 64),
{
    lemma_words();
    reveal_strlit("unknown ");
    reveal_strlit(" subcommand `");
    reveal_strlit("config");
    reveal_strlit("passkeys");
    reveal_strlit("service");
    reveal_strlit("unknown config subcommand `");
    reveal_strlit("unknown passkeys subcommand `");
    reveal_strlit("unknown service subcommand `");
    assert("unknown "@ + "config"@ + " subcommand `"@ =~= "unknown config subcommand `"@);
    assert("unknown "@ + "passkeys"@ + " subcommand `"@ =~= "unknown passkeys subcommand `"@);
    assert("unknown "@ + "service"@ + " subcommand `"@ =~= "unknown service subcommand `"@);
    assert((seq!["config"@, word] + more).skip(1)[0] == word);
    assert((seq!["passkeys"@, word] + more).skip(1)[0] == word);
    assert((seq!["service"@, word] + more).skip(1)[0] == word);
}

/// Without a command, latch says how it is used; `version`, like the flag,
/// gives its name and version in a line.
pub proof fn latch_says_what_it_is(more: Seq<Seq<char>>, g: GlobalsView, version: Seq<char>)
    ensures
        cli::command_for(seq!["version"@] + more, g, version) == Ok::<CommandView, ErrorView>(
            CommandView::Print("latch "@ + version + "\n"@),
        ),
        cli::command_for(Seq::empty(), g, version) matches Ok(CommandView::Print(s)) && ("latch "@
            + version).is_prefix_of(s),
        cli::command_for(seq!["help"@], g, version) == cli::command_for(
            Seq::empty(),
            g,
            version,
        ),
{
    lemma_words();
    let s = cli::help_text(version);
    let head = "latch "@ + version;
    assert(s.take(head.len() as int) =~= head);
    assert(seq!["help"@].skip(1) =~= Seq::<Seq<char>>::empty());
}

// --- config init ------------------------------------------------------------

/// The options of `config init` set what they say: a flag, or a setting with
/// the next argument or what follows its equals sign as its value.
pub proof fn init_options_set_what_they_say(
    rest: Seq<Seq<char>>,
    o: InitOptsView,
    v: Seq<char>,
)
    ensures
        cli::init_reading(seq!["--print"@] + rest, o) == cli::init_reading(
            rest,
            InitOptsView { print: true, ..o },
        ),
        cli::init_reading(seq!["--yes"@] + rest, o) == cli::init_reading(
            rest,
            InitOptsView { yes: true, ..o },
        ),
        cli::init_reading(seq!["-y"@] + rest, o) == cli::init_reading(
            rest,
            InitOptsView { yes: true, ..o },
        ),
        cli::init_reading(seq!["--hostname"@, v] + rest, o) == cli::init_reading(
            rest,
            InitOptsView { hostname: Some(v), ..o },
        ),
        cli::init_reading(seq!["--origin"@, v] + rest, o) == cli::init_reading(
            rest,
            InitOptsView { origin: Some(v), ..o },
        ),
        cli::init_reading(seq!["--cookie-domain"@, v] + rest, o) == cli::init_reading(
            rest,
            InitOptsView { cookie_domain: Some(v), ..o },
        ),
        cli::init_reading(seq!["--listen"@, v] + rest, o) == cli::init_reading(
            rest,
            InitOptsView { listen: Some(v), ..o },
        ),
        cli::init_reading(seq!["--data-dir"@, v] + rest, o) == cli::init_reading(
            rest,
            InitOptsView { data_dir: Some(v), ..o },
        ),
        cli::init_reading(seq!["--path"@, v] + rest, o) == cli::init_reading(
            rest,
            InitOptsView { path: Some(v), ..o },
        ),
{
    lemma_init_words();
    assert((seq!["--print"@] + rest).skip(1) =~= rest);
    assert((seq!["--yes"@] + rest).skip(1) =~= rest);
    assert((seq!["-y"@] + rest).skip(1) =~= rest);
    assert((seq!["--hostname"@, v] + rest).skip(1) =~= seq![v] + rest);
    assert((seq!["--origin"@, v] + rest).skip(1) =~= seq![v] + rest);
    assert((seq!["--cookie-domain"@, v] + rest).skip(1) =~= seq![v] + rest);
    assert((seq!["--listen"@, v] + rest).skip(1) =~= seq![v] + rest);
    assert((seq!["--data-dir"@, v] + rest).skip(1) =~= seq![v] + rest);
    assert((seq!["--path"@, v] + rest).skip(1) =~= seq![v] + rest);
    assert((seq![v] + rest).skip(1) =~= rest);
    lemma_no_equals("--print"@);
    lemma_no_equals("--yes"@);
    lemma_no_equals("-y"@);
    lemma_no_equals("--hostname"@);
    lemma_no_equals("--origin"@);
    lemma_no_equals("--cookie-domain"@);
    lemma_no_equals("--listen"@);
    lemma_no_equals("--data-dir"@);
    lemma_no_equals("--path"@);
}

proof fn lemma_init_words()
    ensures
        "--print"@.len() == 7,
        "--yes"@.len() == 5,
        "-y"@.len() == 2,
        "--hostname"@.len() == 10 && "--hostname"@[2] == 'h',
        "--origin"@.len() == 8 && "--origin"@[2] == 'o',
        "--cookie-domain"@.len() == 15,
        "--listen"@.len() == 8 && "--listen"@[2] == 'l',
        "--data-dir"@.len() == 10 && "--data-dir"@[2] == 'd',
        "--path"@.len() == 6,
        !"--print"@.contains('='),
        !"--yes"@.contains('='),
        !"-y"@.contains('='),
        !"--hostname"@.contains('='),
        !"--origin"@.contains('='),
        !"--cookie-domain"@.contains('='),
        !"--listen"@.contains('='),
        !"--data-dir"@.contains('='),
        !"--path"@.contains('='),
{
    reveal_strlit("--print");
    reveal_strlit("--yes");
    reveal_strlit("-y");
    reveal_strlit("--hostname");
    reveal_strlit("--origin");
    reveal_strlit("--cookie-domain");
    reveal_strlit("--listen");
    reveal_strlit("--data-dir");
    reveal_strlit("--path");
}

proof fn lemma_no_equals(a: Seq<char>)
    requires
        !a.contains('='),
    ensures
        forall|s: cli::InitSetting| !(#[trigger] cli::init_prefix(s)).is_prefix_of(a),
{
    reveal_strlit("=");
    assert forall|s: cli::InitSetting| !(#[trigger] cli::init_prefix(s)).is_prefix_of(a) by {
        let p = cli::init_prefix(s);
        if p.is_prefix_of(a) {
            assert(p[p.len() - 1] == '=');
            assert(a.take(p.len() as int)[p.len() - 1] == '=');
            assert(a[p.len() - 1] == '=');
        }
    }
}

proof fn lemma_own(s: cli::InitSetting, v: Seq<char>)
    ensures
        cli::init_flag_of(cli::init_word(s) + "="@ + v) == InitFlag::Own(s),
        (cli::init_word(s) + "="@ + v).skip(cli::init_prefix(s).len() as int) == v,
{
    lemma_init_words();
    reveal_strlit("=");
    let w = cli::init_word(s);
    let a = w + "="@ + v;
    let p = cli::init_prefix(s);
    assert(a.take(p.len() as int) =~= p);
    assert(a.skip(p.len() as int) =~= v);
    assert forall|t: cli::InitSetting| (#[trigger] cli::init_prefix(t)).is_prefix_of(a) implies t
        == s by {
        let q = cli::init_prefix(t);
        let u = cli::init_word(t);
        assert(!w.contains('=') && !u.contains('='));
        assert(a.take(q.len() as int) == q);
        if u.len() < w.len() {
            assert(q[u.len() as int] == '=');
            assert(a.take(q.len() as int)[u.len() as int] == w[u.len() as int]);
        } else if w.len() < u.len() {
            assert(q[w.len() as int] == u[w.len() as int]);
            assert(a.take(q.len() as int)[w.len() as int] == '=');
        } else {
            assert(u =~= w) by {
                assert forall|i: int| 0 <= i < u.len() implies u[i] == w[i] by {
                    assert(a.take(q.len() as int)[i] == q[i]);
                }
            }
        }
    }
}

/// A setting of `config init` that carries its value has what follows the
/// equals sign.
pub proof fn init_settings_carry_their_value(rest: Seq<Seq<char>>, o: InitOptsView, v: Seq<char>)
    ensures
        cli::init_reading(seq!["--hostname"@ + "="@ + v] + rest, o) == cli::init_reading(
            rest,
            InitOptsView { hostname: Some(v), ..o },
        ),
        cli::init_reading(seq!["--origin"@ + "="@ + v] + rest, o) == cli::init_reading(
            rest,
            InitOptsView { origin: Some(v), ..o },
        ),
        cli::init_reading(seq!["--cookie-domain"@ + "="@ + v] + rest, o) == cli::init_reading(
            rest,
            InitOptsView { cookie_domain: Some(v), ..o },
        ),
        cli::init_reading(seq!["--listen"@ + "="@ + v] + rest, o) == cli::init_reading(
            rest,
            InitOptsView { listen: Some(v), ..o },
        ),
        cli::init_reading(seq!["--data-dir"@ + "="@ + v] + rest, o) == cli::init_reading(
            rest,
            InitOptsView { data_dir: Some(v), ..o },
        ),
        cli::init_reading(seq!["--path"@ + "="@ + v] + rest, o) == cli::init_reading(
            rest,
            InitOptsView { path: Some(v), ..o },
        ),
{
    lemma_own(cli::InitSetting::Hostname, v);
    lemma_own(cli::InitSetting::Origin, v);
    lemma_own(cli::InitSetting::CookieDomain, v);
    lemma_own(cli::InitSetting::Listen, v);
    lemma_own(cli::InitSetting::DataDir, v);
    lemma_own(cli::InitSetting::Path, v);
    assert((seq!["--hostname"@ + "="@ + v] + rest).skip(1) =~= rest);
    assert((seq!["--origin"@ + "="@ + v] + rest).skip(1) =~= rest);
    assert((seq!["--cookie-domain"@ + "="@ + v] + rest).skip(1) =~= rest);
    assert((seq!["--listen"@ + "="@ + v] + rest).skip(1) =~= rest);
    assert((seq!["--data-dir"@ + "="@ + v] + rest).skip(1) =~= rest);
    assert((seq!["--path"@ + "="@ + v] + rest).skip(1) =~= rest);
}

/// What `config init` does not know is a mistake that names it; so is a
/// setting without its value.
pub proof fn other_options_are_mistakes(rest: Seq<Seq<char>>, o: InitOptsView, a: Seq<char>)
    ensures
        a.len() == 0 || a[0] != '-' ==> (cli::init_reading(seq![a] + rest, o) matches Err(e)
            && e.msg == "config init: unknown flag `"@ + a + "`"@ && e.code == 64),
        cli::init_reading(seq!["--hostname"@], o) matches Err(e) && e.msg == "config init: "@
            + "--hostname"@ + " requires a value"@ && e.code == 64,
        cli::init_reading(seq!["--data-dir"@], o) matches Err(e) && e.msg == "config init: "@
            + "--data-dir"@ + " requires a value"@ && e.code == 64,
        cli::init_reading(Seq::empty(), o) == Ok::<InitOptsView, ErrorView>(o),
{
    lemma_init_words();
    lemma_no_equals("--hostname"@);
    lemma_no_equals("--data-dir"@);
    reveal_strlit("--print");
    reveal_strlit("--yes");
    reveal_strlit("-y");
    reveal_strlit("--hostname");
    reveal_strlit("--origin");
    reveal_strlit("--cookie-domain");
    reveal_strlit("--listen");
    reveal_strlit("--data-dir");
    reveal_strlit("--path");
    if a.len() == 0 || a[0] != '-' {
        assert forall|s: cli::InitSetting| !(#[trigger] cli::init_prefix(s)).is_prefix_of(a) by {
            let p = cli::init_prefix(s);
            if p.is_prefix_of(a) {
                assert(p[0] == '-');
                assert(a.take(p.len() as int)[0] == '-');
            }
        }
        assert(cli::init_flag_of(a) == InitFlag::Unknown);
    }
    assert((seq![a] + rest).skip(1) =~= rest);
}

/// The global flags for the address, the data directory and the yes count for
/// `config init` too, and nothing else does.
pub proof fn global_flags_count_for_init(
    g: GlobalsView,
    args: Seq<Seq<char>>,
    version: Seq<char>,
    o: InitOptsView,
)
    requires
        o == (InitOptsView {
            hostname: None,
            origin: None,
            cookie_domain: None,
            listen: g.listen,
            data_dir: g.data_dir,
            path: None,
            print: false,
            yes: g.yes,
        }),
    ensures
        match (
            cli::command_for(seq!["config"@, "init"@] + args, g, version),
            cli::init_reading(args, o),
        ) {
            (Ok(CommandView::ConfigInit(a)), Ok(b)) => a == b,
            (Err(a), Err(b)) => a == b,
            _ => false,
        },
{
    lemma_words();
    let all = seq!["config"@, "init"@] + args;
    assert(all.skip(1)[0] == "init"@);
    assert(all.skip(1).skip(1) =~= args);
}

// --- errors and colour ------------------------------------------------------

/// An error is told in a line, with a hint in another if it has one.
pub proof fn errors_are_told_in_lines(e: ErrorView, hint: Seq<char>)
    ensures
        e.hint is None ==> output::error_lines(e) == "error: "@ + e.msg + seq!['\n'],
        e.hint == Some(hint) ==> output::error_lines(e) == "error: "@ + e.msg + seq!['\n']
            + "  hint: "@ + hint + seq!['\n'],
{
    reveal_strlit("\n");
    assert("\n"@ =~= seq!['\n']);
}

/// The codes that commands exit with.
pub proof fn exit_codes()
    ensures
        output::EX_OK == 0,
        output::EX_FAIL == 1,
        output::EX_USAGE == 64,
        output::EX_CANTCREAT == 73,
        output::EX_CONFIG == 78,
{
}

/// Colour is used exactly where stdout is a terminal and neither the command
/// line nor the environment is against it.
pub proof fn colour_is_for_terminals(flags: Flags, term: Terminal)
    ensures
        output::coloured(flags, term) <==> term.stdout_tty && !flags.no_color && !term.no_color_env,
        output::tick_mark(false) == "ok"@,
        output::cross_mark(false) == "FAIL"@,
        text::holds(output::tick_mark(true), "\u{2713}"@),
        text::holds(output::cross_mark(true), "\u{2717}"@),
{
    reveal_strlit("\x1b[32m\u{2713}\x1b[0m");
    reveal_strlit("\x1b[31m\u{2717}\x1b[0m");
    reveal_strlit("\u{2713}");
    reveal_strlit("\u{2717}");
    assert(output::tick_mark(true).subrange(5, 6) =~= "\u{2713}"@);
    assert(output::cross_mark(true).subrange(5, 6) =~= "\u{2717}"@);
    assert(text::occurs_at(output::tick_mark(true), "\u{2713}"@, 5));
    assert(text::occurs_at(output::cross_mark(true), "\u{2717}"@, 5));
}

/// Every command has a page of help, and latch has one that lists them.
pub proof fn commands_have_help(more: Seq<Seq<char>>, g: GlobalsView, version: Seq<char>)
    ensures
        cli::command_for(seq!["help"@, "serve"@] + more, g, version) == Ok::<CommandView, ErrorView>(
            CommandView::Print(
                "latch serve — run the daemon in the foreground.\n\nUSAGE:\n  latch serve [--config PATH] [--listen ADDR] [--data-dir PATH]\n\nReads config from --config, $LATCH_CONFIG, ./latch.toml, or the default\n($XDG_CONFIG_HOME/latch/config.toml or /etc/latch/config.toml).\nEnv vars override file values.\n\nTraps SIGTERM/SIGINT and exits cleanly.\n\nEXAMPLE:\n  LATCH_HOSTNAME=latch.example.com latch serve --listen 127.0.0.1:9000"@
                    + "\n"@,
            ),
        ),
        cli::command_for(seq!["help"@, "check"@] + more, g, version) == Ok::<CommandView, ErrorView>(
            CommandView::Print(
                "latch check — validate config and state, then exit.\n\nUSAGE:\n  latch check [--config PATH] [--json]\n\nVerifies that the config loads, origin is https://, hostname is not a\nplaceholder, data_dir is writable, and passkeys.json is readable.\nExits 78 on any problem.\n\nEXAMPLE:\n  latch check --json | jq .ok"@
                    + "\n"@,
            ),
        ),
        cli::command_for(seq!["help"@, "config"@] + more, g, version) == Ok::<CommandView, ErrorView>(
            CommandView::Print(
                "latch config — manage the config file.\n\nUSAGE:\n  latch config init  [--hostname HOST] [--origin URL] [--cookie-domain D]\n                     [--listen ADDR] [--data-dir PATH] [--path FILE]\n                     [--print] [--yes]\n  latch config show  [--config PATH] [--json]\n  latch config path  [--config PATH]\n\nEXAMPLES:\n  latch config init --hostname latch.example.com --yes\n  latch config show --json | jq .hostname\n  latch config path"@
                    + "\n"@,
            ),
        ),
        cli::command_for(seq!["help"@, "passkeys"@] + more, g, version) == Ok::<CommandView, ErrorView>(
            CommandView::Print(
                "latch passkeys — manage registered passkeys.\n\nUSAGE:\n  latch passkeys list  [--config PATH] [--json]\n  latch passkeys reset [--config PATH] [--yes]\n\nreset deletes the passkeys file. Prompts on TTY; requires --yes on\nnon-TTY (exit 64 otherwise).\n\nEXAMPLES:\n  latch passkeys list\n  latch passkeys list --json | jq length\n  latch passkeys reset --yes"@
                    + "\n"@,
            ),
        ),
        cli::command_for(seq!["help"@, "service"@] + more, g, version) == Ok::<CommandView, ErrorView>(
            CommandView::Print(
                "latch service — manage the systemd unit.\n\nUSAGE:\n  latch service start      install + enable + start (idempotent)\n  latch service stop\n  latch service restart\n  latch service status\n  latch service uninstall  remove the unit; prints copy-paste commands\n                           for removing data, config, and binary\n\nRun as root for system-wide install (/etc/latch, /var/lib/latch);\notherwise everything lives under your home directory.\n\nEXAMPLE:\n  sudo latch service start\n  latch service status"@
                    + "\n"@,
            ),
        ),
        cli::command_for(seq!["help"@, "update"@] + more, g, version) == Ok::<CommandView, ErrorView>(
            CommandView::Print(
                "latch update — download and install the latest release.\n\nUSAGE:\n  latch update\n\nVerifies the SHA-256 against the published checksum, replaces the\nbinary atomically, and restarts the systemd service if active.\n\nEXAMPLE:\n  sudo latch update"@
                    + "\n"@,
            ),
        ),
        cli::command_for(seq!["help"@], g, version) == Ok::<CommandView, ErrorView>(
            CommandView::Print(
                "latch "@ + version
                    + " — single-user passkey auth\n\nUSAGE:\n  latch <command> [subcommand] [options]\n\nCOMMANDS:\n  serve              run the daemon in the foreground\n  check              validate config and state, then exit\n  config init        write a new config file\n  config show        print the resolved (file + env) config\n  config path        print the path of the loaded config\n  passkeys list      list registered passkeys\n  passkeys reset     delete all passkeys (prompts on TTY)\n  service start      install systemd unit and start in the background\n  service stop       stop the systemd service\n  service restart    restart the systemd service\n  service status     show whether the service is running\n  service uninstall  remove the systemd unit\n  update             download + install the latest release\n  version            print version (also -V, --version)\n  help [<command>]   per-command usage (also -h, --help)\n\nGLOBAL FLAGS:\n  --config <path>    config file (default: $XDG_CONFIG_HOME/latch/config.toml)\n  --listen <addr>    override LATCH_LISTEN\n  --data-dir <path>  override LATCH_DATA_DIR\n  --json             machine-readable output\n  -q, --quiet        diagnostics off\n  -v, --verbose      diagnostics on\n  --no-color         disable color (also honored: NO_COLOR env)\n  -y, --yes          skip confirmation prompts\n\nCONFIG:\n  TOML file is canonical; env vars override individual fields.\n  Env: LATCH_HOSTNAME, LATCH_ORIGIN, LATCH_COOKIE_DOMAIN,\n       LATCH_LISTEN, LATCH_DATA_DIR, LATCH_CONFIG.\n\nEXAMPLES:\n  latch check                                    # before deploy\n  latch serve                                    # foreground server\n  latch passkeys list --json | jq                # scripting\n  latch passkeys reset --yes                     # wipe credentials\n"@,
            ),
        ),
{
    lemma_words();
    assert((seq!["help"@, "serve"@] + more).skip(1)[0] == "serve"@);
    assert((seq!["help"@, "check"@] + more).skip(1)[0] == "check"@);
    assert((seq!["help"@, "config"@] + more).skip(1)[0] == "config"@);
    assert((seq!["help"@, "passkeys"@] + more).skip(1)[0] == "passkeys"@);
    assert((seq!["help"@, "service"@] + more).skip(1)[0] == "service"@);
    assert((seq!["help"@, "update"@] + more).skip(1)[0] == "update"@);
    assert(seq!["help"@].skip(1) =~= Seq::<Seq<char>>::empty());
}

/// A command without the word that it needs says which words there are, and a
/// mistake in such a word says where the list is.
pub proof fn missing_words_are_told(
    word: Seq<char>,
    more: Seq<Seq<char>>,
    g: GlobalsView,
    version: Seq<char>,
)
    ensures
        cli::command_for(seq!["config"@], g, version) matches Err(e) && e.code == 64 && e.hint is None
            && e.msg == "missing subcommand: config init|show|path"@,
        cli::command_for(seq!["passkeys"@], g, version) matches Err(e) && e.code == 64
            && e.hint is None && e.msg == "missing subcommand: passkeys list|reset"@,
        cli::command_for(seq!["service"@], g, version) matches Err(e) && e.code == 64
            && e.hint is None && e.msg
            == "missing subcommand: service start|stop|restart|status|uninstall"@,
        word != "init"@ && word != "show"@ && word != "path"@ ==> (cli::command_for(
            seq!["config"@, word] + more,
            g,
            version,
        ) matches Err(e) && e.hint == Some("run `latch help "@ + "config"@ + "` for the list"@)),
        word != "list"@ && word != "reset"@ ==> (cli::command_for(
            seq!["passkeys"@, word] + more,
            g,
            version,
        ) matches Err(e) && e.hint == Some("run `latch help "@ + "passkeys"@ + "` for the list"@)),
        word != "start"@ && word != "stop"@ && word != "restart"@ && word != "status"@ && word
            != "uninstall"@ ==> (cli::command_for(
            seq!["service"@, word] + more,
            g,
            version,
        ) matches Err(e) && e.hint == Some("run `latch help "@ + "service"@ + "` for the list"@)),
        word != "serve"@ && word != "check"@ && word != "config"@ && word != "passkeys"@ && word
            != "service"@ && word != "update"@ ==> (cli::command_for(
            seq!["help"@, word] + more,
            g,
            version,
        ) matches Err(e) && e.msg == "unknown command `"@ + word + "`"@ && e.code == 64),
{
    lemma_words();
    assert((seq!["config"@, word] + more).skip(1)[0] == word);
    assert((seq!["passkeys"@, word] + more).skip(1)[0] == word);
    assert((seq!["service"@, word] + more).skip(1)[0] == word);
    assert((seq!["help"@, word] + more).skip(1)[0] == word);
}

/// A command line without flags is the command that its words call, by the
/// settings that stand for nothing given; one that starts with the flag for the
/// version prints it, whatever follows.
pub proof fn command_lines_call_their_words(
    words: Seq<Seq<char>>,
    flag: Seq<char>,
    rest: Seq<Seq<char>>,
    version: Seq<char>,
)
    requires
        forall|i: int|
            0 <= i < words.len() ==> (#[trigger] words[i]).len() == 0 || words[i][0] != '-',
        flag == "-V"@ || flag == "--version"@,
    ensures
        ({
            let (g, called) = cli::commanded(words, version);
            &&& g.config is None && g.listen is None && g.data_dir is None
            &&& !g.json && !g.quiet && !g.verbose && !g.no_color && !g.yes
            &&& called == cli::command_for(words, g, version)
        }),
        cli::commanded(seq![flag] + rest, version).1 == Ok::<CommandView, ErrorView>(
            CommandView::Print("latch "@ + version + "\n"@),
        ),
{
    let g = cli::no_globals();
    lemma_read_words(words, g, Seq::empty());
    assert(Seq::<Seq<char>>::empty() + words =~= words);
    lemma_literals();
    reveal_strlit("--");
    assert((seq![flag] + rest)[0] == flag);
    assert(cli::flag_of(flag) == Flag::Version);
}

proof fn lemma_read_words(words: Seq<Seq<char>>, g: GlobalsView, out: Seq<Seq<char>>)
    requires
        forall|i: int|
            0 <= i < words.len() ==> (#[trigger] words[i]).len() == 0 || words[i][0] != '-',
    ensures
        cli::reading(words, g, out, false) == (g, ConsumedView::Words(out + words)),
    decreases words.len(),
{
    if words.len() == 0 {
        assert(out + words =~= out);
    } else {
        let rest = words.skip(1);
        words_are_no_flags(rest, g, out, words[0]);
        assert(seq![words[0]] + rest =~= words);
        assert forall|i: int| 0 <= i < rest.len() implies (#[trigger] rest[i]).len() == 0
            || rest[i][0] != '-' by {
            assert(rest[i] == words[i + 1]);
        }
        lemma_read_words(rest, g, out.push(words[0]));
        assert(out.push(words[0]) + rest =~= out + words);
    }
}

} // verus!
