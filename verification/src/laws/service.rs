//! What `latch service` promises, in its present and its older form.
use vstd::prelude::*;

use super::text::{chain, lemma_chain_push, lemma_last_line, lemma_next_line};
use crate::cmd::config::InitView;
use crate::cmd::service::{self, ActionView, Exit, Found, Ran, Verb};
use crate::config::{self, Env, Mode};
use crate::lifecycle::{self, PurgeView};
use crate::{laws, output, text};

verus! {

// --- calling systemctl ------------------------------------------------------

/// Every verb has its own first word, and all but one name the unit last; a
/// user's systemctl gets the same words behind `--user`.
pub proof fn systemctl_is_called_for_the_unit(verb: Verb)
    ensures
        ({
            let root = service::systemctl_words(Mode::System, verb);
            let user = service::systemctl_words(Mode::User, verb);
            &&& user == seq!["--user"@] + root
            &&& verb is DaemonReload ==> root == seq!["daemon-reload"@]
            &&& !(verb is DaemonReload) ==> root.last() == "latch.service"@
            &&& verb is EnableNow ==> root.len() == 3 && root[0] == "enable"@ && root[1]
                == "--now"@
            &&& verb is Stop ==> root.len() == 2 && root[0] == "stop"@
            &&& verb is Restart ==> root.len() == 2 && root[0] == "restart"@
            &&& verb is Disable ==> root.len() == 2 && root[0] == "disable"@
            &&& verb is IsActive ==> root.len() == 3 && root[0] == "is-active"@ && root[1]
                == "--quiet"@
            &&& verb is IsEnabled ==> root.len() == 3 && root[0] == "is-enabled"@ && root[1]
                == "--quiet"@
        }),
{
}

/// A call succeeds where systemctl does, and else fails with an error that
/// repeats the call and its code.
pub proof fn failed_calls_are_told(mode: Mode, verb: Verb, exit: Exit)
    ensures
        ({
            let call = chain(service::systemctl_words(mode, verb), seq![' ']);
            let told = service::systemctl_outcome(mode, verb, exit);
            &&& told is Ok <==> exit is Success
            &&& told matches Err(e) ==> e.code == 1 && e.hint is None
            &&& exit matches Exit::NotRun(why) ==> told matches Err(e) && e.msg
                == "run systemctl: "@ + why@
            &&& exit matches Exit::Code(c) ==> told matches Err(e) && e.msg == "systemctl "@ + call
                + " failed (exit "@ + text::signed_text(c as int) + ")"@
            &&& exit is NoCode ==> (told matches Err(e) && e.msg == "systemctl "@ + call
                + " failed (exit ?)"@)
        }),
{
    reveal_strlit(" ");
    reveal_strlit(" failed (exit ");
    reveal_strlit("?");
    reveal_strlit(")");
    reveal_strlit(" failed (exit ?)");
    assert(" "@ =~= seq![' ']);
    laws::text::joining_is_chaining(service::systemctl_words(mode, verb), " "@);
    let call = chain(service::systemctl_words(mode, verb), seq![' ']);
    assert("systemctl "@ + call + " failed (exit "@ + "?"@ + ")"@ =~= "systemctl "@ + call
        + " failed (exit ?)"@);
}

/// The same of the other programs, which are named in the error.
pub proof fn failed_programs_are_told(program: Seq<char>, ran: Ran)
    ensures
        ({
            let told = service::ran_outcome(program, ran);
            &&& told is Ok <==> ran is Success
            &&& told matches Err(e) ==> e.code == 1 && e.hint is None
            &&& ran matches Ran::NotRun(why) ==> told matches Err(e) && e.msg == program + ": "@
                + why@
            &&& ran matches Ran::Failed(status) ==> told matches Err(e) && e.msg == program
                + " failed: "@ + status@
        }),
{
}

// --- units ------------------------------------------------------------------

/// The unit of the system stands with the others, and that of a user where the
/// user's systemd looks for it.
pub proof fn units_have_their_places(env: Env, home: Seq<char>, dir: Seq<char>, c: char)
    requires
        laws::config::lives_in(env, home),
        dir.len() > 0 && dir[0] == '/',
        c != '/',
    ensures
        service::unit_place(Mode::System, env) == "/etc/systemd/system/latch.service"@,
        env.xdg_config_home is None ==> service::unit_place(Mode::User, env) == home
            + "/.config/systemd/user/latch.service"@,
        text::text_of(env.xdg_config_home) == Some(dir.push(c)) ==> service::unit_place(
            Mode::User,
            env,
        ) == dir.push(c) + "/systemd/user/latch.service"@,
{
    reveal_strlit(".config");
    reveal_strlit("systemd/user");
    reveal_strlit("latch.service");
    reveal_strlit("/.config/systemd/user/latch.service");
    reveal_strlit("/systemd/user/latch.service");
    assert(home + seq!['/'] + ".config"@ + seq!['/'] + "systemd/user"@ + seq!['/']
        + "latch.service"@ =~= home + "/.config/systemd/user/latch.service"@);
    assert(dir.push(c) + seq!['/'] + "systemd/user"@ + seq!['/'] + "latch.service"@ =~= dir.push(c)
        + "/systemd/user/latch.service"@);
}

/// A text holds another, with something before and behind it.
pub open spec fn stands_in(s: Seq<char>, p: Seq<char>) -> bool {
    exists|a: Seq<char>, b: Seq<char>| s == #[trigger] (a + p + b)
}

/// Whoever runs it, a unit runs the binary with the config in the data
/// directory; and the system's unit may write there.
pub proof fn units_run_the_binary(
    mode: Mode,
    bin: Seq<char>,
    command: Seq<char>,
    config: Seq<char>,
    dir: Seq<char>,
)
    ensures
        stands_in(
            service::unit_text(mode, bin, command, config, dir),
            "\nExecStart="@ + bin + " "@ + command + " --config "@ + config
                + "\nWorkingDirectory="@ + dir + "\n"@,
        ),
        mode is System ==> stands_in(
            service::unit_text(mode, bin, command, config, dir),
            "\nReadWritePaths="@ + dir + "\n"@,
        ),
{
    let exec = bin + " "@ + command + " --config "@ + config + "\nWorkingDirectory="@ + dir;
    let lines = "\nExecStart="@ + bin + " "@ + command + " --config "@ + config
        + "\nWorkingDirectory="@ + dir + "\n"@;
    let write = "\nReadWritePaths="@ + dir + "\n"@;
    let all = service::unit_text(mode, bin, command, config, dir);
    reveal_strlit("\n");
    reveal_strlit("\nExecStart=");
    reveal_strlit("\nReadWritePaths=");
    match mode {
        Mode::System => {
            let head = service::SYSTEM_HEAD@;
            let middle = service::SYSTEM_MIDDLE@;
            let tail = service::SYSTEM_TAIL@;
            lemma_system_parts();
            let a = head.take(head.len() - 11);
            let b = middle.skip(1) + dir + tail;
            assert(head =~= a + "\nExecStart="@);
            assert(middle =~= "\n"@ + middle.skip(1));
            assert(all =~= a + lines + b);
            let a = head + exec + middle.take(middle.len() - 16);
            let b = tail.skip(1);
            assert(middle =~= middle.take(middle.len() - 16) + "\nReadWritePaths="@);
            assert(tail =~= "\n"@ + tail.skip(1));
            assert(all =~= a + write + b);
        },
        Mode::User => {
            let head = service::USER_HEAD@;
            let tail = service::USER_TAIL@;
            lemma_user_parts();
            let a = head.take(head.len() - 11);
            let b = tail.skip(1);
            assert(head =~= a + "\nExecStart="@);
            assert(tail =~= "\n"@ + tail.skip(1));
            assert(all =~= a + lines + b);
        },
    }
}

proof fn lemma_system_parts()
    ensures
        "\nExecStart="@.is_suffix_of(service::SYSTEM_HEAD@),
        "\nReadWritePaths="@.is_suffix_of(service::SYSTEM_MIDDLE@),
        service::SYSTEM_MIDDLE@.len() > 16 && service::SYSTEM_MIDDLE@[0] == '\n',
        service::SYSTEM_TAIL@.len() > 0 && service::SYSTEM_TAIL@[0] == '\n',
{
    reveal_strlit("\nExecStart=");
    reveal_strlit("\nReadWritePaths=");
    reveal_strlit("[Unit]\nDescription=latch — single-user passkey-based auth\nAfter=network.target\nWants=network-online.target\n\n[Service]\nType=simple\nExecStart=");
    reveal_strlit("\nUser=latch\nGroup=latch\nRestart=on-failure\nRestartSec=2\n\n# Hardening\nNoNewPrivileges=true\nProtectSystem=strict\nReadWritePaths=");
    assert("\nExecStart="@.is_suffix_of(service::SYSTEM_HEAD@));
    assert("\nReadWritePaths="@.is_suffix_of(service::SYSTEM_MIDDLE@));
    lemma_system_tail();
}

proof fn lemma_system_tail()
    ensures
        service::SYSTEM_TAIL@.len() > 0 && service::SYSTEM_TAIL@[0] == '\n',
{
    reveal_strlit("\nProtectHome=true\nPrivateTmp=true\nPrivateDevices=true\nProtectKernelTunables=true\nProtectKernelModules=true\nProtectKernelLogs=true\nProtectControlGroups=true\nProtectClock=true\nProtectHostname=true\nProtectProc=invisible\nProcSubset=pid\nRestrictNamespaces=true\nRestrictRealtime=true\nRestrictSUIDSGID=true\nRestrictAddressFamilies=AF_UNIX AF_INET AF_INET6\nLockPersonality=true\nCapabilityBoundingSet=\nAmbientCapabilities=\nSystemCallArchitectures=native\nSystemCallFilter=@system-service\nSystemCallFilter=~@privileged @resources\nUMask=0077\n\n[Install]\nWantedBy=multi-user.target\n");
}

proof fn lemma_user_parts()
    ensures
        "\nExecStart="@.is_suffix_of(service::USER_HEAD@),
        service::USER_TAIL@.len() > 0 && service::USER_TAIL@[0] == '\n',
{
    reveal_strlit("\nExecStart=");
    reveal_strlit("[Unit]\nDescription=latch — single-user passkey-based auth\nAfter=network.target\n\n[Service]\nType=simple\nExecStart=");
    reveal_strlit("\nRestart=on-failure\nRestartSec=2\n\n# Hardening (user-mode safe)\nNoNewPrivileges=true\nLockPersonality=true\nRestrictRealtime=true\nRestrictNamespaces=true\nSystemCallArchitectures=native\nSystemCallFilter=@system-service\nSystemCallFilter=~@privileged @resources\nUMask=0077\n\n[Install]\nWantedBy=default.target\n");
}

/// The system's unit, word for word: it runs as a user of its own, and under
/// all the hardening that needs no privilege of the program.
pub proof fn the_system_unit_is_hardened(
    bin: Seq<char>,
    command: Seq<char>,
    config: Seq<char>,
    dir: Seq<char>,
)
    ensures
        service::unit_text(Mode::System, bin, command, config, dir)
            == "[Unit]\nDescription=latch — single-user passkey-based auth\nAfter=network.target\nWants=network-online.target\n\n[Service]\nType=simple\nExecStart="@
            + (bin + " "@ + command + " --config "@ + config + "\nWorkingDirectory="@ + dir)
            + "\nUser=latch\nGroup=latch\nRestart=on-failure\nRestartSec=2\n\n# Hardening\nNoNewPrivileges=true\nProtectSystem=strict\nReadWritePaths="@
            + dir
            + "\nProtectHome=true\nPrivateTmp=true\nPrivateDevices=true\nProtectKernelTunables=true\nProtectKernelModules=true\nProtectKernelLogs=true\nProtectControlGroups=true\nProtectClock=true\nProtectHostname=true\nProtectProc=invisible\nProcSubset=pid\nRestrictNamespaces=true\nRestrictRealtime=true\nRestrictSUIDSGID=true\nRestrictAddressFamilies=AF_UNIX AF_INET AF_INET6\nLockPersonality=true\nCapabilityBoundingSet=\nAmbientCapabilities=\nSystemCallArchitectures=native\nSystemCallFilter=@system-service\nSystemCallFilter=~@privileged @resources\nUMask=0077\n\n[Install]\nWantedBy=multi-user.target\n"@,
{
}

/// A user's unit, word for word: it names no user to run as, and no hardening
/// that drops capabilities.
pub proof fn the_user_unit_is_hardened(
    bin: Seq<char>,
    command: Seq<char>,
    config: Seq<char>,
    dir: Seq<char>,
)
    ensures
        service::unit_text(Mode::User, bin, command, config, dir)
            == "[Unit]\nDescription=latch — single-user passkey-based auth\nAfter=network.target\n\n[Service]\nType=simple\nExecStart="@
            + (bin + " "@ + command + " --config "@ + config + "\nWorkingDirectory="@ + dir)
            + "\nRestart=on-failure\nRestartSec=2\n\n# Hardening (user-mode safe)\nNoNewPrivileges=true\nLockPersonality=true\nRestrictRealtime=true\nRestrictNamespaces=true\nSystemCallArchitectures=native\nSystemCallFilter=@system-service\nSystemCallFilter=~@privileged @resources\nUMask=0077\n\n[Install]\nWantedBy=default.target\n"@,
{
}

/// There is a unit to write exactly where there is a config file and the binary
/// is known; the older form of the command has a file always.
pub proof fn units_need_a_file_and_a_binary(
    mode: Mode,
    source: Option<Seq<char>>,
    path: Seq<char>,
    dir: Seq<char>,
    bin: Result<Seq<char>, Seq<char>>,
    b: Seq<char>,
    why: Seq<char>,
)
    ensures
        service::unit_for(mode, source, dir, bin) is Ok <==> source is Some && bin is Ok,
        service::unit_for(mode, Some(path), dir, Ok(b)) == Ok::<Seq<char>, output::ErrorView>(
            service::unit_text(mode, b, "serve"@, path, dir),
        ),
        service::unit_for(mode, None, dir, bin) matches Err(e) && e.code == 78 && e.msg
            == "latch service start needs a config file"@ && e.hint == Some(
            "run `latch config init` first, or use `latch serve` directly with env vars"@,
        ),
        service::unit_for(mode, Some(path), dir, Err(why)) matches Err(e) && e.code == 1 && e.msg
            == "can't locate own binary: "@ + why && e.hint is None,
        lifecycle::unit_for(mode, path, dir, Ok(b)) == Ok::<Seq<char>, output::ErrorView>(
            service::unit_text(mode, b, "run"@, path, dir),
        ),
        lifecycle::unit_for(mode, path, dir, Err(why)) == service::unit_for(
            mode,
            Some(path),
            dir,
            Err(why),
        ),
{
}

// --- what is done -----------------------------------------------------------

/// Starting makes the data directory, for root behind the user that owns it;
/// then it writes the unit, has systemd read and enable it and looks whether it
/// runs. Without a unit it makes the directory and fails.
pub proof fn starting_goes_step_by_step(
    dir: Seq<char>,
    unit: Seq<char>,
    e: output::ErrorView,
    place: Seq<char>,
)
    ensures
        service::start_plan(Mode::User, dir, Ok(unit), place) == seq![
            ActionView::EnsureDataDir(dir),
            ActionView::WriteUnit { path: place, unit },
            ActionView::Systemctl(Verb::DaemonReload),
            ActionView::Systemctl(Verb::EnableNow),
            ActionView::ExpectActive,
        ],
        service::start_plan(Mode::User, dir, Err(e), place) == seq![
            ActionView::EnsureDataDir(dir),
            ActionView::Fail(e),
        ],
        service::start_plan(Mode::System, dir, Ok(unit), place) == seq![
            ActionView::EnsureSystemUser,
        ] + service::start_plan(Mode::User, dir, Ok(unit), place),
        service::start_plan(Mode::System, dir, Err(e), place) == seq![
            ActionView::EnsureSystemUser,
        ] + service::start_plan(Mode::User, dir, Err(e), place),
{
}

/// Uninstalling stops and disables the unit before it removes it, and has
/// systemd forget it at last.
pub proof fn uninstalling_goes_step_by_step(place: Seq<char>)
    ensures
        ({
            let plan = service::uninstall_plan(place);
            &&& plan.len() == 4
            &&& plan[0] == ActionView::TrySystemctl(Verb::Stop)
            &&& plan[1] == ActionView::TrySystemctl(Verb::Disable)
            &&& plan[2] == ActionView::TryRemove(place)
            &&& plan[3] == ActionView::TrySystemctl(Verb::DaemonReload)
        }),
{
}

// --- what is said -----------------------------------------------------------

/// What needs root's rights is said with `sudo` in system mode alone.
pub proof fn sudo_is_for_the_system()
    ensures
        service::sudo(Mode::System) == seq!['s', 'u', 'd', 'o', ' '],
        service::sudo(Mode::User).len() == 0,
        service::journal_word(Mode::System) == "journalctl"@,
        service::journal_word(Mode::User) == "journalctl"@ + " --user"@,
        Mode::System.word() == "system"@,
        Mode::User.word() == "user"@,
{
    reveal_strlit("sudo ");
    reveal_strlit("journalctl");
    reveal_strlit(" --user");
    reveal_strlit("journalctl --user");
    assert("sudo "@ =~= seq!['s', 'u', 'd', 'o', ' ']);
    assert("journalctl --user"@ =~= "journalctl"@ + " --user"@);
}

/// The lines that are said once latch runs; a user is told how to keep it
/// running, by name where the name is known.
pub proof fn the_lines_of_a_start(user: Option<Seq<char>>)
    ensures
        service::started_text(Mode::System, user) == "\nlatch is running (system mode).\n"@
            + "\nlogs:\n    journalctl -u latch -f\n"@,
        service::started_text(Mode::User, user) == "\nlatch is running (user mode).\n"@
            + "\nlogs:\n    journalctl --user -u latch -f\n"@
            + "\nto survive logout/reboot without an active session, run once:\n    sudo loginctl enable-linger "@
            + (if let Some(u) = user {
            u
        } else {
            "$USER"@
        }) + "\n"@,
{
    reveal_strlit("\nlatch is running (");
    reveal_strlit("system");
    reveal_strlit("user");
    reveal_strlit(" mode).\n\nlogs:\n    ");
    reveal_strlit("journalctl");
    reveal_strlit("journalctl --user");
    reveal_strlit(" -u latch -f\n");
    reveal_strlit("\nlatch is running (system mode).\n");
    reveal_strlit("\nlatch is running (user mode).\n");
    reveal_strlit("\nlogs:\n    journalctl -u latch -f\n");
    reveal_strlit("\nlogs:\n    journalctl --user -u latch -f\n");
    assert("\nlatch is running ("@ + "system"@ + " mode).\n\nlogs:\n    "@ + "journalctl"@
        + " -u latch -f\n"@ =~= "\nlatch is running (system mode).\n"@
        + "\nlogs:\n    journalctl -u latch -f\n"@);
    assert("\nlatch is running ("@ + "user"@ + " mode).\n\nlogs:\n    "@ + "journalctl --user"@
        + " -u latch -f\n"@ =~= "\nlatch is running (user mode).\n"@
        + "\nlogs:\n    journalctl --user -u latch -f\n"@);
}

/// The lines of a status: whether latch runs and starts by itself, the mode,
/// the unit or the command that makes it, and the config, if there is one.
pub proof fn the_lines_of_a_status(
    mode: Mode,
    found: Found,
    unit: Seq<char>,
    config: Seq<char>,
    start: Seq<char>,
)
    ensures
        ({
            let run = if found.active {
                "active"@
            } else {
                "inactive"@
            } + "  ("@ + (if found.enabled {
                "enabled"@
            } else {
                "disabled"@
            }) + ")"@;
            let place = if found.unit {
                unit
            } else {
                "not installed (run `"@ + service::sudo(mode) + start + "`)"@
            };
            let lines = seq![
                "latch:  "@ + run,
                "mode:   "@ + mode.word(),
                "unit:   "@ + place,
            ];
            service::status_text(mode, found, unit, config, start) == chain(
                if found.config {
                    lines.push("config: "@ + config)
                } else {
                    lines
                }.push(Seq::empty()),
                seq!['\n'],
            )
        }),
{
    let run = if found.active {
        "active"@
    } else {
        "inactive"@
    } + "  ("@ + (if found.enabled {
        "enabled"@
    } else {
        "disabled"@
    }) + ")"@;
    let place = if found.unit {
        unit
    } else {
        "not installed (run `"@ + service::sudo(mode) + start + "`)"@
    };
    let n = seq!['\n'];
    let one = seq!["latch:  "@ + run];
    let two = one.push("mode:   "@ + mode.word());
    let three = two.push("unit:   "@ + place);
    let lines = seq!["latch:  "@ + run, "mode:   "@ + mode.word(), "unit:   "@ + place];
    assert(three =~= lines);
    reveal_strlit(")");
    reveal_strlit(")\nmode:   ");
    reveal_strlit("mode:   ");
    reveal_strlit("\nunit:   ");
    reveal_strlit("unit:   ");
    reveal_strlit("\n");
    assert(")\nmode:   "@ =~= ")"@ + (n + "mode:   "@));
    assert("\nunit:   "@ =~= n + "unit:   "@);
    assert("\n"@ =~= n);
    lemma_next_line(one, n + "mode:   "@, "mode:   "@, mode.word());
    lemma_next_line(two, "\nunit:   "@, "unit:   "@, place);
    assert(chain(one, n) == one[0]);
    let said = service::status_text(mode, found, unit, config, start);
    if found.config {
        lemma_chain_push(three, "config: "@ + config, n);
        lemma_last_line(three.push("config: "@ + config));
        assert(said =~= chain(three, n) + n + ("config: "@ + config) + "\n"@);
    } else {
        lemma_last_line(three);
        assert(said =~= chain(three, n) + "\n"@);
    }
}

/// What uninstalling says: that the unit is gone, and the commands that remove
/// the data and the config, root's user and the binary, if it is known.
pub proof fn what_is_left_is_told(
    mode: Mode,
    dir: Seq<char>,
    config: Seq<char>,
    bin: Option<Seq<char>>,
)
    ensures
        ({
            let su = service::sudo(mode);
            service::uninstalled_text(mode, dir, config, bin) == "removed "@ + mode.word()
                + " systemd unit.\n"@ + "\nto also remove your data:\n    "@ + su + "rm -rf "@ + dir
                + "\n"@ + "to remove the config:\n    "@ + su + "rm "@ + config + "\n"@ + (
            if mode is System {
                "to remove the system user:\n    sudo userdel latch\n"@
            } else {
                Seq::empty()
            }) + (if let Some(b) = bin {
                "to remove the binary:\n    "@ + su + "rm "@ + b + "\n"@
            } else {
                Seq::empty()
            })
        }),
{
    reveal_strlit(" systemd unit.\n\nto also remove your data:\n    ");
    reveal_strlit(" systemd unit.\n");
    reveal_strlit("\nto also remove your data:\n    ");
    reveal_strlit("\nto remove the config:\n    ");
    reveal_strlit("to remove the config:\n    ");
    reveal_strlit("\n");
    reveal_strlit("to remove the system user:\n    sudo userdel ");
    reveal_strlit("latch");
    reveal_strlit("to remove the system user:\n    sudo userdel latch\n");
    assert(" systemd unit.\n\nto also remove your data:\n    "@ =~= " systemd unit.\n"@
        + "\nto also remove your data:\n    "@);
    assert("\nto remove the config:\n    "@ =~= "\n"@ + "to remove the config:\n    "@);
    assert("to remove the system user:\n    sudo userdel "@ + "latch"@ + "\n"@
        =~= "to remove the system user:\n    sudo userdel latch\n"@);
    let su = service::sudo(mode);
    let a = "removed "@ + mode.word();
    let mid = su + "rm -rf "@ + dir;
    let end = su + "rm "@ + config + "\n"@;
    assert(a + " systemd unit.\n\nto also remove your data:\n    "@ + su + "rm -rf "@ + dir
        + "\nto remove the config:\n    "@ + su + "rm "@ + config + "\n"@ =~= a
        + " systemd unit.\n"@ + "\nto also remove your data:\n    "@ + su + "rm -rf "@ + dir + "\n"@
        + "to remove the config:\n    "@ + su + "rm "@ + config + "\n"@);
}

// --- the older form ---------------------------------------------------------

/// The data directory of the older form: root's where it still is, a user's
/// with the states of other programs.
pub proof fn older_data_has_its_place(env: Env, home: Seq<char>, dir: Seq<char>, c: char)
    requires
        laws::config::lives_in(env, home),
        dir.len() > 0 && dir[0] == '/',
        c != '/',
    ensures
        lifecycle::state_dir_of(Mode::System, env) == "/var/lib/latch"@,
        env.xdg_state_home is None ==> lifecycle::state_dir_of(Mode::User, env) == home
            + "/.local/state/latch"@,
        text::text_of(env.xdg_state_home) == Some(dir.push(c)) ==> lifecycle::state_dir_of(
            Mode::User,
            env,
        ) == dir.push(c) + "/latch"@,
{
    laws::config::files_have_their_places(env, home, dir, c);
}

/// The lines of a config of the older form.
pub proof fn the_lines_of_an_older_config(
    id: Seq<char>,
    origin: Seq<char>,
    domain: Seq<char>,
    dir: Seq<char>,
)
    ensures
        lifecycle::config_text(id, origin, domain, dir)
            == "# latch config\n# https://github.com/TerryTsai/latch\n\n# REQUIRED. Hostname where latch is publicly reachable.\n"@
            + ("rp_id = \""@ + id + "\"\n"@) + "\n# Optional overrides. Defaults shown commented.\n"@
            + ("# rp_origin     = \""@ + origin + "\"\n"@) + ("# cookie_domain = \""@ + domain
            + "\"\n"@) + "# listen        = \"127.0.0.1:8080\"\n"@ + ("# state_dir     = \""@ + dir
            + "\"\n"@),
{
    let top =
        "# latch config\n# https://github.com/TerryTsai/latch\n\n# REQUIRED. Hostname where latch is publicly reachable.\n"@;
    lemma_older_head();
    reveal_strlit("\"\n");
    reveal_strlit("\"\n\n# Optional overrides. Defaults shown commented.\n# rp_origin     = \"");
    reveal_strlit("\n# Optional overrides. Defaults shown commented.\n");
    reveal_strlit("# rp_origin     = \"");
    reveal_strlit("\"\n# cookie_domain = \"");
    reveal_strlit("# cookie_domain = \"");
    reveal_strlit("\"\n# listen        = \"");
    reveal_strlit("127.0.0.1:8080");
    reveal_strlit("# listen        = \"127.0.0.1:8080\"\n");
    reveal_strlit("\"\n# state_dir     = \"");
    reveal_strlit("# state_dir     = \"");
    assert("\"\n\n# Optional overrides. Defaults shown commented.\n# rp_origin     = \""@ =~= "\"\n"@
        + "\n# Optional overrides. Defaults shown commented.\n"@ + "# rp_origin     = \""@);
    assert("\"\n# cookie_domain = \""@ =~= "\"\n"@ + "# cookie_domain = \""@);
    assert("\"\n# listen        = \""@ + "127.0.0.1:8080"@ + "\"\n# state_dir     = \""@ =~= "\"\n"@
        + "# listen        = \"127.0.0.1:8080\"\n"@ + "# state_dir     = \""@);
    let a = top + "rp_id = \""@ + id;
    let b = "\"\n\n# Optional overrides. Defaults shown commented.\n# rp_origin     = \""@ + origin
        + "\"\n# cookie_domain = \""@ + domain;
    let c = "\"\n# listen        = \""@ + "127.0.0.1:8080"@ + "\"\n# state_dir     = \""@ + dir
        + "\"\n"@;
    assert(lifecycle::config_text(id, origin, domain, dir) =~= a + b + c);
    let x = "\"\n"@ + "\n# Optional overrides. Defaults shown commented.\n"@ + (
    "# rp_origin     = \""@ + origin + "\"\n"@) + ("# cookie_domain = \""@ + domain);
    assert(b =~= x);
    let y = "\"\n"@ + "# listen        = \"127.0.0.1:8080\"\n"@ + ("# state_dir     = \""@ + dir
        + "\"\n"@);
    assert(c =~= y);
    assert(a + x + y =~= top + ("rp_id = \""@ + id + "\"\n"@)
        + "\n# Optional overrides. Defaults shown commented.\n"@ + ("# rp_origin     = \""@ + origin
        + "\"\n"@) + ("# cookie_domain = \""@ + domain + "\"\n"@)
        + "# listen        = \"127.0.0.1:8080\"\n"@ + ("# state_dir     = \""@ + dir + "\"\n"@));
}

proof fn lemma_older_head()
    ensures
        "# latch config\n# https://github.com/TerryTsai/latch\n\n# REQUIRED. Hostname where latch is publicly reachable.\nrp_id = \""@
            == "# latch config\n# https://github.com/TerryTsai/latch\n\n# REQUIRED. Hostname where latch is publicly reachable.\n"@
            + "rp_id = \""@,
{
    reveal_strlit(
        "# latch config\n# https://github.com/TerryTsai/latch\n\n# REQUIRED. Hostname where latch is publicly reachable.\nrp_id = \"",
    );
    reveal_strlit(
        "# latch config\n# https://github.com/TerryTsai/latch\n\n# REQUIRED. Hostname where latch is publicly reachable.\n",
    );
    reveal_strlit("rp_id = \"");
    assert("# latch config\n# https://github.com/TerryTsai/latch\n\n# REQUIRED. Hostname where latch is publicly reachable.\nrp_id = \""@
        =~= "# latch config\n# https://github.com/TerryTsai/latch\n\n# REQUIRED. Hostname where latch is publicly reachable.\n"@
        + "rp_id = \""@);
}

/// The older `init` prints, writes or asks about the same config, the one for
/// the hostname; where it writes, to the path that was given, or else to the
/// default one. It takes no empty hostname and no placeholder.
pub proof fn the_older_init_is_for_the_hostname(
    id: Seq<char>,
    path: Option<Seq<char>>,
    mode: Mode,
    default_path: Seq<char>,
    dir: Seq<char>,
    a: Seq<char>,
    b: Seq<char>,
)
    ensures
        ({
            let made = |print: bool, yes: bool|
                lifecycle::init_for(id, path, print, yes, mode, default_path, dir);
            let content = lifecycle::config_text(
                id,
                "https://"@ + id,
                config::parent_domain(id),
                dir,
            );
            let good = id.len() > 0 && !stands_in(id, "example.com"@);
            let place = if let Some(p) = path {
                p
            } else {
                default_path
            };
            &&& forall|print: bool, yes: bool| #[trigger] made(print, yes) is Ok <==> good
            &&& good ==> forall|yes: bool| #[trigger]
                made(true, yes) == Ok::<InitView, Seq<char>>(InitView::Print { content })
            &&& good ==> made(false, true) == Ok::<InitView, Seq<char>>(
                InitView::Write { target: place, content },
            )
            &&& good ==> (made(false, false) matches Ok(InitView::Confirm {
                target,
                content: c,
                question,
                ..
            }) && target == place && c == content && question == "Write to "@ + place
                + "? [Y/n] "@)
            &&& id.len() == 0 ==> made(false, false) == Err::<InitView, Seq<char>>(
                "rp_id is required"@,
            )
            &&& id == a + "example.com"@ + b ==> made(false, false) == Err::<InitView, Seq<char>>(
                "rp_id can't be a placeholder"@,
            )
        }),
{
    reveal_strlit("example.com");
    laws::text::a_text_holds_what_stands_in_it(a, "example.com"@, b);
    if text::holds(id, "example.com"@) {
        laws::text::what_a_text_holds_stands_in_it(id, "example.com"@);
    }
    if stands_in(id, "example.com"@) {
        let (x, y) = choose|x: Seq<char>, y: Seq<char>| id == #[trigger] (x + "example.com"@ + y);
        laws::text::a_text_holds_what_stands_in_it(x, "example.com"@, y);
    }
}

/// The older summary says the mode, the hostname and what follows from it.
pub proof fn the_lines_of_an_older_summary(
    mode: Mode,
    id: Seq<char>,
    domain: Seq<char>,
    dir: Seq<char>,
)
    ensures
        lifecycle::summary_text(mode, id, domain, dir) == chain(
            seq![
                Seq::empty(),
                "  mode          = "@ + mode.word(),
                "  rp_id         = "@ + id,
                "  rp_origin     = https://"@ + id + "   (derived)"@,
                "  cookie_domain = "@ + domain + "   (derived)"@,
                "  listen        = 127.0.0.1:8080   (default)"@,
                "  state_dir     = "@ + dir + "   (default)"@,
                Seq::empty(),
                Seq::empty(),
            ],
            seq!['\n'],
        ),
{
    let n = seq!['\n'];
    let m = "  mode          = "@;
    let r = "  rp_id         = "@;
    let o = "  rp_origin     = https://"@;
    let d = "   (derived)"@;
    let k = "  cookie_domain = "@;
    let l = "  listen        = 127.0.0.1:8080   (default)"@;
    let t = "  state_dir     = "@;
    let f = "   (default)"@;
    assert("\n  mode          = "@ =~= n + m) by {
        reveal_strlit("\n  mode          = ");
        reveal_strlit("  mode          = ");
    }
    assert("\n  rp_id         = "@ =~= n + r) by {
        reveal_strlit("\n  rp_id         = ");
        reveal_strlit("  rp_id         = ");
    }
    assert("\n  rp_origin     = https://"@ =~= n + o) by {
        reveal_strlit("\n  rp_origin     = https://");
        reveal_strlit("  rp_origin     = https://");
    }
    assert("   (derived)\n  cookie_domain = "@ =~= d + (n + k)) by {
        reveal_strlit("   (derived)\n  cookie_domain = ");
        reveal_strlit("   (derived)");
        reveal_strlit("  cookie_domain = ");
    }
    let rest = "   (derived)\n  listen        = "@ + "127.0.0.1:8080"@
        + "   (default)\n  state_dir     = "@;
    assert(rest =~= d + (n + l) + (n + t)) by {
        reveal_strlit("   (derived)\n  listen        = ");
        reveal_strlit("127.0.0.1:8080");
        reveal_strlit("   (default)\n  state_dir     = ");
        reveal_strlit("   (derived)");
        reveal_strlit("  listen        = 127.0.0.1:8080   (default)");
        reveal_strlit("  state_dir     = ");
    }
    assert("   (default)\n\n"@ =~= f + n + n) by {
        reveal_strlit("   (default)\n\n");
        reveal_strlit("   (default)");
    }
    lemma_older_summary(m, mode.word(), r, id, o, d, k, domain, l, t, dir, f);
    let said = n + m + mode.word() + (n + r) + id + (n + o) + id + (d + (n + k)) + domain + (d + (n
        + l) + (n + t)) + dir + (f + n + n);
    let head = n + m + mode.word() + (n + r) + id + (n + o) + id + (d + (n + k)) + domain;
    assert(head + "   (derived)\n  listen        = "@ + "127.0.0.1:8080"@
        + "   (default)\n  state_dir     = "@ =~= head + rest);
    assert(lifecycle::summary_text(mode, id, domain, dir) == said);
}

proof fn lemma_older_summary(
    m: Seq<char>,
    mode: Seq<char>,
    r: Seq<char>,
    id: Seq<char>,
    o: Seq<char>,
    d: Seq<char>,
    k: Seq<char>,
    domain: Seq<char>,
    l: Seq<char>,
    t: Seq<char>,
    dir: Seq<char>,
    f: Seq<char>,
)
    ensures
        ({
            let n = seq!['\n'];
            let e = Seq::<char>::empty();
            chain(
                seq![e, m + mode, r + id, o + id + d, k + domain + d, l, t + dir + f, e, e],
                n,
            ) == n + m + mode + (n + r) + id + (n + o) + id + (d + (n + k)) + domain + (d + (n + l)
                + (n + t)) + dir + (f + n + n)
        }),
{
    let n = seq!['\n'];
    let e = Seq::<char>::empty();
    let l1 = seq![e];
    let l2 = l1.push(m + mode);
    let l3 = l2.push(r + id);
    let l4 = l3.push(o + id + d);
    let l5 = l4.push(k + domain + d);
    let l6 = l5.push(l);
    let l7 = l6.push(t + dir + f);
    let l8 = l7.push(e);
    let l9 = l8.push(e);
    assert(l9 =~= seq![e, m + mode, r + id, o + id + d, k + domain + d, l, t + dir + f, e, e]);
    lemma_chain_push(l1, m + mode, n);
    lemma_chain_push(l2, r + id, n);
    lemma_chain_push(l3, o + id + d, n);
    lemma_chain_push(l4, k + domain + d, n);
    lemma_chain_push(l5, l, n);
    lemma_chain_push(l6, t + dir + f, n);
    lemma_chain_push(l7, e, n);
    lemma_chain_push(l8, e, n);
    assert(chain(l1, n) == e);
    let s2 = n + m + mode;
    assert(e + n + (m + mode) =~= s2);
    let s3 = s2 + (n + r) + id;
    assert(s2 + n + (r + id) =~= s3);
    let s4 = s3 + (n + o) + id;
    assert(s3 + n + (o + id + d) =~= s4 + d);
    let s5 = s4 + (d + (n + k)) + domain;
    assert(s4 + d + n + (k + domain + d) =~= s5 + d);
    let s7 = s5 + (d + (n + l) + (n + t)) + dir;
    assert(s5 + d + n + l + n + (t + dir + f) =~= s7 + f);
    assert(s7 + f + n + e + n + e =~= s7 + (f + n + n));
}

/// Without `--purge` nothing is removed along with the unit; with it, what
/// there is of data directory and config, and root's user.
pub proof fn purging_removes_what_there_is(
    mode: Mode,
    dir: Option<Seq<char>>,
    config: Option<Seq<char>>,
    p: PurgeView,
)
    ensures
        lifecycle::purge_plan(false, mode, dir, config).len() == 0,
        lifecycle::purge_plan(true, mode, dir, config).contains(p) <==> match p {
            PurgeView::Directory(d) => dir == Some(d),
            PurgeView::File(f) => config == Some(f),
            PurgeView::User(u) => mode is System && u == "latch"@,
        },
{
    let plan = lifecycle::purge_plan(true, mode, dir, config);
    let a = if dir is Some {
        1int
    } else {
        0int
    };
    let b = if config is Some {
        1int
    } else {
        0int
    };
    if let Some(d) = dir {
        assert(plan[0] == PurgeView::Directory(d));
    }
    if let Some(f) = config {
        assert(plan[a] == PurgeView::File(f));
    }
    if mode is System {
        assert(plan[a + b] == PurgeView::User("latch"@));
    }
}

/// What the older `uninstall` says: what it removed, and how to remove the
/// binary, if it is known.
pub proof fn the_older_uninstall_tells_what_is_gone(
    purge: bool,
    mode: Mode,
    dir: Option<Seq<char>>,
    config: bool,
    bin: Option<Seq<char>>,
)
    ensures
        lifecycle::uninstalled_text(purge, mode, dir, config, bin) == "removed "@ + mode.word()
            + " systemd unit\n"@ + (if purge && dir is Some {
            "removed state dir: "@ + dir->0 + "\n"@
        } else {
            Seq::empty()
        }) + (if purge && config {
            "removed config\n"@
        } else {
            Seq::empty()
        }) + (if bin is Some {
            "\nthe binary itself is at "@ + bin->0 + "\nremove with:\n    "@ + service::sudo(mode)
                + "rm "@ + bin->0 + "\n"@
        } else {
            Seq::empty()
        }),
{
}

/// A config is left where it is there.
pub proof fn a_config_is_left_where_it_is_there(path: Seq<char>)
    ensures
        lifecycle::config_left(true, path) == Some(path),
        lifecycle::config_left(false, path) is None,
{
}

} // verus!
