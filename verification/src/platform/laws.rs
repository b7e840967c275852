//! What the platforms do, whichever is chosen.

use crate::config::{Config, Scope};
use crate::exec::ExecSetView;
use crate::orchard::ArtifactView;
use crate::orchdi::{dep_gates, supervise_spec_of, SuperviseSpecView};
use crate::paths::{extension, stem, under};
use crate::platform::orchdi::lifecycle as supervisors;
use crate::platform::orchdi::{all_specs, orchdi_artifacts, removals, removed};
use crate::platform::status::{
    json, json_item, json_items, ordered, padded, report, row, rows, table, StatusView,
};
use crate::platform::systemd::lifecycle as units;
use crate::platform::systemd::{links, systemctl_call, units_home};
use crate::platform::{
    generated, generated_specs, platform_message, platform_named, signed_decimal, tail_result,
    Host, InvocationView, OutcomeView, PlacementView, PlatformErrorView, PlatformKind,
    RemovalView,
};
use crate::text::number::{decimal, lemma_decimal_round_trip};
use crate::text::scan::{joined, occurs, trimmed};
use crate::types::ServiceView;
use vstd::prelude::*;

verus! {

/// The platforms go by their names, and whatever is neither launchd nor orchdi is
/// systemd.
pub proof fn law_platforms_go_by_their_names(name: Seq<char>)
    ensures
        platform_named("launchd"@) == PlatformKind::Launchd,
        platform_named("orchdi"@) == PlatformKind::Orchdi,
        platform_named("systemd"@) == PlatformKind::Systemd,
        platform_named(name) == PlatformKind::Systemd <==> name != "launchd"@ && name
            != "orchdi"@,
{
    reveal_strlit("launchd");
    reveal_strlit("orchdi");
    reveal_strlit("systemd");
    assert("launchd"@.len() == 7 && "orchdi"@.len() == 6 && "systemd"@.len() == 7);
    assert("launchd"@[0] == 'l' && "systemd"@[0] == 's');
}

/// What is generated is what the chosen platform runs from.
pub proof fn law_each_platform_gets_its_own(
    services: Seq<ServiceView>,
    exec_sets: Seq<(usize, ExecSetView)>,
    config: &Config,
    host: &Host,
    texts: Seq<Seq<char>>,
)
    ensures
        config.platform@ == "launchd"@ ==> generated(services, exec_sets, config, host, texts)
            == crate::platform::launchd::launchd_artifacts(
            services,
            exec_sets,
            config,
            host,
            texts,
        ) && generated_specs(services, exec_sets, config)
            == crate::platform::launchd::specs_for(services, exec_sets, config),
        config.platform@ == "orchdi"@ ==> generated(services, exec_sets, config, host, texts)
            == orchdi_artifacts(services, exec_sets, config, texts) && generated_specs(
            services,
            exec_sets,
            config,
        ) == all_specs(services, exec_sets, config),
        config.platform@ != "launchd"@ && config.platform@ != "orchdi"@ ==> generated(
            services,
            exec_sets,
            config,
            host,
            texts,
        ) == crate::platform::systemd::systemd_artifacts(services, exec_sets, config)
            && generated_specs(services, exec_sets, config) == Seq::<SuperviseSpecView>::empty(),
{
    law_platforms_go_by_their_names(config.platform@);
}

/// On orchdi every service that has commands gets its supervisor spec, which waits
/// for what the service depends on, under its label.
pub proof fn law_every_service_gets_a_spec(
    services: Seq<ServiceView>,
    exec_sets: Seq<(usize, ExecSetView)>,
    config: &Config,
    texts: Seq<Seq<char>>,
    i: int,
)
    requires
        0 <= i < exec_sets.len(),
    ensures
        all_specs(services, exec_sets, config).len() == exec_sets.len(),
        orchdi_artifacts(services, exec_sets, config, texts).len() == exec_sets.len(),
        ({
            let service = services[exec_sets[i].0 as int];
            let label = config.namespace@ + "."@ + service.name;
            &&& all_specs(services, exec_sets, config)[i] == supervise_spec_of(
                service,
                exec_sets[i].1,
                config.state_dir@,
                config.namespace@,
                dep_gates(config.state_dir@, config.namespace@, service, services),
            )
            &&& orchdi_artifacts(services, exec_sets, config, texts)[i] == (ArtifactView {
                kind: "supervise-spec"@,
                label,
                path: under(under(config.state_dir@, "supervise"@), label + ".json"@),
                content: texts[i],
            })
        }),
{
}

/// Acting on services by name acts on these and no others, in their order.
pub proof fn law_named_services_are_acted_on(
    services: Seq<Seq<char>>,
    files: Seq<Seq<char>>,
    namespace: Seq<char>,
    verb: Seq<char>,
    i: int,
)
    requires
        0 <= i < services.len(),
    ensures
        supervisors::started_labels(services, files, namespace).len() == services.len(),
        supervisors::started_labels(services, files, namespace)[i] == namespace + "."@
            + services[i],
        supervisors::stopped_labels(services, files, namespace).len() == services.len(),
        supervisors::stopped_labels(services, files, namespace)[i] == namespace + "."@
            + services[i],
        units::unit_args(verb, services, namespace).len() == services.len() + 1,
        units::unit_args(verb, services, namespace)[0] == verb,
        units::unit_args(verb, services, namespace)[i + 1] == namespace + "-"@ + services[i]
            + ".service"@,
{
}

/// Acting on no service by name acts on all: on systemd by way of the target of the
/// namespace, on orchdi on what the spec files and pid files stand for. All are
/// started, and those of the namespace stopped.
pub proof fn law_all_services_are_acted_on(
    files: Seq<Seq<char>>,
    file: Seq<char>,
    namespace: Seq<char>,
    verb: Seq<char>,
)
    ensures
        units::unit_args(verb, Seq::empty(), namespace) == seq![verb, namespace + ".target"@],
        supervisors::started_labels(Seq::empty(), Seq::empty(), namespace)
            == Seq::<Seq<char>>::empty(),
        supervisors::started_labels(Seq::empty(), files.push(file), namespace)
            == supervisors::started_labels(Seq::empty(), files, namespace) + (if extension(file)
            == Some("json"@) {
            seq![stem(file)]
        } else {
            seq![]
        }),
        supervisors::stopped_labels(Seq::empty(), Seq::empty(), namespace)
            == Seq::<Seq<char>>::empty(),
        supervisors::stopped_labels(Seq::empty(), files.push(file), namespace)
            == supervisors::stopped_labels(Seq::empty(), files, namespace) + (if extension(file)
            == Some("pid"@) && (namespace + "."@).is_prefix_of(stem(file)) {
            seq![stem(file)]
        } else {
            seq![]
        }),
{
    let more = files.push(file);
    assert(more.drop_last() =~= files);
    assert(units::unit_args(verb, Seq::empty(), namespace) =~= seq![
        verb,
        namespace + ".target"@,
    ]);
    assert(supervisors::started_labels(Seq::empty(), more, namespace)
        =~= supervisors::started_labels(Seq::empty(), files, namespace) + (if extension(file)
        == Some("json"@) {
        seq![stem(file)]
    } else {
        seq![]
    }));
    let all = supervisors::stems_of(more, "pid"@);
    let old = supervisors::stems_of(files, "pid"@);
    if extension(file) == Some("pid"@) {
        assert(all.drop_last() =~= old);
    }
    assert(supervisors::stopped_labels(Seq::empty(), more, namespace)
        =~= supervisors::stopped_labels(Seq::empty(), files, namespace) + (if extension(file)
        == Some("pid"@) && (namespace + "."@).is_prefix_of(stem(file)) {
        seq![stem(file)]
    } else {
        seq![]
    }));
}

/// systemd is called in the scope: for a user with `--user`, for the system
/// without. Its units are linked from the units directory, each under its own
/// name, to where systemd looks in that scope.
pub proof fn law_systemd_acts_in_its_scope(
    args: Seq<Seq<char>>,
    names: Seq<Seq<char>>,
    units_dir: Seq<char>,
    home: Option<Seq<char>>,
    place: Seq<char>,
    i: int,
)
    ensures
        systemctl_call(Scope::User, args) == (InvocationView {
            program: "systemctl"@,
            args: seq!["--user"@] + args,
        }),
        systemctl_call(Scope::System, args) == (InvocationView { program: "systemctl"@, args }),
        units_home(Scope::System, home) == "/etc/systemd/system"@,
        home matches Some(h) ==> units_home(Scope::User, home) == under(
            h,
            ".config/systemd/user"@,
        ),
        units_home(Scope::User, None) == under("/root"@, ".config/systemd/user"@),
        links(names, units_dir, place).len() == names.len(),
        0 <= i < names.len() ==> links(names, units_dir, place)[i] == (PlacementView {
            from: under(units_dir, names[i]),
            to: under(place, names[i]),
        }),
{
    assert(Seq::<Seq<char>>::empty() + args =~= args);
}

/// Whether systemd did what it was asked: only if it was run and succeeded. What it
/// says otherwise is passed on.
pub proof fn law_systemd_failures_are_passed_on(args: Seq<Seq<char>>, outcome: OutcomeView)
    ensures
        units::systemctl_result(args, outcome) is Ok <==> (outcome matches OutcomeView::Ended {
            success,
            ..
        } && success),
        outcome matches OutcomeView::NotRun(e) ==> units::systemctl_result(args, outcome)
            == Err::<(), PlatformErrorView>(
            PlatformErrorView::LifecycleFailed(
                "systemctl "@ + joined(args, " "@) + ": "@ + e,
            ),
        ),
        outcome matches OutcomeView::Ended { success: false, stderr, .. }
            ==> units::systemctl_result(args, outcome) == Err::<(), PlatformErrorView>(
            PlatformErrorView::LifecycleFailed(
                "systemctl "@ + joined(args, " "@) + " failed: "@ + trimmed(stderr),
            ),
        ),
        crate::platform::systemd::reload_result(outcome) is Ok <==> (
        outcome matches OutcomeView::Ended { success, .. } && success),
{
}

/// What systemd says of a unit is read line by line: its states as they are, and
/// its process unless that is 0. Other lines say nothing, and a unit of which
/// nothing is said is in an unknown state.
pub proof fn law_unit_states_are_read(state: units::UnitState, rest: Seq<char>, n: nat)
    ensures
        units::with_line(state, "ActiveState="@ + rest) == (units::UnitState {
            active: rest,
            ..state
        }),
        units::with_line(state, "SubState="@ + rest) == (units::UnitState { sub: rest, ..state }),
        0 < n <= u32::MAX ==> units::with_line(state, "MainPID="@ + decimal(n)) == (
        units::UnitState { pid: Some(n), ..state }),
        units::with_line(state, "MainPID="@ + decimal(0)) == state,
        !"ActiveState="@.is_prefix_of(rest) && !"SubState="@.is_prefix_of(rest)
            && !"MainPID="@.is_prefix_of(rest) ==> units::with_line(state, rest) == state,
        units::state_of(Seq::empty()) == (units::UnitState {
            active: "unknown"@,
            sub: "unknown"@,
            pid: None,
        }),
{
    reveal_strlit("ActiveState=");
    reveal_strlit("SubState=");
    reveal_strlit("MainPID=");
    let a = "ActiveState="@ + rest;
    let b = "SubState="@ + rest;
    let c = "MainPID="@ + decimal(n);
    let d = "MainPID="@ + decimal(0);
    assert(a.subrange(0, 12) =~= "ActiveState="@);
    assert(a.skip(12) =~= rest);
    assert(b.subrange(0, 9) =~= "SubState="@);
    assert(b.skip(9) =~= rest);
    assert(c.subrange(0, 8) =~= "MainPID="@);
    assert(c.skip(8) =~= decimal(n));
    assert(d.subrange(0, 8) =~= "MainPID="@);
    assert(d.skip(8) =~= decimal(0));
    assert(b[0] == 'S' && c[0] == 'M' && d[0] == 'M');
    assert("ActiveState="@[0] == 'A' && "SubState="@[0] == 'S');
    if "ActiveState="@.is_prefix_of(b) {
        assert(b.subrange(0, 12)[0] == 'S');
    }
    if "ActiveState="@.is_prefix_of(c) {
        assert(c.subrange(0, 12)[0] == 'M');
    }
    if "SubState="@.is_prefix_of(c) {
        assert(c.subrange(0, 9)[0] == 'M');
    }
    if "ActiveState="@.is_prefix_of(d) {
        assert(d.subrange(0, 12)[0] == 'M');
    }
    if "SubState="@.is_prefix_of(d) {
        assert(d.subrange(0, 9)[0] == 'M');
    }
    if n <= u32::MAX {
        lemma_decimal_round_trip(n, u32::MAX as nat);
    }
    lemma_decimal_round_trip(0, u32::MAX as nat);
}

/// The journal of a unit is shown: so many lines, in its scope, and what is added
/// where it is followed.
pub proof fn law_journals_are_shown(
    unit: Seq<char>,
    scope: Seq<Seq<char>>,
    follow: bool,
    lines: nat,
)
    ensures
        units::journal_args(unit, scope, false, lines) == scope + seq![
            "-u"@,
            unit,
            "--no-pager"@,
            "-n"@,
            decimal(lines),
        ],
        units::journal_args(unit, scope, true, lines) == scope + seq![
            "-u"@,
            unit,
            "--no-pager"@,
            "-n"@,
            decimal(lines),
            "-f"@,
        ],
{
    assert(units::journal_args(unit, scope, false, lines) =~= scope + seq![
        "-u"@,
        unit,
        "--no-pager"@,
        "-n"@,
        decimal(lines),
    ]);
    assert(units::journal_args(unit, scope, true, lines) =~= scope + seq![
        "-u"@,
        unit,
        "--no-pager"@,
        "-n"@,
        decimal(lines),
        "-f"@,
    ]);
}

/// Showing logs succeeds exactly if the command that shows them does.
pub proof fn law_log_failures_are_passed_on(program: Seq<char>, outcome: OutcomeView)
    ensures
        tail_result(program, outcome) is Ok <==> (outcome matches OutcomeView::Ended {
            success,
            ..
        } && success),
        outcome matches OutcomeView::NotRun(e) ==> tail_result(program, outcome) == Err::<
            (),
            PlatformErrorView,
        >(PlatformErrorView::LifecycleFailed(program + ": "@ + e)),
        outcome matches OutcomeView::Ended { success: false, code: Some(c), .. } ==> tail_result(
            program,
            outcome,
        ) == Err::<(), PlatformErrorView>(
            PlatformErrorView::LifecycleFailed(
                program + " exited with code "@ + signed_decimal(c as int),
            ),
        ),
{
}

/// Each error says of what kind it is and what happened.
pub proof fn law_platform_errors_say_their_kind(s: Seq<char>)
    ensures
        platform_message(PlatformErrorView::PrerequisiteMissing(s)) == "prerequisite missing: "@
            + s,
        platform_message(PlatformErrorView::GenerationFailed(s)) == "generation failed: "@ + s,
        platform_message(PlatformErrorView::InstallFailed(s)) == "install failed: "@ + s,
        platform_message(PlatformErrorView::LifecycleFailed(s)) == "lifecycle failed: "@ + s,
        platform_message(PlatformErrorView::Io(s)) == "I/O error: "@ + s,
        platform_message(PlatformErrorView::Other(s)) == s,
{
}

/// A survey lists every service once, by name, as a table under its heading or as
/// a list of JSON objects.
pub proof fn law_surveys_list_the_services(statuses: Seq<StatusView>, s: StatusView)
    ensures
        report(statuses, true) == json(ordered(statuses)),
        report(statuses, false) == table(ordered(statuses)),
        table(statuses) == padded("SERVICE"@, 24) + " "@ + padded("STATE"@, 12) + " "@ + padded(
            "SUB"@,
            12,
        ) + " "@ + "PID"@ + "\n"@
            + "------------------------------------------------------------\n"@ + rows(statuses),
        rows(Seq::empty()) == Seq::<char>::empty(),
        rows(statuses.push(s)) == rows(statuses) + (padded(s.name, 24) + " "@ + padded(
            s.active_state,
            12,
        ) + " "@ + padded(s.sub_state, 12) + " "@ + (match s.pid {
            Some(p) => decimal(p as nat),
            None => "-"@,
        }) + "\n"@),
        json(statuses) == "["@ + json_items(statuses) + "\n]\n"@,
        json_items(statuses.push(s)) == (if statuses.len() == 0 {
            Seq::empty()
        } else {
            json_items(statuses) + ","@
        }) + ("\n  {\"name\":\""@ + s.name + "\",\"state\":\""@ + s.active_state
            + "\",\"sub\":\""@ + s.sub_state + "\",\"pid\":"@ + (match s.pid {
            Some(p) => decimal(p as nat),
            None => "null"@,
        }) + "}"@),
{
    let more = statuses.push(s);
    assert(more.drop_last() =~= statuses);
    if statuses.len() == 0 {
        assert(json_items(more) =~= Seq::empty() + json_item(s));
    }
    assert(rows(more) == rows(statuses) + row(
        s.name,
        s.active_state,
        s.sub_state,
        match s.pid {
            Some(p) => decimal(p as nat),
            None => "-"@,
        },
    ));
}

/// A column is filled up to its width and never cut.
pub proof fn law_columns_keep_their_text(s: Seq<char>, width: nat, i: int)
    ensures
        s.is_prefix_of(padded(s, width)),
        padded(s, width).len() >= s.len(),
        padded(s, width).len() >= width,
        padded(s, width).len() == s.len() || padded(s, width).len() == width,
        s.len() <= i < padded(s, width).len() ==> padded(s, width)[i] == ' ',
{
    assert(padded(s, width).subrange(0, s.len() as int) =~= s);
}

/// A survey on orchdi lists every supervisor with its process and whether it runs.
pub proof fn law_surveys_list_the_supervisors(
    rows: Seq<supervisors::RowView>,
    row: supervisors::RowView,
)
    ensures
        supervisors::shown(Seq::empty(), false) == "no orchdi services\n"@,
        rows.len() > 0 ==> supervisors::shown(rows, false) == supervisors::text_rows(rows),
        supervisors::text_rows(Seq::empty()) == Seq::<char>::empty(),
        supervisors::text_rows(rows.push(row)) == supervisors::text_rows(rows) + (padded(
            row.label,
            28,
        ) + " "@ + padded(
            match row.pid {
                Some(p) => signed_decimal(p as int),
                None => "-"@,
            },
            8,
        ) + " "@ + (if row.running {
            "running\n"@
        } else {
            "stopped\n"@
        })),
        supervisors::shown(rows, true) == "["@ + supervisors::json_rows(rows) + "]\n"@,
        supervisors::json_rows(Seq::empty()) == Seq::<char>::empty(),
        supervisors::json_rows(rows.push(row)) == (if rows.len() == 0 {
            Seq::empty()
        } else {
            supervisors::json_rows(rows) + ","@
        }) + ("{\"label\":\""@ + row.label + "\",\"pid\":"@ + signed_decimal(
            match row.pid {
                Some(p) => p as int,
                None => 0,
            },
        ) + ",\"running\":"@ + (if row.running {
            "true"@
        } else {
            "false"@
        }) + "}"@),
{
    let more = rows.push(row);
    assert(more.drop_last() =~= rows);
    if rows.len() == 0 {
        assert(supervisors::json_rows(more) =~= Seq::empty() + supervisors::json_row(row));
    }
}

/// A pid file holds a number, with or without white space around it; a file that
/// is missing or holds anything else gives no process.
pub proof fn law_pid_files_hold_a_number(n: nat, text: Seq<char>)
    requires
        n <= i32::MAX,
    ensures
        supervisors::pid_of(None) is None,
        trimmed(text) == decimal(n) ==> supervisors::pid_of(Some(text)) == Some(n as int),
        trimmed(text).len() == 0 ==> supervisors::pid_of(Some(text)) is None,
{
    lemma_decimal_round_trip(n, 0x7fff_ffff);
    assert(crate::text::number::is_digit(decimal(n)[0]));
}

/// Felling on orchdi takes the specs and the pid files of the namespace, and then
/// their directories if they are empty.
pub proof fn law_felling_takes_specs_and_pid_files(
    specs: Seq<Seq<char>>,
    pids: Seq<Seq<char>>,
    name: Seq<char>,
    ext: Seq<char>,
    dir: Seq<char>,
    config: &Config,
)
    ensures
        removals(specs, pids, config) == removed(
            specs,
            "json"@,
            under(config.state_dir@, "supervise"@),
            config.namespace@,
        ) + removed(pids, "pid"@, under(config.state_dir@, "run"@), config.namespace@) + seq![
            RemovalView::EmptyDirectory { path: under(config.state_dir@, "supervise"@) },
            RemovalView::EmptyDirectory { path: under(config.state_dir@, "run"@) },
        ],
        removed(Seq::empty(), ext, dir, config.namespace@) == Seq::<RemovalView>::empty(),
        removed(specs.push(name), ext, dir, config.namespace@) == removed(
            specs,
            ext,
            dir,
            config.namespace@,
        ) + (if extension(name) == Some(ext) && (config.namespace@ + "."@).is_prefix_of(
            stem(name),
        ) {
            seq![RemovalView::File { path: under(dir, name) }]
        } else {
            seq![]
        }),
{
    assert(specs.push(name).drop_last() =~= specs);
    assert(removed(specs.push(name), ext, dir, config.namespace@) =~= removed(
        specs,
        ext,
        dir,
        config.namespace@,
    ) + (if extension(name) == Some(ext) && (config.namespace@ + "."@).is_prefix_of(stem(name)) {
        seq![RemovalView::File { path: under(dir, name) }]
    } else {
        seq![]
    }));
}

/// Ready gates are not surveyed: they are no services.
pub proof fn law_gates_are_no_services(namespace: Seq<char>, service: Seq<char>)
    ensures
        !units::is_service_file(namespace + "-"@ + service + "-ready.service"@, namespace),
{
    let head = namespace + "-"@ + service;
    let file = head + "-ready.service"@;
    let n = head.len() as int;
    assert(file.subrange(n, n + "-ready.service"@.len()) =~= "-ready.service"@);
}

/// A survey asks about every unit of a service of the namespace, and about nothing
/// else.
pub proof fn law_surveys_ask_about_the_services(
    files: Seq<Seq<char>>,
    file: Seq<char>,
    namespace: Seq<char>,
)
    ensures
        units::surveyed(Seq::empty(), namespace) == Seq::<Seq<char>>::empty(),
        units::surveyed(files.push(file), namespace) == units::surveyed(files, namespace) + (
        if (namespace + "-"@).is_prefix_of(file) && ".service"@.is_suffix_of(file) && !occurs(
            "-ready.service"@,
            file,
        ) {
            seq![file]
        } else {
            seq![]
        }),
{
    assert(files.push(file).drop_last() =~= files);
    assert(units::surveyed(files.push(file), namespace) =~= units::surveyed(files, namespace) + (
    if (namespace + "-"@).is_prefix_of(file) && ".service"@.is_suffix_of(file) && !occurs(
        "-ready.service"@,
        file,
    ) {
        seq![file]
    } else {
        seq![]
    }));
}

/// A number below zero is written with a minus sign.
pub proof fn law_signs_are_written(n: nat)
    ensures
        signed_decimal(n as int) == decimal(n),
        n > 0 ==> signed_decimal(-(n as int)) == "-"@ + decimal(n),
{
}

} // verus!
