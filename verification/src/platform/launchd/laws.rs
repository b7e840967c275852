//! What the job of a service says, key by key.

use crate::collections::lists;
use crate::config::{Config, Scope};
use crate::exec::ExecSetView;
use crate::keyed::{lemma_piece, lemma_values_add, listed, pick, values};
use crate::orchard::ArtifactView;
use crate::orchdi::{
    dep_gates, label_of, optional_duration, spec_path, supervise_spec_of, GateView,
};
use crate::paths::{extension, under};
use crate::platform::launchd::environment::variables;
use crate::platform::launchd::generate::{
    environment, exit_timeout, flag_entry, job, keep_alive, log_dir_of, log_path,
    program_arguments, resource_limits, text_entry, throttle, user_name, working_directory,
    JobEntry,
};
use crate::platform::launchd::lifecycle::{
    bootout_call, bootstrap_call, job_state, kickstart_call, label_of_file, labels_of, service_of_label,
    start_at, start_next, state_of, stop_calls, tail_args, target_of, uid_of, with_line, JobState,
    StartPhase,
};
use crate::platform::launchd::plist::{
    document, entry_lines, escaped, item_lines, pair_lines, scalar_line, value_lines, ScalarView,
    ValueView,
};
use crate::platform::launchd::{
    copies, installed_plist, jobs_home, launchctl_found, launchd_artifacts, removals, removed,
    specs_for, unloaded,
};
use crate::platform::{
    Host, InvocationView, OutcomeView, PlacementView, PlatformErrorView, RemovalView,
};
use crate::text::number::{decimal, lemma_decimal_round_trip};
use crate::text::scan::{lines, trimmed, without_suffixes};
use crate::types::{RestartPolicy, ServiceView};
use vstd::prelude::*;

verus! {

/// The keys of a job differ.
proof fn lemma_keys()
    ensures
        "Label"@.len() == 5,
        "ProgramArguments"@.len() == 16 && "ProgramArguments"@[0] == 'P',
        "RunAtLoad"@.len() == 9 && "RunAtLoad"@[0] == 'R',
        "KeepAlive"@.len() == 9 && "KeepAlive"@[0] == 'K',
        "ThrottleInterval"@.len() == 16 && "ThrottleInterval"@[0] == 'T',
        "WorkingDirectory"@.len() == 16 && "WorkingDirectory"@[0] == 'W',
        "EnvironmentVariables"@.len() == 20,
        "UserName"@.len() == 8,
        "StandardOutPath"@.len() == 15,
        "StandardErrorPath"@.len() == 17,
        "SoftResourceLimits"@.len() == 18,
        "ProcessType"@.len() == 11 && "ProcessType"@[0] == 'P',
        "ExitTimeOut"@.len() == 11 && "ExitTimeOut"@[0] == 'E',
{
    reveal_strlit("Label");
    reveal_strlit("ProgramArguments");
    reveal_strlit("RunAtLoad");
    reveal_strlit("KeepAlive");
    reveal_strlit("ThrottleInterval");
    reveal_strlit("WorkingDirectory");
    reveal_strlit("EnvironmentVariables");
    reveal_strlit("UserName");
    reveal_strlit("StandardOutPath");
    reveal_strlit("StandardErrorPath");
    reveal_strlit("SoftResourceLimits");
    reveal_strlit("ProcessType");
    reveal_strlit("ExitTimeOut");
}

/// A text as a value.
pub open spec fn text(s: Seq<char>) -> ValueView {
    ValueView::Scalar(ScalarView::Text(s))
}

/// A number as a value.
pub open spec fn count(n: nat) -> ValueView {
    ValueView::Scalar(ScalarView::Number(n))
}

/// Whether a service runs under the supervisor: something has to be waited for or
/// torn down.
pub open spec fn supervised(exec_set: ExecSetView, deps: Seq<GateView>) -> bool {
    deps.len() > 0 || exec_set.stop is Some || exec_set.post_stop is Some
}

/// Where one of the output streams goes.
pub open spec fn stream(
    chosen: Option<Seq<char>>,
    config: &Config,
    host: &Host,
    name: Seq<char>,
    suffix: Seq<char>,
) -> Seq<char> {
    let home = match host.home {
        Some(h) => h@,
        None => "/tmp"@,
    };
    let dir = if config.scope == Scope::User {
        home + "/Library/Logs"@
    } else {
        "/Library/Logs"@
    };
    match chosen {
        Some(p) => under(config.project_dir@, p),
        None => dir + "/"@ + config.namespace@ + "."@ + name + suffix,
    }
}

spec fn told_label(
    service: ServiceView,
    exec_set: ExecSetView,
    config: &Config,
    host: &Host,
    deps: Seq<GateView>,
) -> Seq<ValueView> {
    seq![text(config.namespace@ + "."@ + service.name)]
}

spec fn told_arguments(
    service: ServiceView,
    exec_set: ExecSetView,
    config: &Config,
    host: &Host,
    deps: Seq<GateView>,
) -> Seq<ValueView> {
    seq![
            ValueView::Array(
                if supervised(exec_set, deps) {
                    seq![
                        match host.exe {
                            Some(exe) => exe@,
                            None => "orchd"@,
                        },
                        "supervise"@,
                        "--spec"@,
                        under(
                            under(config.state_dir@, "supervise"@),
                            config.namespace@ + "."@ + service.name + ".json"@,
                        ),
                    ]
                } else {
                    seq![
                        "/bin/bash"@,
                        "-c"@,
                        match exec_set.pre_start {
                            Some(pre) => pre + " && exec "@ + exec_set.start,
                            None => "exec "@ + exec_set.start,
                        },
                    ]
                },
            ),
        ]
}

spec fn told_loading(
    service: ServiceView,
    exec_set: ExecSetView,
    config: &Config,
    host: &Host,
    deps: Seq<GateView>,
) -> Seq<ValueView> {
    seq![ValueView::Scalar(ScalarView::Flag(true))]
}

spec fn told_keeping(
    service: ServiceView,
    exec_set: ExecSetView,
    config: &Config,
    host: &Host,
    deps: Seq<GateView>,
) -> Seq<ValueView> {
    if service.oneshot || service.restart.policy == RestartPolicy::No {
            seq![]
        } else if service.restart.policy == RestartPolicy::Always {
            seq![ValueView::Scalar(ScalarView::Flag(true))]
        } else {
            seq![ValueView::Dict(seq![("SuccessfulExit"@, ScalarView::Flag(false))])]
        }
}

spec fn told_throttle(
    service: ServiceView,
    exec_set: ExecSetView,
    config: &Config,
    host: &Host,
    deps: Seq<GateView>,
) -> Seq<ValueView> {
    listed(optional_duration(service.restart.delay)).map_values(|n: nat| count(n))
}

spec fn told_place(
    service: ServiceView,
    exec_set: ExecSetView,
    config: &Config,
    host: &Host,
    deps: Seq<GateView>,
) -> Seq<ValueView> {
    listed(service.workdir).map_values(|d: Seq<char>| text(under(config.project_dir@, d)))
}

spec fn told_variables(
    service: ServiceView,
    exec_set: ExecSetView,
    config: &Config,
    host: &Host,
    deps: Seq<GateView>,
) -> Seq<ValueView> {
    seq![ValueView::Dict(environment(variables(service, config.project_dir@, host.files@)))]
}

spec fn told_user(
    service: ServiceView,
    exec_set: ExecSetView,
    config: &Config,
    host: &Host,
    deps: Seq<GateView>,
) -> Seq<ValueView> {
    listed(service.user).map_values(|u: Seq<char>| text(u))
}

spec fn told_out(
    service: ServiceView,
    exec_set: ExecSetView,
    config: &Config,
    host: &Host,
    deps: Seq<GateView>,
) -> Seq<ValueView> {
    seq![text(stream(service.logging.stdout, config, host, service.name, ".out.log"@))]
}

spec fn told_err(
    service: ServiceView,
    exec_set: ExecSetView,
    config: &Config,
    host: &Host,
    deps: Seq<GateView>,
) -> Seq<ValueView> {
    seq![text(stream(service.logging.stderr, config, host, service.name, ".err.log"@))]
}

spec fn told_limits(
    service: ServiceView,
    exec_set: ExecSetView,
    config: &Config,
    host: &Host,
    deps: Seq<GateView>,
) -> Seq<ValueView> {
    if service.resources.limit_nofile is None && service.resources.limit_nproc is None {
            seq![]
        } else {
            seq![
                ValueView::Dict(
                    listed(service.resources.limit_nofile).map_values(
                        |n: u64| ("NumberOfFiles"@, ScalarView::Number(n as nat)),
                    ) + listed(service.resources.limit_nproc).map_values(
                        |n: u64| ("NumberOfProcesses"@, ScalarView::Number(n as nat)),
                    ),
                ),
            ]
        }
}

spec fn told_kind(
    service: ServiceView,
    exec_set: ExecSetView,
    config: &Config,
    host: &Host,
    deps: Seq<GateView>,
) -> Seq<ValueView> {
    seq![text("Interactive"@)]
}

spec fn told_exit(
    service: ServiceView,
    exec_set: ExecSetView,
    config: &Config,
    host: &Host,
    deps: Seq<GateView>,
) -> Seq<ValueView> {
    match optional_duration(service.timeouts.stop) {
            Some(n) => seq![count(n)],
            None => if exec_set.stop is Some || exec_set.post_stop is Some {
                seq![count(30)]
            } else {
                seq![]
            },
        }
}

spec fn part_main(
    service: ServiceView,
    exec_set: ExecSetView,
    config: &Config,
    host: &Host,
    deps: Seq<GateView>,
) -> Seq<JobEntry> {
    let label = label_of(config.namespace@, service.name);
    let dir = log_dir_of(config.scope, host.home.deep_view());
    let args = program_arguments(
        exec_set,
        deps,
        host.exe.deep_view(),
        spec_path(config.state_dir@, label),
    );
    seq![
        text_entry("Label"@, label),
        ("ProgramArguments"@, ValueView::Array(args)),
        flag_entry("RunAtLoad"@, true),
    ]
}

proof fn lemma_part_main(
    service: ServiceView,
    exec_set: ExecSetView,
    config: &Config,
    host: &Host,
    deps: Seq<GateView>,
    key: Seq<char>,
)
    ensures
        values(part_main(service, exec_set, config, host, deps), key) == pick("Label"@, told_label(service, exec_set, config, host, deps), key) + pick("ProgramArguments"@, told_arguments(service, exec_set, config, host, deps), key) + pick("RunAtLoad"@, told_loading(service, exec_set, config, host, deps), key),
{
    let p = part_main(service, exec_set, config, host, deps);
    let q0: Seq<JobEntry> = seq![p[0]];
    assert(p[0].1 =~~= told_label(service, exec_set, config, host, deps)[0]);
    assert(q0[0] == ("Label"@, told_label(service, exec_set, config, host, deps)[0]));
    lemma_piece(q0, "Label"@, told_label(service, exec_set, config, host, deps), key);
    let q1: Seq<JobEntry> = seq![p[1]];
    assert(p[1].1 =~~= told_arguments(service, exec_set, config, host, deps)[0]);
    assert(q1[0] == ("ProgramArguments"@, told_arguments(service, exec_set, config, host, deps)[0]));
    lemma_piece(q1, "ProgramArguments"@, told_arguments(service, exec_set, config, host, deps), key);
    lemma_values_add(q0, q1, key);
    let q2: Seq<JobEntry> = seq![p[2]];
    assert(p[2].1 =~~= told_loading(service, exec_set, config, host, deps)[0]);
    assert(q2[0] == ("RunAtLoad"@, told_loading(service, exec_set, config, host, deps)[0]));
    lemma_piece(q2, "RunAtLoad"@, told_loading(service, exec_set, config, host, deps), key);
    lemma_values_add((q0 + q1), q2, key);
    assert(p =~= ((q0 + q1) + q2));
}

spec fn part_again(
    service: ServiceView,
    exec_set: ExecSetView,
    config: &Config,
    host: &Host,
    deps: Seq<GateView>,
) -> Seq<JobEntry> {
    let label = label_of(config.namespace@, service.name);
    let dir = log_dir_of(config.scope, host.home.deep_view());
    let args = program_arguments(
        exec_set,
        deps,
        host.exe.deep_view(),
        spec_path(config.state_dir@, label),
    );
    keep_alive(service)
}

proof fn lemma_part_again(
    service: ServiceView,
    exec_set: ExecSetView,
    config: &Config,
    host: &Host,
    deps: Seq<GateView>,
    key: Seq<char>,
)
    ensures
        values(part_again(service, exec_set, config, host, deps), key) == pick("KeepAlive"@, told_keeping(service, exec_set, config, host, deps), key),
{
    let p = part_again(service, exec_set, config, host, deps);
    assert(p.len() == told_keeping(service, exec_set, config, host, deps).len());
    if p.len() > 0 {
        assert(p[0].1 =~~= told_keeping(service, exec_set, config, host, deps)[0]);
        assert(p[0] == ("KeepAlive"@, told_keeping(service, exec_set, config, host, deps)[0]));
    }
    lemma_piece(p, "KeepAlive"@, told_keeping(service, exec_set, config, host, deps), key);
}

spec fn part_throttle(
    service: ServiceView,
    exec_set: ExecSetView,
    config: &Config,
    host: &Host,
    deps: Seq<GateView>,
) -> Seq<JobEntry> {
    let label = label_of(config.namespace@, service.name);
    let dir = log_dir_of(config.scope, host.home.deep_view());
    let args = program_arguments(
        exec_set,
        deps,
        host.exe.deep_view(),
        spec_path(config.state_dir@, label),
    );
    throttle(service)
}

proof fn lemma_part_throttle(
    service: ServiceView,
    exec_set: ExecSetView,
    config: &Config,
    host: &Host,
    deps: Seq<GateView>,
    key: Seq<char>,
)
    ensures
        values(part_throttle(service, exec_set, config, host, deps), key) == pick("ThrottleInterval"@, told_throttle(service, exec_set, config, host, deps), key),
{
    let p = part_throttle(service, exec_set, config, host, deps);
    assert(p.len() == told_throttle(service, exec_set, config, host, deps).len());
    if p.len() > 0 {
        assert(p[0].1 =~~= told_throttle(service, exec_set, config, host, deps)[0]);
        assert(p[0] == ("ThrottleInterval"@, told_throttle(service, exec_set, config, host, deps)[0]));
    }
    lemma_piece(p, "ThrottleInterval"@, told_throttle(service, exec_set, config, host, deps), key);
}

spec fn part_place(
    service: ServiceView,
    exec_set: ExecSetView,
    config: &Config,
    host: &Host,
    deps: Seq<GateView>,
) -> Seq<JobEntry> {
    let label = label_of(config.namespace@, service.name);
    let dir = log_dir_of(config.scope, host.home.deep_view());
    let args = program_arguments(
        exec_set,
        deps,
        host.exe.deep_view(),
        spec_path(config.state_dir@, label),
    );
    working_directory(service, config.project_dir@)
}

proof fn lemma_part_place(
    service: ServiceView,
    exec_set: ExecSetView,
    config: &Config,
    host: &Host,
    deps: Seq<GateView>,
    key: Seq<char>,
)
    ensures
        values(part_place(service, exec_set, config, host, deps), key) == pick("WorkingDirectory"@, told_place(service, exec_set, config, host, deps), key),
{
    let p = part_place(service, exec_set, config, host, deps);
    assert(p.len() == told_place(service, exec_set, config, host, deps).len());
    if p.len() > 0 {
        assert(p[0].1 =~~= told_place(service, exec_set, config, host, deps)[0]);
        assert(p[0] == ("WorkingDirectory"@, told_place(service, exec_set, config, host, deps)[0]));
    }
    lemma_piece(p, "WorkingDirectory"@, told_place(service, exec_set, config, host, deps), key);
}

spec fn part_variables(
    service: ServiceView,
    exec_set: ExecSetView,
    config: &Config,
    host: &Host,
    deps: Seq<GateView>,
) -> Seq<JobEntry> {
    let label = label_of(config.namespace@, service.name);
    let dir = log_dir_of(config.scope, host.home.deep_view());
    let args = program_arguments(
        exec_set,
        deps,
        host.exe.deep_view(),
        spec_path(config.state_dir@, label),
    );
    seq![
        (
            "EnvironmentVariables"@,
            ValueView::Dict(environment(variables(service, config.project_dir@, host.files@))),
        ),
    ]
}

proof fn lemma_part_variables(
    service: ServiceView,
    exec_set: ExecSetView,
    config: &Config,
    host: &Host,
    deps: Seq<GateView>,
    key: Seq<char>,
)
    ensures
        values(part_variables(service, exec_set, config, host, deps), key) == pick("EnvironmentVariables"@, told_variables(service, exec_set, config, host, deps), key),
{
    let p = part_variables(service, exec_set, config, host, deps);
    assert(p.len() == told_variables(service, exec_set, config, host, deps).len());
    if p.len() > 0 {
        assert(p[0].1 =~~= told_variables(service, exec_set, config, host, deps)[0]);
        assert(p[0] == ("EnvironmentVariables"@, told_variables(service, exec_set, config, host, deps)[0]));
    }
    lemma_piece(p, "EnvironmentVariables"@, told_variables(service, exec_set, config, host, deps), key);
}

spec fn part_user(
    service: ServiceView,
    exec_set: ExecSetView,
    config: &Config,
    host: &Host,
    deps: Seq<GateView>,
) -> Seq<JobEntry> {
    let label = label_of(config.namespace@, service.name);
    let dir = log_dir_of(config.scope, host.home.deep_view());
    let args = program_arguments(
        exec_set,
        deps,
        host.exe.deep_view(),
        spec_path(config.state_dir@, label),
    );
    user_name(service)
}

proof fn lemma_part_user(
    service: ServiceView,
    exec_set: ExecSetView,
    config: &Config,
    host: &Host,
    deps: Seq<GateView>,
    key: Seq<char>,
)
    ensures
        values(part_user(service, exec_set, config, host, deps), key) == pick("UserName"@, told_user(service, exec_set, config, host, deps), key),
{
    let p = part_user(service, exec_set, config, host, deps);
    assert(p.len() == told_user(service, exec_set, config, host, deps).len());
    if p.len() > 0 {
        assert(p[0].1 =~~= told_user(service, exec_set, config, host, deps)[0]);
        assert(p[0] == ("UserName"@, told_user(service, exec_set, config, host, deps)[0]));
    }
    lemma_piece(p, "UserName"@, told_user(service, exec_set, config, host, deps), key);
}

spec fn part_streams(
    service: ServiceView,
    exec_set: ExecSetView,
    config: &Config,
    host: &Host,
    deps: Seq<GateView>,
) -> Seq<JobEntry> {
    let label = label_of(config.namespace@, service.name);
    let dir = log_dir_of(config.scope, host.home.deep_view());
    let args = program_arguments(
        exec_set,
        deps,
        host.exe.deep_view(),
        spec_path(config.state_dir@, label),
    );
    seq![
        text_entry(
            "StandardOutPath"@,
            log_path(service.logging.stdout, config.project_dir@, dir, label, ".out.log"@),
        ),
        text_entry(
            "StandardErrorPath"@,
            log_path(service.logging.stderr, config.project_dir@, dir, label, ".err.log"@),
        ),
    ]
}

proof fn lemma_part_streams(
    service: ServiceView,
    exec_set: ExecSetView,
    config: &Config,
    host: &Host,
    deps: Seq<GateView>,
    key: Seq<char>,
)
    ensures
        values(part_streams(service, exec_set, config, host, deps), key) == pick("StandardOutPath"@, told_out(service, exec_set, config, host, deps), key) + pick("StandardErrorPath"@, told_err(service, exec_set, config, host, deps), key),
{
    let p = part_streams(service, exec_set, config, host, deps);
    let q0: Seq<JobEntry> = seq![p[0]];
    assert(p[0].1 =~~= told_out(service, exec_set, config, host, deps)[0]);
    assert(q0[0] == ("StandardOutPath"@, told_out(service, exec_set, config, host, deps)[0]));
    lemma_piece(q0, "StandardOutPath"@, told_out(service, exec_set, config, host, deps), key);
    let q1: Seq<JobEntry> = seq![p[1]];
    assert(p[1].1 =~~= told_err(service, exec_set, config, host, deps)[0]);
    assert(q1[0] == ("StandardErrorPath"@, told_err(service, exec_set, config, host, deps)[0]));
    lemma_piece(q1, "StandardErrorPath"@, told_err(service, exec_set, config, host, deps), key);
    lemma_values_add(q0, q1, key);
    assert(p =~= (q0 + q1));
}

spec fn part_limits(
    service: ServiceView,
    exec_set: ExecSetView,
    config: &Config,
    host: &Host,
    deps: Seq<GateView>,
) -> Seq<JobEntry> {
    let label = label_of(config.namespace@, service.name);
    let dir = log_dir_of(config.scope, host.home.deep_view());
    let args = program_arguments(
        exec_set,
        deps,
        host.exe.deep_view(),
        spec_path(config.state_dir@, label),
    );
    resource_limits(service)
}

proof fn lemma_part_limits(
    service: ServiceView,
    exec_set: ExecSetView,
    config: &Config,
    host: &Host,
    deps: Seq<GateView>,
    key: Seq<char>,
)
    ensures
        values(part_limits(service, exec_set, config, host, deps), key) == pick("SoftResourceLimits"@, told_limits(service, exec_set, config, host, deps), key),
{
    let p = part_limits(service, exec_set, config, host, deps);
    assert(p.len() == told_limits(service, exec_set, config, host, deps).len());
    if p.len() > 0 {
        assert(p[0].1 =~~= told_limits(service, exec_set, config, host, deps)[0]);
        assert(p[0] == ("SoftResourceLimits"@, told_limits(service, exec_set, config, host, deps)[0]));
    }
    lemma_piece(p, "SoftResourceLimits"@, told_limits(service, exec_set, config, host, deps), key);
}

spec fn part_kind(
    service: ServiceView,
    exec_set: ExecSetView,
    config: &Config,
    host: &Host,
    deps: Seq<GateView>,
) -> Seq<JobEntry> {
    let label = label_of(config.namespace@, service.name);
    let dir = log_dir_of(config.scope, host.home.deep_view());
    let args = program_arguments(
        exec_set,
        deps,
        host.exe.deep_view(),
        spec_path(config.state_dir@, label),
    );
    seq![text_entry("ProcessType"@, "Interactive"@)]
}

proof fn lemma_part_kind(
    service: ServiceView,
    exec_set: ExecSetView,
    config: &Config,
    host: &Host,
    deps: Seq<GateView>,
    key: Seq<char>,
)
    ensures
        values(part_kind(service, exec_set, config, host, deps), key) == pick("ProcessType"@, told_kind(service, exec_set, config, host, deps), key),
{
    let p = part_kind(service, exec_set, config, host, deps);
    assert(p.len() == told_kind(service, exec_set, config, host, deps).len());
    if p.len() > 0 {
        assert(p[0].1 =~~= told_kind(service, exec_set, config, host, deps)[0]);
        assert(p[0] == ("ProcessType"@, told_kind(service, exec_set, config, host, deps)[0]));
    }
    lemma_piece(p, "ProcessType"@, told_kind(service, exec_set, config, host, deps), key);
}

spec fn part_exit(
    service: ServiceView,
    exec_set: ExecSetView,
    config: &Config,
    host: &Host,
    deps: Seq<GateView>,
) -> Seq<JobEntry> {
    let label = label_of(config.namespace@, service.name);
    let dir = log_dir_of(config.scope, host.home.deep_view());
    let args = program_arguments(
        exec_set,
        deps,
        host.exe.deep_view(),
        spec_path(config.state_dir@, label),
    );
    exit_timeout(service, exec_set)
}

proof fn lemma_part_exit(
    service: ServiceView,
    exec_set: ExecSetView,
    config: &Config,
    host: &Host,
    deps: Seq<GateView>,
    key: Seq<char>,
)
    ensures
        values(part_exit(service, exec_set, config, host, deps), key) == pick("ExitTimeOut"@, told_exit(service, exec_set, config, host, deps), key),
{
    let p = part_exit(service, exec_set, config, host, deps);
    assert(p.len() == told_exit(service, exec_set, config, host, deps).len());
    if p.len() > 0 {
        assert(p[0].1 =~~= told_exit(service, exec_set, config, host, deps)[0]);
        assert(p[0] == ("ExitTimeOut"@, told_exit(service, exec_set, config, host, deps)[0]));
    }
    lemma_piece(p, "ExitTimeOut"@, told_exit(service, exec_set, config, host, deps), key);
}

proof fn lemma_job_values(
    service: ServiceView,
    exec_set: ExecSetView,
    config: &Config,
    host: &Host,
    deps: Seq<GateView>,
    key: Seq<char>,
)
    ensures
        values(job(service, exec_set, config, host, deps), key) == (pick("Label"@, told_label(service, exec_set, config, host, deps), key) + pick("ProgramArguments"@, told_arguments(service, exec_set, config, host, deps), key) + pick("RunAtLoad"@, told_loading(service, exec_set, config, host, deps), key))
            + (pick("KeepAlive"@, told_keeping(service, exec_set, config, host, deps), key))
            + (pick("ThrottleInterval"@, told_throttle(service, exec_set, config, host, deps), key))
            + (pick("WorkingDirectory"@, told_place(service, exec_set, config, host, deps), key))
            + (pick("EnvironmentVariables"@, told_variables(service, exec_set, config, host, deps), key))
            + (pick("UserName"@, told_user(service, exec_set, config, host, deps), key))
            + (pick("StandardOutPath"@, told_out(service, exec_set, config, host, deps), key) + pick("StandardErrorPath"@, told_err(service, exec_set, config, host, deps), key))
            + (pick("SoftResourceLimits"@, told_limits(service, exec_set, config, host, deps), key))
            + (pick("ProcessType"@, told_kind(service, exec_set, config, host, deps), key))
            + (pick("ExitTimeOut"@, told_exit(service, exec_set, config, host, deps), key)),
{
    let p0 = part_main(service, exec_set, config, host, deps);
    lemma_part_main(service, exec_set, config, host, deps, key);
    let p1 = part_again(service, exec_set, config, host, deps);
    lemma_part_again(service, exec_set, config, host, deps, key);
    let p2 = part_throttle(service, exec_set, config, host, deps);
    lemma_part_throttle(service, exec_set, config, host, deps, key);
    let p3 = part_place(service, exec_set, config, host, deps);
    lemma_part_place(service, exec_set, config, host, deps, key);
    let p4 = part_variables(service, exec_set, config, host, deps);
    lemma_part_variables(service, exec_set, config, host, deps, key);
    let p5 = part_user(service, exec_set, config, host, deps);
    lemma_part_user(service, exec_set, config, host, deps, key);
    let p6 = part_streams(service, exec_set, config, host, deps);
    lemma_part_streams(service, exec_set, config, host, deps, key);
    let p7 = part_limits(service, exec_set, config, host, deps);
    lemma_part_limits(service, exec_set, config, host, deps, key);
    let p8 = part_kind(service, exec_set, config, host, deps);
    lemma_part_kind(service, exec_set, config, host, deps, key);
    let p9 = part_exit(service, exec_set, config, host, deps);
    lemma_part_exit(service, exec_set, config, host, deps, key);
    let s1 = p0 + p1;
    lemma_values_add(p0, p1, key);
    let s2 = s1 + p2;
    lemma_values_add(s1, p2, key);
    let s3 = s2 + p3;
    lemma_values_add(s2, p3, key);
    let s4 = s3 + p4;
    lemma_values_add(s3, p4, key);
    let s5 = s4 + p5;
    lemma_values_add(s4, p5, key);
    let s6 = s5 + p6;
    lemma_values_add(s5, p6, key);
    let s7 = s6 + p7;
    lemma_values_add(s6, p7, key);
    let s8 = s7 + p8;
    lemma_values_add(s7, p8, key);
    let s9 = s8 + p9;
    lemma_values_add(s8, p9, key);
    assert(job(service, exec_set, config, host, deps) == s9);
}

/// A job runs its service under its label as soon as it is loaded. Where something
/// has to be waited for or torn down, it runs the supervisor with the spec of the
/// service. Otherwise the shell runs the command that is to precede the service,
/// and then gives way to the service.
pub proof fn law_jobs_run_the_service(
    service: ServiceView,
    exec_set: ExecSetView,
    config: &Config,
    host: &Host,
    deps: Seq<GateView>,
)
    ensures
        values(job(service, exec_set, config, host, deps), "Label"@) == (seq![text(config.namespace@ + "."@ + service.name)]),
        values(job(service, exec_set, config, host, deps), "ProgramArguments"@) == (seq![
            ValueView::Array(
                if supervised(exec_set, deps) {
                    seq![
                        match host.exe {
                            Some(exe) => exe@,
                            None => "orchd"@,
                        },
                        "supervise"@,
                        "--spec"@,
                        under(
                            under(config.state_dir@, "supervise"@),
                            config.namespace@ + "."@ + service.name + ".json"@,
                        ),
                    ]
                } else {
                    seq![
                        "/bin/bash"@,
                        "-c"@,
                        match exec_set.pre_start {
                            Some(pre) => pre + " && exec "@ + exec_set.start,
                            None => "exec "@ + exec_set.start,
                        },
                    ]
                },
            ),
        ]),
        values(job(service, exec_set, config, host, deps), "RunAtLoad"@) == (seq![ValueView::Scalar(ScalarView::Flag(true))]),
        values(job(service, exec_set, config, host, deps), "ProcessType"@) == (seq![text("Interactive"@)]),
{
    lemma_keys();
    assert(values(job(service, exec_set, config, host, deps), "Label"@) =~= told_label(service, exec_set, config, host, deps)) by {
        lemma_job_values(service, exec_set, config, host, deps, "Label"@);
    }
    assert(values(job(service, exec_set, config, host, deps), "ProgramArguments"@) =~= told_arguments(service, exec_set, config, host, deps)) by {
        lemma_job_values(service, exec_set, config, host, deps, "ProgramArguments"@);
    }
    assert(values(job(service, exec_set, config, host, deps), "RunAtLoad"@) =~= told_loading(service, exec_set, config, host, deps)) by {
        lemma_job_values(service, exec_set, config, host, deps, "RunAtLoad"@);
    }
    assert(values(job(service, exec_set, config, host, deps), "ProcessType"@) =~= told_kind(service, exec_set, config, host, deps)) by {
        lemma_job_values(service, exec_set, config, host, deps, "ProcessType"@);
    }
}

/// A job is started again by the policy of its service, and a oneshot never. It is
/// given as long to exit as the service asks for, or 30 seconds where something is
/// torn down.
pub proof fn law_jobs_restart_as_told(
    service: ServiceView,
    exec_set: ExecSetView,
    config: &Config,
    host: &Host,
    deps: Seq<GateView>,
)
    ensures
        values(job(service, exec_set, config, host, deps), "KeepAlive"@) == (if service.oneshot || service.restart.policy == RestartPolicy::No {
            seq![]
        } else if service.restart.policy == RestartPolicy::Always {
            seq![ValueView::Scalar(ScalarView::Flag(true))]
        } else {
            seq![ValueView::Dict(seq![("SuccessfulExit"@, ScalarView::Flag(false))])]
        }),
        values(job(service, exec_set, config, host, deps), "ThrottleInterval"@) == (listed(optional_duration(service.restart.delay)).map_values(|n: nat| count(n))),
        values(job(service, exec_set, config, host, deps), "ExitTimeOut"@) == (match optional_duration(service.timeouts.stop) {
            Some(n) => seq![count(n)],
            None => if exec_set.stop is Some || exec_set.post_stop is Some {
                seq![count(30)]
            } else {
                seq![]
            },
        }),
{
    lemma_keys();
    assert(values(job(service, exec_set, config, host, deps), "KeepAlive"@) =~= told_keeping(service, exec_set, config, host, deps)) by {
        lemma_job_values(service, exec_set, config, host, deps, "KeepAlive"@);
    }
    assert(values(job(service, exec_set, config, host, deps), "ThrottleInterval"@) =~= told_throttle(service, exec_set, config, host, deps)) by {
        lemma_job_values(service, exec_set, config, host, deps, "ThrottleInterval"@);
    }
    assert(values(job(service, exec_set, config, host, deps), "ExitTimeOut"@) =~= told_exit(service, exec_set, config, host, deps)) by {
        lemma_job_values(service, exec_set, config, host, deps, "ExitTimeOut"@);
    }
}

/// A job runs its service as the user, in the directory, within the limits and with
/// the output files that the service names. What it does not name goes to a file of
/// its own among the logs.
pub proof fn law_jobs_set_the_scene(
    service: ServiceView,
    exec_set: ExecSetView,
    config: &Config,
    host: &Host,
    deps: Seq<GateView>,
)
    ensures
        values(job(service, exec_set, config, host, deps), "WorkingDirectory"@) == (listed(service.workdir).map_values(|d: Seq<char>| text(under(config.project_dir@, d)))),
        values(job(service, exec_set, config, host, deps), "UserName"@) == (listed(service.user).map_values(|u: Seq<char>| text(u))),
        values(job(service, exec_set, config, host, deps), "StandardOutPath"@) == (seq![text(stream(service.logging.stdout, config, host, service.name, ".out.log"@))]),
        values(job(service, exec_set, config, host, deps), "StandardErrorPath"@) == (seq![text(stream(service.logging.stderr, config, host, service.name, ".err.log"@))]),
        values(job(service, exec_set, config, host, deps), "SoftResourceLimits"@) == (if service.resources.limit_nofile is None && service.resources.limit_nproc is None {
            seq![]
        } else {
            seq![
                ValueView::Dict(
                    listed(service.resources.limit_nofile).map_values(
                        |n: u64| ("NumberOfFiles"@, ScalarView::Number(n as nat)),
                    ) + listed(service.resources.limit_nproc).map_values(
                        |n: u64| ("NumberOfProcesses"@, ScalarView::Number(n as nat)),
                    ),
                ),
            ]
        }),
{
    lemma_keys();
    assert(values(job(service, exec_set, config, host, deps), "WorkingDirectory"@) =~= told_place(service, exec_set, config, host, deps)) by {
        lemma_job_values(service, exec_set, config, host, deps, "WorkingDirectory"@);
    }
    assert(values(job(service, exec_set, config, host, deps), "UserName"@) =~= told_user(service, exec_set, config, host, deps)) by {
        lemma_job_values(service, exec_set, config, host, deps, "UserName"@);
    }
    assert(values(job(service, exec_set, config, host, deps), "StandardOutPath"@) =~= told_out(service, exec_set, config, host, deps)) by {
        lemma_job_values(service, exec_set, config, host, deps, "StandardOutPath"@);
    }
    assert(values(job(service, exec_set, config, host, deps), "StandardErrorPath"@) =~= told_err(service, exec_set, config, host, deps)) by {
        lemma_job_values(service, exec_set, config, host, deps, "StandardErrorPath"@);
    }
    assert(values(job(service, exec_set, config, host, deps), "SoftResourceLimits"@) =~= told_limits(service, exec_set, config, host, deps)) by {
        lemma_job_values(service, exec_set, config, host, deps, "SoftResourceLimits"@);
    }
}

/// A job has all variables of its service, and a search path where they hold none.
pub proof fn law_jobs_have_the_variables(
    service: ServiceView,
    exec_set: ExecSetView,
    config: &Config,
    host: &Host,
    deps: Seq<GateView>,
    i: int,
)
    ensures
        ({
            let vars = variables(service, config.project_dir@, host.files@);
            let found = values(job(service, exec_set, config, host, deps), "EnvironmentVariables"@);
            &&& found.len() == 1
            &&& found[0] matches ValueView::Dict(dict) && {
                let n = if lists(vars, "PATH"@) {
                    0int
                } else {
                    1
                };
                &&& dict.len() == vars.len() + n
                &&& n == 1 ==> dict[0] == (
                    "PATH"@,
                    ScalarView::Text(
                        "/usr/local/bin:/opt/homebrew/bin:/usr/bin:/bin:/usr/sbin:/sbin"@,
                    ),
                )
                &&& 0 <= i < vars.len() ==> dict[n + i] == (vars[i].0, ScalarView::Text(vars[i].1))
            }
        }),
{
    lemma_keys();
    assert(values(job(service, exec_set, config, host, deps), "EnvironmentVariables"@)
        =~= told_variables(service, exec_set, config, host, deps)) by {
        lemma_job_values(service, exec_set, config, host, deps, "EnvironmentVariables"@);
    }
}

/// A property list is a dictionary between a fixed head and a fixed foot. Each
/// entry is its key and then its value, below those before it.
pub proof fn law_documents_hold_the_entries(
    entries: Seq<JobEntry>,
    key: Seq<char>,
    value: ValueView,
)
    ensures
        document(entries)
            == "<?xml version=\"1.0\" encoding=\"UTF-8\"?>\n<!DOCTYPE plist PUBLIC \"-//Apple//DTD PLIST 1.0//EN\" \"http://www.apple.com/DTDs/PropertyList-1.0.dtd\">\n<plist version=\"1.0\">\n<dict>\n"@
            + entry_lines(entries) + "</dict>\n</plist>\n"@,
        entry_lines(Seq::empty()) == Seq::<char>::empty(),
        entry_lines(entries.push((key, value))) == entry_lines(entries) + ("  <key>"@ + escaped(key)
            + "</key>\n"@) + value_lines(value),
{
    reveal_strlit("<?xml version=\"1.0\" encoding=\"UTF-8\"?>\n");
    reveal_strlit(
        "<!DOCTYPE plist PUBLIC \"-//Apple//DTD PLIST 1.0//EN\" \"http://www.apple.com/DTDs/PropertyList-1.0.dtd\">\n",
    );
    reveal_strlit("<plist version=\"1.0\">\n");
    reveal_strlit("<dict>\n");
    reveal_strlit("</dict>\n");
    reveal_strlit("</plist>\n");
    reveal_strlit("</dict>\n</plist>\n");
    reveal_strlit(
        "<?xml version=\"1.0\" encoding=\"UTF-8\"?>\n<!DOCTYPE plist PUBLIC \"-//Apple//DTD PLIST 1.0//EN\" \"http://www.apple.com/DTDs/PropertyList-1.0.dtd\">\n<plist version=\"1.0\">\n<dict>\n",
    );
    reveal_strlit("  ");
    reveal_strlit("<key>");
    reveal_strlit("  <key>");
    let head = "<?xml version=\"1.0\" encoding=\"UTF-8\"?>\n"@
        + "<!DOCTYPE plist PUBLIC \"-//Apple//DTD PLIST 1.0//EN\" \"http://www.apple.com/DTDs/PropertyList-1.0.dtd\">\n"@
        + "<plist version=\"1.0\">\n"@ + "<dict>\n"@;
    assert(head
        =~= "<?xml version=\"1.0\" encoding=\"UTF-8\"?>\n<!DOCTYPE plist PUBLIC \"-//Apple//DTD PLIST 1.0//EN\" \"http://www.apple.com/DTDs/PropertyList-1.0.dtd\">\n<plist version=\"1.0\">\n<dict>\n"@);
    assert("</dict>\n"@ + "</plist>\n"@ =~= "</dict>\n</plist>\n"@);
    assert(head + entry_lines(entries) + "</dict>\n"@ + "</plist>\n"@ =~= head + entry_lines(
        entries,
    ) + ("</dict>\n"@ + "</plist>\n"@));
    let more = entries.push((key, value));
    assert(more.drop_last() =~= entries);
    assert("  "@ + "<key>"@ =~= "  <key>"@);
}

/// Each kind of value has its own markup, and texts are escaped.
pub proof fn law_values_have_their_markup(
    s: Seq<char>,
    n: nat,
    items: Seq<Seq<char>>,
    pairs: Seq<(Seq<char>, ScalarView)>,
    key: Seq<char>,
    v: ScalarView,
)
    ensures
        value_lines(text(s)) == "  <string>"@ + escaped(s) + "</string>\n"@,
        value_lines(count(n)) == "  <integer>"@ + decimal(n) + "</integer>\n"@,
        value_lines(ValueView::Scalar(ScalarView::Flag(true))) == "  <true/>\n"@,
        value_lines(ValueView::Scalar(ScalarView::Flag(false))) == "  <false/>\n"@,
        value_lines(ValueView::Array(items)) == "  <array>\n"@ + item_lines(items)
            + "  </array>\n"@,
        item_lines(Seq::empty()) == Seq::<char>::empty(),
        item_lines(items.push(s)) == item_lines(items) + ("    <string>"@ + escaped(s)
            + "</string>\n"@),
        value_lines(ValueView::Dict(pairs)) == "  <dict>\n"@ + pair_lines(pairs) + "  </dict>\n"@,
        pair_lines(Seq::empty()) == Seq::<char>::empty(),
        pair_lines(pairs.push((key, v))) == pair_lines(pairs) + ("    <key>"@ + escaped(key)
            + "</key>\n"@) + ("  "@ + value_lines(ValueView::Scalar(v))),
{
    reveal_strlit("  ");
    reveal_strlit("    ");
    reveal_strlit("<key>");
    reveal_strlit("    <key>");
    reveal_strlit("<string>");
    reveal_strlit("  <string>");
    reveal_strlit("    <string>");
    reveal_strlit("<integer>");
    reveal_strlit("  <integer>");
    reveal_strlit("<true/>\n");
    reveal_strlit("  <true/>\n");
    reveal_strlit("<false/>\n");
    reveal_strlit("  <false/>\n");
    assert("  "@ + "<string>"@ =~= "  <string>"@);
    assert("    "@ + "<string>"@ =~= "    <string>"@);
    assert("  "@ + "<integer>"@ =~= "  <integer>"@);
    assert("  "@ + "<true/>\n"@ =~= "  <true/>\n"@);
    assert("  "@ + "<false/>\n"@ =~= "  <false/>\n"@);
    assert("    "@ + "<key>"@ =~= "    <key>"@);
    assert(items.push(s).drop_last() =~= items);
    assert(pairs.push((key, v)).drop_last() =~= pairs);
    assert(item_lines(items.push(s)) =~= item_lines(items) + ("    <string>"@ + escaped(s)
        + "</string>\n"@));
    assert("    "@ =~= "  "@ + "  "@);
    assert(scalar_line("    "@, v) =~= "  "@ + scalar_line("  "@, v));
    assert(pair_lines(pairs.push((key, v))) =~= pair_lines(pairs) + ("    <key>"@ + escaped(key)
        + "</key>\n"@) + scalar_line("    "@, v));
}

/// The five characters that markup is made of are escaped, each as its entity, and
/// no other character is.
pub proof fn law_reserved_characters_are_entities(c: char, s: Seq<char>)
    ensures
        escaped(Seq::empty()) == Seq::<char>::empty(),
        escaped(seq![c] + s) == (match c {
            '&' => "&amp;"@,
            '<' => "&lt;"@,
            '>' => "&gt;"@,
            '"' => "&quot;"@,
            '\'' => "&apos;"@,
            _ => seq![c],
        }) + escaped(s),
{
    assert((seq![c] + s).skip(1) =~= s);
    assert((seq![c] + s)[0] == c);
}

/// A service is loaded from its own property list, in the domain of the scope, and
/// unloaded from the same.
pub proof fn law_jobs_are_loaded_where_they_are(
    config: &Config,
    host: &Host,
    uid: Seq<char>,
    label: Seq<char>,
)
    ensures
        ({
            let domain = if config.scope == Scope::User {
                "gui/"@ + uid
            } else {
                "system"@
            };
            let home = match host.home {
                Some(h) => h@,
                None => "."@,
            };
            let dir = if config.scope == Scope::User {
                under(home, "Library/LaunchAgents"@)
            } else {
                "/Library/LaunchDaemons"@
            };
            let path = under(dir, label + ".plist"@);
            let scope = config.scope;
            let place = host.home.deep_view();
            &&& jobs_home(scope, place) == dir
            &&& installed_plist(scope, place, label) == path
            &&& bootstrap_call(scope, place, uid, label) == (InvocationView {
                program: "launchctl"@,
                args: seq!["bootstrap"@, domain, path],
            })
            &&& bootout_call(scope, place, uid, label) == (InvocationView {
                program: "launchctl"@,
                args: seq!["bootout"@, domain, path],
            })
            &&& kickstart_call(scope, uid, label) == (InvocationView {
                program: "launchctl"@,
                args: seq!["kickstart"@, "-k"@, domain + "/"@ + label],
            })
            &&& target_of(scope, uid, label) == domain + "/"@ + label
        }),
{
}

/// Jobs are started one after the other. One that is loaded is followed by the
/// next; one that cannot be loaded is restarted, and if that fails too, starting
/// fails.
pub proof fn law_jobs_are_started_in_turn(
    labels: Seq<Seq<char>>,
    config: &Config,
    uid: Seq<char>,
    i: int,
    outcome: OutcomeView,
)
    requires
        0 <= i < labels.len() <= usize::MAX,
    ensures
        start_at(labels.len(), 0) == (StartPhase::Bootstrap { next: 0 }),
        ({
            let load = StartPhase::Bootstrap { next: i as usize };
            let again = StartPhase::Kickstart { next: i as usize };
            let well = outcome matches OutcomeView::Ended { success, .. } && success;
            let loaded = start_next(labels, config.scope, uid, load, outcome);
            let restarted = start_next(labels, config.scope, uid, again, outcome);
            let on = if i + 1 < labels.len() {
                StartPhase::Bootstrap { next: (i + 1) as usize }
            } else {
                StartPhase::Started
            };
            &&& well ==> loaded == Ok::<StartPhase, PlatformErrorView>(on)
            &&& !well ==> loaded == Ok::<StartPhase, PlatformErrorView>(again)
            &&& well ==> restarted == Ok::<StartPhase, PlatformErrorView>(on)
            &&& !well ==> restarted is Err
        }),
{
}

/// Stopping unloads every job that is named, in order. Where none is named these
/// are the installed jobs of the namespace.
pub proof fn law_stopping_unloads_the_jobs(
    labels: Seq<Seq<char>>,
    config: &Config,
    home: Option<Seq<char>>,
    uid: Seq<char>,
    services: Seq<Seq<char>>,
    files: Seq<Seq<char>>,
    name: Seq<char>,
    i: int,
)
    requires
        0 <= i,
    ensures
        stop_calls(labels, config.scope, home, uid).len() == labels.len(),
        i < labels.len() ==> stop_calls(labels, config.scope, home, uid)[i].program
            == "launchctl"@ && stop_calls(labels, config.scope, home, uid)[i].args[0]
            == "bootout"@ && stop_calls(labels, config.scope, home, uid)[i].args[2]
            == installed_plist(config.scope, home, labels[i]),
        i < services.len() ==> labels_of(services, files, config.namespace@)[i]
            == config.namespace@ + "."@ + services[i],
        services.len() > 0 ==> labels_of(services, files, config.namespace@).len()
            == services.len(),
        labels_of(Seq::empty(), Seq::empty(), config.namespace@) == Seq::<Seq<char>>::empty(),
        labels_of(Seq::empty(), files.push(name), config.namespace@) == labels_of(
            Seq::empty(),
            files,
            config.namespace@,
        ) + (if (config.namespace@ + "."@).is_prefix_of(name) && ".plist"@.is_suffix_of(name) {
            seq![without_suffixes(name, ".plist"@)]
        } else {
            seq![]
        }),
{
    let more = files.push(name);
    assert(more.drop_last() =~= files);
    assert(labels_of(Seq::empty(), more, config.namespace@) =~= labels_of(
        Seq::empty(),
        files,
        config.namespace@,
    ) + (if (config.namespace@ + "."@).is_prefix_of(name) && ".plist"@.is_suffix_of(name) {
        seq![without_suffixes(name, ".plist"@)]
    } else {
        seq![]
    }));
}

/// What launchd says of a job is read line by line: its process, unless that is 0,
/// and its state, which is active exactly if it runs. Other lines say nothing, and
/// a job that launchd does not know is dead.
pub proof fn law_job_states_are_read(state: JobState, line: Seq<char>, rest: Seq<char>, n: nat)
    ensures
        trimmed(line) == "state ="@ + rest ==> {
            let now = with_line(state, line);
            &&& now.sub == without_suffixes(trimmed(rest), ","@)
            &&& now.active == "active"@ <==> now.sub == "running"@
            &&& now.active == "active"@ || now.active == "inactive"@
            &&& now.pid == state.pid
        },
        trimmed(line) == "pid ="@ + rest && 0 < n <= u32::MAX && without_suffixes(
            trimmed(rest),
            ","@,
        ) == decimal(n) ==> with_line(state, line) == (JobState { pid: Some(n), ..state }),
        !"pid ="@.is_prefix_of(trimmed(line)) && !"state ="@.is_prefix_of(trimmed(line))
            ==> with_line(state, line) == state,
        state_of(Seq::empty()) == (JobState { active: "inactive"@, sub: "dead"@, pid: None }),
{
    reveal_strlit("state =");
    reveal_strlit("pid =");
    reveal_strlit("active");
    reveal_strlit("inactive");
    let t = trimmed(line);
    if t == "state ="@ + rest {
        assert(t[0] == 's');
        assert(t.subrange(0, 7) =~= "state ="@);
        assert(t.skip(7) =~= rest);
        if "pid ="@.is_prefix_of(t) {
            assert(t.subrange(0, 5)[0] == 'p');
        }
        assert("active"@.len() == 6 && "inactive"@.len() == 8);
        assert(!"pid ="@.is_prefix_of(t));
        assert(with_line(state, line).sub == without_suffixes(trimmed(rest), ","@));
    }
    if t == "pid ="@ + rest && 0 < n <= u32::MAX && without_suffixes(trimmed(rest), ","@)
        == decimal(n) {
        assert(t.subrange(0, 5) =~= "pid ="@);
        assert(t.skip(5) =~= rest);
        lemma_decimal_round_trip(n, u32::MAX as nat);
    }
}

/// A job that launchd says nothing of, or does not know, is dead; else every line
/// that it says counts, in order.
pub proof fn law_job_answers_are_read_whole(
    answer: OutcomeView,
    said: Seq<Seq<char>>,
    line: Seq<char>,
)
    ensures
        answer matches OutcomeView::Ended { success: true, stdout, .. } ==> job_state(answer)
            == state_of(lines(stdout)),
        !(answer matches OutcomeView::Ended { success: true, .. }) ==> job_state(answer) == (
        JobState { active: "inactive"@, sub: "dead"@, pid: None }),
        state_of(said.push(line)) == with_line(state_of(said), line),
{
    assert(said.push(line).drop_last() =~= said);
}

/// Every service that has commands gets its job, under its own name in the units
/// directory, and with it its spec exactly where it runs under the supervisor.
pub proof fn law_every_service_gets_a_job(
    services: Seq<ServiceView>,
    exec_sets: Seq<(usize, ExecSetView)>,
    config: &Config,
    host: &Host,
    texts: Seq<Seq<char>>,
    e: (usize, ExecSetView),
)
    ensures
        ({
            let service = services[e.0 as int];
            let label = config.namespace@ + "."@ + service.name;
            let deps = dep_gates(config.state_dir@, config.namespace@, service, services);
            let before = launchd_artifacts(services, exec_sets, config, host, texts);
            let all = launchd_artifacts(services, exec_sets.push(e), config, host, texts);
            let k = specs_for(services, exec_sets, config).len() as int;
            let specs = specs_for(services, exec_sets.push(e), config);
            let plist = ArtifactView {
                kind: "plist"@,
                label,
                path: under(under(config.state_dir@, "units"@), label + ".plist"@),
                content: document(job(service, e.1, config, host, deps)),
            };
            let spec = ArtifactView {
                kind: "supervise-spec"@,
                label,
                path: under(under(config.state_dir@, "supervise"@), label + ".json"@),
                content: texts[k],
            };
            &&& supervised(e.1, deps) ==> all == before + seq![spec, plist] && specs == specs_for(
                services,
                exec_sets,
                config,
            ).push(
                supervise_spec_of(service, e.1, config.state_dir@, config.namespace@, deps),
            )
            &&& !supervised(e.1, deps) ==> all == before + seq![plist] && specs == specs_for(
                services,
                exec_sets,
                config,
            )
        }),
        launchd_artifacts(services, Seq::empty(), config, host, texts)
            == Seq::<ArtifactView>::empty(),
{
    assert(exec_sets.push(e).drop_last() =~= exec_sets);
    let service = services[e.0 as int];
    let label = config.namespace@ + "."@ + service.name;
    let deps = dep_gates(config.state_dir@, config.namespace@, service, services);
    let before = launchd_artifacts(services, exec_sets, config, host, texts);
    let all = launchd_artifacts(services, exec_sets.push(e), config, host, texts);
    if supervised(e.1, deps) {
        assert(all =~= before + seq![all[before.len() as int], all[before.len() as int + 1]]);
    } else {
        assert(all =~= before + seq![all[before.len() as int]]);
    }
}

/// Installing copies the property lists, and nothing else, to where launchd looks
/// for them.
pub proof fn law_installing_copies_property_lists(
    names: Seq<Seq<char>>,
    name: Seq<char>,
    units_dir: Seq<char>,
    home: Seq<char>,
)
    ensures
        copies(Seq::empty(), units_dir, home) == Seq::<PlacementView>::empty(),
        copies(names.push(name), units_dir, home) == copies(names, units_dir, home) + (
        if extension(name) == Some("plist"@) {
            seq![PlacementView { from: under(units_dir, name), to: under(home, name) }]
        } else {
            seq![]
        }),
{
    assert(names.push(name).drop_last() =~= names);
    assert(copies(names.push(name), units_dir, home) =~= copies(names, units_dir, home) + (
    if extension(name) == Some("plist"@) {
        seq![PlacementView { from: under(units_dir, name), to: under(home, name) }]
    } else {
        seq![]
    }));
}

/// The end of the logs is shown: so many lines of each file, and what is added
/// where they are followed.
pub proof fn law_logs_are_tailed(lines: nat, follow: bool, files: Seq<Seq<char>>)
    ensures
        tail_args(lines, false, files) == seq!["-n"@, decimal(lines)] + files,
        tail_args(lines, true, files) == seq!["-n"@, decimal(lines), "-f"@] + files,
{
    assert(tail_args(lines, false, files) =~= seq!["-n"@, decimal(lines)] + files);
    assert(tail_args(lines, true, files) =~= seq!["-n"@, decimal(lines), "-f"@] + files);
}

/// Felling unloads each job of the namespace that is installed and takes its copy
/// away, then its property list, and last the units directory if it is empty.
pub proof fn law_felling_unloads_the_jobs(
    names: Seq<Seq<char>>,
    name: Seq<char>,
    installed: Seq<Seq<char>>,
    config: &Config,
    home: Option<Seq<char>>,
    uid: Seq<char>,
)
    ensures
        ({
            let dir = under(config.state_dir@, "units"@);
            let copy = under(jobs_home(config.scope, home), name);
            let own = (config.namespace@ + "."@).is_prefix_of(name) && ".plist"@.is_suffix_of(
                name,
            );
            let domain = if config.scope == Scope::User {
                "gui/"@ + uid
            } else {
                "system"@
            };
            let before = removed(names, installed, config, home, uid);
            let after = removed(names.push(name), installed, config, home, uid);
            &&& removals(names, installed, config, home, uid) == before + seq![
                RemovalView::EmptyDirectory { path: dir },
            ]
            &&& removed(Seq::empty(), installed, config, home, uid) == Seq::<RemovalView>::empty()
            &&& !own ==> after == before
            &&& own && !installed.contains(name) ==> after == before + seq![
                RemovalView::File { path: under(dir, name) },
            ]
            &&& own && installed.contains(name) ==> after == before + seq![
                RemovalView::Call {
                    call: InvocationView {
                        program: "launchctl"@,
                        args: seq!["bootout"@, domain, copy],
                    },
                },
                RemovalView::File { path: copy },
                RemovalView::File { path: under(dir, name) },
            ]
        }),
{
    let dir = under(config.state_dir@, "units"@);
    let copy = under(jobs_home(config.scope, home), name);
    let before = removed(names, installed, config, home, uid);
    let after = removed(names.push(name), installed, config, home, uid);
    assert(names.push(name).drop_last() =~= names);
    assert(removals(names, installed, config, home, uid) =~= before + seq![
        RemovalView::EmptyDirectory { path: dir },
    ]);
    if installed.contains(name) {
        assert(before + unloaded(copy, config.scope, uid) + seq![
            RemovalView::File { path: under(dir, name) },
        ] =~= before + seq![
            unloaded(copy, config.scope, uid)[0],
            RemovalView::File { path: copy },
            RemovalView::File { path: under(dir, name) },
        ]);
    } else {
        assert(before + Seq::<RemovalView>::empty() + seq![
            RemovalView::File { path: under(dir, name) },
        ] =~= before + seq![RemovalView::File { path: under(dir, name) }]);
    }
}

/// The user is whom the machine says, or root where it does not.
pub proof fn law_the_machine_tells_the_user(outcome: OutcomeView)
    ensures
        outcome matches OutcomeView::Ended { success: true, stdout, .. } ==> uid_of(outcome)
            == trimmed(stdout),
        outcome is NotRun ==> uid_of(outcome) == "0"@,
        outcome matches OutcomeView::Ended { success: false, .. } ==> uid_of(outcome) == "0"@,
        launchctl_found(outcome) <==> (outcome matches OutcomeView::Ended {
            success,
            stdout,
            stderr,
            ..
        } && (success || stdout.len() > 0 || stderr.len() > 0)),
{
}

/// What a survey asks about is what was generated: a property list of the namespace
/// gives its label and its service.
pub proof fn law_property_lists_give_their_service(namespace: Seq<char>, service: Seq<char>)
    ensures
        ({
            let label = namespace + "."@ + service;
            &&& label_of_file(label + ".plist"@) == label
            &&& service_of_label(label, namespace) == service
        }),
{
    let label = namespace + "."@ + service;
    let file = label + ".plist"@;
    let prefix = namespace + "."@;
    assert(file.subrange(file.len() - ".plist"@.len(), file.len() as int) =~= ".plist"@);
    assert(file.take(file.len() - ".plist"@.len()) =~= label);
    assert(label.subrange(0, prefix.len() as int) =~= prefix);
    assert(label.skip(prefix.len() as int) =~= service);
}

} // verus!
