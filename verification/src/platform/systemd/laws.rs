//! What the units of services say, directive by directive.

use crate::collections::Entry;
use crate::config::Config;
use crate::exec::ExecSetView;
use crate::keyed::{lemma_piece, lemma_values_add, listed, pick, values};
use crate::orchard::ArtifactView;
use crate::orchdi::health_command;
use crate::paths::under;
use crate::platform::systemd::generate::{
    after_units, bound_units, cpu_limit, depended_upon, environment, environment_files, gate_unit,
    gated, law_gated, law_ready_gates, limits, needs_gate, optional_command, optional_path,
    ready_set, restarts, service_lines, service_type, service_unit, shell_command, target_unit,
    unit_lines, unit_list, widened,
};
use crate::platform::systemd::{
    gate_artifact, gate_artifacts, removals, systemctl_call, systemd_artifacts, unit_artifacts,
    units_home, unlinked,
};
use crate::platform::RemovalView;
use crate::platform::systemd::unit::{
    law_shell_reads_back, number, optional, quoted, section, settings, shell_word,
};
use crate::text::number::decimal;
use crate::text::scan::joined;
use crate::types::{ResourceLimitsView, RestartPolicy, ServiceView};
use vstd::prelude::*;

verus! {

/// The directives of a service differ.
proof fn lemma_directives()
    ensures
        "Type"@.len() == 4 && "Type"@[0] == 'T',
        "RemainAfterExit"@.len() == 15 && "RemainAfterExit"@[0] == 'R',
        "ExecStartPre"@.len() == 12 && "ExecStartPre"@[6] == 'a',
        "ExecStart"@.len() == 9 && "ExecStart"@[0] == 'E',
        "ExecStop"@.len() == 8 && "ExecStop"@[0] == 'E',
        "ExecStopPost"@.len() == 12 && "ExecStopPost"@[6] == 'o',
        "ExecReload"@.len() == 10 && "ExecReload"@[0] == 'E',
        "WorkingDirectory"@.len() == 16,
        "Environment"@.len() == 11 && "Environment"@[0] == 'E',
        "EnvironmentFile"@.len() == 15 && "EnvironmentFile"@[0] == 'E',
        "User"@.len() == 4 && "User"@[0] == 'U',
        "Restart"@.len() == 7,
        "RestartSec"@.len() == 10 && "RestartSec"@[0] == 'R',
        "StartLimitBurst"@.len() == 15 && "StartLimitBurst"@[0] == 'S',
        "StartLimitIntervalSec"@.len() == 21,
        "TimeoutStartSec"@.len() == 15 && "TimeoutStartSec"@[0] == 'T',
        "TimeoutStopSec"@.len() == 14 && "TimeoutStopSec"@[0] == 'T',
        "MemoryMax"@.len() == 9 && "MemoryMax"@[0] == 'M',
        "CPUQuota"@.len() == 8 && "CPUQuota"@[0] == 'C',
        "LimitNOFILE"@.len() == 11 && "LimitNOFILE"@[0] == 'L',
        "LimitNPROC"@.len() == 10 && "LimitNPROC"@[0] == 'L',
        "TasksMax"@.len() == 8 && "TasksMax"@[0] == 'T',
        "IOWeight"@.len() == 8 && "IOWeight"@[0] == 'I',
        "StandardOutput"@.len() == 14 && "StandardOutput"@[0] == 'S',
        "StandardError"@.len() == 13,
{
    reveal_strlit("Type");
    reveal_strlit("RemainAfterExit");
    reveal_strlit("ExecStartPre");
    reveal_strlit("ExecStart");
    reveal_strlit("ExecStop");
    reveal_strlit("ExecStopPost");
    reveal_strlit("ExecReload");
    reveal_strlit("WorkingDirectory");
    reveal_strlit("Environment");
    reveal_strlit("EnvironmentFile");
    reveal_strlit("User");
    reveal_strlit("Restart");
    reveal_strlit("RestartSec");
    reveal_strlit("StartLimitBurst");
    reveal_strlit("StartLimitIntervalSec");
    reveal_strlit("TimeoutStartSec");
    reveal_strlit("TimeoutStopSec");
    reveal_strlit("MemoryMax");
    reveal_strlit("CPUQuota");
    reveal_strlit("LimitNOFILE");
    reveal_strlit("LimitNPROC");
    reveal_strlit("TasksMax");
    reveal_strlit("IOWeight");
    reveal_strlit("StandardOutput");
    reveal_strlit("StandardError");
}

/// Optional numbers as decimals.
pub open spec fn numbers(o: Option<u64>) -> Seq<Seq<char>> {
    listed(o).map_values(|n: u64| decimal(n as nat))
}

spec fn commands(cmd: Option<Seq<char>>) -> Seq<Seq<char>> {
    listed(cmd).map_values(|c: Seq<char>| shell_command(c))
}

spec fn paths(before: Seq<char>, path: Option<Seq<char>>, project_dir: Seq<char>) -> Seq<Seq<char>> {
    listed(path).map_values(|p: Seq<char>| before + under(project_dir, p))
}

proof fn lemma_type_values(service: ServiceView, key: Seq<char>)
    ensures
        values(service_type(service), key) == pick(
            "Type"@,
            seq![if service.oneshot { "oneshot"@ } else { "simple"@ }],
            key,
        ) + pick("RemainAfterExit"@, if service.oneshot { seq!["yes"@] } else { seq![] }, key),
{
    let a = seq![("Type"@, if service.oneshot { "oneshot"@ } else { "simple"@ })];
    let b: Seq<Entry> = if service.oneshot { seq![("RemainAfterExit"@, "yes"@)] } else { seq![] };
    assert(service_type(service) =~= a + b);
    lemma_values_add(a, b, key);
    lemma_piece(a, "Type"@, seq![if service.oneshot { "oneshot"@ } else { "simple"@ }], key);
    lemma_piece(
        b,
        "RemainAfterExit"@,
        if service.oneshot { seq!["yes"@] } else { seq![] },
        key,
    );
}

/// What systemd calls the policies.
spec fn policy_words(service: ServiceView) -> Seq<Seq<char>> {
    if service.oneshot {
        seq![]
    } else if service.restart.policy == RestartPolicy::Always {
        seq!["always"@]
    } else if service.restart.policy == RestartPolicy::OnFailure {
        seq!["on-failure"@]
    } else {
        seq!["no"@]
    }
}

proof fn lemma_restart_values(service: ServiceView, key: Seq<char>)
    ensures
        values(restarts(service), key) == pick("Restart"@, policy_words(service), key) + pick(
            "RestartSec"@,
            if service.oneshot { seq![] } else { listed(service.restart.delay) },
            key,
        ),
{
    let delays = if service.oneshot { seq![] } else { listed(service.restart.delay) };
    let a: Seq<Entry> = policy_words(service).map_values(|w: Seq<char>| ("Restart"@, w));
    let b: Seq<Entry> = delays.map_values(|w: Seq<char>| ("RestartSec"@, w));
    assert(restarts(service) =~= a + b);
    lemma_values_add(a, b, key);
    lemma_piece(a, "Restart"@, policy_words(service), key);
    lemma_piece(b, "RestartSec"@, delays, key);
}

/// The CPU time in the words of systemd.
spec fn quotas(res: ResourceLimitsView) -> Seq<Seq<char>> {
    if res.cpu_quota is Some {
        seq![res.cpu_quota->0]
    } else if res.cpus is Some {
        seq![decimal(res.cpus->0.percent as nat) + "%"@]
    } else {
        seq![]
    }
}

proof fn lemma_limit_values(res: ResourceLimitsView, key: Seq<char>)
    ensures
        values(limits(res), key) == pick("MemoryMax"@, listed(res.memory), key) + pick(
            "CPUQuota"@,
            quotas(res),
            key,
        ) + pick("LimitNOFILE"@, numbers(res.limit_nofile), key) + pick(
            "LimitNPROC"@,
            numbers(res.limit_nproc),
            key,
        ) + pick("TasksMax"@, numbers(res.tasks_max), key) + pick(
            "IOWeight"@,
            numbers(widened(res.io_weight)),
            key,
        ),
{
    let a = optional("MemoryMax"@, res.memory);
    let b = cpu_limit(res);
    let c = number("LimitNOFILE"@, res.limit_nofile);
    let d = number("LimitNPROC"@, res.limit_nproc);
    let e = number("TasksMax"@, res.tasks_max);
    let f = number("IOWeight"@, widened(res.io_weight));
    lemma_values_add(a, b, key);
    lemma_values_add(a + b, c, key);
    lemma_values_add(a + b + c, d, key);
    lemma_values_add(a + b + c + d, e, key);
    lemma_values_add(a + b + c + d + e, f, key);
    lemma_piece(a, "MemoryMax"@, listed(res.memory), key);
    lemma_piece(b, "CPUQuota"@, quotas(res), key);
    lemma_piece(c, "LimitNOFILE"@, numbers(res.limit_nofile), key);
    lemma_piece(d, "LimitNPROC"@, numbers(res.limit_nproc), key);
    lemma_piece(e, "TasksMax"@, numbers(res.tasks_max), key);
    lemma_piece(f, "IOWeight"@, numbers(widened(res.io_weight)), key);
}

proof fn lemma_service_values(
    service: ServiceView,
    exec_set: ExecSetView,
    project_dir: Seq<char>,
    key: Seq<char>,
)
    ensures
        values(service_lines(service, exec_set, project_dir), key) == values(service_type(service), key)
            + pick("ExecStartPre"@, commands(exec_set.pre_start), key)
            + pick("ExecStart"@, commands(Some(exec_set.start)), key)
            + pick("ExecStop"@, commands(exec_set.stop), key)
            + pick("ExecStopPost"@, commands(exec_set.post_stop), key)
            + pick("ExecReload"@, commands(service.reload_command), key)
            + pick("WorkingDirectory"@, paths(""@, service.workdir, project_dir), key)
            + pick("Environment"@, service.env.map_values(|e: Entry| "\""@ + e.0 + "="@ + e.1 + "\""@), key)
            + pick("EnvironmentFile"@, service.env_files.map_values(|f: Seq<char>| under(project_dir, f)), key)
            + pick("User"@, listed(service.user), key)
            + values(restarts(service), key)
            + pick("StartLimitBurst"@, numbers(widened(service.restart.start_limit_burst)), key)
            + pick("StartLimitIntervalSec"@, listed(service.restart.start_limit_interval), key)
            + pick("TimeoutStartSec"@, listed(service.timeouts.start), key)
            + pick("TimeoutStopSec"@, listed(service.timeouts.stop), key)
            + values(limits(service.resources), key)
            + pick("StandardOutput"@, paths("file:"@, service.logging.stdout, project_dir), key)
            + pick("StandardError"@, paths("file:"@, service.logging.stderr, project_dir), key),
{
    let p0 = service_type(service);
    let p1 = optional_command("ExecStartPre"@, exec_set.pre_start);
    let p2 = seq![("ExecStart"@, shell_command(exec_set.start))];
    let p3 = optional_command("ExecStop"@, exec_set.stop);
    let p4 = optional_command("ExecStopPost"@, exec_set.post_stop);
    let p5 = optional_command("ExecReload"@, service.reload_command);
    let p6 = optional_path("WorkingDirectory"@, ""@, service.workdir, project_dir);
    let p7 = environment(service.env);
    let p8 = environment_files(service.env_files, project_dir);
    let p9 = optional("User"@, service.user);
    let p10 = restarts(service);
    let p11 = number("StartLimitBurst"@, widened(service.restart.start_limit_burst));
    let p12 = optional("StartLimitIntervalSec"@, service.restart.start_limit_interval);
    let p13 = optional("TimeoutStartSec"@, service.timeouts.start);
    let p14 = optional("TimeoutStopSec"@, service.timeouts.stop);
    let p15 = limits(service.resources);
    let p16 = optional_path("StandardOutput"@, "file:"@, service.logging.stdout, project_dir);
    let p17 = optional_path("StandardError"@, "file:"@, service.logging.stderr, project_dir);
    let s1 = p0 + p1;
    lemma_values_add(p0, p1, key);
    lemma_piece(p1, "ExecStartPre"@, commands(exec_set.pre_start), key);
    let s2 = s1 + p2;
    lemma_values_add(s1, p2, key);
    lemma_piece(p2, "ExecStart"@, commands(Some(exec_set.start)), key);
    let s3 = s2 + p3;
    lemma_values_add(s2, p3, key);
    lemma_piece(p3, "ExecStop"@, commands(exec_set.stop), key);
    let s4 = s3 + p4;
    lemma_values_add(s3, p4, key);
    lemma_piece(p4, "ExecStopPost"@, commands(exec_set.post_stop), key);
    let s5 = s4 + p5;
    lemma_values_add(s4, p5, key);
    lemma_piece(p5, "ExecReload"@, commands(service.reload_command), key);
    let s6 = s5 + p6;
    lemma_values_add(s5, p6, key);
    lemma_piece(p6, "WorkingDirectory"@, paths(""@, service.workdir, project_dir), key);
    let s7 = s6 + p7;
    lemma_values_add(s6, p7, key);
    lemma_piece(p7, "Environment"@, service.env.map_values(|e: Entry| "\""@ + e.0 + "="@ + e.1 + "\""@), key);
    let s8 = s7 + p8;
    lemma_values_add(s7, p8, key);
    lemma_piece(p8, "EnvironmentFile"@, service.env_files.map_values(|f: Seq<char>| under(project_dir, f)), key);
    let s9 = s8 + p9;
    lemma_values_add(s8, p9, key);
    lemma_piece(p9, "User"@, listed(service.user), key);
    let s10 = s9 + p10;
    lemma_values_add(s9, p10, key);
    let s11 = s10 + p11;
    lemma_values_add(s10, p11, key);
    lemma_piece(p11, "StartLimitBurst"@, numbers(widened(service.restart.start_limit_burst)), key);
    let s12 = s11 + p12;
    lemma_values_add(s11, p12, key);
    lemma_piece(p12, "StartLimitIntervalSec"@, listed(service.restart.start_limit_interval), key);
    let s13 = s12 + p13;
    lemma_values_add(s12, p13, key);
    lemma_piece(p13, "TimeoutStartSec"@, listed(service.timeouts.start), key);
    let s14 = s13 + p14;
    lemma_values_add(s13, p14, key);
    lemma_piece(p14, "TimeoutStopSec"@, listed(service.timeouts.stop), key);
    let s15 = s14 + p15;
    lemma_values_add(s14, p15, key);
    let s16 = s15 + p16;
    lemma_values_add(s15, p16, key);
    lemma_piece(p16, "StandardOutput"@, paths("file:"@, service.logging.stdout, project_dir), key);
    let s17 = s16 + p17;
    lemma_values_add(s16, p17, key);
    lemma_piece(p17, "StandardError"@, paths("file:"@, service.logging.stderr, project_dir), key);
    assert(service_lines(service, exec_set, project_dir) == s17);
}

/// Whether a value makes systemd hand a command to the shell as it is.
pub open spec fn hands_over(value: Seq<char>, cmd: Seq<char>) -> bool {
    exists|word: Seq<char>|
        value == "/bin/bash -c "@ + word && #[trigger] shell_word(word, false) == Some(cmd)
}

/// Whether values hand over an optional command: one value if there is one.
pub open spec fn hand_over(vals: Seq<Seq<char>>, cmd: Option<Seq<char>>) -> bool {
    match cmd {
        Some(c) => vals.len() == 1 && hands_over(vals[0], c),
        None => vals.len() == 0,
    }
}

proof fn lemma_commands(cmd: Option<Seq<char>>)
    ensures
        hand_over(commands(cmd), cmd),
{
    if let Some(c) = cmd {
        reveal_strlit("/bin/bash -c '");
        reveal_strlit("/bin/bash -c ");
        reveal_strlit("'");
        let word = seq!['\''] + quoted(c) + seq!['\''];
        law_shell_reads_back(c);
        assert("/bin/bash -c '"@ =~= "/bin/bash -c "@ + seq!['\'']);
        assert("'"@ =~= seq!['\'']);
        assert(shell_command(c) =~= "/bin/bash -c "@ + word);
        assert(commands(cmd)[0] == shell_command(c));
    }
}

/// A unit runs the commands of its service, each at its time: the shell gets them
/// as they are, and nothing else is run.
pub proof fn law_units_run_the_commands(
    service: ServiceView,
    exec_set: ExecSetView,
    project_dir: Seq<char>,
)
    ensures
        hand_over(values(service_lines(service, exec_set, project_dir), "ExecStartPre"@), exec_set.pre_start),
        hand_over(values(service_lines(service, exec_set, project_dir), "ExecStart"@), Some(exec_set.start)),
        hand_over(values(service_lines(service, exec_set, project_dir), "ExecStop"@), exec_set.stop),
        hand_over(values(service_lines(service, exec_set, project_dir), "ExecStopPost"@), exec_set.post_stop),
        hand_over(values(service_lines(service, exec_set, project_dir), "ExecReload"@), service.reload_command),
{
    lemma_directives();
    assert(values(service_lines(service, exec_set, project_dir), "ExecStartPre"@) =~= (commands(exec_set.pre_start))) by {
        lemma_service_values(service, exec_set, project_dir, "ExecStartPre"@);
        lemma_type_values(service, "ExecStartPre"@);
        lemma_restart_values(service, "ExecStartPre"@);
        lemma_limit_values(service.resources, "ExecStartPre"@);
    }
    lemma_commands(exec_set.pre_start);
    assert(values(service_lines(service, exec_set, project_dir), "ExecStart"@) =~= (commands(Some(exec_set.start)))) by {
        lemma_service_values(service, exec_set, project_dir, "ExecStart"@);
        lemma_type_values(service, "ExecStart"@);
        lemma_restart_values(service, "ExecStart"@);
        lemma_limit_values(service.resources, "ExecStart"@);
    }
    lemma_commands(Some(exec_set.start));
    assert(values(service_lines(service, exec_set, project_dir), "ExecStop"@) =~= (commands(exec_set.stop))) by {
        lemma_service_values(service, exec_set, project_dir, "ExecStop"@);
        lemma_type_values(service, "ExecStop"@);
        lemma_restart_values(service, "ExecStop"@);
        lemma_limit_values(service.resources, "ExecStop"@);
    }
    lemma_commands(exec_set.stop);
    assert(values(service_lines(service, exec_set, project_dir), "ExecStopPost"@) =~= (commands(exec_set.post_stop))) by {
        lemma_service_values(service, exec_set, project_dir, "ExecStopPost"@);
        lemma_type_values(service, "ExecStopPost"@);
        lemma_restart_values(service, "ExecStopPost"@);
        lemma_limit_values(service.resources, "ExecStopPost"@);
    }
    lemma_commands(exec_set.post_stop);
    assert(values(service_lines(service, exec_set, project_dir), "ExecReload"@) =~= (commands(service.reload_command))) by {
        lemma_service_values(service, exec_set, project_dir, "ExecReload"@);
        lemma_type_values(service, "ExecReload"@);
        lemma_restart_values(service, "ExecReload"@);
        lemma_limit_values(service.resources, "ExecReload"@);
    }
    lemma_commands(service.reload_command);
}

/// A unit starts its service again by the policy of the service, and a oneshot
/// never.
pub proof fn law_units_restart_as_told(
    service: ServiceView,
    exec_set: ExecSetView,
    project_dir: Seq<char>,
)
    ensures
        values(service_lines(service, exec_set, project_dir), "Type"@) == (seq![if service.oneshot { "oneshot"@ } else { "simple"@ }]),
        values(service_lines(service, exec_set, project_dir), "RemainAfterExit"@) == (if service.oneshot { seq!["yes"@] } else { seq![] }),
        values(service_lines(service, exec_set, project_dir), "Restart"@) == (if service.oneshot {
                seq![]
            } else if service.restart.policy == RestartPolicy::Always {
                seq!["always"@]
            } else if service.restart.policy == RestartPolicy::OnFailure {
                seq!["on-failure"@]
            } else {
                seq!["no"@]
            }),
        values(service_lines(service, exec_set, project_dir), "RestartSec"@) == (if service.oneshot { seq![] } else { listed(service.restart.delay) }),
        values(service_lines(service, exec_set, project_dir), "StartLimitBurst"@) == (listed(service.restart.start_limit_burst).map_values(|n: u32| decimal(n as nat))),
        values(service_lines(service, exec_set, project_dir), "StartLimitIntervalSec"@) == (listed(service.restart.start_limit_interval)),
{
    lemma_directives();
    assert(values(service_lines(service, exec_set, project_dir), "Type"@) =~= (seq![if service.oneshot { "oneshot"@ } else { "simple"@ }])) by {
        lemma_service_values(service, exec_set, project_dir, "Type"@);
        lemma_type_values(service, "Type"@);
        lemma_restart_values(service, "Type"@);
        lemma_limit_values(service.resources, "Type"@);
    }
    assert(values(service_lines(service, exec_set, project_dir), "RemainAfterExit"@) =~= (if service.oneshot { seq!["yes"@] } else { seq![] })) by {
        lemma_service_values(service, exec_set, project_dir, "RemainAfterExit"@);
        lemma_type_values(service, "RemainAfterExit"@);
        lemma_restart_values(service, "RemainAfterExit"@);
        lemma_limit_values(service.resources, "RemainAfterExit"@);
    }
    assert(values(service_lines(service, exec_set, project_dir), "Restart"@) =~= (if service.oneshot {
                seq![]
            } else if service.restart.policy == RestartPolicy::Always {
                seq!["always"@]
            } else if service.restart.policy == RestartPolicy::OnFailure {
                seq!["on-failure"@]
            } else {
                seq!["no"@]
            })) by {
        lemma_service_values(service, exec_set, project_dir, "Restart"@);
        lemma_type_values(service, "Restart"@);
        lemma_restart_values(service, "Restart"@);
        lemma_limit_values(service.resources, "Restart"@);
    }
    assert(values(service_lines(service, exec_set, project_dir), "RestartSec"@) =~= (if service.oneshot { seq![] } else { listed(service.restart.delay) })) by {
        lemma_service_values(service, exec_set, project_dir, "RestartSec"@);
        lemma_type_values(service, "RestartSec"@);
        lemma_restart_values(service, "RestartSec"@);
        lemma_limit_values(service.resources, "RestartSec"@);
    }
    assert(values(service_lines(service, exec_set, project_dir), "StartLimitBurst"@) =~= (listed(service.restart.start_limit_burst).map_values(|n: u32| decimal(n as nat)))) by {
        lemma_service_values(service, exec_set, project_dir, "StartLimitBurst"@);
        lemma_type_values(service, "StartLimitBurst"@);
        lemma_restart_values(service, "StartLimitBurst"@);
        lemma_limit_values(service.resources, "StartLimitBurst"@);
    }
    assert(values(service_lines(service, exec_set, project_dir), "StartLimitIntervalSec"@) =~= (listed(service.restart.start_limit_interval))) by {
        lemma_service_values(service, exec_set, project_dir, "StartLimitIntervalSec"@);
        lemma_type_values(service, "StartLimitIntervalSec"@);
        lemma_restart_values(service, "StartLimitIntervalSec"@);
        lemma_limit_values(service.resources, "StartLimitIntervalSec"@);
    }
}

/// A unit runs its service as the user, in the directory, with the environment and
/// with the output files that the service names.
pub proof fn law_units_set_the_scene(
    service: ServiceView,
    exec_set: ExecSetView,
    project_dir: Seq<char>,
)
    ensures
        values(service_lines(service, exec_set, project_dir), "WorkingDirectory"@) == (listed(service.workdir).map_values(|p: Seq<char>| under(project_dir, p))),
        values(service_lines(service, exec_set, project_dir), "Environment"@) == (service.env.map_values(|e: Entry| "\""@ + e.0 + "="@ + e.1 + "\""@)),
        values(service_lines(service, exec_set, project_dir), "EnvironmentFile"@) == (service.env_files.map_values(|f: Seq<char>| under(project_dir, f))),
        values(service_lines(service, exec_set, project_dir), "User"@) == (listed(service.user)),
        values(service_lines(service, exec_set, project_dir), "StandardOutput"@) == (listed(service.logging.stdout).map_values(|p: Seq<char>| "file:"@ + under(project_dir, p))),
        values(service_lines(service, exec_set, project_dir), "StandardError"@) == (listed(service.logging.stderr).map_values(|p: Seq<char>| "file:"@ + under(project_dir, p))),
{
    reveal_strlit("");
    if let Some(p) = service.workdir {
        assert(""@ + under(project_dir, p) =~= under(project_dir, p));
    }
    lemma_directives();
    assert(values(service_lines(service, exec_set, project_dir), "WorkingDirectory"@) =~= (listed(service.workdir).map_values(|p: Seq<char>| under(project_dir, p)))) by {
        lemma_service_values(service, exec_set, project_dir, "WorkingDirectory"@);
        lemma_type_values(service, "WorkingDirectory"@);
        lemma_restart_values(service, "WorkingDirectory"@);
        lemma_limit_values(service.resources, "WorkingDirectory"@);
    }
    assert(values(service_lines(service, exec_set, project_dir), "Environment"@) =~= (service.env.map_values(|e: Entry| "\""@ + e.0 + "="@ + e.1 + "\""@))) by {
        lemma_service_values(service, exec_set, project_dir, "Environment"@);
        lemma_type_values(service, "Environment"@);
        lemma_restart_values(service, "Environment"@);
        lemma_limit_values(service.resources, "Environment"@);
    }
    assert(values(service_lines(service, exec_set, project_dir), "EnvironmentFile"@) =~= (service.env_files.map_values(|f: Seq<char>| under(project_dir, f)))) by {
        lemma_service_values(service, exec_set, project_dir, "EnvironmentFile"@);
        lemma_type_values(service, "EnvironmentFile"@);
        lemma_restart_values(service, "EnvironmentFile"@);
        lemma_limit_values(service.resources, "EnvironmentFile"@);
    }
    assert(values(service_lines(service, exec_set, project_dir), "User"@) =~= (listed(service.user))) by {
        lemma_service_values(service, exec_set, project_dir, "User"@);
        lemma_type_values(service, "User"@);
        lemma_restart_values(service, "User"@);
        lemma_limit_values(service.resources, "User"@);
    }
    assert(values(service_lines(service, exec_set, project_dir), "StandardOutput"@) =~= (listed(service.logging.stdout).map_values(|p: Seq<char>| "file:"@ + under(project_dir, p)))) by {
        lemma_service_values(service, exec_set, project_dir, "StandardOutput"@);
        lemma_type_values(service, "StandardOutput"@);
        lemma_restart_values(service, "StandardOutput"@);
        lemma_limit_values(service.resources, "StandardOutput"@);
    }
    assert(values(service_lines(service, exec_set, project_dir), "StandardError"@) =~= (listed(service.logging.stderr).map_values(|p: Seq<char>| "file:"@ + under(project_dir, p)))) by {
        lemma_service_values(service, exec_set, project_dir, "StandardError"@);
        lemma_type_values(service, "StandardError"@);
        lemma_restart_values(service, "StandardError"@);
        lemma_limit_values(service.resources, "StandardError"@);
    }
}

/// A unit limits its service in time and in resources as the service says, and in
/// nothing else.
pub proof fn law_units_keep_the_limits(
    service: ServiceView,
    exec_set: ExecSetView,
    project_dir: Seq<char>,
)
    ensures
        values(service_lines(service, exec_set, project_dir), "TimeoutStartSec"@) == (listed(service.timeouts.start)),
        values(service_lines(service, exec_set, project_dir), "TimeoutStopSec"@) == (listed(service.timeouts.stop)),
        values(service_lines(service, exec_set, project_dir), "MemoryMax"@) == (listed(service.resources.memory)),
        values(service_lines(service, exec_set, project_dir), "CPUQuota"@) == (if service.resources.cpu_quota is Some {
                seq![service.resources.cpu_quota->0]
            } else if service.resources.cpus is Some {
                seq![decimal(service.resources.cpus->0.percent as nat) + "%"@]
            } else {
                seq![]
            }),
        values(service_lines(service, exec_set, project_dir), "LimitNOFILE"@) == (numbers(service.resources.limit_nofile)),
        values(service_lines(service, exec_set, project_dir), "LimitNPROC"@) == (numbers(service.resources.limit_nproc)),
        values(service_lines(service, exec_set, project_dir), "TasksMax"@) == (numbers(service.resources.tasks_max)),
        values(service_lines(service, exec_set, project_dir), "IOWeight"@) == (listed(service.resources.io_weight).map_values(|n: u32| decimal(n as nat))),
{
    lemma_directives();
    assert(values(service_lines(service, exec_set, project_dir), "TimeoutStartSec"@) =~= (listed(service.timeouts.start))) by {
        lemma_service_values(service, exec_set, project_dir, "TimeoutStartSec"@);
        lemma_type_values(service, "TimeoutStartSec"@);
        lemma_restart_values(service, "TimeoutStartSec"@);
        lemma_limit_values(service.resources, "TimeoutStartSec"@);
    }
    assert(values(service_lines(service, exec_set, project_dir), "TimeoutStopSec"@) =~= (listed(service.timeouts.stop))) by {
        lemma_service_values(service, exec_set, project_dir, "TimeoutStopSec"@);
        lemma_type_values(service, "TimeoutStopSec"@);
        lemma_restart_values(service, "TimeoutStopSec"@);
        lemma_limit_values(service.resources, "TimeoutStopSec"@);
    }
    assert(values(service_lines(service, exec_set, project_dir), "MemoryMax"@) =~= (listed(service.resources.memory))) by {
        lemma_service_values(service, exec_set, project_dir, "MemoryMax"@);
        lemma_type_values(service, "MemoryMax"@);
        lemma_restart_values(service, "MemoryMax"@);
        lemma_limit_values(service.resources, "MemoryMax"@);
    }
    assert(values(service_lines(service, exec_set, project_dir), "CPUQuota"@) =~= (if service.resources.cpu_quota is Some {
                seq![service.resources.cpu_quota->0]
            } else if service.resources.cpus is Some {
                seq![decimal(service.resources.cpus->0.percent as nat) + "%"@]
            } else {
                seq![]
            })) by {
        lemma_service_values(service, exec_set, project_dir, "CPUQuota"@);
        lemma_type_values(service, "CPUQuota"@);
        lemma_restart_values(service, "CPUQuota"@);
        lemma_limit_values(service.resources, "CPUQuota"@);
    }
    assert(values(service_lines(service, exec_set, project_dir), "LimitNOFILE"@) =~= (numbers(service.resources.limit_nofile))) by {
        lemma_service_values(service, exec_set, project_dir, "LimitNOFILE"@);
        lemma_type_values(service, "LimitNOFILE"@);
        lemma_restart_values(service, "LimitNOFILE"@);
        lemma_limit_values(service.resources, "LimitNOFILE"@);
    }
    assert(values(service_lines(service, exec_set, project_dir), "LimitNPROC"@) =~= (numbers(service.resources.limit_nproc))) by {
        lemma_service_values(service, exec_set, project_dir, "LimitNPROC"@);
        lemma_type_values(service, "LimitNPROC"@);
        lemma_restart_values(service, "LimitNPROC"@);
        lemma_limit_values(service.resources, "LimitNPROC"@);
    }
    assert(values(service_lines(service, exec_set, project_dir), "TasksMax"@) =~= (numbers(service.resources.tasks_max))) by {
        lemma_service_values(service, exec_set, project_dir, "TasksMax"@);
        lemma_type_values(service, "TasksMax"@);
        lemma_restart_values(service, "TasksMax"@);
        lemma_limit_values(service.resources, "TasksMax"@);
    }
    assert(values(service_lines(service, exec_set, project_dir), "IOWeight"@) =~= (listed(service.resources.io_weight).map_values(|n: u32| decimal(n as nat)))) by {
        lemma_service_values(service, exec_set, project_dir, "IOWeight"@);
        lemma_type_values(service, "IOWeight"@);
        lemma_restart_values(service, "IOWeight"@);
        lemma_limit_values(service.resources, "IOWeight"@);
    }
}

/// The policies are told apart: units of services that are no oneshots say the
/// same of starting again only where the policies are the same.
pub proof fn law_policies_are_told_apart(
    a: ServiceView,
    b: ServiceView,
    exec_set: ExecSetView,
    project_dir: Seq<char>,
)
    requires
        !a.oneshot,
        !b.oneshot,
        values(service_lines(a, exec_set, project_dir), "Restart"@) == values(
            service_lines(b, exec_set, project_dir),
            "Restart"@,
        ),
    ensures
        a.restart.policy == b.restart.policy,
{
    law_units_restart_as_told(a, exec_set, project_dir);
    law_units_restart_as_told(b, exec_set, project_dir);
    reveal_strlit("always");
    reveal_strlit("on-failure");
    reveal_strlit("no");
    let x = values(service_lines(a, exec_set, project_dir), "Restart"@);
    let y = values(service_lines(b, exec_set, project_dir), "Restart"@);
    assert(x[0] == y[0]);
    assert("always"@.len() == 6 && "on-failure"@.len() == 10 && "no"@.len() == 2);
    match a.restart.policy {
        RestartPolicy::Always => assert(x[0] == "always"@),
        RestartPolicy::OnFailure => assert(x[0] == "on-failure"@),
        RestartPolicy::No => assert(x[0] == "no"@),
    }
    match b.restart.policy {
        RestartPolicy::Always => assert(y[0] == "always"@),
        RestartPolicy::OnFailure => assert(y[0] == "on-failure"@),
        RestartPolicy::No => assert(y[0] == "no"@),
    }
}

/// Lines are written one below the other, each as `key=value`.
pub proof fn law_lines_are_settings(lines: Seq<Entry>, key: Seq<char>, value: Seq<char>)
    ensures
        settings(Seq::empty()) == Seq::<char>::empty(),
        settings(lines.push((key, value))) == settings(lines) + (key + "="@ + value + "\n"@),
{
    let more = lines.push((key, value));
    assert(more.drop_last() =~= lines);
    assert(settings(more) =~= settings(lines) + (key + "="@ + value + "\n"@));
}

/// The line of a list of units, if there is any.
pub open spec fn list_line(key: Seq<char>, units: Seq<Seq<char>>) -> Seq<char> {
    if units.len() == 0 {
        Seq::empty()
    } else {
        key + "="@ + joined(units, " "@) + "\n"@
    }
}

proof fn lemma_list_line(lines: Seq<Entry>, key: Seq<char>, units: Seq<Seq<char>>)
    ensures
        settings(lines + unit_list(key, units)) == settings(lines) + list_line(key, units),
{
    if units.len() == 0 {
        assert(lines + unit_list(key, units) =~= lines);
        assert(settings(lines) + list_line(key, units) =~= settings(lines));
    } else {
        let value = joined(units, " "@);
        assert(lines + unit_list(key, units) =~= lines.push((key, value)));
        law_lines_are_settings(lines, key, value);
    }
}

proof fn lemma_two_lines(a: Seq<char>, b: Seq<char>, c: Seq<char>, d: Seq<char>)
    ensures
        settings(seq![(a, b), (c, d)]) == a + "="@ + b + "\n"@ + c + "="@ + d + "\n"@,
{
    law_lines_are_settings(Seq::empty(), a, b);
    law_lines_are_settings(seq![(a, b)], c, d);
    assert(Seq::<Entry>::empty().push((a, b)) =~= seq![(a, b)]);
    assert(seq![(a, b)].push((c, d)) =~= seq![(a, b), (c, d)]);
    assert(settings(seq![(a, b), (c, d)]) =~= a + "="@ + b + "\n"@ + c + "="@ + d + "\n"@);
}

/// A unit names its service, is part of the namespace's target, comes after what
/// the service waits for and is bound to what it requires. What has a ready gate
/// is waited for with that gate.
pub proof fn law_units_order_services(
    service: ServiceView,
    namespace: Seq<char>,
    gates: Set<Seq<char>>,
)
    ensures
        section("Unit"@, unit_lines(service, namespace, gates)) == "[Unit]\nDescription=orch: "@
            + service.name + "\nPartOf="@ + namespace + ".target\n"@ + list_line(
            "After"@,
            (service.requires + service.after).map_values(
                |dep: Seq<char>|
                    namespace + "-"@ + dep + (if gates.contains(dep) {
                        "-ready.service"@
                    } else {
                        ".service"@
                    }),
            ),
        ) + list_line(
            "BindsTo"@,
            service.requires.map_values(|dep: Seq<char>| namespace + "-"@ + dep + ".service"@),
        ),
{
    reveal_strlit("[");
    reveal_strlit("]\n");
    reveal_strlit("Unit");
    reveal_strlit("\n");
    reveal_strlit("=");
    reveal_strlit("orch: ");
    reveal_strlit("Description");
    reveal_strlit("PartOf");
    reveal_strlit(".target");
    reveal_strlit(".target\n");
    reveal_strlit("[Unit]\nDescription=orch: ");
    reveal_strlit("\nPartOf=");
    let after = (service.requires + service.after).map_values(
        |dep: Seq<char>|
            namespace + "-"@ + dep + (if gates.contains(dep) {
                "-ready.service"@
            } else {
                ".service"@
            }),
    );
    let bound = service.requires.map_values(
        |dep: Seq<char>| namespace + "-"@ + dep + ".service"@,
    );
    assert(after_units(namespace, gates, service) =~= after);
    assert(bound_units(namespace, service) =~= bound);
    let head = seq![
        ("Description"@, "orch: "@ + service.name),
        ("PartOf"@, namespace + ".target"@),
    ];
    let mid = head + unit_list("After"@, after);
    lemma_two_lines("Description"@, "orch: "@ + service.name, "PartOf"@, namespace + ".target"@);
    lemma_list_line(head, "After"@, after);
    lemma_list_line(mid, "BindsTo"@, bound);
    assert(unit_lines(service, namespace, gates) == mid + unit_list("BindsTo"@, bound));
    let opening = "["@ + "Unit"@ + "]\n"@;
    assert(opening + settings(head) =~= "[Unit]\nDescription=orch: "@ + service.name
        + "\nPartOf="@ + namespace + ".target\n"@);
    assert(opening + (settings(head) + list_line("After"@, after) + list_line("BindsTo"@, bound))
        =~= opening + settings(head) + list_line("After"@, after) + list_line("BindsTo"@, bound));
}

/// A unit has three sections, and is wanted by the namespace's target.
pub proof fn law_units_have_three_sections(
    service: ServiceView,
    exec_set: ExecSetView,
    namespace: Seq<char>,
    project_dir: Seq<char>,
    gates: Set<Seq<char>>,
)
    ensures
        service_unit(service, exec_set, namespace, project_dir, gates) == section(
            "Unit"@,
            unit_lines(service, namespace, gates),
        ) + "\n[Service]\n"@ + settings(service_lines(service, exec_set, project_dir))
            + "\n[Install]\nWantedBy="@ + namespace + ".target\n"@,
{
    reveal_strlit("[");
    reveal_strlit("]\n");
    reveal_strlit("\n");
    reveal_strlit("=");
    reveal_strlit("Service");
    reveal_strlit("Install");
    reveal_strlit("WantedBy");
    reveal_strlit("\n[Service]\n");
    reveal_strlit("\n[Install]\nWantedBy=");
    reveal_strlit(".target");
    reveal_strlit(".target\n");
    let head = section("Unit"@, unit_lines(service, namespace, gates));
    let body = settings(service_lines(service, exec_set, project_dir));
    law_lines_are_settings(Seq::empty(), "WantedBy"@, namespace + ".target"@);
    assert(Seq::<Entry>::empty().push(("WantedBy"@, namespace + ".target"@)) =~= seq![
        ("WantedBy"@, namespace + ".target"@),
    ]);
    assert("\n"@ + ("["@ + "Service"@ + "]\n"@) =~= "\n[Service]\n"@);
    assert("\n"@ + ("["@ + "Install"@ + "]\n"@ + ("WantedBy"@ + "="@ + (namespace + ".target"@)
        + "\n"@)) =~= "\n[Install]\nWantedBy="@ + namespace + ".target\n"@);
    assert(service_unit(service, exec_set, namespace, project_dir, gates) =~= head + ("\n"@ + (
    "["@ + "Service"@ + "]\n"@)) + body + ("\n"@ + ("["@ + "Install"@ + "]\n"@ + ("WantedBy"@
        + "="@ + (namespace + ".target"@) + "\n"@))));
}

/// A ready gate comes after the unit of its service and is bound to it. It polls
/// the health of the service every two seconds until it is healthy, for as long
/// as the service is given to become ready, or 90 seconds.
pub proof fn law_gates_poll_the_health(
    service: ServiceView,
    healthcheck: Seq<char>,
    namespace: Seq<char>,
)
    ensures
        ({
            let unit = namespace + "-"@ + service.name + ".service"@;
            let timeout = match service.readiness_timeout {
                Some(t) => t,
                None => "90s"@,
            };
            gate_unit(service, healthcheck, namespace) == "[Unit]\nDescription=orch: wait for "@
                + service.name + " health\nAfter="@ + unit + "\nBindsTo="@ + unit
                + "\n\n[Service]\nType=oneshot\nRemainAfterExit=yes\nExecStart=/bin/bash -c 'until "@
                + quoted(health_command(healthcheck))
                + " >/dev/null 2>&1; do sleep 2; done; exit 0'\nTimeoutStartSec="@ + timeout + "\n"@
        }),
{
    reveal_strlit("[");
    reveal_strlit("]\n");
    reveal_strlit("\n");
    reveal_strlit("=");
    reveal_strlit("Unit");
    reveal_strlit("Service");
    reveal_strlit("Description");
    reveal_strlit("After");
    reveal_strlit("BindsTo");
    reveal_strlit("Type");
    reveal_strlit("RemainAfterExit");
    reveal_strlit("ExecStart");
    reveal_strlit("TimeoutStartSec");
    reveal_strlit("oneshot");
    reveal_strlit("yes");
    reveal_strlit("orch: wait for ");
    reveal_strlit(" health");
    reveal_strlit("/bin/bash -c 'until ");
    reveal_strlit(" >/dev/null 2>&1; do sleep 2; done; exit 0'");
    reveal_strlit("[Unit]\nDescription=orch: wait for ");
    reveal_strlit(" health\nAfter=");
    reveal_strlit("\nBindsTo=");
    reveal_strlit("\n\n[Service]\nType=oneshot\nRemainAfterExit=yes\nExecStart=/bin/bash -c 'until ");
    reveal_strlit(" >/dev/null 2>&1; do sleep 2; done; exit 0'\nTimeoutStartSec=");
    let unit = namespace + "-"@ + service.name + ".service"@;
    let timeout = match service.readiness_timeout {
        Some(t) => t,
        None => "90s"@,
    };
    let check = quoted(health_command(healthcheck));
    let title = "orch: wait for "@ + service.name + " health"@;
    let loops = "/bin/bash -c 'until "@ + check + " >/dev/null 2>&1; do sleep 2; done; exit 0'"@;
    lemma_two_lines("Description"@, title, "After"@, unit);
    law_lines_are_settings(seq![("Description"@, title), ("After"@, unit)], "BindsTo"@, unit);
    let head = seq![("Description"@, title), ("After"@, unit), ("BindsTo"@, unit)];
    assert(seq![("Description"@, title), ("After"@, unit)].push(("BindsTo"@, unit)) =~= head);
    lemma_two_lines("Type"@, "oneshot"@, "RemainAfterExit"@, "yes"@);
    let first = seq![("Type"@, "oneshot"@), ("RemainAfterExit"@, "yes"@)];
    law_lines_are_settings(first, "ExecStart"@, loops);
    law_lines_are_settings(first.push(("ExecStart"@, loops)), "TimeoutStartSec"@, timeout);
    let body = seq![
        ("Type"@, "oneshot"@),
        ("RemainAfterExit"@, "yes"@),
        ("ExecStart"@, loops),
        ("TimeoutStartSec"@, timeout),
    ];
    assert(first.push(("ExecStart"@, loops)).push(("TimeoutStartSec"@, timeout)) =~= body);
    let a = "["@ + "Unit"@ + "]\n"@ + settings(head);
    let b = "["@ + "Service"@ + "]\n"@ + settings(body);
    assert(gate_unit(service, healthcheck, namespace) == a + "\n"@ + b);
    assert(a =~= "[Unit]\nDescription=orch: wait for "@ + service.name + " health\nAfter="@ + unit
        + "\nBindsTo="@ + unit + "\n"@);
    assert("\n"@ + "\n"@ + ("["@ + "Service"@ + "]\n"@ + ("Type"@ + "="@ + "oneshot"@ + "\n"@
        + "RemainAfterExit"@ + "="@ + "yes"@ + "\n"@) + "ExecStart"@ + "="@
        + "/bin/bash -c 'until "@)
        =~= "\n\n[Service]\nType=oneshot\nRemainAfterExit=yes\nExecStart=/bin/bash -c 'until "@);
    assert(" >/dev/null 2>&1; do sleep 2; done; exit 0'"@ + "\n"@ + "TimeoutStartSec"@ + "="@
        =~= " >/dev/null 2>&1; do sleep 2; done; exit 0'\nTimeoutStartSec="@);
    assert("\n"@ + "\n"@ + b =~= ("\n"@ + "\n"@ + ("["@ + "Service"@ + "]\n"@ + ("Type"@ + "="@
        + "oneshot"@ + "\n"@ + "RemainAfterExit"@ + "="@ + "yes"@ + "\n"@) + "ExecStart"@ + "="@
        + "/bin/bash -c 'until "@)) + check + (" >/dev/null 2>&1; do sleep 2; done; exit 0'"@
        + "\n"@ + "TimeoutStartSec"@ + "="@) + timeout + "\n"@);
    let opening = "[Unit]\nDescription=orch: wait for "@ + service.name + " health\nAfter="@ + unit
        + "\nBindsTo="@ + unit;
    assert(a + "\n"@ + b =~= opening + ("\n"@ + "\n"@ + b));
    assert(a + "\n"@ + b =~= opening
        + "\n\n[Service]\nType=oneshot\nRemainAfterExit=yes\nExecStart=/bin/bash -c 'until "@
        + check + " >/dev/null 2>&1; do sleep 2; done; exit 0'\nTimeoutStartSec="@ + timeout
        + "\n"@);
}

/// Every service that has commands gets its unit, in order and under its own
/// name, in the units directory. The target is last.
pub proof fn law_every_service_gets_a_unit(
    services: Seq<ServiceView>,
    exec_sets: Seq<(usize, ExecSetView)>,
    config: &Config,
    k: int,
)
    requires
        0 <= k < exec_sets.len(),
    ensures
        ({
            let all = systemd_artifacts(services, exec_sets, config);
            let service = services[exec_sets[k].0 as int];
            let name = config.namespace@ + "-"@ + service.name + ".service"@;
            let target = config.namespace@ + ".target"@;
            &&& all.len() > exec_sets.len()
            &&& all[k].kind == "unit"@
            &&& all[k].label == name
            &&& all[k].path == under(under(config.state_dir@, "units"@), name)
            &&& all[k].content == service_unit(
                service,
                exec_sets[k].1,
                config.namespace@,
                config.project_dir@,
                ready_set(services),
            )
            &&& all.last().kind == "target"@
            &&& all.last().label == target
            &&& all.last().path == under(under(config.state_dir@, "units"@), target)
            &&& all.last().content
                == "[Unit]\nDescription=orch managed services\n\n[Install]\nWantedBy=multi-user.target\n"@
        }),
{
    law_target_is_wanted();
    let units = unit_artifacts(services, exec_sets, config, ready_set(services));
    let all = systemd_artifacts(services, exec_sets, config);
    assert(all[k] == units[k]);
}

/// The target is wanted by the machine's own.
pub proof fn law_target_is_wanted()
    ensures
        target_unit()
            == "[Unit]\nDescription=orch managed services\n\n[Install]\nWantedBy=multi-user.target\n"@,
{
    reveal_strlit("[");
    reveal_strlit("]\n");
    reveal_strlit("\n");
    reveal_strlit("=");
    reveal_strlit("Unit");
    reveal_strlit("Install");
    reveal_strlit("Description");
    reveal_strlit("WantedBy");
    reveal_strlit("orch managed services");
    reveal_strlit("multi-user.target");
    reveal_strlit("[Unit]\nDescription=orch managed services\n\n[Install]\nWantedBy=multi-user.target\n");
    law_lines_are_settings(Seq::empty(), "Description"@, "orch managed services"@);
    law_lines_are_settings(Seq::empty(), "WantedBy"@, "multi-user.target"@);
    assert(Seq::<Entry>::empty().push(("Description"@, "orch managed services"@)) =~= seq![
        ("Description"@, "orch managed services"@),
    ]);
    assert(Seq::<Entry>::empty().push(("WantedBy"@, "multi-user.target"@)) =~= seq![
        ("WantedBy"@, "multi-user.target"@),
    ]);
    assert(target_unit()
        =~= "[Unit]\nDescription=orch managed services\n\n[Install]\nWantedBy=multi-user.target\n"@);
}

/// A name has a ready gate exactly if an enabled service of that name has a
/// healthcheck, and an enabled service requires it or comes after it.
pub proof fn law_awaited_health_makes_a_gate(services: Seq<ServiceView>, name: Seq<char>)
    ensures
        ready_set(services).contains(name) <==> (exists|i: int|
            0 <= i < services.len() && (#[trigger] services[i]).name == name
                && !services[i].disabled && services[i].healthcheck is Some) && (exists|j: int|
            0 <= j < services.len() && !(#[trigger] services[j]).disabled && (
            services[j].requires.contains(name) || services[j].after.contains(name))),
        gated(services).contains(name) <==> (exists|i: int|
            0 <= i < services.len() && (#[trigger] services[i]).name == name
                && !services[i].disabled && (services[i].healthcheck is Some || (exists|j: int|
                0 <= j < services.len() && !(#[trigger] services[j]).disabled
                    && services[j].requires.contains(name)))) && (exists|j: int|
            0 <= j < services.len() && !(#[trigger] services[j]).disabled && (
            services[j].requires.contains(name) || services[j].after.contains(name))),
{
    law_ready_gates(services, name);
    law_gated(services, name);
    if depended_upon(services, name) {
        let j = choose|j: int|
            0 <= j < services.len() && !(#[trigger] services[j]).disabled
                && services[j].depends_on(name);
        assert(services[j].requires.contains(name) || services[j].after.contains(name));
    }
    if exists|j: int|
        0 <= j < services.len() && !(#[trigger] services[j]).disabled && (
        services[j].requires.contains(name) || services[j].after.contains(name)) {
        let j = choose|j: int|
            0 <= j < services.len() && !(#[trigger] services[j]).disabled && (
            services[j].requires.contains(name) || services[j].after.contains(name));
        assert(services[j].depends_on(name));
        assert(depended_upon(services, name));
    }
    if gated(services).contains(name) {
        let i = choose|i: int|
            0 <= i < services.len() && (#[trigger] services[i]).name == name && needs_gate(
                services,
                services[i],
            );
        assert(services[i].name == name);
    }
    if (exists|i: int|
        0 <= i < services.len() && (#[trigger] services[i]).name == name && !services[i].disabled
            && (services[i].healthcheck is Some || (exists|j: int|
            0 <= j < services.len() && !(#[trigger] services[j]).disabled
                && services[j].requires.contains(name)))) && depended_upon(services, name) {
        let i = choose|i: int|
            0 <= i < services.len() && (#[trigger] services[i]).name == name
                && !services[i].disabled && (services[i].healthcheck is Some || (exists|j: int|
                0 <= j < services.len() && !(#[trigger] services[j]).disabled
                    && services[j].requires.contains(name)));
        assert(needs_gate(services, services[i]));
        assert(services[i].name == name);
    }
}

/// Every ready gate that is waited for is generated, in the units directory under
/// its own name, and polls the health of its service.
pub proof fn law_every_gate_is_generated(
    services: Seq<ServiceView>,
    exec_sets: Seq<(usize, ExecSetView)>,
    config: &Config,
    i: int,
)
    requires
        0 <= i < services.len(),
        services[i].healthcheck is Some,
        ready_set(services).contains(services[i].name),
    ensures
        ({
            let name = config.namespace@ + "-"@ + services[i].name + "-ready.service"@;
            systemd_artifacts(services, exec_sets, config).contains(
                ArtifactView {
                    kind: "ready-gate"@,
                    label: name,
                    path: under(under(config.state_dir@, "units"@), name),
                    content: gate_unit(
                        services[i],
                        services[i].healthcheck->0,
                        config.namespace@,
                    ),
                },
            )
        }),
{
    let units = unit_artifacts(services, exec_sets, config, ready_set(services));
    let gates = gate_artifacts(services, config, ready_set(services));
    let all = systemd_artifacts(services, exec_sets, config);
    lemma_gate_among(services, config, ready_set(services), i);
    let g = gate_artifact(services[i], config);
    let k = choose|k: int| 0 <= k < gates.len() && gates[k] == g;
    assert(all[units.len() + k] == g);
}

proof fn lemma_gate_among(
    services: Seq<ServiceView>,
    config: &Config,
    names: Set<Seq<char>>,
    i: int,
)
    requires
        0 <= i < services.len(),
        services[i].healthcheck is Some,
        names.contains(services[i].name),
    ensures
        gate_artifacts(services, config, names).contains(gate_artifact(services[i], config)),
    decreases services.len(),
{
    let gates = gate_artifacts(services, config, names);
    let g = gate_artifact(services[i], config);
    if i < services.len() - 1 {
        let init = services.drop_last();
        let before = gate_artifacts(init, config, names);
        assert(init[i] == services[i]);
        lemma_gate_among(init, config, names, i);
        let k = choose|k: int| 0 <= k < before.len() && before[k] == g;
        assert(gates[k] == g);
    } else {
        assert(gates[gates.len() - 1] == g);
    }
}

/// There is one gate for each service with a health check that others wait for, in
/// the order of the services, and none besides.
pub proof fn law_only_awaited_health_makes_gates(
    services: Seq<ServiceView>,
    service: ServiceView,
    config: &Config,
    awaited: Set<Seq<char>>,
)
    ensures
        gate_artifacts(Seq::empty(), config, awaited) == Seq::<ArtifactView>::empty(),
        gate_artifacts(services.push(service), config, awaited) == gate_artifacts(
            services,
            config,
            awaited,
        ) + (if service.healthcheck is Some && awaited.contains(service.name) {
            seq![gate_artifact(service, config)]
        } else {
            seq![]
        }),
{
    assert(services.push(service).drop_last() =~= services);
    assert(gate_artifacts(services.push(service), config, awaited) =~= gate_artifacts(
        services,
        config,
        awaited,
    ) + (if service.healthcheck is Some && awaited.contains(service.name) {
        seq![gate_artifact(service, config)]
    } else {
        seq![]
    }));
}

/// Felling takes each file of the namespace from where systemd looks and from the
/// units directory, then the directory itself if it is empty, and last makes systemd
/// read its units anew.
pub proof fn law_felling_forgets_the_units(
    names: Seq<Seq<char>>,
    name: Seq<char>,
    config: &Config,
    home: Option<Seq<char>>,
)
    ensures
        ({
            let dir = under(config.state_dir@, "units"@);
            let place = units_home(config.scope, home);
            let own = (config.namespace@ + "-"@).is_prefix_of(name) || name == config.namespace@
                + ".target"@;
            let rest = seq![
                RemovalView::EmptyDirectory { path: dir },
                RemovalView::Call {
                    call: systemctl_call(config.scope, seq!["daemon-reload"@]),
                },
            ];
            &&& removals(names, config, home) == unlinked(names, config.namespace@, dir, place)
                + rest
            &&& unlinked(Seq::empty(), config.namespace@, dir, place)
                == Seq::<RemovalView>::empty()
            &&& unlinked(names.push(name), config.namespace@, dir, place) == unlinked(
                names,
                config.namespace@,
                dir,
                place,
            ) + (if own {
                seq![
                    RemovalView::File { path: under(place, name) },
                    RemovalView::File { path: under(dir, name) },
                ]
            } else {
                seq![]
            })
        }),
{
    let dir = under(config.state_dir@, "units"@);
    let place = units_home(config.scope, home);
    let own = (config.namespace@ + "-"@).is_prefix_of(name) || name == config.namespace@
        + ".target"@;
    assert(names.push(name).drop_last() =~= names);
    assert(unlinked(names.push(name), config.namespace@, dir, place) =~= unlinked(
        names,
        config.namespace@,
        dir,
        place,
    ) + (if own {
        seq![
            RemovalView::File { path: under(place, name) },
            RemovalView::File { path: under(dir, name) },
        ]
    } else {
        seq![]
    }));
}

} // verus!
