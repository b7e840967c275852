//! The systemd units of services.

use crate::collections::{list_has, Entry, StringSet};
use crate::config::{target_name, unit_name, Config};
use crate::exec::{ExecSet, ExecSetView};
use crate::orchdi::{health_command, healthcheck_to_cmd};
use crate::paths::{join, under};
use crate::platform::systemd::unit::{
    escape_bash, number, optional, put, put_number, put_optional, put_section, quoted, section,
};
use crate::platform::{get_or, value_or};
use crate::text::number::{decimal, push_decimal};
use crate::text::scan::{join as join_texts, joined};
use crate::types::{ResourceLimits, ResourceLimitsView, RestartPolicy, Service, ServiceView};
use vstd::prelude::*;

verus! {

/// The unit that becomes active once a service is healthy.
pub open spec fn gate_name(namespace: Seq<char>, service: Seq<char>) -> Seq<char> {
    namespace + "-"@ + service + "-ready.service"@
}

/// The unit that becomes active once a service is healthy.
pub fn ready_gate_name(config: &Config, service_name: &str) -> (r: String)
    ensures
        r@ == gate_name(config.namespace@, service_name@),
{
    let mut r = config.namespace.clone();
    r.append("-");
    r.append(service_name);
    r.append("-ready.service");
    r
}

/// What a dependency is waited for with: its ready gate where it has one, else
/// its own unit.
pub open spec fn awaited_unit(namespace: Seq<char>, gates: Set<Seq<char>>, dep: Seq<char>) -> Seq<
    char,
> {
    if gates.contains(dep) {
        gate_name(namespace, dep)
    } else {
        unit_name(namespace, dep)
    }
}

/// The units that a service comes after.
pub open spec fn after_units(
    namespace: Seq<char>,
    gates: Set<Seq<char>>,
    service: ServiceView,
) -> Seq<Seq<char>> {
    (service.requires + service.after).map_values(
        |dep: Seq<char>| awaited_unit(namespace, gates, dep),
    )
}

/// The units that a service is bound to.
pub open spec fn bound_units(namespace: Seq<char>, service: ServiceView) -> Seq<Seq<char>> {
    service.requires.map_values(|dep: Seq<char>| unit_name(namespace, dep))
}

/// A list of units on one line, left out where there are none.
pub open spec fn unit_list(key: Seq<char>, units: Seq<Seq<char>>) -> Seq<Entry> {
    if units.len() > 0 {
        seq![(key, joined(units, " "@))]
    } else {
        seq![]
    }
}

/// A command as systemd runs it.
pub open spec fn shell_command(cmd: Seq<char>) -> Seq<char> {
    "/bin/bash -c '"@ + quoted(cmd) + "'"@
}

/// An optional command as systemd runs it.
pub open spec fn optional_command(key: Seq<char>, cmd: Option<Seq<char>>) -> Seq<Entry> {
    match cmd {
        Some(c) => seq![(key, shell_command(c))],
        None => seq![],
    }
}

/// An optional path, seen from the project directory.
pub open spec fn optional_path(
    key: Seq<char>,
    before: Seq<char>,
    path: Option<Seq<char>>,
    project_dir: Seq<char>,
) -> Seq<Entry> {
    match path {
        Some(p) => seq![(key, before + under(project_dir, p))],
        None => seq![],
    }
}

/// The environment of a service.
pub open spec fn environment(env: Seq<Entry>) -> Seq<Entry> {
    env.map_values(|e: Entry| ("Environment"@, "\""@ + e.0 + "="@ + e.1 + "\""@))
}

/// The environment files of a service.
pub open spec fn environment_files(files: Seq<Seq<char>>, project_dir: Seq<char>) -> Seq<Entry> {
    files.map_values(|f: Seq<char>| ("EnvironmentFile"@, under(project_dir, f)))
}

/// What kind of unit a service is.
pub open spec fn service_type(service: ServiceView) -> Seq<Entry> {
    if service.oneshot {
        seq![("Type"@, "oneshot"@), ("RemainAfterExit"@, "yes"@)]
    } else {
        seq![("Type"@, "simple"@)]
    }
}

/// A restart policy as systemd calls it.
pub open spec fn restart_word(policy: RestartPolicy) -> Seq<char> {
    match policy {
        RestartPolicy::No => "no"@,
        RestartPolicy::Always => "always"@,
        RestartPolicy::OnFailure => "on-failure"@,
    }
}

/// When systemd starts a service again.
pub open spec fn restarts(service: ServiceView) -> Seq<Entry> {
    if service.oneshot {
        seq![]
    } else {
        seq![("Restart"@, restart_word(service.restart.policy))] + optional(
            "RestartSec"@,
            service.restart.delay,
        )
    }
}

/// The limit on CPU time: a quota that is given as such wins over a number of
/// CPUs.
pub open spec fn cpu_limit(res: ResourceLimitsView) -> Seq<Entry> {
    match res.cpu_quota {
        Some(quota) => seq![("CPUQuota"@, quota)],
        None => match res.cpus {
            Some(cpus) => seq![("CPUQuota"@, decimal(cpus.percent as nat) + "%"@)],
            None => seq![],
        },
    }
}

/// A 32-bit number as a 64-bit one.
pub open spec fn widened(n: Option<u32>) -> Option<u64> {
    match n {
        Some(v) => Some(v as u64),
        None => None,
    }
}

/// The limits of a service.
pub open spec fn limits(res: ResourceLimitsView) -> Seq<Entry> {
    optional("MemoryMax"@, res.memory) + cpu_limit(res) + number("LimitNOFILE"@, res.limit_nofile)
        + number("LimitNPROC"@, res.limit_nproc) + number("TasksMax"@, res.tasks_max) + number(
        "IOWeight"@,
        widened(res.io_weight),
    )
}

/// The `[Unit]` section of a service.
pub open spec fn unit_lines(
    service: ServiceView,
    namespace: Seq<char>,
    gates: Set<Seq<char>>,
) -> Seq<Entry> {
    seq![("Description"@, "orch: "@ + service.name), ("PartOf"@, target_name(namespace))]
        + unit_list("After"@, after_units(namespace, gates, service)) + unit_list(
        "BindsTo"@,
        bound_units(namespace, service),
    )
}

/// The `[Service]` section of a service.
pub open spec fn service_lines(
    service: ServiceView,
    exec_set: ExecSetView,
    project_dir: Seq<char>,
) -> Seq<Entry> {
    service_type(service) + optional_command("ExecStartPre"@, exec_set.pre_start) + seq![
        ("ExecStart"@, shell_command(exec_set.start)),
    ] + optional_command("ExecStop"@, exec_set.stop) + optional_command(
        "ExecStopPost"@,
        exec_set.post_stop,
    ) + optional_command("ExecReload"@, service.reload_command) + optional_path(
        "WorkingDirectory"@,
        ""@,
        service.workdir,
        project_dir,
    ) + environment(service.env) + environment_files(service.env_files, project_dir) + optional("User"@, service.user)
        + restarts(service) + number("StartLimitBurst"@, widened(service.restart.start_limit_burst))
        + optional("StartLimitIntervalSec"@, service.restart.start_limit_interval) + optional(
        "TimeoutStartSec"@,
        service.timeouts.start,
    ) + optional("TimeoutStopSec"@, service.timeouts.stop) + limits(service.resources)
        + optional_path("StandardOutput"@, "file:"@, service.logging.stdout, project_dir)
        + optional_path("StandardError"@, "file:"@, service.logging.stderr, project_dir)
}

/// The unit of a service.
pub open spec fn service_unit(
    service: ServiceView,
    exec_set: ExecSetView,
    namespace: Seq<char>,
    project_dir: Seq<char>,
    gates: Set<Seq<char>>,
) -> Seq<char> {
    section("Unit"@, unit_lines(service, namespace, gates)) + "\n"@ + section(
        "Service"@,
        service_lines(service, exec_set, project_dir),
    ) + "\n"@ + section("Install"@, seq![("WantedBy"@, target_name(namespace))])
}

/// The unit that waits for a service's health.
pub open spec fn gate_unit(
    service: ServiceView,
    healthcheck: Seq<char>,
    namespace: Seq<char>,
) -> Seq<char> {
    let unit = unit_name(namespace, service.name);
    section(
        "Unit"@,
        seq![
            ("Description"@, "orch: wait for "@ + service.name + " health"@),
            ("After"@, unit),
            ("BindsTo"@, unit),
        ],
    ) + "\n"@ + section(
        "Service"@,
        seq![
            ("Type"@, "oneshot"@),
            ("RemainAfterExit"@, "yes"@),
            (
                "ExecStart"@,
                "/bin/bash -c 'until "@ + quoted(health_command(healthcheck))
                    + " >/dev/null 2>&1; do sleep 2; done; exit 0'"@,
            ),
            ("TimeoutStartSec"@, value_or(service.readiness_timeout, "90s"@)),
        ],
    )
}

/// The unit that groups all services.
pub open spec fn target_unit() -> Seq<char> {
    section("Unit"@, seq![("Description"@, "orch managed services"@)]) + "\n"@ + section(
        "Install"@,
        seq![("WantedBy"@, "multi-user.target"@)],
    )
}

fn put_unit_list(lines: &mut Vec<(String, String)>, key: &str, units: &Vec<String>)
    ensures
        final(lines).deep_view() == old(lines).deep_view() + unit_list(key@, units.deep_view()),
{
    if units.len() > 0 {
        put(lines, key, join_texts(units, " "));
    }
    assert(final(lines).deep_view() =~= old(lines).deep_view() + unit_list(
        key@,
        units.deep_view(),
    ));
}

fn shell_command_of(cmd: &str) -> (r: String)
    ensures
        r@ == shell_command(cmd@),
{
    let mut r = "/bin/bash -c '".to_string();
    r.append(escape_bash(cmd).as_str());
    r.append("'");
    r
}

fn put_command(lines: &mut Vec<(String, String)>, key: &str, cmd: &Option<String>)
    ensures
        final(lines).deep_view() == old(lines).deep_view() + optional_command(
            key@,
            cmd.deep_view(),
        ),
{
    if let Some(c) = cmd {
        put(lines, key, shell_command_of(c.as_str()));
    }
    assert(final(lines).deep_view() =~= old(lines).deep_view() + optional_command(
        key@,
        cmd.deep_view(),
    ));
}

fn put_path(
    lines: &mut Vec<(String, String)>,
    key: &str,
    before: &str,
    path: &Option<String>,
    project_dir: &str,
)
    ensures
        final(lines).deep_view() == old(lines).deep_view() + optional_path(
            key@,
            before@,
            path.deep_view(),
            project_dir@,
        ),
{
    if let Some(p) = path {
        let mut value = before.to_string();
        value.append(join(project_dir, p.as_str()).as_str());
        put(lines, key, value);
    }
    assert(final(lines).deep_view() =~= old(lines).deep_view() + optional_path(
        key@,
        before@,
        path.deep_view(),
        project_dir@,
    ));
}

fn put_environment(lines: &mut Vec<(String, String)>, service: &Service)
    ensures
        final(lines).deep_view() == old(lines).deep_view() + environment(service@.env),
{
    let ghost env = service@.env;
    let ghost all = environment(env);
    let ghost before = lines.deep_view();
    let n: usize = service.env.len();
    assert(lines.deep_view() =~= before + all.take(0));
    for i in 0..n
        invariant
            env == service.env.entries(),
            n == env.len(),
            all == environment(env),
            lines.deep_view() == before + all.take(i as int),
    {
        let mut value = "\"".to_string();
        value.append(service.env.key_at(i));
        value.append("=");
        value.append(service.env.value_at(i));
        value.append("\"");
        put(lines, "Environment", value);
        assert(lines.deep_view() =~= before + all.take(i + 1));
    }
    assert(all.take(n as int) == all);
}

fn put_environment_files(
    lines: &mut Vec<(String, String)>,
    files: &Vec<String>,
    project_dir: &str,
)
    ensures
        final(lines).deep_view() == old(lines).deep_view() + environment_files(
            files.deep_view(),
            project_dir@,
        ),
{
    let ghost all = environment_files(files.deep_view(), project_dir@);
    let ghost before = lines.deep_view();
    let n: usize = files.len();
    assert(lines.deep_view() =~= before + all.take(0));
    for i in 0..n
        invariant
            n == files@.len(),
            all == environment_files(files.deep_view(), project_dir@),
            lines.deep_view() == before + all.take(i as int),
    {
        put(lines, "EnvironmentFile", join(project_dir, files[i].as_str()));
        assert(files.deep_view()[i as int] == files@[i as int]@);
        assert(lines.deep_view() =~= before + all.take(i + 1));
    }
    assert(all.take(n as int) == all);
}

fn put_service_type(lines: &mut Vec<(String, String)>, service: &Service)
    ensures
        final(lines).deep_view() == old(lines).deep_view() + service_type(service@),
{
    if service.oneshot {
        put(lines, "Type", "oneshot".to_string());
        put(lines, "RemainAfterExit", "yes".to_string());
    } else {
        put(lines, "Type", "simple".to_string());
    }
    assert(final(lines).deep_view() =~= old(lines).deep_view() + service_type(service@));
}

fn put_restarts(lines: &mut Vec<(String, String)>, service: &Service)
    ensures
        final(lines).deep_view() == old(lines).deep_view() + restarts(service@),
{
    if !service.oneshot {
        let word = match service.restart.policy {
            RestartPolicy::No => "no",
            RestartPolicy::Always => "always",
            RestartPolicy::OnFailure => "on-failure",
        };
        put(lines, "Restart", word.to_string());
        put_optional(lines, "RestartSec", &service.restart.delay);
    }
    assert(final(lines).deep_view() =~= old(lines).deep_view() + restarts(service@));
}

fn widen(n: Option<u32>) -> (r: Option<u64>)
    ensures
        r == widened(n),
{
    match n {
        Some(v) => Some(v as u64),
        None => None,
    }
}

fn put_cpu_limit(lines: &mut Vec<(String, String)>, res: &ResourceLimits)
    ensures
        final(lines).deep_view() == old(lines).deep_view() + cpu_limit(res@),
{
    match &res.cpu_quota {
        Some(quota) => {
            put(lines, "CPUQuota", quota.clone());
        },
        None => {
            if let Some(cpus) = &res.cpus {
                let mut value = String::new();
                push_decimal(&mut value, cpus.percent as u64);
                value.append("%");
                assert(value@ =~= decimal(cpus.percent as nat) + "%"@);
                put(lines, "CPUQuota", value);
            }
        },
    }
    assert(final(lines).deep_view() =~= old(lines).deep_view() + cpu_limit(res@));
}

fn put_limits(lines: &mut Vec<(String, String)>, res: &ResourceLimits)
    ensures
        final(lines).deep_view() == old(lines).deep_view() + limits(res@),
{
    put_optional(lines, "MemoryMax", &res.memory);
    put_cpu_limit(lines, res);
    put_number(lines, "LimitNOFILE", res.limit_nofile);
    put_number(lines, "LimitNPROC", res.limit_nproc);
    put_number(lines, "TasksMax", res.tasks_max);
    put_number(lines, "IOWeight", widen(res.io_weight));
    assert(final(lines).deep_view() =~= old(lines).deep_view() + limits(res@));
}

/// The units that a service comes after, and those that it is bound to.
pub fn build_dependencies(service: &Service, config: &Config, ready_gates: &StringSet) -> (r: (
    Vec<String>,
    Vec<String>,
))
    ensures
        r.0.deep_view() == after_units(config.namespace@, ready_gates@, service@),
        r.1.deep_view() == bound_units(config.namespace@, service@),
{
    let ghost ns = config.namespace@;
    let ghost gates = ready_gates@;
    let ghost names = service@.requires + service@.after;
    let ghost all_after = after_units(ns, gates, service@);
    let ghost all_bound = bound_units(ns, service@);
    let mut after: Vec<String> = Vec::new();
    let mut binds_to: Vec<String> = Vec::new();
    let n: usize = service.requires.len();
    let m: usize = service.after.len();
    assert(after.deep_view() =~= all_after.take(0));
    assert(binds_to.deep_view() =~= all_bound.take(0));
    for i in 0..n
        invariant
            n == service.requires@.len(),
            ns == config.namespace@,
            gates == ready_gates@,
            names == service@.requires + service@.after,
            all_after == after_units(ns, gates, service@),
            all_bound == bound_units(ns, service@),
            after.deep_view() == all_after.take(i as int),
            binds_to.deep_view() == all_bound.take(i as int),
    {
        let ghost done_after = after.deep_view();
        let ghost done_bound = binds_to.deep_view();
        let dep = service.requires[i].as_str();
        assert(names[i as int] == dep@);
        binds_to.push(config.unit_name(dep));
        if ready_gates.contains(dep) {
            after.push(ready_gate_name(config, dep));
        } else {
            after.push(config.unit_name(dep));
        }
        assert(binds_to.deep_view() =~= done_bound.push(all_bound[i as int]));
        assert(after.deep_view() =~= done_after.push(all_after[i as int]));
        assert(binds_to.deep_view() =~= all_bound.take(i + 1));
        assert(after.deep_view() =~= all_after.take(i + 1));
    }
    assert(all_bound.take(n as int) == all_bound);
    for i in 0..m
        invariant
            n == service.requires@.len(),
            m == service.after@.len(),
            ns == config.namespace@,
            gates == ready_gates@,
            names == service@.requires + service@.after,
            all_after == after_units(ns, gates, service@),
            after.deep_view() == all_after.take(n + i),
    {
        let ghost done = after.deep_view();
        let dep = service.after[i].as_str();
        assert(names[n + i] == dep@);
        if ready_gates.contains(dep) {
            after.push(ready_gate_name(config, dep));
        } else {
            after.push(config.unit_name(dep));
        }
        assert(after.deep_view() =~= done.push(all_after[n + i]));
        assert(after.deep_view() =~= all_after.take(n + i + 1));
    }
    assert(all_after.take(n + m) == all_after);
    (after, binds_to)
}

/// Writes the unit of a service.
pub fn generate_service_unit(
    service: &Service,
    exec_set: &ExecSet,
    config: &Config,
    ready_gates: &StringSet,
) -> (r: String)
    ensures
        r@ == service_unit(
            service@,
            exec_set@,
            config.namespace@,
            config.project_dir@,
            ready_gates@,
        ),
{
    let project = config.project_dir.as_str();
    let (after, binds_to) = build_dependencies(service, config, ready_gates);
    let mut head: Vec<(String, String)> = Vec::new();
    assert(head.deep_view() =~= Seq::<Entry>::empty());
    let mut description = "orch: ".to_string();
    description.append(service.name.as_str());
    put(&mut head, "Description", description);
    put(&mut head, "PartOf", config.target_name());
    assert(head.deep_view() =~= seq![
        ("Description"@, "orch: "@ + service@.name),
        ("PartOf"@, target_name(config.namespace@)),
    ]);
    put_unit_list(&mut head, "After", &after);
    put_unit_list(&mut head, "BindsTo", &binds_to);
    let mut body: Vec<(String, String)> = Vec::new();
    assert(body.deep_view() =~= Seq::<Entry>::empty());
    put_service_type(&mut body, service);
    assert(body.deep_view() =~= service_type(service@));
    put_command(&mut body, "ExecStartPre", &exec_set.pre_start);
    put(&mut body, "ExecStart", shell_command_of(exec_set.start.as_str()));
    put_command(&mut body, "ExecStop", &exec_set.stop);
    put_command(&mut body, "ExecStopPost", &exec_set.post_stop);
    put_command(&mut body, "ExecReload", &service.reload_command);
    put_path(&mut body, "WorkingDirectory", "", &service.workdir, project);
    put_environment(&mut body, service);
    put_environment_files(&mut body, &service.env_files, project);
    put_optional(&mut body, "User", &service.user);
    put_restarts(&mut body, service);
    put_number(&mut body, "StartLimitBurst", widen(service.restart.start_limit_burst));
    put_optional(&mut body, "StartLimitIntervalSec", &service.restart.start_limit_interval);
    put_optional(&mut body, "TimeoutStartSec", &service.timeouts.start);
    put_optional(&mut body, "TimeoutStopSec", &service.timeouts.stop);
    put_limits(&mut body, &service.resources);
    put_path(&mut body, "StandardOutput", "file:", &service.logging.stdout, project);
    put_path(&mut body, "StandardError", "file:", &service.logging.stderr, project);
    let mut foot: Vec<(String, String)> = Vec::new();
    assert(foot.deep_view() =~= Seq::<Entry>::empty());
    put(&mut foot, "WantedBy", config.target_name());
    assert(foot.deep_view() =~= seq![("WantedBy"@, target_name(config.namespace@))]);
    let mut unit = String::new();
    put_section(&mut unit, "Unit", &head);
    assert(unit@ =~= section("Unit"@, unit_lines(service@, config.namespace@, ready_gates@)));
    unit.append("\n");
    put_section(&mut unit, "Service", &body);
    unit.append("\n");
    put_section(&mut unit, "Install", &foot);
    unit
}

/// Writes the unit that waits for a service's health.
pub fn generate_ready_gate(service: &Service, config: &Config) -> (r: String)
    requires
        service@.healthcheck is Some,
    ensures
        r@ == gate_unit(service@, service@.healthcheck->0, config.namespace@),
{
    let check = match &service.healthcheck {
        Some(hc) => healthcheck_to_cmd(hc.as_str()),
        None => String::new(),
    };
    let mut head: Vec<(String, String)> = Vec::new();
    assert(head.deep_view() =~= Seq::<Entry>::empty());
    let mut description = "orch: wait for ".to_string();
    description.append(service.name.as_str());
    description.append(" health");
    put(&mut head, "Description", description);
    put(&mut head, "After", config.unit_name(service.name.as_str()));
    put(&mut head, "BindsTo", config.unit_name(service.name.as_str()));
    assert(head.deep_view() =~= seq![
        ("Description"@, "orch: wait for "@ + service@.name + " health"@),
        ("After"@, unit_name(config.namespace@, service@.name)),
        ("BindsTo"@, unit_name(config.namespace@, service@.name)),
    ]);
    let mut body: Vec<(String, String)> = Vec::new();
    assert(body.deep_view() =~= Seq::<Entry>::empty());
    put(&mut body, "Type", "oneshot".to_string());
    put(&mut body, "RemainAfterExit", "yes".to_string());
    let mut wait = "/bin/bash -c 'until ".to_string();
    wait.append(escape_bash(check.as_str()).as_str());
    wait.append(" >/dev/null 2>&1; do sleep 2; done; exit 0'");
    let ghost waited = wait@;
    put(&mut body, "ExecStart", wait);
    let timeout = get_or(&service.readiness_timeout, "90s");
    put(&mut body, "TimeoutStartSec", timeout);
    assert(body.deep_view() =~= seq![
        ("Type"@, "oneshot"@),
        ("RemainAfterExit"@, "yes"@),
        ("ExecStart"@, waited),
        ("TimeoutStartSec"@, value_or(service@.readiness_timeout, "90s"@)),
    ]);
    let mut unit = String::new();
    put_section(&mut unit, "Unit", &head);
    assert(unit@ =~= section("Unit"@, head.deep_view()));
    unit.append("\n");
    put_section(&mut unit, "Service", &body);
    unit
}

/// Writes the unit that groups all services.
pub fn generate_target(config: &Config) -> (r: String)
    ensures
        r@ == target_unit(),
{
    let mut head: Vec<(String, String)> = Vec::new();
    assert(head.deep_view() =~= Seq::<Entry>::empty());
    put(&mut head, "Description", "orch managed services".to_string());
    assert(head.deep_view() =~= seq![("Description"@, "orch managed services"@)]);
    let mut foot: Vec<(String, String)> = Vec::new();
    assert(foot.deep_view() =~= Seq::<Entry>::empty());
    put(&mut foot, "WantedBy", "multi-user.target".to_string());
    assert(foot.deep_view() =~= seq![("WantedBy"@, "multi-user.target"@)]);
    let mut unit = String::new();
    put_section(&mut unit, "Unit", &head);
    assert(unit@ =~= section("Unit"@, head.deep_view()));
    unit.append("\n");
    put_section(&mut unit, "Install", &foot);
    unit
}

/// Whether an enabled service depends on `name`.
pub open spec fn depended_upon(services: Seq<ServiceView>, name: Seq<char>) -> bool {
    exists|i: int|
        0 <= i < services.len() && !(#[trigger] services[i]).disabled && services[i].depends_on(
            name,
        )
}

/// Whether an enabled service requires `name`.
pub open spec fn required(services: Seq<ServiceView>, name: Seq<char>) -> bool {
    exists|i: int|
        0 <= i < services.len() && !(#[trigger] services[i]).disabled
            && services[i].requires.contains(name)
}

/// Whether a service needs a ready gate: it is enabled, an enabled service
/// depends on it, and it either has a healthcheck or is required.
pub open spec fn needs_gate(services: Seq<ServiceView>, service: ServiceView) -> bool {
    &&& !service.disabled
    &&& depended_upon(services, service.name)
    &&& service.healthcheck is Some || required(services, service.name)
}

/// The names of the services that need a ready gate.
pub open spec fn gated(services: Seq<ServiceView>) -> Set<Seq<char>> {
    gated_among(services, services)
}

/// The names of those of `some` that need a ready gate.
pub open spec fn gated_among(services: Seq<ServiceView>, some: Seq<ServiceView>) -> Set<Seq<char>>
    decreases some.len(),
{
    if some.len() == 0 {
        Set::empty()
    } else if needs_gate(services, some.last()) {
        gated_among(services, some.drop_last()).insert(some.last().name)
    } else {
        gated_among(services, some.drop_last())
    }
}

fn is_depended_upon(services: &Vec<Service>, name: &str) -> (r: bool)
    ensures
        r == depended_upon(services.deep_view(), name@),
{
    let n: usize = services.len();
    let ghost views = services.deep_view();
    for i in 0..n
        invariant
            n == services@.len(),
            views == services.deep_view(),
            forall|j: int|
                0 <= j < i ==> (#[trigger] views[j]).disabled || !views[j].depends_on(name@),
    {
        assert(views[i as int] == services@[i as int]@);
        if !services[i].disabled && (list_has(&services[i].requires, name) || list_has(
            &services[i].after,
            name,
        )) {
            assert(!views[i as int].disabled && views[i as int].depends_on(name@));
            return true;
        }
    }
    false
}

fn is_required(services: &Vec<Service>, name: &str) -> (r: bool)
    ensures
        r == required(services.deep_view(), name@),
{
    let n: usize = services.len();
    let ghost views = services.deep_view();
    for i in 0..n
        invariant
            n == services@.len(),
            views == services.deep_view(),
            forall|j: int|
                0 <= j < i ==> (#[trigger] views[j]).disabled || !views[j].requires.contains(name@),
    {
        assert(views[i as int] == services@[i as int]@);
        if !services[i].disabled && list_has(&services[i].requires, name) {
            assert(!views[i as int].disabled && views[i as int].requires.contains(name@));
            return true;
        }
    }
    false
}

/// Finds the services that need a ready gate.
pub fn services_needing_ready_gates(services: &Vec<Service>) -> (r: StringSet)
    ensures
        r@ == gated(services.deep_view()),
{
    let mut gates = StringSet::new();
    let n: usize = services.len();
    let ghost views = services.deep_view();
    for i in 0..n
        invariant
            n == services@.len(),
            views == services.deep_view(),
            gates@ == gated_among(views, views.take(i as int)),
    {
        assert(views.take(i + 1).drop_last() == views.take(i as int));
        assert(views.take(i + 1).last() == services@[i as int]@);
        let s = &services[i];
        let name = s.name.as_str();
        if !s.disabled && is_depended_upon(services, name) && (s.healthcheck.is_some()
            || is_required(services, name)) {
            gates.insert(s.name.clone());
        }
    }
    assert(views.take(n as int) == views);
    gates
}

/// Whether a ready gate is generated for a service: it needs one, and has a
/// healthcheck to wait for.
pub open spec fn has_gate(services: Seq<ServiceView>, service: ServiceView) -> bool {
    needs_gate(services, service) && service.healthcheck is Some
}

/// The names of the services for which a ready gate is generated.
pub open spec fn ready_set(services: Seq<ServiceView>) -> Set<Seq<char>> {
    ready_among(services, services)
}

/// The names of those of `some` for which a ready gate is generated.
pub open spec fn ready_among(services: Seq<ServiceView>, some: Seq<ServiceView>) -> Set<Seq<char>>
    decreases some.len(),
{
    if some.len() == 0 {
        Set::empty()
    } else if has_gate(services, some.last()) {
        ready_among(services, some.drop_last()).insert(some.last().name)
    } else {
        ready_among(services, some.drop_last())
    }
}

/// Finds the services for which a ready gate is generated: of those that need
/// one, those that have a healthcheck to wait for. The others are waited for by
/// their own units.
pub fn services_with_ready_gates(services: &Vec<Service>) -> (r: StringSet)
    ensures
        r@ == ready_set(services.deep_view()),
{
    let mut gates = StringSet::new();
    let n: usize = services.len();
    let ghost views = services.deep_view();
    for i in 0..n
        invariant
            n == services@.len(),
            views == services.deep_view(),
            gates@ == ready_among(views, views.take(i as int)),
    {
        assert(views.take(i + 1).drop_last() == views.take(i as int));
        assert(views.take(i + 1).last() == services@[i as int]@);
        let s = &services[i];
        if !s.disabled && s.healthcheck.is_some() && is_depended_upon(services, s.name.as_str()) {
            gates.insert(s.name.clone());
        }
    }
    assert(views.take(n as int) == views);
    gates
}

/// A name needs a ready gate exactly if a service of that name needs one.
pub proof fn law_gated(services: Seq<ServiceView>, name: Seq<char>)
    ensures
        gated(services).contains(name) <==> exists|i: int|
            0 <= i < services.len() && (#[trigger] services[i]).name == name && needs_gate(
                services,
                services[i],
            ),
{
    lemma_gated_among(services, services, name);
}

proof fn lemma_gated_among(services: Seq<ServiceView>, some: Seq<ServiceView>, name: Seq<char>)
    ensures
        gated_among(services, some).contains(name) <==> exists|i: int|
            0 <= i < some.len() && (#[trigger] some[i]).name == name && needs_gate(
                services,
                some[i],
            ),
    decreases some.len(),
{
    if some.len() > 0 {
        let init = some.drop_last();
        lemma_gated_among(services, init, name);
        if gated_among(services, init).contains(name) {
            let i = choose|i: int|
                0 <= i < init.len() && (#[trigger] init[i]).name == name && needs_gate(
                    services,
                    init[i],
                );
            assert(some[i].name == name && needs_gate(services, some[i]));
        }
        if needs_gate(services, some.last()) && some.last().name == name {
            assert(some[some.len() - 1].name == name);
        }
        if exists|i: int|
            0 <= i < some.len() && (#[trigger] some[i]).name == name && needs_gate(
                services,
                some[i],
            ) {
            let i = choose|i: int|
                0 <= i < some.len() && (#[trigger] some[i]).name == name && needs_gate(
                    services,
                    some[i],
                );
            if i < init.len() {
                assert(init[i].name == name && needs_gate(services, init[i]));
            }
        }
    }
}

/// A name has a ready gate exactly if an enabled service of that name has a
/// healthcheck and an enabled service depends on it.
pub proof fn law_ready_gates(services: Seq<ServiceView>, name: Seq<char>)
    ensures
        ready_set(services).contains(name) <==> depended_upon(services, name) && exists|i: int|
            0 <= i < services.len() && (#[trigger] services[i]).name == name
                && !services[i].disabled && services[i].healthcheck is Some,
        ready_set(services).contains(name) ==> gated(services).contains(name),
{
    lemma_ready_among(services, services, name);
    law_gated(services, name);
    if depended_upon(services, name) {
        if exists|i: int|
            0 <= i < services.len() && (#[trigger] services[i]).name == name
                && !services[i].disabled && services[i].healthcheck is Some {
            let i = choose|i: int|
                0 <= i < services.len() && (#[trigger] services[i]).name == name
                    && !services[i].disabled && services[i].healthcheck is Some;
            assert(services[i].name == name && has_gate(services, services[i]));
        }
    }
}

/// Which names are among those for which a ready gate is generated.
pub proof fn lemma_ready_among(services: Seq<ServiceView>, some: Seq<ServiceView>, name: Seq<char>)
    ensures
        ready_among(services, some).contains(name) <==> exists|i: int|
            0 <= i < some.len() && (#[trigger] some[i]).name == name && has_gate(
                services,
                some[i],
            ),
    decreases some.len(),
{
    if some.len() > 0 {
        let init = some.drop_last();
        lemma_ready_among(services, init, name);
        if ready_among(services, init).contains(name) {
            let i = choose|i: int|
                0 <= i < init.len() && (#[trigger] init[i]).name == name && has_gate(
                    services,
                    init[i],
                );
            assert(some[i].name == name && has_gate(services, some[i]));
        }
        if has_gate(services, some.last()) && some.last().name == name {
            assert(some[some.len() - 1].name == name);
        }
        if exists|i: int|
            0 <= i < some.len() && (#[trigger] some[i]).name == name && has_gate(
                services,
                some[i],
            ) {
            let i = choose|i: int|
                0 <= i < some.len() && (#[trigger] some[i]).name == name && has_gate(
                    services,
                    some[i],
                );
            if i < init.len() {
                assert(init[i].name == name && has_gate(services, init[i]));
            }
        }
    }
}

/// A service that nothing enabled depends on has no ready gate: in particular,
/// what disabled services depend on does not count.
pub proof fn law_disabled_dependents_do_not_count(services: Seq<ServiceView>, name: Seq<char>)
    requires
        forall|i: int|
            0 <= i < services.len() && (#[trigger] services[i]).depends_on(name)
                ==> services[i].disabled,
    ensures
        !gated(services).contains(name),
        !ready_set(services).contains(name),
{
    law_gated(services, name);
    law_ready_gates(services, name);
}

} // verus!
