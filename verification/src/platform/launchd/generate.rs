//! The launchd job of a service.

use crate::collections::{lists, Entry};
use crate::config::{Config, Scope};
use crate::exec::{ExecSet, ExecSetView};
use crate::orchdi::{
    label_of, optional_duration, optional_fits, parse_optional_duration, service_label, spec_path,
    supervise_spec_path, DepGate, GateView,
};
use crate::paths::{join, under};
use crate::platform::launchd::environment::{gather_variables, variables};
use crate::platform::launchd::plist::{document, render, Scalar, ScalarView, Value, ValueView};
use crate::platform::{get_or, value_or, Host};
use crate::types::{RestartPolicy, Service, ServiceView};
use vstd::prelude::*;

verus! {

/// An entry of a job's dictionary.
pub type JobEntry = (Seq<char>, ValueView);

/// A text as an entry.
pub open spec fn text_entry(key: Seq<char>, s: Seq<char>) -> JobEntry {
    (key, ValueView::Scalar(ScalarView::Text(s)))
}

/// A number as an entry.
pub open spec fn number_entry(key: Seq<char>, n: nat) -> JobEntry {
    (key, ValueView::Scalar(ScalarView::Number(n)))
}

/// A flag as an entry.
pub open spec fn flag_entry(key: Seq<char>, b: bool) -> JobEntry {
    (key, ValueView::Scalar(ScalarView::Flag(b)))
}

/// Whether a service runs under the supervisor: launchd knows neither
/// dependencies nor stop commands.
pub open spec fn needs_supervisor(exec_set: ExecSetView, deps: Seq<GateView>) -> bool {
    deps.len() > 0 || exec_set.stop is Some || exec_set.post_stop is Some
}

/// The shell command of a service without dependencies and teardown. The shell
/// gives way to the service, so that launchd tracks the service itself.
pub open spec fn fast_path(exec_set: ExecSetView) -> Seq<char> {
    match exec_set.pre_start {
        Some(pre) => pre + " && exec "@ + exec_set.start,
        None => "exec "@ + exec_set.start,
    }
}

/// What launchd runs.
pub open spec fn program_arguments(
    exec_set: ExecSetView,
    deps: Seq<GateView>,
    exe: Option<Seq<char>>,
    spec: Seq<char>,
) -> Seq<Seq<char>> {
    if needs_supervisor(exec_set, deps) {
        seq![value_or(exe, "orchd"@), "supervise"@, "--spec"@, spec]
    } else {
        seq!["/bin/bash"@, "-c"@, fast_path(exec_set)]
    }
}

/// When launchd starts the service again.
pub open spec fn keep_alive(service: ServiceView) -> Seq<JobEntry> {
    if service.oneshot {
        seq![]
    } else {
        match service.restart.policy {
            RestartPolicy::Always => seq![flag_entry("KeepAlive"@, true)],
            RestartPolicy::OnFailure => seq![
                ("KeepAlive"@, ValueView::Dict(seq![("SuccessfulExit"@, ScalarView::Flag(false))])),
            ],
            RestartPolicy::No => seq![],
        }
    }
}

/// How long launchd waits before it starts the service again.
pub open spec fn throttle(service: ServiceView) -> Seq<JobEntry> {
    match optional_duration(service.restart.delay) {
        Some(n) => seq![number_entry("ThrottleInterval"@, n)],
        None => seq![],
    }
}

/// Where the service runs.
pub open spec fn working_directory(service: ServiceView, project_dir: Seq<char>) -> Seq<JobEntry> {
    match service.workdir {
        Some(dir) => seq![text_entry("WorkingDirectory"@, under(project_dir, dir))],
        None => seq![],
    }
}

/// The search path of a service that sets none. That of launchd lacks the
/// places where tools are commonly installed.
pub open spec fn default_path() -> Seq<char> {
    "/usr/local/bin:/opt/homebrew/bin:/usr/bin:/bin:/usr/sbin:/sbin"@
}

/// The environment of the service.
pub open spec fn environment(env: Seq<Entry>) -> Seq<(Seq<char>, ScalarView)> {
    (if lists(env, "PATH"@) {
        seq![]
    } else {
        seq![("PATH"@, ScalarView::Text(default_path()))]
    }) + env.map_values(|e: Entry| (e.0, ScalarView::Text(e.1)))
}

/// The user that the service runs as.
pub open spec fn user_name(service: ServiceView) -> Seq<JobEntry> {
    match service.user {
        Some(user) => seq![text_entry("UserName"@, user)],
        None => seq![],
    }
}

/// Where logs are kept.
pub open spec fn log_dir_of(scope: Scope, home: Option<Seq<char>>) -> Seq<char> {
    if scope == Scope::User {
        value_or(home, "/tmp"@) + "/Library/Logs"@
    } else {
        "/Library/Logs"@
    }
}

/// Where one of the service's output streams goes: where the service says, or
/// to a file of its own among the logs.
pub open spec fn log_path(
    chosen: Option<Seq<char>>,
    project_dir: Seq<char>,
    dir: Seq<char>,
    label: Seq<char>,
    suffix: Seq<char>,
) -> Seq<char> {
    match chosen {
        Some(p) => under(project_dir, p),
        None => dir + "/"@ + label + suffix,
    }
}

/// An optional number as an entry of a dictionary.
pub open spec fn number_pair(key: Seq<char>, n: Option<u64>) -> Seq<(Seq<char>, ScalarView)> {
    match n {
        Some(v) => seq![(key, ScalarView::Number(v as nat))],
        None => seq![],
    }
}

/// The limits that launchd knows: open files and processes.
pub open spec fn resource_limits(service: ServiceView) -> Seq<JobEntry> {
    let res = service.resources;
    if res.limit_nofile is Some || res.limit_nproc is Some {
        seq![
            (
                "SoftResourceLimits"@,
                ValueView::Dict(
                    number_pair("NumberOfFiles"@, res.limit_nofile) + number_pair(
                        "NumberOfProcesses"@,
                        res.limit_nproc,
                    ),
                ),
            ),
        ]
    } else {
        seq![]
    }
}

/// How long launchd waits between asking the service to stop and killing it:
/// as long as the service says, else 30 seconds where there is a teardown.
pub open spec fn exit_timeout(service: ServiceView, exec_set: ExecSetView) -> Seq<JobEntry> {
    match optional_duration(service.timeouts.stop) {
        Some(n) => seq![number_entry("ExitTimeOut"@, n)],
        None => if exec_set.stop is Some || exec_set.post_stop is Some {
            seq![number_entry("ExitTimeOut"@, 30)]
        } else {
            seq![]
        },
    }
}

/// The dictionary of a service's job.
pub open spec fn job(
    service: ServiceView,
    exec_set: ExecSetView,
    config: &Config,
    host: &Host,
    deps: Seq<GateView>,
) -> Seq<JobEntry> {
    let label = label_of(config.namespace@, service.name);
    let dir = log_dir_of(config.scope, host.home.deep_view());
    let project = config.project_dir@;
    seq![
        text_entry("Label"@, label),
        (
            "ProgramArguments"@,
            ValueView::Array(
                program_arguments(
                    exec_set,
                    deps,
                    host.exe.deep_view(),
                    spec_path(config.state_dir@, label),
                ),
            ),
        ),
        flag_entry("RunAtLoad"@, true),
    ] + keep_alive(service) + throttle(service) + working_directory(service, project) + seq![
        ("EnvironmentVariables"@, ValueView::Dict(environment(variables(service, project, host.files@)))),
    ] + user_name(service) + seq![
        text_entry(
            "StandardOutPath"@,
            log_path(service.logging.stdout, project, dir, label, ".out.log"@),
        ),
        text_entry(
            "StandardErrorPath"@,
            log_path(service.logging.stderr, project, dir, label, ".err.log"@),
        ),
    ] + resource_limits(service) + seq![text_entry("ProcessType"@, "Interactive"@)] + exit_timeout(
        service,
        exec_set,
    )
}

/// Tells whether a service runs under the supervisor.
pub fn is_supervised(exec_set: &ExecSet, deps: &Vec<DepGate>) -> (r: bool)
    ensures
        r == needs_supervisor(exec_set@, deps.deep_view()),
{
    deps.len() > 0 || exec_set.stop.is_some() || exec_set.post_stop.is_some()
}

/// The shell command of a service without dependencies and teardown.
pub fn fast_path_command(exec_set: &ExecSet) -> (r: String)
    ensures
        r@ == fast_path(exec_set@),
{
    match &exec_set.pre_start {
        Some(pre) => {
            let mut r = pre.clone();
            r.append(" && exec ");
            r.append(exec_set.start.as_str());
            r
        },
        None => {
            let mut r = "exec ".to_string();
            r.append(exec_set.start.as_str());
            r
        },
    }
}

/// The name of a service's property list.
pub open spec fn plist_name(namespace: Seq<char>, service: Seq<char>) -> Seq<char> {
    label_of(namespace, service) + ".plist"@
}

/// The name of a service's property list.
pub fn plist_filename(config: &Config, service_name: &str) -> (r: String)
    ensures
        r@ == plist_name(config.namespace@, service_name@),
{
    let mut r = service_label(config, service_name);
    r.append(".plist");
    r
}

/// Where logs are kept: with the user, or with the system.
pub fn log_dir(config: &Config, host: &Host) -> (r: String)
    ensures
        r@ == log_dir_of(config.scope, host.home.deep_view()),
{
    if config.scope.is_user() {
        let mut r = get_or(&host.home, "/tmp");
        r.append("/Library/Logs");
        r
    } else {
        "/Library/Logs".to_string()
    }
}

fn put(entries: &mut Vec<(String, Value)>, key: &str, value: Value)
    ensures
        final(entries).deep_view() == old(entries).deep_view() + seq![(key@, value@)],
{
    let ghost before = entries.deep_view();
    entries.push((key.to_string(), value));
    assert(entries.deep_view() =~= before + seq![(key@, value@)]);
}

fn put_text(entries: &mut Vec<(String, Value)>, key: &str, s: String)
    ensures
        final(entries).deep_view() == old(entries).deep_view() + seq![text_entry(key@, s@)],
{
    put(entries, key, Value::Scalar(Scalar::Text(s)));
}

fn put_number(entries: &mut Vec<(String, Value)>, key: &str, n: u64)
    ensures
        final(entries).deep_view() == old(entries).deep_view() + seq![number_entry(key@, n as nat)],
{
    put(entries, key, Value::Scalar(Scalar::Number(n)));
}

fn arguments(exec_set: &ExecSet, deps: &Vec<DepGate>, host: &Host, spec: String) -> (r: Vec<String>)
    ensures
        r.deep_view() == program_arguments(
            exec_set@,
            deps.deep_view(),
            host.exe.deep_view(),
            spec@,
        ),
{
    let mut r: Vec<String> = Vec::new();
    if is_supervised(exec_set, deps) {
        r.push(get_or(&host.exe, "orchd"));
        r.push("supervise".to_string());
        r.push("--spec".to_string());
        r.push(spec);
    } else {
        r.push("/bin/bash".to_string());
        r.push("-c".to_string());
        r.push(fast_path_command(exec_set));
    }
    assert(r.deep_view() =~= program_arguments(
        exec_set@,
        deps.deep_view(),
        host.exe.deep_view(),
        spec@,
    ));
    r
}

fn put_keep_alive(entries: &mut Vec<(String, Value)>, service: &Service)
    ensures
        final(entries).deep_view() == old(entries).deep_view() + keep_alive(service@),
{
    if !service.oneshot {
        match service.restart.policy {
            RestartPolicy::Always => {
                put(entries, "KeepAlive", Value::Scalar(Scalar::Flag(true)));
            },
            RestartPolicy::OnFailure => {
                let mut dict: Vec<(String, Scalar)> = Vec::new();
                dict.push(("SuccessfulExit".to_string(), Scalar::Flag(false)));
                assert(dict.deep_view() =~= seq![("SuccessfulExit"@, ScalarView::Flag(false))]);
                put(entries, "KeepAlive", Value::Dict(dict));
            },
            RestartPolicy::No => {},
        }
    }
    assert(final(entries).deep_view() =~= old(entries).deep_view() + keep_alive(service@));
}

fn put_throttle(entries: &mut Vec<(String, Value)>, service: &Service)
    requires
        optional_fits(service@.restart.delay),
    ensures
        final(entries).deep_view() == old(entries).deep_view() + throttle(service@),
{
    if let Some(n) = parse_optional_duration(&service.restart.delay) {
        put_number(entries, "ThrottleInterval", n as u64);
    }
    assert(final(entries).deep_view() =~= old(entries).deep_view() + throttle(service@));
}

fn put_working_directory(entries: &mut Vec<(String, Value)>, service: &Service, project_dir: &str)
    ensures
        final(entries).deep_view() == old(entries).deep_view() + working_directory(
            service@,
            project_dir@,
        ),
{
    if let Some(dir) = &service.workdir {
        put_text(entries, "WorkingDirectory", join(project_dir, dir.as_str()));
    }
    assert(final(entries).deep_view() =~= old(entries).deep_view() + working_directory(
        service@,
        project_dir@,
    ));
}

fn put_environment(
    entries: &mut Vec<(String, Value)>,
    service: &Service,
    project_dir: &str,
    host: &Host,
)
    ensures
        final(entries).deep_view() == old(entries).deep_view() + seq![
            (
                "EnvironmentVariables"@,
                ValueView::Dict(environment(variables(service@, project_dir@, host.files@))),
            ),
        ],
{
    let vars = gather_variables(service, project_dir, &host.files);
    let mut dict: Vec<(String, Scalar)> = Vec::new();
    if !vars.contains_key("PATH") {
        dict.push(
            (
                "PATH".to_string(),
                Scalar::Text(
                    "/usr/local/bin:/opt/homebrew/bin:/usr/bin:/bin:/usr/sbin:/sbin".to_string(),
                ),
            ),
        );
    }
    let ghost env = vars.entries();
    let ghost pairs = env.map_values(|e: Entry| (e.0, ScalarView::Text(e.1)));
    let ghost head = dict.deep_view();
    let n: usize = vars.len();
    assert(head =~= (if lists(env, "PATH"@) {
        seq![]
    } else {
        seq![("PATH"@, ScalarView::Text(default_path()))]
    }));
    assert(dict.deep_view() =~= head + pairs.take(0));
    for i in 0..n
        invariant
            env == vars.entries(),
            n == env.len(),
            pairs == env.map_values(|e: Entry| (e.0, ScalarView::Text(e.1))),
            dict.deep_view() == head + pairs.take(i as int),
    {
        let ghost done = dict.deep_view();
        dict.push(
            (
                vars.key_at(i).to_string(),
                Scalar::Text(vars.value_at(i).to_string()),
            ),
        );
        assert(dict.deep_view() =~= done.push(pairs[i as int]));
        assert(dict.deep_view() =~= head + pairs.take(i + 1));
    }
    assert(pairs.take(n as int) == pairs);
    assert(dict.deep_view() =~= environment(env));
    put(entries, "EnvironmentVariables", Value::Dict(dict));
}

fn put_user_name(entries: &mut Vec<(String, Value)>, service: &Service)
    ensures
        final(entries).deep_view() == old(entries).deep_view() + user_name(service@),
{
    if let Some(user) = &service.user {
        put_text(entries, "UserName", user.clone());
    }
    assert(final(entries).deep_view() =~= old(entries).deep_view() + user_name(service@));
}

fn log_file(
    chosen: &Option<String>,
    project_dir: &str,
    dir: &str,
    label: &str,
    suffix: &str,
) -> (r: String)
    ensures
        r@ == log_path(chosen.deep_view(), project_dir@, dir@, label@, suffix@),
{
    match chosen {
        Some(p) => join(project_dir, p.as_str()),
        None => {
            let mut r = dir.to_string();
            r.append("/");
            r.append(label);
            r.append(suffix);
            r
        },
    }
}

fn put_resource_limits(entries: &mut Vec<(String, Value)>, service: &Service)
    ensures
        final(entries).deep_view() == old(entries).deep_view() + resource_limits(service@),
{
    let res = &service.resources;
    if res.limit_nofile.is_some() || res.limit_nproc.is_some() {
        let mut dict: Vec<(String, Scalar)> = Vec::new();
        if let Some(n) = res.limit_nofile {
            dict.push(("NumberOfFiles".to_string(), Scalar::Number(n)));
        }
        if let Some(n) = res.limit_nproc {
            dict.push(("NumberOfProcesses".to_string(), Scalar::Number(n)));
        }
        assert(dict.deep_view() =~= number_pair("NumberOfFiles"@, res.limit_nofile) + number_pair(
            "NumberOfProcesses"@,
            res.limit_nproc,
        ));
        put(entries, "SoftResourceLimits", Value::Dict(dict));
    }
    assert(final(entries).deep_view() =~= old(entries).deep_view() + resource_limits(service@));
}

fn put_exit_timeout(entries: &mut Vec<(String, Value)>, service: &Service, exec_set: &ExecSet)
    requires
        optional_fits(service@.timeouts.stop),
    ensures
        final(entries).deep_view() == old(entries).deep_view() + exit_timeout(service@, exec_set@),
{
    match parse_optional_duration(&service.timeouts.stop) {
        Some(n) => {
            put_number(entries, "ExitTimeOut", n as u64);
        },
        None => {
            if exec_set.stop.is_some() || exec_set.post_stop.is_some() {
                put_number(entries, "ExitTimeOut", 30);
            }
        },
    }
    assert(final(entries).deep_view() =~= old(entries).deep_view() + exit_timeout(
        service@,
        exec_set@,
    ));
}

/// Writes the property list of a service without dependencies.
pub fn generate_service_plist(
    service: &Service,
    exec_set: &ExecSet,
    config: &Config,
    host: &Host,
) -> (r: String)
    requires
        optional_fits(service@.restart.delay),
        optional_fits(service@.timeouts.stop),
    ensures
        r@ == document(job(service@, exec_set@, config, host, Seq::empty())),
{
    let deps: Vec<DepGate> = Vec::new();
    assert(deps.deep_view() =~= Seq::<GateView>::empty());
    generate_service_plist_with_deps(service, exec_set, config, host, &deps)
}

/// Writes the property list of a service that waits for `deps`.
pub fn generate_service_plist_with_deps(
    service: &Service,
    exec_set: &ExecSet,
    config: &Config,
    host: &Host,
    deps: &Vec<DepGate>,
) -> (r: String)
    requires
        optional_fits(service@.restart.delay),
        optional_fits(service@.timeouts.stop),
    ensures
        r@ == document(job(service@, exec_set@, config, host, deps.deep_view())),
{
    let label = service_label(config, service.name.as_str());
    let dir = log_dir(config, host);
    let project = config.project_dir.as_str();
    let spec = supervise_spec_path(config, label.as_str());
    let mut entries: Vec<(String, Value)> = Vec::new();
    assert(entries.deep_view() =~= Seq::<JobEntry>::empty());
    put_text(&mut entries, "Label", label.clone());
    let args = arguments(exec_set, deps, host, spec);
    put(&mut entries, "ProgramArguments", Value::Array(args));
    put(&mut entries, "RunAtLoad", Value::Scalar(Scalar::Flag(true)));
    assert(entries.deep_view() =~= seq![
        text_entry("Label"@, label@),
        ("ProgramArguments"@, ValueView::Array(args.deep_view())),
        flag_entry("RunAtLoad"@, true),
    ]);
    put_keep_alive(&mut entries, service);
    put_throttle(&mut entries, service);
    put_working_directory(&mut entries, service, project);
    put_environment(&mut entries, service, project, host);
    put_user_name(&mut entries, service);
    let out = log_file(&service.logging.stdout, project, dir.as_str(), label.as_str(), ".out.log");
    let err = log_file(&service.logging.stderr, project, dir.as_str(), label.as_str(), ".err.log");
    let ghost before = entries.deep_view();
    put_text(&mut entries, "StandardOutPath", out);
    put_text(&mut entries, "StandardErrorPath", err);
    assert(entries.deep_view() =~= before + seq![
        text_entry("StandardOutPath"@, out@),
        text_entry("StandardErrorPath"@, err@),
    ]);
    put_resource_limits(&mut entries, service);
    put_text(&mut entries, "ProcessType", "Interactive".to_string());
    put_exit_timeout(&mut entries, service, exec_set);
    render(&entries)
}

} // verus!
