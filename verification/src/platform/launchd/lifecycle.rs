//! Starting, stopping and watching jobs.

use crate::config::{Config, Scope};
use crate::orchdi::{label_of, service_label};
use crate::platform::launchd::generate::{log_dir, log_dir_of, plist_name};
use crate::platform::launchd::{installed_plist, plist_dest_path};
use crate::platform::status::{render_status, report, ServiceStatus};
use crate::platform::{
    judge_tail, result_view, succeeded, tail_result, Host, Invocation, InvocationView, Outcome,
    OutcomeView, PlatformError, PlatformErrorView,
};
use crate::text::chars::same_text;
use crate::text::number::{decimal, decimal_of, parse_u32, parse_unsigned};
use crate::text::scan::{
    ends_with, lemma_prefixes_nest, lines, split_lines, starts_with, strip_prefix, strip_suffix,
    trim, trim_end_matches, trimmed, without_prefix, without_suffix, without_suffixes,
};
use vstd::prelude::*;

verus! {

/// The launchctl domain: the user's, or the system's.
pub open spec fn domain_of(scope: Scope, uid: Seq<char>) -> Seq<char> {
    if scope == Scope::User {
        "gui/"@ + uid
    } else {
        "system"@
    }
}

/// The launchctl domain: the user's, or the system's.
pub fn domain(config: &Config, uid: &str) -> (r: String)
    ensures
        r@ == domain_of(config.scope, uid@),
{
    if config.scope.is_user() {
        let mut r = "gui/".to_string();
        r.append(uid);
        r
    } else {
        "system".to_string()
    }
}

/// A job within its domain.
pub open spec fn target_of(scope: Scope, uid: Seq<char>, label: Seq<char>) -> Seq<char> {
    domain_of(scope, uid) + "/"@ + label
}

/// A job within its domain.
pub fn service_target(config: &Config, uid: &str, label: &str) -> (r: String)
    ensures
        r@ == target_of(config.scope, uid@, label@),
{
    let mut r = domain(config, uid);
    r.append("/");
    r.append(label);
    r
}

/// The user's id as `id -u` tells it, or 0.
pub open spec fn uid_of(outcome: OutcomeView) -> Seq<char> {
    match outcome {
        OutcomeView::NotRun(_) => "0"@,
        OutcomeView::Ended { success, stdout, .. } => if success {
            trimmed(stdout)
        } else {
            "0"@
        },
    }
}

/// The user's id, given the answer to `id -u`.
pub fn current_uid(answer: &Outcome) -> (r: String)
    ensures
        r@ == uid_of(answer@),
{
    match answer {
        Outcome::NotRun(_) => "0".to_string(),
        Outcome::Ended { success, stdout, .. } => if *success {
            trim(stdout.as_str())
        } else {
            "0".to_string()
        },
    }
}

/// Whether a file is a property list of the namespace.
pub open spec fn is_job_file(file: Seq<char>, namespace: Seq<char>) -> bool {
    ".plist"@.is_suffix_of(file) && (namespace + "."@).is_prefix_of(file)
}

/// Tells whether a file is a property list of the namespace.
pub fn check_job_file(file: &str, config: &Config) -> (r: bool)
    ensures
        r == is_job_file(file@, config.namespace@),
{
    let mut prefix = config.namespace.clone();
    prefix.append(".");
    ends_with(file, ".plist") && starts_with(file, prefix.as_str())
}

/// The labels of the property lists of the namespace among files.
pub open spec fn installed_labels(files: Seq<Seq<char>>, namespace: Seq<char>) -> Seq<Seq<char>>
    decreases files.len(),
{
    if files.len() == 0 {
        Seq::empty()
    } else {
        let before = installed_labels(files.drop_last(), namespace);
        if is_job_file(files.last(), namespace) {
            before.push(without_suffixes(files.last(), ".plist"@))
        } else {
            before
        }
    }
}

/// The labels that are acted on: those of the services named, or all that are
/// installed.
pub open spec fn labels_of(
    services: Seq<Seq<char>>,
    installed: Seq<Seq<char>>,
    namespace: Seq<char>,
) -> Seq<Seq<char>> {
    if services.len() > 0 {
        services.map_values(|s: Seq<char>| label_of(namespace, s))
    } else {
        installed_labels(installed, namespace)
    }
}

/// The labels of services.
pub fn service_labels(services: &Vec<String>, config: &Config) -> (r: Vec<String>)
    ensures
        r.deep_view() == services.deep_view().map_values(
            |s: Seq<char>| label_of(config.namespace@, s),
        ),
{
    let ghost ns = config.namespace@;
    let ghost all = services.deep_view().map_values(|s: Seq<char>| label_of(ns, s));
    let mut r: Vec<String> = Vec::new();
    let n: usize = services.len();
    assert(r.deep_view() =~= all.take(0));
    for i in 0..n
        invariant
            n == services@.len(),
            ns == config.namespace@,
            all == services.deep_view().map_values(|s: Seq<char>| label_of(ns, s)),
            r.deep_view() == all.take(i as int),
    {
        let ghost done = r.deep_view();
        assert(services.deep_view()[i as int] == services@[i as int]@);
        r.push(service_label(config, services[i].as_str()));
        assert(r.deep_view() =~= done.push(all[i as int]));
        assert(r.deep_view() =~= all.take(i + 1));
    }
    assert(all.take(n as int) == all);
    r
}

/// The labels that are acted on, given the files of the install directory.
pub fn labels_for(services: &Vec<String>, installed: &Vec<String>, config: &Config) -> (r: Vec<
    String,
>)
    ensures
        r.deep_view() == labels_of(
            services.deep_view(),
            installed.deep_view(),
            config.namespace@,
        ),
{
    if services.len() > 0 {
        return service_labels(services, config);
    }
    let mut r: Vec<String> = Vec::new();
    let ghost all = installed.deep_view();
    let ghost ns = config.namespace@;
    let n: usize = installed.len();
    assert(r.deep_view() =~= installed_labels(all.take(0), ns));
    for i in 0..n
        invariant
            n == installed@.len(),
            all == installed.deep_view(),
            ns == config.namespace@,
            r.deep_view() == installed_labels(all.take(i as int), ns),
    {
        let ghost done = r.deep_view();
        assert(all.take(i + 1).drop_last() == all.take(i as int));
        assert(all.take(i + 1).last() == installed@[i as int]@);
        if check_job_file(installed[i].as_str(), config) {
            proof {
                reveal_strlit(".plist");
            }
            let label = trim_end_matches(installed[i].as_str(), ".plist");
            let ghost l = label@;
            r.push(label);
            assert(r.deep_view() =~= done.push(l));
        }
    }
    assert(all.take(n as int) == all);
    r
}

/// A call of launchctl.
pub open spec fn launchctl(args: Seq<Seq<char>>) -> InvocationView {
    InvocationView { program: "launchctl"@, args }
}

fn launchctl_with(a: &str, b: String, c: String) -> (r: Invocation)
    ensures
        r@ == launchctl(seq![a@, b@, c@]),
{
    let mut args: Vec<String> = Vec::new();
    args.push(a.to_string());
    args.push(b);
    args.push(c);
    assert(args.deep_view() =~= seq![a@, b@, c@]);
    Invocation { program: "launchctl".to_string(), args }
}

/// The call that loads a job.
pub open spec fn bootstrap_call(
    scope: Scope,
    home: Option<Seq<char>>,
    uid: Seq<char>,
    label: Seq<char>,
) -> InvocationView {
    launchctl(seq!["bootstrap"@, domain_of(scope, uid), installed_plist(scope, home, label)])
}

/// The call that unloads a job.
pub open spec fn bootout_call(
    scope: Scope,
    home: Option<Seq<char>>,
    uid: Seq<char>,
    label: Seq<char>,
) -> InvocationView {
    launchctl(seq!["bootout"@, domain_of(scope, uid), installed_plist(scope, home, label)])
}

/// The call that restarts a job that is already loaded.
pub open spec fn kickstart_call(scope: Scope, uid: Seq<char>, label: Seq<char>) -> InvocationView {
    launchctl(seq!["kickstart"@, "-k"@, target_of(scope, uid, label)])
}

/// How far starting a list of jobs has come.
#[derive(Debug, Clone, Copy, PartialEq, Eq, Structural)]
pub enum StartPhase {
    /// Loading the job of that index.
    Bootstrap { next: usize },
    /// Restarting the job of that index, which could not be loaded.
    Kickstart { next: usize },
    /// All jobs are started.
    Started,
}

/// Whether a phase fits a number of jobs.
pub open spec fn start_valid(count: nat, phase: StartPhase) -> bool {
    match phase {
        StartPhase::Bootstrap { next } => next < count,
        StartPhase::Kickstart { next } => next < count,
        StartPhase::Started => true,
    }
}

/// The phase in which the job `i` is next.
pub open spec fn start_at(count: nat, i: int) -> StartPhase {
    if i < count {
        StartPhase::Bootstrap { next: i as usize }
    } else {
        StartPhase::Started
    }
}

/// What follows a call: a job that cannot be loaded is taken for one that is
/// loaded already and is restarted; one that cannot be restarted is an error.
pub open spec fn start_next(
    labels: Seq<Seq<char>>,
    scope: Scope,
    uid: Seq<char>,
    phase: StartPhase,
    outcome: OutcomeView,
) -> Result<StartPhase, PlatformErrorView> {
    match phase {
        StartPhase::Bootstrap { next } => if succeeded(outcome) {
            Ok(start_at(labels.len(), next + 1))
        } else {
            Ok(StartPhase::Kickstart { next })
        },
        StartPhase::Kickstart { next } => match outcome {
            OutcomeView::NotRun(e) => Err(
                PlatformErrorView::LifecycleFailed("launchctl kickstart: "@ + e),
            ),
            OutcomeView::Ended { success, .. } => if success {
                Ok(start_at(labels.len(), next + 1))
            } else {
                Err(
                    PlatformErrorView::LifecycleFailed(
                        "launchctl kickstart "@ + target_of(scope, uid, labels[next as int])
                            + " failed"@,
                    ),
                )
            },
        },
        StartPhase::Started => Ok(StartPhase::Started),
    }
}

/// Begins to start jobs.
pub fn start(labels: &Vec<String>) -> (r: StartPhase)
    ensures
        r == start_at(labels@.len(), 0),
        start_valid(labels@.len(), r),
{
    if labels.len() > 0 {
        StartPhase::Bootstrap { next: 0 }
    } else {
        StartPhase::Started
    }
}

/// The call that a phase makes.
pub fn start_call(
    labels: &Vec<String>,
    phase: StartPhase,
    config: &Config,
    host: &Host,
    uid: &str,
) -> (r: Option<Invocation>)
    requires
        start_valid(labels@.len(), phase),
    ensures
        r.deep_view() == (match phase {
            StartPhase::Bootstrap { next } => Some(
                bootstrap_call(
                    config.scope,
                    host.home.deep_view(),
                    uid@,
                    labels.deep_view()[next as int],
                ),
            ),
            StartPhase::Kickstart { next } => Some(
                kickstart_call(config.scope, uid@, labels.deep_view()[next as int]),
            ),
            StartPhase::Started => None,
        }),
{
    match phase {
        StartPhase::Bootstrap { next } => {
            let label = labels[next].as_str();
            Some(
                launchctl_with(
                    "bootstrap",
                    domain(config, uid),
                    plist_dest_path(config, host, label),
                ),
            )
        },
        StartPhase::Kickstart { next } => {
            let label = labels[next].as_str();
            Some(
                launchctl_with(
                    "kickstart",
                    "-k".to_string(),
                    service_target(config, uid, label),
                ),
            )
        },
        StartPhase::Started => None,
    }
}

/// The phase that follows a call.
pub fn start_step(
    labels: &Vec<String>,
    phase: StartPhase,
    outcome: &Outcome,
    config: &Config,
    uid: &str,
) -> (r: Result<StartPhase, PlatformError>)
    requires
        start_valid(labels@.len(), phase),
    ensures
        match r {
            Ok(p) => start_next(labels.deep_view(), config.scope, uid@, phase, outcome@) == Ok::<
                StartPhase,
                PlatformErrorView,
            >(p) && start_valid(labels@.len(), p),
            Err(e) => start_next(labels.deep_view(), config.scope, uid@, phase, outcome@) == Err::<
                StartPhase,
                PlatformErrorView,
            >(e@),
        },
{
    let count: usize = labels.len();
    match phase {
        StartPhase::Bootstrap { next } => {
            if !outcome.succeeded() {
                Ok(StartPhase::Kickstart { next })
            } else if next + 1 < count {
                Ok(StartPhase::Bootstrap { next: next + 1 })
            } else {
                Ok(StartPhase::Started)
            }
        },
        StartPhase::Kickstart { next } => match outcome {
            Outcome::NotRun(e) => {
                let mut m = "launchctl kickstart: ".to_string();
                m.append(e.as_str());
                Err(PlatformError::LifecycleFailed(m))
            },
            Outcome::Ended { success, .. } => if *success {
                if next + 1 < count {
                    Ok(StartPhase::Bootstrap { next: next + 1 })
                } else {
                    Ok(StartPhase::Started)
                }
            } else {
                let mut m = "launchctl kickstart ".to_string();
                m.append(service_target(config, uid, labels[next].as_str()).as_str());
                m.append(" failed");
                Err(PlatformError::LifecycleFailed(m))
            },
        },
        StartPhase::Started => Ok(StartPhase::Started),
    }
}

/// The calls that unload jobs.
pub open spec fn stop_calls(
    labels: Seq<Seq<char>>,
    scope: Scope,
    home: Option<Seq<char>>,
    uid: Seq<char>,
) -> Seq<InvocationView> {
    labels.map_values(|label: Seq<char>| bootout_call(scope, home, uid, label))
}

/// The calls that unload jobs. Whether they succeed does not matter.
pub fn stop(labels: &Vec<String>, config: &Config, host: &Host, uid: &str) -> (r: Vec<Invocation>)
    ensures
        r.deep_view() == stop_calls(
            labels.deep_view(),
            config.scope,
            host.home.deep_view(),
            uid@,
        ),
{
    let ghost all = stop_calls(labels.deep_view(), config.scope, host.home.deep_view(), uid@);
    let mut r: Vec<Invocation> = Vec::new();
    let n: usize = labels.len();
    assert(r.deep_view() =~= all.take(0));
    for i in 0..n
        invariant
            n == labels@.len(),
            all == stop_calls(labels.deep_view(), config.scope, host.home.deep_view(), uid@),
            r.deep_view() == all.take(i as int),
    {
        let ghost done = r.deep_view();
        let label = labels[i].as_str();
        assert(labels.deep_view()[i as int] == label@);
        r.push(
            launchctl_with("bootout", domain(config, uid), plist_dest_path(config, host, label)),
        );
        assert(r.deep_view() =~= done.push(all[i as int]));
        assert(r.deep_view() =~= all.take(i + 1));
    }
    assert(all.take(n as int) == all);
    r
}

/// Restarting jobs: the calls that unload them, and the phase in which starting
/// them then begins.
pub fn restart(labels: &Vec<String>, config: &Config, host: &Host, uid: &str) -> (r: (
    Vec<Invocation>,
    StartPhase,
))
    ensures
        r.0.deep_view() == stop_calls(
            labels.deep_view(),
            config.scope,
            host.home.deep_view(),
            uid@,
        ),
        r.1 == start_at(labels@.len(), 0),
        start_valid(labels@.len(), r.1),
{
    (stop(labels, config, host, uid), start(labels))
}

/// The label of a property list.
pub open spec fn label_of_file(file: Seq<char>) -> Seq<char> {
    match without_suffix(file, ".plist"@) {
        Some(label) => label,
        None => file,
    }
}

/// The service of a label.
pub open spec fn service_of_label(label: Seq<char>, namespace: Seq<char>) -> Seq<char> {
    match without_prefix(label, namespace + "."@) {
        Some(name) => name,
        None => label,
    }
}

/// The label and the service of a property list of the namespace.
pub fn job_of(file: &str, config: &Config) -> (r: Option<(String, String)>)
    ensures
        match r {
            Some(j) => is_job_file(file@, config.namespace@) && j.0@ == label_of_file(file@)
                && j.1@ == service_of_label(label_of_file(file@), config.namespace@),
            None => !is_job_file(file@, config.namespace@),
        },
{
    if !check_job_file(file, config) {
        return None;
    }
    let label = match strip_suffix(file, ".plist") {
        Some(l) => l,
        None => file.to_string(),
    };
    let mut prefix = config.namespace.clone();
    prefix.append(".");
    let name = match strip_prefix(label.as_str(), prefix.as_str()) {
        Some(n) => n,
        None => label.clone(),
    };
    Some((label, name))
}

/// The call that asks for the state of a job.
pub fn query(label: &str, config: &Config, uid: &str) -> (r: Invocation)
    ensures
        r@ == launchctl(seq!["print"@, target_of(config.scope, uid@, label@)]),
{
    let mut args: Vec<String> = Vec::new();
    args.push("print".to_string());
    args.push(service_target(config, uid, label));
    assert(args.deep_view() =~= seq!["print"@, target_of(config.scope, uid@, label@)]);
    Invocation { program: "launchctl".to_string(), args }
}

/// The state of a job: active state, sub-state and process.
#[verifier::ext_equal]
pub struct JobState {
    pub active: Seq<char>,
    pub sub: Seq<char>,
    pub pid: Option<nat>,
}

/// A value of launchctl's answer, without white space and trailing commas.
pub open spec fn answer_value(text: Seq<char>) -> Seq<char> {
    without_suffixes(trimmed(text), ","@)
}

/// What one line of the answer says, on top of what is known.
pub open spec fn with_line(state: JobState, line: Seq<char>) -> JobState {
    let t = trimmed(line);
    match without_prefix(t, "pid ="@) {
        Some(v) => match parse_unsigned(answer_value(v), u32::MAX as nat) {
            Some(p) => if p > 0 {
                JobState { pid: Some(p), ..state }
            } else {
                state
            },
            None => state,
        },
        None => match without_prefix(t, "state ="@) {
            Some(v) => {
                let sub = answer_value(v);
                JobState {
                    active: if sub == "running"@ {
                        "active"@
                    } else {
                        "inactive"@
                    },
                    sub,
                    ..state
                }
            },
            None => state,
        },
    }
}

/// What the lines of the answer say.
pub open spec fn state_of(lines: Seq<Seq<char>>) -> JobState
    decreases lines.len(),
{
    if lines.len() == 0 {
        JobState { active: "inactive"@, sub: "dead"@, pid: None }
    } else {
        with_line(state_of(lines.drop_last()), lines.last())
    }
}

/// What the answer says; without an answer the job is dead.
pub open spec fn job_state(answer: OutcomeView) -> JobState {
    match answer {
        OutcomeView::NotRun(_) => state_of(Seq::empty()),
        OutcomeView::Ended { success, stdout, .. } => if success {
            state_of(lines(stdout))
        } else {
            state_of(Seq::empty())
        },
    }
}

/// The process id as a number, if there is one.
pub open spec fn pid_number(pid: Option<u32>) -> Option<nat> {
    match pid {
        Some(p) => Some(p as nat),
        None => None,
    }
}

fn clean_value(text: &str) -> (r: String)
    ensures
        r@ == answer_value(text@),
{
    let t = trim(text);
    proof {
        reveal_strlit(",");
    }
    trim_end_matches(t.as_str(), ",")
}

fn read_state(stdout: &str) -> (r: (String, String, Option<u32>))
    ensures
        (JobState { active: r.0@, sub: r.1@, pid: pid_number(r.2) }) == state_of(lines(stdout@)),
{
    let mut active = "inactive".to_string();
    let mut sub = "dead".to_string();
    let mut pid: Option<u32> = None;
    let ls = split_lines(stdout);
    let ghost all = ls.deep_view();
    let n: usize = ls.len();
    for i in 0..n
        invariant
            n == ls@.len(),
            all == ls.deep_view(),
            (JobState { active: active@, sub: sub@, pid: pid_number(pid) }) == state_of(
                all.take(i as int),
            ),
    {
        assert(all.take(i + 1).drop_last() == all.take(i as int));
        assert(all.take(i + 1).last() == ls@[i as int]@);
        let t = trim(ls[i].as_str());
        if let Some(v) = strip_prefix(t.as_str(), "pid =") {
            if let Some(p) = parse_u32(clean_value(v.as_str()).as_str()) {
                if p > 0 {
                    pid = Some(p);
                }
            }
        } else if let Some(v) = strip_prefix(t.as_str(), "state =") {
            sub = clean_value(v.as_str());
            active = if same_text(sub.as_str(), "running") {
                "active".to_string()
            } else {
                "inactive".to_string()
            };
        }
    }
    assert(all.take(n as int) == all);
    (active, sub, pid)
}

/// Reads the answer on the state of a job.
pub fn query_status(answer: &Outcome) -> (r: (String, String, Option<u32>))
    ensures
        (JobState { active: r.0@, sub: r.1@, pid: pid_number(r.2) }) == job_state(answer@),
{
    match answer {
        Outcome::Ended { success, stdout, .. } => if *success {
            read_state(stdout.as_str())
        } else {
            ("inactive".to_string(), "dead".to_string(), None)
        },
        Outcome::NotRun(_) => ("inactive".to_string(), "dead".to_string(), None),
    }
}

/// The state of a service, given launchctl's answer on its job.
pub fn job_status(service: &str, answer: &Outcome) -> (r: ServiceStatus)
    ensures
        r@.name == service@,
        (JobState { active: r@.active_state, sub: r@.sub_state, pid: pid_number(r@.pid) })
            == job_state(answer@),
{
    let (active_state, sub_state, pid) = query_status(answer);
    ServiceStatus { name: service.to_string(), active_state, sub_state, pid }
}

/// Shows the states of the jobs, sorted by name.
pub fn status(statuses: Vec<ServiceStatus>, as_json: bool) -> (r: String)
    ensures
        r@ == report(statuses.deep_view(), as_json),
{
    render_status(statuses, as_json)
}

/// The arguments that show the end of files.
pub open spec fn tail_args(lines: nat, follow: bool, files: Seq<Seq<char>>) -> Seq<Seq<char>> {
    seq!["-n"@, decimal(lines)] + (if follow {
        seq!["-f"@]
    } else {
        seq![]
    }) + files
}

/// A log of a job.
pub open spec fn log_of(dir: Seq<char>, label: Seq<char>, suffix: Seq<char>) -> Seq<char> {
    dir + "/"@ + label + suffix
}

/// The command that shows a service's logs.
pub fn logs(service: &str, follow: bool, lines: u32, config: &Config, host: &Host) -> (r:
    Invocation)
    ensures
        ({
            let label = label_of(config.namespace@, service@);
            let dir = log_dir_of(config.scope, host.home.deep_view());
            r@ == (InvocationView {
                program: "tail"@,
                args: tail_args(
                    lines as nat,
                    follow,
                    seq![log_of(dir, label, ".out.log"@), log_of(dir, label, ".err.log"@)],
                ),
            })
        }),
{
    let label = service_label(config, service);
    let dir = log_dir(config, host);
    let mut out = dir.clone();
    out.append("/");
    out.append(label.as_str());
    out.append(".out.log");
    let mut err = dir.clone();
    err.append("/");
    err.append(label.as_str());
    err.append(".err.log");
    let mut args: Vec<String> = Vec::new();
    args.push("-n".to_string());
    args.push(decimal_of(lines as u64));
    assert(args.deep_view() =~= seq!["-n"@, decimal(lines as nat)]);
    let ghost head = args.deep_view();
    if follow {
        args.push("-f".to_string());
        assert(args.deep_view() =~= head + seq!["-f"@]);
    }
    let ghost mid = args.deep_view();
    assert(mid =~= head + (if follow {
        seq!["-f"@]
    } else {
        seq![]
    }));
    args.push(out);
    args.push(err);
    assert(args.deep_view() =~= mid + seq![out@, err@]);
    Invocation { program: "tail".to_string(), args }
}

/// Judges the command that shows a service's logs.
pub fn judge_logs(outcome: &Outcome) -> (r: Result<(), PlatformError>)
    ensures
        result_view(r) == tail_result("tail"@, outcome@),
{
    judge_tail("tail", outcome)
}

/// The survey finds each service again under its own name: the property list
/// that is written for a service is taken for that service's.
pub proof fn law_survey_finds_the_service(namespace: Seq<char>, service: Seq<char>)
    ensures
        ({
            let file = plist_name(namespace, service);
            &&& is_job_file(file, namespace)
            &&& label_of_file(file) == label_of(namespace, service)
            &&& service_of_label(label_of_file(file), namespace) == service
        }),
{
    let label = label_of(namespace, service);
    let file = plist_name(namespace, service);
    let prefix = namespace + "."@;
    assert(label =~= prefix + service);
    assert(file =~= label + ".plist"@);
    assert(".plist"@.is_suffix_of(file)) by {
        assert(file.subrange(file.len() - ".plist"@.len(), file.len() as int) =~= ".plist"@);
    }
    assert(prefix.is_prefix_of(file)) by {
        assert(file.subrange(0, prefix.len() as int) =~= prefix);
    }
    assert(prefix.is_prefix_of(label)) by {
        assert(label.subrange(0, prefix.len() as int) =~= prefix);
    }
    assert(file.take(file.len() - ".plist"@.len()) =~= label);
    assert(label.skip(prefix.len() as int) =~= service);
}

/// Groves are apart: the survey of one namespace does not find the property lists
/// of another, as long as neither namespace, with its separator, begins the
/// other.
pub proof fn law_groves_are_apart(namespace: Seq<char>, other: Seq<char>, service: Seq<char>)
    requires
        !(namespace + "."@).is_prefix_of(other + "."@),
        !(other + "."@).is_prefix_of(namespace + "."@),
    ensures
        !is_job_file(plist_name(other, service), namespace),
{
    let file = plist_name(other, service);
    let theirs = other + "."@;
    assert(theirs.is_prefix_of(file)) by {
        assert(file.subrange(0, theirs.len() as int) =~= theirs);
    }
    if (namespace + "."@).is_prefix_of(file) {
        lemma_prefixes_nest(namespace + "."@, theirs, file);
    }
}

} // verus!
