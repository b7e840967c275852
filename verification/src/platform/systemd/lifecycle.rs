//! Starting, stopping and watching units.

use crate::config::{target_name, unit_name, Config};
use crate::platform::status::{render_status, report, ServiceStatus, StatusView};
use crate::platform::systemd::{put_scope, scope_args, systemctl_call};
use crate::platform::{
    judge_tail, result_view, tail_result, Invocation, InvocationView, Outcome, OutcomeView,
    PlatformError, PlatformErrorView,
};
use crate::text::number::{decimal, decimal_of, parse_u32, parse_unsigned};
use crate::text::scan::{
    contains, ends_with, join as join_texts, joined, lemma_prefixes_nest, lines, occurs, split_lines,
    starts_with, strip_prefix, strip_suffix, trim, trimmed, without_prefix, without_suffix,
};
use vstd::prelude::*;

verus! {

/// What systemctl is asked for: a verb, on the units of the services named, or
/// on the target where none is named.
pub open spec fn unit_args(verb: Seq<char>, services: Seq<Seq<char>>, namespace: Seq<char>) -> Seq<
    Seq<char>,
> {
    seq![verb] + (if services.len() == 0 {
        seq![target_name(namespace)]
    } else {
        services.map_values(|s: Seq<char>| unit_name(namespace, s))
    })
}

fn unit_args_of(verb: &str, services: &Vec<String>, config: &Config) -> (r: Vec<String>)
    ensures
        r.deep_view() == unit_args(verb@, services.deep_view(), config.namespace@),
{
    let mut args: Vec<String> = Vec::new();
    args.push(verb.to_string());
    assert(args.deep_view() =~= seq![verb@]);
    let n: usize = services.len();
    if n == 0 {
        let ghost head = args.deep_view();
        args.push(config.target_name());
        assert(args.deep_view() =~= head.push(target_name(config.namespace@)));
    } else {
        let ghost ns = config.namespace@;
        let ghost units = services.deep_view().map_values(|s: Seq<char>| unit_name(ns, s));
        assert(args.deep_view() =~= seq![verb@] + units.take(0));
        for i in 0..n
            invariant
                n == services@.len(),
                ns == config.namespace@,
                units == services.deep_view().map_values(|s: Seq<char>| unit_name(ns, s)),
                args.deep_view() == seq![verb@] + units.take(i as int),
        {
            let ghost done = args.deep_view();
            assert(services.deep_view()[i as int] == services@[i as int]@);
            args.push(config.unit_name(services[i].as_str()));
            assert(args.deep_view() =~= done.push(units[i as int]));
            assert(args.deep_view() =~= seq![verb@] + units.take(i + 1));
        }
        assert(units.take(n as int) == units);
    }
    assert(args.deep_view() =~= unit_args(verb@, services.deep_view(), config.namespace@));
    args
}

/// A call of systemctl in the scope of the settings.
pub fn systemctl(args: &Vec<String>, config: &Config) -> (r: Invocation)
    ensures
        r@ == systemctl_call(config.scope, args.deep_view()),
{
    let mut all: Vec<String> = Vec::new();
    assert(all.deep_view() =~= Seq::<Seq<char>>::empty());
    put_scope(&mut all, config);
    let ghost head = all.deep_view();
    let ghost rest = args.deep_view();
    let n: usize = args.len();
    assert(all.deep_view() =~= head + rest.take(0));
    for i in 0..n
        invariant
            n == args@.len(),
            rest == args.deep_view(),
            all.deep_view() == head + rest.take(i as int),
    {
        let ghost done = all.deep_view();
        all.push(args[i].clone());
        assert(all.deep_view() =~= done.push(rest[i as int]));
        assert(all.deep_view() =~= head + rest.take(i + 1));
    }
    assert(rest.take(n as int) == rest);
    assert(all.deep_view() =~= scope_args(config.scope) + args.deep_view());
    Invocation { program: "systemctl".to_string(), args: all }
}

/// What a call of systemctl results in.
pub open spec fn systemctl_result(args: Seq<Seq<char>>, outcome: OutcomeView) -> Result<
    (),
    PlatformErrorView,
> {
    let call = "systemctl "@ + joined(args, " "@);
    match outcome {
        OutcomeView::NotRun(e) => Err(PlatformErrorView::LifecycleFailed(call + ": "@ + e)),
        OutcomeView::Ended { success, stderr, .. } => if success {
            Ok(())
        } else {
            Err(PlatformErrorView::LifecycleFailed(call + " failed: "@ + trimmed(stderr)))
        },
    }
}

fn judge_systemctl(args: &Vec<String>, outcome: &Outcome) -> (r: Result<(), PlatformError>)
    ensures
        result_view(r) == systemctl_result(args.deep_view(), outcome@),
{
    let mut m = "systemctl ".to_string();
    m.append(join_texts(args, " ").as_str());
    match outcome {
        Outcome::NotRun(e) => {
            m.append(": ");
            m.append(e.as_str());
            Err(PlatformError::LifecycleFailed(m))
        },
        Outcome::Ended { success, stderr, .. } => {
            if *success {
                return Ok(());
            }
            m.append(" failed: ");
            m.append(trim(stderr.as_str()).as_str());
            Err(PlatformError::LifecycleFailed(m))
        },
    }
}

/// The command that starts services: those named, or all.
pub fn start(services: &Vec<String>, config: &Config) -> (r: Invocation)
    ensures
        r@ == systemctl_call(
            config.scope,
            unit_args("start"@, services.deep_view(), config.namespace@),
        ),
{
    systemctl(&unit_args_of("start", services, config), config)
}

/// The command that stops services: those named, or all.
pub fn stop(services: &Vec<String>, config: &Config) -> (r: Invocation)
    ensures
        r@ == systemctl_call(
            config.scope,
            unit_args("stop"@, services.deep_view(), config.namespace@),
        ),
{
    systemctl(&unit_args_of("stop", services, config), config)
}

/// Judges the command that starts services.
pub fn judge_start(services: &Vec<String>, config: &Config, outcome: &Outcome) -> (r: Result<
    (),
    PlatformError,
>)
    ensures
        result_view(r) == systemctl_result(
            unit_args("start"@, services.deep_view(), config.namespace@),
            outcome@,
        ),
{
    judge_systemctl(&unit_args_of("start", services, config), outcome)
}

/// Judges the command that stops services.
pub fn judge_stop(services: &Vec<String>, config: &Config, outcome: &Outcome) -> (r: Result<
    (),
    PlatformError,
>)
    ensures
        result_view(r) == systemctl_result(
            unit_args("stop"@, services.deep_view(), config.namespace@),
            outcome@,
        ),
{
    judge_systemctl(&unit_args_of("stop", services, config), outcome)
}

/// Whether a file of the units directory is the unit of a service, and not a
/// ready gate, the target or another namespace's.
pub open spec fn is_service_file(file: Seq<char>, namespace: Seq<char>) -> bool {
    &&& ".service"@.is_suffix_of(file)
    &&& !occurs("-ready.service"@, file)
    &&& (namespace + "-"@).is_prefix_of(file)
}

/// The service whose unit a file is.
pub open spec fn service_of_file(file: Seq<char>, namespace: Seq<char>) -> Seq<char> {
    match without_prefix(file, namespace + "-"@) {
        Some(rest) => match without_suffix(rest, ".service"@) {
            Some(name) => name,
            None => file,
        },
        None => file,
    }
}

/// The service whose unit a file is, if it is one.
pub fn service_of(file: &str, config: &Config) -> (r: Option<String>)
    ensures
        r.deep_view() == (if is_service_file(file@, config.namespace@) {
            Some(service_of_file(file@, config.namespace@))
        } else {
            None
        }),
{
    let mut prefix = config.namespace.clone();
    prefix.append("-");
    if !ends_with(file, ".service") || contains(file, "-ready.service") || !starts_with(
        file,
        prefix.as_str(),
    ) {
        return None;
    }
    match strip_prefix(file, prefix.as_str()) {
        Some(rest) => match strip_suffix(rest.as_str(), ".service") {
            Some(name) => Some(name),
            None => Some(file.to_string()),
        },
        None => Some(file.to_string()),
    }
}

/// The files of a directory that are units of services.
pub open spec fn surveyed(files: Seq<Seq<char>>, namespace: Seq<char>) -> Seq<Seq<char>>
    decreases files.len(),
{
    if files.len() == 0 {
        Seq::empty()
    } else {
        let before = surveyed(files.drop_last(), namespace);
        if is_service_file(files.last(), namespace) {
            before.push(files.last())
        } else {
            before
        }
    }
}

/// The files of the units directory whose state is asked for.
pub fn units_to_query(files: &Vec<String>, config: &Config) -> (r: Vec<String>)
    ensures
        r.deep_view() == surveyed(files.deep_view(), config.namespace@),
{
    let mut r: Vec<String> = Vec::new();
    let ghost all = files.deep_view();
    let ghost ns = config.namespace@;
    let n: usize = files.len();
    assert(r.deep_view() =~= surveyed(all.take(0), ns));
    for i in 0..n
        invariant
            n == files@.len(),
            all == files.deep_view(),
            ns == config.namespace@,
            r.deep_view() == surveyed(all.take(i as int), ns),
    {
        let ghost done = r.deep_view();
        assert(all.take(i + 1).drop_last() == all.take(i as int));
        assert(all.take(i + 1).last() == files@[i as int]@);
        if service_of(files[i].as_str(), config).is_some() {
            r.push(files[i].clone());
            assert(r.deep_view() =~= done.push(files@[i as int]@));
        }
    }
    assert(all.take(n as int) == all);
    r
}

/// The command that asks for the state of a unit.
pub fn query(unit: &str, config: &Config) -> (r: Invocation)
    ensures
        r@ == systemctl_call(
            config.scope,
            seq!["show"@, unit@, "--property=ActiveState,SubState,MainPID"@],
        ),
{
    let mut args: Vec<String> = Vec::new();
    args.push("show".to_string());
    args.push(unit.to_string());
    args.push("--property=ActiveState,SubState,MainPID".to_string());
    assert(args.deep_view() =~= seq![
        "show"@,
        unit@,
        "--property=ActiveState,SubState,MainPID"@,
    ]);
    systemctl(&args, config)
}

/// The state of a unit: active state, sub-state and main process.
#[verifier::ext_equal]
pub struct UnitState {
    pub active: Seq<char>,
    pub sub: Seq<char>,
    pub pid: Option<nat>,
}

/// A process id, which 0 is not.
pub open spec fn pid_of(text: Seq<char>) -> Option<nat> {
    match parse_unsigned(text, u32::MAX as nat) {
        Some(p) => if p > 0 {
            Some(p)
        } else {
            None
        },
        None => None,
    }
}

/// What one line of the answer says, on top of what is known.
pub open spec fn with_line(state: UnitState, line: Seq<char>) -> UnitState {
    match without_prefix(line, "ActiveState="@) {
        Some(v) => UnitState { active: v, ..state },
        None => match without_prefix(line, "SubState="@) {
            Some(v) => UnitState { sub: v, ..state },
            None => match without_prefix(line, "MainPID="@) {
                Some(v) => match pid_of(v) {
                    Some(p) => UnitState { pid: Some(p), ..state },
                    None => state,
                },
                None => state,
            },
        },
    }
}

/// What the lines of the answer say.
pub open spec fn state_of(lines: Seq<Seq<char>>) -> UnitState
    decreases lines.len(),
{
    if lines.len() == 0 {
        UnitState { active: "unknown"@, sub: "unknown"@, pid: None }
    } else {
        with_line(state_of(lines.drop_last()), lines.last())
    }
}

/// The process id as a number, if there is one.
pub open spec fn pid_number(pid: Option<u32>) -> Option<nat> {
    match pid {
        Some(p) => Some(p as nat),
        None => None,
    }
}

/// Reads the answer on the state of a unit.
pub fn query_unit_status(stdout: &str) -> (r: (String, String, Option<u32>))
    ensures
        (UnitState { active: r.0@, sub: r.1@, pid: pid_number(r.2) }) == state_of(lines(stdout@)),
{
    let mut active = "unknown".to_string();
    let mut sub = "unknown".to_string();
    let mut pid: Option<u32> = None;
    let ls = split_lines(stdout);
    let ghost all = ls.deep_view();
    let n: usize = ls.len();
    for i in 0..n
        invariant
            n == ls@.len(),
            all == ls.deep_view(),
            (UnitState { active: active@, sub: sub@, pid: pid_number(pid) }) == state_of(
                all.take(i as int),
            ),
    {
        assert(all.take(i + 1).drop_last() == all.take(i as int));
        assert(all.take(i + 1).last() == ls@[i as int]@);
        let line = ls[i].as_str();
        if let Some(v) = strip_prefix(line, "ActiveState=") {
            active = v;
        } else if let Some(v) = strip_prefix(line, "SubState=") {
            sub = v;
        } else if let Some(v) = strip_prefix(line, "MainPID=") {
            if let Some(p) = parse_u32(v.as_str()) {
                if p > 0 {
                    pid = Some(p);
                }
            }
        }
    }
    assert(all.take(n as int) == all);
    (active, sub, pid)
}

/// The state of the unit in a file, as the answer gives it.
pub open spec fn status_of(
    file: Seq<char>,
    namespace: Seq<char>,
    answer: OutcomeView,
    status: StatusView,
) -> bool {
    &&& status.name == service_of_file(file, namespace)
    &&& answer matches OutcomeView::Ended { stdout, .. } && (UnitState {
        active: status.active_state,
        sub: status.sub_state,
        pid: pid_number(status.pid),
    }) == state_of(lines(stdout))
}

/// Reads the state of the unit in a file from the answer of systemctl.
pub fn unit_status(file: &str, config: &Config, answer: &Outcome) -> (r: Result<
    ServiceStatus,
    PlatformError,
>)
    requires
        is_service_file(file@, config.namespace@),
    ensures
        match r {
            Ok(s) => status_of(file@, config.namespace@, answer@, s@),
            Err(e) => answer@ matches OutcomeView::NotRun(why) && e@
                == PlatformErrorView::LifecycleFailed("systemctl show: "@ + why),
        },
        answer@ is Ended ==> r is Ok,
{
    let name = match service_of(file, config) {
        Some(n) => n,
        None => String::new(),
    };
    match answer {
        Outcome::NotRun(e) => {
            let mut m = "systemctl show: ".to_string();
            m.append(e.as_str());
            Err(PlatformError::LifecycleFailed(m))
        },
        Outcome::Ended { stdout, .. } => {
            let (active_state, sub_state, pid) = query_unit_status(stdout.as_str());
            Ok(ServiceStatus { name, active_state, sub_state, pid })
        },
    }
}

/// Shows the states of the units, sorted by name.
pub fn status(statuses: Vec<ServiceStatus>, as_json: bool) -> (r: String)
    ensures
        r@ == report(statuses.deep_view(), as_json),
{
    render_status(statuses, as_json)
}

/// The arguments that show a service's journal.
pub open spec fn journal_args(
    unit: Seq<char>,
    scope: Seq<Seq<char>>,
    follow: bool,
    lines: nat,
) -> Seq<Seq<char>> {
    scope + seq!["-u"@, unit, "--no-pager"@, "-n"@, decimal(lines)] + (if follow {
        seq!["-f"@]
    } else {
        seq![]
    })
}

/// The command that shows a service's journal.
pub fn logs(service: &str, follow: bool, lines: u32, config: &Config) -> (r: Invocation)
    ensures
        r@ == (InvocationView {
            program: "journalctl"@,
            args: journal_args(
                unit_name(config.namespace@, service@),
                scope_args(config.scope),
                follow,
                lines as nat,
            ),
        }),
{
    let mut args: Vec<String> = Vec::new();
    assert(args.deep_view() =~= Seq::<Seq<char>>::empty());
    put_scope(&mut args, config);
    let ghost head = args.deep_view();
    args.push("-u".to_string());
    args.push(config.unit_name(service));
    args.push("--no-pager".to_string());
    args.push("-n".to_string());
    args.push(decimal_of(lines as u64));
    assert(args.deep_view() =~= head + seq![
        "-u"@,
        unit_name(config.namespace@, service@),
        "--no-pager"@,
        "-n"@,
        decimal(lines as nat),
    ]);
    let ghost body = args.deep_view();
    if follow {
        args.push("-f".to_string());
        assert(args.deep_view() =~= body + seq!["-f"@]);
    }
    assert(args.deep_view() =~= journal_args(
        unit_name(config.namespace@, service@),
        scope_args(config.scope),
        follow,
        lines as nat,
    ));
    Invocation { program: "journalctl".to_string(), args }
}

/// Judges the command that shows a service's journal.
pub fn judge_logs(outcome: &Outcome) -> (r: Result<(), PlatformError>)
    ensures
        result_view(r) == tail_result("journalctl"@, outcome@),
{
    judge_tail("journalctl", outcome)
}

/// The survey finds each service again under its own name: the unit that is
/// written for a service is taken for that service's. The one exception is a
/// service whose unit could be taken for a ready gate.
pub proof fn law_survey_finds_the_service(namespace: Seq<char>, service: Seq<char>)
    requires
        !occurs("-ready.service"@, unit_name(namespace, service)),
    ensures
        is_service_file(unit_name(namespace, service), namespace),
        service_of_file(unit_name(namespace, service), namespace) == service,
{
    let file = unit_name(namespace, service);
    let prefix = namespace + "-"@;
    assert(file =~= prefix + (service + ".service"@));
    assert(prefix.is_prefix_of(file)) by {
        assert(file.subrange(0, prefix.len() as int) =~= prefix);
    }
    let rest = file.skip(prefix.len() as int);
    assert(rest =~= service + ".service"@);
    assert(".service"@.is_suffix_of(file)) by {
        assert(file.subrange(file.len() - ".service"@.len(), file.len() as int) =~= ".service"@);
    }
    assert(".service"@.is_suffix_of(rest)) by {
        assert(rest.subrange(rest.len() - ".service"@.len(), rest.len() as int) =~= ".service"@);
    }
    assert(rest.take(rest.len() - ".service"@.len()) =~= service);
}

/// Groves are apart: the survey of one namespace does not find the units
/// of another, as long as neither namespace, with its separator, begins the
/// other.
pub proof fn law_groves_are_apart(namespace: Seq<char>, other: Seq<char>, service: Seq<char>)
    requires
        !(namespace + "-"@).is_prefix_of(other + "-"@),
        !(other + "-"@).is_prefix_of(namespace + "-"@),
    ensures
        !is_service_file(unit_name(other, service), namespace),
{
    let file = unit_name(other, service);
    let theirs = other + "-"@;
    assert(theirs.is_prefix_of(file)) by {
        assert(file.subrange(0, theirs.len() as int) =~= theirs);
    }
    if (namespace + "-"@).is_prefix_of(file) {
        lemma_prefixes_nest(namespace + "-"@, theirs, file);
    }
}

} // verus!
