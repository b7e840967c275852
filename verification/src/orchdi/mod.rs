//! What a supervised service waits for, and how it is run and stopped.

pub mod laws;
pub mod supervise;

use crate::collections::clone_optional;
use crate::config::Config;
use crate::exec::{ExecSet, ExecSetView};
use crate::paths::{join, under};
use crate::text::chars::same_text;
use crate::text::number::{
    decimal, is_digit, lemma_decimal_round_trip, parse_u32, parse_unsigned,
};
use crate::text::scan::{starts_with, strip_suffix, trim, trimmed, without_suffix};
use crate::types::{Service, ServiceView};
use vstd::prelude::*;

verus! {

/// A dependency of a supervised service: a command to poll, for how long, and
/// whether the service may start without it.
#[derive(Debug)]
pub struct DepSpec {
    pub poll_cmd: String,
    pub timeout_secs: u32,
    pub required: bool,
}

/// A readiness gate: `poll_cmd` is polled until it succeeds or the time is up.
/// A required gate that fails aborts the start; another only delays it.
#[derive(Debug)]
pub struct DepGate {
    pub poll_cmd: String,
    pub timeout_secs: u32,
    pub required: bool,
}

#[verifier::ext_equal]
pub struct GateView {
    pub poll_cmd: Seq<char>,
    pub timeout_secs: nat,
    pub required: bool,
}

impl View for DepSpec {
    type V = GateView;

    open spec fn view(&self) -> GateView {
        GateView {
            poll_cmd: self.poll_cmd@,
            timeout_secs: self.timeout_secs as nat,
            required: self.required,
        }
    }
}

impl DeepView for DepSpec {
    type V = GateView;

    open spec fn deep_view(&self) -> GateView {
        self@
    }
}

impl View for DepGate {
    type V = GateView;

    open spec fn view(&self) -> GateView {
        GateView {
            poll_cmd: self.poll_cmd@,
            timeout_secs: self.timeout_secs as nat,
            required: self.required,
        }
    }
}

impl DeepView for DepGate {
    type V = GateView;

    open spec fn deep_view(&self) -> GateView {
        self@
    }
}

/// Everything the supervisor of one service needs to know.
#[derive(Debug)]
pub struct SuperviseSpec {
    pub label: String,
    pub pre_start: Option<String>,
    pub start: String,
    pub stop: Option<String>,
    pub post_stop: Option<String>,
    pub deps: Vec<DepSpec>,
    /// The file that says that a oneshot service has succeeded.
    pub ready_marker: Option<String>,
    pub stop_timeout_secs: u32,
}

#[verifier::ext_equal]
pub struct SuperviseSpecView {
    pub label: Seq<char>,
    pub pre_start: Option<Seq<char>>,
    pub start: Seq<char>,
    pub stop: Option<Seq<char>>,
    pub post_stop: Option<Seq<char>>,
    pub deps: Seq<GateView>,
    pub ready_marker: Option<Seq<char>>,
    pub stop_timeout_secs: nat,
}

impl View for SuperviseSpec {
    type V = SuperviseSpecView;

    open spec fn view(&self) -> SuperviseSpecView {
        SuperviseSpecView {
            label: self.label@,
            pre_start: self.pre_start.deep_view(),
            start: self.start@,
            stop: self.stop.deep_view(),
            post_stop: self.post_stop.deep_view(),
            deps: self.deps.deep_view(),
            ready_marker: self.ready_marker.deep_view(),
            stop_timeout_secs: self.stop_timeout_secs as nat,
        }
    }
}

impl DeepView for SuperviseSpec {
    type V = SuperviseSpecView;

    open spec fn deep_view(&self) -> SuperviseSpecView {
        self@
    }
}

/// The command that checks a service's health: a URL is fetched, anything else
/// is a command already.
pub open spec fn health_command(hc: Seq<char>) -> Seq<char> {
    if "http://"@.is_prefix_of(hc) || "https://"@.is_prefix_of(hc) {
        "curl -sf '"@ + hc + "'"@
    } else {
        hc
    }
}

/// Turns a healthcheck into a command.
pub fn healthcheck_to_cmd(hc: &str) -> (r: String)
    ensures
        r@ == health_command(hc@),
{
    if starts_with(hc, "http://") || starts_with(hc, "https://") {
        let mut r = "curl -sf '".to_string();
        r.append(hc);
        r.append("'");
        r
    } else {
        hc.to_string()
    }
}

/// The label of a service.
pub open spec fn label_of(namespace: Seq<char>, service: Seq<char>) -> Seq<char> {
    namespace + "."@ + service
}

/// The label of a service.
pub fn service_label(config: &Config, service_name: &str) -> (r: String)
    ensures
        r@ == label_of(config.namespace@, service_name@),
{
    let mut r = config.namespace.clone();
    r.append(".");
    r.append(service_name);
    r
}

/// Where the supervisor spec of a label is kept.
pub open spec fn spec_path(state_dir: Seq<char>, label: Seq<char>) -> Seq<char> {
    under(under(state_dir, "supervise"@), label + ".json"@)
}

/// Where the supervisor spec of a label is kept.
pub fn supervise_spec_path(config: &Config, label: &str) -> (r: String)
    ensures
        r@ == spec_path(config.state_dir@, label@),
{
    let dir = join(config.state_dir.as_str(), "supervise");
    let mut file = label.to_string();
    file.append(".json");
    join(dir.as_str(), file.as_str())
}

/// The marker that a oneshot service leaves once it has succeeded.
pub open spec fn marker_path(
    state_dir: Seq<char>,
    namespace: Seq<char>,
    service: Seq<char>,
) -> Seq<char> {
    under(under(state_dir, "ready"@), label_of(namespace, service) + ".ready"@)
}

/// The marker that a oneshot service leaves once it has succeeded.
pub fn ready_marker_path(config: &Config, service_name: &str) -> (r: String)
    ensures
        r@ == marker_path(config.state_dir@, config.namespace@, service_name@),
{
    let dir = join(config.state_dir.as_str(), "ready");
    let mut file = service_label(config, service_name);
    file.append(".ready");
    join(dir.as_str(), file.as_str())
}

/// The seconds that a duration denotes: `5s`, `2m`, or a bare number of
/// seconds.
pub open spec fn duration(s: Seq<char>) -> Option<nat> {
    let t = trimmed(s);
    match without_suffix(t, "s"@) {
        Some(n) => parse_unsigned(n, u32::MAX as nat),
        None => match without_suffix(t, "m"@) {
            Some(n) => match parse_unsigned(n, u32::MAX as nat) {
                Some(v) => Some(v * 60),
                None => None,
            },
            None => parse_unsigned(t, u32::MAX as nat),
        },
    }
}

/// Whether a duration, if it is one, can be counted in 32 bits of seconds.
pub open spec fn duration_fits(s: Seq<char>) -> bool {
    duration(s) matches Some(n) ==> n <= u32::MAX
}

/// The seconds of an optional duration.
pub open spec fn optional_duration(s: Option<Seq<char>>) -> Option<nat> {
    match s {
        Some(t) => duration(t),
        None => None,
    }
}

/// Whether an optional duration can be counted.
pub open spec fn optional_fits(s: Option<Seq<char>>) -> bool {
    s matches Some(t) ==> duration_fits(t)
}

/// Reads a duration in seconds.
pub fn parse_duration_secs(s: &str) -> (r: Option<u32>)
    requires
        duration_fits(s@),
    ensures
        match r {
            Some(n) => duration(s@) == Some(n as nat),
            None => duration(s@) is None,
        },
{
    let t = trim(s);
    if let Some(n) = strip_suffix(t.as_str(), "s") {
        return parse_u32(n.as_str());
    }
    if let Some(n) = strip_suffix(t.as_str(), "m") {
        return match parse_u32(n.as_str()) {
            Some(v) => Some(v * 60),
            None => None,
        };
    }
    parse_u32(t.as_str())
}

/// Reads an optional duration in seconds.
pub fn parse_optional_duration(s: &Option<String>) -> (r: Option<u32>)
    requires
        optional_fits(s.deep_view()),
    ensures
        match r {
            Some(n) => optional_duration(s.deep_view()) == Some(n as nat),
            None => optional_duration(s.deep_view()) is None,
        },
{
    match s {
        Some(t) => parse_duration_secs(t.as_str()),
        None => None,
    }
}

/// Tells whether an optional duration can be counted.
pub fn check_duration(s: &Option<String>) -> (r: bool)
    ensures
        r == optional_fits(s.deep_view()),
{
    if let Some(s) = s {
        let t = trim(s.as_str());
        if let Some(_) = strip_suffix(t.as_str(), "s") {
            return true;
        }
        if let Some(n) = strip_suffix(t.as_str(), "m") {
            return match parse_u32(n.as_str()) {
                Some(v) => v <= u32::MAX / 60,
                None => true,
            };
        }
    }
    true
}

/// How long a service is given to stop: its own timeout, else 30 seconds where
/// something has to be torn down, else 10.
pub open spec fn stop_timeout(service: ServiceView, exec_set: ExecSetView) -> nat {
    match optional_duration(service.timeouts.stop) {
        Some(n) => n,
        None => if exec_set.stop is Some || exec_set.post_stop is Some {
            30
        } else {
            10
        },
    }
}

/// The supervisor spec of a service.
pub open spec fn supervise_spec_of(
    service: ServiceView,
    exec_set: ExecSetView,
    state_dir: Seq<char>,
    namespace: Seq<char>,
    deps: Seq<GateView>,
) -> SuperviseSpecView {
    SuperviseSpecView {
        label: label_of(namespace, service.name),
        pre_start: exec_set.pre_start,
        start: exec_set.start,
        stop: exec_set.stop,
        post_stop: exec_set.post_stop,
        deps,
        ready_marker: if service.oneshot {
            Some(marker_path(state_dir, namespace, service.name))
        } else {
            None
        },
        stop_timeout_secs: stop_timeout(service, exec_set),
    }
}

/// Builds the supervisor spec of a service.
pub fn build_supervise_spec(
    service: &Service,
    exec_set: &ExecSet,
    config: &Config,
    deps: &Vec<DepGate>,
) -> (r: SuperviseSpec)
    requires
        optional_fits(service@.timeouts.stop),
    ensures
        r@ == supervise_spec_of(
            service@,
            exec_set@,
            config.state_dir@,
            config.namespace@,
            deps.deep_view(),
        ),
{
    let stop_timeout_secs: u32 = match parse_optional_duration(&service.timeouts.stop) {
        Some(n) => n,
        None => if exec_set.stop.is_some() || exec_set.post_stop.is_some() {
            30
        } else {
            10
        },
    };
    let ready_marker = if service.oneshot {
        Some(ready_marker_path(config, service.name.as_str()))
    } else {
        None
    };
    let mut specs: Vec<DepSpec> = Vec::new();
    let n: usize = deps.len();
    for i in 0..n
        invariant
            n == deps@.len(),
            specs.deep_view() == deps.deep_view().take(i as int),
    {
        let ghost done = specs.deep_view();
        specs.push(
            DepSpec {
                poll_cmd: deps[i].poll_cmd.clone(),
                timeout_secs: deps[i].timeout_secs,
                required: deps[i].required,
            },
        );
        assert(specs.deep_view() =~= done.push(deps.deep_view()[i as int]));
        assert(specs.deep_view() =~= deps.deep_view().take(i + 1));
    }
    SuperviseSpec {
        label: service_label(config, service.name.as_str()),
        pre_start: clone_optional(&exec_set.pre_start),
        start: exec_set.start.clone(),
        stop: clone_optional(&exec_set.stop),
        post_stop: clone_optional(&exec_set.post_stop),
        deps: specs,
        ready_marker,
        stop_timeout_secs,
    }
}

/// The first enabled service of a name.
pub open spec fn find_enabled(all: Seq<ServiceView>, name: Seq<char>) -> Option<ServiceView>
    decreases all.len(),
{
    if all.len() == 0 {
        None
    } else if all[0].name == name && !all[0].disabled {
        Some(all[0])
    } else {
        find_enabled(all.skip(1), name)
    }
}

/// What must succeed before a service that depends on `dep` may start: the
/// marker of a required oneshot, and the healthcheck where there is one.
pub open spec fn poll_command(
    state_dir: Seq<char>,
    namespace: Seq<char>,
    dep: ServiceView,
    required: bool,
) -> Option<Seq<char>> {
    let marker = "test -f "@ + marker_path(state_dir, namespace, dep.name);
    let marked = required && dep.oneshot;
    match dep.healthcheck {
        Some(hc) => if marked {
            Some(marker + " && "@ + health_command(hc))
        } else {
            Some(health_command(hc))
        },
        None => if marked {
            Some(marker)
        } else {
            None
        },
    }
}

/// Whether a dependency makes a gate: it can tell whether it is ready.
pub open spec fn makes_gate(dep: ServiceView, required: bool) -> bool {
    dep.healthcheck is Some || required && dep.oneshot
}

/// Whether the time that a named dependency has to become ready can be counted,
/// if it is read.
pub open spec fn dep_fits(all: Seq<ServiceView>, name: Seq<char>, required: bool) -> bool {
    match find_enabled(all, name) {
        Some(dep) => makes_gate(dep, required) ==> optional_fits(dep.readiness_timeout),
        None => true,
    }
}

/// Whether the times of a list of dependencies can be counted.
pub open spec fn names_fit(all: Seq<ServiceView>, names: Seq<Seq<char>>, required: bool) -> bool {
    forall|i: int| 0 <= i < names.len() ==> dep_fits(all, #[trigger] names[i], required)
}

/// Whether the durations that the gates of a service are made of can be counted.
pub open spec fn gates_fit(service: ServiceView, all: Seq<ServiceView>) -> bool {
    names_fit(all, service.requires, true) && names_fit(all, service.after, false)
}

/// Whether the durations that the supervisor spec of a service is made of can be
/// counted.
pub open spec fn spec_fits(service: ServiceView, all: Seq<ServiceView>) -> bool {
    optional_fits(service.timeouts.stop) && gates_fit(service, all)
}

/// The seconds that a dependency has to become ready: its own, or 90.
pub open spec fn ready_timeout(dep: ServiceView) -> nat {
    match optional_duration(dep.readiness_timeout) {
        Some(n) => n,
        None => 90,
    }
}

/// The readiness gate that a named dependency makes, if any.
pub open spec fn gate_of(
    state_dir: Seq<char>,
    namespace: Seq<char>,
    all: Seq<ServiceView>,
    name: Seq<char>,
    required: bool,
) -> Option<GateView> {
    match find_enabled(all, name) {
        Some(dep) => match poll_command(state_dir, namespace, dep, required) {
            Some(poll_cmd) => Some(
                GateView { poll_cmd, timeout_secs: ready_timeout(dep), required },
            ),
            None => None,
        },
        None => None,
    }
}

/// The gates that a list of dependencies makes, in order.
pub open spec fn gates_of(
    state_dir: Seq<char>,
    namespace: Seq<char>,
    all: Seq<ServiceView>,
    names: Seq<Seq<char>>,
    required: bool,
) -> Seq<GateView>
    decreases names.len(),
{
    if names.len() == 0 {
        Seq::empty()
    } else {
        let before = gates_of(state_dir, namespace, all, names.drop_last(), required);
        match gate_of(state_dir, namespace, all, names.last(), required) {
            Some(gate) => before.push(gate),
            None => before,
        }
    }
}

/// All gates of a service: those it requires, then those it only comes after.
pub open spec fn dep_gates(
    state_dir: Seq<char>,
    namespace: Seq<char>,
    service: ServiceView,
    all: Seq<ServiceView>,
) -> Seq<GateView> {
    gates_of(state_dir, namespace, all, service.requires, true) + gates_of(
        state_dir,
        namespace,
        all,
        service.after,
        false,
    )
}

/// Finds the first enabled service of a name.
fn lookup<'a>(all: &'a Vec<Service>, name: &str) -> (r: Option<&'a Service>)
    ensures
        match r {
            Some(s) => find_enabled(all.deep_view(), name@) == Some(s@) && exists|i: int|
                0 <= i < all@.len() && #[trigger] all.deep_view()[i] == s@,
            None => find_enabled(all.deep_view(), name@) is None,
        },
{
    let n: usize = all.len();
    let ghost views = all.deep_view();
    assert(views.skip(0) == views);
    for i in 0..n
        invariant
            n == all@.len(),
            views == all.deep_view(),
            find_enabled(views, name@) == find_enabled(views.skip(i as int), name@),
    {
        assert(views.skip(i as int)[0] == all@[i as int]@);
        assert(views.skip(i as int).skip(1) == views.skip(i + 1));
        if same_text(all[i].name.as_str(), name) && !all[i].disabled {
            assert(views[i as int] == all@[i as int]@);
            return Some(&all[i]);
        }
    }
    assert(views.skip(n as int).len() == 0);
    None
}

/// Makes the readiness gate of one dependency.
fn gate_for(config: &Config, dep: &Service, required: bool) -> (r: Option<DepGate>)
    requires
        makes_gate(dep@, required) ==> optional_fits(dep@.readiness_timeout),
    ensures
        match r {
            Some(g) => poll_command(config.state_dir@, config.namespace@, dep@, required) == Some(
                g@.poll_cmd,
            ) && g@.timeout_secs == ready_timeout(dep@) && g@.required == required,
            None => poll_command(config.state_dir@, config.namespace@, dep@, required) is None,
        },
{
    let marked = required && dep.oneshot;
    let poll_cmd = if marked {
        let mut c = "test -f ".to_string();
        c.append(ready_marker_path(config, dep.name.as_str()).as_str());
        if let Some(hc) = &dep.healthcheck {
            c.append(" && ");
            c.append(healthcheck_to_cmd(hc.as_str()).as_str());
        }
        c
    } else {
        match &dep.healthcheck {
            Some(hc) => healthcheck_to_cmd(hc.as_str()),
            None => {
                return None;
            },
        }
    };
    let timeout_secs: u32 = match parse_optional_duration(&dep.readiness_timeout) {
        Some(n) => n,
        None => 90,
    };
    Some(DepGate { poll_cmd, timeout_secs, required })
}

/// Adds the gates of a list of dependencies.
fn push_gates(
    gates: &mut Vec<DepGate>,
    config: &Config,
    all: &Vec<Service>,
    names: &Vec<String>,
    required: bool,
)
    requires
        names_fit(all.deep_view(), names.deep_view(), required),
    ensures
        final(gates).deep_view() == old(gates).deep_view() + gates_of(
            config.state_dir@,
            config.namespace@,
            all.deep_view(),
            names.deep_view(),
            required,
        ),
{
    let n: usize = names.len();
    let ghost before = gates.deep_view();
    let ghost views = all.deep_view();
    let ghost list = names.deep_view();
    let ghost dir = config.state_dir@;
    let ghost ns = config.namespace@;
    assert(gates.deep_view() =~= before + gates_of(dir, ns, views, list.take(0), required));
    for i in 0..n
        invariant
            n == names@.len(),
            views == all.deep_view(),
            list == names.deep_view(),
            dir == config.state_dir@,
            ns == config.namespace@,
            names_fit(views, list, required),
            gates.deep_view() == before + gates_of(dir, ns, views, list.take(i as int), required),
    {
        let ghost done = gates.deep_view();
        assert(list.take(i + 1).drop_last() == list.take(i as int));
        assert(list.take(i + 1).last() == names@[i as int]@);
        assert(dep_fits(views, list[i as int], required));
        if let Some(dep) = lookup(all, names[i].as_str()) {
            if let Some(gate) = gate_for(config, dep, required) {
                let ghost g = gate@;
                gates.push(gate);
                assert(gates.deep_view() =~= done.push(g));
                assert(gate_of(dir, ns, views, list[i as int], required) == Some(g));
                assert(gates.deep_view() =~= before + gates_of(
                    dir,
                    ns,
                    views,
                    list.take(i + 1),
                    required,
                ));
            }
        }
    }
    assert(list.take(n as int) == list);
}

/// Builds the gates of a service.
pub fn build_dep_gates(config: &Config, service: &Service, all: &Vec<Service>) -> (r: Vec<DepGate>)
    requires
        gates_fit(service@, all.deep_view()),
    ensures
        r.deep_view() == dep_gates(config.state_dir@, config.namespace@, service@, all.deep_view()),
{
    let mut gates: Vec<DepGate> = Vec::new();
    push_gates(&mut gates, config, all, &service.requires, true);
    push_gates(&mut gates, config, all, &service.after, false);
    assert(gates.deep_view() =~= dep_gates(
        config.state_dir@,
        config.namespace@,
        service@,
        all.deep_view(),
    ));
    gates
}

fn check_names(all: &Vec<Service>, names: &Vec<String>, required: bool) -> (r: bool)
    ensures
        r == names_fit(all.deep_view(), names.deep_view(), required),
{
    let n: usize = names.len();
    let ghost views = all.deep_view();
    let ghost list = names.deep_view();
    for i in 0..n
        invariant
            n == names@.len(),
            views == all.deep_view(),
            list == names.deep_view(),
            forall|j: int| 0 <= j < i ==> dep_fits(views, #[trigger] list[j], required),
    {
        assert(list[i as int] == names@[i as int]@);
        if let Some(dep) = lookup(all, names[i].as_str()) {
            let gated = dep.healthcheck.is_some() || (required && dep.oneshot);
            if gated && !check_duration(&dep.readiness_timeout) {
                assert(!dep_fits(views, list[i as int], required));
                return false;
            }
        }
    }
    true
}

/// Tells whether the durations that the supervisor spec of a service is made of
/// can be counted.
pub fn check_spec(service: &Service, all: &Vec<Service>) -> (r: bool)
    ensures
        r == spec_fits(service@, all.deep_view()),
{
    check_duration(&service.timeouts.stop) && check_names(all, &service.requires, true)
        && check_names(all, &service.after, false)
}

/// What is found under a name is an enabled service of that name.
pub proof fn law_found_is_enabled(all: Seq<ServiceView>, name: Seq<char>)
    ensures
        find_enabled(all, name) matches Some(s) ==> s.name == name && !s.disabled
            && all.contains(s),
        find_enabled(all, name) is None ==> forall|i: int|
            0 <= i < all.len() && (#[trigger] all[i]).name == name ==> all[i].disabled,
    decreases all.len(),
{
    if all.len() > 0 {
        let rest = all.skip(1);
        law_found_is_enabled(rest, name);
        assert(all.contains(all[0]));
        if all[0].name == name && !all[0].disabled {
        } else {
            if find_enabled(rest, name) is Some {
                let s = find_enabled(rest, name)->0;
                let i = choose|i: int| 0 <= i < rest.len() && rest[i] == s;
                assert(all[i + 1] == s);
            } else {
                assert forall|i: int|
                    0 <= i < all.len() && (#[trigger] all[i]).name == name implies all[i].disabled by {
                    if i > 0 {
                        assert(rest[i - 1] == all[i]);
                    }
                }
            }
        }
    }
}

/// Every gate stands for a dependency of the service that is enabled, and is
/// required only if the service requires that dependency.
pub proof fn law_gates_stand_for_dependencies(
    state_dir: Seq<char>,
    namespace: Seq<char>,
    service: ServiceView,
    all: Seq<ServiceView>,
    i: int,
)
    requires
        0 <= i < dep_gates(state_dir, namespace, service, all).len(),
    ensures
        ({
            let gate = dep_gates(state_dir, namespace, service, all)[i];
            exists|name: Seq<char>|
                #![trigger find_enabled(all, name)]
                (if gate.required {
                    service.requires.contains(name)
                } else {
                    service.after.contains(name)
                }) && find_enabled(all, name) is Some && gate_of(
                    state_dir,
                    namespace,
                    all,
                    name,
                    gate.required,
                ) == Some(gate)
        }),
{
    let hard = gates_of(state_dir, namespace, all, service.requires, true);
    if i < hard.len() {
        lemma_gate_origin(state_dir, namespace, all, service.requires, true, i);
    } else {
        lemma_gate_origin(state_dir, namespace, all, service.after, false, i - hard.len());
    }
}

proof fn lemma_gate_origin(
    state_dir: Seq<char>,
    namespace: Seq<char>,
    all: Seq<ServiceView>,
    names: Seq<Seq<char>>,
    required: bool,
    i: int,
)
    requires
        0 <= i < gates_of(state_dir, namespace, all, names, required).len(),
    ensures
        gates_of(state_dir, namespace, all, names, required)[i].required == required,
        exists|name: Seq<char>|
            #![trigger find_enabled(all, name)]
            names.contains(name) && find_enabled(all, name) is Some && gate_of(
                state_dir,
                namespace,
                all,
                name,
                required,
            ) == Some(gates_of(state_dir, namespace, all, names, required)[i]),
    decreases names.len(),
{
    if names.len() > 0 {
        let init = names.drop_last();
        let before = gates_of(state_dir, namespace, all, init, required);
        if i < before.len() {
            lemma_gate_origin(state_dir, namespace, all, init, required, i);
            let name = choose|name: Seq<char>|
                #![trigger find_enabled(all, name)]
                init.contains(name) && find_enabled(all, name) is Some && gate_of(
                    state_dir,
                    namespace,
                    all,
                    name,
                    required,
                ) == Some(before[i]);
            let k = choose|k: int| 0 <= k < init.len() && init[k] == name;
            assert(names[k] == name);
            assert(find_enabled(all, name) is Some);
        } else {
            let name = names.last();
            assert(names[names.len() - 1] == name);
            assert(find_enabled(all, name) is Some);
        }
    }
}

proof fn lemma_gate_present(
    state_dir: Seq<char>,
    namespace: Seq<char>,
    all: Seq<ServiceView>,
    names: Seq<Seq<char>>,
    required: bool,
    name: Seq<char>,
)
    requires
        names.contains(name),
        gate_of(state_dir, namespace, all, name, required) is Some,
    ensures
        gates_of(state_dir, namespace, all, names, required).contains(
            gate_of(state_dir, namespace, all, name, required)->0,
        ),
    decreases names.len(),
{
    let init = names.drop_last();
    let gate = gate_of(state_dir, namespace, all, name, required)->0;
    let before = gates_of(state_dir, namespace, all, init, required);
    let gates = gates_of(state_dir, namespace, all, names, required);
    let k = choose|k: int| 0 <= k < names.len() && names[k] == name;
    if k < init.len() {
        assert(init[k] == name);
        lemma_gate_present(state_dir, namespace, all, init, required, name);
        let i = choose|i: int| 0 <= i < before.len() && before[i] == gate;
        assert(gates[i] == gate);
    } else {
        assert(gates[gates.len() - 1] == gate);
    }
}

/// Every enabled dependency that can tell whether it is ready makes a gate: one
/// that a service requires a required gate, one that it only comes after
/// another.
pub proof fn law_dependencies_have_gates(
    state_dir: Seq<char>,
    namespace: Seq<char>,
    service: ServiceView,
    all: Seq<ServiceView>,
    name: Seq<char>,
    required: bool,
)
    requires
        if required {
            service.requires.contains(name)
        } else {
            service.after.contains(name)
        },
        find_enabled(all, name) matches Some(dep) && poll_command(
            state_dir,
            namespace,
            dep,
            required,
        ) is Some,
    ensures
        ({
            let dep = find_enabled(all, name)->0;
            dep_gates(state_dir, namespace, service, all).contains(
                GateView {
                    poll_cmd: poll_command(state_dir, namespace, dep, required)->0,
                    timeout_secs: ready_timeout(dep),
                    required,
                },
            )
        }),
{
    let gate = gate_of(state_dir, namespace, all, name, required)->0;
    let hard = gates_of(state_dir, namespace, all, service.requires, true);
    let soft = gates_of(state_dir, namespace, all, service.after, false);
    let gates = dep_gates(state_dir, namespace, service, all);
    if required {
        lemma_gate_present(state_dir, namespace, all, service.requires, true, name);
        let i = choose|i: int| 0 <= i < hard.len() && hard[i] == gate;
        assert(gates[i] == gate);
    } else {
        lemma_gate_present(state_dir, namespace, all, service.after, false, name);
        let i = choose|i: int| 0 <= i < soft.len() && soft[i] == gate;
        assert(gates[hard.len() + i] == gate);
    }
}

/// A number of seconds or minutes that is written out denotes itself.
pub proof fn law_duration_round_trip(n: nat)
    requires
        n <= u32::MAX,
    ensures
        duration(decimal(n)) == Some(n),
        duration(decimal(n) + "s"@) == Some(n),
        duration(decimal(n) + "m"@) == Some(n * 60),
{
    reveal_strlit("s");
    reveal_strlit("m");
    let d = decimal(n);
    lemma_decimal_round_trip(n, u32::MAX as nat);
    assert(is_digit(d[0]));
    assert(is_digit(d[d.len() - 1]));
    assert(trimmed(d) == d);
    let s = d + "s"@;
    let m = d + "m"@;
    assert(s.last() == 's' && m.last() == 'm');
    assert(s[0] == d[0] && m[0] == d[0]);
    assert(trimmed(s) == s);
    assert(trimmed(m) == m);
    assert("s"@.is_suffix_of(s));
    assert("m"@.is_suffix_of(m));
    assert(s.take(s.len() - 1) =~= d);
    assert(m.take(m.len() - 1) =~= d);
    assert(!"s"@.is_suffix_of(m)) by {
        assert("s"@[0] == 's');
    }
    assert(!"s"@.is_suffix_of(d)) by {
        assert("s"@[0] == 's');
    }
    assert(!"m"@.is_suffix_of(d)) by {
        assert("m"@[0] == 'm');
    }
}

} // verus!
