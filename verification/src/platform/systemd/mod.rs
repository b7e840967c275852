//! The systemd platform: unit files, linked into systemd's directory.

pub mod generate;
pub mod laws;
pub mod lifecycle;
pub mod unit;

use crate::config::{target_name, unit_name, Config, Scope};
use crate::exec::{ExecSet, ExecSetView};
use crate::orchard::{Artifact, ArtifactView};
use crate::paths::{join, under};
use crate::platform::systemd::generate::{
    after_units, awaited_unit, depended_upon, gate_name, gate_unit, generate_ready_gate,
    generate_service_unit, generate_target, has_gate, law_ready_gates, lemma_ready_among,
    ready_gate_name, ready_set, service_unit, services_with_ready_gates, target_unit,
};
use crate::platform::{
    get_or, indices_fit, misplaced, not_placed, result_view, value_or, Host, Invocation,
    InvocationView, Outcome, OutcomeView, Placement, PlacementView, PlatformError,
    PlatformErrorView, Removal, RemovalView,
};
use crate::text::chars::same_text;
use crate::text::scan::{lemma_prefixes_nest, starts_with};
use crate::types::{Service, ServiceView};
use vstd::prelude::*;

verus! {

/// The systemd platform.
#[derive(Debug)]
pub struct SystemdPlatform;

/// The artifact of a service's unit.
pub open spec fn unit_artifact(
    service: ServiceView,
    exec_set: ExecSetView,
    config: &Config,
    gates: Set<Seq<char>>,
) -> ArtifactView {
    let name = unit_name(config.namespace@, service.name);
    ArtifactView {
        kind: "unit"@,
        label: name,
        path: under(under(config.state_dir@, "units"@), name),
        content: service_unit(
            service,
            exec_set,
            config.namespace@,
            config.project_dir@,
            gates,
        ),
    }
}

/// The artifact of a service's ready gate.
pub open spec fn gate_artifact(service: ServiceView, config: &Config) -> ArtifactView {
    let name = gate_name(config.namespace@, service.name);
    ArtifactView {
        kind: "ready-gate"@,
        label: name,
        path: under(under(config.state_dir@, "units"@), name),
        content: gate_unit(service, service.healthcheck->0, config.namespace@),
    }
}

/// The artifact of the target.
pub open spec fn target_artifact(config: &Config) -> ArtifactView {
    let name = target_name(config.namespace@);
    ArtifactView {
        kind: "target"@,
        label: name,
        path: under(under(config.state_dir@, "units"@), name),
        content: target_unit(),
    }
}

/// The units of the services that have commands, in order.
pub open spec fn unit_artifacts(
    services: Seq<ServiceView>,
    exec_sets: Seq<(usize, ExecSetView)>,
    config: &Config,
    gates: Set<Seq<char>>,
) -> Seq<ArtifactView> {
    exec_sets.map_values(
        |e: (usize, ExecSetView)| unit_artifact(services[e.0 as int], e.1, config, gates),
    )
}

/// The ready gates, in the order of the services.
pub open spec fn gate_artifacts(
    services: Seq<ServiceView>,
    config: &Config,
    gates: Set<Seq<char>>,
) -> Seq<ArtifactView>
    decreases services.len(),
{
    if services.len() == 0 {
        Seq::empty()
    } else {
        let before = gate_artifacts(services.drop_last(), config, gates);
        if gates.contains(services.last().name) && services.last().healthcheck is Some {
            before.push(gate_artifact(services.last(), config))
        } else {
            before
        }
    }
}

/// Everything that is generated for systemd: units, then ready gates, then the
/// target.
pub open spec fn systemd_artifacts(
    services: Seq<ServiceView>,
    exec_sets: Seq<(usize, ExecSetView)>,
    config: &Config,
) -> Seq<ArtifactView> {
    unit_artifacts(services, exec_sets, config, ready_set(services)) + gate_artifacts(
        services,
        config,
        ready_set(services),
    ) + seq![target_artifact(config)]
}

/// The directory where systemd looks for units.
pub open spec fn units_home(scope: Scope, home: Option<Seq<char>>) -> Seq<char> {
    if scope == Scope::User {
        under(value_or(home, "/root"@), ".config/systemd/user"@)
    } else {
        "/etc/systemd/system"@
    }
}

/// Where each file of the units directory is linked to.
pub open spec fn links(names: Seq<Seq<char>>, units_dir: Seq<char>, home: Seq<char>) -> Seq<
    PlacementView,
> {
    names.map_values(
        |name: Seq<char>|
            PlacementView { from: under(units_dir, name), to: under(home, name) },
    )
}

/// The arguments that make systemctl act in a scope.
pub open spec fn scope_args(scope: Scope) -> Seq<Seq<char>> {
    if scope == Scope::User {
        seq!["--user"@]
    } else {
        seq![]
    }
}

/// A call of systemctl.
pub open spec fn systemctl_call(scope: Scope, args: Seq<Seq<char>>) -> InvocationView {
    InvocationView { program: "systemctl"@, args: scope_args(scope) + args }
}

/// Adds the argument that makes systemctl act in a scope.
pub fn put_scope(args: &mut Vec<String>, config: &Config)
    ensures
        final(args).deep_view() == old(args).deep_view() + scope_args(config.scope),
{
    let ghost before = args.deep_view();
    if config.scope.is_user() {
        args.push("--user".to_string());
        assert(args.deep_view() =~= before.push("--user"@));
    }
    assert(final(args).deep_view() =~= before + scope_args(config.scope));
}

/// Whether a file of the units directory is of the namespace: a unit or a ready
/// gate of one of its services, or its target.
pub open spec fn is_of_namespace(name: Seq<char>, namespace: Seq<char>) -> bool {
    (namespace + "-"@).is_prefix_of(name) || name == target_name(namespace)
}

/// What is undone for files of the units directory: of those of the namespace,
/// the link and the file itself.
pub open spec fn unlinked(
    names: Seq<Seq<char>>,
    namespace: Seq<char>,
    units_dir: Seq<char>,
    home: Seq<char>,
) -> Seq<RemovalView>
    decreases names.len(),
{
    if names.len() == 0 {
        Seq::empty()
    } else {
        let before = unlinked(names.drop_last(), namespace, units_dir, home);
        if is_of_namespace(names.last(), namespace) {
            before.push(RemovalView::File { path: under(home, names.last()) }).push(
                RemovalView::File { path: under(units_dir, names.last()) },
            )
        } else {
            before
        }
    }
}

/// What is undone to fell a grove: its links, its units, and systemd's knowledge
/// of them.
pub open spec fn removals(names: Seq<Seq<char>>, config: &Config, home: Option<Seq<char>>) -> Seq<
    RemovalView,
> {
    let units_dir = under(config.state_dir@, "units"@);
    unlinked(names, config.namespace@, units_dir, units_home(config.scope, home)) + seq![
        RemovalView::EmptyDirectory { path: units_dir },
        RemovalView::Call { call: systemctl_call(config.scope, seq!["daemon-reload"@]) },
    ]
}

fn check_of_namespace(name: &str, config: &Config) -> (r: bool)
    ensures
        r == is_of_namespace(name@, config.namespace@),
{
    let mut prefix = config.namespace.clone();
    prefix.append("-");
    starts_with(name, prefix.as_str()) || same_text(name, config.target_name().as_str())
}

/// What installing means for the outcome of reloading systemd.
pub open spec fn reload_result(outcome: OutcomeView) -> Result<(), PlatformErrorView> {
    match outcome {
        OutcomeView::NotRun(e) => Err(
            PlatformErrorView::InstallFailed("systemctl daemon-reload: "@ + e),
        ),
        OutcomeView::Ended { success, .. } => if success {
            Ok(())
        } else {
            Err(PlatformErrorView::InstallFailed("systemctl daemon-reload failed"@))
        },
    }
}

impl SystemdPlatform {
    /// The platform.
    pub fn new() -> (r: Self)
        ensures
            r == SystemdPlatform,
    {
        SystemdPlatform
    }

    /// The name of the platform.
    pub fn name(&self) -> (r: &str)
        ensures
            r@ == "systemd"@,
    {
        "systemd"
    }

    /// Checks that systemd runs, given whether its runtime directory exists.
    pub fn check(&self, running: bool) -> (r: Result<(), PlatformError>)
        ensures
            result_view(r) == (if running {
                Ok(())
            } else {
                Err(
                    PlatformErrorView::PrerequisiteMissing(
                        "systemd is not running (no /run/systemd/system)"@,
                    ),
                )
            }),
    {
        if running {
            Ok(())
        } else {
            Err(
                PlatformError::PrerequisiteMissing(
                    "systemd is not running (no /run/systemd/system)".to_string(),
                ),
            )
        }
    }

    /// The directory where systemd looks for units.
    pub fn systemd_dir(&self, config: &Config, host: &Host) -> (r: String)
        ensures
            r@ == units_home(config.scope, host.home.deep_view()),
    {
        if config.scope.is_user() {
            join(get_or(&host.home, "/root").as_str(), ".config/systemd/user")
        } else {
            "/etc/systemd/system".to_string()
        }
    }

    /// Where the files of the units directory are linked to.
    pub fn install(&self, names: &Vec<String>, config: &Config, host: &Host) -> (r: Vec<Placement>)
        ensures
            r.deep_view() == links(
                names.deep_view(),
                under(config.state_dir@, "units"@),
                units_home(config.scope, host.home.deep_view()),
            ),
    {
        let units_dir = config.units_dir();
        let home = self.systemd_dir(config, host);
        let ghost all = links(names.deep_view(), units_dir@, home@);
        let mut r: Vec<Placement> = Vec::new();
        let n: usize = names.len();
        assert(r.deep_view() =~= all.take(0));
        for i in 0..n
            invariant
                n == names@.len(),
                all == links(names.deep_view(), units_dir@, home@),
                r.deep_view() == all.take(i as int),
        {
            let ghost done = r.deep_view();
            let name = names[i].as_str();
            assert(names.deep_view()[i as int] == name@);
            r.push(
                Placement {
                    from: join(units_dir.as_str(), name),
                    to: join(home.as_str(), name),
                },
            );
            assert(r.deep_view() =~= done.push(all[i as int]));
            assert(r.deep_view() =~= all.take(i + 1));
        }
        assert(all.take(n as int) == all);
        r
    }

    /// Reports that a unit could not be linked.
    pub fn link_failed(&self, link: &Placement, reason: &str) -> (r: PlatformError)
        ensures
            r@ == misplaced("failed to symlink "@, link@, reason@),
    {
        not_placed("failed to symlink ", link, reason)
    }

    /// What is undone, given the files of the units directory. Only what is of
    /// the namespace is touched, so that other groves live on.
    pub fn clean(&self, names: &Vec<String>, config: &Config, host: &Host) -> (r: Vec<Removal>)
        ensures
            r.deep_view() == removals(names.deep_view(), config, host.home.deep_view()),
    {
        let units_dir = config.units_dir();
        let home = self.systemd_dir(config, host);
        let ghost all = names.deep_view();
        let ghost ns = config.namespace@;
        let mut r: Vec<Removal> = Vec::new();
        let n: usize = names.len();
        assert(r.deep_view() =~= unlinked(all.take(0), ns, units_dir@, home@));
        for i in 0..n
            invariant
                n == names@.len(),
                all == names.deep_view(),
                ns == config.namespace@,
                r.deep_view() == unlinked(all.take(i as int), ns, units_dir@, home@),
        {
            let ghost done = r.deep_view();
            let name = names[i].as_str();
            assert(all.take(i + 1).drop_last() == all.take(i as int));
            assert(all.take(i + 1).last() == name@);
            if check_of_namespace(name, config) {
                let ghost link = RemovalView::File { path: under(home@, name@) };
                let ghost unit = RemovalView::File { path: under(units_dir@, name@) };
                r.push(Removal::File { path: join(home.as_str(), name) });
                assert(r.deep_view() =~= done.push(link));
                r.push(Removal::File { path: join(units_dir.as_str(), name) });
                assert(r.deep_view() =~= done.push(link).push(unit));
            }
        }
        assert(all.take(n as int) == all);
        let ghost done = r.deep_view();
        let ghost dir = RemovalView::EmptyDirectory { path: units_dir@ };
        r.push(Removal::EmptyDirectory { path: units_dir });
        assert(r.deep_view() =~= done.push(dir));
        let call = self.reload(config);
        let ghost last = RemovalView::Call { call: call@ };
        r.push(Removal::Call { call });
        assert(r.deep_view() =~= done.push(dir).push(last));
        assert(r.deep_view() =~= done + seq![dir, last]);
        r
    }

    /// The command that makes systemd read its units again.
    pub fn reload(&self, config: &Config) -> (r: Invocation)
        ensures
            r@ == systemctl_call(config.scope, seq!["daemon-reload"@]),
    {
        let mut args: Vec<String> = Vec::new();
        assert(args.deep_view() =~= Seq::<Seq<char>>::empty());
        put_scope(&mut args, config);
        let ghost head = args.deep_view();
        args.push("daemon-reload".to_string());
        assert(args.deep_view() =~= head.push("daemon-reload"@));
        assert(args.deep_view() =~= scope_args(config.scope) + seq!["daemon-reload"@]);
        Invocation { program: "systemctl".to_string(), args }
    }

    /// Judges the command that makes systemd read its units again.
    pub fn judge_reload(&self, outcome: &Outcome) -> (r: Result<(), PlatformError>)
        ensures
            result_view(r) == reload_result(outcome@),
    {
        match outcome {
            Outcome::NotRun(e) => {
                let mut m = "systemctl daemon-reload: ".to_string();
                m.append(e.as_str());
                Err(PlatformError::InstallFailed(m))
            },
            Outcome::Ended { success, .. } => if *success {
                Ok(())
            } else {
                Err(PlatformError::InstallFailed("systemctl daemon-reload failed".to_string()))
            },
        }
    }

    /// Generates one service's unit by itself, without regard to ready gates.
    pub fn generate(&self, service: &Service, exec_set: &ExecSet, config: &Config) -> (r: Artifact)
        ensures
            r@ == unit_artifact(service@, exec_set@, config, Set::empty()),
    {
        let gates = crate::collections::StringSet::new();
        self.unit_of(service, exec_set, config, &gates)
    }

    /// Generates the target.
    pub fn generate_target(&self, config: &Config) -> (r: Artifact)
        ensures
            r@ == target_artifact(config),
    {
        let name = config.target_name();
        Artifact {
            kind: "target".to_string(),
            path: join(config.units_dir().as_str(), name.as_str()),
            label: name,
            content: generate_target(config),
        }
    }

    fn unit_of(
        &self,
        service: &Service,
        exec_set: &ExecSet,
        config: &Config,
        gates: &crate::collections::StringSet,
    ) -> (r: Artifact)
        ensures
            r@ == unit_artifact(service@, exec_set@, config, gates@),
    {
        let name = config.unit_name(service.name.as_str());
        Artifact {
            kind: "unit".to_string(),
            path: join(config.units_dir().as_str(), name.as_str()),
            label: name,
            content: generate_service_unit(service, exec_set, config, gates),
        }
    }

    fn gate_of(&self, service: &Service, config: &Config) -> (r: Artifact)
        requires
            service@.healthcheck is Some,
        ensures
            r@ == gate_artifact(service@, config),
    {
        let name = ready_gate_name(config, service.name.as_str());
        Artifact {
            kind: "ready-gate".to_string(),
            path: join(config.units_dir().as_str(), name.as_str()),
            label: name,
            content: generate_ready_gate(service, config),
        }
    }

    /// Generates all units, ready gates and the target.
    pub fn generate_all(
        &self,
        services: &Vec<Service>,
        exec_sets: &Vec<(usize, ExecSet)>,
        config: &Config,
    ) -> (r: Vec<Artifact>)
        requires
            indices_fit(exec_sets.deep_view(), services@.len()),
        ensures
            r.deep_view() == systemd_artifacts(
                services.deep_view(),
                exec_sets.deep_view(),
                config,
            ),
    {
        let gates = services_with_ready_gates(services);
        let ghost views = services.deep_view();
        let ghost sets = exec_sets.deep_view();
        let ghost units = unit_artifacts(views, sets, config, gates@);
        let mut out: Vec<Artifact> = Vec::new();
        let n: usize = exec_sets.len();
        assert(out.deep_view() =~= units.take(0));
        for i in 0..n
            invariant
                n == exec_sets@.len(),
                views == services.deep_view(),
                sets == exec_sets.deep_view(),
                indices_fit(sets, services@.len()),
                units == unit_artifacts(views, sets, config, gates@),
                out.deep_view() == units.take(i as int),
        {
            let ghost done = out.deep_view();
            assert(sets[i as int] == (exec_sets@[i as int].0, exec_sets@[i as int].1@));
            let at: usize = exec_sets[i].0;
            assert(views[at as int] == services@[at as int]@);
            out.push(self.unit_of(&services[at], &exec_sets[i].1, config, &gates));
            assert(out.deep_view() =~= done.push(units[i as int]));
            assert(out.deep_view() =~= units.take(i + 1));
        }
        assert(units.take(n as int) == units);
        let m: usize = services.len();
        assert(out.deep_view() =~= units + gate_artifacts(views.take(0), config, gates@));
        for i in 0..m
            invariant
                m == services@.len(),
                views == services.deep_view(),
                out.deep_view() == units + gate_artifacts(views.take(i as int), config, gates@),
        {
            let ghost done = out.deep_view();
            assert(views.take(i + 1).drop_last() == views.take(i as int));
            assert(views.take(i + 1).last() == services@[i as int]@);
            assert(views[i as int] == services@[i as int]@);
            if gates.contains(services[i].name.as_str()) && services[i].healthcheck.is_some() {
                let gate = self.gate_of(&services[i], config);
                let ghost g = gate@;
                out.push(gate);
                assert(out.deep_view() =~= done.push(g));
                assert(out.deep_view() =~= units + gate_artifacts(
                    views.take(i + 1),
                    config,
                    gates@,
                ));
            }
        }
        assert(views.take(m as int) == views);
        let ghost done = out.deep_view();
        out.push(self.generate_target(config));
        assert(out.deep_view() =~= done.push(target_artifact(config)));
        assert(out.deep_view() =~= systemd_artifacts(views, sets, config));
        out
    }
}

proof fn lemma_gate_rendered(
    services: Seq<ServiceView>,
    config: &Config,
    gates: Set<Seq<char>>,
    i: int,
)
    requires
        0 <= i < services.len(),
        gates.contains(services[i].name),
        services[i].healthcheck is Some,
    ensures
        gate_artifacts(services, config, gates).contains(gate_artifact(services[i], config)),
    decreases services.len(),
{
    let all = gate_artifacts(services, config, gates);
    let init = services.drop_last();
    let before = gate_artifacts(init, config, gates);
    if i == services.len() - 1 {
        assert(all[all.len() - 1] == gate_artifact(services[i], config));
    } else {
        assert(init[i] == services[i]);
        lemma_gate_rendered(init, config, gates, i);
        let k = choose|k: int|
            0 <= k < before.len() && before[k] == gate_artifact(services[i], config);
        assert(all[k] == gate_artifact(services[i], config));
    }
}

/// No unit waits for a ready gate that is not there: where a unit comes after
/// a ready gate of a dependency, that gate is among the artifacts.
pub proof fn law_awaited_gates_are_rendered(
    services: Seq<ServiceView>,
    exec_sets: Seq<(usize, ExecSetView)>,
    config: &Config,
    dep: Seq<char>,
)
    requires
        ready_set(services).contains(dep),
    ensures
        awaited_unit(config.namespace@, ready_set(services), dep) == gate_name(
            config.namespace@,
            dep,
        ),
        exists|k: int|
            0 <= k < systemd_artifacts(services, exec_sets, config).len()
                && #[trigger] systemd_artifacts(services, exec_sets, config)[k].label == gate_name(
                config.namespace@,
                dep,
            ),
{
    lemma_ready_among(services, services, dep);
    let i = choose|i: int|
        0 <= i < services.len() && (#[trigger] services[i]).name == dep && has_gate(
            services,
            services[i],
        );
    lemma_gate_rendered(services, config, ready_set(services), i);
    let gates = gate_artifacts(services, config, ready_set(services));
    let units = unit_artifacts(services, exec_sets, config, ready_set(services));
    let g = gate_artifact(services[i], config);
    let k = choose|k: int| 0 <= k < gates.len() && gates[k] == g;
    let all = systemd_artifacts(services, exec_sets, config);
    assert(all[units.len() + k] == g);
    assert(all[units.len() + k].label == gate_name(config.namespace@, dep));
}

/// A service that depends on one with a healthcheck waits for its health: its
/// unit comes after the ready gate of that service, which is among the
/// artifacts.
pub proof fn law_checked_dependencies_are_awaited(
    services: Seq<ServiceView>,
    exec_sets: Seq<(usize, ExecSetView)>,
    config: &Config,
    a: int,
    b: int,
)
    requires
        0 <= a < services.len(),
        0 <= b < services.len(),
        !services[a].disabled,
        !services[b].disabled,
        services[b].healthcheck is Some,
        services[a].depends_on(services[b].name),
    ensures
        after_units(config.namespace@, ready_set(services), services[a]).contains(
            gate_name(config.namespace@, services[b].name),
        ),
        exists|k: int|
            0 <= k < systemd_artifacts(services, exec_sets, config).len()
                && #[trigger] systemd_artifacts(services, exec_sets, config)[k].label == gate_name(
                config.namespace@,
                services[b].name,
            ),
{
    let ns = config.namespace@;
    let gates = ready_set(services);
    let dep = services[b].name;
    assert(depended_upon(services, dep));
    law_ready_gates(services, dep);
    assert(gates.contains(dep));
    law_awaited_gates_are_rendered(services, exec_sets, config, dep);
    let needed = services[a].requires;
    let names = needed + services[a].after;
    let units = after_units(ns, gates, services[a]);
    if needed.contains(dep) {
        let i = choose|i: int| 0 <= i < needed.len() && needed[i] == dep;
        assert(names[i] == dep);
        assert(units[i] == gate_name(ns, dep));
    } else {
        let i = choose|i: int| 0 <= i < services[a].after.len() && services[a].after[i] == dep;
        assert(names[needed.len() + i] == dep);
        assert(units[needed.len() + i] == gate_name(ns, dep));
    }
}

/// A dependency without a healthcheck is waited for by its own unit.
pub proof fn law_unchecked_dependencies_are_awaited_directly(
    services: Seq<ServiceView>,
    config: &Config,
    dep: Seq<char>,
)
    requires
        forall|i: int|
            0 <= i < services.len() && (#[trigger] services[i]).name == dep
                ==> services[i].healthcheck is None,
    ensures
        awaited_unit(config.namespace@, ready_set(services), dep) == unit_name(
            config.namespace@,
            dep,
        ),
{
    law_ready_gates(services, dep);
}

proof fn lemma_unlinked(
    names: Seq<Seq<char>>,
    namespace: Seq<char>,
    units_dir: Seq<char>,
    home: Seq<char>,
    path: Seq<char>,
)
    ensures
        unlinked(names, namespace, units_dir, home).contains(RemovalView::File { path })
            <==> exists|i: int|
            0 <= i < names.len() && is_of_namespace(#[trigger] names[i], namespace) && (path
                == under(home, names[i]) || path == under(units_dir, names[i])),
    decreases names.len(),
{
    let undone = unlinked(names, namespace, units_dir, home);
    let file = RemovalView::File { path };
    if names.len() > 0 {
        let init = names.drop_last();
        let before = unlinked(init, namespace, units_dir, home);
        lemma_unlinked(init, namespace, units_dir, home, path);
        if undone.contains(file) {
            let j = choose|j: int| 0 <= j < undone.len() && undone[j] == file;
            if j < before.len() {
                assert(before[j] == file);
                let i = choose|i: int|
                    0 <= i < init.len() && is_of_namespace(#[trigger] init[i], namespace) && (path
                        == under(home, init[i]) || path == under(units_dir, init[i]));
                assert(names[i] == init[i]);
            } else {
                assert(is_of_namespace(names[names.len() - 1], namespace));
            }
        }
        if exists|i: int|
            0 <= i < names.len() && is_of_namespace(#[trigger] names[i], namespace) && (path
                == under(home, names[i]) || path == under(units_dir, names[i])) {
            let i = choose|i: int|
                0 <= i < names.len() && is_of_namespace(#[trigger] names[i], namespace) && (path
                    == under(home, names[i]) || path == under(units_dir, names[i]));
            if i < init.len() {
                assert(init[i] == names[i]);
                let j = choose|j: int| 0 <= j < before.len() && before[j] == file;
                assert(undone[j] == file);
            } else {
                assert(undone[undone.len() - 2] == RemovalView::File {
                    path: under(home, names[i]),
                });
                assert(undone[undone.len() - 1] == RemovalView::File {
                    path: under(units_dir, names[i]),
                });
            }
        }
    }
}

/// Cleaning undoes installing, for one grove: of each of its units, the link and
/// the file itself are removed, and no other file is.
pub proof fn law_cleaning_undoes_installing(
    names: Seq<Seq<char>>,
    config: &Config,
    home: Option<Seq<char>>,
    path: Seq<char>,
)
    ensures
        ({
            let linked = links(
                names,
                under(config.state_dir@, "units"@),
                units_home(config.scope, home),
            );
            removals(names, config, home).contains(RemovalView::File { path }) <==> exists|i: int|
                0 <= i < names.len() && is_of_namespace(names[i], config.namespace@) && (path == (
                #[trigger] linked[i]).to || path == linked[i].from)
        }),
{
    let units_dir = under(config.state_dir@, "units"@);
    let dir = units_home(config.scope, home);
    let linked = links(names, units_dir, dir);
    let undone = unlinked(names, config.namespace@, units_dir, dir);
    let all = removals(names, config, home);
    let file = RemovalView::File { path };
    lemma_unlinked(names, config.namespace@, units_dir, dir, path);
    if all.contains(file) {
        let j = choose|j: int| 0 <= j < all.len() && all[j] == file;
        assert(j < undone.len());
        assert(undone[j] == file);
        let i = choose|i: int|
            0 <= i < names.len() && is_of_namespace(#[trigger] names[i], config.namespace@) && (path
                == under(dir, names[i]) || path == under(units_dir, names[i]));
        assert(linked[i].to == under(dir, names[i]) && linked[i].from == under(
            units_dir,
            names[i],
        ));
    }
    if exists|i: int|
        0 <= i < names.len() && is_of_namespace(names[i], config.namespace@) && (path == (
        #[trigger] linked[i]).to || path == linked[i].from) {
        let i = choose|i: int|
            0 <= i < names.len() && is_of_namespace(names[i], config.namespace@) && (path == (
            #[trigger] linked[i]).to || path == linked[i].from);
        assert(is_of_namespace(names[i], config.namespace@));
        let j = choose|j: int| 0 <= j < undone.len() && undone[j] == file;
        assert(all[j] == file);
    }
}

/// A grove owns all that is generated for it.
pub proof fn law_groves_own_their_units(namespace: Seq<char>, service: Seq<char>)
    ensures
        is_of_namespace(unit_name(namespace, service), namespace),
        is_of_namespace(gate_name(namespace, service), namespace),
        is_of_namespace(target_name(namespace), namespace),
{
    let prefix = namespace + "-"@;
    let unit = unit_name(namespace, service);
    let gate = gate_name(namespace, service);
    assert(unit.subrange(0, prefix.len() as int) =~= prefix);
    assert(gate.subrange(0, prefix.len() as int) =~= prefix);
}

/// Groves are felled apart: nothing that is generated for another namespace is
/// of this one, as long as neither namespace, with its separator, begins the
/// other.
pub proof fn law_groves_are_felled_apart(
    namespace: Seq<char>,
    other: Seq<char>,
    service: Seq<char>,
)
    requires
        !(namespace + "-"@).is_prefix_of(other + "-"@),
        !(other + "-"@).is_prefix_of(namespace + "-"@),
    ensures
        !is_of_namespace(unit_name(other, service), namespace),
        !is_of_namespace(gate_name(other, service), namespace),
        !is_of_namespace(target_name(other), namespace),
{
    reveal_strlit("-");
    reveal_strlit(".service");
    reveal_strlit("-ready.service");
    reveal_strlit(".target");
    let mine = namespace + "-"@;
    let theirs = other + "-"@;
    let unit = unit_name(other, service);
    let gate = gate_name(other, service);
    let target = target_name(other);
    let own = target_name(namespace);
    assert(unit.subrange(0, theirs.len() as int) =~= theirs);
    assert(gate.subrange(0, theirs.len() as int) =~= theirs);
    assert(unit.last() == 'e' && gate.last() == 'e' && own.last() == 't');
    if mine.is_prefix_of(unit) {
        lemma_prefixes_nest(mine, theirs, unit);
    }
    if mine.is_prefix_of(gate) {
        lemma_prefixes_nest(mine, theirs, gate);
    }
    if target == own {
        assert(other =~= target.take(other.len() as int));
        assert(namespace =~= target.take(namespace.len() as int));
        assert(mine.is_prefix_of(mine));
    }
    if mine.is_prefix_of(target) {
        assert(target.subrange(0, mine.len() as int) == mine);
        if namespace.len() < other.len() {
            assert(theirs.subrange(0, mine.len() as int) =~= mine) by {
                assert forall|i: int| 0 <= i < mine.len() implies theirs[i] == mine[i] by {
                    assert(target.subrange(0, mine.len() as int)[i] == target[i]);
                }
            }
        } else {
            let at = namespace.len() as int;
            assert(target.subrange(0, mine.len() as int)[at] == target[at]);
            assert(mine[at] == '-' && target[at] == ".target"@[at - other.len()]);
        }
    }
}

} // verus!
