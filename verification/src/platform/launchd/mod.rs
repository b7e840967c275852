//! The launchd platform: property lists, copied to launchd's directory.

pub mod environment;
pub mod generate;
pub mod laws;
pub mod lifecycle;
pub mod plist;

use crate::collections::list_has;
use crate::config::{Config, Scope};
use crate::exec::{ExecSet, ExecSetView};
use crate::orchard::{Artifact, ArtifactView};
use crate::orchdi::{
    build_dep_gates, build_supervise_spec, check_duration, check_spec, dep_gates, gates_fit,
    label_of, optional_fits, service_label, spec_fits, spec_path, supervise_spec_of, supervise_spec_path,
    SuperviseSpec, SuperviseSpecView,
};
use crate::paths::{extension, extension_of, join, under};
use crate::platform::launchd::generate::{
    generate_service_plist_with_deps, is_supervised, job, needs_supervisor, plist_filename,
    plist_name, program_arguments,
};
use crate::platform::launchd::lifecycle::{
    check_job_file, domain, domain_of, is_job_file, launchctl,
};
use crate::platform::launchd::plist::document;
use crate::platform::{
    get_or, indices_fit, misplaced, not_placed, result_view, value_or, Host, Invocation, Outcome,
    OutcomeView, Placement, PlacementView, PlatformError, PlatformErrorView, Removal, RemovalView,
};
use crate::text::chars::same_text;
use crate::types::{Service, ServiceView};
use vstd::prelude::*;

verus! {

/// The launchd platform.
#[derive(Debug)]
pub struct LaunchdPlatform;

/// The directory where launchd looks for jobs.
pub open spec fn jobs_home(scope: Scope, home: Option<Seq<char>>) -> Seq<char> {
    if scope == Scope::User {
        under(value_or(home, "."@), "Library/LaunchAgents"@)
    } else {
        "/Library/LaunchDaemons"@
    }
}

/// The directory where launchd looks for jobs.
pub fn install_dir(config: &Config, host: &Host) -> (r: String)
    ensures
        r@ == jobs_home(config.scope, host.home.deep_view()),
{
    if config.scope.is_user() {
        join(get_or(&host.home, ".").as_str(), "Library/LaunchAgents")
    } else {
        "/Library/LaunchDaemons".to_string()
    }
}

/// The installed property list of a label.
pub open spec fn installed_plist(scope: Scope, home: Option<Seq<char>>, label: Seq<char>) -> Seq<
    char,
> {
    under(jobs_home(scope, home), label + ".plist"@)
}

/// The installed property list of a label.
pub fn plist_dest_path(config: &Config, host: &Host, label: &str) -> (r: String)
    ensures
        r@ == installed_plist(config.scope, host.home.deep_view(), label@),
{
    let mut file = label.to_string();
    file.append(".plist");
    join(install_dir(config, host).as_str(), file.as_str())
}

/// Whether the durations that the job of a service and its supervisor spec are
/// made of can be counted.
pub open spec fn job_fits(service: ServiceView, all: Seq<ServiceView>) -> bool {
    optional_fits(service.restart.delay) && spec_fits(service, all)
}

/// Whether the durations that jobs are made of can be counted.
pub open spec fn jobs_fit(services: Seq<ServiceView>, exec_sets: Seq<(usize, ExecSetView)>) -> bool {
    forall|i: int|
        0 <= i < exec_sets.len() ==> job_fits(
            services[(#[trigger] exec_sets[i]).0 as int],
            services,
        )
}

/// Tells whether the durations that jobs are made of can be counted.
pub fn check_jobs(services: &Vec<Service>, exec_sets: &Vec<(usize, ExecSet)>) -> (r: bool)
    requires
        indices_fit(exec_sets.deep_view(), services@.len()),
    ensures
        r == jobs_fit(services.deep_view(), exec_sets.deep_view()),
{
    let n: usize = exec_sets.len();
    let ghost views = services.deep_view();
    let ghost sets = exec_sets.deep_view();
    for i in 0..n
        invariant
            n == exec_sets@.len(),
            views == services.deep_view(),
            sets == exec_sets.deep_view(),
            indices_fit(sets, services@.len()),
            forall|j: int|
                0 <= j < i ==> job_fits(views[(#[trigger] sets[j]).0 as int], views),
    {
        assert(sets[i as int] == (exec_sets@[i as int].0, exec_sets@[i as int].1@));
        let at: usize = exec_sets[i].0;
        assert(views[at as int] == services@[at as int]@);
        let service = &services[at];
        if !check_duration(&service.restart.delay) || !check_spec(service, services) {
            assert(!job_fits(views[sets[i as int].0 as int], views));
            return false;
        }
    }
    true
}

/// The gates of a service among all services.
pub open spec fn gates_for(services: Seq<ServiceView>, service: ServiceView, config: &Config) -> Seq<
    crate::orchdi::GateView,
> {
    dep_gates(config.state_dir@, config.namespace@, service, services)
}

/// The supervisor spec of a service, if it runs under the supervisor.
pub open spec fn spec_for(
    services: Seq<ServiceView>,
    e: (usize, ExecSetView),
    config: &Config,
) -> Option<SuperviseSpecView> {
    let service = services[e.0 as int];
    let deps = gates_for(services, service, config);
    if needs_supervisor(e.1, deps) {
        Some(supervise_spec_of(service, e.1, config.state_dir@, config.namespace@, deps))
    } else {
        None
    }
}

/// The supervisor specs of the services that run under the supervisor, in
/// order.
pub open spec fn specs_for(
    services: Seq<ServiceView>,
    exec_sets: Seq<(usize, ExecSetView)>,
    config: &Config,
) -> Seq<SuperviseSpecView>
    decreases exec_sets.len(),
{
    if exec_sets.len() == 0 {
        Seq::empty()
    } else {
        let before = specs_for(services, exec_sets.drop_last(), config);
        match spec_for(services, exec_sets.last(), config) {
            Some(spec) => before.push(spec),
            None => before,
        }
    }
}

/// The artifact of a supervisor spec, whose text is given.
pub open spec fn spec_artifact(service: ServiceView, config: &Config, text: Seq<char>) -> ArtifactView {
    let label = label_of(config.namespace@, service.name);
    ArtifactView {
        kind: "supervise-spec"@,
        label,
        path: spec_path(config.state_dir@, label),
        content: text,
    }
}

/// The artifact of a job.
pub open spec fn plist_artifact(
    services: Seq<ServiceView>,
    e: (usize, ExecSetView),
    config: &Config,
    host: &Host,
) -> ArtifactView {
    let service = services[e.0 as int];
    ArtifactView {
        kind: "plist"@,
        label: label_of(config.namespace@, service.name),
        path: under(
            under(config.state_dir@, "units"@),
            plist_name(config.namespace@, service.name),
        ),
        content: document(
            job(service, e.1, config, host, gates_for(services, service, config)),
        ),
    }
}

/// Everything that is generated for launchd: for each service its supervisor
/// spec, where it has one, and its job. `texts` holds the texts of the specs in
/// order.
pub open spec fn launchd_artifacts(
    services: Seq<ServiceView>,
    exec_sets: Seq<(usize, ExecSetView)>,
    config: &Config,
    host: &Host,
    texts: Seq<Seq<char>>,
) -> Seq<ArtifactView>
    decreases exec_sets.len(),
{
    if exec_sets.len() == 0 {
        Seq::empty()
    } else {
        let e = exec_sets.last();
        let before = launchd_artifacts(services, exec_sets.drop_last(), config, host, texts);
        let k = specs_for(services, exec_sets.drop_last(), config).len() as int;
        let plist = plist_artifact(services, e, config, host);
        if spec_for(services, e, config) is Some {
            before.push(spec_artifact(services[e.0 as int], config, texts[k])).push(plist)
        } else {
            before.push(plist)
        }
    }
}

/// Where each property list of the units directory is copied to.
pub open spec fn copies(names: Seq<Seq<char>>, units_dir: Seq<char>, home: Seq<char>) -> Seq<
    PlacementView,
>
    decreases names.len(),
{
    if names.len() == 0 {
        Seq::empty()
    } else {
        let before = copies(names.drop_last(), units_dir, home);
        if extension(names.last()) == Some("plist"@) {
            before.push(
                PlacementView {
                    from: under(units_dir, names.last()),
                    to: under(home, names.last()),
                },
            )
        } else {
            before
        }
    }
}

/// Whether the answer to `launchctl help` shows that launchctl is there.
pub open spec fn launchctl_found(outcome: OutcomeView) -> bool {
    match outcome {
        OutcomeView::NotRun(_) => false,
        OutcomeView::Ended { success, stdout, stderr, .. } => success || stdout.len() > 0
            || stderr.len() > 0,
    }
}

/// Whether the durations that the supervisor specs are made of can be counted. A
/// service that runs without a supervisor has its time to stop not read here.
pub open spec fn specs_fit(
    services: Seq<ServiceView>,
    exec_sets: Seq<(usize, ExecSetView)>,
    config: &Config,
) -> bool {
    forall|i: int|
        0 <= i < exec_sets.len() ==> {
            let service = services[(#[trigger] exec_sets[i]).0 as int];
            gates_fit(service, services) && (spec_for(services, exec_sets[i], config) is Some
                ==> optional_fits(service.timeouts.stop))
        }
}

/// Builds the supervisor specs of the services that run under the supervisor.
pub fn supervise_specs(
    services: &Vec<Service>,
    exec_sets: &Vec<(usize, ExecSet)>,
    config: &Config,
) -> (r: Vec<SuperviseSpec>)
    requires
        indices_fit(exec_sets.deep_view(), services@.len()),
        specs_fit(services.deep_view(), exec_sets.deep_view(), config),
    ensures
        r.deep_view() == specs_for(services.deep_view(), exec_sets.deep_view(), config),
{
    let ghost views = services.deep_view();
    let ghost sets = exec_sets.deep_view();
    let mut r: Vec<SuperviseSpec> = Vec::new();
    let n: usize = exec_sets.len();
    assert(r.deep_view() =~= specs_for(views, sets.take(0), config));
    for i in 0..n
        invariant
            n == exec_sets@.len(),
            views == services.deep_view(),
            sets == exec_sets.deep_view(),
            indices_fit(sets, services@.len()),
            specs_fit(views, sets, config),
            r.deep_view() == specs_for(views, sets.take(i as int), config),
    {
        let ghost done = r.deep_view();
        assert(sets.take(i + 1).drop_last() == sets.take(i as int));
        assert(sets[i as int] == (exec_sets@[i as int].0, exec_sets@[i as int].1@));
        assert(sets.take(i + 1).last() == sets[i as int]);
        let at: usize = exec_sets[i].0;
        assert(views[at as int] == services@[at as int]@);
        let service = &services[at];
        let exec_set = &exec_sets[i].1;
        assert(gates_fit(views[sets[i as int].0 as int], views));
        let deps = build_dep_gates(config, service, services);
        if is_supervised(exec_set, &deps) {
            let spec = build_supervise_spec(service, exec_set, config, &deps);
            let ghost s = spec@;
            r.push(spec);
            assert(r.deep_view() =~= done.push(s));
        }
    }
    assert(sets.take(n as int) == sets);
    r
}

/// What is undone for an installed copy: it is unloaded, then removed.
pub open spec fn unloaded(path: Seq<char>, scope: Scope, uid: Seq<char>) -> Seq<RemovalView> {
    seq![
        RemovalView::Call { call: launchctl(seq!["bootout"@, domain_of(scope, uid), path]) },
        RemovalView::File { path },
    ]
}

/// What is undone for files of the units directory: of those of the namespace,
/// the copy, where one is installed, and the file itself.
pub open spec fn removed(
    names: Seq<Seq<char>>,
    installed: Seq<Seq<char>>,
    config: &Config,
    home: Option<Seq<char>>,
    uid: Seq<char>,
) -> Seq<RemovalView>
    decreases names.len(),
{
    if names.len() == 0 {
        Seq::empty()
    } else {
        let before = removed(names.drop_last(), installed, config, home, uid);
        let name = names.last();
        if is_job_file(name, config.namespace@) {
            before + (if installed.contains(name) {
                unloaded(under(jobs_home(config.scope, home), name), config.scope, uid)
            } else {
                seq![]
            }) + seq![
                RemovalView::File { path: under(under(config.state_dir@, "units"@), name) },
            ]
        } else {
            before
        }
    }
}

/// What is undone to fell a grove: its copies and its property lists.
pub open spec fn removals(
    names: Seq<Seq<char>>,
    installed: Seq<Seq<char>>,
    config: &Config,
    home: Option<Seq<char>>,
    uid: Seq<char>,
) -> Seq<RemovalView> {
    removed(names, installed, config, home, uid).push(
        RemovalView::EmptyDirectory { path: under(config.state_dir@, "units"@) },
    )
}

fn unload(path: &str, config: &Config, uid: &str) -> (r: Invocation)
    ensures
        r@ == launchctl(seq!["bootout"@, domain_of(config.scope, uid@), path@]),
{
    let mut args: Vec<String> = Vec::new();
    args.push("bootout".to_string());
    args.push(domain(config, uid));
    args.push(path.to_string());
    assert(args.deep_view() =~= seq!["bootout"@, domain_of(config.scope, uid@), path@]);
    Invocation { program: "launchctl".to_string(), args }
}

impl LaunchdPlatform {
    /// The platform.
    pub fn new() -> (r: Self)
        ensures
            r == LaunchdPlatform,
    {
        LaunchdPlatform
    }

    /// Checks that launchctl is there, given the answer to `launchctl help`.
    pub fn check(&self, help: &Outcome) -> (r: Result<(), PlatformError>)
        ensures
            result_view(r) == (if launchctl_found(help@) {
                Ok(())
            } else {
                Err(PlatformErrorView::PrerequisiteMissing("launchctl not found on PATH"@))
            }),
    {
        let found = match help {
            Outcome::NotRun(_) => false,
            Outcome::Ended { success, stdout, stderr, .. } => *success || stdout.unicode_len() > 0
                || stderr.unicode_len() > 0,
        };
        if found {
            Ok(())
        } else {
            Err(PlatformError::PrerequisiteMissing("launchctl not found on PATH".to_string()))
        }
    }

    /// Reports that launchd's directory could not be made.
    pub fn dir_failed(&self, dir: &str, reason: &str) -> (r: PlatformError)
        ensures
            r@ == PlatformErrorView::InstallFailed("create "@ + dir@ + ": "@ + reason@),
    {
        let mut m = "create ".to_string();
        m.append(dir);
        m.append(": ");
        m.append(reason);
        PlatformError::InstallFailed(m)
    }

    /// Reports that a property list could not be copied.
    pub fn copy_failed(&self, copy: &Placement, reason: &str) -> (r: PlatformError)
        ensures
            r@ == misplaced("copy "@, copy@, reason@),
    {
        not_placed("copy ", copy, reason)
    }

    /// What is undone, given the files of the units directory and those of
    /// launchd's directory. Only what is of the namespace is touched, so that
    /// other groves live on.
    pub fn clean(
        &self,
        names: &Vec<String>,
        installed: &Vec<String>,
        config: &Config,
        host: &Host,
        uid: &str,
    ) -> (r: Vec<Removal>)
        ensures
            r.deep_view() == removals(
                names.deep_view(),
                installed.deep_view(),
                config,
                host.home.deep_view(),
                uid@,
            ),
    {
        let units_dir = config.units_dir();
        let dir = install_dir(config, host);
        let ghost all = names.deep_view();
        let ghost present = installed.deep_view();
        let ghost home = host.home.deep_view();
        let mut r: Vec<Removal> = Vec::new();
        let n: usize = names.len();
        assert(r.deep_view() =~= removed(all.take(0), present, config, home, uid@));
        for i in 0..n
            invariant
                n == names@.len(),
                all == names.deep_view(),
                present == installed.deep_view(),
                home == host.home.deep_view(),
                units_dir@ == under(config.state_dir@, "units"@),
                dir@ == jobs_home(config.scope, home),
                r.deep_view() == removed(all.take(i as int), present, config, home, uid@),
        {
            let ghost done = r.deep_view();
            let name = names[i].as_str();
            assert(all.take(i + 1).drop_last() == all.take(i as int));
            assert(all.take(i + 1).last() == name@);
            if check_job_file(name, config) {
                if list_has(installed, name) {
                    let path = join(dir.as_str(), name);
                    let call = unload(path.as_str(), config, uid);
                    let ghost first = RemovalView::Call { call: call@ };
                    let ghost second = RemovalView::File { path: path@ };
                    r.push(Removal::Call { call });
                    assert(r.deep_view() =~= done.push(first));
                    r.push(Removal::File { path });
                    assert(r.deep_view() =~= done.push(first).push(second));
                    assert(r.deep_view() =~= done + unloaded(second->File_path, config.scope, uid@));
                }
                let ghost mid = r.deep_view();
                let ghost unit = RemovalView::File { path: under(units_dir@, name@) };
                assert(mid =~= done + (if present.contains(name@) {
                    unloaded(under(dir@, name@), config.scope, uid@)
                } else {
                    seq![]
                }));
                r.push(Removal::File { path: join(units_dir.as_str(), name) });
                assert(r.deep_view() =~= mid.push(unit));
                assert(r.deep_view() =~= mid + seq![unit]);
            }
        }
        assert(all.take(n as int) == all);
        let ghost done = r.deep_view();
        let ghost last = RemovalView::EmptyDirectory { path: units_dir@ };
        r.push(Removal::EmptyDirectory { path: units_dir });
        assert(r.deep_view() =~= done.push(last));
        r
    }

    /// Where the property lists of the units directory are copied to.
    pub fn install(&self, names: &Vec<String>, config: &Config, host: &Host) -> (r: Vec<Placement>)
        ensures
            r.deep_view() == copies(
                names.deep_view(),
                under(config.state_dir@, "units"@),
                jobs_home(config.scope, host.home.deep_view()),
            ),
    {
        let units_dir = config.units_dir();
        let home = install_dir(config, host);
        let ghost all = names.deep_view();
        let mut r: Vec<Placement> = Vec::new();
        let n: usize = names.len();
        assert(r.deep_view() =~= copies(all.take(0), units_dir@, home@));
        for i in 0..n
            invariant
                n == names@.len(),
                all == names.deep_view(),
                r.deep_view() == copies(all.take(i as int), units_dir@, home@),
        {
            let ghost done = r.deep_view();
            let name = names[i].as_str();
            assert(all.take(i + 1).drop_last() == all.take(i as int));
            assert(all.take(i + 1).last() == name@);
            let is_plist = match extension_of(name) {
                Some(ext) => same_text(ext.as_str(), "plist"),
                None => false,
            };
            if is_plist {
                let from = join(units_dir.as_str(), name);
                let to = join(home.as_str(), name);
                let ghost p = PlacementView { from: from@, to: to@ };
                r.push(Placement { from, to });
                assert(r.deep_view() =~= done.push(p));
            }
        }
        assert(all.take(n as int) == all);
        r
    }

    /// Generates the jobs of the services that have commands, with their
    /// supervisor specs. `texts` holds the texts of the specs that
    /// [`supervise_specs`] builds, in order.
    pub fn generate_all(
        &self,
        services: &Vec<Service>,
        exec_sets: &Vec<(usize, ExecSet)>,
        config: &Config,
        host: &Host,
        texts: &Vec<String>,
    ) -> (r: Vec<Artifact>)
        requires
            indices_fit(exec_sets.deep_view(), services@.len()),
            jobs_fit(services.deep_view(), exec_sets.deep_view()),
            texts@.len() == specs_for(services.deep_view(), exec_sets.deep_view(), config).len(),
        ensures
            r.deep_view() == launchd_artifacts(
                services.deep_view(),
                exec_sets.deep_view(),
                config,
                host,
                texts.deep_view(),
            ),
    {
        let ghost views = services.deep_view();
        let ghost sets = exec_sets.deep_view();
        let ghost contents = texts.deep_view();
        let mut out: Vec<Artifact> = Vec::new();
        let mut k: usize = 0;
        let n: usize = exec_sets.len();
        let total: usize = texts.len();
        assert(out.deep_view() =~= launchd_artifacts(views, sets.take(0), config, host, contents));
        assert(sets.take(n as int) == sets);
        for i in 0..n
            invariant
                n == exec_sets@.len(),
                views == services.deep_view(),
                sets == exec_sets.deep_view(),
                contents == texts.deep_view(),
                indices_fit(sets, services@.len()),
                jobs_fit(views, sets),
                sets.take(n as int) == sets,
                total == texts@.len(),
                total == specs_for(views, sets, config).len(),
                k == specs_for(views, sets.take(i as int), config).len(),
                out.deep_view() == launchd_artifacts(
                    views,
                    sets.take(i as int),
                    config,
                    host,
                    contents,
                ),
        {
            let ghost done = out.deep_view();
            assert(sets.take(i + 1).drop_last() == sets.take(i as int));
            assert(sets[i as int] == (exec_sets@[i as int].0, exec_sets@[i as int].1@));
            assert(sets.take(i + 1).last() == sets[i as int]);
            proof {
                lemma_specs_grow(views, sets, config, i + 1, n as int);
            }
            let at: usize = exec_sets[i].0;
            assert(views[at as int] == services@[at as int]@);
            let service = &services[at];
            let exec_set = &exec_sets[i].1;
            let label = service_label(config, service.name.as_str());
            assert(job_fits(views[sets[i as int].0 as int], views));
            let deps = build_dep_gates(config, service, services);
            let ghost e = sets[i as int];
            if is_supervised(exec_set, &deps) {
                assert(spec_for(views, e, config) is Some);
                assert(specs_for(views, sets.take(i + 1), config).len() == k + 1);
                assert(k < total);
                out.push(
                    Artifact {
                        kind: "supervise-spec".to_string(),
                        label: label.clone(),
                        path: supervise_spec_path(config, label.as_str()),
                        content: texts[k].clone(),
                    },
                );
                assert(out.deep_view() =~= done.push(
                    spec_artifact(service@, config, contents[k as int]),
                ));
                k = k + 1;
            }
            let ghost mid = out.deep_view();
            let file = plist_filename(config, service.name.as_str());
            let content = generate_service_plist_with_deps(service, exec_set, config, host, &deps);
            out.push(
                Artifact {
                    kind: "plist".to_string(),
                    label,
                    path: join(config.units_dir().as_str(), file.as_str()),
                    content,
                },
            );
            assert(out.deep_view() =~= mid.push(plist_artifact(views, e, config, host)));
        }
        out
    }
}

proof fn lemma_specs_grow(
    services: Seq<ServiceView>,
    exec_sets: Seq<(usize, ExecSetView)>,
    config: &Config,
    i: int,
    j: int,
)
    requires
        0 <= i <= j <= exec_sets.len(),
    ensures
        specs_for(services, exec_sets.take(i), config).len() <= specs_for(
            services,
            exec_sets.take(j),
            config,
        ).len(),
    decreases j,
{
    if i < j {
        assert(exec_sets.take(j).drop_last() == exec_sets.take(j - 1));
        lemma_specs_grow(services, exec_sets, config, i, j - 1);
    }
}

/// A job hands its service to the supervisor exactly if a supervisor spec is
/// generated for the service, and then names the file that holds that spec.
pub proof fn law_supervised_jobs_have_specs(
    services: Seq<ServiceView>,
    e: (usize, ExecSetView),
    config: &Config,
    host: &Host,
    text: Seq<char>,
)
    ensures
        ({
            let service = services[e.0 as int];
            let label = label_of(config.namespace@, service.name);
            let deps = gates_for(services, service, config);
            let args = program_arguments(
                e.1,
                deps,
                host.exe.deep_view(),
                spec_path(config.state_dir@, label),
            );
            &&& job(service, e.1, config, host, deps)[1] == (
                "ProgramArguments"@,
                crate::platform::launchd::plist::ValueView::Array(args),
            )
            &&& spec_for(services, e, config) is Some ==> args.len() == 4 && args[1]
                == "supervise"@ && args[3] == spec_artifact(service, config, text).path
            &&& spec_for(services, e, config) is None ==> args.len() == 3
        }),
{
}

/// Whether a removal is that of a file of a grove: of a property list of the
/// namespace, or of the installed copy of one.
pub open spec fn removes(
    name: Seq<char>,
    installed: Seq<Seq<char>>,
    config: &Config,
    home: Option<Seq<char>>,
    path: Seq<char>,
) -> bool {
    is_job_file(name, config.namespace@) && (path == under(under(config.state_dir@, "units"@), name)
        || installed.contains(name) && path == under(jobs_home(config.scope, home), name))
}

proof fn lemma_removed(
    names: Seq<Seq<char>>,
    installed: Seq<Seq<char>>,
    config: &Config,
    home: Option<Seq<char>>,
    uid: Seq<char>,
    path: Seq<char>,
)
    ensures
        removed(names, installed, config, home, uid).contains(RemovalView::File { path })
            <==> exists|i: int|
            0 <= i < names.len() && removes(#[trigger] names[i], installed, config, home, path),
    decreases names.len(),
{
    let undone = removed(names, installed, config, home, uid);
    let file = RemovalView::File { path };
    if names.len() > 0 {
        let init = names.drop_last();
        let before = removed(init, installed, config, home, uid);
        let name = names.last();
        lemma_removed(init, installed, config, home, uid, path);
        if undone.contains(file) {
            let j = choose|j: int| 0 <= j < undone.len() && undone[j] == file;
            if j < before.len() {
                assert(before[j] == file);
                let i = choose|i: int|
                    0 <= i < init.len() && removes(#[trigger] init[i], installed, config, home, path);
                assert(names[i] == init[i]);
            } else {
                assert(removes(names[names.len() - 1], installed, config, home, path));
            }
        }
        if exists|i: int|
            0 <= i < names.len() && removes(#[trigger] names[i], installed, config, home, path) {
            let i = choose|i: int|
                0 <= i < names.len() && removes(#[trigger] names[i], installed, config, home, path);
            if i < init.len() {
                assert(init[i] == names[i]);
                let j = choose|j: int| 0 <= j < before.len() && before[j] == file;
                assert(undone[j] == file);
            } else {
                assert(undone[undone.len() - 1] == RemovalView::File {
                    path: under(under(config.state_dir@, "units"@), name),
                });
                if installed.contains(name) {
                    assert(undone[undone.len() - 2] == RemovalView::File {
                        path: under(jobs_home(config.scope, home), name),
                    });
                }
            }
        }
    }
}

/// Cleaning undoes installing, for one grove: of each of its property lists, the
/// file itself and the copy that is installed are removed, and no other file is.
pub proof fn law_cleaning_undoes_installing(
    names: Seq<Seq<char>>,
    installed: Seq<Seq<char>>,
    config: &Config,
    home: Option<Seq<char>>,
    uid: Seq<char>,
    path: Seq<char>,
)
    ensures
        removals(names, installed, config, home, uid).contains(RemovalView::File { path })
            <==> exists|i: int|
            0 <= i < names.len() && removes(#[trigger] names[i], installed, config, home, path),
{
    let undone = removed(names, installed, config, home, uid);
    let all = removals(names, installed, config, home, uid);
    let file = RemovalView::File { path };
    lemma_removed(names, installed, config, home, uid, path);
    if undone.contains(file) {
        let j = choose|j: int| 0 <= j < undone.len() && undone[j] == file;
        assert(all[j] == file);
    }
    if all.contains(file) {
        let j = choose|j: int| 0 <= j < all.len() && all[j] == file;
        assert(j < undone.len());
        assert(undone[j] == file);
    }
}

} // verus!
