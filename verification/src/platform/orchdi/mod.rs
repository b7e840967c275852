//! The orchdi platform: orchd's own supervisor, without an init system.
//!
//! Every service runs under the supervisor. There are no native unit files,
//! only the specs that the supervisors read.

pub mod lifecycle;

use crate::config::Config;
use crate::exec::{ExecSet, ExecSetView};
use crate::orchard::{Artifact, ArtifactView};
use crate::orchdi::{
    build_dep_gates, build_supervise_spec, check_spec, dep_gates, service_label, spec_fits,
    supervise_spec_of, supervise_spec_path, SuperviseSpec, SuperviseSpecView,
};
use crate::paths::{extension, extension_of, join, stem, stem_of, under};
use crate::platform::launchd::spec_artifact;
use crate::platform::orchdi::lifecycle::{check_own, is_own};
use crate::platform::{indices_fit, Removal, RemovalView};
use crate::text::chars::same_text;
use crate::types::{Service, ServiceView};
use vstd::prelude::*;

verus! {

/// The orchdi platform.
#[derive(Debug)]
pub struct OrchdiPlatform;

/// The supervisor specs of the services that have commands.
pub open spec fn all_specs(
    services: Seq<ServiceView>,
    exec_sets: Seq<(usize, ExecSetView)>,
    config: &Config,
) -> Seq<SuperviseSpecView> {
    exec_sets.map_values(
        |e: (usize, ExecSetView)|
            supervise_spec_of(
                services[e.0 as int],
                e.1,
                config.state_dir@,
                config.namespace@,
                dep_gates(config.state_dir@, config.namespace@, services[e.0 as int], services),
            ),
    )
}

/// Everything that is generated for orchdi: the specs, whose texts are given in
/// order.
pub open spec fn orchdi_artifacts(
    services: Seq<ServiceView>,
    exec_sets: Seq<(usize, ExecSetView)>,
    config: &Config,
    texts: Seq<Seq<char>>,
) -> Seq<ArtifactView> {
    Seq::new(
        exec_sets.len(),
        |i: int| spec_artifact(services[exec_sets[i].0 as int], config, texts[i]),
    )
}

/// Whether the durations that supervisor specs are made of can be counted.
pub open spec fn specs_fit(
    services: Seq<ServiceView>,
    exec_sets: Seq<(usize, ExecSetView)>,
) -> bool {
    forall|i: int|
        0 <= i < exec_sets.len() ==> spec_fits(
            services[(#[trigger] exec_sets[i]).0 as int],
            services,
        )
}

/// Tells whether the durations that supervisor specs are made of can be counted.
pub fn check_specs(services: &Vec<Service>, exec_sets: &Vec<(usize, ExecSet)>) -> (r: bool)
    requires
        indices_fit(exec_sets.deep_view(), services@.len()),
    ensures
        r == specs_fit(services.deep_view(), exec_sets.deep_view()),
{
    let n: usize = exec_sets.len();
    let ghost views = services.deep_view();
    let ghost sets = exec_sets.deep_view();
    for i in 0..n
        invariant
            n == exec_sets@.len(),
            views == services.deep_view(),
            sets == exec_sets.deep_view(),
            indices_fit(sets, services@.len()),
            forall|j: int|
                0 <= j < i ==> spec_fits(views[(#[trigger] sets[j]).0 as int], views),
    {
        assert(sets[i as int] == (exec_sets@[i as int].0, exec_sets@[i as int].1@));
        let at: usize = exec_sets[i].0;
        assert(views[at as int] == services@[at as int]@);
        if !check_spec(&services[at], services) {
            assert(!spec_fits(views[sets[i as int].0 as int], views));
            return false;
        }
    }
    true
}

/// Builds the supervisor specs of the services that have commands.
pub fn supervise_specs(
    services: &Vec<Service>,
    exec_sets: &Vec<(usize, ExecSet)>,
    config: &Config,
) -> (r: Vec<SuperviseSpec>)
    requires
        indices_fit(exec_sets.deep_view(), services@.len()),
        specs_fit(services.deep_view(), exec_sets.deep_view()),
    ensures
        r.deep_view() == all_specs(services.deep_view(), exec_sets.deep_view(), config),
{
    let ghost views = services.deep_view();
    let ghost sets = exec_sets.deep_view();
    let ghost all = all_specs(views, sets, config);
    let mut r: Vec<SuperviseSpec> = Vec::new();
    let n: usize = exec_sets.len();
    assert(r.deep_view() =~= all.take(0));
    for i in 0..n
        invariant
            n == exec_sets@.len(),
            views == services.deep_view(),
            sets == exec_sets.deep_view(),
            indices_fit(sets, services@.len()),
            specs_fit(views, sets),
            all == all_specs(views, sets, config),
            r.deep_view() == all.take(i as int),
    {
        let ghost done = r.deep_view();
        assert(sets[i as int] == (exec_sets@[i as int].0, exec_sets@[i as int].1@));
        let at: usize = exec_sets[i].0;
        assert(views[at as int] == services@[at as int]@);
        assert(spec_fits(views[sets[i as int].0 as int], views));
        let deps = build_dep_gates(config, &services[at], services);
        r.push(build_supervise_spec(&services[at], &exec_sets[i].1, config, &deps));
        assert(r.deep_view() =~= done.push(all[i as int]));
        assert(r.deep_view() =~= all.take(i + 1));
    }
    assert(all.take(n as int) == all);
    r
}

/// Whether a file has an extension and its stem is a label of the namespace.
pub open spec fn is_own_file(name: Seq<char>, ext: Seq<char>, namespace: Seq<char>) -> bool {
    extension(name) == Some(ext) && is_own(stem(name), namespace)
}

/// What is undone for files of a directory: those of the namespace are removed.
pub open spec fn removed(
    names: Seq<Seq<char>>,
    ext: Seq<char>,
    dir: Seq<char>,
    namespace: Seq<char>,
) -> Seq<RemovalView>
    decreases names.len(),
{
    if names.len() == 0 {
        Seq::empty()
    } else {
        let before = removed(names.drop_last(), ext, dir, namespace);
        if is_own_file(names.last(), ext, namespace) {
            before.push(RemovalView::File { path: under(dir, names.last()) })
        } else {
            before
        }
    }
}

/// What is undone to fell a grove: its specs and its pid files.
pub open spec fn removals(
    spec_files: Seq<Seq<char>>,
    pid_files: Seq<Seq<char>>,
    config: &Config,
) -> Seq<RemovalView> {
    let specs = under(config.state_dir@, "supervise"@);
    let pids = under(config.state_dir@, "run"@);
    removed(spec_files, "json"@, specs, config.namespace@) + removed(
        pid_files,
        "pid"@,
        pids,
        config.namespace@,
    ) + seq![
        RemovalView::EmptyDirectory { path: specs },
        RemovalView::EmptyDirectory { path: pids },
    ]
}

fn push_removals(
    r: &mut Vec<Removal>,
    dir: &str,
    names: &Vec<String>,
    ext: &str,
    config: &Config,
)
    ensures
        final(r).deep_view() == old(r).deep_view() + removed(
            names.deep_view(),
            ext@,
            dir@,
            config.namespace@,
        ),
{
    let ghost before = r.deep_view();
    let ghost all = names.deep_view();
    let ghost ns = config.namespace@;
    let n: usize = names.len();
    assert(r.deep_view() =~= before + removed(all.take(0), ext@, dir@, ns));
    for i in 0..n
        invariant
            n == names@.len(),
            all == names.deep_view(),
            ns == config.namespace@,
            r.deep_view() == before + removed(all.take(i as int), ext@, dir@, ns),
    {
        let ghost done = r.deep_view();
        let name = names[i].as_str();
        assert(all.take(i + 1).drop_last() == all.take(i as int));
        assert(all.take(i + 1).last() == name@);
        let fits = match extension_of(name) {
            Some(e) => same_text(e.as_str(), ext),
            None => false,
        };
        if fits && check_own(stem_of(name).as_str(), config) {
            let ghost file = RemovalView::File { path: under(dir@, name@) };
            r.push(Removal::File { path: join(dir, name) });
            assert(r.deep_view() =~= done.push(file));
        }
        assert(r.deep_view() =~= before + removed(all.take(i + 1), ext@, dir@, ns));
    }
    assert(all.take(n as int) == all);
}

proof fn lemma_removed(
    names: Seq<Seq<char>>,
    ext: Seq<char>,
    dir: Seq<char>,
    namespace: Seq<char>,
    path: Seq<char>,
)
    ensures
        removed(names, ext, dir, namespace).contains(RemovalView::File { path }) <==> exists|i: int|
            0 <= i < names.len() && is_own_file(#[trigger] names[i], ext, namespace) && path
                == under(dir, names[i]),
    decreases names.len(),
{
    let undone = removed(names, ext, dir, namespace);
    let file = RemovalView::File { path };
    if names.len() > 0 {
        let init = names.drop_last();
        let before = removed(init, ext, dir, namespace);
        lemma_removed(init, ext, dir, namespace, path);
        if undone.contains(file) {
            let j = choose|j: int| 0 <= j < undone.len() && undone[j] == file;
            if j < before.len() {
                assert(before[j] == file);
                let i = choose|i: int|
                    0 <= i < init.len() && is_own_file(#[trigger] init[i], ext, namespace) && path
                        == under(dir, init[i]);
                assert(names[i] == init[i]);
            } else {
                assert(is_own_file(names[names.len() - 1], ext, namespace));
            }
        }
        if exists|i: int|
            0 <= i < names.len() && is_own_file(#[trigger] names[i], ext, namespace) && path
                == under(dir, names[i]) {
            let i = choose|i: int|
                0 <= i < names.len() && is_own_file(#[trigger] names[i], ext, namespace) && path
                    == under(dir, names[i]);
            if i < init.len() {
                assert(init[i] == names[i]);
                let j = choose|j: int| 0 <= j < before.len() && before[j] == file;
                assert(undone[j] == file);
            } else {
                assert(undone[undone.len() - 1] == file);
            }
        }
    }
}

/// Felling a grove removes the specs and the pid files of its namespace, and no
/// other file.
pub proof fn law_cleaning_removes_the_grove(
    spec_files: Seq<Seq<char>>,
    pid_files: Seq<Seq<char>>,
    config: &Config,
    path: Seq<char>,
)
    ensures
        removals(spec_files, pid_files, config).contains(RemovalView::File { path }) <==> (exists|
            i: int,
        |
            0 <= i < spec_files.len() && is_own_file(
                #[trigger] spec_files[i],
                "json"@,
                config.namespace@,
            ) && path == under(under(config.state_dir@, "supervise"@), spec_files[i])) || (exists|
            i: int,
        |
            0 <= i < pid_files.len() && is_own_file(
                #[trigger] pid_files[i],
                "pid"@,
                config.namespace@,
            ) && path == under(under(config.state_dir@, "run"@), pid_files[i])),
{
    let ns = config.namespace@;
    let specs = under(config.state_dir@, "supervise"@);
    let pids = under(config.state_dir@, "run"@);
    let a = removed(spec_files, "json"@, specs, ns);
    let b = removed(pid_files, "pid"@, pids, ns);
    let all = removals(spec_files, pid_files, config);
    let file = RemovalView::File { path };
    lemma_removed(spec_files, "json"@, specs, ns, path);
    lemma_removed(pid_files, "pid"@, pids, ns, path);
    if all.contains(file) {
        let j = choose|j: int| 0 <= j < all.len() && all[j] == file;
        assert(j < a.len() + b.len());
        if j < a.len() {
            assert(a[j] == file);
        } else {
            assert(b[j - a.len()] == file);
        }
    }
    if a.contains(file) {
        let j = choose|j: int| 0 <= j < a.len() && a[j] == file;
        assert(all[j] == file);
    }
    if b.contains(file) {
        let j = choose|j: int| 0 <= j < b.len() && b[j] == file;
        assert(all[a.len() + j] == file);
    }
}

impl OrchdiPlatform {
    /// The platform.
    pub fn new() -> (r: Self)
        ensures
            r == OrchdiPlatform,
    {
        OrchdiPlatform
    }

    /// What is undone, once the supervisors are told to end, given the files of
    /// the two directories: the specs and the pid files. Only what is of the
    /// namespace is touched, so that other groves live on.
    pub fn clean(
        &self,
        spec_files: &Vec<String>,
        pid_files: &Vec<String>,
        config: &Config,
    ) -> (r: Vec<Removal>)
        ensures
            r.deep_view() == removals(spec_files.deep_view(), pid_files.deep_view(), config),
    {
        let specs = join(config.state_dir.as_str(), "supervise");
        let pids = join(config.state_dir.as_str(), "run");
        let mut r: Vec<Removal> = Vec::new();
        assert(r.deep_view() =~= Seq::<RemovalView>::empty());
        push_removals(&mut r, specs.as_str(), spec_files, "json", config);
        assert(r.deep_view() =~= removed(spec_files.deep_view(), "json"@, specs@, config.namespace@));
        push_removals(&mut r, pids.as_str(), pid_files, "pid", config);
        let ghost done = r.deep_view();
        let ghost first = RemovalView::EmptyDirectory { path: specs@ };
        let ghost second = RemovalView::EmptyDirectory { path: pids@ };
        r.push(Removal::EmptyDirectory { path: specs });
        assert(r.deep_view() =~= done.push(first));
        r.push(Removal::EmptyDirectory { path: pids });
        assert(r.deep_view() =~= done.push(first).push(second));
        assert(r.deep_view() =~= done + seq![first, second]);
        r
    }

    /// Generates the spec files. `texts` holds the texts of the specs that
    /// [`supervise_specs`] builds, in order.
    pub fn generate_all(
        &self,
        services: &Vec<Service>,
        exec_sets: &Vec<(usize, ExecSet)>,
        config: &Config,
        texts: &Vec<String>,
    ) -> (r: Vec<Artifact>)
        requires
            indices_fit(exec_sets.deep_view(), services@.len()),
            texts@.len() == exec_sets@.len(),
        ensures
            r.deep_view() == orchdi_artifacts(
                services.deep_view(),
                exec_sets.deep_view(),
                config,
                texts.deep_view(),
            ),
    {
        let ghost views = services.deep_view();
        let ghost sets = exec_sets.deep_view();
        let ghost contents = texts.deep_view();
        let ghost all = orchdi_artifacts(views, sets, config, contents);
        let mut out: Vec<Artifact> = Vec::new();
        let n: usize = exec_sets.len();
        assert(out.deep_view() =~= all.take(0));
        for i in 0..n
            invariant
                n == exec_sets@.len(),
                n == texts@.len(),
                views == services.deep_view(),
                sets == exec_sets.deep_view(),
                contents == texts.deep_view(),
                indices_fit(sets, services@.len()),
                all == orchdi_artifacts(views, sets, config, contents),
                out.deep_view() == all.take(i as int),
        {
            let ghost done = out.deep_view();
            assert(sets[i as int] == (exec_sets@[i as int].0, exec_sets@[i as int].1@));
            let at: usize = exec_sets[i].0;
            assert(views[at as int] == services@[at as int]@);
            let label = service_label(config, services[at].name.as_str());
            out.push(
                Artifact {
                    kind: "supervise-spec".to_string(),
                    path: supervise_spec_path(config, label.as_str()),
                    label,
                    content: texts[i].clone(),
                },
            );
            assert(out.deep_view() =~= done.push(all[i as int]));
            assert(out.deep_view() =~= all.take(i + 1));
        }
        assert(all.take(n as int) == all);
        out
    }
}

} // verus!
