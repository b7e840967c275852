//! The orchard rows: spec -> sown -> artifacts -> running grove.
//!
//! Each row takes what the row before it gives. They hold no state.

pub mod walk;

use crate::config::{Config, Scope};
use crate::engine::{gather_on, gather_prepared, gather_valid, in_order, Gathering, GatheringView};
use crate::exec::{ExecSet, ExecSetView};
use crate::orchdi::SuperviseSpec;
use crate::platform::launchd::{jobs_fit, launchd_artifacts, specs_for, LaunchdPlatform};
use crate::platform::systemd::{systemd_artifacts, SystemdPlatform};
use crate::platform::{
    can_generate, generable, generate_files, generated, generated_specs, indices_fit,
    platform_named, platform_of, specs_to_generate, Host, PlatformKind,
};
use crate::runtime::{
    commands_of, must_ask, runtime_message, AnyRuntime, RuntimeError, RuntimeErrorView,
};
use crate::types::{OrchFile, Service, ServiceView};
use vstd::prelude::*;

verus! {

/// One service with the commands that the runtime made for it.
#[derive(Debug)]
pub struct Tree {
    pub service: Service,
    pub exec_set: ExecSet,
}

#[verifier::ext_equal]
pub struct TreeView {
    pub service: ServiceView,
    pub exec_set: ExecSetView,
}

impl View for Tree {
    type V = TreeView;

    open spec fn view(&self) -> TreeView {
        TreeView { service: self.service@, exec_set: self.exec_set@ }
    }
}

impl DeepView for Tree {
    type V = TreeView;

    open spec fn deep_view(&self) -> TreeView {
        self@
    }
}

/// What sowing gives: the services that can be run, with their commands.
#[derive(Debug)]
pub struct Sown {
    pub version: String,
    pub runtime: String,
    pub trees: Vec<Tree>,
}

/// One generated file: what it is, what it is for, and where it is written.
#[derive(Debug)]
pub struct Artifact {
    /// unit, plist, supervise-spec, ready-gate or target.
    pub kind: String,
    pub label: String,
    pub path: String,
    pub content: String,
}

#[verifier::ext_equal]
pub struct ArtifactView {
    pub kind: Seq<char>,
    pub label: Seq<char>,
    pub path: Seq<char>,
    pub content: Seq<char>,
}

impl View for Artifact {
    type V = ArtifactView;

    open spec fn view(&self) -> ArtifactView {
        ArtifactView {
            kind: self.kind@,
            label: self.label@,
            path: self.path@,
            content: self.content@,
        }
    }
}

impl DeepView for Artifact {
    type V = ArtifactView;

    open spec fn deep_view(&self) -> ArtifactView {
        self@
    }
}

/// What planting gives: the files for a platform.
#[derive(Debug)]
pub struct Artifacts {
    pub platform: String,
    pub namespace: String,
    pub scope: String,
    pub artifacts: Vec<Artifact>,
}

/// Errors of the rows.
#[derive(Debug)]
pub enum OrchardError {
    /// The input cannot be read.
    Stdin(String),
    /// The input is not what the row takes.
    Json(String),
    /// A runtime failed.
    Runtime(RuntimeError),
    /// Any other error.
    Other(String),
}

#[verifier::ext_equal]
pub enum OrchardErrorView {
    Stdin(Seq<char>),
    Json(Seq<char>),
    Runtime(RuntimeErrorView),
    Other(Seq<char>),
}

impl View for OrchardError {
    type V = OrchardErrorView;

    open spec fn view(&self) -> OrchardErrorView {
        match *self {
            OrchardError::Stdin(s) => OrchardErrorView::Stdin(s@),
            OrchardError::Json(s) => OrchardErrorView::Json(s@),
            OrchardError::Runtime(e) => OrchardErrorView::Runtime(e@),
            OrchardError::Other(s) => OrchardErrorView::Other(s@),
        }
    }
}

/// What an error of a row says.
pub open spec fn orchard_message(e: OrchardErrorView) -> Seq<char> {
    match e {
        OrchardErrorView::Stdin(s) => "read stdin failed: "@ + s,
        OrchardErrorView::Json(s) => "invalid JSON on stdin: "@ + s,
        OrchardErrorView::Runtime(e) => "runtime error: "@ + runtime_message(e),
        OrchardErrorView::Other(s) => s,
    }
}

impl OrchardError {
    /// What the error says.
    pub fn message(&self) -> (r: String)
        ensures
            r@ == orchard_message(self@),
    {
        match self {
            OrchardError::Stdin(s) => {
                let mut r = "read stdin failed: ".to_string();
                r.append(s.as_str());
                r
            },
            OrchardError::Json(s) => {
                let mut r = "invalid JSON on stdin: ".to_string();
                r.append(s.as_str());
                r
            },
            OrchardError::Runtime(e) => {
                let mut r = "runtime error: ".to_string();
                r.append(e.message().as_str());
                r
            },
            OrchardError::Other(s) => s.clone(),
        }
    }
}

// ----- sow ------------------------------------------------------------------

/// The gathering once it has passed all services up to the next for which a
/// co-process has to be asked. Sowing prepares nothing.
pub open spec fn sown_on(
    services: Seq<ServiceView>,
    runtime: &AnyRuntime,
    g: GatheringView,
) -> GatheringView
    decreases services.len() - g.next,
    via sown_on_decreases
{
    if 0 <= g.next < services.len() && !must_ask(runtime, services[g.next]) {
        sown_on(services, runtime, gather_prepared(services, runtime, g, Ok(())))
    } else {
        g
    }
}

#[via_fn]
proof fn sown_on_decreases(services: Seq<ServiceView>, runtime: &AnyRuntime, g: GatheringView) {
    if 0 <= g.next < services.len() && !must_ask(runtime, services[g.next]) {
        let h = gather_prepared(services, runtime, g, Ok(()));
        lemma_gather_moves(services, runtime, g);
    }
}

proof fn lemma_past_disabled_moves(services: Seq<ServiceView>, g: GatheringView)
    requires
        0 <= g.next <= services.len(),
    ensures
        g.next <= crate::engine::past_disabled(services, g).next <= services.len(),
    decreases services.len() - g.next,
{
    if g.next < services.len() && services[g.next].disabled {
        lemma_past_disabled_moves(
            services,
            GatheringView { next: g.next + 1, skipped: g.skipped + 1, ..g },
        );
    }
}

proof fn lemma_gather_moves(services: Seq<ServiceView>, runtime: &AnyRuntime, g: GatheringView)
    requires
        0 <= g.next < services.len(),
        !must_ask(runtime, services[g.next]),
    ensures
        g.next < gather_prepared(services, runtime, g, Ok(())).next <= services.len(),
{
    let moved = GatheringView { next: g.next + 1, asking: false, ..g };
    match commands_of(runtime, services[g.next]) {
        Ok(e) => {
            lemma_past_disabled_moves(
                services,
                GatheringView { exec_sets: g.exec_sets.push((g.next as usize, e)), ..moved },
            );
        },
        Err(e) => {
            lemma_past_disabled_moves(
                services,
                GatheringView {
                    errors: g.errors.push(crate::engine::rejection(services[g.next], e)),
                    ..moved
                },
            );
        },
    }
}

/// Gathers commands up to the next service for which a co-process has to be
/// asked.
pub fn sow_on(services: &Vec<Service>, runtime: &AnyRuntime, g: Gathering) -> (r: Gathering)
    requires
        gather_valid(services.deep_view(), g@),
    ensures
        r@ == sown_on(services.deep_view(), runtime, g@),
        gather_valid(services.deep_view(), r@),
        r@.next < services@.len() ==> must_ask(runtime, services.deep_view()[r@.next]),
{
    let ghost views = services.deep_view();
    let ghost first = g@;
    let n: usize = services.len();
    let mut h = g;
    while h.next < n && !runtime.must_ask(&services[h.next])
        invariant
            n == services@.len(),
            views == services.deep_view(),
            gather_valid(views, h@),
            sown_on(views, runtime, first) == sown_on(views, runtime, h@),
        decreases n - h.next,
    {
        assert(views[h.next as int] == services@[h.next as int]@);
        proof {
            lemma_gather_moves(views, runtime, h@);
        }
        h = gather_on(services, runtime, h, Ok(()));
    }
    assert(h.next < n ==> views[h.next as int] == services@[h.next as int]@);
    h
}

/// The trees of services with commands.
pub open spec fn trees_of(
    services: Seq<ServiceView>,
    exec_sets: Seq<(usize, ExecSetView)>,
) -> Seq<TreeView> {
    exec_sets.map_values(
        |e: (usize, ExecSetView)| TreeView { service: services[e.0 as int], exec_set: e.1 },
    )
}

/// Pairs the services that can be run with their commands.
pub fn sow(spec: &OrchFile, config: &Config, gathering: &Gathering) -> (r: Sown)
    requires
        gather_valid(spec.services.deep_view(), gathering@),
    ensures
        r.version@ == spec.version@,
        r.runtime@ == config.runtime@,
        r.trees.deep_view() == trees_of(spec.services.deep_view(), gathering@.exec_sets),
{
    let ghost views = spec.services.deep_view();
    let ghost sets = gathering@.exec_sets;
    let ghost all = trees_of(views, sets);
    let mut trees: Vec<Tree> = Vec::new();
    let n: usize = gathering.exec_sets.len();
    assert(trees.deep_view() =~= all.take(0));
    for i in 0..n
        invariant
            n == gathering.exec_sets@.len(),
            views == spec.services.deep_view(),
            sets == gathering.exec_sets.deep_view(),
            gather_valid(views, gathering@),
            sets == gathering@.exec_sets,
            all == trees_of(views, sets),
            trees.deep_view() == all.take(i as int),
    {
        let ghost done = trees.deep_view();
        assert(sets[i as int] == (
            gathering.exec_sets@[i as int].0,
            gathering.exec_sets@[i as int].1@,
        ));
        let at: usize = gathering.exec_sets[i].0;
        assert(at < views.len());
        assert(views[at as int] == spec.services@[at as int]@);
        trees.push(
            Tree {
                service: spec.services[at].clone(),
                exec_set: gathering.exec_sets[i].1.clone(),
            },
        );
        assert(trees.deep_view() =~= done.push(all[i as int]));
        assert(trees.deep_view() =~= all.take(i + 1));
    }
    assert(all.take(n as int) == all);
    Sown { version: spec.version.clone(), runtime: config.runtime.clone(), trees }
}

/// The line for a service that was not sown, given why.
pub fn skip_line(rejection: &str) -> (r: String)
    ensures
        r@ == "sow: skip "@ + rejection@,
{
    let mut r = "sow: skip ".to_string();
    r.append(rejection);
    r
}

// ----- plant ----------------------------------------------------------------

/// The services of trees.
pub open spec fn planted_services(trees: Seq<TreeView>) -> Seq<ServiceView> {
    trees.map_values(|t: TreeView| t.service)
}

/// The commands of trees, by the places of the services.
pub open spec fn planted_execs(trees: Seq<TreeView>) -> Seq<(usize, ExecSetView)> {
    Seq::new(trees.len(), |i: int| (i as usize, trees[i].exec_set))
}

fn split_trees(trees: &Vec<Tree>) -> (r: (Vec<Service>, Vec<(usize, ExecSet)>))
    ensures
        r.0.deep_view() == planted_services(trees.deep_view()),
        r.1.deep_view() == planted_execs(trees.deep_view()),
        indices_fit(r.1.deep_view(), r.0@.len()),
{
    let ghost all = trees.deep_view();
    let ghost all_services = planted_services(all);
    let ghost all_execs = planted_execs(all);
    let mut services: Vec<Service> = Vec::new();
    let mut execs: Vec<(usize, ExecSet)> = Vec::new();
    let n: usize = trees.len();
    assert(services.deep_view() =~= all_services.take(0));
    assert(execs.deep_view() =~= all_execs.take(0));
    for i in 0..n
        invariant
            n == trees@.len(),
            all == trees.deep_view(),
            all_services == planted_services(all),
            all_execs == planted_execs(all),
            services.deep_view() == all_services.take(i as int),
            execs.deep_view() == all_execs.take(i as int),
    {
        let ghost done_services = services.deep_view();
        let ghost done_execs = execs.deep_view();
        assert(all[i as int] == trees@[i as int]@);
        services.push(trees[i].service.clone());
        execs.push((i, trees[i].exec_set.clone()));
        assert(services.deep_view() =~= done_services.push(all_services[i as int]));
        assert(execs.deep_view() =~= done_execs.push(all_execs[i as int]));
        assert(services.deep_view() =~= all_services.take(i + 1));
        assert(execs.deep_view() =~= all_execs.take(i + 1));
    }
    assert(all_services.take(n as int) == all_services);
    assert(all_execs.take(n as int) == all_execs);
    assert(services@.len() == services.deep_view().len());
    (services, execs)
}

/// Tells whether trees can be planted.
pub fn can_plant(sown: &Sown, config: &Config) -> (r: bool)
    ensures
        r == generable(
            planted_services(sown.trees.deep_view()),
            planted_execs(sown.trees.deep_view()),
            platform_named(config.platform@),
        ),
{
    let (services, execs) = split_trees(&sown.trees);
    can_generate(&services, &execs, config)
}

/// The supervisor specs whose texts planting needs.
pub fn specs_to_plant(sown: &Sown, config: &Config) -> (r: Vec<SuperviseSpec>)
    requires
        generable(
            planted_services(sown.trees.deep_view()),
            planted_execs(sown.trees.deep_view()),
            platform_named(config.platform@),
        ),
    ensures
        r.deep_view() == generated_specs(
            planted_services(sown.trees.deep_view()),
            planted_execs(sown.trees.deep_view()),
            config,
        ),
{
    let (services, execs) = split_trees(&sown.trees);
    specs_to_generate(&services, &execs, config)
}

/// Renders the files of services for launchd.
pub fn render_launchd(
    services: &Vec<Service>,
    exec_sets: &Vec<(usize, ExecSet)>,
    config: &Config,
    host: &Host,
    texts: &Vec<String>,
) -> (r: Vec<Artifact>)
    requires
        indices_fit(exec_sets.deep_view(), services@.len()),
        jobs_fit(services.deep_view(), exec_sets.deep_view()),
        texts@.len() == specs_for(services.deep_view(), exec_sets.deep_view(), config).len(),
    ensures
        r.deep_view() == launchd_artifacts(
            services.deep_view(),
            exec_sets.deep_view(),
            config,
            host,
            texts.deep_view(),
        ),
{
    LaunchdPlatform::new().generate_all(services, exec_sets, config, host, texts)
}

/// Renders the files of services for systemd.
pub fn render_systemd(
    services: &Vec<Service>,
    exec_sets: &Vec<(usize, ExecSet)>,
    config: &Config,
) -> (r: Vec<Artifact>)
    requires
        indices_fit(exec_sets.deep_view(), services@.len()),
    ensures
        r.deep_view() == systemd_artifacts(services.deep_view(), exec_sets.deep_view(), config),
{
    SystemdPlatform::new().generate_all(services, exec_sets, config)
}

/// Renders the files of trees for the platform of the settings. `texts` holds
/// the texts of the specs that [`specs_to_plant`] gives, in order.
pub fn plant(sown: &Sown, config: &Config, host: &Host, texts: &Vec<String>) -> (r: Artifacts)
    requires
        generable(
            planted_services(sown.trees.deep_view()),
            planted_execs(sown.trees.deep_view()),
            platform_named(config.platform@),
        ),
        texts@.len() == generated_specs(
            planted_services(sown.trees.deep_view()),
            planted_execs(sown.trees.deep_view()),
            config,
        ).len(),
    ensures
        r.platform@ == config.platform@,
        r.namespace@ == config.namespace@,
        r.scope@ == (if config.scope == Scope::User {
            "user"@
        } else {
            "system"@
        }),
        r.artifacts.deep_view() == generated(
            planted_services(sown.trees.deep_view()),
            planted_execs(sown.trees.deep_view()),
            config,
            host,
            texts.deep_view(),
        ),
{
    let (services, execs) = split_trees(&sown.trees);
    let artifacts = generate_files(&services, &execs, config, host, texts);
    let scope = if config.scope.is_user() {
        "user".to_string()
    } else {
        "system".to_string()
    };
    Artifacts {
        platform: config.platform.clone(),
        namespace: config.namespace.clone(),
        scope,
        artifacts,
    }
}

// ----- tend -----------------------------------------------------------------

/// What tending does.
#[derive(Debug)]
pub enum TendStep {
    /// Write a file, with the directory it is in.
    Write { path: String, content: String },
    /// Install what was written.
    Install { platform: PlatformKind },
    /// Start all services.
    Start { platform: PlatformKind },
}

#[verifier::ext_equal]
pub enum TendStepView {
    Write { path: Seq<char>, content: Seq<char> },
    Install { platform: PlatformKind },
    Start { platform: PlatformKind },
}

impl View for TendStep {
    type V = TendStepView;

    open spec fn view(&self) -> TendStepView {
        match *self {
            TendStep::Write { path, content } => TendStepView::Write {
                path: path@,
                content: content@,
            },
            TendStep::Install { platform } => TendStepView::Install { platform },
            TendStep::Start { platform } => TendStepView::Start { platform },
        }
    }
}

impl DeepView for TendStep {
    type V = TendStepView;

    open spec fn deep_view(&self) -> TendStepView {
        self@
    }
}

/// The files that tending writes.
pub open spec fn writes(artifacts: Seq<ArtifactView>) -> Seq<TendStepView> {
    artifacts.map_values(
        |a: ArtifactView| TendStepView::Write { path: a.path, content: a.content },
    )
}

/// All that tending does: write every file, install, and start if asked to.
pub open spec fn tend_steps(
    artifacts: Seq<ArtifactView>,
    platform: PlatformKind,
    start: bool,
) -> Seq<TendStepView> {
    writes(artifacts) + seq![TendStepView::Install { platform }] + (if start {
        seq![TendStepView::Start { platform }]
    } else {
        seq![]
    })
}

/// Tends artifacts, on the platform that they were made for.
pub fn tend(arts: &Artifacts, start: bool) -> (r: Vec<TendStep>)
    ensures
        r.deep_view() == tend_steps(
            arts.artifacts.deep_view(),
            platform_named(arts.platform@),
            start,
        ),
{
    let platform = platform_of(arts.platform.as_str());
    let ghost list = arts.artifacts.deep_view();
    let ghost all = writes(list);
    let mut r: Vec<TendStep> = Vec::new();
    let n: usize = arts.artifacts.len();
    assert(r.deep_view() =~= all.take(0));
    for i in 0..n
        invariant
            n == arts.artifacts@.len(),
            list == arts.artifacts.deep_view(),
            all == writes(list),
            r.deep_view() == all.take(i as int),
    {
        let ghost done = r.deep_view();
        assert(list[i as int] == arts.artifacts@[i as int]@);
        r.push(
            TendStep::Write {
                path: arts.artifacts[i].path.clone(),
                content: arts.artifacts[i].content.clone(),
            },
        );
        assert(r.deep_view() =~= done.push(all[i as int]));
        assert(r.deep_view() =~= all.take(i + 1));
    }
    assert(all.take(n as int) == all);
    let ghost done = r.deep_view();
    r.push(TendStep::Install { platform });
    assert(r.deep_view() =~= done.push(TendStepView::Install { platform }));
    if start {
        let ghost mid = r.deep_view();
        r.push(TendStep::Start { platform });
        assert(r.deep_view() =~= mid.push(TendStepView::Start { platform }));
    }
    assert(r.deep_view() =~= tend_steps(list, platform, start));
    r
}

/// Sowing gives only enabled services, and never one of them twice.
pub proof fn law_sown_trees_are_enabled(services: Seq<ServiceView>, g: GatheringView, i: int)
    requires
        gather_valid(services, g),
        0 <= i < trees_of(services, g.exec_sets).len(),
    ensures
        !trees_of(services, g.exec_sets)[i].service.disabled,
        forall|j: int|
            0 <= j < i ==> (#[trigger] g.exec_sets[j]).0 < g.exec_sets[i].0,
{
    assert(in_order(services, g));
    assert(g.exec_sets[i].0 < g.next);
    assert(trees_of(services, g.exec_sets)[i].service == services[g.exec_sets[i].0 as int]);
}

/// Nothing is installed before every file is written, and nothing is started
/// before it is installed.
pub proof fn law_tend_writes_before_it_starts(
    artifacts: Seq<ArtifactView>,
    platform: PlatformKind,
    i: int,
    j: int,
)
    requires
        0 <= i < tend_steps(artifacts, platform, true).len(),
        0 <= j < tend_steps(artifacts, platform, true).len(),
    ensures
        tend_steps(artifacts, platform, true)[i] is Write && tend_steps(
            artifacts,
            platform,
            true,
        )[j] is Install ==> i < j,
        tend_steps(artifacts, platform, true)[i] is Install && tend_steps(
            artifacts,
            platform,
            true,
        )[j] is Start ==> i < j,
{
    let steps = tend_steps(artifacts, platform, true);
    let n = artifacts.len() as int;
    assert(forall|k: int| 0 <= k < n ==> #[trigger] steps[k] is Write);
    assert(steps[n] is Install);
    assert(steps[n + 1] is Start);
}

/// Without a co-process to ask, sowing goes through to the end: every service is
/// accounted for.
pub proof fn law_sowing_ends(services: Seq<ServiceView>, runtime: &AnyRuntime, g: GatheringView)
    requires
        0 <= g.next <= services.len(),
        forall|i: int| 0 <= i < services.len() ==> !must_ask(runtime, #[trigger] services[i]),
    ensures
        sown_on(services, runtime, g).next == services.len(),
    decreases services.len() - g.next,
{
    if g.next < services.len() {
        lemma_gather_moves(services, runtime, g);
        law_sowing_ends(services, runtime, gather_prepared(services, runtime, g, Ok(())));
    }
}

} // verus!
