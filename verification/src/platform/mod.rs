//! The init systems that run services.

pub mod launchd;
pub mod laws;
pub mod orchdi;
pub mod status;
pub mod systemd;

use crate::collections::StringMap;
use crate::config::Config;
use crate::exec::{ExecSet, ExecSetView};
use crate::orchard::{render_launchd, render_systemd, Artifact, ArtifactView};
use crate::orchdi::{SuperviseSpec, SuperviseSpecView};
use crate::paths::under;
use crate::text::chars::same_text;
use crate::text::number::{decimal, push_decimal};
use crate::types::{Service, ServiceView};
use vstd::prelude::*;

verus! {

/// Errors from platform operations.
#[derive(Debug)]
pub enum PlatformError {
    /// Platform prerequisites not met.
    PrerequisiteMissing(String),
    /// Failed to generate artifacts.
    GenerationFailed(String),
    /// Failed to install artifacts.
    InstallFailed(String),
    /// Failed to start, stop or query services.
    LifecycleFailed(String),
    /// Input or output failed.
    Io(String),
    /// Any other error.
    Other(String),
}

#[verifier::ext_equal]
pub enum PlatformErrorView {
    PrerequisiteMissing(Seq<char>),
    GenerationFailed(Seq<char>),
    InstallFailed(Seq<char>),
    LifecycleFailed(Seq<char>),
    Io(Seq<char>),
    Other(Seq<char>),
}

impl View for PlatformError {
    type V = PlatformErrorView;

    open spec fn view(&self) -> PlatformErrorView {
        match *self {
            PlatformError::PrerequisiteMissing(s) => PlatformErrorView::PrerequisiteMissing(s@),
            PlatformError::GenerationFailed(s) => PlatformErrorView::GenerationFailed(s@),
            PlatformError::InstallFailed(s) => PlatformErrorView::InstallFailed(s@),
            PlatformError::LifecycleFailed(s) => PlatformErrorView::LifecycleFailed(s@),
            PlatformError::Io(s) => PlatformErrorView::Io(s@),
            PlatformError::Other(s) => PlatformErrorView::Other(s@),
        }
    }
}

/// What a platform error says.
pub open spec fn platform_message(e: PlatformErrorView) -> Seq<char> {
    match e {
        PlatformErrorView::PrerequisiteMissing(s) => "prerequisite missing: "@ + s,
        PlatformErrorView::GenerationFailed(s) => "generation failed: "@ + s,
        PlatformErrorView::InstallFailed(s) => "install failed: "@ + s,
        PlatformErrorView::LifecycleFailed(s) => "lifecycle failed: "@ + s,
        PlatformErrorView::Io(s) => "I/O error: "@ + s,
        PlatformErrorView::Other(s) => s,
    }
}

impl PlatformError {
    /// What the error says.
    pub fn message(&self) -> (r: String)
        ensures
            r@ == platform_message(self@),
    {
        match self {
            PlatformError::PrerequisiteMissing(s) => {
                let mut r = "prerequisite missing: ".to_string();
                r.append(s.as_str());
                r
            },
            PlatformError::GenerationFailed(s) => {
                let mut r = "generation failed: ".to_string();
                r.append(s.as_str());
                r
            },
            PlatformError::InstallFailed(s) => {
                let mut r = "install failed: ".to_string();
                r.append(s.as_str());
                r
            },
            PlatformError::LifecycleFailed(s) => {
                let mut r = "lifecycle failed: ".to_string();
                r.append(s.as_str());
                r
            },
            PlatformError::Io(s) => {
                let mut r = "I/O error: ".to_string();
                r.append(s.as_str());
                r
            },
            PlatformError::Other(s) => s.clone(),
        }
    }
}

/// What a platform has to know of the machine it renders for.
#[derive(Debug)]
pub struct Host {
    /// The home directory, if it is set.
    pub home: Option<String>,
    /// The path of this program, if it can be told.
    pub exe: Option<String>,
    /// The texts of the environment files that can be read, by their paths.
    pub files: StringMap,
}

/// The value, or a default.
pub open spec fn value_or(o: Option<Seq<char>>, default: Seq<char>) -> Seq<char> {
    match o {
        Some(s) => s,
        None => default,
    }
}

/// The value, or a default.
pub fn get_or(o: &Option<String>, default: &str) -> (r: String)
    ensures
        r@ == value_or(o.deep_view(), default@),
{
    match o {
        Some(s) => s.clone(),
        None => default.to_string(),
    }
}

/// Whether the commands belong to services of the list.
pub open spec fn indices_fit(exec_sets: Seq<(usize, ExecSetView)>, count: nat) -> bool {
    forall|i: int| 0 <= i < exec_sets.len() ==> (#[trigger] exec_sets[i]).0 < count
}

/// A command to run.
#[derive(Debug)]
pub struct Invocation {
    pub program: String,
    pub args: Vec<String>,
}

#[verifier::ext_equal]
pub struct InvocationView {
    pub program: Seq<char>,
    pub args: Seq<Seq<char>>,
}

impl View for Invocation {
    type V = InvocationView;

    open spec fn view(&self) -> InvocationView {
        InvocationView { program: self.program@, args: self.args.deep_view() }
    }
}

impl DeepView for Invocation {
    type V = InvocationView;

    open spec fn deep_view(&self) -> InvocationView {
        self@
    }
}

/// What came of running a command.
#[derive(Debug)]
pub enum Outcome {
    /// It could not be run, for the reason given.
    NotRun(String),
    /// It ended.
    Ended { success: bool, code: Option<i32>, stdout: String, stderr: String },
}

#[verifier::ext_equal]
pub enum OutcomeView {
    NotRun(Seq<char>),
    Ended { success: bool, code: Option<i32>, stdout: Seq<char>, stderr: Seq<char> },
}

impl View for Outcome {
    type V = OutcomeView;

    open spec fn view(&self) -> OutcomeView {
        match *self {
            Outcome::NotRun(e) => OutcomeView::NotRun(e@),
            Outcome::Ended { success, code, stdout, stderr } => OutcomeView::Ended {
                success,
                code,
                stdout: stdout@,
                stderr: stderr@,
            },
        }
    }
}

/// Whether a command ran and succeeded.
pub open spec fn succeeded(outcome: OutcomeView) -> bool {
    outcome matches OutcomeView::Ended { success, .. } && success
}

impl Outcome {
    /// Whether the command ran and succeeded.
    pub fn succeeded(&self) -> (r: bool)
        ensures
            r == succeeded(self@),
    {
        match self {
            Outcome::NotRun(_) => false,
            Outcome::Ended { success, .. } => *success,
        }
    }
}

/// A number of either sign in decimal.
pub open spec fn signed_decimal(n: int) -> Seq<char> {
    if n < 0 {
        "-"@ + decimal((-n) as nat)
    } else {
        decimal(n as nat)
    }
}

/// Writes a number of either sign.
pub fn push_signed(out: &mut String, n: i32)
    ensures
        final(out)@ == old(out)@ + signed_decimal(n as int),
{
    let ghost before = out@;
    if n < 0 {
        out.append("-");
        push_decimal(out, (0 - n as i64) as u64);
        assert(out@ =~= before + signed_decimal(n as int));
    } else {
        push_decimal(out, n as u64);
    }
}

/// The exit code as it is reported: -1 where there is none.
pub open spec fn shown_code(code: Option<i32>) -> int {
    match code {
        Some(c) => c as int,
        None => -1,
    }
}

/// The result of a command that tails logs: it must run and succeed.
pub open spec fn tail_result(program: Seq<char>, outcome: OutcomeView) -> Result<
    (),
    PlatformErrorView,
> {
    match outcome {
        OutcomeView::NotRun(e) => Err(PlatformErrorView::LifecycleFailed(program + ": "@ + e)),
        OutcomeView::Ended { success, code, .. } => if success {
            Ok(())
        } else {
            Err(
                PlatformErrorView::LifecycleFailed(
                    program + " exited with code "@ + signed_decimal(shown_code(code)),
                ),
            )
        },
    }
}

/// A result with the view of its error.
pub open spec fn result_view(r: Result<(), PlatformError>) -> Result<(), PlatformErrorView> {
    match r {
        Ok(_) => Ok(()),
        Err(e) => Err(e@),
    }
}

/// Judges a command that tails logs.
pub fn judge_tail(program: &str, outcome: &Outcome) -> (r: Result<(), PlatformError>)
    ensures
        result_view(r) == tail_result(program@, outcome@),
{
    match outcome {
        Outcome::NotRun(e) => {
            let mut m = program.to_string();
            m.append(": ");
            m.append(e.as_str());
            Err(PlatformError::LifecycleFailed(m))
        },
        Outcome::Ended { success, code, .. } => {
            if *success {
                return Ok(());
            }
            let shown: i32 = match code {
                Some(c) => *c,
                None => -1,
            };
            let mut m = program.to_string();
            m.append(" exited with code ");
            push_signed(&mut m, shown);
            Err(PlatformError::LifecycleFailed(m))
        },
    }
}

/// Why the status of a platform cannot be told: its units cannot be listed.
pub open spec fn unreadable_units(units_dir: Seq<char>, reason: Seq<char>) -> PlatformErrorView {
    PlatformErrorView::LifecycleFailed(
        "cannot read units directory '"@ + units_dir + "': "@ + reason
            + ". Run 'orchd generate' first."@,
    )
}

/// Reports that the units cannot be listed.
pub fn cannot_read_units(config: &Config, reason: &str) -> (r: PlatformError)
    ensures
        r@ == unreadable_units(under(config.state_dir@, "units"@), reason@),
{
    let mut m = "cannot read units directory '".to_string();
    m.append(config.units_dir().as_str());
    m.append("': ");
    m.append(reason);
    m.append(". Run 'orchd generate' first.");
    PlatformError::LifecycleFailed(m)
}

/// A file and the place it is put.
#[derive(Debug)]
pub struct Placement {
    pub from: String,
    pub to: String,
}

#[verifier::ext_equal]
pub struct PlacementView {
    pub from: Seq<char>,
    pub to: Seq<char>,
}

impl View for Placement {
    type V = PlacementView;

    open spec fn view(&self) -> PlacementView {
        PlacementView { from: self.from@, to: self.to@ }
    }
}

impl DeepView for Placement {
    type V = PlacementView;

    open spec fn deep_view(&self) -> PlacementView {
        self@
    }
}

/// Something that is undone when a platform is cleaned. Whether it succeeds does
/// not matter.
#[derive(Debug)]
pub enum Removal {
    /// Run this command.
    Call { call: Invocation },
    /// Remove this file.
    File { path: String },
    /// Remove this directory if there is nothing in it.
    EmptyDirectory { path: String },
}

#[verifier::ext_equal]
pub enum RemovalView {
    Call { call: InvocationView },
    File { path: Seq<char> },
    EmptyDirectory { path: Seq<char> },
}

impl View for Removal {
    type V = RemovalView;

    open spec fn view(&self) -> RemovalView {
        match *self {
            Removal::Call { call } => RemovalView::Call { call: call@ },
            Removal::File { path } => RemovalView::File { path: path@ },
            Removal::EmptyDirectory { path } => RemovalView::EmptyDirectory { path: path@ },
        }
    }
}

impl DeepView for Removal {
    type V = RemovalView;

    open spec fn deep_view(&self) -> RemovalView {
        self@
    }
}

/// The error for a file that could not be put in its place.
pub open spec fn misplaced(verb: Seq<char>, p: PlacementView, reason: Seq<char>) -> PlatformErrorView {
    PlatformErrorView::InstallFailed(verb + p.from + " -> "@ + p.to + ": "@ + reason)
}

/// Reports that a file could not be put in its place.
pub fn not_placed(verb: &str, p: &Placement, reason: &str) -> (r: PlatformError)
    ensures
        r@ == misplaced(verb@, p@, reason@),
{
    let mut m = verb.to_string();
    m.append(p.from.as_str());
    m.append(" -> ");
    m.append(p.to.as_str());
    m.append(": ");
    m.append(reason);
    PlatformError::InstallFailed(m)
}

/// The platforms.
#[derive(Debug, Clone, Copy, PartialEq, Eq, Structural)]
pub enum PlatformKind {
    Systemd,
    Launchd,
    Orchdi,
}

/// The platform of a name: systemd unless the name is another's.
pub open spec fn platform_named(name: Seq<char>) -> PlatformKind {
    if name == "launchd"@ {
        PlatformKind::Launchd
    } else if name == "orchdi"@ {
        PlatformKind::Orchdi
    } else {
        PlatformKind::Systemd
    }
}

/// The platform of a name.
pub fn platform_of(name: &str) -> (r: PlatformKind)
    ensures
        r == platform_named(name@),
{
    if same_text(name, "launchd") {
        PlatformKind::Launchd
    } else if same_text(name, "orchdi") {
        PlatformKind::Orchdi
    } else {
        PlatformKind::Systemd
    }
}

/// Whether the files of services can be generated: the durations that are read
/// can be counted. Only the platforms with a supervisor count any.
pub open spec fn generable(
    services: Seq<ServiceView>,
    exec_sets: Seq<(usize, ExecSetView)>,
    platform: PlatformKind,
) -> bool {
    match platform {
        PlatformKind::Launchd => launchd::jobs_fit(services, exec_sets),
        PlatformKind::Orchdi => orchdi::specs_fit(services, exec_sets),
        PlatformKind::Systemd => true,
    }
}

/// The supervisor specs whose texts are needed to generate the files of
/// services.
pub open spec fn generated_specs(
    services: Seq<ServiceView>,
    exec_sets: Seq<(usize, ExecSetView)>,
    config: &Config,
) -> Seq<SuperviseSpecView> {
    match platform_named(config.platform@) {
        PlatformKind::Launchd => launchd::specs_for(services, exec_sets, config),
        PlatformKind::Orchdi => orchdi::all_specs(services, exec_sets, config),
        PlatformKind::Systemd => Seq::empty(),
    }
}

/// The files of services on the platform of the settings. `texts` holds the
/// texts of the supervisor specs in order.
pub open spec fn generated(
    services: Seq<ServiceView>,
    exec_sets: Seq<(usize, ExecSetView)>,
    config: &Config,
    host: &Host,
    texts: Seq<Seq<char>>,
) -> Seq<ArtifactView> {
    match platform_named(config.platform@) {
        PlatformKind::Launchd => launchd::launchd_artifacts(
            services,
            exec_sets,
            config,
            host,
            texts,
        ),
        PlatformKind::Orchdi => orchdi::orchdi_artifacts(services, exec_sets, config, texts),
        PlatformKind::Systemd => systemd::systemd_artifacts(services, exec_sets, config),
    }
}

/// Tells whether the files of services can be generated.
pub fn can_generate(
    services: &Vec<Service>,
    exec_sets: &Vec<(usize, ExecSet)>,
    config: &Config,
) -> (r: bool)
    requires
        indices_fit(exec_sets.deep_view(), services@.len()),
    ensures
        r == generable(
            services.deep_view(),
            exec_sets.deep_view(),
            platform_named(config.platform@),
        ),
{
    match platform_of(config.platform.as_str()) {
        PlatformKind::Launchd => launchd::check_jobs(services, exec_sets),
        PlatformKind::Orchdi => orchdi::check_specs(services, exec_sets),
        PlatformKind::Systemd => true,
    }
}

/// Builds the supervisor specs whose texts are needed to generate the files of
/// services.
pub fn specs_to_generate(
    services: &Vec<Service>,
    exec_sets: &Vec<(usize, ExecSet)>,
    config: &Config,
) -> (r: Vec<SuperviseSpec>)
    requires
        indices_fit(exec_sets.deep_view(), services@.len()),
        generable(
            services.deep_view(),
            exec_sets.deep_view(),
            platform_named(config.platform@),
        ),
    ensures
        r.deep_view() == generated_specs(services.deep_view(), exec_sets.deep_view(), config),
{
    match platform_of(config.platform.as_str()) {
        PlatformKind::Launchd => launchd::supervise_specs(services, exec_sets, config),
        PlatformKind::Orchdi => orchdi::supervise_specs(services, exec_sets, config),
        PlatformKind::Systemd => {
            let none: Vec<SuperviseSpec> = Vec::new();
            assert(none.deep_view() =~= Seq::<SuperviseSpecView>::empty());
            none
        },
    }
}

/// Generates the files of services on the platform of the settings. `texts`
/// holds the texts of the specs that [`specs_to_generate`] builds, in order.
pub fn generate_files(
    services: &Vec<Service>,
    exec_sets: &Vec<(usize, ExecSet)>,
    config: &Config,
    host: &Host,
    texts: &Vec<String>,
) -> (r: Vec<Artifact>)
    requires
        indices_fit(exec_sets.deep_view(), services@.len()),
        generable(
            services.deep_view(),
            exec_sets.deep_view(),
            platform_named(config.platform@),
        ),
        texts@.len() == generated_specs(
            services.deep_view(),
            exec_sets.deep_view(),
            config,
        ).len(),
    ensures
        r.deep_view() == generated(
            services.deep_view(),
            exec_sets.deep_view(),
            config,
            host,
            texts.deep_view(),
        ),
{
    match platform_of(config.platform.as_str()) {
        PlatformKind::Launchd => render_launchd(services, exec_sets, config, host, texts),
        PlatformKind::Orchdi => orchdi::OrchdiPlatform::new().generate_all(
            services,
            exec_sets,
            config,
            texts,
        ),
        PlatformKind::Systemd => render_systemd(services, exec_sets, config),
    }
}

} // verus!
