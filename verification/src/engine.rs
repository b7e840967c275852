//! The engine: from an Orchfile to running services.

use crate::collections::clone_list;
use crate::config::Config;
use crate::exec::{ExecSet, ExecSetView};
use crate::paths::{extension, extension_of, join, under};
use crate::platform::{
    platform_message, platform_named, platform_of, push_signed, shown_code, signed_decimal,
    Invocation, InvocationView, PlatformError, PlatformErrorView, PlatformKind,
};
use crate::runtime::{
    commands_of, exec_result, must_ask, runtime_message, AnyRuntime, RuntimeError,
    RuntimeErrorView,
};
use crate::text::chars::{chars_of, same_text, string_of_range};
use crate::text::scan::{
    find, find_from, lemma_find_first, lemma_find_none, lemma_find_range, trim, trimmed,
};
use crate::types::{OrchFile, Service, ServiceView};
use vstd::prelude::*;

verus! {

/// Errors of the engine.
#[derive(Debug)]
pub enum EngineError {
    /// `orch parse` failed.
    OrchParse(String),
    /// What `orch parse` wrote is no Orchfile.
    JsonDeserialize(String),
    /// A runtime failed.
    Runtime(RuntimeError),
    /// A platform failed.
    Platform(PlatformError),
}

#[verifier::ext_equal]
pub enum EngineErrorView {
    OrchParse(Seq<char>),
    JsonDeserialize(Seq<char>),
    Runtime(RuntimeErrorView),
    Platform(PlatformErrorView),
}

impl View for EngineError {
    type V = EngineErrorView;

    open spec fn view(&self) -> EngineErrorView {
        match *self {
            EngineError::OrchParse(s) => EngineErrorView::OrchParse(s@),
            EngineError::JsonDeserialize(s) => EngineErrorView::JsonDeserialize(s@),
            EngineError::Runtime(e) => EngineErrorView::Runtime(e@),
            EngineError::Platform(e) => EngineErrorView::Platform(e@),
        }
    }
}

/// What an engine error says.
pub open spec fn engine_message(e: EngineErrorView) -> Seq<char> {
    match e {
        EngineErrorView::OrchParse(s) => "orch parse failed: "@ + s,
        EngineErrorView::JsonDeserialize(s) => "JSON deserialization failed: "@ + s,
        EngineErrorView::Runtime(e) => "runtime error: "@ + runtime_message(e),
        EngineErrorView::Platform(e) => "platform error: "@ + platform_message(e),
    }
}

impl EngineError {
    /// What the error says.
    pub fn message(&self) -> (r: String)
        ensures
            r@ == engine_message(self@),
    {
        match self {
            EngineError::OrchParse(s) => {
                let mut r = "orch parse failed: ".to_string();
                r.append(s.as_str());
                r
            },
            EngineError::JsonDeserialize(s) => {
                let mut r = "JSON deserialization failed: ".to_string();
                r.append(s.as_str());
                r
            },
            EngineError::Runtime(e) => {
                let mut r = "runtime error: ".to_string();
                r.append(e.message().as_str());
                r
            },
            EngineError::Platform(e) => {
                let mut r = "platform error: ".to_string();
                r.append(e.message().as_str());
                r
            },
        }
    }
}

impl From<RuntimeError> for EngineError {
    fn from(e: RuntimeError) -> (r: Self) {
        EngineError::Runtime(e)
    }
}

impl vstd::std_specs::convert::FromSpecImpl<RuntimeError> for EngineError {
    open spec fn obeys_from_spec() -> bool {
        true
    }

    open spec fn from_spec(e: RuntimeError) -> Self {
        EngineError::Runtime(e)
    }
}

impl From<PlatformError> for EngineError {
    fn from(e: PlatformError) -> (r: Self) {
        EngineError::Platform(e)
    }
}

impl vstd::std_specs::convert::FromSpecImpl<PlatformError> for EngineError {
    open spec fn obeys_from_spec() -> bool {
        true
    }

    open spec fn from_spec(e: PlatformError) -> Self {
        EngineError::Platform(e)
    }
}

// ----- freshness ------------------------------------------------------------

/// A file of the directory of artifacts with its time of change, if it can be told.
#[derive(Debug)]
pub struct UnitFile {
    pub name: String,
    pub modified: Option<i128>,
}

#[verifier::ext_equal]
pub struct UnitFileView {
    pub name: Seq<char>,
    pub modified: Option<i128>,
}

impl View for UnitFile {
    type V = UnitFileView;

    open spec fn view(&self) -> UnitFileView {
        UnitFileView { name: self.name@, modified: self.modified }
    }
}

impl DeepView for UnitFile {
    type V = UnitFileView;

    open spec fn deep_view(&self) -> UnitFileView {
        self@
    }
}

/// The times of change of a run's inputs and outputs, in nanoseconds.
#[derive(Debug)]
pub struct Stamps {
    /// The Orchfile, if its time can be told.
    pub orchfile: Option<i128>,
    /// The overlays, each if its time can be told.
    pub overlays: Vec<Option<i128>>,
    /// The files of the directory that [`artifacts_dir`] names, if it can be
    /// listed.
    pub units: Option<Vec<UnitFile>>,
}

/// The latest of the times that can be told.
pub open spec fn newest(first: i128, others: Seq<Option<i128>>) -> i128
    decreases others.len(),
{
    if others.len() == 0 {
        first
    } else {
        let before = newest(first, others.drop_last());
        match others.last() {
            Some(t) => if t > before {
                t
            } else {
                before
            },
            None => before,
        }
    }
}

/// Whether a file is one that is generated for a platform: a unit or target, a
/// property list, or a supervisor spec.
pub open spec fn is_artifact(platform: PlatformKind, name: Seq<char>) -> bool {
    match platform {
        PlatformKind::Systemd => extension(name) == Some("service"@) || extension(name) == Some(
            "target"@,
        ),
        PlatformKind::Launchd => extension(name) == Some("plist"@),
        PlatformKind::Orchdi => extension(name) == Some("json"@),
    }
}

/// The directory that holds the files that tell whether a platform is up to
/// date.
pub open spec fn artifacts_dir_of(platform: PlatformKind, state_dir: Seq<char>) -> Seq<char> {
    match platform {
        PlatformKind::Orchdi => under(state_dir, "supervise"@),
        _ => under(state_dir, "units"@),
    }
}

/// The directory that holds the files that tell whether the platform of the
/// settings is up to date.
pub fn artifacts_dir(config: &Config) -> (r: String)
    ensures
        r@ == artifacts_dir_of(platform_named(config.platform@), config.state_dir@),
{
    match platform_of(config.platform.as_str()) {
        PlatformKind::Orchdi => join(config.state_dir.as_str(), "supervise"),
        _ => config.units_dir(),
    }
}

/// Whether a file is not older than a time, if it is one that is generated.
pub open spec fn not_older(platform: PlatformKind, file: UnitFileView, time: i128) -> bool {
    is_artifact(platform, file.name) ==> (file.modified matches Some(t) && t >= time)
}

/// Whether nothing has to be generated: there are generated files, and none of
/// them is older than the Orchfile or an overlay. What cannot be told counts as
/// old.
pub open spec fn up_to_date(
    platform: PlatformKind,
    orchfile: Option<i128>,
    overlays: Seq<Option<i128>>,
    units: Option<Seq<UnitFileView>>,
) -> bool {
    match (orchfile, units) {
        (Some(first), Some(files)) => {
            &&& exists|i: int|
                0 <= i < files.len() && is_artifact(platform, (#[trigger] files[i]).name)
            &&& forall|i: int|
                0 <= i < files.len() ==> not_older(
                    platform,
                    #[trigger] files[i],
                    newest(first, overlays),
                )
        },
        _ => false,
    }
}

fn check_artifact(platform: PlatformKind, name: &str) -> (r: bool)
    ensures
        r == is_artifact(platform, name@),
{
    match extension_of(name) {
        Some(e) => match platform {
            PlatformKind::Systemd => same_text(e.as_str(), "service") || same_text(
                e.as_str(),
                "target",
            ),
            PlatformKind::Launchd => same_text(e.as_str(), "plist"),
            PlatformKind::Orchdi => same_text(e.as_str(), "json"),
        },
        None => false,
    }
}

fn newest_of(first: i128, others: &Vec<Option<i128>>) -> (r: i128)
    ensures
        r == newest(first, others@),
{
    let mut r: i128 = first;
    let n: usize = others.len();
    assert(others@.take(0).len() == 0);
    for i in 0..n
        invariant
            n == others@.len(),
            r == newest(first, others@.take(i as int)),
    {
        assert(others@.take(i + 1).drop_last() == others@.take(i as int));
        assert(others@.take(i + 1).last() == others@[i as int]);
        if let Some(t) = others[i] {
            if t > r {
                r = t;
            }
        }
    }
    assert(others@.take(n as int) == others@);
    r
}

/// Tells whether the files that are generated for a platform are newer than
/// everything they are made from.
pub fn is_up_to_date(platform: PlatformKind, stamps: &Stamps) -> (r: bool)
    ensures
        r == up_to_date(platform, stamps.orchfile, stamps.overlays@, stamps.units.deep_view()),
{
    let first: i128 = match stamps.orchfile {
        Some(t) => t,
        None => {
            return false;
        },
    };
    let files = match &stamps.units {
        Some(f) => f,
        None => {
            return false;
        },
    };
    let time = newest_of(first, &stamps.overlays);
    let ghost all = files.deep_view();
    let n: usize = files.len();
    let mut has_files = false;
    for i in 0..n
        invariant
            n == files@.len(),
            all == files.deep_view(),
            stamps.orchfile == Some(first),
            stamps.units.deep_view() == Some(all),
            time == newest(first, stamps.overlays@),
            has_files == exists|j: int|
                0 <= j < i && is_artifact(platform, (#[trigger] all[j]).name),
            forall|j: int| 0 <= j < i ==> not_older(platform, #[trigger] all[j], time),
    {
        assert(all[i as int] == files@[i as int]@);
        if check_artifact(platform, files[i].name.as_str()) {
            let ghost found = all[i as int];
            assert(is_artifact(platform, found.name));
            has_files = true;
            match files[i].modified {
                Some(t) => {
                    if t < time {
                        assert(!not_older(platform, all[i as int], time));
                        return false;
                    }
                },
                None => {
                    assert(!not_older(platform, all[i as int], time));
                    return false;
                },
            }
        }
    }
    has_files
}

proof fn lemma_newest(first: i128, others: Seq<Option<i128>>)
    ensures
        newest(first, others) >= first,
        forall|i: int|
            0 <= i < others.len() ==> (#[trigger] others[i] matches Some(t) ==> newest(
                first,
                others,
            ) >= t),
    decreases others.len(),
{
    if others.len() > 0 {
        lemma_newest(first, others.drop_last());
        assert forall|i: int| 0 <= i < others.len() implies (#[trigger] others[i] matches Some(t)
            ==> newest(first, others) >= t) by {
            if i < others.len() - 1 {
                assert(others.drop_last()[i] == others[i]);
            }
        }
    }
}

/// Every change counts: once the Orchfile or any overlay is newer than any of the
/// files that were generated, these are out of date.
pub proof fn law_changes_are_noticed(
    platform: PlatformKind,
    orchfile: i128,
    overlays: Seq<Option<i128>>,
    files: Seq<UnitFileView>,
    i: int,
    input: i128,
)
    requires
        input == orchfile || overlays.contains(Some(input)),
        0 <= i < files.len(),
        is_artifact(platform, files[i].name),
        files[i].modified matches Some(t) ==> t < input,
    ensures
        !up_to_date(platform, Some(orchfile), overlays, Some(files)),
{
    lemma_newest(orchfile, overlays);
    assert(newest(orchfile, overlays) >= input);
    assert(!not_older(platform, files[i], newest(orchfile, overlays)));
}

// ----- orch parse -----------------------------------------------------------

/// Where the declarations of orchd's own variables are written.
pub open spec fn vars_path(state_dir: Seq<char>) -> Seq<char> {
    under(under(state_dir, "tmp"@), "orchd-vars.orch"@)
}

/// The declarations of orchd's own variables, which Orchfiles may refer to.
pub open spec fn vars_text(
    data_dir: Seq<char>,
    project_dir: Seq<char>,
    state_dir: Seq<char>,
) -> Seq<char> {
    "# Auto-generated by orchd — built-in variable declarations\nARG ORCH_DATA="@ + data_dir
        + "\nARG ORCH_PROJECT="@ + project_dir + "\nARG ORCH_STATE_DIR="@ + state_dir
        + "\nARG ORCH_CONTAINERS_DIR="@ + project_dir + "\n"@
}

/// The declarations of orchd's own variables, and where they are written.
pub fn write_vars_overlay(config: &Config) -> (r: (String, String))
    ensures
        r.0@ == vars_path(config.state_dir@),
        r.1@ == vars_text(config.data_dir@, config.project_dir@, config.state_dir@),
{
    let dir = join(config.state_dir.as_str(), "tmp");
    let path = join(dir.as_str(), "orchd-vars.orch");
    let mut text =
        "# Auto-generated by orchd — built-in variable declarations\nARG ORCH_DATA=".to_string();
    text.append(config.data_dir.as_str());
    text.append("\nARG ORCH_PROJECT=");
    text.append(config.project_dir.as_str());
    text.append("\nARG ORCH_STATE_DIR=");
    text.append(config.state_dir.as_str());
    text.append("\nARG ORCH_CONTAINERS_DIR=");
    text.append(config.project_dir.as_str());
    text.append("\n");
    (path, text)
}

/// Arguments, each behind a flag.
pub open spec fn flagged(flag: Seq<char>, args: Seq<Seq<char>>) -> Seq<Seq<char>>
    decreases args.len(),
{
    if args.len() == 0 {
        Seq::empty()
    } else {
        flagged(flag, args.drop_last()).push(flag).push(args.last())
    }
}

/// The arguments of `orch parse`. The declarations of orchd's own variables
/// precede the overlays, so that overlays can override them.
pub open spec fn parse_args(
    orchfile: Seq<char>,
    vars: Seq<char>,
    overlays: Seq<Seq<char>>,
    args: Seq<Seq<char>>,
) -> Seq<Seq<char>> {
    seq!["parse"@, orchfile, vars] + overlays + flagged("--arg"@, args)
}

/// The call of `orch parse`.
pub fn call_orch_parse(config: &Config) -> (r: Invocation)
    ensures
        r@ == (InvocationView {
            program: config.orch_bin@,
            args: parse_args(
                config.orchfile@,
                vars_path(config.state_dir@),
                config.overlays.deep_view(),
                config.args.deep_view(),
            ),
        }),
{
    let (vars, _text) = write_vars_overlay(config);
    let mut argv: Vec<String> = Vec::new();
    argv.push("parse".to_string());
    argv.push(config.orchfile.clone());
    argv.push(vars);
    let ghost head = seq!["parse"@, config.orchfile@, vars_path(config.state_dir@)];
    let ghost overlays = config.overlays.deep_view();
    let ghost args = config.args.deep_view();
    assert(argv.deep_view() =~= head);
    let n: usize = config.overlays.len();
    assert(argv.deep_view() =~= head + overlays.take(0));
    for i in 0..n
        invariant
            n == config.overlays@.len(),
            overlays == config.overlays.deep_view(),
            argv.deep_view() == head + overlays.take(i as int),
    {
        let ghost done = argv.deep_view();
        argv.push(config.overlays[i].clone());
        assert(argv.deep_view() =~= done.push(overlays[i as int]));
        assert(argv.deep_view() =~= head + overlays.take(i + 1));
    }
    assert(overlays.take(n as int) == overlays);
    let ghost mid = argv.deep_view();
    let m: usize = config.args.len();
    assert(argv.deep_view() =~= mid + flagged("--arg"@, args.take(0)));
    for i in 0..m
        invariant
            m == config.args@.len(),
            args == config.args.deep_view(),
            argv.deep_view() == mid + flagged("--arg"@, args.take(i as int)),
    {
        let ghost done = argv.deep_view();
        assert(args.take(i + 1).drop_last() == args.take(i as int));
        assert(args.take(i + 1).last() == config.args@[i as int]@);
        argv.push("--arg".to_string());
        argv.push(config.args[i].clone());
        assert(argv.deep_view() =~= done.push("--arg"@).push(args[i as int]));
        assert(argv.deep_view() =~= mid + flagged("--arg"@, args.take(i + 1)));
    }
    assert(args.take(m as int) == args);
    Invocation { program: config.orch_bin.clone(), args: argv }
}

/// What came of `orch parse`.
#[derive(Debug)]
pub enum ParseOutcome {
    /// The directory for the declarations could not be made.
    NoDirectory(String),
    /// The declarations could not be written.
    NotWritten(String),
    /// The program could not be run.
    NotRun(String),
    /// It failed.
    Failed { code: Option<i32>, stderr: String },
    /// Its output is not text.
    NotText(String),
    /// It wrote this.
    Text(String),
}

#[verifier::ext_equal]
pub enum ParseOutcomeView {
    NoDirectory(Seq<char>),
    NotWritten(Seq<char>),
    NotRun(Seq<char>),
    Failed { code: Option<i32>, stderr: Seq<char> },
    NotText(Seq<char>),
    Text(Seq<char>),
}

impl View for ParseOutcome {
    type V = ParseOutcomeView;

    open spec fn view(&self) -> ParseOutcomeView {
        match *self {
            ParseOutcome::NoDirectory(e) => ParseOutcomeView::NoDirectory(e@),
            ParseOutcome::NotWritten(e) => ParseOutcomeView::NotWritten(e@),
            ParseOutcome::NotRun(e) => ParseOutcomeView::NotRun(e@),
            ParseOutcome::Failed { code, stderr } => ParseOutcomeView::Failed {
                code,
                stderr: stderr@,
            },
            ParseOutcome::NotText(e) => ParseOutcomeView::NotText(e@),
            ParseOutcome::Text(s) => ParseOutcomeView::Text(s@),
        }
    }
}

/// The output of `orch parse`, or the error that its failure is.
pub open spec fn parsed(orch_bin: Seq<char>, outcome: ParseOutcomeView) -> Result<
    Seq<char>,
    EngineErrorView,
> {
    match outcome {
        ParseOutcomeView::NoDirectory(e) => Err(
            EngineErrorView::OrchParse("failed to create tmp dir: "@ + e),
        ),
        ParseOutcomeView::NotWritten(e) => Err(
            EngineErrorView::OrchParse("failed to write vars overlay: "@ + e),
        ),
        ParseOutcomeView::NotRun(e) => Err(
            EngineErrorView::OrchParse("failed to execute '"@ + orch_bin + "': "@ + e),
        ),
        ParseOutcomeView::Failed { code, stderr } => Err(
            EngineErrorView::OrchParse(
                "exit code "@ + signed_decimal(shown_code(code)) + ": "@ + trimmed(stderr),
            ),
        ),
        ParseOutcomeView::NotText(e) => Err(
            EngineErrorView::OrchParse("invalid UTF-8 in orch output: "@ + e),
        ),
        ParseOutcomeView::Text(s) => Ok(s),
    }
}

fn parse_failed(what: &str, e: &str) -> (r: EngineError)
    ensures
        r@ == EngineErrorView::OrchParse(what@ + e@),
{
    let mut m = what.to_string();
    m.append(e);
    EngineError::OrchParse(m)
}

/// Judges `orch parse`.
pub fn judge_parse(config: &Config, outcome: &ParseOutcome) -> (r: Result<String, EngineError>)
    ensures
        match r {
            Ok(s) => parsed(config.orch_bin@, outcome@) == Ok::<Seq<char>, EngineErrorView>(s@),
            Err(e) => parsed(config.orch_bin@, outcome@) == Err::<Seq<char>, EngineErrorView>(e@),
        },
{
    match outcome {
        ParseOutcome::NoDirectory(e) => Err(parse_failed("failed to create tmp dir: ", e.as_str())),
        ParseOutcome::NotWritten(e) => Err(
            parse_failed("failed to write vars overlay: ", e.as_str()),
        ),
        ParseOutcome::NotRun(e) => {
            let mut m = "failed to execute '".to_string();
            m.append(config.orch_bin.as_str());
            m.append("': ");
            m.append(e.as_str());
            Err(EngineError::OrchParse(m))
        },
        ParseOutcome::Failed { code, stderr } => {
            let shown: i32 = match code {
                Some(c) => *c,
                None => -1,
            };
            let mut m = "exit code ".to_string();
            push_signed(&mut m, shown);
            m.append(": ");
            m.append(trim(stderr.as_str()).as_str());
            Err(EngineError::OrchParse(m))
        },
        ParseOutcome::NotText(e) => Err(
            parse_failed("invalid UTF-8 in orch output: ", e.as_str()),
        ),
        ParseOutcome::Text(s) => Ok(s.clone()),
    }
}

/// The schema of a version: its major and minor number.
pub open spec fn schema_of(version: Seq<char>) -> Seq<char> {
    match find(version, '.') {
        None => version,
        Some(i) => match find(version.skip(i + 1), '.') {
            None => version,
            Some(j) => version.take(i + 1 + j),
        },
    }
}

/// The schema that is supported.
pub open spec fn supported_schema() -> Seq<char> {
    "0.2"@
}

/// What is said of a version whose schema is not supported.
pub open spec fn schema_error(version: Seq<char>) -> EngineErrorView {
    EngineErrorView::OrchParse(
        "orch schema version "@ + version
            + " is not supported by orchd 0.1.0.\nSupported schemas: 0.2\nUpdate orchd or use a compatible orch version."@,
    )
}

/// Checks that the schema of what `orch parse` wrote is supported. Patch numbers
/// make no difference.
pub fn validate_schema(spec: &OrchFile) -> (r: Result<(), EngineError>)
    ensures
        match r {
            Ok(_) => schema_of(spec.version@) == supported_schema(),
            Err(e) => schema_of(spec.version@) != supported_schema() && e@ == schema_error(
                spec.version@,
            ),
        },
{
    let cs = chars_of(spec.version.as_str());
    let n: usize = cs.len();
    proof {
        lemma_find_range(cs@, '.');
        assert(cs@.skip(0) == cs@);
    }
    let schema = match find_from(cs.as_slice(), '.', 0) {
        None => spec.version.clone(),
        Some(i) => match find_from(cs.as_slice(), '.', i + 1) {
            None => spec.version.clone(),
            Some(j) => {
                assert(cs@.subrange(0, j as int) == cs@.take(j as int));
                string_of_range(cs.as_slice(), 0, j)
            },
        },
    };
    if same_text(schema.as_str(), "0.2") {
        return Ok(());
    }
    let mut m = "orch schema version ".to_string();
    m.append(spec.version.as_str());
    m.append(
        " is not supported by orchd 0.1.0.\nSupported schemas: 0.2\nUpdate orchd or use a compatible orch version.",
    );
    Err(EngineError::OrchParse(m))
}

/// Patch releases of a schema are supported alike.
pub proof fn law_patches_are_supported(patch: Seq<char>)
    ensures
        schema_of(supported_schema() + "."@ + patch) == supported_schema(),
        schema_of(supported_schema()) == supported_schema(),
{
    reveal_strlit("0.2");
    reveal_strlit(".");
    let schema = supported_schema();
    let version = schema + "."@ + patch;
    lemma_find_first(version, '.', 1);
    lemma_find_first(version.skip(2), '.', 1);
    assert(version.take(3) =~= schema);
    lemma_find_first(schema, '.', 1);
    lemma_find_none(schema.skip(2), '.');
}

// ----- gathering the commands of services -----------------------------------

/// How far the commands of the services have been gathered.
#[derive(Debug)]
pub struct Gathering {
    /// The service that is next.
    pub next: usize,
    /// Whether its preparation is done and the co-process is asked for its
    /// commands.
    pub asking: bool,
    /// The commands of the services that the runtime can run.
    pub exec_sets: Vec<(usize, ExecSet)>,
    /// The number of services that are disabled.
    pub skipped: usize,
    /// The services that the runtime cannot run, each with the reason.
    pub errors: Vec<String>,
}

#[verifier::ext_equal]
pub struct GatheringView {
    pub next: int,
    pub asking: bool,
    pub exec_sets: Seq<(usize, ExecSetView)>,
    pub skipped: int,
    pub errors: Seq<Seq<char>>,
}

impl View for Gathering {
    type V = GatheringView;

    open spec fn view(&self) -> GatheringView {
        GatheringView {
            next: self.next as int,
            asking: self.asking,
            exec_sets: self.exec_sets.deep_view(),
            skipped: self.skipped as int,
            errors: self.errors.deep_view(),
        }
    }
}

/// The gathering once it has passed the disabled services from its place on.
pub open spec fn past_disabled(services: Seq<ServiceView>, g: GatheringView) -> GatheringView
    decreases services.len() - g.next,
{
    if 0 <= g.next < services.len() && services[g.next].disabled {
        past_disabled(
            services,
            GatheringView { next: g.next + 1, skipped: g.skipped + 1, ..g },
        )
    } else {
        g
    }
}

/// The gathering before the first service.
pub open spec fn gather_start() -> GatheringView {
    GatheringView {
        next: 0,
        asking: false,
        exec_sets: Seq::empty(),
        skipped: 0,
        errors: Seq::empty(),
    }
}

/// Why the runtime cannot run a service.
pub open spec fn rejection(service: ServiceView, e: RuntimeErrorView) -> Seq<char> {
    service.name + ": "@ + runtime_message(e)
}

/// The gathering once the commands of the next service are known, or the reason
/// why there are none.
pub open spec fn with_commands(
    services: Seq<ServiceView>,
    g: GatheringView,
    commands: Result<ExecSetView, RuntimeErrorView>,
) -> GatheringView {
    let moved = GatheringView { next: g.next + 1, asking: false, ..g };
    past_disabled(
        services,
        match commands {
            Ok(e) => GatheringView { exec_sets: g.exec_sets.push((g.next as usize, e)), ..moved },
            Err(e) => GatheringView {
                errors: g.errors.push(rejection(services[g.next], e)),
                ..moved
            },
        },
    )
}

/// The gathering once the next service is prepared, or could not be. The
/// commands are made at once unless a co-process has to be asked for them.
pub open spec fn gather_prepared(
    services: Seq<ServiceView>,
    runtime: &AnyRuntime,
    g: GatheringView,
    prepared: Result<(), RuntimeErrorView>,
) -> GatheringView {
    match prepared {
        Err(e) => with_commands(services, g, Err(e)),
        Ok(_) => if must_ask(runtime, services[g.next]) {
            GatheringView { asking: true, ..g }
        } else {
            with_commands(services, g, commands_of(runtime, services[g.next]))
        },
    }
}

/// Whether the commands gathered so far belong to enabled services before the
/// next one, in order.
pub open spec fn in_order(services: Seq<ServiceView>, g: GatheringView) -> bool {
    &&& forall|i: int|
        0 <= i < g.exec_sets.len() ==> (#[trigger] g.exec_sets[i]).0 < g.next
            && !services[g.exec_sets[i].0 as int].disabled
    &&& forall|i: int, j: int|
        0 <= i < j < g.exec_sets.len() ==> (#[trigger] g.exec_sets[i]).0 < (
        #[trigger] g.exec_sets[j]).0
}

/// The places of the enabled services among the first `n`.
pub open spec fn enabled_before(services: Seq<ServiceView>, n: int) -> Seq<usize>
    decreases n,
{
    if n <= 0 {
        Seq::empty()
    } else if services[n - 1].disabled {
        enabled_before(services, n - 1)
    } else {
        enabled_before(services, n - 1).push((n - 1) as usize)
    }
}

/// The places of the services whose commands were gathered.
pub open spec fn places(exec_sets: Seq<(usize, ExecSetView)>) -> Seq<usize> {
    exec_sets.map_values(|e: (usize, ExecSetView)| e.0)
}

/// Whether the gathering has the commands of every enabled service before the
/// next one, unless there are services that the runtime cannot run.
pub open spec fn complete(services: Seq<ServiceView>, g: GatheringView) -> bool {
    g.errors.len() == 0 ==> places(g.exec_sets) == enabled_before(services, g.next)
}

/// What holds of every gathering: each service before the next one is accounted
/// for exactly once, as disabled, as one that the runtime runs or as one that it
/// cannot run; and the next service is enabled.
pub open spec fn gather_valid(services: Seq<ServiceView>, g: GatheringView) -> bool {
    &&& 0 <= g.next <= services.len()
    &&& g.skipped >= 0
    &&& g.exec_sets.len() + g.errors.len() + g.skipped == g.next
    &&& in_order(services, g)
    &&& complete(services, g)
    &&& g.next < services.len() ==> !services[g.next].disabled
}

proof fn lemma_past_disabled(services: Seq<ServiceView>, g: GatheringView)
    requires
        0 <= g.next <= services.len(),
        g.skipped >= 0,
        g.exec_sets.len() + g.errors.len() + g.skipped == g.next,
        in_order(services, g),
        complete(services, g),
    ensures
        gather_valid(services, past_disabled(services, g)),
    decreases services.len() - g.next,
{
    if 0 <= g.next < services.len() && services[g.next].disabled {
        let h = GatheringView { next: g.next + 1, skipped: g.skipped + 1, ..g };
        lemma_past_disabled(services, h);
    }
}

proof fn lemma_with_commands(
    services: Seq<ServiceView>,
    g: GatheringView,
    commands: Result<ExecSetView, RuntimeErrorView>,
)
    requires
        gather_valid(services, g),
        g.next < services.len(),
        services.len() <= usize::MAX,
    ensures
        gather_valid(services, with_commands(services, g, commands)),
{
    let moved = GatheringView { next: g.next + 1, asking: false, ..g };
    let h = match commands {
        Ok(e) => GatheringView { exec_sets: g.exec_sets.push((g.next as usize, e)), ..moved },
        Err(e) => GatheringView {
            errors: g.errors.push(rejection(services[g.next], e)),
            ..moved
        },
    };
    assert forall|i: int| 0 <= i < h.exec_sets.len() implies (#[trigger] h.exec_sets[i]).0 < h.next
        && !services[h.exec_sets[i].0 as int].disabled by {
        if i < g.exec_sets.len() {
            assert(h.exec_sets[i] == g.exec_sets[i]);
        }
    }
    assert forall|i: int, j: int| 0 <= i < j < h.exec_sets.len() implies (
    #[trigger] h.exec_sets[i]).0 < (#[trigger] h.exec_sets[j]).0 by {
        assert(h.exec_sets[i] == g.exec_sets[i]);
        if j < g.exec_sets.len() {
            assert(h.exec_sets[j] == g.exec_sets[j]);
        }
    }
    assert(complete(services, h)) by {
        if commands is Ok {
            assert(places(h.exec_sets) =~= places(g.exec_sets).push(g.next as usize));
        }
    }
    lemma_past_disabled(services, h);
}

fn pass_disabled(g: &mut Gathering, services: &Vec<Service>)
    requires
        old(g)@.next <= services@.len(),
        old(g)@.skipped <= old(g)@.next,
    ensures
        final(g)@ == past_disabled(services.deep_view(), old(g)@),
{
    let ghost views = services.deep_view();
    let ghost first = g@;
    let n: usize = services.len();
    while g.next < n && services[g.next].disabled
        invariant
            n == services@.len(),
            views == services.deep_view(),
            g.next <= n,
            g.skipped <= g.next,
            past_disabled(views, first) == past_disabled(views, g@),
        decreases n - g.next,
    {
        let ghost now = g@;
        assert(views[g.next as int] == services@[g.next as int]@);
        g.next = g.next + 1;
        g.skipped = g.skipped + 1;
        assert(g@ == GatheringView { next: now.next + 1, skipped: now.skipped + 1, ..now });
    }
    assert(g.next < n ==> views[g.next as int] == services@[g.next as int]@);
}

/// Begins to gather the commands of services.
pub fn gather(services: &Vec<Service>) -> (r: Gathering)
    ensures
        r@ == past_disabled(services.deep_view(), gather_start()),
        gather_valid(services.deep_view(), r@),
{
    let mut g = Gathering {
        next: 0,
        asking: false,
        exec_sets: Vec::new(),
        skipped: 0,
        errors: Vec::new(),
    };
    assert(g@ =~= gather_start());
    pass_disabled(&mut g, services);
    proof {
        assert(places(gather_start().exec_sets) =~= enabled_before(services.deep_view(), 0));
        lemma_past_disabled(services.deep_view(), gather_start());
    }
    g
}

fn take_commands(g: Gathering, services: &Vec<Service>, commands: Result<ExecSet, RuntimeError>) -> (r:
    Gathering)
    requires
        gather_valid(services.deep_view(), g@),
        g@.next < services@.len(),
    ensures
        r@ == with_commands(services.deep_view(), g@, exec_result(commands)),
        gather_valid(services.deep_view(), r@),
{
    let ghost views = services.deep_view();
    let ghost first = g@;
    let mut h = g;
    let at: usize = h.next;
    let n: usize = services.len();
    assert(views[at as int] == services@[at as int]@);
    assert(views.len() == n);
    proof {
        lemma_with_commands(views, first, exec_result(commands));
    }
    let ghost moved = GatheringView { next: first.next + 1, asking: false, ..first };
    assert(at < n);
    match commands {
        Ok(e) => {
            let ghost v = e@;
            h.exec_sets.push((at, e));
            assert(h.exec_sets.deep_view() =~= first.exec_sets.push((at, v)));
            h.next = at + 1;
            h.asking = false;
            assert(h@ =~= (GatheringView {
                exec_sets: first.exec_sets.push((at, v)),
                ..moved
            }));
        },
        Err(e) => {
            let mut m = services[at].name.clone();
            m.append(": ");
            m.append(e.message().as_str());
            let ghost v = m@;
            h.errors.push(m);
            assert(h.errors.deep_view() =~= first.errors.push(v));
            h.next = at + 1;
            h.asking = false;
            assert(h@ =~= (GatheringView { errors: first.errors.push(v), ..moved }));
        },
    }
    pass_disabled(&mut h, services);
    h
}

/// Goes on once the next service is prepared, or could not be.
pub fn gather_on(
    services: &Vec<Service>,
    runtime: &AnyRuntime,
    g: Gathering,
    prepared: Result<(), RuntimeError>,
) -> (r: Gathering)
    requires
        gather_valid(services.deep_view(), g@),
        g@.next < services@.len(),
    ensures
        r@ == gather_prepared(
            services.deep_view(),
            runtime,
            g@,
            crate::runtime::unit_result(prepared),
        ),
        gather_valid(services.deep_view(), r@),
{
    assert(services.deep_view()[g.next as int] == services@[g.next as int]@);
    match prepared {
        Err(e) => take_commands(g, services, Err(e)),
        Ok(_) => {
            let service = &services[g.next];
            if runtime.must_ask(service) {
                let mut h = g;
                let ghost first = h@;
                h.asking = true;
                assert(h@ =~= (GatheringView { asking: true, ..first }));
                h
            } else {
                let commands = runtime.exec_set(service);
                take_commands(g, services, commands)
            }
        },
    }
}

/// Goes on once the co-process has given the commands of the next service, or
/// has failed to.
pub fn gather_answer(
    services: &Vec<Service>,
    g: Gathering,
    commands: Result<ExecSet, RuntimeError>,
) -> (r: Gathering)
    requires
        gather_valid(services.deep_view(), g@),
        g@.next < services@.len(),
    ensures
        r@ == with_commands(services.deep_view(), g@, exec_result(commands)),
        gather_valid(services.deep_view(), r@),
{
    take_commands(g, services, commands)
}

/// A finished gathering accounts for every service exactly once: it is disabled,
/// the runtime runs it, or there is a reason why it cannot. The commands are
/// those of enabled services, in the order of the services.
pub proof fn law_every_service_is_accounted_for(services: Seq<ServiceView>, g: GatheringView)
    requires
        gather_valid(services, g),
        g.next == services.len(),
    ensures
        g.exec_sets.len() + g.errors.len() + g.skipped == services.len(),
        in_order(services, g),
        crate::platform::indices_fit(g.exec_sets, services.len()),
{
}

// ----- verbs ----------------------------------------------------------------

/// What a verb makes the platform do.
#[derive(Debug)]
pub enum Step {
    /// Generate and install, unless everything is up to date.
    Generate { platform: PlatformKind },
    /// Start the services named, or all.
    Start { platform: PlatformKind, services: Vec<String> },
    /// Stop all services, as well as can be.
    Stop { platform: PlatformKind },
    /// Remove what was generated and installed.
    Clean { platform: PlatformKind },
    /// Remove the data directory, if it is there, as well as can be.
    RemoveData { path: String },
    /// Show the state of the services.
    Status { platform: PlatformKind, as_json: bool },
    /// Show the logs of a service.
    Logs { platform: PlatformKind, service: String, follow: bool, lines: u32 },
}

#[verifier::ext_equal]
pub enum StepView {
    Generate { platform: PlatformKind },
    Start { platform: PlatformKind, services: Seq<Seq<char>> },
    Stop { platform: PlatformKind },
    Clean { platform: PlatformKind },
    RemoveData { path: Seq<char> },
    Status { platform: PlatformKind, as_json: bool },
    Logs { platform: PlatformKind, service: Seq<char>, follow: bool, lines: u32 },
}

impl View for Step {
    type V = StepView;

    open spec fn view(&self) -> StepView {
        match *self {
            Step::Generate { platform } => StepView::Generate { platform },
            Step::Start { platform, services } => StepView::Start {
                platform,
                services: services.deep_view(),
            },
            Step::Stop { platform } => StepView::Stop { platform },
            Step::Clean { platform } => StepView::Clean { platform },
            Step::RemoveData { path } => StepView::RemoveData { path: path@ },
            Step::Status { platform, as_json } => StepView::Status { platform, as_json },
            Step::Logs { platform, service, follow, lines } => StepView::Logs {
                platform,
                service: service@,
                follow,
                lines,
            },
        }
    }
}

impl DeepView for Step {
    type V = StepView;

    open spec fn deep_view(&self) -> StepView {
        self@
    }
}

/// The steps that bring services up, on a platform.
pub open spec fn up_steps(
    platform: PlatformKind,
    services: Seq<Seq<char>>,
    no_generate: bool,
) -> Seq<StepView> {
    (if no_generate {
        seq![]
    } else {
        seq![StepView::Generate { platform }]
    }) + seq![StepView::Start { platform, services }]
}

/// The steps that tear everything down.
pub open spec fn clean_steps(platform: PlatformKind, data_dir: Seq<char>, keep_data: bool) -> Seq<
    StepView,
> {
    seq![StepView::Stop { platform }, StepView::Clean { platform }] + (if keep_data {
        seq![]
    } else {
        seq![StepView::RemoveData { path: data_dir }]
    })
}

/// Whether the failure of a step ends the verb. Stopping and removing data are
/// done as well as can be.
pub open spec fn must_succeed(step: StepView) -> bool {
    !(step is Stop) && !(step is RemoveData)
}

impl Step {
    /// Whether the failure of the step ends the verb.
    pub fn must_succeed(&self) -> (r: bool)
        ensures
            r == must_succeed(self@),
    {
        match self {
            Step::Stop { .. } => false,
            Step::RemoveData { .. } => false,
            _ => true,
        }
    }
}

/// Brings services up: generate, unless told not to, then start.
pub fn up(config: &Config, services: &Vec<String>, no_generate: bool) -> (r: Vec<Step>)
    ensures
        r.deep_view() == up_steps(
            platform_named(config.platform@),
            services.deep_view(),
            no_generate,
        ),
{
    let platform = platform_of(config.platform.as_str());
    let mut r: Vec<Step> = Vec::new();
    if !no_generate {
        r.push(Step::Generate { platform });
    }
    r.push(Step::Start { platform, services: clone_list(services) });
    assert(r.deep_view() =~= up_steps(platform, services.deep_view(), no_generate));
    r
}

/// Brings the grove up: generate, then start unless told not to.
pub fn grow(config: &Config, services: &Vec<String>, no_start: bool) -> (r: Vec<Step>)
    ensures
        r.deep_view() == (if no_start {
            seq![StepView::Generate { platform: platform_named(config.platform@) }]
        } else {
            up_steps(platform_named(config.platform@), services.deep_view(), false)
        }),
{
    if no_start {
        let mut r: Vec<Step> = Vec::new();
        r.push(Step::Generate { platform: platform_of(config.platform.as_str()) });
        assert(r.deep_view() =~= seq![
            StepView::Generate { platform: platform_named(config.platform@) },
        ]);
        r
    } else {
        up(config, services, false)
    }
}

/// Removes everything: stop, clean, and remove the data unless told not to.
pub fn clean(config: &Config, keep_data: bool) -> (r: Vec<Step>)
    ensures
        r.deep_view() == clean_steps(
            platform_named(config.platform@),
            config.data_dir@,
            keep_data,
        ),
{
    let platform = platform_of(config.platform.as_str());
    let mut r: Vec<Step> = Vec::new();
    r.push(Step::Stop { platform });
    r.push(Step::Clean { platform });
    if !keep_data {
        r.push(Step::RemoveData { path: config.data_dir.clone() });
    }
    assert(r.deep_view() =~= clean_steps(platform, config.data_dir@, keep_data));
    r
}

/// Tears the grove down.
pub fn fell(config: &Config, keep_data: bool) -> (r: Vec<Step>)
    ensures
        r.deep_view() == clean_steps(
            platform_named(config.platform@),
            config.data_dir@,
            keep_data,
        ),
{
    clean(config, keep_data)
}

/// Shows the state of the services.
pub fn status(config: &Config, as_json: bool) -> (r: Step)
    ensures
        r@ == (StepView::Status { platform: platform_named(config.platform@), as_json }),
{
    Step::Status { platform: platform_of(config.platform.as_str()), as_json }
}

/// Shows the logs of a service.
pub fn logs(config: &Config, service: &str, follow: bool, lines: u32) -> (r: Step)
    ensures
        r@ == (StepView::Logs {
            platform: platform_named(config.platform@),
            service: service@,
            follow,
            lines,
        }),
{
    Step::Logs {
        platform: platform_of(config.platform.as_str()),
        service: service.to_string(),
        follow,
        lines,
    }
}

/// Where a generation stands.
#[derive(Debug)]
pub enum GeneratePhase {
    /// Looking whether everything is up to date.
    Freshness,
    /// Creating and checking the runtime.
    CheckRuntime,
    /// Checking the platform.
    CheckPlatform,
    /// Running `orch parse`, reading what it wrote and checking its schema.
    Parse,
    /// Preparing the services and gathering their commands.
    Gather,
    /// Writing the artifacts.
    Write,
    /// Installing the artifacts.
    Install,
    /// Finished.
    Done,
    /// Ended by an error.
    Failed { error: EngineError },
}

#[verifier::ext_equal]
pub enum GeneratePhaseView {
    Freshness,
    CheckRuntime,
    CheckPlatform,
    Parse,
    Gather,
    Write,
    Install,
    Done,
    Failed { error: EngineErrorView },
}

impl View for GeneratePhase {
    type V = GeneratePhaseView;

    open spec fn view(&self) -> GeneratePhaseView {
        match *self {
            GeneratePhase::Freshness => GeneratePhaseView::Freshness,
            GeneratePhase::Parse => GeneratePhaseView::Parse,
            GeneratePhase::CheckRuntime => GeneratePhaseView::CheckRuntime,
            GeneratePhase::Gather => GeneratePhaseView::Gather,
            GeneratePhase::CheckPlatform => GeneratePhaseView::CheckPlatform,
            GeneratePhase::Write => GeneratePhaseView::Write,
            GeneratePhase::Install => GeneratePhaseView::Install,
            GeneratePhase::Done => GeneratePhaseView::Done,
            GeneratePhase::Failed { error } => GeneratePhaseView::Failed { error: error@ },
        }
    }
}

/// What came of a phase.
#[derive(Debug)]
pub enum GenerateEvent {
    /// It was found whether everything is up to date.
    Looked { up_to_date: bool },
    /// The phase succeeded.
    Succeeded,
    /// The phase failed.
    Erred { error: EngineError },
}

#[verifier::ext_equal]
pub enum GenerateEventView {
    Looked { up_to_date: bool },
    Succeeded,
    Erred { error: EngineErrorView },
}

impl View for GenerateEvent {
    type V = GenerateEventView;

    open spec fn view(&self) -> GenerateEventView {
        match *self {
            GenerateEvent::Looked { up_to_date } => GenerateEventView::Looked { up_to_date },
            GenerateEvent::Succeeded => GenerateEventView::Succeeded,
            GenerateEvent::Erred { error } => GenerateEventView::Erred { error: error@ },
        }
    }
}

/// Whether a generation is over.
pub open spec fn generate_over(phase: GeneratePhaseView) -> bool {
    phase is Done || phase is Failed
}

/// The phase in which a generation begins: a forced one does not look whether
/// everything is up to date.
pub open spec fn generate_start(force: bool) -> GeneratePhaseView {
    if force {
        GeneratePhaseView::CheckRuntime
    } else {
        GeneratePhaseView::Freshness
    }
}

/// The phase after one that succeeded. Runtime and platform are checked before
/// anything is written.
pub open spec fn generate_after(phase: GeneratePhaseView) -> GeneratePhaseView {
    match phase {
        GeneratePhaseView::CheckRuntime => GeneratePhaseView::CheckPlatform,
        GeneratePhaseView::CheckPlatform => GeneratePhaseView::Parse,
        GeneratePhaseView::Parse => GeneratePhaseView::Gather,
        GeneratePhaseView::Gather => GeneratePhaseView::Write,
        GeneratePhaseView::Write => GeneratePhaseView::Install,
        GeneratePhaseView::Install => GeneratePhaseView::Done,
        _ => phase,
    }
}

/// The phase that follows: an error ends the generation, and so does finding
/// everything up to date.
pub open spec fn generate_next(phase: GeneratePhaseView, event: GenerateEventView) -> GeneratePhaseView {
    match event {
        GenerateEventView::Looked { up_to_date } => if phase is Freshness {
            if up_to_date {
                GeneratePhaseView::Done
            } else {
                GeneratePhaseView::CheckRuntime
            }
        } else {
            phase
        },
        GenerateEventView::Succeeded => generate_after(phase),
        GenerateEventView::Erred { error } => if generate_over(phase) {
            phase
        } else {
            GeneratePhaseView::Failed { error }
        },
    }
}

/// The phase in which a generation begins.
pub fn generate(force: bool) -> (r: GeneratePhase)
    ensures
        r@ == generate_start(force),
{
    if force {
        GeneratePhase::CheckRuntime
    } else {
        GeneratePhase::Freshness
    }
}

/// The phase that follows an event.
pub fn generate_step(phase: GeneratePhase, event: GenerateEvent) -> (r: GeneratePhase)
    ensures
        r@ == generate_next(phase@, event@),
{
    match event {
        GenerateEvent::Looked { up_to_date } => match phase {
            GeneratePhase::Freshness => if up_to_date {
                GeneratePhase::Done
            } else {
                GeneratePhase::CheckRuntime
            },
            p => p,
        },
        GenerateEvent::Succeeded => match phase {
            GeneratePhase::CheckRuntime => GeneratePhase::CheckPlatform,
            GeneratePhase::CheckPlatform => GeneratePhase::Parse,
            GeneratePhase::Parse => GeneratePhase::Gather,
            GeneratePhase::Gather => GeneratePhase::Write,
            GeneratePhase::Write => GeneratePhase::Install,
            GeneratePhase::Install => GeneratePhase::Done,
            p => p,
        },
        GenerateEvent::Erred { error } => match phase {
            GeneratePhase::Done => GeneratePhase::Done,
            GeneratePhase::Failed { error } => GeneratePhase::Failed { error },
            _ => GeneratePhase::Failed { error },
        },
    }
}

/// The phase after a run of events.
pub open spec fn generate_run(force: bool, events: Seq<GenerateEventView>) -> GeneratePhaseView
    decreases events.len(),
{
    if events.len() == 0 {
        generate_start(force)
    } else {
        generate_next(generate_run(force, events.drop_last()), events.last())
    }
}

/// Whether a run was in a phase that succeeded.
pub open spec fn passed(
    force: bool,
    events: Seq<GenerateEventView>,
    phase: GeneratePhaseView,
) -> bool {
    exists|j: int|
        0 <= j < events.len() && #[trigger] generate_run(force, events.take(j)) == phase
            && events[j] is Succeeded
}

proof fn lemma_passed_before(
    force: bool,
    events: Seq<GenerateEventView>,
    phase: GeneratePhaseView,
    later: GeneratePhaseView,
)
    requires
        !(phase is Freshness) && !generate_over(phase),
        later == generate_after(phase),
        generate_run(force, events) == later,
        later != GeneratePhaseView::Done || force,
    ensures
        passed(force, events, phase),
    decreases events.len(),
{
    if events.len() > 0 {
        let before = events.drop_last();
        let last = events.len() - 1;
        assert(events.take(last) == before);
        if generate_run(force, before) == later {
            lemma_passed_before(force, before, phase, later);
            let j = choose|j: int|
                0 <= j < before.len() && #[trigger] generate_run(force, before.take(j)) == phase
                    && before[j] is Succeeded;
            assert(before.take(j) == events.take(j));
            assert(generate_run(force, events.take(j)) == phase && events[j] is Succeeded);
        } else {
            lemma_no_freshness(force, before);
            assert(generate_run(force, events.take(last)) == phase && events[last] is Succeeded);
        }
    }
}

/// Whether a phase changes files or directories.
pub open spec fn mutates(phase: GeneratePhaseView) -> bool {
    phase is Parse || phase is Gather || phase is Write || phase is Install
}

/// What a run has passed it has passed for good.
proof fn lemma_passed_grows(
    force: bool,
    events: Seq<GenerateEventView>,
    phase: GeneratePhaseView,
)
    requires
        events.len() > 0,
        passed(force, events.drop_last(), phase),
    ensures
        passed(force, events, phase),
{
    let before = events.drop_last();
    let j = choose|j: int|
        0 <= j < before.len() && #[trigger] generate_run(force, before.take(j)) == phase
            && before[j] is Succeeded;
    assert(before.take(j) == events.take(j));
    assert(generate_run(force, events.take(j)) == phase && events[j] is Succeeded);
}

/// Nothing is changed before both checks have passed: a generation that runs the
/// parser, prepares services, writes or installs has found the runtime and the
/// platform in order.
pub proof fn law_checks_come_first(force: bool, events: Seq<GenerateEventView>)
    ensures
        mutates(generate_run(force, events)) ==> passed(
            force,
            events,
            GeneratePhaseView::CheckRuntime,
        ) && passed(force, events, GeneratePhaseView::CheckPlatform),
        generate_run(force, events) is CheckPlatform ==> passed(
            force,
            events,
            GeneratePhaseView::CheckRuntime,
        ),
    decreases events.len(),
{
    if events.len() > 0 {
        let before = events.drop_last();
        let last = events.len() - 1;
        let p = generate_run(force, before);
        law_checks_come_first(force, before);
        assert(events.take(last) == before);
        if passed(force, before, GeneratePhaseView::CheckRuntime) {
            lemma_passed_grows(force, events, GeneratePhaseView::CheckRuntime);
        }
        if passed(force, before, GeneratePhaseView::CheckPlatform) {
            lemma_passed_grows(force, events, GeneratePhaseView::CheckPlatform);
        }
        if events[last] is Succeeded && (p is CheckRuntime || p is CheckPlatform) {
            assert(generate_run(force, events.take(last)) == p);
            assert(passed(force, events, p));
        }
    }
}

/// A forced generation never looks whether everything is up to date.
proof fn lemma_no_freshness(force: bool, events: Seq<GenerateEventView>)
    ensures
        force ==> !(generate_run(force, events) is Freshness),
    decreases events.len(),
{
    if events.len() > 0 {
        lemma_no_freshness(force, events.drop_last());
    }
}

/// A forced generation is done only once everything was installed, and installs
/// only once everything was written.
pub proof fn law_forced_generation_installs(events: Seq<GenerateEventView>)
    ensures
        generate_run(true, events) is Done ==> passed(true, events, GeneratePhaseView::Install),
        generate_run(true, events) is Install ==> passed(true, events, GeneratePhaseView::Write),
{
    if generate_run(true, events) is Done {
        lemma_passed_before(true, events, GeneratePhaseView::Install, GeneratePhaseView::Done);
    }
    if generate_run(true, events) is Install {
        lemma_passed_before(true, events, GeneratePhaseView::Write, GeneratePhaseView::Install);
    }
}

/// Growing starts what it has generated, and nothing else, unless it is told not
/// to start.
pub proof fn law_grow_starts_what_it_generates(platform: PlatformKind, services: Seq<Seq<char>>)
    ensures
        up_steps(platform, services, false) == seq![StepView::Generate { platform }] + up_steps(
            platform,
            services,
            true,
        ),
{
    assert(up_steps(platform, services, false) =~= seq![StepView::Generate { platform }] + up_steps(
        platform,
        services,
        true,
    ));
}

/// Felling never fails because services cannot be stopped, stops them before it
/// removes their units, and removes data only if it may.
pub proof fn law_fell_stops_first(platform: PlatformKind, data_dir: Seq<char>, keep_data: bool)
    ensures
        ({
            let steps = clean_steps(platform, data_dir, keep_data);
            &&& steps[0] == (StepView::Stop { platform }) && !must_succeed(steps[0])
            &&& steps[1] == (StepView::Clean { platform }) && must_succeed(steps[1])
            &&& keep_data ==> steps.len() == 2
            &&& !keep_data ==> steps.len() == 3 && steps[2] == (StepView::RemoveData {
                path: data_dir,
            })
        }),
{
}

} // verus!
