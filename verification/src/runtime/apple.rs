//! Containers on macOS, in one of three ways.
//!
//! Apple's `container` tool is driven with plain command lines. The two
//! co-processes, `orchd-apple` and `orchd-osx`, are asked for the commands of a
//! service over a small protocol on their standard streams.

use crate::collections::StringMap;
use crate::config::{value_of, Config};
use crate::exec::{ExecSet, ExecSetView};
use crate::platform::{
    push_signed, shown_code, signed_decimal, Invocation, InvocationView, Outcome, OutcomeView,
};
use crate::runtime::flags::{container_run, run_command};
use crate::runtime::{
    container_name, container_of, data_path, exec_result, host_commands, host_exec_set, no_image,
    require_image, service_data, unit_result, Preparation, PreparationView, RuntimeError,
    RuntimeErrorView,
};
use crate::text::chars::{lowercase, same_text, to_lowercase};
use crate::text::scan::{trim, trimmed};
use crate::types::{Service, ServiceView};
use vstd::prelude::*;

verus! {

/// What runs the containers.
#[derive(Debug, Clone, Copy, PartialEq, Eq, Structural)]
pub enum AppleMode {
    /// Apple's `container` tool.
    ContainerCli,
    /// The co-process `orchd-apple`.
    OrchdApple,
    /// The co-process `orchd-osx`.
    OrchdOsx,
}

/// The mode that a word names, in whatever case and white space.
pub open spec fn named_mode(s: Seq<char>) -> Option<AppleMode> {
    let t = lowercase(trimmed(s));
    if t == "container"@ || t == "cli"@ {
        Some(AppleMode::ContainerCli)
    } else if t == "osx"@ || t == "vz"@ || t == "orchd-osx"@ {
        Some(AppleMode::OrchdOsx)
    } else if t == "xpc"@ || t == "daemon"@ || t == "apple"@ || t == "orchd-apple"@ || t == ""@ {
        Some(AppleMode::OrchdApple)
    } else {
        None
    }
}

/// The mode that a word chooses. An unknown word chooses `orchd-apple`.
pub open spec fn chosen_mode(s: Seq<char>) -> AppleMode {
    match named_mode(s) {
        Some(mode) => mode,
        None => AppleMode::OrchdApple,
    }
}

/// The mode that the environment chooses.
pub open spec fn env_mode(vars: Map<Seq<char>, Seq<char>>) -> AppleMode {
    match value_of(vars, "ORCHD_APPLE_MODE"@) {
        Some(s) => chosen_mode(s),
        None => AppleMode::OrchdApple,
    }
}

/// The co-process of a mode and the variable that overrides where it is.
pub open spec fn binary_of(mode: AppleMode) -> Option<(Seq<char>, Seq<char>)> {
    match mode {
        AppleMode::ContainerCli => None,
        AppleMode::OrchdApple => Some(("orchd-apple"@, "ORCHD_APPLE_BIN"@)),
        AppleMode::OrchdOsx => Some(("orchd-osx"@, "ORCHD_OSX_BIN"@)),
    }
}

impl AppleMode {
    /// Reads a mode, if the word names one.
    pub fn known(s: &str) -> (r: Option<Self>)
        ensures
            r == named_mode(s@),
    {
        let t = to_lowercase(trim(s).as_str());
        let w = t.as_str();
        if same_text(w, "container") || same_text(w, "cli") {
            Some(AppleMode::ContainerCli)
        } else if same_text(w, "osx") || same_text(w, "vz") || same_text(w, "orchd-osx") {
            Some(AppleMode::OrchdOsx)
        } else if same_text(w, "xpc") || same_text(w, "daemon") || same_text(w, "apple")
            || same_text(w, "orchd-apple") || same_text(w, "") {
            Some(AppleMode::OrchdApple)
        } else {
            None
        }
    }

    /// Reads a mode; an unknown word chooses `orchd-apple`.
    pub fn parse(s: &str) -> (r: Self)
        ensures
            r == chosen_mode(s@),
    {
        match AppleMode::known(s) {
            Some(mode) => mode,
            None => AppleMode::OrchdApple,
        }
    }

    /// The mode that the environment chooses.
    pub fn from_env(vars: &StringMap) -> (r: Self)
        ensures
            r == env_mode(vars@),
    {
        match vars.get("ORCHD_APPLE_MODE") {
            Some(s) => AppleMode::parse(s.as_str()),
            None => AppleMode::OrchdApple,
        }
    }

    /// The co-process of the mode and the variable that overrides where it is.
    pub fn binary(self) -> (r: Option<(&'static str, &'static str)>)
        ensures
            match r {
                Some(b) => binary_of(self) == Some((b.0@, b.1@)),
                None => binary_of(self) is None,
            },
    {
        match self {
            AppleMode::ContainerCli => None,
            AppleMode::OrchdApple => Some(("orchd-apple", "ORCHD_APPLE_BIN")),
            AppleMode::OrchdOsx => Some(("orchd-osx", "ORCHD_OSX_BIN")),
        }
    }
}

/// The warning for a word that names no mode.
pub open spec fn mode_warning(s: Seq<char>) -> Option<Seq<char>> {
    if named_mode(s) is None {
        Some(
            "warning: unknown ORCHD_APPLE_MODE '"@ + lowercase(trimmed(s))
                + "', using 'xpc' (orchd-apple)"@,
        )
    } else {
        None
    }
}

/// Warns of a word that names no mode.
pub fn unknown_mode(s: &str) -> (r: Option<String>)
    ensures
        r.deep_view() == mode_warning(s@),
{
    if AppleMode::known(s).is_some() {
        return None;
    }
    let mut m = "warning: unknown ORCHD_APPLE_MODE '".to_string();
    m.append(to_lowercase(trim(s).as_str()).as_str());
    m.append("', using 'xpc' (orchd-apple)");
    Some(m)
}

/// Where a co-process is: where the variable says, else next to this program,
/// else anywhere on the search path.
pub open spec fn co_process(
    mode: AppleMode,
    vars: Map<Seq<char>, Seq<char>>,
    sibling: Option<Seq<char>>,
) -> Option<Seq<char>> {
    match binary_of(mode) {
        Some(b) => Some(
            match value_of(vars, b.1) {
                Some(path) => path,
                None => match sibling {
                    Some(path) => path,
                    None => b.0,
                },
            },
        ),
        None => None,
    }
}

/// Finds a co-process. `sibling` is its path next to this program, if it exists
/// there.
pub fn resolve_bin(binary: &str, env_var: &str, vars: &StringMap, sibling: &Option<String>) -> (r:
    String)
    ensures
        r@ == (match value_of(vars@, env_var@) {
            Some(path) => path,
            None => match sibling.deep_view() {
                Some(path) => path,
                None => binary@,
            },
        }),
{
    match vars.get(env_var) {
        Some(path) => path.clone(),
        None => match sibling {
            Some(path) => path.clone(),
            None => binary.to_string(),
        },
    }
}

/// The `apple` runtime.
#[derive(Debug)]
pub struct AppleRuntime {
    /// What runs the containers.
    pub mode: AppleMode,
    /// The co-process, where there is one.
    pub bin: Option<String>,
    /// The prefix of container names.
    pub namespace: String,
    /// Where host services keep their data.
    pub data_dir: String,
}

/// Whether the co-process has to be asked for the commands of a service.
pub open spec fn asks(mode: AppleMode, service: ServiceView) -> bool {
    !service.is_host() && mode != AppleMode::ContainerCli
}

/// What a service becomes with the `container` tool.
pub open spec fn cli_commands(namespace: Seq<char>, service: ServiceView) -> Result<
    ExecSetView,
    RuntimeErrorView,
> {
    match service.image {
        Some(image) => {
            let name = container_of(namespace, service);
            Ok(
                ExecSetView {
                    start: run_command("container"@, name, service, image),
                    pre_start: Some("container image pull "@ + image),
                    stop: Some("container stop "@ + name),
                    post_stop: Some("container delete --force "@ + name),
                },
            )
        },
        None => Err(no_image(service)),
    }
}

/// What a service becomes where no co-process has to be asked.
pub open spec fn apple_commands(namespace: Seq<char>, service: ServiceView) -> Result<
    ExecSetView,
    RuntimeErrorView,
> {
    if service.is_host() {
        host_commands(service)
    } else {
        cli_commands(namespace, service)
    }
}

/// What has to be done before a service's commands are made.
pub open spec fn apple_preparation(
    mode: AppleMode,
    data_dir: Seq<char>,
    service: ServiceView,
) -> Result<PreparationView, RuntimeErrorView> {
    if service.is_host() {
        Ok(PreparationView::Directory { path: data_path(data_dir, service) })
    } else if mode == AppleMode::ContainerCli {
        match service.image {
            Some(image) => Ok(PreparationView::Pull { image }),
            None => Err(no_image(service)),
        }
    } else {
        Ok(PreparationView::Ask)
    }
}

/// What came of a call of the co-process.
#[derive(Debug)]
pub enum Reply {
    /// It could not be started.
    NotSpawned(String),
    /// Its input could not be written.
    NotWritten(String),
    /// Its end could not be awaited.
    NotAwaited(String),
    /// It failed.
    Failed { code: Option<i32>, stderr: String },
    /// Its output is not text.
    NotText(String),
    /// It answered.
    Answer(String),
}

#[verifier::ext_equal]
pub enum ReplyView {
    NotSpawned(Seq<char>),
    NotWritten(Seq<char>),
    NotAwaited(Seq<char>),
    Failed { code: Option<i32>, stderr: Seq<char> },
    NotText(Seq<char>),
    Answer(Seq<char>),
}

impl View for Reply {
    type V = ReplyView;

    open spec fn view(&self) -> ReplyView {
        match *self {
            Reply::NotSpawned(e) => ReplyView::NotSpawned(e@),
            Reply::NotWritten(e) => ReplyView::NotWritten(e@),
            Reply::NotAwaited(e) => ReplyView::NotAwaited(e@),
            Reply::Failed { code, stderr } => ReplyView::Failed { code, stderr: stderr@ },
            Reply::NotText(e) => ReplyView::NotText(e@),
            Reply::Answer(s) => ReplyView::Answer(s@),
        }
    }
}

/// The answer of the co-process, or the error that its failure is.
pub open spec fn answer_of(bin: Seq<char>, subcommand: Seq<char>, reply: ReplyView) -> Result<
    Seq<char>,
    RuntimeErrorView,
> {
    match reply {
        ReplyView::NotSpawned(e) => Err(
            RuntimeErrorView::BinaryNotFound("could not spawn '"@ + bin + "': "@ + e),
        ),
        ReplyView::NotWritten(e) => Err(
            RuntimeErrorView::Other("failed to write to co-process stdin: "@ + e),
        ),
        ReplyView::NotAwaited(e) => Err(RuntimeErrorView::Other("co-process wait failed: "@ + e)),
        ReplyView::Failed { code, stderr } => Err(
            RuntimeErrorView::Other(
                bin + " "@ + subcommand + " failed (exit "@ + signed_decimal(shown_code(code))
                    + "): "@ + trimmed(stderr),
            ),
        ),
        ReplyView::NotText(e) => Err(
            RuntimeErrorView::Other("co-process stdout is invalid UTF-8: "@ + e),
        ),
        ReplyView::Answer(s) => Ok(s),
    }
}

/// What the answer to `container ls` means.
pub open spec fn cli_check_result(outcome: OutcomeView) -> Result<(), RuntimeErrorView> {
    match outcome {
        OutcomeView::NotRun(e) => Err(
            RuntimeErrorView::BinaryNotFound("could not spawn 'container': "@ + e),
        ),
        OutcomeView::Ended { success, .. } => if success {
            Ok(())
        } else {
            Err(
                RuntimeErrorView::Other(
                    "container CLI/daemon not reachable (run: container system start)"@,
                ),
            )
        },
    }
}

/// What the outcome of pulling an image means.
pub open spec fn cli_pull_result(image: Seq<char>, outcome: OutcomeView) -> Result<
    (),
    RuntimeErrorView,
> {
    match outcome {
        OutcomeView::NotRun(e) => Err(
            RuntimeErrorView::BinaryNotFound("could not spawn 'container': "@ + e),
        ),
        OutcomeView::Ended { success, .. } => if success {
            Ok(())
        } else {
            Err(RuntimeErrorView::Other("container image pull "@ + image + " failed"@))
        },
    }
}

fn cannot_spawn(e: &str) -> (r: RuntimeError)
    ensures
        r@ == RuntimeErrorView::BinaryNotFound("could not spawn 'container': "@ + e@),
{
    let mut m = "could not spawn 'container': ".to_string();
    m.append(e);
    RuntimeError::BinaryNotFound(m)
}

impl AppleRuntime {
    /// The runtime for the settings. `sibling` is the path of the mode's
    /// co-process next to this program, if it exists there.
    pub fn new(config: &Config, vars: &StringMap, sibling: &Option<String>) -> (r: Self)
        ensures
            r.mode == env_mode(vars@),
            r.bin.deep_view() == co_process(r.mode, vars@, sibling.deep_view()),
            r.namespace@ == config.namespace@,
            r.data_dir@ == config.data_dir@,
    {
        let mode = AppleMode::from_env(vars);
        let bin = match mode.binary() {
            Some((name, env_var)) => Some(resolve_bin(name, env_var, vars, sibling)),
            None => None,
        };
        AppleRuntime {
            mode,
            bin,
            namespace: config.namespace.clone(),
            data_dir: config.data_dir.clone(),
        }
    }

    /// The name of the runtime.
    pub fn name(&self) -> (r: &str)
        ensures
            r@ == "apple"@,
    {
        "apple"
    }

    /// The call of the co-process with a subcommand.
    pub fn call(&self, subcommand: &str) -> (r: Invocation)
        requires
            self.bin is Some,
        ensures
            r@ == (InvocationView {
                program: self.bin->0@,
                args: seq![subcommand@, self.namespace@],
            }),
    {
        let program = match &self.bin {
            Some(b) => b.clone(),
            None => String::new(),
        };
        let mut args: Vec<String> = Vec::new();
        args.push(subcommand.to_string());
        args.push(self.namespace.clone());
        assert(args.deep_view() =~= seq![subcommand@, self.namespace@]);
        Invocation { program, args }
    }

    /// Judges a call of the co-process.
    pub fn judge_call(&self, subcommand: &str, reply: &Reply) -> (r: Result<String, RuntimeError>)
        requires
            self.bin is Some,
        ensures
            match r {
                Ok(s) => answer_of(self.bin->0@, subcommand@, reply@) == Ok::<
                    Seq<char>,
                    RuntimeErrorView,
                >(s@),
                Err(e) => answer_of(self.bin->0@, subcommand@, reply@) == Err::<
                    Seq<char>,
                    RuntimeErrorView,
                >(e@),
            },
    {
        let bin = match &self.bin {
            Some(b) => b.clone(),
            None => String::new(),
        };
        match reply {
            Reply::NotSpawned(e) => {
                let mut m = "could not spawn '".to_string();
                m.append(bin.as_str());
                m.append("': ");
                m.append(e.as_str());
                Err(RuntimeError::BinaryNotFound(m))
            },
            Reply::NotWritten(e) => {
                let mut m = "failed to write to co-process stdin: ".to_string();
                m.append(e.as_str());
                Err(RuntimeError::Other(m))
            },
            Reply::NotAwaited(e) => {
                let mut m = "co-process wait failed: ".to_string();
                m.append(e.as_str());
                Err(RuntimeError::Other(m))
            },
            Reply::Failed { code, stderr } => {
                let shown: i32 = match code {
                    Some(c) => *c,
                    None => -1,
                };
                let mut m = bin;
                m.append(" ");
                m.append(subcommand);
                m.append(" failed (exit ");
                push_signed(&mut m, shown);
                m.append("): ");
                m.append(trim(stderr.as_str()).as_str());
                Err(RuntimeError::Other(m))
            },
            Reply::NotText(e) => {
                let mut m = "co-process stdout is invalid UTF-8: ".to_string();
                m.append(e.as_str());
                Err(RuntimeError::Other(m))
            },
            Reply::Answer(s) => Ok(s.clone()),
        }
    }

    /// Judges the answer to `container ls`, which needs a live daemon.
    pub fn cli_check(&self, ls: &Outcome) -> (r: Result<(), RuntimeError>)
        ensures
            unit_result(r) == cli_check_result(ls@),
    {
        match ls {
            Outcome::NotRun(e) => Err(cannot_spawn(e.as_str())),
            Outcome::Ended { success, .. } => if *success {
                Ok(())
            } else {
                Err(
                    RuntimeError::Other(
                        "container CLI/daemon not reachable (run: container system start)".to_string(),
                    ),
                )
            },
        }
    }

    /// Judges pulling an image with the `container` tool.
    pub fn cli_prepare(&self, image: &str, pull: &Outcome) -> (r: Result<(), RuntimeError>)
        ensures
            unit_result(r) == cli_pull_result(image@, pull@),
    {
        match pull {
            Outcome::NotRun(e) => Err(cannot_spawn(e.as_str())),
            Outcome::Ended { success, .. } => if *success {
                Ok(())
            } else {
                let mut m = "container image pull ".to_string();
                m.append(image);
                m.append(" failed");
                Err(RuntimeError::Other(m))
            },
        }
    }

    /// Makes the commands of a container service with the `container` tool.
    pub fn cli_exec_set(&self, service: &Service) -> (r: Result<ExecSet, RuntimeError>)
        ensures
            exec_result(r) == cli_commands(self.namespace@, service@),
    {
        let image = match require_image(service) {
            Ok(image) => image,
            Err(e) => {
                return Err(e);
            },
        };
        let name = container_name(self.namespace.as_str(), service);
        let mut pre_start = "container image pull ".to_string();
        pre_start.append(image.as_str());
        let mut stop = "container stop ".to_string();
        stop.append(name.as_str());
        let mut post_stop = "container delete --force ".to_string();
        post_stop.append(name.as_str());
        Ok(
            ExecSet {
                start: container_run("container", name.as_str(), service, image.as_str()),
                pre_start: Some(pre_start),
                stop: Some(stop),
                post_stop: Some(post_stop),
            },
        )
    }

    /// What has to be done before a service's commands are made.
    pub fn prepare(&self, service: &Service) -> (r: Result<Preparation, RuntimeError>)
        ensures
            match r {
                Ok(p) => apple_preparation(self.mode, self.data_dir@, service@) == Ok::<
                    PreparationView,
                    RuntimeErrorView,
                >(p@),
                Err(e) => apple_preparation(self.mode, self.data_dir@, service@) == Err::<
                    PreparationView,
                    RuntimeErrorView,
                >(e@),
            },
    {
        if service.is_host() {
            let path = service_data(self.data_dir.as_str(), service);
            return Ok(Preparation::Directory { path });
        }
        match self.mode {
            AppleMode::ContainerCli => match require_image(service) {
                Ok(image) => Ok(Preparation::Pull { image }),
                Err(e) => Err(e),
            },
            _ => Ok(Preparation::Ask),
        }
    }

    /// Whether the co-process has to be asked for the commands of a service.
    pub fn asks(&self, service: &Service) -> (r: bool)
        ensures
            r == asks(self.mode, service@),
    {
        !service.is_host() && self.mode != AppleMode::ContainerCli
    }

    /// Makes the commands of a service for which no co-process has to be asked.
    pub fn exec_set(&self, service: &Service) -> (r: Result<ExecSet, RuntimeError>)
        requires
            !asks(self.mode, service@),
        ensures
            exec_result(r) == apple_commands(self.namespace@, service@),
    {
        if service.is_host() {
            host_exec_set(service)
        } else {
            self.cli_exec_set(service)
        }
    }
}

/// Reports that the answer of the co-process holds no commands.
pub fn bad_answer(reason: &str, raw: &str) -> (r: RuntimeError)
    ensures
        r@ == RuntimeErrorView::Other(
            "failed to deserialize ExecSet from co-process: "@ + reason@ + "\nraw: "@ + raw@,
        ),
{
    let mut m = "failed to deserialize ExecSet from co-process: ".to_string();
    m.append(reason);
    m.append("\nraw: ");
    m.append(raw);
    RuntimeError::Other(m)
}

} // verus!
