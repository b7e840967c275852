//! The runtimes: how a service becomes a set of commands.

pub mod apple;
pub mod bare;
pub mod containerd;
pub mod flags;
pub mod laws;
pub mod nerdctl;

use crate::collections::{clone_optional, StringMap};
use crate::config::{value_of, Config};
use crate::exec::{ExecSet, ExecSetView};
use crate::paths::{join, under};
use crate::platform::value_or;
use crate::runtime::apple::{
    apple_commands, apple_preparation, asks, co_process, env_mode, AppleRuntime,
};
use crate::runtime::bare::{bare_commands, BareRuntime};
use crate::runtime::containerd::{containerd_commands, ContainerdRuntime};
use crate::text::chars::same_text;
use crate::types::{Service, ServiceView};
use vstd::prelude::*;

verus! {

/// Errors from runtime operations.
#[derive(Debug)]
pub enum RuntimeError {
    /// A container service was passed to a runtime for host services only.
    UnsupportedMode { service: String, mode: String },
    /// The runtime's prerequisites are not met.
    PrerequisiteMissing(String),
    /// A required program is not found.
    BinaryNotFound(String),
    /// Any other error.
    Other(String),
}

#[verifier::ext_equal]
pub enum RuntimeErrorView {
    UnsupportedMode { service: Seq<char>, mode: Seq<char> },
    PrerequisiteMissing(Seq<char>),
    BinaryNotFound(Seq<char>),
    Other(Seq<char>),
}

impl View for RuntimeError {
    type V = RuntimeErrorView;

    open spec fn view(&self) -> RuntimeErrorView {
        match *self {
            RuntimeError::UnsupportedMode { service, mode } => RuntimeErrorView::UnsupportedMode {
                service: service@,
                mode: mode@,
            },
            RuntimeError::PrerequisiteMissing(s) => RuntimeErrorView::PrerequisiteMissing(s@),
            RuntimeError::BinaryNotFound(s) => RuntimeErrorView::BinaryNotFound(s@),
            RuntimeError::Other(s) => RuntimeErrorView::Other(s@),
        }
    }
}

/// What a runtime error says.
pub open spec fn runtime_message(e: RuntimeErrorView) -> Seq<char> {
    match e {
        RuntimeErrorView::UnsupportedMode { service, mode } => "service '"@ + service
            + "' has mode '"@ + mode + "' which is not supported by this runtime"@,
        RuntimeErrorView::PrerequisiteMissing(s) => "prerequisite missing: "@ + s,
        RuntimeErrorView::BinaryNotFound(s) => "binary not found: "@ + s,
        RuntimeErrorView::Other(s) => s,
    }
}

impl RuntimeError {
    /// What the error says.
    pub fn message(&self) -> (r: String)
        ensures
            r@ == runtime_message(self@),
    {
        match self {
            RuntimeError::UnsupportedMode { service, mode } => {
                let mut r = "service '".to_string();
                r.append(service.as_str());
                r.append("' has mode '");
                r.append(mode.as_str());
                r.append("' which is not supported by this runtime");
                r
            },
            RuntimeError::PrerequisiteMissing(s) => {
                let mut r = "prerequisite missing: ".to_string();
                r.append(s.as_str());
                r
            },
            RuntimeError::BinaryNotFound(s) => {
                let mut r = "binary not found: ".to_string();
                r.append(s.as_str());
                r
            },
            RuntimeError::Other(s) => s.clone(),
        }
    }
}

/// A result with the views of its value and its error.
pub open spec fn exec_result(r: Result<ExecSet, RuntimeError>) -> Result<
    ExecSetView,
    RuntimeErrorView,
> {
    match r {
        Ok(e) => Ok(e@),
        Err(e) => Err(e@),
    }
}

/// A result without a value, with the view of its error.
pub open spec fn unit_result(r: Result<(), RuntimeError>) -> Result<(), RuntimeErrorView> {
    match r {
        Ok(_) => Ok(()),
        Err(e) => Err(e@),
    }
}

/// The commands of a host service, in every runtime: its own command line and
/// its own stop command.
pub open spec fn host_commands(service: ServiceView) -> Result<ExecSetView, RuntimeErrorView> {
    match service.run_command {
        Some(start) => Ok(
            ExecSetView { start, pre_start: None, stop: service.stop_command, post_stop: None },
        ),
        None => Err(
            RuntimeErrorView::Other(
                "service '"@ + service.name + "' is host-mode but has no RUN command"@,
            ),
        ),
    }
}

/// Makes the commands of a host service.
pub fn host_exec_set(service: &Service) -> (r: Result<ExecSet, RuntimeError>)
    ensures
        exec_result(r) == host_commands(service@),
{
    match &service.run_command {
        Some(start) => Ok(
            ExecSet {
                start: start.clone(),
                pre_start: None,
                stop: clone_optional(&service.stop_command),
                post_stop: None,
            },
        ),
        None => {
            let mut m = "service '".to_string();
            m.append(service.name.as_str());
            m.append("' is host-mode but has no RUN command");
            Err(RuntimeError::Other(m))
        },
    }
}

/// Where a service keeps its data.
pub open spec fn data_path(data_dir: Seq<char>, service: ServiceView) -> Seq<char> {
    under(data_dir, service.name)
}

/// Where a service keeps its data.
pub fn service_data(data_dir: &str, service: &Service) -> (r: String)
    ensures
        r@ == data_path(data_dir@, service@),
{
    join(data_dir, service.name.as_str())
}

/// Reports that the data directory of a service cannot be made.
pub fn data_dir_failed(path: &str, reason: &str) -> (r: RuntimeError)
    ensures
        r@ == RuntimeErrorView::Other(
            "failed to create data directory '"@ + path@ + "': "@ + reason@,
        ),
{
    let mut m = "failed to create data directory '".to_string();
    m.append(path);
    m.append("': ");
    m.append(reason);
    RuntimeError::Other(m)
}

/// The name of a service's container.
pub open spec fn container_of(namespace: Seq<char>, service: ServiceView) -> Seq<char> {
    namespace + "-"@ + service.name
}

/// The name of a service's container.
pub fn container_name(namespace: &str, service: &Service) -> (r: String)
    ensures
        r@ == container_of(namespace@, service@),
{
    let mut r = namespace.to_string();
    r.append("-");
    r.append(service.name.as_str());
    r
}

/// The error for a container service without an image.
pub open spec fn no_image(service: ServiceView) -> RuntimeErrorView {
    RuntimeErrorView::Other(
        "service '"@ + service.name + "' is container-mode but has no FROM image"@,
    )
}

/// The image of a container service.
pub fn require_image(service: &Service) -> (r: Result<String, RuntimeError>)
    ensures
        match r {
            Ok(image) => service@.image == Some(image@),
            Err(e) => service@.image is None && e@ == no_image(service@),
        },
{
    match &service.image {
        Some(image) => Ok(image.clone()),
        None => {
            let mut m = "service '".to_string();
            m.append(service.name.as_str());
            m.append("' is container-mode but has no FROM image");
            Err(RuntimeError::Other(m))
        },
    }
}

/// What has to be done before a service's commands are made.
#[derive(Debug)]
pub enum Preparation {
    /// Nothing.
    Nothing,
    /// Make this directory.
    Directory { path: String },
    /// Pull this image.
    Pull { image: String },
    /// Hand the service to the co-process.
    Ask,
}

#[verifier::ext_equal]
pub enum PreparationView {
    Nothing,
    Directory { path: Seq<char> },
    Pull { image: Seq<char> },
    Ask,
}

impl View for Preparation {
    type V = PreparationView;

    open spec fn view(&self) -> PreparationView {
        match *self {
            Preparation::Nothing => PreparationView::Nothing,
            Preparation::Directory { path } => PreparationView::Directory { path: path@ },
            Preparation::Pull { image } => PreparationView::Pull { image: image@ },
            Preparation::Ask => PreparationView::Ask,
        }
    }
}

/// One of the runtimes.
#[derive(Debug)]
pub enum AnyRuntime {
    Bare(BareRuntime),
    Apple(AppleRuntime),
    Containerd(ContainerdRuntime),
}

/// What a runtime has to know of its surroundings.
#[derive(Debug)]
pub struct RuntimeHost {
    /// The environment variables.
    pub vars: StringMap,
    /// The path of this program, if it can be told.
    pub exe: Option<String>,
    /// The path of the co-process next to this program, if it exists there.
    pub sibling: Option<String>,
}

/// What a service becomes, where no co-process has to be asked.
pub open spec fn commands_of(runtime: &AnyRuntime, service: ServiceView) -> Result<
    ExecSetView,
    RuntimeErrorView,
> {
    match *runtime {
        AnyRuntime::Bare(_) => bare_commands(service),
        AnyRuntime::Apple(r) => apple_commands(r.namespace@, service),
        AnyRuntime::Containerd(r) => containerd_commands(
            r.namespace@,
            r.socket@,
            r.exe.deep_view(),
            service,
        ),
    }
}

/// Whether a co-process has to be asked for the commands of a service.
pub open spec fn must_ask(runtime: &AnyRuntime, service: ServiceView) -> bool {
    match *runtime {
        AnyRuntime::Apple(r) => asks(r.mode, service),
        _ => false,
    }
}

/// What has to be done before the commands of a service are made.
pub open spec fn preparation_of(runtime: &AnyRuntime, service: ServiceView) -> Result<
    PreparationView,
    RuntimeErrorView,
> {
    match *runtime {
        AnyRuntime::Bare(r) => Ok(
            PreparationView::Directory { path: data_path(r.data_dir@, service) },
        ),
        AnyRuntime::Apple(r) => apple_preparation(r.mode, r.data_dir@, service),
        AnyRuntime::Containerd(r) => if service.is_host() {
            Ok(PreparationView::Directory { path: data_path(r.data_dir@, service) })
        } else {
            Ok(PreparationView::Nothing)
        },
    }
}

/// The error for a runtime that is not known.
pub open spec fn unknown_runtime(name: Seq<char>) -> RuntimeErrorView {
    RuntimeErrorView::Other(
        "unknown runtime '"@ + name + "'. Available: bare, apple, containerd"@,
    )
}

/// Creates a runtime by its name.
pub fn create_runtime(name: &str, config: &Config, host: &RuntimeHost) -> (r: Result<
    AnyRuntime,
    RuntimeError,
>)
    ensures
        match r {
            Ok(AnyRuntime::Bare(b)) => name@ == "bare"@ && b.data_dir@ == config.data_dir@,
            Ok(AnyRuntime::Apple(a)) => name@ != "bare"@ && name@ == "apple"@ && a.namespace@
                == config.namespace@ && a.data_dir@ == config.data_dir@ && a.mode == env_mode(
                host.vars@,
            ) && a.bin.deep_view() == co_process(a.mode, host.vars@, host.sibling.deep_view()),
            Ok(AnyRuntime::Containerd(c)) => name@ != "bare"@ && name@ != "apple"@ && name@
                == "containerd"@ && c.namespace@ == config.namespace@ && c.data_dir@
                == config.data_dir@ && c.socket@ == value_or(
                value_of(host.vars@, "ORCHD_CONTAINERD_SOCKET"@),
                "/run/containerd/containerd.sock"@,
            ) && c.exe.deep_view() == host.exe.deep_view(),
            Err(e) => name@ != "bare"@ && name@ != "apple"@ && name@ != "containerd"@ && e@
                == unknown_runtime(name@),
        },
{
    if same_text(name, "bare") {
        Ok(AnyRuntime::Bare(BareRuntime::new(config.data_dir.clone())))
    } else if same_text(name, "apple") {
        Ok(AnyRuntime::Apple(AppleRuntime::new(config, &host.vars, &host.sibling)))
    } else if same_text(name, "containerd") {
        Ok(AnyRuntime::Containerd(ContainerdRuntime::new(config, &host.vars, &host.exe)))
    } else {
        let mut m = "unknown runtime '".to_string();
        m.append(name);
        m.append("'. Available: bare, apple, containerd");
        Err(RuntimeError::Other(m))
    }
}

impl AnyRuntime {
    /// The name of the runtime.
    pub fn name(&self) -> (r: &str)
        ensures
            r@ == (match *self {
                AnyRuntime::Bare(_) => "bare"@,
                AnyRuntime::Apple(_) => "apple"@,
                AnyRuntime::Containerd(_) => "containerd"@,
            }),
    {
        match self {
            AnyRuntime::Bare(r) => r.name(),
            AnyRuntime::Apple(r) => r.name(),
            AnyRuntime::Containerd(r) => r.name(),
        }
    }

    /// What has to be done before the commands of a service are made.
    pub fn prepare(&self, service: &Service) -> (r: Result<Preparation, RuntimeError>)
        ensures
            match r {
                Ok(p) => preparation_of(self, service@) == Ok::<PreparationView, RuntimeErrorView>(
                    p@,
                ),
                Err(e) => preparation_of(self, service@) == Err::<
                    PreparationView,
                    RuntimeErrorView,
                >(e@),
            },
    {
        match self {
            AnyRuntime::Bare(r) => Ok(r.prepare(service)),
            AnyRuntime::Apple(r) => r.prepare(service),
            AnyRuntime::Containerd(r) => Ok(r.prepare(service)),
        }
    }

    /// Whether a co-process has to be asked for the commands of a service.
    pub fn must_ask(&self, service: &Service) -> (r: bool)
        ensures
            r == must_ask(self, service@),
    {
        match self {
            AnyRuntime::Apple(r) => r.asks(service),
            _ => false,
        }
    }

    /// Makes the commands of a service for which no co-process has to be asked.
    pub fn exec_set(&self, service: &Service) -> (r: Result<ExecSet, RuntimeError>)
        requires
            !must_ask(self, service@),
        ensures
            exec_result(r) == commands_of(self, service@),
    {
        match self {
            AnyRuntime::Bare(r) => r.exec_set(service),
            AnyRuntime::Apple(r) => r.exec_set(service),
            AnyRuntime::Containerd(r) => r.exec_set(service),
        }
    }
}

/// A host service is run as it is in every runtime: no runtime changes its
/// commands, and none asks a co-process for them.
pub proof fn law_host_services_pass_through(runtime: &AnyRuntime, service: ServiceView)
    requires
        service.is_host(),
    ensures
        commands_of(runtime, service) == host_commands(service),
        !must_ask(runtime, service),
        forall|namespace: Seq<char>| #[trigger]
            crate::runtime::nerdctl::nerdctl_commands(namespace, service) == host_commands(
                service,
            ),
{
}

/// Two services of one namespace never share a container.
pub proof fn law_container_names_differ(namespace: Seq<char>, a: ServiceView, b: ServiceView)
    requires
        container_of(namespace, a) == container_of(namespace, b),
    ensures
        a.name == b.name,
{
    let x = container_of(namespace, a);
    let from = namespace.len() + "-"@.len();
    assert(a.name =~= x.skip(from as int));
    assert(b.name =~= x.skip(from as int));
}

} // verus!
