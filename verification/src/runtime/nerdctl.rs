//! containerd through `nerdctl`, its command line tool.
//!
//! A container's life: `nerdctl pull`, `nerdctl run`, `nerdctl stop` and
//! `nerdctl rm -f`.

use crate::config::Config;
use crate::exec::{ExecSet, ExecSetView};
use crate::platform::{Outcome, OutcomeView};
use crate::runtime::flags::{container_run, run_command};
use crate::runtime::{
    container_name, container_of, data_path, exec_result, host_commands, host_exec_set, no_image,
    require_image, service_data, unit_result, Preparation, PreparationView, RuntimeError,
    RuntimeErrorView,
};
use crate::types::{Service, ServiceView};
use vstd::prelude::*;

verus! {

/// containerd through `nerdctl`.
#[derive(Debug)]
pub struct ContainerdRuntime {
    pub namespace: String,
    pub data_dir: String,
}

/// What a service becomes with `nerdctl`.
pub open spec fn nerdctl_commands(namespace: Seq<char>, service: ServiceView) -> Result<
    ExecSetView,
    RuntimeErrorView,
> {
    if service.is_host() {
        host_commands(service)
    } else {
        match service.image {
            Some(image) => {
                let name = container_of(namespace, service);
                Ok(
                    ExecSetView {
                        start: run_command("nerdctl"@, name, service, image),
                        pre_start: Some("nerdctl pull "@ + image),
                        stop: Some("nerdctl stop "@ + name),
                        post_stop: Some("nerdctl rm -f "@ + name),
                    },
                )
            },
            None => Err(no_image(service)),
        }
    }
}

/// What the answer to `nerdctl version` means.
pub open spec fn nerdctl_check(outcome: OutcomeView) -> Result<(), RuntimeErrorView> {
    match outcome {
        OutcomeView::NotRun(e) => Err(
            RuntimeErrorView::BinaryNotFound("could not spawn 'nerdctl': "@ + e),
        ),
        OutcomeView::Ended { success, .. } => if success {
            Ok(())
        } else {
            Err(
                RuntimeErrorView::Other(
                    "containerd not reachable via nerdctl (is containerd running?)"@,
                ),
            )
        },
    }
}

impl ContainerdRuntime {
    /// The runtime for the settings.
    pub fn new(config: &Config) -> (r: Self)
        ensures
            r.namespace@ == config.namespace@,
            r.data_dir@ == config.data_dir@,
    {
        ContainerdRuntime {
            namespace: config.namespace.clone(),
            data_dir: config.data_dir.clone(),
        }
    }

    /// The name of the runtime.
    pub fn name(&self) -> (r: &str)
        ensures
            r@ == "containerd"@,
    {
        "containerd"
    }

    /// Checks that containerd can be reached, given the answer to
    /// `nerdctl version`.
    pub fn check(&self, version: &Outcome) -> (r: Result<(), RuntimeError>)
        ensures
            unit_result(r) == nerdctl_check(version@),
    {
        match version {
            Outcome::NotRun(e) => {
                let mut m = "could not spawn 'nerdctl': ".to_string();
                m.append(e.as_str());
                Err(RuntimeError::BinaryNotFound(m))
            },
            Outcome::Ended { success, .. } => if *success {
                Ok(())
            } else {
                Err(
                    RuntimeError::Other(
                        "containerd not reachable via nerdctl (is containerd running?)".to_string(),
                    ),
                )
            },
        }
    }

    /// A host service gets a data directory; images are pulled when the
    /// container starts.
    pub fn prepare(&self, service: &Service) -> (r: Preparation)
        ensures
            r@ == (if service@.is_host() {
                PreparationView::Directory { path: data_path(self.data_dir@, service@) }
            } else {
                PreparationView::Nothing
            }),
    {
        if service.is_host() {
            Preparation::Directory { path: service_data(self.data_dir.as_str(), service) }
        } else {
            Preparation::Nothing
        }
    }

    /// Makes the commands of a service.
    pub fn exec_set(&self, service: &Service) -> (r: Result<ExecSet, RuntimeError>)
        ensures
            exec_result(r) == nerdctl_commands(self.namespace@, service@),
    {
        if service.is_host() {
            return host_exec_set(service);
        }
        let image = match require_image(service) {
            Ok(image) => image,
            Err(e) => {
                return Err(e);
            },
        };
        let name = container_name(self.namespace.as_str(), service);
        let mut pre_start = "nerdctl pull ".to_string();
        pre_start.append(image.as_str());
        let mut stop = "nerdctl stop ".to_string();
        stop.append(name.as_str());
        let mut post_stop = "nerdctl rm -f ".to_string();
        post_stop.append(name.as_str());
        Ok(
            ExecSet {
                start: container_run("nerdctl", name.as_str(), service, image.as_str()),
                pre_start: Some(pre_start),
                stop: Some(stop),
                post_stop: Some(post_stop),
            },
        )
    }
}

} // verus!
