//! The bare runtime: services run directly on the host.

use crate::exec::{ExecSet, ExecSetView};
use crate::runtime::{
    data_path, exec_result, host_commands, host_exec_set, service_data, unit_result, Preparation,
    PreparationView, RuntimeError, RuntimeErrorView,
};
use crate::platform::{get_or, value_or};
use crate::types::{Service, ServiceMode, ServiceView};
use vstd::prelude::*;

verus! {

/// The bare runtime. A container service has to be turned into a host service
/// by an overlay first; one that is left is an error.
#[derive(Debug)]
pub struct BareRuntime {
    pub data_dir: String,
}

/// What a service becomes on the host.
pub open spec fn bare_commands(service: ServiceView) -> Result<ExecSetView, RuntimeErrorView> {
    if service.is_host() {
        host_commands(service)
    } else {
        Err(
            RuntimeErrorView::UnsupportedMode {
                service: service.name,
                mode: "container (FROM "@ + value_or(service.image, "unknown"@)
                    + "). Create a bare overlay that redefines it with RUN, or use a container runtime (--runtime containerd)"@,
            },
        )
    }
}

impl BareRuntime {
    /// The runtime, with the directory for services' data.
    pub fn new(data_dir: String) -> (r: Self)
        ensures
            r.data_dir@ == data_dir@,
    {
        BareRuntime { data_dir }
    }

    /// The name of the runtime.
    pub fn name(&self) -> (r: &str)
        ensures
            r@ == "bare"@,
    {
        "bare"
    }

    /// The host has all that is needed.
    pub fn check(&self) -> (r: Result<(), RuntimeError>)
        ensures
            unit_result(r) == Ok::<(), RuntimeErrorView>(()),
    {
        Ok(())
    }

    /// Every service gets a data directory.
    pub fn prepare(&self, service: &Service) -> (r: Preparation)
        ensures
            r@ == (PreparationView::Directory { path: data_path(self.data_dir@, service@) }),
    {
        Preparation::Directory { path: service_data(self.data_dir.as_str(), service) }
    }

    /// Makes the commands of a service.
    pub fn exec_set(&self, service: &Service) -> (r: Result<ExecSet, RuntimeError>)
        ensures
            exec_result(r) == bare_commands(service@),
    {
        match service.mode {
            ServiceMode::Host => host_exec_set(service),
            ServiceMode::Container => {
                let mut mode = "container (FROM ".to_string();
                mode.append(get_or(&service.image, "unknown").as_str());
                mode.append(
                    "). Create a bare overlay that redefines it with RUN, or use a container runtime (--runtime containerd)",
                );
                Err(RuntimeError::UnsupportedMode { service: service.name.clone(), mode })
            },
        }
    }

    /// Data directories are left as they are.
    pub fn cleanup(&self, service: &Service) -> (r: Result<(), RuntimeError>)
        ensures
            unit_result(r) == Ok::<(), RuntimeErrorView>(()),
    {
        Ok(())
    }
}

} // verus!
