//! What an Orchfile declares: services and their settings.

use crate::collections::{clone_list, clone_optional, Entry, StringMap};
use vstd::prelude::*;

verus! {

/// How a service runs.
#[derive(Debug, Clone, Copy, PartialEq, Eq, Structural)]
pub enum ServiceMode {
    Container,
    Host,
}

/// When a service is started again after it ended.
#[derive(Debug, Clone, Copy, PartialEq, Eq, Structural)]
pub enum RestartPolicy {
    No,
    Always,
    OnFailure,
}

impl Default for RestartPolicy {
    fn default() -> (r: Self)
        ensures
            r == RestartPolicy::No,
    {
        RestartPolicy::No
    }
}

/// Whether a container is made anew on each start.
#[derive(Debug, Clone, Copy, PartialEq, Eq, Structural)]
pub enum RecreatePolicy {
    Always,
    Never,
}

impl Default for RecreatePolicy {
    fn default() -> (r: Self)
        ensures
            r == RecreatePolicy::Never,
    {
        RecreatePolicy::Never
    }
}

/// A published port: `[address:]host:container`.
#[derive(Debug)]
pub struct PortMapping {
    pub address: Option<String>,
    pub host: u16,
    pub container: u16,
}

#[verifier::ext_equal]
pub struct PortMappingView {
    pub address: Option<Seq<char>>,
    pub host: u16,
    pub container: u16,
}

impl View for PortMapping {
    type V = PortMappingView;

    open spec fn view(&self) -> PortMappingView {
        PortMappingView {
            address: self.address.deep_view(),
            host: self.host,
            container: self.container,
        }
    }
}

impl DeepView for PortMapping {
    type V = PortMappingView;

    open spec fn deep_view(&self) -> PortMappingView {
        self@
    }
}

impl Clone for PortMapping {
    fn clone(&self) -> (r: Self)
        ensures
            r@ == self@,
    {
        PortMapping {
            address: clone_optional(&self.address),
            host: self.host,
            container: self.container,
        }
    }
}

/// A mounted volume.
#[derive(Debug)]
pub struct VolumeMount {
    pub source: String,
    pub destination: String,
    pub is_named: bool,
}

#[verifier::ext_equal]
pub struct VolumeMountView {
    pub source: Seq<char>,
    pub destination: Seq<char>,
    pub is_named: bool,
}

impl View for VolumeMount {
    type V = VolumeMountView;

    open spec fn view(&self) -> VolumeMountView {
        VolumeMountView {
            source: self.source@,
            destination: self.destination@,
            is_named: self.is_named,
        }
    }
}

impl DeepView for VolumeMount {
    type V = VolumeMountView;

    open spec fn deep_view(&self) -> VolumeMountView {
        self@
    }
}

impl Clone for VolumeMount {
    fn clone(&self) -> (r: Self)
        ensures
            r@ == self@,
    {
        VolumeMount {
            source: self.source.clone(),
            destination: self.destination.clone(),
            is_named: self.is_named,
        }
    }
}

/// A number of CPUs, which need not be whole.
#[derive(Debug)]
pub struct CpuCount {
    /// Hundredths of a CPU, rounded towards zero.
    pub percent: u32,
    /// The number itself where it is whole.
    pub whole: Option<u64>,
    /// The number as written.
    pub text: String,
}

#[verifier::ext_equal]
pub struct CpuCountView {
    pub percent: u32,
    pub whole: Option<u64>,
    pub text: Seq<char>,
}

impl View for CpuCount {
    type V = CpuCountView;

    open spec fn view(&self) -> CpuCountView {
        CpuCountView { percent: self.percent, whole: self.whole, text: self.text@ }
    }
}

impl DeepView for CpuCount {
    type V = CpuCountView;

    open spec fn deep_view(&self) -> CpuCountView {
        self@
    }
}

impl Clone for CpuCount {
    fn clone(&self) -> (r: Self)
        ensures
            r@ == self@,
    {
        CpuCount { percent: self.percent, whole: self.whole, text: self.text.clone() }
    }
}

/// Limits on what a service may use.
#[derive(Debug)]
pub struct ResourceLimits {
    pub memory: Option<String>,
    pub cpus: Option<CpuCount>,
    pub cpu_quota: Option<String>,
    pub limit_nofile: Option<u64>,
    pub limit_nproc: Option<u64>,
    pub tasks_max: Option<u64>,
    pub io_weight: Option<u32>,
}

#[verifier::ext_equal]
pub struct ResourceLimitsView {
    pub memory: Option<Seq<char>>,
    pub cpus: Option<CpuCountView>,
    pub cpu_quota: Option<Seq<char>>,
    pub limit_nofile: Option<u64>,
    pub limit_nproc: Option<u64>,
    pub tasks_max: Option<u64>,
    pub io_weight: Option<u32>,
}

impl View for ResourceLimits {
    type V = ResourceLimitsView;

    open spec fn view(&self) -> ResourceLimitsView {
        ResourceLimitsView {
            memory: self.memory.deep_view(),
            cpus: self.cpus.deep_view(),
            cpu_quota: self.cpu_quota.deep_view(),
            limit_nofile: self.limit_nofile,
            limit_nproc: self.limit_nproc,
            tasks_max: self.tasks_max,
            io_weight: self.io_weight,
        }
    }
}

impl Clone for ResourceLimits {
    fn clone(&self) -> (r: Self)
        ensures
            r@ == self@,
    {
        let cpus = match &self.cpus {
            Some(c) => Some(c.clone()),
            None => None,
        };
        ResourceLimits {
            memory: clone_optional(&self.memory),
            cpus,
            cpu_quota: clone_optional(&self.cpu_quota),
            limit_nofile: self.limit_nofile,
            limit_nproc: self.limit_nproc,
            tasks_max: self.tasks_max,
            io_weight: self.io_weight,
        }
    }
}

impl Default for ResourceLimits {
    fn default() -> (r: Self)
        ensures
            r@ == (ResourceLimitsView {
                memory: None,
                cpus: None,
                cpu_quota: None,
                limit_nofile: None,
                limit_nproc: None,
                tasks_max: None,
                io_weight: None,
            }),
    {
        ResourceLimits {
            memory: None,
            cpus: None,
            cpu_quota: None,
            limit_nofile: None,
            limit_nproc: None,
            tasks_max: None,
            io_weight: None,
        }
    }
}

/// How a service is restarted.
#[derive(Debug)]
pub struct RestartConfig {
    pub policy: RestartPolicy,
    pub delay: Option<String>,
    pub start_limit_burst: Option<u32>,
    pub start_limit_interval: Option<String>,
}

#[verifier::ext_equal]
pub struct RestartConfigView {
    pub policy: RestartPolicy,
    pub delay: Option<Seq<char>>,
    pub start_limit_burst: Option<u32>,
    pub start_limit_interval: Option<Seq<char>>,
}

impl View for RestartConfig {
    type V = RestartConfigView;

    open spec fn view(&self) -> RestartConfigView {
        RestartConfigView {
            policy: self.policy,
            delay: self.delay.deep_view(),
            start_limit_burst: self.start_limit_burst,
            start_limit_interval: self.start_limit_interval.deep_view(),
        }
    }
}

impl Clone for RestartConfig {
    fn clone(&self) -> (r: Self)
        ensures
            r@ == self@,
    {
        RestartConfig {
            policy: self.policy,
            delay: clone_optional(&self.delay),
            start_limit_burst: self.start_limit_burst,
            start_limit_interval: clone_optional(&self.start_limit_interval),
        }
    }
}

impl Default for RestartConfig {
    fn default() -> (r: Self)
        ensures
            r@ == (RestartConfigView {
                policy: RestartPolicy::No,
                delay: None,
                start_limit_burst: None,
                start_limit_interval: None,
            }),
    {
        RestartConfig {
            policy: RestartPolicy::No,
            delay: None,
            start_limit_burst: None,
            start_limit_interval: None,
        }
    }
}

/// How long starting and stopping may take.
#[derive(Debug)]
pub struct TimeoutConfig {
    pub start: Option<String>,
    pub stop: Option<String>,
}

#[verifier::ext_equal]
pub struct TimeoutConfigView {
    pub start: Option<Seq<char>>,
    pub stop: Option<Seq<char>>,
}

impl View for TimeoutConfig {
    type V = TimeoutConfigView;

    open spec fn view(&self) -> TimeoutConfigView {
        TimeoutConfigView { start: self.start.deep_view(), stop: self.stop.deep_view() }
    }
}

impl Clone for TimeoutConfig {
    fn clone(&self) -> (r: Self)
        ensures
            r@ == self@,
    {
        TimeoutConfig { start: clone_optional(&self.start), stop: clone_optional(&self.stop) }
    }
}

impl Default for TimeoutConfig {
    fn default() -> (r: Self)
        ensures
            r@ == (TimeoutConfigView { start: None, stop: None }),
    {
        TimeoutConfig { start: None, stop: None }
    }
}

/// Where a service's output goes.
#[derive(Debug)]
pub struct LogConfig {
    pub stdout: Option<String>,
    pub stderr: Option<String>,
}

#[verifier::ext_equal]
pub struct LogConfigView {
    pub stdout: Option<Seq<char>>,
    pub stderr: Option<Seq<char>>,
}

impl View for LogConfig {
    type V = LogConfigView;

    open spec fn view(&self) -> LogConfigView {
        LogConfigView { stdout: self.stdout.deep_view(), stderr: self.stderr.deep_view() }
    }
}

impl Clone for LogConfig {
    fn clone(&self) -> (r: Self)
        ensures
            r@ == self@,
    {
        LogConfig { stdout: clone_optional(&self.stdout), stderr: clone_optional(&self.stderr) }
    }
}

impl Default for LogConfig {
    fn default() -> (r: Self)
        ensures
            r@ == (LogConfigView { stdout: None, stderr: None }),
    {
        LogConfig { stdout: None, stderr: None }
    }
}

/// One service of an Orchfile.
#[derive(Debug)]
pub struct Service {
    pub name: String,
    pub mode: ServiceMode,
    /// The image of a container service.
    pub image: Option<String>,
    /// The command line of a host service.
    pub run_command: Option<String>,
    pub entrypoint: Option<String>,
    pub cmd: Option<String>,
    pub publish: Vec<PortMapping>,
    pub volumes: Vec<VolumeMount>,
    pub user: Option<String>,
    pub stop_command: Option<String>,
    pub reload_command: Option<String>,
    pub workdir: Option<String>,
    pub env: StringMap,
    pub env_files: Vec<String>,
    /// Services that must be up before this one, and stay up.
    pub requires: Vec<String>,
    /// Services that are started before this one.
    pub after: Vec<String>,
    pub healthcheck: Option<String>,
    pub readiness_timeout: Option<String>,
    pub oneshot: bool,
    pub disabled: bool,
    pub recreate: RecreatePolicy,
    pub restart: RestartConfig,
    pub timeouts: TimeoutConfig,
    pub resources: ResourceLimits,
    pub logging: LogConfig,
}

/// A service as mathematical values.
#[verifier::ext_equal]
pub struct ServiceView {
    pub name: Seq<char>,
    pub mode: ServiceMode,
    pub image: Option<Seq<char>>,
    pub run_command: Option<Seq<char>>,
    pub entrypoint: Option<Seq<char>>,
    pub cmd: Option<Seq<char>>,
    pub publish: Seq<PortMappingView>,
    pub volumes: Seq<VolumeMountView>,
    pub user: Option<Seq<char>>,
    pub stop_command: Option<Seq<char>>,
    pub reload_command: Option<Seq<char>>,
    pub workdir: Option<Seq<char>>,
    /// The environment in ascending order of its keys.
    pub env: Seq<Entry>,
    pub env_files: Seq<Seq<char>>,
    pub requires: Seq<Seq<char>>,
    pub after: Seq<Seq<char>>,
    pub healthcheck: Option<Seq<char>>,
    pub readiness_timeout: Option<Seq<char>>,
    pub oneshot: bool,
    pub disabled: bool,
    pub recreate: RecreatePolicy,
    pub restart: RestartConfigView,
    pub timeouts: TimeoutConfigView,
    pub resources: ResourceLimitsView,
    pub logging: LogConfigView,
}

impl View for Service {
    type V = ServiceView;

    open spec fn view(&self) -> ServiceView {
        ServiceView {
            name: self.name@,
            mode: self.mode,
            image: self.image.deep_view(),
            run_command: self.run_command.deep_view(),
            entrypoint: self.entrypoint.deep_view(),
            cmd: self.cmd.deep_view(),
            publish: self.publish.deep_view(),
            volumes: self.volumes.deep_view(),
            user: self.user.deep_view(),
            stop_command: self.stop_command.deep_view(),
            reload_command: self.reload_command.deep_view(),
            workdir: self.workdir.deep_view(),
            env: self.env.entries(),
            env_files: self.env_files.deep_view(),
            requires: self.requires.deep_view(),
            after: self.after.deep_view(),
            healthcheck: self.healthcheck.deep_view(),
            readiness_timeout: self.readiness_timeout.deep_view(),
            oneshot: self.oneshot,
            disabled: self.disabled,
            recreate: self.recreate,
            restart: self.restart@,
            timeouts: self.timeouts@,
            resources: self.resources@,
            logging: self.logging@,
        }
    }
}

impl DeepView for Service {
    type V = ServiceView;

    open spec fn deep_view(&self) -> ServiceView {
        self@
    }
}

impl Clone for Service {
    fn clone(&self) -> (r: Self)
        ensures
            r@ == self@,
    {
        let mut publish: Vec<PortMapping> = Vec::new();
        let n: usize = self.publish.len();
        for i in 0..n
            invariant
                n == self.publish@.len(),
                publish.deep_view() == self.publish.deep_view().take(i as int),
        {
            let ghost done = publish.deep_view();
            publish.push(self.publish[i].clone());
            assert(publish.deep_view() =~= done.push(self.publish.deep_view()[i as int]));
            assert(publish.deep_view() =~= self.publish.deep_view().take(i + 1));
        }
        let mut volumes: Vec<VolumeMount> = Vec::new();
        let m: usize = self.volumes.len();
        for i in 0..m
            invariant
                m == self.volumes@.len(),
                volumes.deep_view() == self.volumes.deep_view().take(i as int),
        {
            let ghost done = volumes.deep_view();
            volumes.push(self.volumes[i].clone());
            assert(volumes.deep_view() =~= done.push(self.volumes.deep_view()[i as int]));
            assert(volumes.deep_view() =~= self.volumes.deep_view().take(i + 1));
        }
        Service {
            name: self.name.clone(),
            mode: self.mode,
            image: clone_optional(&self.image),
            run_command: clone_optional(&self.run_command),
            entrypoint: clone_optional(&self.entrypoint),
            cmd: clone_optional(&self.cmd),
            publish,
            volumes,
            user: clone_optional(&self.user),
            stop_command: clone_optional(&self.stop_command),
            reload_command: clone_optional(&self.reload_command),
            workdir: clone_optional(&self.workdir),
            env: self.env.clone(),
            env_files: clone_list(&self.env_files),
            requires: clone_list(&self.requires),
            after: clone_list(&self.after),
            healthcheck: clone_optional(&self.healthcheck),
            readiness_timeout: clone_optional(&self.readiness_timeout),
            oneshot: self.oneshot,
            disabled: self.disabled,
            recreate: self.recreate,
            restart: self.restart.clone(),
            timeouts: self.timeouts.clone(),
            resources: self.resources.clone(),
            logging: self.logging.clone(),
        }
    }
}

impl ServiceView {
    pub open spec fn is_host(self) -> bool {
        self.mode == ServiceMode::Host
    }

    /// Whether another service is named as a dependency in `requires` or
    /// `after`.
    pub open spec fn depends_on(self, name: Seq<char>) -> bool {
        self.requires.contains(name) || self.after.contains(name)
    }
}

impl Service {
    /// Whether this service runs directly on the host, not in a container.
    pub fn is_host(&self) -> (r: bool)
        ensures
            r == self@.is_host(),
    {
        self.mode == ServiceMode::Host
    }

    /// Whether this service runs in a container.
    pub fn is_container(&self) -> (r: bool)
        ensures
            r == (self@.mode == ServiceMode::Container),
    {
        self.mode == ServiceMode::Container
    }
}

/// A parsed Orchfile.
#[derive(Debug)]
pub struct OrchFile {
    pub version: String,
    pub args: StringMap,
    pub services: Vec<Service>,
}

} // verus!
