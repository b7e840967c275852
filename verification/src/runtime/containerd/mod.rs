//! containerd, driven over its API in process.
//!
//! The command of a container is one foreground process,
//! `orchd containerd-run --spec <word>`, which owns the container's whole life:
//! it pulls, runs, waits and removes. So there is nothing to run before or after
//! it, nor to stop it but a signal.

pub mod image;
pub mod laws;
pub mod oci;
pub mod run;

use crate::collections::{clone_optional, Entry, StringMap};
use crate::config::{value_of, Config};
use crate::exec::{ExecSet, ExecSetView};
use crate::platform::{get_or, value_or};
use crate::runtime::containerd::run::{encode_spec, encoded, ContainerdRunSpec, RunSpecView};
use crate::runtime::{
    container_name, container_of, data_path, exec_result, host_commands, host_exec_set, no_image,
    require_image, service_data, unit_result, Preparation, PreparationView, RuntimeError,
    RuntimeErrorView,
};
use crate::text::order::{sort_texts, sorted};
use crate::text::scan::{split_words, words};
use crate::types::{Service, ServiceView};
use vstd::prelude::*;

verus! {

/// containerd, driven over its API.
#[derive(Debug)]
pub struct ContainerdRuntime {
    pub namespace: String,
    pub data_dir: String,
    /// The socket of containerd.
    pub socket: String,
    /// The path of this program, if it can be told.
    pub exe: Option<String>,
}

/// The words of an optional text.
pub open spec fn optional_words(text: Option<Seq<char>>) -> Seq<Seq<char>> {
    match text {
        Some(t) => words(t),
        None => Seq::empty(),
    }
}

/// The environment as `KEY=VALUE` texts in ascending order.
pub open spec fn env_texts(env: Seq<Entry>) -> Seq<Seq<char>> {
    sorted(env.map_values(|e: Entry| e.0 + "="@ + e.1))
}

/// What a container service's run is told.
pub open spec fn run_spec_of(
    namespace: Seq<char>,
    socket: Seq<char>,
    service: ServiceView,
    image: Seq<char>,
) -> RunSpecView {
    RunSpecView {
        socket,
        namespace,
        image,
        container_id: container_of(namespace, service),
        args: optional_words(service.entrypoint) + optional_words(service.cmd),
        env: env_texts(service.env),
        cwd: value_or(service.workdir, Seq::empty()),
        user: service.user,
    }
}

/// What a service becomes with containerd.
pub open spec fn containerd_commands(
    namespace: Seq<char>,
    socket: Seq<char>,
    exe: Option<Seq<char>>,
    service: ServiceView,
) -> Result<ExecSetView, RuntimeErrorView> {
    if service.is_host() {
        host_commands(service)
    } else {
        match service.image {
            Some(image) => Ok(
                ExecSetView {
                    start: value_or(exe, "orchd"@) + " containerd-run --spec "@ + encoded(
                        run_spec_of(namespace, socket, service, image),
                    ),
                    pre_start: None,
                    stop: None,
                    post_stop: None,
                },
            ),
            None => Err(no_image(service)),
        }
    }
}

fn push_words(args: &mut Vec<String>, text: &Option<String>)
    ensures
        final(args).deep_view() == old(args).deep_view() + optional_words(text.deep_view()),
{
    let ghost before = args.deep_view();
    if let Some(t) = text {
        let ws = split_words(t.as_str());
        let ghost all = ws.deep_view();
        let n: usize = ws.len();
        assert(args.deep_view() =~= before + all.take(0));
        for i in 0..n
            invariant
                n == ws@.len(),
                all == ws.deep_view(),
                args.deep_view() == before + all.take(i as int),
        {
            let ghost done = args.deep_view();
            args.push(ws[i].clone());
            assert(args.deep_view() =~= done.push(all[i as int]));
            assert(args.deep_view() =~= before + all.take(i + 1));
        }
        assert(all.take(n as int) == all);
    }
    assert(final(args).deep_view() =~= before + optional_words(text.deep_view()));
}

fn env_list(service: &Service) -> (r: Vec<String>)
    ensures
        r.deep_view() == env_texts(service@.env),
{
    let ghost env = service@.env;
    let ghost all = env.map_values(|e: Entry| e.0 + "="@ + e.1);
    let mut r: Vec<String> = Vec::new();
    let n: usize = service.env.len();
    assert(r.deep_view() =~= all.take(0));
    for i in 0..n
        invariant
            env == service.env.entries(),
            n == env.len(),
            all == env.map_values(|e: Entry| e.0 + "="@ + e.1),
            r.deep_view() == all.take(i as int),
    {
        let ghost done = r.deep_view();
        let mut text = service.env.key_at(i).to_string();
        text.append("=");
        text.append(service.env.value_at(i));
        r.push(text);
        assert(r.deep_view() =~= done.push(all[i as int]));
        assert(r.deep_view() =~= all.take(i + 1));
    }
    assert(all.take(n as int) == all);
    sort_texts(&r)
}

impl ContainerdRuntime {
    /// The runtime for the settings. The socket is that of
    /// `ORCHD_CONTAINERD_SOCKET`, or containerd's default.
    pub fn new(config: &Config, vars: &StringMap, exe: &Option<String>) -> (r: Self)
        ensures
            r.namespace@ == config.namespace@,
            r.data_dir@ == config.data_dir@,
            r.socket@ == value_or(
                value_of(vars@, "ORCHD_CONTAINERD_SOCKET"@),
                "/run/containerd/containerd.sock"@,
            ),
            r.exe.deep_view() == exe.deep_view(),
    {
        let socket = match vars.get("ORCHD_CONTAINERD_SOCKET") {
            Some(s) => s.clone(),
            None => "/run/containerd/containerd.sock".to_string(),
        };
        ContainerdRuntime {
            namespace: config.namespace.clone(),
            data_dir: config.data_dir.clone(),
            socket,
            exe: clone_optional(exe),
        }
    }

    /// The name of the runtime.
    pub fn name(&self) -> (r: &str)
        ensures
            r@ == "containerd"@,
    {
        "containerd"
    }

    /// Checks that the socket is there, given whether it exists.
    pub fn check(&self, socket_exists: bool) -> (r: Result<(), RuntimeError>)
        ensures
            unit_result(r) == (if socket_exists {
                Ok(())
            } else {
                Err(
                    RuntimeErrorView::Other(
                        "containerd socket '"@ + self.socket@
                            + "' not found (is containerd running?)"@,
                    ),
                )
            }),
    {
        if socket_exists {
            return Ok(());
        }
        let mut m = "containerd socket '".to_string();
        m.append(self.socket.as_str());
        m.append("' not found (is containerd running?)");
        Err(RuntimeError::Other(m))
    }

    /// A host service gets a data directory; images are pulled when the
    /// container starts.
    pub fn prepare(&self, service: &Service) -> (r: Preparation)
        ensures
            r@ == (if service@.is_host() {
                PreparationView::Directory { path: data_path(self.data_dir@, service@) }
            } else {
                PreparationView::Nothing
            }),
    {
        if service.is_host() {
            Preparation::Directory { path: service_data(self.data_dir.as_str(), service) }
        } else {
            Preparation::Nothing
        }
    }

    /// What a container service's run is told.
    pub fn run_spec(&self, service: &Service, image: &str) -> (r: ContainerdRunSpec)
        ensures
            r@ == run_spec_of(self.namespace@, self.socket@, service@, image@),
    {
        let mut args: Vec<String> = Vec::new();
        assert(args.deep_view() =~= Seq::<Seq<char>>::empty());
        push_words(&mut args, &service.entrypoint);
        assert(args.deep_view() =~= optional_words(service@.entrypoint));
        push_words(&mut args, &service.cmd);
        let cwd = match &service.workdir {
            Some(dir) => dir.clone(),
            None => String::new(),
        };
        ContainerdRunSpec {
            socket: self.socket.clone(),
            namespace: self.namespace.clone(),
            image: image.to_string(),
            container_id: container_name(self.namespace.as_str(), service),
            args,
            env: env_list(service),
            cwd,
            user: clone_optional(&service.user),
        }
    }

    /// Makes the commands of a service.
    pub fn exec_set(&self, service: &Service) -> (r: Result<ExecSet, RuntimeError>)
        ensures
            exec_result(r) == containerd_commands(
                self.namespace@,
                self.socket@,
                self.exe.deep_view(),
                service@,
            ),
    {
        if service.is_host() {
            return host_exec_set(service);
        }
        let image = match require_image(service) {
            Ok(image) => image,
            Err(e) => {
                return Err(e);
            },
        };
        let spec = self.run_spec(service, image.as_str());
        let mut start = get_or(&self.exe, "orchd");
        start.append(" containerd-run --spec ");
        start.append(encode_spec(&spec).as_str());
        Ok(ExecSet { start, pre_start: None, stop: None, post_stop: None })
    }
}

} // verus!
