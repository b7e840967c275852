//! The command line that runs a container, as container tools take it.

use crate::collections::Entry;
use crate::text::number::{decimal, push_decimal};
use crate::types::{
    CpuCountView, PortMappingView, ResourceLimits, Service, ServiceView, VolumeMountView,
};
use vstd::prelude::*;

verus! {

/// Environment variables as flags.
pub open spec fn env_flags(env: Seq<Entry>) -> Seq<char>
    decreases env.len(),
{
    if env.len() == 0 {
        Seq::empty()
    } else {
        env_flags(env.drop_last()) + " --env "@ + env.last().0 + "="@ + env.last().1
    }
}

/// Environment files as flags.
pub open spec fn env_file_flags(files: Seq<Seq<char>>) -> Seq<char>
    decreases files.len(),
{
    if files.len() == 0 {
        Seq::empty()
    } else {
        env_file_flags(files.drop_last()) + " --env-file "@ + files.last()
    }
}

/// Volumes as flags.
pub open spec fn volume_flags(volumes: Seq<VolumeMountView>) -> Seq<char>
    decreases volumes.len(),
{
    if volumes.len() == 0 {
        Seq::empty()
    } else {
        volume_flags(volumes.drop_last()) + " --volume "@ + volumes.last().source + ":"@
            + volumes.last().destination
    }
}

/// A published port as a flag.
pub open spec fn publish_flag(p: PortMappingView) -> Seq<char> {
    " --publish "@ + (match p.address {
        Some(address) => address + ":"@,
        None => Seq::empty(),
    }) + decimal(p.host as nat) + ":"@ + decimal(p.container as nat)
}

/// Published ports as flags.
pub open spec fn publish_flags(ports: Seq<PortMappingView>) -> Seq<char>
    decreases ports.len(),
{
    if ports.len() == 0 {
        Seq::empty()
    } else {
        publish_flags(ports.drop_last()) + publish_flag(ports.last())
    }
}

/// A flag with an optional value.
pub open spec fn optional_flag(flag: Seq<char>, value: Option<Seq<char>>) -> Seq<char> {
    match value {
        Some(v) => flag + v,
        None => Seq::empty(),
    }
}

/// A number of CPUs: without a fraction where it is whole.
pub open spec fn cpu_text(cpus: CpuCountView) -> Seq<char> {
    match cpus.whole {
        Some(n) => decimal(n as nat),
        None => cpus.text,
    }
}

/// A number of CPUs as a flag.
pub open spec fn cpu_flag(cpus: Option<CpuCountView>) -> Seq<char> {
    match cpus {
        Some(c) => " --cpus "@ + cpu_text(c),
        None => Seq::empty(),
    }
}

/// All flags of a service's container.
pub open spec fn service_flags(service: ServiceView) -> Seq<char> {
    env_flags(service.env) + env_file_flags(service.env_files) + volume_flags(service.volumes)
        + publish_flags(service.publish) + optional_flag(" --memory "@, service.resources.memory)
        + cpu_flag(service.resources.cpus) + optional_flag(" --user "@, service.user)
        + optional_flag(" --workdir "@, service.workdir) + optional_flag(
        " --entrypoint "@,
        service.entrypoint,
    )
}

/// The command line that runs a service's container with a tool.
pub open spec fn run_command(
    tool: Seq<char>,
    container: Seq<char>,
    service: ServiceView,
    image: Seq<char>,
) -> Seq<char> {
    tool + " run --name "@ + container + " --init"@ + service_flags(service) + " "@ + image
        + optional_flag(" "@, service.cmd)
}

fn push_env_flags(out: &mut String, service: &Service)
    ensures
        final(out)@ == old(out)@ + env_flags(service@.env),
{
    let ghost before = out@;
    let ghost env = service@.env;
    let n: usize = service.env.len();
    assert(out@ =~= before + env_flags(env.take(0)));
    for i in 0..n
        invariant
            env == service.env.entries(),
            n == env.len(),
            out@ == before + env_flags(env.take(i as int)),
    {
        assert(env.take(i + 1).drop_last() == env.take(i as int));
        out.append(" --env ");
        out.append(service.env.key_at(i));
        out.append("=");
        out.append(service.env.value_at(i));
        assert(out@ =~= before + env_flags(env.take(i + 1)));
    }
    assert(env.take(n as int) == env);
}

fn push_env_file_flags(out: &mut String, files: &Vec<String>)
    ensures
        final(out)@ == old(out)@ + env_file_flags(files.deep_view()),
{
    let ghost before = out@;
    let ghost all = files.deep_view();
    let n: usize = files.len();
    assert(out@ =~= before + env_file_flags(all.take(0)));
    for i in 0..n
        invariant
            n == files@.len(),
            all == files.deep_view(),
            out@ == before + env_file_flags(all.take(i as int)),
    {
        assert(all.take(i + 1).drop_last() == all.take(i as int));
        assert(all.take(i + 1).last() == files@[i as int]@);
        out.append(" --env-file ");
        out.append(files[i].as_str());
        assert(out@ =~= before + env_file_flags(all.take(i + 1)));
    }
    assert(all.take(n as int) == all);
}

fn push_volume_flags(out: &mut String, service: &Service)
    ensures
        final(out)@ == old(out)@ + volume_flags(service@.volumes),
{
    let ghost before = out@;
    let ghost all = service@.volumes;
    let n: usize = service.volumes.len();
    assert(out@ =~= before + volume_flags(all.take(0)));
    for i in 0..n
        invariant
            n == service.volumes@.len(),
            all == service.volumes.deep_view(),
            out@ == before + volume_flags(all.take(i as int)),
    {
        assert(all.take(i + 1).drop_last() == all.take(i as int));
        assert(all.take(i + 1).last() == service.volumes@[i as int]@);
        out.append(" --volume ");
        out.append(service.volumes[i].source.as_str());
        out.append(":");
        out.append(service.volumes[i].destination.as_str());
        assert(out@ =~= before + volume_flags(all.take(i + 1)));
    }
    assert(all.take(n as int) == all);
}

fn push_publish_flags(out: &mut String, service: &Service)
    ensures
        final(out)@ == old(out)@ + publish_flags(service@.publish),
{
    let ghost before = out@;
    let ghost all = service@.publish;
    let n: usize = service.publish.len();
    assert(out@ =~= before + publish_flags(all.take(0)));
    for i in 0..n
        invariant
            n == service.publish@.len(),
            all == service.publish.deep_view(),
            out@ == before + publish_flags(all.take(i as int)),
    {
        assert(all.take(i + 1).drop_last() == all.take(i as int));
        assert(all.take(i + 1).last() == service.publish@[i as int]@);
        let ghost done = out@;
        let p = &service.publish[i];
        out.append(" --publish ");
        if let Some(address) = &p.address {
            out.append(address.as_str());
            out.append(":");
        }
        push_decimal(out, p.host as u64);
        out.append(":");
        push_decimal(out, p.container as u64);
        assert(out@ =~= done + publish_flag(p@));
        assert(out@ =~= before + publish_flags(all.take(i + 1)));
    }
    assert(all.take(n as int) == all);
}

fn push_optional_flag(out: &mut String, flag: &str, value: &Option<String>)
    ensures
        final(out)@ == old(out)@ + optional_flag(flag@, value.deep_view()),
{
    if let Some(v) = value {
        out.append(flag);
        out.append(v.as_str());
    }
    assert(final(out)@ =~= old(out)@ + optional_flag(flag@, value.deep_view()));
}

fn push_cpu_flag(out: &mut String, res: &ResourceLimits)
    ensures
        final(out)@ == old(out)@ + cpu_flag(res@.cpus),
{
    if let Some(cpus) = &res.cpus {
        out.append(" --cpus ");
        match cpus.whole {
            Some(n) => {
                push_decimal(out, n);
            },
            None => {
                out.append(cpus.text.as_str());
            },
        }
    }
    assert(final(out)@ =~= old(out)@ + cpu_flag(res@.cpus));
}

/// Writes all flags of a service's container.
fn flags_of(service: &Service) -> (r: String)
    ensures
        r@ == service_flags(service@),
{
    let mut out = String::new();
    push_env_flags(&mut out, service);
    assert(out@ =~= env_flags(service@.env));
    push_env_file_flags(&mut out, &service.env_files);
    push_volume_flags(&mut out, service);
    push_publish_flags(&mut out, service);
    push_optional_flag(&mut out, " --memory ", &service.resources.memory);
    push_cpu_flag(&mut out, &service.resources);
    push_optional_flag(&mut out, " --user ", &service.user);
    push_optional_flag(&mut out, " --workdir ", &service.workdir);
    push_optional_flag(&mut out, " --entrypoint ", &service.entrypoint);
    out
}

/// Writes the command line that runs a service's container with a tool.
pub fn container_run(tool: &str, container: &str, service: &Service, image: &str) -> (r: String)
    ensures
        r@ == run_command(tool@, container@, service@, image@),
{
    let mut out = tool.to_string();
    out.append(" run --name ");
    out.append(container);
    out.append(" --init");
    out.append(flags_of(service).as_str());
    out.append(" ");
    out.append(image);
    push_optional_flag(&mut out, " ", &service.cmd);
    out
}

} // verus!
