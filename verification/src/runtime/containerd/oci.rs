//! The process of a container, and the record that containerd keeps of it.

use crate::codec::json::{json_list, json_text, push_list, quote};
use crate::collections::clone_list;
use crate::runtime::containerd::image::{ImageConfig, ImageConfigView};
use crate::runtime::containerd::run::{ContainerdRunSpec, RunSpecView};
use crate::text::chars::{chars_of, string_of_range};
use crate::text::number::{decimal, parse_u32, parse_unsigned, push_decimal};
use crate::text::scan::{find, find_from, trim, trimmed};
use vstd::prelude::*;

verus! {

/// The process of a container.
#[derive(Debug)]
pub struct Process {
    pub argv: Vec<String>,
    pub env: Vec<String>,
    pub cwd: String,
    pub uid: u32,
    pub gid: u32,
}

#[verifier::ext_equal]
pub struct ProcessView {
    pub argv: Seq<Seq<char>>,
    pub env: Seq<Seq<char>>,
    pub cwd: Seq<char>,
    pub uid: nat,
    pub gid: nat,
}

impl View for Process {
    type V = ProcessView;

    open spec fn view(&self) -> ProcessView {
        ProcessView {
            argv: self.argv.deep_view(),
            env: self.env.deep_view(),
            cwd: self.cwd@,
            uid: self.uid as nat,
            gid: self.gid as nat,
        }
    }
}

/// A number, or another where the text is none.
pub open spec fn number_or(text: Seq<char>, default: nat) -> nat {
    match parse_unsigned(text, u32::MAX as nat) {
        Some(n) => n,
        None => default,
    }
}

/// The user and group that a text denotes: `uid` or `uid:gid`. A name cannot be
/// resolved and stands for root; a group that is missing or a name is the
/// user's number.
pub open spec fn ids_of(user: Option<Seq<char>>) -> (nat, nat) {
    match user {
        None => (0, 0),
        Some(u) => {
            let t = trimmed(u);
            if t.len() == 0 {
                (0, 0)
            } else {
                match find(t, ':') {
                    Some(i) => {
                        let uid = number_or(t.take(i), 0);
                        (uid, number_or(t.skip(i + 1), uid))
                    },
                    None => {
                        let uid = number_or(t, 0);
                        (uid, uid)
                    },
                }
            }
        },
    }
}

fn parse_or(text: &str, default: u32) -> (r: u32)
    ensures
        r == number_or(text@, default as nat),
{
    match parse_u32(text) {
        Some(n) => n,
        None => default,
    }
}

/// Reads a numeric `uid[:gid]`.
pub fn parse_user(user: Option<&str>) -> (r: (u32, u32))
    ensures
        (r.0 as nat, r.1 as nat) == ids_of(
            match user {
                Some(u) => Some(u@),
                None => None,
            },
        ),
{
    let u = match user {
        Some(u) => u,
        None => {
            return (0, 0);
        },
    };
    let t = trim(u);
    let cs = chars_of(t.as_str());
    let n: usize = cs.len();
    if n == 0 {
        return (0, 0);
    }
    assert(cs@.skip(0) == cs@);
    match find_from(cs.as_slice(), ':', 0) {
        Some(i) => {
            let uid = parse_or(string_of_range(cs.as_slice(), 0, i).as_str(), 0);
            let gid = parse_or(string_of_range(cs.as_slice(), i + 1, n).as_str(), uid);
            assert(cs@.subrange(0, i as int) == cs@.take(i as int));
            assert(cs@.subrange(i + 1, n as int) == cs@.skip(i + 1));
            (uid, gid)
        },
        None => {
            let uid = parse_or(t.as_str(), 0);
            (uid, uid)
        },
    }
}

/// The process that a spec and an image's defaults make. What the spec says
/// stands; the image fills in arguments, directory and user where the spec says
/// nothing; and the spec's environment follows the image's.
pub open spec fn layered(spec: RunSpecView, config: ImageConfigView) -> Result<
    ProcessView,
    Seq<char>,
> {
    let argv = if spec.args.len() > 0 {
        spec.args
    } else {
        config.entrypoint + config.cmd
    };
    let user = if spec.user is Some {
        spec.user
    } else if config.user.len() > 0 {
        Some(config.user)
    } else {
        None
    };
    if argv.len() == 0 {
        Err("no argv: image has no entrypoint/cmd and none was provided"@)
    } else {
        Ok(
            ProcessView {
                argv,
                env: config.env + spec.env,
                cwd: if spec.cwd.len() > 0 {
                    spec.cwd
                } else if config.working_dir.len() > 0 {
                    config.working_dir
                } else {
                    "/"@
                },
                uid: ids_of(user).0,
                gid: ids_of(user).1,
            },
        )
    }
}

fn concat_lists(a: &Vec<String>, b: &Vec<String>) -> (r: Vec<String>)
    ensures
        r.deep_view() == a.deep_view() + b.deep_view(),
{
    let mut r = clone_list(a);
    let ghost head = r.deep_view();
    let ghost rest = b.deep_view();
    let n: usize = b.len();
    assert(r.deep_view() =~= head + rest.take(0));
    for i in 0..n
        invariant
            n == b@.len(),
            rest == b.deep_view(),
            r.deep_view() == head + rest.take(i as int),
    {
        let ghost done = r.deep_view();
        r.push(b[i].clone());
        assert(r.deep_view() =~= done.push(rest[i as int]));
        assert(r.deep_view() =~= head + rest.take(i + 1));
    }
    assert(rest.take(n as int) == rest);
    r
}

/// Layers a spec over an image's defaults.
pub fn layer(spec: &ContainerdRunSpec, config: &ImageConfig) -> (r: Result<Process, String>)
    ensures
        match r {
            Ok(p) => layered(spec@, config@) == Ok::<ProcessView, Seq<char>>(p@),
            Err(e) => layered(spec@, config@) == Err::<ProcessView, Seq<char>>(e@),
        },
{
    let argv = if spec.args.len() > 0 {
        clone_list(&spec.args)
    } else {
        concat_lists(&config.entrypoint, &config.cmd)
    };
    if argv.len() == 0 {
        return Err("no argv: image has no entrypoint/cmd and none was provided".to_string());
    }
    let env = concat_lists(&config.env, &spec.env);
    let cwd = if spec.cwd.unicode_len() > 0 {
        spec.cwd.clone()
    } else if config.working_dir.unicode_len() > 0 {
        config.working_dir.clone()
    } else {
        "/".to_string()
    };
    let (uid, gid) = match &spec.user {
        Some(u) => parse_user(Some(u.as_str())),
        None => if config.user.unicode_len() > 0 {
            parse_user(Some(config.user.as_str()))
        } else {
            parse_user(None)
        },
    };
    Ok(Process { argv, env, cwd, uid, gid })
}

/// The OCI runtime spec of a container. It asks for no network namespace of its
/// own, so that the container shares the host's network.
pub open spec fn oci_spec(id: Seq<char>, process: ProcessView) -> Seq<char> {
    "{\"hostname\":"@ + json_text(id)
        + ",\"linux\":{\"maskedPaths\":[\"/proc/kcore\",\"/proc/latency_stats\",\"/proc/timer_list\",\"/proc/timer_stats\",\"/proc/sched_debug\",\"/sys/firmware\"],\"namespaces\":[{\"type\":\"pid\"},{\"type\":\"ipc\"},{\"type\":\"uts\"},{\"type\":\"mount\"}],\"readonlyPaths\":[\"/proc/asound\",\"/proc/bus\",\"/proc/fs\",\"/proc/irq\",\"/proc/sys\",\"/proc/sysrq-trigger\"]}"@
        + ",\"mounts\":[{\"destination\":\"/proc\",\"source\":\"proc\",\"type\":\"proc\"}"@
        + ",{\"destination\":\"/dev\",\"options\":[\"nosuid\",\"strictatime\",\"mode=755\",\"size=65536k\"],\"source\":\"tmpfs\",\"type\":\"tmpfs\"}"@
        + ",{\"destination\":\"/dev/pts\",\"options\":[\"nosuid\",\"noexec\",\"newinstance\",\"ptmxmode=0666\",\"mode=0620\",\"gid=5\"],\"source\":\"devpts\",\"type\":\"devpts\"}"@
        + ",{\"destination\":\"/dev/shm\",\"options\":[\"nosuid\",\"noexec\",\"nodev\",\"mode=1777\",\"size=65536k\"],\"source\":\"shm\",\"type\":\"tmpfs\"}"@
        + ",{\"destination\":\"/dev/mqueue\",\"options\":[\"nosuid\",\"noexec\",\"nodev\"],\"source\":\"mqueue\",\"type\":\"mqueue\"}"@
        + ",{\"destination\":\"/sys\",\"options\":[\"nosuid\",\"noexec\",\"nodev\",\"ro\"],\"source\":\"sysfs\",\"type\":\"sysfs\"}"@
        + ",{\"destination\":\"/etc/resolv.conf\",\"options\":[\"rbind\",\"ro\"],\"source\":\"/etc/resolv.conf\",\"type\":\"bind\"}]"@
        + ",\"ociVersion\":\"1.1.0\",\"process\":{\"args\":"@ + json_list(process.argv)
        + ",\"capabilities\":{\"bounding\":"@ + capabilities() + ",\"effective\":"@
        + capabilities() + ",\"permitted\":"@ + capabilities() + "},\"cwd\":"@ + json_text(
        if process.cwd.len() == 0 {
            "/"@
        } else {
            process.cwd
        },
    ) + ",\"env\":"@ + json_list(process.env)
        + ",\"noNewPrivileges\":true,\"rlimits\":[{\"hard\":1024,\"soft\":1024,\"type\":\"RLIMIT_NOFILE\"}],\"terminal\":false,\"user\":{\"gid\":"@
        + decimal(process.gid) + ",\"uid\":"@ + decimal(process.uid)
        + "}},\"root\":{\"path\":\"rootfs\",\"readonly\":false}}"@
}

/// The capabilities of a container.
pub open spec fn capabilities() -> Seq<char> {
    "[\"CAP_NET_RAW\",\"CAP_CHOWN\",\"CAP_DAC_OVERRIDE\",\"CAP_SETUID\",\"CAP_SETGID\",\"CAP_NET_BIND_SERVICE\"]"@
}

fn push_capabilities(out: &mut String)
    ensures
        final(out)@ == old(out)@ + capabilities(),
{
    out.append(
        "[\"CAP_NET_RAW\",\"CAP_CHOWN\",\"CAP_DAC_OVERRIDE\",\"CAP_SETUID\",\"CAP_SETGID\",\"CAP_NET_BIND_SERVICE\"]",
    );
}

fn push_kernel_part(out: &mut String)
    ensures
        final(out)@ == old(out)@
            + ",\"linux\":{\"maskedPaths\":[\"/proc/kcore\",\"/proc/latency_stats\",\"/proc/timer_list\",\"/proc/timer_stats\",\"/proc/sched_debug\",\"/sys/firmware\"],\"namespaces\":[{\"type\":\"pid\"},{\"type\":\"ipc\"},{\"type\":\"uts\"},{\"type\":\"mount\"}],\"readonlyPaths\":[\"/proc/asound\",\"/proc/bus\",\"/proc/fs\",\"/proc/irq\",\"/proc/sys\",\"/proc/sysrq-trigger\"]}"@
            + ",\"mounts\":[{\"destination\":\"/proc\",\"source\":\"proc\",\"type\":\"proc\"}"@
            + ",{\"destination\":\"/dev\",\"options\":[\"nosuid\",\"strictatime\",\"mode=755\",\"size=65536k\"],\"source\":\"tmpfs\",\"type\":\"tmpfs\"}"@
            + ",{\"destination\":\"/dev/pts\",\"options\":[\"nosuid\",\"noexec\",\"newinstance\",\"ptmxmode=0666\",\"mode=0620\",\"gid=5\"],\"source\":\"devpts\",\"type\":\"devpts\"}"@
            + ",{\"destination\":\"/dev/shm\",\"options\":[\"nosuid\",\"noexec\",\"nodev\",\"mode=1777\",\"size=65536k\"],\"source\":\"shm\",\"type\":\"tmpfs\"}"@
            + ",{\"destination\":\"/dev/mqueue\",\"options\":[\"nosuid\",\"noexec\",\"nodev\"],\"source\":\"mqueue\",\"type\":\"mqueue\"}"@
            + ",{\"destination\":\"/sys\",\"options\":[\"nosuid\",\"noexec\",\"nodev\",\"ro\"],\"source\":\"sysfs\",\"type\":\"sysfs\"}"@
            + ",{\"destination\":\"/etc/resolv.conf\",\"options\":[\"rbind\",\"ro\"],\"source\":\"/etc/resolv.conf\",\"type\":\"bind\"}]"@,
{
    out.append(
        ",\"linux\":{\"maskedPaths\":[\"/proc/kcore\",\"/proc/latency_stats\",\"/proc/timer_list\",\"/proc/timer_stats\",\"/proc/sched_debug\",\"/sys/firmware\"],\"namespaces\":[{\"type\":\"pid\"},{\"type\":\"ipc\"},{\"type\":\"uts\"},{\"type\":\"mount\"}],\"readonlyPaths\":[\"/proc/asound\",\"/proc/bus\",\"/proc/fs\",\"/proc/irq\",\"/proc/sys\",\"/proc/sysrq-trigger\"]}",
    );
    out.append(",\"mounts\":[{\"destination\":\"/proc\",\"source\":\"proc\",\"type\":\"proc\"}");
    out.append(
        ",{\"destination\":\"/dev\",\"options\":[\"nosuid\",\"strictatime\",\"mode=755\",\"size=65536k\"],\"source\":\"tmpfs\",\"type\":\"tmpfs\"}",
    );
    out.append(
        ",{\"destination\":\"/dev/pts\",\"options\":[\"nosuid\",\"noexec\",\"newinstance\",\"ptmxmode=0666\",\"mode=0620\",\"gid=5\"],\"source\":\"devpts\",\"type\":\"devpts\"}",
    );
    out.append(
        ",{\"destination\":\"/dev/shm\",\"options\":[\"nosuid\",\"noexec\",\"nodev\",\"mode=1777\",\"size=65536k\"],\"source\":\"shm\",\"type\":\"tmpfs\"}",
    );
    out.append(
        ",{\"destination\":\"/dev/mqueue\",\"options\":[\"nosuid\",\"noexec\",\"nodev\"],\"source\":\"mqueue\",\"type\":\"mqueue\"}",
    );
    out.append(
        ",{\"destination\":\"/sys\",\"options\":[\"nosuid\",\"noexec\",\"nodev\",\"ro\"],\"source\":\"sysfs\",\"type\":\"sysfs\"}",
    );
    out.append(
        ",{\"destination\":\"/etc/resolv.conf\",\"options\":[\"rbind\",\"ro\"],\"source\":\"/etc/resolv.conf\",\"type\":\"bind\"}]",
    );
}

/// Writes the OCI runtime spec of a container.
pub fn oci_spec_json(id: &str, process: &Process) -> (r: String)
    ensures
        r@ == oci_spec(id@, process@),
{
    let mut out = "{\"hostname\":".to_string();
    out.append(quote(id).as_str());
    push_kernel_part(&mut out);
    out.append(",\"ociVersion\":\"1.1.0\",\"process\":{\"args\":");
    push_list(&mut out, &process.argv);
    out.append(",\"capabilities\":{\"bounding\":");
    push_capabilities(&mut out);
    out.append(",\"effective\":");
    push_capabilities(&mut out);
    out.append(",\"permitted\":");
    push_capabilities(&mut out);
    out.append("},\"cwd\":");
    if process.cwd.unicode_len() == 0 {
        out.append(quote("/").as_str());
    } else {
        out.append(quote(process.cwd.as_str()).as_str());
    }
    out.append(",\"env\":");
    push_list(&mut out, &process.env);
    out.append(
        ",\"noNewPrivileges\":true,\"rlimits\":[{\"hard\":1024,\"soft\":1024,\"type\":\"RLIMIT_NOFILE\"}],\"terminal\":false,\"user\":{\"gid\":",
    );
    push_decimal(&mut out, process.gid as u64);
    out.append(",\"uid\":");
    push_decimal(&mut out, process.uid as u64);
    out.append("}},\"root\":{\"path\":\"rootfs\",\"readonly\":false}}");
    out
}

/// The record that containerd keeps of a container.
#[derive(Debug)]
pub struct ContainerRecord {
    pub id: String,
    pub image: String,
    /// The program that runs the container.
    pub runtime: String,
    /// The type and the encoding of that program's options.
    pub options_type: String,
    pub options: Vec<u8>,
    /// The type and the text of the runtime spec.
    pub spec_type: String,
    pub spec: String,
    pub snapshotter: String,
    pub snapshot_key: String,
}

/// The snapshotter of all containers.
pub fn snapshotter() -> (r: &'static str)
    ensures
        r@ == "overlayfs"@,
{
    "overlayfs"
}

/// The record of the container of a spec. Its options, of which one alone is
/// set, keep runc from pivoting the root, which fails on a machine whose root is
/// a ram disk.
pub fn container_record(spec: &ContainerdRunSpec, process: &Process) -> (r: ContainerRecord)
    ensures
        r.id@ == spec@.container_id,
        r.image@ == spec@.image,
        r.runtime@ == "io.containerd.runc.v2"@,
        r.options_type@ == "containerd.runc.v1.Options"@,
        r.options@ == seq![0x08u8, 0x01u8],
        r.spec_type@ == "types.containerd.io/opencontainers/runtime-spec/1/Spec"@,
        r.spec@ == oci_spec(spec@.container_id, process@),
        r.snapshotter@ == "overlayfs"@,
        r.snapshot_key@ == spec@.container_id,
{
    let mut options: Vec<u8> = Vec::new();
    options.push(0x08);
    options.push(0x01);
    ContainerRecord {
        id: spec.container_id.clone(),
        image: spec.image.clone(),
        runtime: "io.containerd.runc.v2".to_string(),
        options_type: "containerd.runc.v1.Options".to_string(),
        options,
        spec_type: "types.containerd.io/opencontainers/runtime-spec/1/Spec".to_string(),
        spec: oci_spec_json(spec.container_id.as_str(), process),
        snapshotter: snapshotter().to_string(),
        snapshot_key: spec.container_id.clone(),
    }
}

/// What a spec says of the process stands, whatever the image says.
pub proof fn law_spec_wins(spec: RunSpecView, config: ImageConfigView)
    requires
        spec.args.len() > 0,
    ensures
        layered(spec, config) matches Ok(p) && p.argv == spec.args && (spec.cwd.len() > 0
            ==> p.cwd == spec.cwd) && (spec.user is Some ==> (p.uid, p.gid) == ids_of(spec.user)),
{
}

} // verus!
