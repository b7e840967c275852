//! What a run of a container does, and what it is run with.

use crate::codec::json::{json_items, json_list, json_text};
use crate::runtime::containerd::image::{
    chain_of, config_place, image_of, manifest_place, parsed_config_place,
};
use crate::runtime::containerd::oci::{layered, oci_spec, ProcessView};
use crate::runtime::containerd::run::{
    exit_code_of, final_code, report_of, run_after, run_next, RunEventView, RunPhaseView,
    RunSpecView,
};
use crate::text::number::decimal;
use vstd::prelude::*;

verus! {

/// A run goes from one phase to the next as each of its calls is done: it connects,
/// clears what was left, pulls the image, makes the container and the task, starts
/// it, listens for signals and waits.
pub proof fn law_runs_go_step_by_step(
    spec: RunSpecView,
    arch: Seq<char>,
    process: ProcessView,
    code: i32,
)
    ensures
        run_after(spec, arch, Seq::empty()) is Connect,
        run_next(spec, arch, RunPhaseView::Connect, RunEventView::Done) is Clear,
        run_next(spec, arch, RunPhaseView::Clear, RunEventView::Done) is Pull,
        run_next(spec, arch, RunPhaseView::Pull, RunEventView::Done) is GetImage,
        run_next(spec, arch, RunPhaseView::Create { process }, RunEventView::Done) is CreateTask,
        run_next(spec, arch, RunPhaseView::CreateTask, RunEventView::Done) is StartTask,
        run_next(spec, arch, RunPhaseView::StartTask, RunEventView::Done) is HandleTerm,
        run_next(spec, arch, RunPhaseView::HandleTerm, RunEventView::Done) is HandleInt,
        run_next(spec, arch, RunPhaseView::HandleInt, RunEventView::Done) is Wait,
        run_next(spec, arch, RunPhaseView::Teardown { code }, RunEventView::Done) == (
        RunPhaseView::Finished { code }),
{
}

/// What is left of an earlier run, and what this run leaves, is removed as well as
/// can be: failing at it ends nothing.
pub proof fn law_clearing_cannot_fail(spec: RunSpecView, arch: Seq<char>, code: i32, e: Seq<char>)
    ensures
        run_next(spec, arch, RunPhaseView::Clear, RunEventView::Error(e)) is Pull,
        run_next(spec, arch, RunPhaseView::Teardown { code }, RunEventView::Error(e)) == (
        RunPhaseView::Finished { code }),
{
}

/// The image leads to its config: from what it points at to the manifest, where
/// that is an index, and from the manifest to the config. Whatever says nothing of
/// the next place gives the run up.
pub proof fn law_images_lead_to_their_config(
    spec: RunSpecView,
    arch: Seq<char>,
    digest: Seq<char>,
    blob: Seq<u8>,
)
    ensures
        run_next(spec, arch, RunPhaseView::GetImage, RunEventView::Target(Some(digest))) == (
        RunPhaseView::ReadTarget { digest }),
        run_next(spec, arch, RunPhaseView::GetImage, RunEventView::Target(None)) is Failed,
        ({
            let target = run_next(
                spec,
                arch,
                RunPhaseView::ReadTarget { digest },
                RunEventView::Content(blob),
            );
            let config = match config_place(blob) {
                Ok(d) => RunPhaseView::ReadConfig { digest: d },
                Err(message) => RunPhaseView::Failed { message },
            };
            target == (match manifest_place(blob, arch) {
                Ok(Some(d)) => RunPhaseView::ReadManifest { digest: d },
                Ok(None) => config,
                Err(message) => RunPhaseView::Failed { message },
            })
        }),
        run_next(
            spec,
            arch,
            RunPhaseView::ReadManifest { digest },
            RunEventView::Content(blob),
        ) == (match parsed_config_place(blob) {
            Ok(d) => RunPhaseView::ReadConfig { digest: d },
            Err(message) => RunPhaseView::Failed { message },
        }),
        run_next(
            spec,
            arch,
            RunPhaseView::ReadConfig { digest },
            RunEventView::Content(blob),
        ) == (match image_of(blob) {
            Ok(image) => RunPhaseView::Prepare { parent: chain_of(image.0), config: image.1 },
            Err(message) => RunPhaseView::Failed { message },
        }),
{
}

/// Whether at `j` the config of the image was read from a blob.
pub open spec fn read_config(
    spec: RunSpecView,
    arch: Seq<char>,
    events: Seq<RunEventView>,
    blob: Seq<u8>,
    j: int,
) -> bool {
    &&& 0 <= j < events.len()
    &&& run_after(spec, arch, events.take(j)) is ReadConfig
    &&& events[j] == RunEventView::Content(blob)
}

/// A container runs on the layers of its image, and runs what the spec makes of the
/// image's config, as both were read.
pub proof fn law_containers_run_their_image(
    spec: RunSpecView,
    arch: Seq<char>,
    events: Seq<RunEventView>,
)
    ensures
        run_after(spec, arch, events) matches RunPhaseView::Prepare { parent, config } ==> exists|
            blob: Seq<u8>,
            j: int,
        | #[trigger]
            read_config(spec, arch, events, blob, j) && image_of(blob) is Ok && parent == chain_of(
                image_of(blob)->Ok_0.0,
            ) && config == image_of(blob)->Ok_0.1,
        run_after(spec, arch, events) matches RunPhaseView::Create { process } ==> exists|
            blob: Seq<u8>,
            j: int,
        | #[trigger]
            read_config(spec, arch, events, blob, j) && image_of(blob) is Ok && layered(
                spec,
                image_of(blob)->Ok_0.1,
            ) == Ok::<ProcessView, Seq<char>>(process),
    decreases events.len(),
{
    if events.len() > 0 {
        let before = events.drop_last();
        let last = events.len() - 1;
        assert(events.take(last) == before);
        law_containers_run_their_image(spec, arch, before);
        let now = run_after(spec, arch, events);
        let was = run_after(spec, arch, before);
        if was is Prepare && (now is Prepare || now is Create) {
            let (blob, j) = choose|blob: Seq<u8>, j: int| #[trigger]
                read_config(spec, arch, before, blob, j) && image_of(blob) is Ok && was
                    == (RunPhaseView::Prepare {
                    parent: chain_of(image_of(blob)->Ok_0.0),
                    config: image_of(blob)->Ok_0.1,
                });
            assert(before.take(j) == events.take(j));
            assert(read_config(spec, arch, events, blob, j));
        } else if was is Create && now is Create {
            let (blob, j) = choose|blob: Seq<u8>, j: int| #[trigger]
                read_config(spec, arch, before, blob, j) && image_of(blob) is Ok && layered(
                    spec,
                    image_of(blob)->Ok_0.1,
                ) == Ok::<ProcessView, Seq<char>>(was->process);
            assert(before.take(j) == events.take(j));
            assert(read_config(spec, arch, events, blob, j));
        } else if was is ReadConfig && now is Prepare {
            if let RunEventView::Content(blob) = events[last] {
                assert(read_config(spec, arch, events, blob, last));
            }
        }
    }
}

/// A run ends as its task does: with the task's code, or as one that was ended by the
/// signal that came, or with 1 where the task could not be waited for. A run that
/// was given up ends with 1.
pub proof fn law_runs_end_as_their_task_does(
    spec: RunSpecView,
    arch: Seq<char>,
    status: u32,
    e: Seq<char>,
    code: i32,
)
    ensures
        run_next(spec, arch, RunPhaseView::Wait, RunEventView::Exited(status)) == (
        RunPhaseView::Teardown { code: exit_code_of(status) }),
        status <= i32::MAX ==> exit_code_of(status) as int == status as int,
        status > i32::MAX ==> exit_code_of(status) as int == status as int - 0x1_0000_0000,
        run_next(spec, arch, RunPhaseView::Wait, RunEventView::Terminated) == (
        RunPhaseView::Teardown { code: 143 }),
        run_next(spec, arch, RunPhaseView::Wait, RunEventView::Interrupted) == (
        RunPhaseView::Teardown { code: 130 }),
        run_next(spec, arch, RunPhaseView::Wait, RunEventView::Error(e)) == (
        RunPhaseView::Teardown { code: 1 }),
        final_code(RunPhaseView::Finished { code }) == Some(code),
        final_code(RunPhaseView::Failed { message: e }) == Some(1i32),
        forall|phase: RunPhaseView|
            !(phase is Finished) && !(phase is Failed) ==> #[trigger] final_code(phase) is None,
{
}

/// Whether a run goes on without the call of a phase: that call only tidies up, or
/// the run waits or is over.
pub open spec fn goes_on(phase: RunPhaseView) -> bool {
    phase is Clear || phase is Teardown || phase is Wait || phase is Finished || phase is Failed
}

/// Any other call that fails gives the run up, and says what failed.
pub proof fn law_failed_calls_give_the_run_up(
    spec: RunSpecView,
    arch: Seq<char>,
    phase: RunPhaseView,
    e: Seq<char>,
    digest: Seq<char>,
)
    ensures
        run_next(spec, arch, phase, RunEventView::Error(e)) is Failed <==> !goes_on(phase)
            || phase is Failed,
        run_next(spec, arch, RunPhaseView::Connect, RunEventView::Error(e)) == (
        RunPhaseView::Failed { message: "connect to containerd at "@ + spec.socket + ": "@ + e }),
        run_next(spec, arch, RunPhaseView::Pull, RunEventView::Error(e)) == (RunPhaseView::Failed {
            message: "transfer (pull) image"@ + ": "@ + e,
        }),
        run_next(spec, arch, RunPhaseView::ReadConfig { digest }, RunEventView::Error(e)) == (
        RunPhaseView::Failed { message: "content.read "@ + digest + ": "@ + e }),
        run_next(spec, arch, RunPhaseView::ReadTarget { digest }, RunEventView::Error(e)) == (
        RunPhaseView::Failed { message: "content.read "@ + digest + ": "@ + e }),
        run_next(spec, arch, RunPhaseView::ReadManifest { digest }, RunEventView::Error(e)) == (
        RunPhaseView::Failed { message: "content.read "@ + digest + ": "@ + e }),
        phase is GetImage ==> run_next(spec, arch, phase, RunEventView::Error(e)) == (
        RunPhaseView::Failed { message: "images.get"@ + ": "@ + e }),
        phase is Prepare ==> run_next(spec, arch, phase, RunEventView::Error(e)) == (
        RunPhaseView::Failed { message: "snapshots.prepare"@ + ": "@ + e }),
        phase is Create ==> run_next(spec, arch, phase, RunEventView::Error(e)) == (
        RunPhaseView::Failed { message: "containers.create"@ + ": "@ + e }),
        phase is CreateTask ==> run_next(spec, arch, phase, RunEventView::Error(e)) == (
        RunPhaseView::Failed { message: "tasks.create"@ + ": "@ + e }),
        phase is StartTask ==> run_next(spec, arch, phase, RunEventView::Error(e)) == (
        RunPhaseView::Failed { message: "tasks.start"@ + ": "@ + e }),
        run_next(spec, arch, phase, RunEventView::ChunkError(e)) == (if phase is ReadTarget
            || phase is ReadManifest || phase is ReadConfig {
            RunPhaseView::Failed { message: "read content chunk"@ + ": "@ + e }
        } else {
            phase
        }),
{
}

/// A run says that it has started its container, and which signal stops it.
pub proof fn law_runs_report_starts_and_stops(spec: RunSpecView, e: Seq<char>)
    ensures
        report_of(spec, RunPhaseView::StartTask, RunEventView::Done) == Some(
            "containerd-run: started "@ + spec.container_id + " ("@ + spec.image + ")"@,
        ),
        report_of(spec, RunPhaseView::Wait, RunEventView::Terminated) == Some(
            "containerd-run: SIGTERM, stopping "@ + spec.container_id,
        ),
        report_of(spec, RunPhaseView::Wait, RunEventView::Interrupted) == Some(
            "containerd-run: SIGINT, stopping "@ + spec.container_id,
        ),
        report_of(spec, RunPhaseView::Wait, RunEventView::Error(e)) == Some(
            "containerd-run: wait: "@ + e,
        ),
{
}

proof fn lemma_suffix_grows(s: Seq<char>, t: Seq<char>, x: Seq<char>)
    requires
        t.is_suffix_of(s),
    ensures
        (t + x).is_suffix_of(s + x),
{
    let n = s.len() - t.len();
    assert((s + x).subrange(n, (s + x).len() as int) =~= t + x) by {
        assert(s.subrange(n, s.len() as int) == t);
        assert forall|i: int| 0 <= i < t.len() implies s[n + i] == t[i] by {
            assert(s.subrange(n, s.len() as int)[i] == s[n + i]);
        }
    }
}

proof fn lemma_prefix_grows(s: Seq<char>, t: Seq<char>, x: Seq<char>)
    requires
        t.is_prefix_of(s),
    ensures
        t.is_prefix_of(s + x),
{
    assert((s + x).subrange(0, t.len() as int) =~= s.subrange(0, t.len() as int));
}

/// A container is named by its id and kept apart by its namespaces. It runs the
/// process with its arguments, its directory, its variables and its user, from a
/// root file system of its own. It keeps the few capabilities that containers
/// commonly need, and gains none.
pub proof fn law_runtime_specs_run_the_process(id: Seq<char>, process: ProcessView)
    ensures
        ("{\"hostname\":"@ + json_text(id) + ",\"linux\":{\"maskedPaths\":[\"/proc/kcore\",\"/proc/latency_stats\",\"/proc/timer_list\",\"/proc/timer_stats\",\"/proc/sched_debug\",\"/sys/firmware\"],\"namespaces\":[{\"type\":\"pid\"},{\"type\":\"ipc\"},{\"type\":\"uts\"},{\"type\":\"mount\"}],\"readonlyPaths\":[\"/proc/asound\",\"/proc/bus\",\"/proc/fs\",\"/proc/irq\",\"/proc/sys\",\"/proc/sysrq-trigger\"]}"@).is_prefix_of(
            oci_spec(id, process),
        ),
        (",\"ociVersion\":\"1.1.0\",\"process\":{\"args\":"@
            + json_list(process.argv)
            + ",\"capabilities\":{\"bounding\":"@
            + "[\"CAP_NET_RAW\",\"CAP_CHOWN\",\"CAP_DAC_OVERRIDE\",\"CAP_SETUID\",\"CAP_SETGID\",\"CAP_NET_BIND_SERVICE\"]"@
            + ",\"effective\":"@
            + "[\"CAP_NET_RAW\",\"CAP_CHOWN\",\"CAP_DAC_OVERRIDE\",\"CAP_SETUID\",\"CAP_SETGID\",\"CAP_NET_BIND_SERVICE\"]"@
            + ",\"permitted\":"@
            + "[\"CAP_NET_RAW\",\"CAP_CHOWN\",\"CAP_DAC_OVERRIDE\",\"CAP_SETUID\",\"CAP_SETGID\",\"CAP_NET_BIND_SERVICE\"]"@
            + "},\"cwd\":"@
            + json_text(
            if process.cwd.len() == 0 {
                "/"@
            } else {
                process.cwd
            },
        )
            + ",\"env\":"@
            + json_list(process.env)
            + ",\"noNewPrivileges\":true,\"rlimits\":[{\"hard\":1024,\"soft\":1024,\"type\":\"RLIMIT_NOFILE\"}],\"terminal\":false,\"user\":{\"gid\":"@
            + decimal(process.gid)
            + ",\"uid\":"@
            + decimal(process.uid)
            + "}},\"root\":{\"path\":\"rootfs\",\"readonly\":false}}"@).is_suffix_of(oci_spec(id, process)),
{
    let h = "{\"hostname\":"@ + json_text(id) + ",\"linux\":{\"maskedPaths\":[\"/proc/kcore\",\"/proc/latency_stats\",\"/proc/timer_list\",\"/proc/timer_stats\",\"/proc/sched_debug\",\"/sys/firmware\"],\"namespaces\":[{\"type\":\"pid\"},{\"type\":\"ipc\"},{\"type\":\"uts\"},{\"type\":\"mount\"}],\"readonlyPaths\":[\"/proc/asound\",\"/proc/bus\",\"/proc/fs\",\"/proc/irq\",\"/proc/sys\",\"/proc/sysrq-trigger\"]}"@;
    assert(h.subrange(0, h.len() as int) =~= h);
    let m0 = h + ",\"mounts\":[{\"destination\":\"/proc\",\"source\":\"proc\",\"type\":\"proc\"}"@;
    lemma_prefix_grows(h, h, ",\"mounts\":[{\"destination\":\"/proc\",\"source\":\"proc\",\"type\":\"proc\"}"@);
    let m1 = m0 + ",{\"destination\":\"/dev\",\"options\":[\"nosuid\",\"strictatime\",\"mode=755\",\"size=65536k\"],\"source\":\"tmpfs\",\"type\":\"tmpfs\"}"@;
    lemma_prefix_grows(m0, h, ",{\"destination\":\"/dev\",\"options\":[\"nosuid\",\"strictatime\",\"mode=755\",\"size=65536k\"],\"source\":\"tmpfs\",\"type\":\"tmpfs\"}"@);
    let m2 = m1 + ",{\"destination\":\"/dev/pts\",\"options\":[\"nosuid\",\"noexec\",\"newinstance\",\"ptmxmode=0666\",\"mode=0620\",\"gid=5\"],\"source\":\"devpts\",\"type\":\"devpts\"}"@;
    lemma_prefix_grows(m1, h, ",{\"destination\":\"/dev/pts\",\"options\":[\"nosuid\",\"noexec\",\"newinstance\",\"ptmxmode=0666\",\"mode=0620\",\"gid=5\"],\"source\":\"devpts\",\"type\":\"devpts\"}"@);
    let m3 = m2 + ",{\"destination\":\"/dev/shm\",\"options\":[\"nosuid\",\"noexec\",\"nodev\",\"mode=1777\",\"size=65536k\"],\"source\":\"shm\",\"type\":\"tmpfs\"}"@;
    lemma_prefix_grows(m2, h, ",{\"destination\":\"/dev/shm\",\"options\":[\"nosuid\",\"noexec\",\"nodev\",\"mode=1777\",\"size=65536k\"],\"source\":\"shm\",\"type\":\"tmpfs\"}"@);
    let m4 = m3 + ",{\"destination\":\"/dev/mqueue\",\"options\":[\"nosuid\",\"noexec\",\"nodev\"],\"source\":\"mqueue\",\"type\":\"mqueue\"}"@;
    lemma_prefix_grows(m3, h, ",{\"destination\":\"/dev/mqueue\",\"options\":[\"nosuid\",\"noexec\",\"nodev\"],\"source\":\"mqueue\",\"type\":\"mqueue\"}"@);
    let m5 = m4 + ",{\"destination\":\"/sys\",\"options\":[\"nosuid\",\"noexec\",\"nodev\",\"ro\"],\"source\":\"sysfs\",\"type\":\"sysfs\"}"@;
    lemma_prefix_grows(m4, h, ",{\"destination\":\"/sys\",\"options\":[\"nosuid\",\"noexec\",\"nodev\",\"ro\"],\"source\":\"sysfs\",\"type\":\"sysfs\"}"@);
    let m6 = m5 + ",{\"destination\":\"/etc/resolv.conf\",\"options\":[\"rbind\",\"ro\"],\"source\":\"/etc/resolv.conf\",\"type\":\"bind\"}]"@;
    lemma_prefix_grows(m5, h, ",{\"destination\":\"/etc/resolv.conf\",\"options\":[\"rbind\",\"ro\"],\"source\":\"/etc/resolv.conf\",\"type\":\"bind\"}]"@);
    let t0 = ",\"ociVersion\":\"1.1.0\",\"process\":{\"args\":"@;
    let s0 = m6 + t0;
    lemma_prefix_grows(m6, h, t0);
    assert(s0.subrange(m6.len() as int, s0.len() as int) =~= t0);
    let x1 = json_list(process.argv);
    let t1 = t0 + x1;
    let s1 = s0 + x1;
    lemma_suffix_grows(s0, t0, x1);
    lemma_prefix_grows(s0, h, x1);
    let x2 = ",\"capabilities\":{\"bounding\":"@;
    let t2 = t1 + x2;
    let s2 = s1 + x2;
    lemma_suffix_grows(s1, t1, x2);
    lemma_prefix_grows(s1, h, x2);
    let x3 = "[\"CAP_NET_RAW\",\"CAP_CHOWN\",\"CAP_DAC_OVERRIDE\",\"CAP_SETUID\",\"CAP_SETGID\",\"CAP_NET_BIND_SERVICE\"]"@;
    let t3 = t2 + x3;
    let s3 = s2 + x3;
    lemma_suffix_grows(s2, t2, x3);
    lemma_prefix_grows(s2, h, x3);
    let x4 = ",\"effective\":"@;
    let t4 = t3 + x4;
    let s4 = s3 + x4;
    lemma_suffix_grows(s3, t3, x4);
    lemma_prefix_grows(s3, h, x4);
    let x5 = "[\"CAP_NET_RAW\",\"CAP_CHOWN\",\"CAP_DAC_OVERRIDE\",\"CAP_SETUID\",\"CAP_SETGID\",\"CAP_NET_BIND_SERVICE\"]"@;
    let t5 = t4 + x5;
    let s5 = s4 + x5;
    lemma_suffix_grows(s4, t4, x5);
    lemma_prefix_grows(s4, h, x5);
    let x6 = ",\"permitted\":"@;
    let t6 = t5 + x6;
    let s6 = s5 + x6;
    lemma_suffix_grows(s5, t5, x6);
    lemma_prefix_grows(s5, h, x6);
    let x7 = "[\"CAP_NET_RAW\",\"CAP_CHOWN\",\"CAP_DAC_OVERRIDE\",\"CAP_SETUID\",\"CAP_SETGID\",\"CAP_NET_BIND_SERVICE\"]"@;
    let t7 = t6 + x7;
    let s7 = s6 + x7;
    lemma_suffix_grows(s6, t6, x7);
    lemma_prefix_grows(s6, h, x7);
    let x8 = "},\"cwd\":"@;
    let t8 = t7 + x8;
    let s8 = s7 + x8;
    lemma_suffix_grows(s7, t7, x8);
    lemma_prefix_grows(s7, h, x8);
    let x9 = json_text(
            if process.cwd.len() == 0 {
                "/"@
            } else {
                process.cwd
            },
        );
    let t9 = t8 + x9;
    let s9 = s8 + x9;
    lemma_suffix_grows(s8, t8, x9);
    lemma_prefix_grows(s8, h, x9);
    let x10 = ",\"env\":"@;
    let t10 = t9 + x10;
    let s10 = s9 + x10;
    lemma_suffix_grows(s9, t9, x10);
    lemma_prefix_grows(s9, h, x10);
    let x11 = json_list(process.env);
    let t11 = t10 + x11;
    let s11 = s10 + x11;
    lemma_suffix_grows(s10, t10, x11);
    lemma_prefix_grows(s10, h, x11);
    let x12 = ",\"noNewPrivileges\":true,\"rlimits\":[{\"hard\":1024,\"soft\":1024,\"type\":\"RLIMIT_NOFILE\"}],\"terminal\":false,\"user\":{\"gid\":"@;
    let t12 = t11 + x12;
    let s12 = s11 + x12;
    lemma_suffix_grows(s11, t11, x12);
    lemma_prefix_grows(s11, h, x12);
    let x13 = decimal(process.gid);
    let t13 = t12 + x13;
    let s13 = s12 + x13;
    lemma_suffix_grows(s12, t12, x13);
    lemma_prefix_grows(s12, h, x13);
    let x14 = ",\"uid\":"@;
    let t14 = t13 + x14;
    let s14 = s13 + x14;
    lemma_suffix_grows(s13, t13, x14);
    lemma_prefix_grows(s13, h, x14);
    let x15 = decimal(process.uid);
    let t15 = t14 + x15;
    let s15 = s14 + x15;
    lemma_suffix_grows(s14, t14, x15);
    lemma_prefix_grows(s14, h, x15);
    let x16 = "}},\"root\":{\"path\":\"rootfs\",\"readonly\":false}}"@;
    let t16 = t15 + x16;
    let s16 = s15 + x16;
    lemma_suffix_grows(s15, t15, x16);
    lemma_prefix_grows(s15, h, x16);
    assert(oci_spec(id, process) == s16);
}

proof fn lemma_chain(m: Seq<char>, process: ProcessView)
    ensures
        m + ",\"ociVersion\":\"1.1.0\",\"process\":{\"args\":"@
            + json_list(process.argv)
            + ",\"capabilities\":{\"bounding\":"@
            + "[\"CAP_NET_RAW\",\"CAP_CHOWN\",\"CAP_DAC_OVERRIDE\",\"CAP_SETUID\",\"CAP_SETGID\",\"CAP_NET_BIND_SERVICE\"]"@
            + ",\"effective\":"@
            + "[\"CAP_NET_RAW\",\"CAP_CHOWN\",\"CAP_DAC_OVERRIDE\",\"CAP_SETUID\",\"CAP_SETGID\",\"CAP_NET_BIND_SERVICE\"]"@
            + ",\"permitted\":"@
            + "[\"CAP_NET_RAW\",\"CAP_CHOWN\",\"CAP_DAC_OVERRIDE\",\"CAP_SETUID\",\"CAP_SETGID\",\"CAP_NET_BIND_SERVICE\"]"@
            + "},\"cwd\":"@
            + json_text(
            if process.cwd.len() == 0 {
                "/"@
            } else {
                process.cwd
            },
        )
            + ",\"env\":"@
            + json_list(process.env)
            + ",\"noNewPrivileges\":true,\"rlimits\":[{\"hard\":1024,\"soft\":1024,\"type\":\"RLIMIT_NOFILE\"}],\"terminal\":false,\"user\":{\"gid\":"@
            + decimal(process.gid)
            + ",\"uid\":"@
            + decimal(process.uid)
            + "}},\"root\":{\"path\":\"rootfs\",\"readonly\":false}}"@ == m + (",\"ociVersion\":\"1.1.0\",\"process\":{\"args\":"@
            + json_list(process.argv)
            + ",\"capabilities\":{\"bounding\":"@
            + "[\"CAP_NET_RAW\",\"CAP_CHOWN\",\"CAP_DAC_OVERRIDE\",\"CAP_SETUID\",\"CAP_SETGID\",\"CAP_NET_BIND_SERVICE\"]"@
            + ",\"effective\":"@
            + "[\"CAP_NET_RAW\",\"CAP_CHOWN\",\"CAP_DAC_OVERRIDE\",\"CAP_SETUID\",\"CAP_SETGID\",\"CAP_NET_BIND_SERVICE\"]"@
            + ",\"permitted\":"@
            + "[\"CAP_NET_RAW\",\"CAP_CHOWN\",\"CAP_DAC_OVERRIDE\",\"CAP_SETUID\",\"CAP_SETGID\",\"CAP_NET_BIND_SERVICE\"]"@
            + "},\"cwd\":"@
            + json_text(
            if process.cwd.len() == 0 {
                "/"@
            } else {
                process.cwd
            },
        )
            + ",\"env\":"@
            + json_list(process.env)
            + ",\"noNewPrivileges\":true,\"rlimits\":[{\"hard\":1024,\"soft\":1024,\"type\":\"RLIMIT_NOFILE\"}],\"terminal\":false,\"user\":{\"gid\":"@
            + decimal(process.gid)
            + ",\"uid\":"@
            + decimal(process.uid)
            + "}},\"root\":{\"path\":\"rootfs\",\"readonly\":false}}"@),
{
    let t0 = ",\"ociVersion\":\"1.1.0\",\"process\":{\"args\":"@;
    let s0 = m + t0;
    let x1 = json_list(process.argv);
    let t1 = t0 + x1;
    let s1 = s0 + x1;
    assert(m + t0 + x1 =~= m + t1);
    let x2 = ",\"capabilities\":{\"bounding\":"@;
    let t2 = t1 + x2;
    let s2 = s1 + x2;
    assert(m + t1 + x2 =~= m + t2);
    let x3 = "[\"CAP_NET_RAW\",\"CAP_CHOWN\",\"CAP_DAC_OVERRIDE\",\"CAP_SETUID\",\"CAP_SETGID\",\"CAP_NET_BIND_SERVICE\"]"@;
    let t3 = t2 + x3;
    let s3 = s2 + x3;
    assert(m + t2 + x3 =~= m + t3);
    let x4 = ",\"effective\":"@;
    let t4 = t3 + x4;
    let s4 = s3 + x4;
    assert(m + t3 + x4 =~= m + t4);
    let x5 = "[\"CAP_NET_RAW\",\"CAP_CHOWN\",\"CAP_DAC_OVERRIDE\",\"CAP_SETUID\",\"CAP_SETGID\",\"CAP_NET_BIND_SERVICE\"]"@;
    let t5 = t4 + x5;
    let s5 = s4 + x5;
    assert(m + t4 + x5 =~= m + t5);
    let x6 = ",\"permitted\":"@;
    let t6 = t5 + x6;
    let s6 = s5 + x6;
    assert(m + t5 + x6 =~= m + t6);
    let x7 = "[\"CAP_NET_RAW\",\"CAP_CHOWN\",\"CAP_DAC_OVERRIDE\",\"CAP_SETUID\",\"CAP_SETGID\",\"CAP_NET_BIND_SERVICE\"]"@;
    let t7 = t6 + x7;
    let s7 = s6 + x7;
    assert(m + t6 + x7 =~= m + t7);
    let x8 = "},\"cwd\":"@;
    let t8 = t7 + x8;
    let s8 = s7 + x8;
    assert(m + t7 + x8 =~= m + t8);
    let x9 = json_text(
            if process.cwd.len() == 0 {
                "/"@
            } else {
                process.cwd
            },
        );
    let t9 = t8 + x9;
    let s9 = s8 + x9;
    assert(m + t8 + x9 =~= m + t9);
    let x10 = ",\"env\":"@;
    let t10 = t9 + x10;
    let s10 = s9 + x10;
    assert(m + t9 + x10 =~= m + t10);
    let x11 = json_list(process.env);
    let t11 = t10 + x11;
    let s11 = s10 + x11;
    assert(m + t10 + x11 =~= m + t11);
    let x12 = ",\"noNewPrivileges\":true,\"rlimits\":[{\"hard\":1024,\"soft\":1024,\"type\":\"RLIMIT_NOFILE\"}],\"terminal\":false,\"user\":{\"gid\":"@;
    let t12 = t11 + x12;
    let s12 = s11 + x12;
    assert(m + t11 + x12 =~= m + t12);
    let x13 = decimal(process.gid);
    let t13 = t12 + x13;
    let s13 = s12 + x13;
    assert(m + t12 + x13 =~= m + t13);
    let x14 = ",\"uid\":"@;
    let t14 = t13 + x14;
    let s14 = s13 + x14;
    assert(m + t13 + x14 =~= m + t14);
    let x15 = decimal(process.uid);
    let t15 = t14 + x15;
    let s15 = s14 + x15;
    assert(m + t14 + x15 =~= m + t15);
    let x16 = "}},\"root\":{\"path\":\"rootfs\",\"readonly\":false}}"@;
    let t16 = t15 + x16;
    let s16 = s15 + x16;
    assert(m + t15 + x16 =~= m + t16);
}

/// A container sees the file systems that programs expect, each with its options,
/// and the names of other machines as this machine does.
pub proof fn law_containers_see_their_mounts(id: Seq<char>, process: ProcessView)
    ensures
        exists|head: Seq<char>, tail: Seq<char>| #[trigger]
            (head + mounts() + tail) == oci_spec(id, process),
        mounts() == ",\"mounts\":[{\"destination\":\"/proc\",\"source\":\"proc\",\"type\":\"proc\"}"@
            + ",{\"destination\":\"/dev\",\"options\":[\"nosuid\",\"strictatime\",\"mode=755\",\"size=65536k\"],\"source\":\"tmpfs\",\"type\":\"tmpfs\"}"@
            + ",{\"destination\":\"/dev/pts\",\"options\":[\"nosuid\",\"noexec\",\"newinstance\",\"ptmxmode=0666\",\"mode=0620\",\"gid=5\"],\"source\":\"devpts\",\"type\":\"devpts\"}"@
            + ",{\"destination\":\"/dev/shm\",\"options\":[\"nosuid\",\"noexec\",\"nodev\",\"mode=1777\",\"size=65536k\"],\"source\":\"shm\",\"type\":\"tmpfs\"}"@
            + ",{\"destination\":\"/dev/mqueue\",\"options\":[\"nosuid\",\"noexec\",\"nodev\"],\"source\":\"mqueue\",\"type\":\"mqueue\"}"@
            + ",{\"destination\":\"/sys\",\"options\":[\"nosuid\",\"noexec\",\"nodev\",\"ro\"],\"source\":\"sysfs\",\"type\":\"sysfs\"}"@
            + ",{\"destination\":\"/etc/resolv.conf\",\"options\":[\"rbind\",\"ro\"],\"source\":\"/etc/resolv.conf\",\"type\":\"bind\"}]"@,
{
    let h = "{\"hostname\":"@ + json_text(id) + ",\"linux\":{\"maskedPaths\":[\"/proc/kcore\",\"/proc/latency_stats\",\"/proc/timer_list\",\"/proc/timer_stats\",\"/proc/sched_debug\",\"/sys/firmware\"],\"namespaces\":[{\"type\":\"pid\"},{\"type\":\"ipc\"},{\"type\":\"uts\"},{\"type\":\"mount\"}],\"readonlyPaths\":[\"/proc/asound\",\"/proc/bus\",\"/proc/fs\",\"/proc/irq\",\"/proc/sys\",\"/proc/sysrq-trigger\"]}"@;
    let body = mounts();
    let m0 = h + ",\"mounts\":[{\"destination\":\"/proc\",\"source\":\"proc\",\"type\":\"proc\"}"@;
    let m1 = m0 + ",{\"destination\":\"/dev\",\"options\":[\"nosuid\",\"strictatime\",\"mode=755\",\"size=65536k\"],\"source\":\"tmpfs\",\"type\":\"tmpfs\"}"@;
    let m2 = m1 + ",{\"destination\":\"/dev/pts\",\"options\":[\"nosuid\",\"noexec\",\"newinstance\",\"ptmxmode=0666\",\"mode=0620\",\"gid=5\"],\"source\":\"devpts\",\"type\":\"devpts\"}"@;
    let m3 = m2 + ",{\"destination\":\"/dev/shm\",\"options\":[\"nosuid\",\"noexec\",\"nodev\",\"mode=1777\",\"size=65536k\"],\"source\":\"shm\",\"type\":\"tmpfs\"}"@;
    let m4 = m3 + ",{\"destination\":\"/dev/mqueue\",\"options\":[\"nosuid\",\"noexec\",\"nodev\"],\"source\":\"mqueue\",\"type\":\"mqueue\"}"@;
    let m5 = m4 + ",{\"destination\":\"/sys\",\"options\":[\"nosuid\",\"noexec\",\"nodev\",\"ro\"],\"source\":\"sysfs\",\"type\":\"sysfs\"}"@;
    let m6 = m5 + ",{\"destination\":\"/etc/resolv.conf\",\"options\":[\"rbind\",\"ro\"],\"source\":\"/etc/resolv.conf\",\"type\":\"bind\"}]"@;
    assert(m6 =~= h + body);
    let all = oci_spec(id, process);
    let tail = ",\"ociVersion\":\"1.1.0\",\"process\":{\"args\":"@
        + json_list(process.argv)
        + ",\"capabilities\":{\"bounding\":"@
        + "[\"CAP_NET_RAW\",\"CAP_CHOWN\",\"CAP_DAC_OVERRIDE\",\"CAP_SETUID\",\"CAP_SETGID\",\"CAP_NET_BIND_SERVICE\"]"@
        + ",\"effective\":"@
        + "[\"CAP_NET_RAW\",\"CAP_CHOWN\",\"CAP_DAC_OVERRIDE\",\"CAP_SETUID\",\"CAP_SETGID\",\"CAP_NET_BIND_SERVICE\"]"@
        + ",\"permitted\":"@
        + "[\"CAP_NET_RAW\",\"CAP_CHOWN\",\"CAP_DAC_OVERRIDE\",\"CAP_SETUID\",\"CAP_SETGID\",\"CAP_NET_BIND_SERVICE\"]"@
        + "},\"cwd\":"@
        + json_text(
            if process.cwd.len() == 0 {
                "/"@
            } else {
                process.cwd
            },
        )
        + ",\"env\":"@
        + json_list(process.env)
        + ",\"noNewPrivileges\":true,\"rlimits\":[{\"hard\":1024,\"soft\":1024,\"type\":\"RLIMIT_NOFILE\"}],\"terminal\":false,\"user\":{\"gid\":"@
        + decimal(process.gid)
        + ",\"uid\":"@
        + decimal(process.uid)
        + "}},\"root\":{\"path\":\"rootfs\",\"readonly\":false}}"@;
    lemma_chain(m6, process);
    assert(all == m6 + tail);
    assert((h + body) + tail == all);
}

/// The file systems of a container.
pub open spec fn mounts() -> Seq<char> {
    ",\"mounts\":[{\"destination\":\"/proc\",\"source\":\"proc\",\"type\":\"proc\"}"@
        + ",{\"destination\":\"/dev\",\"options\":[\"nosuid\",\"strictatime\",\"mode=755\",\"size=65536k\"],\"source\":\"tmpfs\",\"type\":\"tmpfs\"}"@
        + ",{\"destination\":\"/dev/pts\",\"options\":[\"nosuid\",\"noexec\",\"newinstance\",\"ptmxmode=0666\",\"mode=0620\",\"gid=5\"],\"source\":\"devpts\",\"type\":\"devpts\"}"@
        + ",{\"destination\":\"/dev/shm\",\"options\":[\"nosuid\",\"noexec\",\"nodev\",\"mode=1777\",\"size=65536k\"],\"source\":\"shm\",\"type\":\"tmpfs\"}"@
        + ",{\"destination\":\"/dev/mqueue\",\"options\":[\"nosuid\",\"noexec\",\"nodev\"],\"source\":\"mqueue\",\"type\":\"mqueue\"}"@
        + ",{\"destination\":\"/sys\",\"options\":[\"nosuid\",\"noexec\",\"nodev\",\"ro\"],\"source\":\"sysfs\",\"type\":\"sysfs\"}"@
        + ",{\"destination\":\"/etc/resolv.conf\",\"options\":[\"rbind\",\"ro\"],\"source\":\"/etc/resolv.conf\",\"type\":\"bind\"}]"@
}

/// A list of texts is written between brackets, with commas between the texts.
pub proof fn law_lists_are_parted_by_commas(items: Seq<Seq<char>>, last: Seq<char>)
    ensures
        json_list(Seq::empty()) == "[]"@,
        json_list(seq![last]) == "["@ + json_text(last) + "]"@,
        items.len() > 0 ==> json_list(items.push(last)) == json_list(items).drop_last() + ","@
            + json_text(last) + "]"@,
{
    reveal_strlit("[");
    reveal_strlit("]");
    reveal_strlit("[]");
    assert("["@ + Seq::<char>::empty() + "]"@ =~= "[]"@);
    assert(items.push(last).drop_last() =~= items);
    if items.len() > 0 {
        assert(json_list(items).drop_last() =~= "["@ + json_items(items));
        assert(json_list(items.push(last)) =~= json_list(items).drop_last() + ","@ + json_text(last)
            + "]"@);
    }
}

} // verus!
