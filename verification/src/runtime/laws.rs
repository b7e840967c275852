//! What the runtimes make of services.

use crate::codec::digest::{digest_name, hex_digit, hex_text, sha256_of};
use crate::codec::json::{json_fault, json_has, json_len, json_string};
use crate::collections::Entry;
use crate::exec::ExecSetView;
use crate::paths::under;
use crate::runtime::apple::{
    answer_of, apple_commands, apple_preparation, asks, cli_check_result, cli_pull_result,
    co_process, env_mode, mode_warning, named_mode, AppleMode, ReplyView,
};
use crate::runtime::bare::bare_commands;
use crate::runtime::containerd::image::{
    chain_of, chosen_manifest, config_place, entries_of, image_arch, image_of,
    manifest_place, parsed_config_place, strings_at, strings_before, ImageConfigView,
    ManifestEntryView,
};
use crate::runtime::containerd::oci::{ids_of, layered};
use crate::runtime::containerd::run::{encoded, RunSpecView};
use crate::runtime::containerd::{containerd_commands, env_texts, run_spec_of};
use crate::runtime::flags::{
    env_file_flags, env_flags, publish_flags, run_command, volume_flags,
};
use crate::runtime::nerdctl::{nerdctl_check, nerdctl_commands};
use crate::runtime::{
    commands_of, host_commands, preparation_of, runtime_message, AnyRuntime, PreparationView,
    RuntimeErrorView,
};
use crate::platform::OutcomeView;
use crate::text::chars::lowercase;
use crate::text::number::{decimal, is_digit, lemma_decimal_round_trip};
use crate::text::order::sorted;
use crate::text::scan::{lemma_find_first, lemma_find_none, trimmed, words};
use crate::types::{PortMappingView, ServiceView, VolumeMountView};
use vstd::prelude::*;
use vstd::utf8::encode_utf8;

verus! {

/// A host service is run by its own command and stopped by its own, and needs
/// nothing before or after. One without a command cannot be run.
pub proof fn law_host_services_run_their_command(service: ServiceView)
    ensures
        service.run_command matches Some(cmd) ==> host_commands(service) == Ok::<
            ExecSetView,
            RuntimeErrorView,
        >(
            ExecSetView {
                start: cmd,
                pre_start: None,
                stop: service.stop_command,
                post_stop: None,
            },
        ),
        service.run_command is None ==> host_commands(service) == Err::<
            ExecSetView,
            RuntimeErrorView,
        >(
            RuntimeErrorView::Other(
                "service '"@ + service.name + "' is host-mode but has no RUN command"@,
            ),
        ),
{
}

/// Without a container runtime a container service is refused by its name, with
/// the image that it wants.
pub proof fn law_bare_refuses_containers(service: ServiceView)
    ensures
        service.is_host() ==> bare_commands(service) == host_commands(service),
        !service.is_host() ==> bare_commands(service) == Err::<ExecSetView, RuntimeErrorView>(
            RuntimeErrorView::UnsupportedMode {
                service: service.name,
                mode: "container (FROM "@ + (match service.image {
                    Some(image) => image,
                    None => "unknown"@,
                })
                    + "). Create a bare overlay that redefines it with RUN, or use a container runtime (--runtime containerd)"@,
            },
        ),
{
}

/// A container service is pulled, run under the name of the service in its
/// namespace, stopped and removed, all by the same tool. One without an image
/// cannot be run.
pub proof fn law_containers_are_pulled_run_and_removed(namespace: Seq<char>, service: ServiceView)
    requires
        !service.is_host(),
    ensures
        service.image matches Some(image) ==> {
            let name = namespace + "-"@ + service.name;
            &&& apple_commands(namespace, service) == Ok::<ExecSetView, RuntimeErrorView>(
                ExecSetView {
                    start: run_command("container"@, name, service, image),
                    pre_start: Some("container image pull "@ + image),
                    stop: Some("container stop "@ + name),
                    post_stop: Some("container delete --force "@ + name),
                },
            )
            &&& nerdctl_commands(namespace, service) == Ok::<ExecSetView, RuntimeErrorView>(
                ExecSetView {
                    start: run_command("nerdctl"@, name, service, image),
                    pre_start: Some("nerdctl pull "@ + image),
                    stop: Some("nerdctl stop "@ + name),
                    post_stop: Some("nerdctl rm -f "@ + name),
                },
            )
        },
        service.image is None ==> apple_commands(namespace, service) == Err::<
            ExecSetView,
            RuntimeErrorView,
        >(
            RuntimeErrorView::Other(
                "service '"@ + service.name + "' is container-mode but has no FROM image"@,
            ),
        ) && nerdctl_commands(namespace, service) == apple_commands(namespace, service),
{
}

/// The line that runs a container: its name, then the flags of the service, then
/// the image, and last the command where the service has one.
pub proof fn law_run_lines_have_their_order(
    tool: Seq<char>,
    name: Seq<char>,
    service: ServiceView,
    image: Seq<char>,
)
    ensures
        run_command(tool, name, service, image) == tool + " run --name "@ + name + " --init"@ + (
        env_flags(service.env) + env_file_flags(service.env_files) + volume_flags(
            service.volumes,
        ) + publish_flags(service.publish) + (match service.resources.memory {
            Some(m) => " --memory "@ + m,
            None => Seq::empty(),
        }) + (match service.resources.cpus {
            Some(c) => " --cpus "@ + (match c.whole {
                Some(n) => decimal(n as nat),
                None => c.text,
            }),
            None => Seq::empty(),
        }) + (match service.user {
            Some(u) => " --user "@ + u,
            None => Seq::empty(),
        }) + (match service.workdir {
            Some(d) => " --workdir "@ + d,
            None => Seq::empty(),
        }) + (match service.entrypoint {
            Some(e) => " --entrypoint "@ + e,
            None => Seq::empty(),
        })) + " "@ + image + (match service.cmd {
            Some(c) => " "@ + c,
            None => Seq::empty(),
        }),
{
}

/// Every variable, environment file, volume and port of a service has a flag of its
/// own, in order.
pub proof fn law_each_thing_has_its_flag(
    env: Seq<Entry>,
    e: Entry,
    files: Seq<Seq<char>>,
    file: Seq<char>,
    volumes: Seq<VolumeMountView>,
    volume: VolumeMountView,
    ports: Seq<PortMappingView>,
    port: PortMappingView,
)
    ensures
        env_flags(Seq::empty()) == Seq::<char>::empty(),
        env_flags(env.push(e)) == env_flags(env) + (" --env "@ + e.0 + "="@ + e.1),
        env_file_flags(Seq::empty()) == Seq::<char>::empty(),
        env_file_flags(files.push(file)) == env_file_flags(files) + (" --env-file "@ + file),
        volume_flags(Seq::empty()) == Seq::<char>::empty(),
        volume_flags(volumes.push(volume)) == volume_flags(volumes) + (" --volume "@
            + volume.source + ":"@ + volume.destination),
        publish_flags(Seq::empty()) == Seq::<char>::empty(),
        publish_flags(ports.push(port)) == publish_flags(ports) + (" --publish "@ + (
        match port.address {
            Some(a) => a + ":"@,
            None => Seq::empty(),
        }) + decimal(port.host as nat) + ":"@ + decimal(port.container as nat)),
{
    assert(env.push(e).drop_last() =~= env);
    assert(files.push(file).drop_last() =~= files);
    assert(volumes.push(volume).drop_last() =~= volumes);
    assert(ports.push(port).drop_last() =~= ports);
    assert(env_flags(env.push(e)) =~= env_flags(env) + (" --env "@ + e.0 + "="@ + e.1));
    assert(env_file_flags(files.push(file)) =~= env_file_flags(files) + (" --env-file "@ + file));
    assert(volume_flags(volumes.push(volume)) =~= volume_flags(volumes) + (" --volume "@
        + volume.source + ":"@ + volume.destination));
}

/// On containerd a container service is run by this program, which is handed
/// everything about it in one word.
pub proof fn law_containerd_runs_itself(
    namespace: Seq<char>,
    socket: Seq<char>,
    exe: Option<Seq<char>>,
    service: ServiceView,
    image: Seq<char>,
)
    requires
        !service.is_host(),
        service.image == Some(image),
    ensures
        ({
            let spec = run_spec_of(namespace, socket, service, image);
            &&& containerd_commands(namespace, socket, exe, service) == Ok::<
                ExecSetView,
                RuntimeErrorView,
            >(
                ExecSetView {
                    start: (match exe {
                        Some(path) => path,
                        None => "orchd"@,
                    }) + " containerd-run --spec "@ + encoded(spec),
                    pre_start: None,
                    stop: None,
                    post_stop: None,
                },
            )
            &&& spec.socket == socket
            &&& spec.namespace == namespace
            &&& spec.image == image
            &&& spec.container_id == namespace + "-"@ + service.name
            &&& spec.user == service.user
            &&& service.workdir matches Some(d) ==> spec.cwd == d
            &&& service.workdir is None ==> spec.cwd == Seq::<char>::empty()
            &&& spec.args == (match service.entrypoint {
                Some(e) => words(e),
                None => Seq::empty(),
            }) + (match service.cmd {
                Some(c) => words(c),
                None => Seq::empty(),
            })
            &&& spec.env == sorted(service.env.map_values(|v: Entry| v.0 + "="@ + v.1))
        }),
{
    assert(env_texts(service.env) == sorted(
        service.env.map_values(|v: Entry| v.0 + "="@ + v.1),
    ));
}

/// Each runtime makes its own commands; a host service is prepared for with its
/// directory, and only Apple's tool pulls ahead.
pub proof fn law_runtimes_keep_apart(runtime: &AnyRuntime, service: ServiceView)
    ensures
        runtime matches AnyRuntime::Bare(r) ==> commands_of(runtime, service) == bare_commands(
            service,
        ) && preparation_of(runtime, service) == Ok::<PreparationView, RuntimeErrorView>(
            PreparationView::Directory { path: under(r.data_dir@, service.name) },
        ),
        runtime matches AnyRuntime::Apple(r) ==> commands_of(runtime, service) == apple_commands(
            r.namespace@,
            service,
        ) && preparation_of(runtime, service) == apple_preparation(r.mode, r.data_dir@, service),
        runtime matches AnyRuntime::Containerd(r) ==> commands_of(runtime, service)
            == containerd_commands(r.namespace@, r.socket@, r.exe.deep_view(), service)
            && preparation_of(runtime, service) == Ok::<PreparationView, RuntimeErrorView>(
            if service.is_host() {
                PreparationView::Directory { path: under(r.data_dir@, service.name) }
            } else {
                PreparationView::Nothing
            },
        ),
{
}

/// How the Apple runtime prepares a service, and when its co-process is asked: for
/// container services, unless Apple's own tool runs them.
pub proof fn law_apple_asks_or_pulls(
    mode: AppleMode,
    data_dir: Seq<char>,
    service: ServiceView,
    image: Seq<char>,
)
    ensures
        asks(mode, service) <==> !service.is_host() && mode != AppleMode::ContainerCli,
        service.is_host() ==> apple_preparation(mode, data_dir, service) == Ok::<
            PreparationView,
            RuntimeErrorView,
        >(PreparationView::Directory { path: under(data_dir, service.name) }),
        asks(mode, service) ==> apple_preparation(mode, data_dir, service) == Ok::<
            PreparationView,
            RuntimeErrorView,
        >(PreparationView::Ask),
        !service.is_host() && mode == AppleMode::ContainerCli && service.image == Some(image)
            ==> apple_preparation(mode, data_dir, service) == Ok::<
            PreparationView,
            RuntimeErrorView,
        >(PreparationView::Pull { image }),
        !service.is_host() && mode == AppleMode::ContainerCli && service.image is None
            ==> apple_preparation(mode, data_dir, service) is Err,
{
}

/// The modes of the Apple runtime go by their names, whatever their case and the
/// white space around them. Where none or an unknown one is named, it is the
/// co-process `orchd-apple`.
pub proof fn law_apple_modes_go_by_their_names(s: Seq<char>, vars: Map<Seq<char>, Seq<char>>)
    ensures
        ({
            let t = lowercase(trimmed(s));
            &&& named_mode(s) == Some(AppleMode::ContainerCli) <==> t == "container"@ || t
                == "cli"@
            &&& named_mode(s) == Some(AppleMode::OrchdOsx) <==> t == "osx"@ || t == "vz"@ || t
                == "orchd-osx"@
            &&& named_mode(s) == Some(AppleMode::OrchdApple) <==> t == "xpc"@ || t == "daemon"@
                || t == "apple"@ || t == "orchd-apple"@ || t.len() == 0
        }),
        !vars.contains_key("ORCHD_APPLE_MODE"@) ==> env_mode(vars) == AppleMode::OrchdApple,
        vars.contains_key("ORCHD_APPLE_MODE"@) && vars["ORCHD_APPLE_MODE"@] == s && named_mode(
            s,
        ) is Some ==> Some(env_mode(vars)) == named_mode(s),
        vars.contains_key("ORCHD_APPLE_MODE"@) && vars["ORCHD_APPLE_MODE"@] == s && named_mode(
            s,
        ) is None ==> env_mode(vars) == AppleMode::OrchdApple,
{
    let t = lowercase(trimmed(s));
    lemma_mode_names();
    if t.len() == 0 {
        assert(t =~= ""@);
    }
}

proof fn lemma_mode_names()
    ensures
        ""@.len() == 0,
        "container"@.len() == 9 && "container"@[0] == 'c',
        "cli"@.len() == 3 && "cli"@[0] == 'c',
        "osx"@.len() == 3 && "osx"@[0] == 'o',
        "vz"@.len() == 2,
        "orchd-osx"@.len() == 9 && "orchd-osx"@[0] == 'o',
        "xpc"@.len() == 3 && "xpc"@[0] == 'x',
        "daemon"@.len() == 6,
        "apple"@.len() == 5,
        "orchd-apple"@.len() == 11,
{
    reveal_strlit("");
    reveal_strlit("container");
    reveal_strlit("cli");
    reveal_strlit("osx");
    reveal_strlit("vz");
    reveal_strlit("orchd-osx");
    reveal_strlit("xpc");
    reveal_strlit("daemon");
    reveal_strlit("apple");
    reveal_strlit("orchd-apple");
}

/// The co-process of a mode is where its variable says, else next to this program,
/// else wherever its name leads.
pub proof fn law_co_processes_are_found(
    vars: Map<Seq<char>, Seq<char>>,
    sibling: Option<Seq<char>>,
)
    ensures
        co_process(AppleMode::ContainerCli, vars, sibling) is None,
        co_process(AppleMode::OrchdApple, vars, sibling) == Some(
            if vars.contains_key("ORCHD_APPLE_BIN"@) {
                vars["ORCHD_APPLE_BIN"@]
            } else if sibling is Some {
                sibling->0
            } else {
                "orchd-apple"@
            },
        ),
        co_process(AppleMode::OrchdOsx, vars, sibling) == Some(
            if vars.contains_key("ORCHD_OSX_BIN"@) {
                vars["ORCHD_OSX_BIN"@]
            } else if sibling is Some {
                sibling->0
            } else {
                "orchd-osx"@
            },
        ),
{
}

/// A mode is warned of exactly if it is not known.
pub proof fn law_unknown_modes_are_warned_of(s: Seq<char>)
    ensures
        mode_warning(s) is Some <==> named_mode(s) is None,
        mode_warning(s) matches Some(line) ==> line == "warning: unknown ORCHD_APPLE_MODE '"@
            + lowercase(trimmed(s)) + "', using 'xpc' (orchd-apple)"@,
{
}

/// A co-process is believed exactly if it answers; every other reply is an error,
/// and one that could not be started is one that was not found.
pub proof fn law_only_answers_count(bin: Seq<char>, subcommand: Seq<char>, reply: ReplyView)
    ensures
        answer_of(bin, subcommand, reply) is Ok <==> reply is Answer,
        reply matches ReplyView::Answer(s) ==> answer_of(bin, subcommand, reply) == Ok::<
            Seq<char>,
            RuntimeErrorView,
        >(s),
        reply is NotSpawned ==> answer_of(bin, subcommand, reply)->Err_0 is BinaryNotFound,
{
}

/// A tool is fit for use exactly if it runs and succeeds.
pub proof fn law_tools_must_answer(image: Seq<char>, outcome: OutcomeView)
    ensures
        ({
            let well = outcome matches OutcomeView::Ended { success, .. } && success;
            &&& cli_check_result(outcome) is Ok <==> well
            &&& cli_pull_result(image, outcome) is Ok <==> well
            &&& nerdctl_check(outcome) is Ok <==> well
            &&& outcome is NotRun ==> cli_check_result(outcome)->Err_0 is BinaryNotFound
            &&& outcome is NotRun ==> cli_pull_result(image, outcome)->Err_0 is BinaryNotFound
            &&& outcome is NotRun ==> nerdctl_check(outcome)->Err_0 is BinaryNotFound
        }),
{
}

/// Each error says of what kind it is and what happened.
pub proof fn law_runtime_errors_say_their_kind(s: Seq<char>, service: Seq<char>, mode: Seq<char>)
    ensures
        runtime_message(RuntimeErrorView::UnsupportedMode { service, mode }) == "service '"@
            + service + "' has mode '"@ + mode + "' which is not supported by this runtime"@,
        runtime_message(RuntimeErrorView::PrerequisiteMissing(s)) == "prerequisite missing: "@ + s,
        runtime_message(RuntimeErrorView::BinaryNotFound(s)) == "binary not found: "@ + s,
        runtime_message(RuntimeErrorView::Other(s)) == s,
{
}

/// The defaults of an image are what its config says under their names, and empty
/// where it says nothing. An image without layers is none.
pub proof fn law_images_say_their_defaults(blob: Seq<u8>)
    ensures
        image_of(blob) matches Ok(image) ==> {
            let config = image.1;
            &&& json_fault(blob) is None
            &&& strings_at(blob, "/rootfs/diff_ids"@) == Some(image.0)
            &&& image.0.len() > 0
            &&& json_string(blob, "/config/User"@) matches Some(u) ==> config.user == u
            &&& json_string(blob, "/config/User"@) is None ==> config.user.len() == 0
            &&& json_string(blob, "/config/WorkingDir"@) matches Some(d) ==> config.working_dir
                == d
            &&& json_string(blob, "/config/WorkingDir"@) is None ==> config.working_dir.len() == 0
            &&& strings_at(blob, "/config/Entrypoint"@) matches Some(l) ==> config.entrypoint == l
            &&& strings_at(blob, "/config/Entrypoint"@) is None ==> config.entrypoint.len() == 0
            &&& strings_at(blob, "/config/Cmd"@) matches Some(l) ==> config.cmd == l
            &&& strings_at(blob, "/config/Cmd"@) is None ==> config.cmd.len() == 0
            &&& strings_at(blob, "/config/Env"@) matches Some(l) ==> config.env == l
            &&& strings_at(blob, "/config/Env"@) is None ==> config.env.len() == 0
        },
        json_fault(blob) is None && (strings_at(blob, "/rootfs/diff_ids"@) matches Some(l)
            && l.len() > 0) ==> image_of(blob) is Ok,
        json_fault(blob) matches Some(e) ==> image_of(blob) == Err::<
            (Seq<Seq<char>>, ImageConfigView),
            Seq<char>,
        >("parse image config json: "@ + e),
{
}

/// A container whose service names no user runs as the user that the image config
/// names.
pub proof fn law_images_choose_the_user(blob: Seq<u8>, spec: RunSpecView)
    requires
        spec.user is None,
        image_of(blob) is Ok,
        layered(spec, image_of(blob)->Ok_0.1) is Ok,
    ensures
        ({
            let process = layered(spec, image_of(blob)->Ok_0.1)->Ok_0;
            let user = json_string(blob, "/config/User"@);
            &&& user matches Some(u) ==> (process.uid, process.gid) == ids_of(Some(u))
            &&& user is None ==> process.uid == 0 && process.gid == 0
        }),
{
    reveal_with_fuel(crate::text::scan::trim_start, 2);
    reveal_with_fuel(crate::text::scan::trim_end, 2);
    if let Some(u) = json_string(blob, "/config/User"@) {
        if u.len() == 0 {
            assert(trimmed(u).len() == 0);
        }
    }
}

/// The items of a list are read in order; what is no text is left out.
pub proof fn law_lists_are_read_in_order(blob: Seq<u8>, pointer: Seq<char>, n: nat)
    ensures
        strings_at(blob, pointer) is Some <==> json_len(blob, pointer) is Some,
        json_len(blob, pointer) == Some(n) ==> strings_at(blob, pointer) == Some(
            strings_before(blob, pointer, n),
        ),
        strings_before(blob, pointer, 0) == Seq::<Seq<char>>::empty(),
        strings_before(blob, pointer, n + 1) == strings_before(blob, pointer, n) + (
        match json_string(blob, pointer + "/"@ + decimal(n)) {
            Some(s) => seq![s],
            None => seq![],
        }),
{
    assert(strings_before(blob, pointer, n + 1) =~= strings_before(blob, pointer, n) + (
    match json_string(blob, pointer + "/"@ + decimal(n)) {
        Some(s) => seq![s],
        None => seq![],
    }));
}

/// A user is a number, or two with a colon between them: the first is the user, the
/// second the group. With one number, or a group that is none, the group is that
/// of the user. No user is root.
pub proof fn law_users_are_numbers(u: nat, g: nat)
    requires
        u <= u32::MAX,
        g <= u32::MAX,
    ensures
        ids_of(None) == (0nat, 0nat),
        ids_of(Some(decimal(u))) == (u, u),
        ids_of(Some(decimal(u) + ":"@ + decimal(g))) == (u, g),
{
    reveal_strlit(":");
    let a = decimal(u);
    let b = decimal(g);
    lemma_decimal_round_trip(u, u32::MAX as nat);
    lemma_decimal_round_trip(g, u32::MAX as nat);
    assert(is_digit(a[0]) && is_digit(a[a.len() - 1]) && is_digit(b[b.len() - 1]));
    assert forall|j: int| 0 <= j < a.len() implies a[j] != ':' by {
        assert(is_digit(a[j]));
    }
    lemma_find_none(a, ':');
    assert(trimmed(a) == a);
    let t = a + ":"@ + b;
    assert(t[0] == a[0] && t.last() == b[b.len() - 1]);
    assert(trimmed(t) == t);
    assert forall|j: int| 0 <= j < a.len() implies t[j] != ':' by {
        assert(is_digit(a[j]));
    }
    assert(t[a.len() as int] == ':');
    lemma_find_first(t, ':', a.len() as int);
    assert(t.take(a.len() as int) =~= a);
    assert(t.skip(a.len() as int + 1) =~= b);
}

/// What a container runs: the arguments of the spec, or those of the image, its
/// entrypoint before its command. The variables of the spec follow, and so
/// override, those of the image. The directory is that of the spec, else that of
/// the image, else the root. A container with nothing to run cannot be run.
pub proof fn law_specs_are_layered_over_images(spec: RunSpecView, config: ImageConfigView)
    ensures
        layered(spec, config) is Ok <==> spec.args.len() > 0 || config.entrypoint.len() > 0
            || config.cmd.len() > 0,
        layered(spec, config) matches Ok(p) ==> {
            &&& spec.args.len() > 0 ==> p.argv == spec.args
            &&& spec.args.len() == 0 ==> p.argv == config.entrypoint + config.cmd
            &&& p.env == config.env + spec.env
            &&& spec.cwd.len() > 0 ==> p.cwd == spec.cwd
            &&& spec.cwd.len() == 0 && config.working_dir.len() > 0 ==> p.cwd
                == config.working_dir
            &&& spec.cwd.len() == 0 && config.working_dir.len() == 0 ==> p.cwd == "/"@
            &&& spec.user is Some ==> (p.uid, p.gid) == ids_of(spec.user)
            &&& spec.user is None && config.user.len() > 0 ==> (p.uid, p.gid) == ids_of(
                Some(config.user),
            )
            &&& spec.user is None && config.user.len() == 0 ==> p.uid == 0 && p.gid == 0
        },
{
}

/// Of the manifests of an index the first for this machine is taken, else the
/// first of all; an index without manifests, or one that does not say where its
/// manifest is, is of no use.
pub proof fn law_manifests_fit_the_machine(
    entries: Seq<ManifestEntryView>,
    arch: Seq<char>,
    i: int,
)
    requires
        0 <= i < entries.len(),
    ensures
        chosen_manifest(Seq::empty(), arch) == Err::<Seq<char>, Seq<char>>(
            "no manifest in index"@,
        ),
        entries[i].os == Some("linux"@) && entries[i].architecture == Some(arch) && (forall|j: int|
            0 <= j < i ==> !((#[trigger] entries[j]).os == Some("linux"@)
                && entries[j].architecture == Some(arch))) ==> chosen_manifest(entries, arch) == (
        match entries[i].digest {
            Some(d) => Ok::<Seq<char>, Seq<char>>(d),
            None => Err("manifest entry missing digest"@),
        }),
        (forall|j: int|
            0 <= j < entries.len() ==> !((#[trigger] entries[j]).os == Some("linux"@)
                && entries[j].architecture == Some(arch))) ==> chosen_manifest(entries, arch) == (
        match entries[0].digest {
            Some(d) => Ok::<Seq<char>, Seq<char>>(d),
            None => Err("manifest entry missing digest"@),
        }),
{
    if entries[i].os == Some("linux"@) && entries[i].architecture == Some(arch) && (forall|j: int|
        0 <= j < i ==> !((#[trigger] entries[j]).os == Some("linux"@)
            && entries[j].architecture == Some(arch))) {
        lemma_first_fit(entries, arch, i);
    }
    if forall|j: int|
        0 <= j < entries.len() ==> !((#[trigger] entries[j]).os == Some("linux"@)
            && entries[j].architecture == Some(arch)) {
        lemma_no_fit(entries, arch);
    }
}

proof fn lemma_first_fit(entries: Seq<ManifestEntryView>, arch: Seq<char>, i: int)
    requires
        0 <= i < entries.len(),
        entries[i].os == Some("linux"@) && entries[i].architecture == Some(arch),
        forall|j: int|
            0 <= j < i ==> !((#[trigger] entries[j]).os == Some("linux"@)
                && entries[j].architecture == Some(arch)),
    ensures
        crate::runtime::containerd::image::first_fit(entries, arch) == Some(entries[i]),
    decreases entries.len(),
{
    if i > 0 {
        let rest = entries.skip(1);
        assert(!(entries[0].os == Some("linux"@) && entries[0].architecture == Some(arch)));
        assert forall|j: int| 0 <= j < i - 1 implies !((#[trigger] rest[j]).os == Some("linux"@)
            && rest[j].architecture == Some(arch)) by {
            assert(rest[j] == entries[j + 1]);
        }
        lemma_first_fit(rest, arch, i - 1);
    }
}

proof fn lemma_no_fit(entries: Seq<ManifestEntryView>, arch: Seq<char>)
    requires
        forall|j: int|
            0 <= j < entries.len() ==> !((#[trigger] entries[j]).os == Some("linux"@)
                && entries[j].architecture == Some(arch)),
    ensures
        crate::runtime::containerd::image::first_fit(entries, arch) is None,
    decreases entries.len(),
{
    if entries.len() > 0 {
        let rest = entries.skip(1);
        assert(!(entries[0].os == Some("linux"@) && entries[0].architecture == Some(arch)));
        assert forall|j: int|
            0 <= j < rest.len() implies !((#[trigger] rest[j]).os == Some("linux"@)
            && rest[j].architecture == Some(arch)) by {
            assert(rest[j] == entries[j + 1]);
        }
        lemma_no_fit(rest, arch);
    }
}

/// Where the places are that lead from an index to the image config, and what the
/// architectures are called there.
pub proof fn law_images_are_followed_by_their_digests(blob: Seq<u8>, arch: Seq<char>, i: int)
    ensures
        json_fault(blob) is None && !json_has(blob, "/manifests"@) ==> manifest_place(blob, arch)
            == Ok::<Option<Seq<char>>, Seq<char>>(None),
        json_fault(blob) is None && json_has(blob, "/manifests"@) ==> manifest_place(blob, arch)
            == (match chosen_manifest(entries_of(blob), arch) {
            Ok(d) => Ok::<Option<Seq<char>>, Seq<char>>(Some(d)),
            Err(e) => Err(e),
        }),
        json_fault(blob) is Some ==> manifest_place(blob, arch) is Err && parsed_config_place(blob)
            is Err,
        json_len(blob, "/manifests"@) matches Some(n) ==> entries_of(blob).len() == n,
        0 <= i < entries_of(blob).len() ==> entries_of(blob)[i] == (ManifestEntryView {
            os: json_string(blob, "/manifests"@ + "/"@ + decimal(i as nat) + "/platform/os"@),
            architecture: json_string(
                blob,
                "/manifests"@ + "/"@ + decimal(i as nat) + "/platform/architecture"@,
            ),
            digest: json_string(blob, "/manifests"@ + "/"@ + decimal(i as nat) + "/digest"@),
        }),
        config_place(blob) == (match json_string(blob, "/config/digest"@) {
            Some(d) => Ok::<Seq<char>, Seq<char>>(d),
            None => Err("manifest missing config.digest"@),
        }),
        json_fault(blob) is None ==> parsed_config_place(blob) == config_place(blob),
        image_arch("x86_64"@) == "amd64"@,
        image_arch("aarch64"@) == "arm64"@,
        arch != "x86_64"@ && arch != "aarch64"@ ==> image_arch(arch) == arch,
{
    reveal_strlit("x86_64");
    reveal_strlit("aarch64");
    assert("x86_64"@.len() == 6 && "aarch64"@.len() == 7);
}

/// The snapshot of one layer is that layer. Each further layer is joined to the
/// chain by the digest of both, with a space between them.
pub proof fn law_layers_are_chained(ids: Seq<Seq<char>>, next: Seq<char>)
    requires
        ids.len() > 0,
    ensures
        chain_of(seq![next]) == next,
        chain_of(ids.push(next)) == "sha256:"@ + hex_text(
            sha256_of(encode_utf8(chain_of(ids) + " "@ + next)),
        ),
{
    assert(ids.push(next).drop_last() =~= ids);
}

/// A digest is written byte by byte, each as two digits, the high one first.
pub proof fn law_digests_are_written_in_hex(bytes: Seq<u8>, b: u8)
    ensures
        digest_name(bytes) == "sha256:"@ + hex_text(bytes),
        hex_text(Seq::empty()) == Seq::<char>::empty(),
        hex_text(bytes.push(b)) == hex_text(bytes) + seq![
            hex_digit(b as int / 16),
            hex_digit(b as int % 16),
        ],
        forall|n: int|
            0 <= n < 10 ==> #[trigger] hex_digit(n) as int == '0' as int + n,
        forall|n: int|
            10 <= n < 16 ==> #[trigger] hex_digit(n) as int == 'a' as int + n - 10,
{
    assert(bytes.push(b).drop_last() =~= bytes);
}

} // verus!
