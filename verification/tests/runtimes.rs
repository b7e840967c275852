#![allow(non_snake_case)]

use base64::Engine;
use orchd::collections::StringMap;
use orchd::config::{Config, Scope};
use orchd::platform::Outcome;
use orchd::runtime::apple::{bad_answer, unknown_mode, AppleMode, AppleRuntime, Reply};
use orchd::runtime::containerd::image::{
    chain_id, choose_manifest, find_config, find_manifest, goarch, list_layers, name_config,
    name_parsed_config, parse_and_find_config, place_manifest, read_image, write_link,
    ImageConfig, ManifestEntry,
};
use orchd::runtime::containerd::oci::{
    container_record, layer, oci_spec_json, parse_user, Process,
};
use orchd::runtime::containerd::run::{
    begin, decode_spec, encode_spec, enter_config, enter_manifest, enter_snapshot, outcome,
    read_word, report, step, write_spec, ContainerdRunSpec, RunEvent, RunPhase,
};
use orchd::runtime::containerd::ContainerdRuntime;
use orchd::runtime::nerdctl;
use orchd::runtime::{
    create_runtime, data_dir_failed, AnyRuntime, Preparation, RuntimeError, RuntimeHost,
};
use orchd::types::{
    CpuCount, LogConfig, PortMapping, RecreatePolicy, ResourceLimits, RestartConfig, Service,
    ServiceMode, TimeoutConfig, VolumeMount,
};

fn test_config() -> Config {
    Config {
        orchfile: "/test/Orchfile".to_string(),
        overlays: Vec::new(),
        runtime: "bare".to_string(),
        platform: "launchd".to_string(),
        scope: Scope::User,
        state_dir: "/test/.orch".to_string(),
        project_dir: "/test/project".to_string(),
        data_dir: "/test/.orch/data".to_string(),
        orch_bin: "orch".to_string(),
        namespace: "orch".to_string(),
        args: Vec::new(),
        verbose: false,
        quiet: false,
    }
}

fn simple_host_service(name: &str, run_cmd: &str) -> Service {
    Service {
        name: name.to_string(),
        mode: ServiceMode::Host,
        image: None,
        run_command: Some(run_cmd.to_string()),
        entrypoint: None,
        cmd: None,
        publish: Vec::new(),
        volumes: Vec::new(),
        user: None,
        stop_command: None,
        reload_command: None,
        workdir: None,
        env: StringMap::new(),
        env_files: Vec::new(),
        requires: Vec::new(),
        after: Vec::new(),
        healthcheck: None,
        readiness_timeout: None,
        oneshot: false,
        disabled: false,
        recreate: RecreatePolicy::default(),
        restart: RestartConfig::default(),
        timeouts: TimeoutConfig::default(),
        resources: ResourceLimits::default(),
        logging: LogConfig::default(),
    }
}

fn stub_container() -> Service {
    let mut svc = simple_host_service("x", "");
    svc.mode = ServiceMode::Container;
    svc.image = Some("x".to_string());
    svc.run_command = None;
    svc
}

fn stub_host() -> Service {
    simple_host_service("x", "x")
}

fn apple(mode: AppleMode, bin: Option<&str>) -> AppleRuntime {
    AppleRuntime {
        mode,
        bin: bin.map(|b| b.to_string()),
        namespace: "orch".to_string(),
        data_dir: "/tmp/orchd-apple-test-data".to_string(),
    }
}

fn vars(list: &[(&str, &str)]) -> StringMap {
    let mut map = StringMap::new();
    for (k, v) in list {
        map.insert(k.to_string(), v.to_string());
    }
    map
}

fn ended(success: bool) -> Outcome {
    Outcome::Ended { success, code: None, stdout: String::new(), stderr: String::new() }
}

#[test]
fn test_mode__parses_from_env_strings() {
    assert_eq!(AppleMode::parse("container"), AppleMode::ContainerCli);
    assert_eq!(AppleMode::parse("cli"), AppleMode::ContainerCli);
    assert_eq!(AppleMode::parse("xpc"), AppleMode::OrchdApple);
    assert_eq!(AppleMode::parse("daemon"), AppleMode::OrchdApple);
    assert_eq!(AppleMode::parse("osx"), AppleMode::OrchdOsx);
    assert_eq!(AppleMode::parse("vz"), AppleMode::OrchdOsx);
    assert_eq!(AppleMode::parse("OSX"), AppleMode::OrchdOsx);
    // Unknown falls back to the proven default.
    assert_eq!(AppleMode::parse("bogus"), AppleMode::OrchdApple);
}

#[test]
fn test_mode__binary_mapping() {
    assert_eq!(AppleMode::ContainerCli.binary(), None);
    assert_eq!(AppleMode::OrchdApple.binary(), Some(("orchd-apple", "ORCHD_APPLE_BIN")));
    assert_eq!(AppleMode::OrchdOsx.binary(), Some(("orchd-osx", "ORCHD_OSX_BIN")));
}

#[test]
fn test_cli_exec_set__generates_container_commands() {
    let rt = apple(AppleMode::ContainerCli, None);
    let mut svc = stub_container();
    svc.name = "postgres".to_string();
    svc.image = Some("postgres:15".to_string());
    svc.env.insert("FOO".to_string(), "bar".to_string());
    svc.publish = vec![PortMapping { address: None, host: 8080, container: 80 }];
    svc.resources.memory = Some("512M".to_string());
    svc.resources.cpus =
        Some(CpuCount { percent: 200, whole: Some(2), text: "2".to_string() });

    let exec = rt.exec_set(&svc).expect("cli exec_set");

    assert_eq!(exec.pre_start.as_deref(), Some("container image pull postgres:15"));
    assert!(exec.start.starts_with("container run --name orch-postgres --init"));
    assert!(exec.start.contains(" --env FOO=bar"));
    assert!(exec.start.contains(" --publish 8080:80"));
    assert!(exec.start.contains(" --memory 512M"));
    assert!(exec.start.contains(" --cpus 2"));
    assert!(exec.start.ends_with(" postgres:15"));
    assert_eq!(exec.stop.as_deref(), Some("container stop orch-postgres"));
    assert_eq!(exec.post_stop.as_deref(), Some("container delete --force orch-postgres"));
}

#[test]
fn test_host_mode__passthrough() {
    let rt = apple(AppleMode::ContainerCli, None);
    let mut svc = stub_host();
    svc.run_command = Some("/usr/bin/nginx".to_string());

    let exec = rt.exec_set(&svc).expect("host passthrough");
    assert_eq!(exec.start, "/usr/bin/nginx");
    assert!(exec.pre_start.is_none());
}

#[test]
fn test_exec_set__container_maps_to_nerdctl() {
    let rt = nerdctl::ContainerdRuntime {
        namespace: "orch".to_string(),
        data_dir: "/tmp/orchd-containerd-test".to_string(),
    };
    let mut svc = stub_container();
    svc.name = "web".to_string();
    svc.image = Some("nginx:alpine".to_string());
    svc.env.insert("FOO".to_string(), "bar".to_string());
    svc.publish = vec![PortMapping { address: None, host: 8080, container: 80 }];
    svc.resources.memory = Some("512M".to_string());

    let exec = rt.exec_set(&svc).expect("exec_set");
    assert_eq!(exec.pre_start.as_deref(), Some("nerdctl pull nginx:alpine"));
    assert!(exec.start.starts_with("nerdctl run --name orch-web --init"));
    assert!(exec.start.contains(" --env FOO=bar"));
    assert!(exec.start.contains(" --publish 8080:80"));
    assert!(exec.start.contains(" --memory 512M"));
    assert!(exec.start.ends_with(" nginx:alpine"));
    assert_eq!(exec.stop.as_deref(), Some("nerdctl stop orch-web"));
    assert_eq!(exec.post_stop.as_deref(), Some("nerdctl rm -f orch-web"));
}

#[test]
fn containerd_test_exec_set__host_passthrough() {
    let rt = nerdctl::ContainerdRuntime {
        namespace: "orch".to_string(),
        data_dir: "/tmp/orchd-containerd-test".to_string(),
    };
    let mut svc = stub_host();
    svc.run_command = Some("/usr/bin/redis-server".to_string());
    let exec = rt.exec_set(&svc).expect("host passthrough");
    assert_eq!(exec.start, "/usr/bin/redis-server");
    assert!(exec.pre_start.is_none());
}

fn containerd() -> ContainerdRuntime {
    ContainerdRuntime {
        namespace: "orch".to_string(),
        data_dir: "/tmp/orchd-containerd-test".to_string(),
        socket: "/run/containerd/containerd.sock".to_string(),
        exe: Some("/usr/bin/orchd".to_string()),
    }
}

fn decode(b64: &str) -> serde_json::Value {
    let json = base64::engine::general_purpose::STANDARD.decode(b64).unwrap();
    serde_json::from_slice(&json).unwrap()
}

fn strings(v: &serde_json::Value) -> Vec<&str> {
    v.as_array().unwrap().iter().map(|x| x.as_str().unwrap()).collect()
}

#[test]
fn test_exec_set__container_emits_containerd_run() {
    let rt = containerd();
    let mut svc = stub_container();
    svc.name = "web".to_string();
    svc.image = Some("nginx:alpine".to_string());
    svc.env.insert("FOO".to_string(), "bar".to_string());
    svc.cmd = Some("sleep 300".to_string());

    let exec = rt.exec_set(&svc).expect("exec_set");
    // start is `<orchd> containerd-run --spec <b64>`; no separate
    // pull/stop/post_stop (containerd-run owns the whole lifecycle).
    assert!(exec.start.contains(" containerd-run --spec "));
    assert!(exec.pre_start.is_none());
    assert!(exec.stop.is_none());
    assert!(exec.post_stop.is_none());

    let b64 = exec.start.rsplit(' ').next().unwrap();
    let spec = decode(b64);
    assert_eq!(spec["image"], "nginx:alpine");
    assert_eq!(spec["container_id"], "orch-web");
    assert_eq!(spec["namespace"], "orch");
    assert_eq!(strings(&spec["args"]), vec!["sleep", "300"]);
    assert_eq!(strings(&spec["env"]), vec!["FOO=bar"]);
}

#[test]
fn mod_test_exec_set__host_passthrough() {
    let rt = containerd();
    let mut svc = stub_host();
    svc.run_command = Some("/usr/bin/redis-server".to_string());
    let exec = rt.exec_set(&svc).expect("host passthrough");
    assert_eq!(exec.start, "/usr/bin/redis-server");
    assert!(exec.pre_start.is_none());
}

#[test]
fn the_whole_command_line_of_a_container() {
    let rt = apple(AppleMode::ContainerCli, None);
    let mut svc = stub_container();
    svc.name = "db".to_string();
    svc.image = Some("pg:15".to_string());
    svc.env.insert("Z".to_string(), "26".to_string());
    svc.env.insert("A".to_string(), "1".to_string());
    svc.env_files = vec![".env".to_string()];
    svc.volumes = vec![VolumeMount {
        source: "/data".to_string(),
        destination: "/var/lib".to_string(),
        is_named: false,
    }];
    svc.publish = vec![
        PortMapping { address: Some("127.0.0.1".to_string()), host: 5433, container: 5432 },
        PortMapping { address: None, host: 1, container: 2 },
    ];
    svc.resources.memory = Some("1G".to_string());
    svc.resources.cpus = Some(CpuCount { percent: 150, whole: None, text: "1.5".to_string() });
    svc.user = Some("999".to_string());
    svc.workdir = Some("/w".to_string());
    svc.entrypoint = Some("/entry".to_string());
    svc.cmd = Some("serve now".to_string());
    assert_eq!(
        rt.exec_set(&svc).unwrap().start,
        "container run --name orch-db --init --env A=1 --env Z=26 --env-file .env \
         --volume /data:/var/lib --publish 127.0.0.1:5433:5432 --publish 1:2 --memory 1G \
         --cpus 1.5 --user 999 --workdir /w --entrypoint /entry pg:15 serve now"
    );
}

#[test]
fn a_container_needs_an_image() {
    let mut svc = stub_container();
    svc.image = None;
    let text = "service 'x' is container-mode but has no FROM image";
    assert_eq!(apple(AppleMode::ContainerCli, None).exec_set(&svc).unwrap_err().message(), text);
    assert_eq!(containerd().exec_set(&svc).unwrap_err().message(), text);
    let rt = nerdctl::ContainerdRuntime::new(&test_config());
    assert_eq!(rt.exec_set(&svc).unwrap_err().message(), text);
    assert_eq!(apple(AppleMode::ContainerCli, None).prepare(&svc).unwrap_err().message(), text);
}

#[test]
fn apple_modes_are_warned_of_and_resolved() {
    assert_eq!(unknown_mode("osx"), None);
    assert_eq!(unknown_mode(""), None);
    assert_eq!(
        unknown_mode(" Bogus ").unwrap(),
        "warning: unknown ORCHD_APPLE_MODE 'bogus', using 'xpc' (orchd-apple)"
    );
    let config = test_config();
    let rt = AppleRuntime::new(&config, &vars(&[]), &None);
    assert_eq!(rt.mode, AppleMode::OrchdApple);
    assert_eq!(rt.bin.as_deref(), Some("orchd-apple"));
    let rt = AppleRuntime::new(
        &config,
        &vars(&[("ORCHD_APPLE_MODE", "vz"), ("ORCHD_APPLE_BIN", "/no")]),
        &Some("/next/to/orchd-osx".to_string()),
    );
    assert_eq!(rt.mode, AppleMode::OrchdOsx);
    assert_eq!(rt.bin.as_deref(), Some("/next/to/orchd-osx"));
    let rt = AppleRuntime::new(
        &config,
        &vars(&[("ORCHD_APPLE_MODE", "osx"), ("ORCHD_OSX_BIN", "/my/osx")]),
        &Some("/next".to_string()),
    );
    assert_eq!(rt.bin.as_deref(), Some("/my/osx"));
    let rt = AppleRuntime::new(&config, &vars(&[("ORCHD_APPLE_MODE", "cli")]), &None);
    assert_eq!(rt.bin, None);
    assert_eq!(rt.namespace, "orch");
    assert_eq!(rt.data_dir, "/test/.orch/data");
}

#[test]
fn co_processes_are_called_and_judged() {
    let rt = apple(AppleMode::OrchdApple, Some("/bin/orchd-apple"));
    let call = rt.call("exec-set");
    assert_eq!(call.program, "/bin/orchd-apple");
    assert_eq!(call.args, vec!["exec-set", "orch"]);
    let text = |r: Reply| rt.judge_call("check", &r).unwrap_err().message();
    assert_eq!(
        text(Reply::NotSpawned("e".to_string())),
        "binary not found: could not spawn '/bin/orchd-apple': e"
    );
    assert_eq!(
        text(Reply::NotWritten("e".to_string())),
        "failed to write to co-process stdin: e"
    );
    assert_eq!(text(Reply::NotAwaited("e".to_string())), "co-process wait failed: e");
    assert_eq!(
        text(Reply::Failed { code: Some(3), stderr: " bad ".to_string() }),
        "/bin/orchd-apple check failed (exit 3): bad"
    );
    assert_eq!(
        text(Reply::NotText("e".to_string())),
        "co-process stdout is invalid UTF-8: e"
    );
    assert_eq!(rt.judge_call("check", &Reply::Answer("ok".to_string())).unwrap(), "ok");
    assert_eq!(
        bad_answer("e", "raw").message(),
        "failed to deserialize ExecSet from co-process: e\nraw: raw"
    );
}

#[test]
fn apple_checks_and_preparations() {
    let rt = apple(AppleMode::ContainerCli, None);
    assert!(rt.cli_check(&ended(true)).is_ok());
    assert_eq!(
        rt.cli_check(&ended(false)).unwrap_err().message(),
        "container CLI/daemon not reachable (run: container system start)"
    );
    let gone = Outcome::NotRun("e".to_string());
    assert_eq!(
        rt.cli_check(&gone).unwrap_err().message(),
        "binary not found: could not spawn 'container': e"
    );
    assert!(rt.cli_prepare("pg", &ended(true)).is_ok());
    assert_eq!(
        rt.cli_prepare("pg", &ended(false)).unwrap_err().message(),
        "container image pull pg failed"
    );
    match rt.prepare(&stub_host()).unwrap() {
        Preparation::Directory { path } => assert_eq!(path, "/tmp/orchd-apple-test-data/x"),
        other => panic!("expected Directory, got {:?}", other),
    }
    match rt.prepare(&stub_container()).unwrap() {
        Preparation::Pull { image } => assert_eq!(image, "x"),
        other => panic!("expected Pull, got {:?}", other),
    }
    let osx = apple(AppleMode::OrchdOsx, Some("b"));
    assert!(matches!(osx.prepare(&stub_container()).unwrap(), Preparation::Ask));
    assert!(osx.asks(&stub_container()));
    assert!(!osx.asks(&stub_host()));
    assert_eq!(
        data_dir_failed("/d/x", "full").message(),
        "failed to create data directory '/d/x': full"
    );
}

#[test]
fn nerdctl_checks_and_preparations() {
    let rt = nerdctl::ContainerdRuntime::new(&test_config());
    assert_eq!(rt.name(), "containerd");
    assert!(rt.check(&ended(true)).is_ok());
    assert_eq!(
        rt.check(&ended(false)).unwrap_err().message(),
        "containerd not reachable via nerdctl (is containerd running?)"
    );
    assert_eq!(
        rt.check(&Outcome::NotRun("e".to_string())).unwrap_err().message(),
        "binary not found: could not spawn 'nerdctl': e"
    );
    assert!(matches!(rt.prepare(&stub_container()), Preparation::Nothing));
    assert!(matches!(rt.prepare(&stub_host()), Preparation::Directory { .. }));
}

fn runtime_host(list: &[(&str, &str)]) -> RuntimeHost {
    RuntimeHost { vars: vars(list), exe: None, sibling: None }
}

#[test]
fn runtimes_are_created_by_name() {
    let config = test_config();
    let rt = create_runtime("bare", &config, &runtime_host(&[])).unwrap();
    assert_eq!(rt.name(), "bare");
    let rt = create_runtime("apple", &config, &runtime_host(&[])).unwrap();
    assert_eq!(rt.name(), "apple");
    assert!(rt.must_ask(&stub_container()));
    let rt = create_runtime("containerd", &config, &runtime_host(&[])).unwrap();
    assert_eq!(rt.name(), "containerd");
    match &rt {
        AnyRuntime::Containerd(c) => assert_eq!(c.socket, "/run/containerd/containerd.sock"),
        other => panic!("expected Containerd, got {:?}", other),
    }
    assert!(rt.exec_set(&stub_container()).unwrap().start.starts_with("orchd containerd-run"));
    assert!(matches!(rt.prepare(&stub_container()).unwrap(), Preparation::Nothing));
    let err = create_runtime("podman", &config, &runtime_host(&[])).unwrap_err();
    assert_eq!(
        err.message(),
        "unknown runtime 'podman'. Available: bare, apple, containerd"
    );
    assert!(matches!(err, RuntimeError::Other(_)));
}

#[test]
fn containerd_socket_can_be_moved_and_is_checked() {
    let list = vars(&[("ORCHD_CONTAINERD_SOCKET", "/tmp/c.sock")]);
    let rt = ContainerdRuntime::new(&test_config(), &list, &None);
    assert_eq!(rt.socket, "/tmp/c.sock");
    assert!(rt.check(true).is_ok());
    assert_eq!(
        rt.check(false).unwrap_err().message(),
        "containerd socket '/tmp/c.sock' not found (is containerd running?)"
    );
}

fn run_spec() -> ContainerdRunSpec {
    ContainerdRunSpec {
        socket: "/s".to_string(),
        namespace: "orch".to_string(),
        image: "nginx".to_string(),
        container_id: "orch-web".to_string(),
        args: vec![],
        env: vec!["B=2".to_string()],
        cwd: String::new(),
        user: None,
    }
}

#[test]
fn a_run_spec_survives_the_command_line() {
    let mut spec = run_spec();
    spec.args = vec!["say \"hi\"".to_string(), "tab\tnew\nline\\ \u{1} é".to_string()];
    spec.user = Some("1000:1000".to_string());
    let word = encode_spec(&spec);
    assert!(word.chars().all(|c| c.is_ascii_alphanumeric() || "+/=".contains(c)));
    let bytes = decode_spec(&format!(" {word}\n")).unwrap();
    let v: serde_json::Value = serde_json::from_slice(&bytes).unwrap();
    assert_eq!(
        String::from_utf8(bytes).unwrap(),
        "{\"socket\":\"/s\",\"namespace\":\"orch\",\"image\":\"nginx\",\
         \"container_id\":\"orch-web\",\"args\":[\"say \\\"hi\\\"\",\
         \"tab\\tnew\\nline\\\\ \\u0001 é\"],\"env\":[\"B=2\"],\"cwd\":\"\",\
         \"user\":\"1000:1000\"}"
    );
    assert_eq!(strings(&v["args"]), spec.args.iter().map(|s| s.as_str()).collect::<Vec<_>>());
    assert_eq!(v["user"], "1000:1000");
    let none = decode_spec(&encode_spec(&run_spec())).unwrap();
    let v: serde_json::Value = serde_json::from_slice(&none).unwrap();
    assert!(v["user"].is_null());
    assert_eq!(decode_spec("!").unwrap_err(), "base64: Invalid symbol 33, offset 0.");
}

#[test]
fn words_are_base64_with_padding() {
    let mut spec = run_spec();
    spec.env = vec![];
    spec.image = "n".to_string();
    assert_eq!(
        encode_spec(&spec),
        "eyJzb2NrZXQiOiIvcyIsIm5hbWVzcGFjZSI6Im9yY2giLCJpbWFnZSI6Im4iLCJjb250YWluZXJfaWQiOiJvcmNo\
         LXdlYiIsImFyZ3MiOltdLCJlbnYiOltdLCJjd2QiOiIiLCJ1c2VyIjpudWxsfQ=="
    );
    let word = encode_spec(&spec);
    let plain = decode_spec(&word).unwrap();
    for (before, after) in [("", "\n"), (" \t", ""), ("\r\n", " \u{b}\u{c}\n")] {
        assert_eq!(decode_spec(&format!("{before}{word}{after}")).unwrap(), plain);
    }
    assert!(decode_spec(&format!("{} {}", &word[..4], &word[4..])).is_err());
}

#[test]
fn different_run_specs_are_different_words() {
    let mut words = vec![encode_spec(&run_spec())];
    let changes: [fn(&mut ContainerdRunSpec); 8] = [
        |s| s.socket = "/t".to_string(),
        |s| s.namespace = "x".to_string(),
        |s| s.image = "nginx\"".to_string(),
        |s| s.container_id = "orch-web\\".to_string(),
        |s| s.args = vec!["B=2".to_string()],
        |s| s.env = vec!["B".to_string(), "=2".to_string()],
        |s| s.cwd = "null".to_string(),
        |s| s.user = Some("null".to_string()),
    ];
    for change in changes {
        let mut spec = run_spec();
        change(&mut spec);
        let word = encode_spec(&spec);
        assert!(!words.contains(&word));
        words.push(word);
    }
}

#[test]
fn run_specs_list_the_environment_in_text_order() {
    let mut svc = stub_container();
    svc.env.insert("A".to_string(), "1".to_string());
    svc.env.insert("A-B".to_string(), "2".to_string());
    svc.entrypoint = Some(" /bin/sh  -c ".to_string());
    svc.cmd = Some("x".to_string());
    svc.workdir = Some("/w".to_string());
    svc.user = Some("5".to_string());
    let spec = containerd().run_spec(&svc, "img");
    assert_eq!(spec.env, vec!["A-B=2", "A=1"]);
    assert_eq!(spec.args, vec!["/bin/sh", "-c", "x"]);
    assert_eq!(spec.cwd, "/w");
    assert_eq!(spec.user.as_deref(), Some("5"));
    assert_eq!(spec.container_id, "orch-x");
    assert_eq!(spec.socket, "/run/containerd/containerd.sock");
}

#[test]
fn users_are_numbers() {
    assert_eq!(parse_user(None), (0, 0));
    assert_eq!(parse_user(Some("  ")), (0, 0));
    assert_eq!(parse_user(Some("1000")), (1000, 1000));
    assert_eq!(parse_user(Some(" 1000:50 ")), (1000, 50));
    assert_eq!(parse_user(Some("1000:wheel")), (1000, 1000));
    assert_eq!(parse_user(Some("root:7")), (0, 7));
    assert_eq!(parse_user(Some("a:b:c")), (0, 0));
}

fn image_config() -> ImageConfig {
    ImageConfig {
        entrypoint: vec!["/entry".to_string()],
        cmd: vec!["serve".to_string()],
        env: vec!["A=1".to_string()],
        working_dir: "/app".to_string(),
        user: "33".to_string(),
    }
}

#[test]
fn a_spec_is_layered_over_the_image() {
    let p = layer(&run_spec(), &image_config()).unwrap();
    assert_eq!(p.argv, vec!["/entry", "serve"]);
    assert_eq!(p.env, vec!["A=1", "B=2"]);
    assert_eq!(p.cwd, "/app");
    assert_eq!((p.uid, p.gid), (33, 33));

    let mut spec = run_spec();
    spec.args = vec!["sh".to_string()];
    spec.cwd = "/w".to_string();
    spec.user = Some(String::new());
    let p = layer(&spec, &image_config()).unwrap();
    assert_eq!(p.argv, vec!["sh"]);
    assert_eq!(p.cwd, "/w");
    assert_eq!((p.uid, p.gid), (0, 0));

    let mut empty = image_config();
    empty.entrypoint = vec![];
    empty.cmd = vec![];
    empty.working_dir = String::new();
    empty.user = String::new();
    assert_eq!(
        layer(&run_spec(), &empty).unwrap_err(),
        "no argv: image has no entrypoint/cmd and none was provided"
    );
    let p = layer(&spec, &empty).unwrap();
    assert_eq!(p.cwd, "/w");
}

#[test]
fn the_runtime_spec_is_what_runc_reads() {
    let process = Process {
        argv: vec!["sh".to_string(), "-c".to_string()],
        env: vec!["Q=\"".to_string()],
        cwd: String::new(),
        uid: 5,
        gid: 6,
    };
    let text = oci_spec_json("orch-web", &process);
    let v: serde_json::Value = serde_json::from_str(&text).unwrap();
    assert_eq!(v.to_string(), text);
    assert_eq!(v["ociVersion"], "1.1.0");
    assert_eq!(v["hostname"], "orch-web");
    assert_eq!(strings(&v["process"]["args"]), vec!["sh", "-c"]);
    assert_eq!(strings(&v["process"]["env"]), vec!["Q=\""]);
    assert_eq!(v["process"]["cwd"], "/");
    assert_eq!(v["process"]["user"]["uid"], 5);
    assert_eq!(v["process"]["user"]["gid"], 6);
    assert_eq!(v["process"]["terminal"], false);
    assert_eq!(v["process"]["noNewPrivileges"], true);
    assert_eq!(v["process"]["capabilities"]["effective"].as_array().unwrap().len(), 6);
    assert_eq!(v["process"]["rlimits"][0]["hard"], 1024);
    assert_eq!(v["root"]["path"], "rootfs");
    assert_eq!(v["root"]["readonly"], false);
    assert_eq!(v["mounts"].as_array().unwrap().len(), 7);
    assert_eq!(v["mounts"][1]["options"][3], "size=65536k");
    let kinds: Vec<&str> = v["linux"]["namespaces"]
        .as_array()
        .unwrap()
        .iter()
        .map(|n| n["type"].as_str().unwrap())
        .collect();
    assert_eq!(kinds, vec!["pid", "ipc", "uts", "mount"]);
    assert_eq!(v["linux"]["maskedPaths"].as_array().unwrap().len(), 6);
    assert_eq!(v["linux"]["readonlyPaths"].as_array().unwrap().len(), 6);

    let record = container_record(&run_spec(), &process);
    assert_eq!(record.id, "orch-web");
    assert_eq!(record.snapshot_key, "orch-web");
    assert_eq!(record.snapshotter, "overlayfs");
    assert_eq!(record.runtime, "io.containerd.runc.v2");
    assert_eq!(record.options, vec![8, 1]);
    assert_eq!(record.spec, text);
}

#[test]
fn layers_are_chained_by_digest() {
    let one = vec!["sha256:a".to_string()];
    assert_eq!(chain_id(&one), "sha256:a");
    let two = vec!["sha256:a".to_string(), "sha256:b".to_string()];
    let chain = chain_id(&two);
    assert_eq!(chain.len(), 7 + 64);
    assert!(chain.starts_with("sha256:"));
    let ab = vec!["a".to_string(), "b".to_string()];
    assert_eq!(
        chain_id(&ab),
        "sha256:c8687a08aa5d6ed2044328fa6a697ab8e96dc34291e8c2034ae8c38e6fcc6d65"
    );
    let abc = vec!["a".to_string(), "b".to_string(), "c".to_string()];
    assert_eq!(
        chain_id(&abc),
        "sha256:fd4283a6ddaa46181b8c3bd3f2497dd8f801e80b395b78bd6331197ba8db877d"
    );
}

fn entry(os: &str, arch: &str, digest: Option<&str>) -> ManifestEntry {
    ManifestEntry {
        os: Some(os.to_string()),
        architecture: Some(arch.to_string()),
        digest: digest.map(|d| d.to_string()),
    }
}

#[test]
fn a_manifest_is_chosen_by_platform() {
    assert_eq!(goarch("x86_64"), "amd64");
    assert_eq!(goarch("aarch64"), "arm64");
    assert_eq!(goarch("riscv64"), "riscv64");
    let all = vec![
        entry("windows", "arm64", Some("w")),
        entry("linux", "amd64", Some("x")),
        entry("linux", "arm64", Some("a")),
        entry("linux", "arm64", Some("b")),
    ];
    assert_eq!(choose_manifest(&all, "arm64").unwrap(), "a");
    assert_eq!(choose_manifest(&all, "s390x").unwrap(), "w");
    assert_eq!(choose_manifest(&vec![], "arm64").unwrap_err(), "no manifest in index");
    let bare = vec![entry("linux", "arm64", None)];
    assert_eq!(choose_manifest(&bare, "arm64").unwrap_err(), "manifest entry missing digest");
}

fn bytes(s: &str) -> Vec<u8> {
    s.as_bytes().to_vec()
}

#[test]
fn manifests_and_configs_are_found_in_blobs() {
    let index = bytes(
        r#"{"manifests":[{"digest":"d0","platform":{"os":"linux","architecture":"amd64"}},
            {"digest":"d1","platform":{"os":"linux","architecture":"arm64"}}]}"#,
    );
    assert_eq!(find_manifest(&index, "arm64").unwrap().as_deref(), Some("d1"));
    assert_eq!(find_manifest(&index, "none").unwrap().as_deref(), Some("d0"));
    let plain = bytes(r#"{"config":{"digest":"c0"}}"#);
    assert_eq!(find_manifest(&plain, "arm64").unwrap(), None);
    assert_eq!(find_config(&plain).unwrap(), "c0");
    assert_eq!(parse_and_find_config(&plain).unwrap(), "c0");
    let odd = bytes(r#"{"manifests":{"0":{"digest":"x"}}}"#);
    assert_eq!(find_manifest(&odd, "arm64").unwrap_err(), "no manifest in index");
    assert_eq!(find_config(&odd).unwrap_err(), "manifest missing config.digest");
    let bad = bytes("{");
    assert!(find_manifest(&bad, "a").unwrap_err().starts_with("parse manifest/index json: EOF"));
    assert!(parse_and_find_config(&bad).unwrap_err().starts_with("parse manifest json: EOF"));
}

#[test]
fn image_configs_are_read() {
    let blob = bytes(
        r#"{"rootfs":{"diff_ids":["sha256:a",7,"sha256:b"]},
            "config":{"Entrypoint":["/e"],"Cmd":null,"Env":["A=1","B=2"],"WorkingDir":"/w"}}"#,
    );
    let (ids, config) = read_image(&blob).unwrap();
    assert_eq!(ids, vec!["sha256:a", "sha256:b"]);
    assert_eq!(config.entrypoint, vec!["/e"]);
    assert!(config.cmd.is_empty());
    assert_eq!(config.env, vec!["A=1", "B=2"]);
    assert_eq!(config.working_dir, "/w");
    assert_eq!(config.user, "");
    let e = |s: &str| read_image(&bytes(s)).unwrap_err();
    assert_eq!(e("{}"), "config missing rootfs.diff_ids");
    assert_eq!(e(r#"{"rootfs":{"diff_ids":[1]}}"#), "empty diff_ids");
    assert!(e("nope").starts_with("parse image config json: "));
}

#[test]
fn a_run_goes_from_connecting_to_cleaning_up() {
    let spec = run_spec();
    let go = |p: RunPhase, e: RunEvent| step(&spec, "arm64", p, e);
    let p = go(begin(), RunEvent::Done);
    assert!(matches!(p, RunPhase::Clear));
    let p = go(p, RunEvent::Error("not found".to_string()));
    assert!(matches!(p, RunPhase::Pull));
    let p = go(p, RunEvent::Done);
    let p = go(p, RunEvent::Target(Some("t".to_string())));
    let index = bytes(
        r#"{"manifests":[{"digest":"m","platform":{"os":"linux","architecture":"arm64"}}]}"#,
    );
    let p = go(p, RunEvent::Content(index));
    assert!(matches!(&p, RunPhase::ReadManifest { digest } if digest == "m"));
    let p = go(p, RunEvent::Content(bytes(r#"{"config":{"digest":"c"}}"#)));
    assert!(matches!(&p, RunPhase::ReadConfig { digest } if digest == "c"));
    let config = r#"{"rootfs":{"diff_ids":["l"]},"config":{"Cmd":["sh"]}}"#;
    let p = go(p, RunEvent::Content(bytes(config)));
    assert!(matches!(&p, RunPhase::Prepare { parent, .. } if parent == "l"));
    let p = go(p, RunEvent::Done);
    assert!(matches!(&p, RunPhase::Create { process } if process.argv == vec!["sh"]));
    let p = go(p, RunEvent::Done);
    let p = go(p, RunEvent::Done);
    assert!(matches!(p, RunPhase::StartTask));
    assert_eq!(
        report(&spec, &p, &RunEvent::Done).unwrap(),
        "containerd-run: started orch-web (nginx)"
    );
    let p = go(p, RunEvent::Done);
    let p = go(p, RunEvent::Done);
    let p = go(p, RunEvent::Done);
    assert!(matches!(p, RunPhase::Wait));
    assert_eq!(outcome(&p), None);
    assert_eq!(
        report(&spec, &p, &RunEvent::Terminated).unwrap(),
        "containerd-run: SIGTERM, stopping orch-web"
    );
    let p = go(p, RunEvent::Exited(3));
    let p = go(p, RunEvent::Done);
    assert_eq!(outcome(&p), Some(3));
}

#[test]
fn a_wait_ends_in_teardown_whatever_happens() {
    let spec = run_spec();
    let code = |e: RunEvent| match step(&spec, "arm64", RunPhase::Wait, e) {
        RunPhase::Teardown { code } => code,
        other => panic!("expected Teardown, got {:?}", other),
    };
    assert_eq!(code(RunEvent::Terminated), 143);
    assert_eq!(code(RunEvent::Interrupted), 130);
    assert_eq!(code(RunEvent::Error("gone".to_string())), 1);
    assert_eq!(code(RunEvent::Exited(0)), 0);
    assert_eq!(code(RunEvent::Exited(u32::MAX)), -1);
}

#[test]
fn a_run_that_cannot_go_on_says_why() {
    let spec = run_spec();
    let why = |p: RunPhase, e: RunEvent| match step(&spec, "arm64", p, e) {
        RunPhase::Failed { message } => message,
        other => panic!("expected Failed, got {:?}", other),
    };
    let e = || RunEvent::Error("e".to_string());
    assert_eq!(why(RunPhase::Connect, e()), "connect to containerd at /s: e");
    assert_eq!(why(RunPhase::Pull, e()), "transfer (pull) image: e");
    assert_eq!(why(RunPhase::GetImage, e()), "images.get: e");
    assert_eq!(why(RunPhase::GetImage, RunEvent::Target(None)), "image has no target descriptor");
    let d = || RunPhase::ReadConfig { digest: "d".to_string() };
    assert_eq!(why(d(), e()), "content.read d: e");
    assert_eq!(why(d(), RunEvent::ChunkError("e".to_string())), "read content chunk: e");
    assert_eq!(why(RunPhase::CreateTask, e()), "tasks.create: e");
    assert_eq!(why(RunPhase::StartTask, e()), "tasks.start: e");
    assert_eq!(why(RunPhase::HandleTerm, e()), "install SIGTERM handler: e");
    assert_eq!(why(RunPhase::HandleInt, e()), "install SIGINT handler: e");
    let failed = RunPhase::Failed { message: "m".to_string() };
    assert_eq!(outcome(&failed), Some(1));
}

#[test]
fn what_a_blob_says_decides_where_the_manifest_is() {
    let text = |s: &str| Some(s.to_string());
    let entries = Some(vec![entry("linux", "arm64", Some("d1"))]);
    assert_eq!(place_manifest(None, &entries, "arm64"), Ok(text("d1")));
    assert_eq!(place_manifest(None, &None, "arm64"), Ok(None));
    assert_eq!(
        place_manifest(None, &Some(vec![]), "arm64"),
        Err("no manifest in index".to_string())
    );
    assert_eq!(
        place_manifest(text("x"), &entries, "arm64"),
        Err("parse manifest/index json: x".to_string())
    );
    assert_eq!(name_config(text("c")), Ok("c".to_string()));
    assert_eq!(name_config(None), Err("manifest missing config.digest".to_string()));
    assert_eq!(name_parsed_config(None, text("c")), Ok("c".to_string()));
    assert_eq!(
        name_parsed_config(text("x"), text("c")),
        Err("parse manifest json: x".to_string())
    );
}

#[test]
fn what_a_config_says_decides_the_layers() {
    let ids = || Some(vec!["a".to_string()]);
    assert_eq!(list_layers(None, ids()), Ok(vec!["a".to_string()]));
    assert_eq!(list_layers(None, Some(vec![])), Err("empty diff_ids".to_string()));
    assert_eq!(list_layers(None, None), Err("config missing rootfs.diff_ids".to_string()));
    assert_eq!(
        list_layers(Some("x".to_string()), ids()),
        Err("parse image config json: x".to_string())
    );
    assert_eq!(write_link("sha256:a", "sha256:b"), "sha256:a sha256:b");
}

#[test]
fn what_was_read_decides_the_next_phase() {
    let config = || Ok("c".to_string());
    match enter_manifest(Ok(Some("m".to_string())), config()) {
        RunPhase::ReadManifest { digest } => assert_eq!(digest, "m"),
        other => panic!("expected ReadManifest, got {:?}", other),
    }
    match enter_manifest(Ok(None), config()) {
        RunPhase::ReadConfig { digest } => assert_eq!(digest, "c"),
        other => panic!("expected ReadConfig, got {:?}", other),
    }
    match enter_manifest(Err("bad".to_string()), config()) {
        RunPhase::Failed { message } => assert_eq!(message, "bad"),
        other => panic!("expected Failed, got {:?}", other),
    }
    match enter_config(Err("bad".to_string())) {
        RunPhase::Failed { message } => assert_eq!(message, "bad"),
        other => panic!("expected Failed, got {:?}", other),
    }
    match enter_snapshot(Ok((vec!["sha256:a".to_string()], image_config()))) {
        RunPhase::Prepare { parent, config } => {
            assert_eq!(parent, "sha256:a");
            assert_eq!(config.entrypoint, image_config().entrypoint);
        }
        other => panic!("expected Prepare, got {:?}", other),
    }
    assert!(matches!(enter_snapshot(Err("bad".to_string())), RunPhase::Failed { .. }));
    assert_eq!(read_word(Ok(vec![1])), Ok(vec![1]));
    assert_eq!(read_word(Err("x".to_string())), Err("base64: x".to_string()));
}

#[test]
fn specs_quote_every_control_character() {
    let mut spec = run_spec();
    spec.cwd = "\u{8}\u{c}\n\r\t\u{1}\u{1f}\u{7f}\"\\/\u{e9}".to_string();
    let json = write_spec(&spec);
    assert!(json.contains(
        ",\"cwd\":\"\\b\\f\\n\\r\\t\\u0001\\u001f\u{7f}\\\"\\\\/\u{e9}\","
    ));
    let value: serde_json::Value = serde_json::from_str(&json).unwrap();
    assert_eq!(value["cwd"], spec.cwd.as_str());
}
