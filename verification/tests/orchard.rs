#![allow(non_snake_case)]

use orchd::collections::StringMap;
use orchd::config::{Config, Scope};
use orchd::engine::{gather, gather_on, Gathering};
use orchd::exec::ExecSet;
use orchd::orchard::{
    can_plant, plant, render_launchd, render_systemd, skip_line, sow, sow_on, specs_to_plant, tend,
    OrchardError, Sown, TendStep, Tree,
};
use orchd::platform::launchd::supervise_specs;
use orchd::platform::{generate_files, Host, PlatformKind};
use orchd::runtime::bare::BareRuntime;
use orchd::runtime::{AnyRuntime, RuntimeError};
use orchd::types::{
    LogConfig, OrchFile, RecreatePolicy, ResourceLimits, RestartConfig, Service, ServiceMode,
    TimeoutConfig,
};

fn test_config(platform: &str) -> Config {
    Config {
        orchfile: "/t/Orchfile".to_string(),
        overlays: vec![],
        runtime: "bare".to_string(),
        platform: platform.to_string(),
        scope: Scope::User,
        state_dir: "/t/.orch".to_string(),
        project_dir: "/t".to_string(),
        data_dir: "/t/.orch/data".to_string(),
        orch_bin: "orch".to_string(),
        namespace: "orch".to_string(),
        args: vec![],
        verbose: false,
        quiet: true,
    }
}

fn host() -> Host {
    Host {
        home: Some("/Users/test".to_string()),
        exe: Some("/usr/local/bin/orchd".to_string()),
        files: StringMap::new(),
    }
}

fn host_service(name: &str, run_cmd: &str) -> Service {
    Service {
        name: name.to_string(),
        mode: ServiceMode::Host,
        image: None,
        run_command: Some(run_cmd.to_string()),
        entrypoint: None,
        cmd: None,
        publish: Vec::new(),
        volumes: Vec::new(),
        user: None,
        stop_command: None,
        reload_command: None,
        workdir: None,
        env: StringMap::new(),
        env_files: Vec::new(),
        requires: Vec::new(),
        after: Vec::new(),
        healthcheck: None,
        readiness_timeout: None,
        oneshot: false,
        disabled: false,
        recreate: RecreatePolicy::default(),
        restart: RestartConfig::default(),
        timeouts: TimeoutConfig::default(),
        resources: ResourceLimits::default(),
        logging: LogConfig::default(),
    }
}

fn exec(start: &str) -> ExecSet {
    ExecSet { start: start.to_string(), pre_start: None, stop: None, post_stop: None }
}

#[test]
fn test_render_systemd__units_and_target() {
    let cfg = test_config("systemd");
    let svcs = vec![host_service("web", "/usr/bin/web")];
    let es = vec![(0usize, exec("/usr/bin/web"))];
    let arts = render_systemd(&svcs, &es, &cfg);

    let kinds: Vec<&str> = arts.iter().map(|a| a.kind.as_str()).collect();
    assert!(kinds.contains(&"unit"));
    assert!(kinds.contains(&"target"));
    let unit = arts.iter().find(|a| a.kind == "unit").unwrap();
    assert_eq!(unit.label, "orch-web.service");
    assert!(unit.content.contains("ExecStart=/bin/bash -c '/usr/bin/web'"));
}

#[test]
fn test_render_launchd__container_emits_plist_and_spec() {
    let cfg = test_config("launchd");
    let svcs = vec![host_service("cache", "container run --name orch-cache redis")];
    let es = vec![(
        0usize,
        ExecSet {
            start: "container run --name orch-cache redis".to_string(),
            pre_start: Some("container image pull redis".to_string()),
            stop: Some("container stop orch-cache".to_string()),
            post_stop: Some("container delete --force orch-cache".to_string()),
        },
    )];
    let specs = supervise_specs(&svcs, &es, &cfg);
    assert_eq!(specs.len(), 1);
    let arts = render_launchd(&svcs, &es, &cfg, &host(), &vec!["{}".to_string()]);

    let kinds: Vec<&str> = arts.iter().map(|a| a.kind.as_str()).collect();
    assert!(kinds.contains(&"plist"));
    assert!(kinds.contains(&"supervise-spec")); // teardown -> needs supervisor
    let plist = arts.iter().find(|a| a.kind == "plist").unwrap();
    assert!(plist.content.contains("<string>supervise</string>"));
}

#[test]
fn ready_gates_follow_units_and_precede_the_target() {
    let cfg = test_config("systemd");
    let mut db = host_service("db", "pg");
    db.healthcheck = Some("pg_isready".to_string());
    let mut web = host_service("web", "w");
    web.requires = vec!["db".to_string()];
    let svcs = vec![db, web];
    let es = vec![(0usize, exec("pg")), (1usize, exec("w"))];
    let arts = render_systemd(&svcs, &es, &cfg);
    let labels: Vec<&str> = arts.iter().map(|a| a.label.as_str()).collect();
    assert_eq!(
        labels,
        vec!["orch-db.service", "orch-web.service", "orch-db-ready.service", "orch.target"]
    );
    assert!(arts[1].content.contains("After=orch-db-ready.service\nBindsTo=orch-db.service\n"));
    assert_eq!(arts[2].path, "/t/.orch/units/orch-db-ready.service");
}

#[test]
fn texts_of_specs_go_to_their_services() {
    let cfg = test_config("launchd");
    let svcs = vec![host_service("a", "a"), host_service("b", "b"), host_service("c", "c")];
    let stopping = |s: &str| {
        let mut e = exec(s);
        e.stop = Some("halt".to_string());
        e
    };
    let es = vec![(0usize, stopping("a")), (1usize, exec("b")), (2usize, stopping("c"))];
    let texts = vec!["A".to_string(), "C".to_string()];
    let arts = render_launchd(&svcs, &es, &cfg, &host(), &texts);
    let seen: Vec<(&str, &str)> =
        arts.iter().map(|a| (a.kind.as_str(), a.label.as_str())).collect();
    assert_eq!(
        seen,
        vec![
            ("supervise-spec", "orch.a"),
            ("plist", "orch.a"),
            ("plist", "orch.b"),
            ("supervise-spec", "orch.c"),
            ("plist", "orch.c"),
        ]
    );
    assert_eq!(arts[0].content, "A");
    assert_eq!(arts[3].content, "C");
    assert_eq!(arts[3].path, "/t/.orch/supervise/orch.c.json");
}

#[test]
fn sowing_keeps_enabled_services_that_can_run() {
    let mut off = host_service("off", "x");
    off.disabled = true;
    let mut broken = host_service("broken", "x");
    broken.run_command = None;
    let spec = OrchFile {
        version: "0.2.1".to_string(),
        args: StringMap::new(),
        services: vec![host_service("a", "run a"), off, broken, host_service("b", "run b")],
    };
    let rt = AnyRuntime::Bare(BareRuntime::new("/d".to_string()));
    let g = sow_on(&spec.services, &rt, gather(&spec.services));
    assert_eq!(g.next, 4);
    assert_eq!(g.skipped, 1);
    assert_eq!(
        skip_line(&g.errors[0]),
        "sow: skip broken: service 'broken' is host-mode but has no RUN command"
    );
    let sown = sow(&spec, &test_config("systemd"), &g);
    assert_eq!(sown.version, "0.2.1");
    assert_eq!(sown.runtime, "bare");
    let names: Vec<&str> = sown.trees.iter().map(|t| t.service.name.as_str()).collect();
    assert_eq!(names, vec!["a", "b"]);
    assert_eq!(sown.trees[1].exec_set.start, "run b");
}

fn sown_one() -> Sown {
    Sown {
        version: "0.2.1".to_string(),
        runtime: "bare".to_string(),
        trees: vec![Tree { service: host_service("a", "x"), exec_set: exec("x") }],
    }
}

#[test]
fn planting_renders_for_the_platform() {
    let sown = sown_one();
    let cfg = test_config("systemd");
    assert!(can_plant(&sown, &cfg));
    assert!(specs_to_plant(&sown, &cfg).is_empty());
    let arts = plant(&sown, &cfg, &host(), &vec![]);
    assert_eq!(arts.platform, "systemd");
    assert_eq!(arts.namespace, "orch");
    assert_eq!(arts.scope, "user");
    assert_eq!(arts.artifacts.len(), 2);

    let cfg = test_config("launchd");
    assert!(specs_to_plant(&sown, &cfg).is_empty());
    let arts = plant(&sown, &cfg, &host(), &vec![]);
    assert_eq!(arts.artifacts.len(), 1);
    assert_eq!(arts.artifacts[0].path, "/t/.orch/units/orch.a.plist");

    let cfg = test_config("orchdi");
    let specs = specs_to_plant(&sown, &cfg);
    assert_eq!(specs.len(), 1);
    assert_eq!(specs[0].label, "orch.a");
    let arts = plant(&sown, &cfg, &host(), &vec!["J".to_string()]);
    assert_eq!(arts.artifacts[0].kind, "supervise-spec");
    assert_eq!(arts.artifacts[0].content, "J");
}

fn sown_two(healthcheck: Option<&str>) -> Sown {
    let mut sown = sown_one();
    sown.trees[0].service.healthcheck = healthcheck.map(|h| h.to_string());
    let mut web = host_service("web", "w");
    web.requires = vec!["a".to_string()];
    sown.trees.push(Tree { service: web, exec_set: exec("w") });
    sown
}

#[test]
fn planting_on_systemd_gates_what_has_a_healthcheck() {
    let cfg = test_config("systemd");
    let sown = sown_two(Some("ok"));
    assert!(can_plant(&sown, &cfg));
    let arts = plant(&sown, &cfg, &host(), &vec![]);
    let labels: Vec<&str> = arts.artifacts.iter().map(|a| a.label.as_str()).collect();
    assert_eq!(labels, vec!["orch-a.service", "orch-web.service", "orch-a-ready.service", "orch.target"]);
    assert!(arts.artifacts[1].content.contains("After=orch-a-ready.service\n"));
}

#[test]
fn planting_on_systemd_awaits_the_unit_of_what_has_no_healthcheck() {
    let cfg = test_config("systemd");
    let sown = sown_two(None);
    assert!(can_plant(&sown, &cfg));
    let arts = plant(&sown, &cfg, &host(), &vec![]);
    let labels: Vec<&str> = arts.artifacts.iter().map(|a| a.label.as_str()).collect();
    assert_eq!(labels, vec!["orch-a.service", "orch-web.service", "orch.target"]);
    assert!(arts.artifacts[1].content.contains("After=orch-a.service\n"));
    assert!(!arts.artifacts[1].content.contains("ready"));
}

#[test]
fn planting_on_launchd_needs_durations_that_can_be_counted() {
    let mut sown = sown_two(None);
    assert!(can_plant(&sown, &test_config("launchd")));
    sown.trees[0].service.timeouts.stop = Some("4294967295m".to_string());
    assert!(!can_plant(&sown, &test_config("launchd")));
    assert!(!can_plant(&sown, &test_config("orchdi")));
    assert!(can_plant(&sown, &test_config("systemd")));

    let mut sown = sown_two(None);
    sown.trees[0].service.timeouts.start = Some("4294967295m".to_string());
    sown.trees[0].service.readiness_timeout = Some("4294967295m".to_string());
    assert!(can_plant(&sown, &test_config("launchd")));
    assert!(can_plant(&sown, &test_config("orchdi")));
    sown.trees[0].service.restart.delay = Some("4294967295m".to_string());
    assert!(!can_plant(&sown, &test_config("launchd")));
    assert!(can_plant(&sown, &test_config("orchdi")));
}

#[test]
fn the_rows_give_what_generating_gives() {
    let spec = OrchFile {
        version: "0.2.1".to_string(),
        args: StringMap::new(),
        services: {
            let mut off = host_service("off", "o");
            off.disabled = true;
            off.requires = vec!["db".to_string()];
            let mut db = host_service("db", "d");
            db.healthcheck = Some("pg_isready".to_string());
            let mut web = host_service("web", "w");
            web.requires = vec!["db".to_string()];
            web.after = vec!["off".to_string()];
            let mut lone = host_service("lone", "l");
            lone.mode = ServiceMode::Container;
            lone.requires = vec!["db".to_string()];
            vec![off, lone, db, web]
        },
    };
    let rt = AnyRuntime::Bare(BareRuntime::new("/t/.orch/data".to_string()));
    for platform in ["systemd", "launchd", "orchdi"] {
        let cfg = test_config(platform);
        let mut g: Gathering = gather(&spec.services);
        while g.next < spec.services.len() {
            g = gather_on(&spec.services, &rt, g, Ok(()));
        }
        assert_eq!(g.errors.len(), 1);
        let sown = sow(&spec, &cfg, &g);
        let specs = specs_to_plant(&sown, &cfg);
        let texts: Vec<String> = specs.iter().map(|s| format!("{:?}", s)).collect();
        let planted = plant(&sown, &cfg, &host(), &texts);
        let generated = generate_files(&spec.services, &g.exec_sets, &cfg, &host(), &texts);
        let paths: Vec<&str> = planted.artifacts.iter().map(|a| a.path.as_str()).collect();
        let contents: Vec<&str> = planted.artifacts.iter().map(|a| a.content.as_str()).collect();
        let expected: Vec<&str> = generated.iter().map(|p| p.path.as_str()).collect();
        let texts_expected: Vec<&str> = generated.iter().map(|p| p.content.as_str()).collect();
        assert_eq!(paths, expected);
        assert_eq!(contents, texts_expected);
        assert!(!paths.is_empty());
    }
}

#[test]
fn tending_writes_installs_and_starts() {
    let cfg = test_config("launchd");
    let arts = plant(&sown_one(), &cfg, &host(), &vec![]);
    let steps = tend(&arts, true);
    assert_eq!(steps.len(), 3);
    match &steps[0] {
        TendStep::Write { path, content } => {
            assert_eq!(path, "/t/.orch/units/orch.a.plist");
            assert_eq!(content, &arts.artifacts[0].content);
        }
        other => panic!("expected Write, got {:?}", other),
    }
    assert!(matches!(steps[1], TendStep::Install { platform: PlatformKind::Launchd }));
    assert!(matches!(steps[2], TendStep::Start { platform: PlatformKind::Launchd }));
    assert_eq!(tend(&arts, false).len(), 2);
}

#[test]
fn orchard_errors_say_what_they_are() {
    let text = || "x".to_string();
    assert_eq!(OrchardError::Stdin(text()).message(), "read stdin failed: x");
    assert_eq!(OrchardError::Json(text()).message(), "invalid JSON on stdin: x");
    assert_eq!(
        OrchardError::Runtime(RuntimeError::Other(text())).message(),
        "runtime error: x"
    );
    assert_eq!(OrchardError::Other(text()).message(), "x");
}
