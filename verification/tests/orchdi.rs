#![allow(non_snake_case)]

use orchd::collections::StringMap;
use orchd::config::{Config, Scope};
use orchd::exec::ExecSet;
use orchd::orchdi::supervise::{
    action, begin, notice, step, wait_healthy, Action, Event, Phase, Poll,
};
use orchd::orchdi::{
    build_dep_gates, build_supervise_spec, check_duration, check_spec, healthcheck_to_cmd,
    parse_duration_secs, ready_marker_path, supervise_spec_path, DepSpec, SuperviseSpec,
};
use orchd::types::{
    LogConfig, RecreatePolicy, ResourceLimits, RestartConfig, Service, ServiceMode, TimeoutConfig,
};

fn test_config() -> Config {
    Config {
        orchfile: "/test/Orchfile".to_string(),
        overlays: Vec::new(),
        runtime: "bare".to_string(),
        platform: "launchd".to_string(),
        scope: Scope::User,
        state_dir: "/test/.orch".to_string(),
        project_dir: "/test/project".to_string(),
        data_dir: "/test/.orch/data".to_string(),
        orch_bin: "orch".to_string(),
        namespace: "orch".to_string(),
        args: Vec::new(),
        verbose: false,
        quiet: false,
    }
}

fn simple_host_service(name: &str, run_cmd: &str) -> Service {
    Service {
        name: name.to_string(),
        mode: ServiceMode::Host,
        image: None,
        run_command: Some(run_cmd.to_string()),
        entrypoint: None,
        cmd: None,
        publish: Vec::new(),
        volumes: Vec::new(),
        user: None,
        stop_command: None,
        reload_command: None,
        workdir: None,
        env: StringMap::new(),
        env_files: Vec::new(),
        requires: Vec::new(),
        after: Vec::new(),
        healthcheck: None,
        readiness_timeout: None,
        oneshot: false,
        disabled: false,
        recreate: RecreatePolicy::default(),
        restart: RestartConfig::default(),
        timeouts: TimeoutConfig::default(),
        resources: ResourceLimits::default(),
        logging: LogConfig::default(),
    }
}

#[test]
fn test_healthcheck_to_cmd__http_becomes_curl() {
    assert_eq!(healthcheck_to_cmd("http://localhost/h"), "curl -sf 'http://localhost/h'");
    assert_eq!(healthcheck_to_cmd("pg_isready"), "pg_isready");
}

#[test]
fn test_wait_healthy__succeeds_immediately() {
    assert_eq!(wait_healthy(true, false), Poll::Healthy);
}

#[test]
fn test_wait_healthy__times_out() {
    assert_eq!(wait_healthy(false, false), Poll::Again { pause_secs: 2 });
    assert_eq!(wait_healthy(false, true), Poll::TimedOut);
}

#[test]
fn test_build_dep_gates__requires_healthcheck_plus_started() {
    let cfg = test_config();
    let mut pg = simple_host_service("postgres", "postgres");
    pg.oneshot = true;
    pg.healthcheck = Some("pg_isready -h localhost".to_string());

    let mut app = simple_host_service("app", "app");
    app.requires = vec!["postgres".to_string()];

    let all = vec![pg.clone(), app.clone()];
    let gates = build_dep_gates(&cfg, &app, &all);

    assert_eq!(gates.len(), 1);
    assert!(gates[0].required);
    let marker = ready_marker_path(&cfg, "postgres");
    assert_eq!(gates[0].poll_cmd, format!("test -f {marker} && pg_isready -h localhost"));
}

#[test]
fn a_required_oneshot_is_awaited_by_its_marker() {
    let cfg = test_config();
    let mut migrate = simple_host_service("migrate", "migrate");
    migrate.oneshot = true;
    let mut app = simple_host_service("app", "app");
    app.requires = vec!["migrate".to_string()];
    app.after = vec!["migrate".to_string()];
    let gates = build_dep_gates(&cfg, &app, &vec![migrate, app.clone()]);
    assert_eq!(gates.len(), 1);
    assert_eq!(gates[0].poll_cmd, "test -f /test/.orch/ready/orch.migrate.ready");
    assert_eq!(gates[0].timeout_secs, 90);
}

#[test]
fn disabled_and_unknown_dependencies_make_no_gate() {
    let cfg = test_config();
    let mut pg = simple_host_service("postgres", "postgres");
    pg.healthcheck = Some("pg_isready".to_string());
    pg.disabled = true;
    let mut again = simple_host_service("postgres", "postgres");
    again.healthcheck = Some("second".to_string());
    let mut app = simple_host_service("app", "app");
    app.requires = vec!["postgres".to_string(), "nobody".to_string()];
    assert_eq!(build_dep_gates(&cfg, &app, &vec![pg.clone(), app.clone()]).len(), 0);
    let gates = build_dep_gates(&cfg, &app, &vec![pg, again, app.clone()]);
    assert_eq!(gates.len(), 1);
    assert_eq!(gates[0].poll_cmd, "second");
}

#[test]
fn durations_are_read_in_seconds_and_minutes() {
    assert_eq!(parse_duration_secs(" 90s "), Some(90));
    assert_eq!(parse_duration_secs("+3m"), Some(180));
    assert_eq!(parse_duration_secs("0"), Some(0));
    assert_eq!(parse_duration_secs("s"), None);
    assert_eq!(parse_duration_secs(""), None);
    assert_eq!(parse_duration_secs("1h"), None);
    assert_eq!(parse_duration_secs("-1s"), None);
    assert_eq!(parse_duration_secs("4294967295s"), Some(4294967295));
    assert_eq!(parse_duration_secs("4294967296s"), None);
    assert_eq!(parse_duration_secs("71582788m"), Some(4294967280));
}

#[test]
fn durations_that_cannot_be_counted_are_found() {
    let mut svc = simple_host_service("a", "a");
    assert!(check_spec(&svc, &vec![]));
    svc.timeouts.stop = Some("71582788m".to_string());
    assert!(check_spec(&svc, &vec![]));
    svc.timeouts.stop = Some("71582789m".to_string());
    assert!(!check_spec(&svc, &vec![]));
    svc.timeouts.stop = Some("99999999999m".to_string());
    assert!(check_spec(&svc, &vec![]));
    assert!(check_duration(&None));
    assert!(!check_duration(&Some("71582789m".to_string())));
}

#[test]
fn durations_that_are_not_read_do_not_matter() {
    let long = Some("71582789m".to_string());
    let mut svc = simple_host_service("a", "a");
    svc.restart.delay = long.clone();
    svc.timeouts.start = long.clone();
    svc.readiness_timeout = long.clone();
    assert!(check_spec(&svc, &vec![svc.clone()]));

    let mut web = simple_host_service("web", "web");
    web.after = vec!["a".to_string()];
    assert!(check_spec(&web, &vec![svc.clone()]));
    assert!(build_dep_gates(&test_config(), &web, &vec![svc.clone()]).is_empty());
    svc.healthcheck = Some("true".to_string());
    assert!(!check_spec(&web, &vec![svc]));
}

#[test]
fn stop_timeout_is_explicit_or_by_teardown() {
    let cfg = test_config();
    let mut svc = simple_host_service("web", "web");
    let plain = ExecSet { start: "web".to_string(), pre_start: None, stop: None, post_stop: None };
    let spec = build_supervise_spec(&svc, &plain, &cfg, &vec![]);
    assert_eq!(spec.stop_timeout_secs, 10);
    assert!(spec.ready_marker.is_none());
    let mut torn = plain.clone();
    torn.post_stop = Some("rm".to_string());
    assert_eq!(build_supervise_spec(&svc, &torn, &cfg, &vec![]).stop_timeout_secs, 30);
    svc.timeouts.stop = Some("2m".to_string());
    svc.oneshot = true;
    let spec = build_supervise_spec(&svc, &torn, &cfg, &vec![]);
    assert_eq!(spec.stop_timeout_secs, 120);
    assert_eq!(spec.ready_marker.as_deref(), Some("/test/.orch/ready/orch.web.ready"));
}

#[test]
fn spec_files_are_named_by_label() {
    assert_eq!(
        supervise_spec_path(&test_config(), "orch.web"),
        "/test/.orch/supervise/orch.web.json"
    );
}

fn full_spec() -> SuperviseSpec {
    SuperviseSpec {
        label: "orch.pg".to_string(),
        pre_start: Some("pull".to_string()),
        start: "run".to_string(),
        stop: Some("halt".to_string()),
        post_stop: Some("delete".to_string()),
        deps: vec![
            DepSpec { poll_cmd: "hard".to_string(), timeout_secs: 5, required: true },
            DepSpec { poll_cmd: "soft".to_string(), timeout_secs: 6, required: false },
        ],
        ready_marker: Some("/ready".to_string()),
        stop_timeout_secs: 30,
    }
}

#[test]
fn supervision_goes_through_all_commands() {
    let spec = full_spec();
    let p = begin(&spec);
    assert_eq!(p, Phase::Gate { next: 0 });
    match action(&spec, p) {
        Action::Await { cmd, timeout_secs } => {
            assert_eq!(cmd, "hard");
            assert_eq!(timeout_secs, 5);
        }
        other => panic!("expected Await, got {:?}", other),
    }
    let p = step(&spec, p, Event::Polled { healthy: true });
    assert_eq!(p, Phase::Gate { next: 1 });
    let late = Event::Polled { healthy: false };
    assert_eq!(
        notice(&spec, p, late).as_deref(),
        Some("supervise[orch.pg]: dependency not ready (proceeding): soft")
    );
    let p = step(&spec, p, late);
    assert_eq!(p, Phase::PreStart);
    let p = step(&spec, p, Event::Ran { success: true });
    assert!(matches!(action(&spec, p), Action::Spawn { .. }));
    let p = step(&spec, p, Event::Spawned { success: true });
    assert_eq!(p, Phase::Running);
    let p = step(&spec, p, Event::Alive { expired: true });
    assert_eq!(p, Phase::Running);
    let p = step(&spec, p, Event::Exited { code: Some(3) });
    assert_eq!(p, Phase::PostStop { code: 3, mark: true });
    match action(&spec, p) {
        Action::Run { cmd } => assert_eq!(cmd, "delete"),
        other => panic!("expected Run, got {:?}", other),
    }
    let p = step(&spec, p, Event::Ran { success: false });
    assert_eq!(p, Phase::Mark { code: 3 });
    assert!(matches!(action(&spec, p), Action::RemoveMarker { .. }));
    assert!(matches!(action(&spec, Phase::Mark { code: 0 }), Action::WriteMarker { .. }));
    let p = step(&spec, p, Event::Performed);
    assert!(matches!(action(&spec, p), Action::Exit { code: 3 }));
}

#[test]
fn supervision_does_not_start_without_a_required_dependency() {
    let spec = full_spec();
    let late = Event::Polled { healthy: false };
    assert_eq!(
        notice(&spec, begin(&spec), late).as_deref(),
        Some("supervise[orch.pg]: required dependency not ready: hard")
    );
    assert_eq!(step(&spec, begin(&spec), late), Phase::Done { code: 1 });
    let failed = Event::Ran { success: false };
    assert_eq!(
        notice(&spec, Phase::PreStart, failed).as_deref(),
        Some("supervise[orch.pg]: pre_start failed: pull")
    );
    assert_eq!(step(&spec, Phase::PreStart, failed), Phase::Done { code: 1 });
    assert_eq!(step(&spec, Phase::Start, Event::Spawned { success: false }), Phase::Done { code: 1 });
    assert_eq!(step(&spec, Phase::Running, Event::WaitFailed), Phase::Done { code: 1 });
}

#[test]
fn supervision_stops_on_a_signal() {
    let spec = full_spec();
    let p = step(&spec, Phase::Running, Event::Terminated);
    match action(&spec, p) {
        Action::Run { cmd } => assert_eq!(cmd, "halt"),
        other => panic!("expected Run, got {:?}", other),
    }
    let p = step(&spec, p, Event::Ran { success: false });
    assert!(matches!(action(&spec, p), Action::Drain { grace_secs: 30 }));
    let p = step(&spec, p, Event::Alive { expired: false });
    assert_eq!(p, Phase::Drain);
    let p = step(&spec, p, Event::Alive { expired: true });
    assert!(matches!(action(&spec, p), Action::Kill));
    let p = step(&spec, p, Event::Performed);
    assert_eq!(p, Phase::PostStop { code: 0, mark: false });
    let p = step(&spec, p, Event::Ran { success: true });
    assert_eq!(p, Phase::Done { code: 0 });
}

#[test]
fn supervision_without_commands_is_short() {
    let mut spec = full_spec();
    spec.deps = vec![];
    spec.pre_start = None;
    spec.stop = None;
    spec.post_stop = None;
    spec.ready_marker = None;
    spec.stop_timeout_secs = 0;
    assert_eq!(begin(&spec), Phase::Start);
    assert!(matches!(action(&spec, Phase::Stop), Action::Terminate));
    assert!(matches!(action(&spec, Phase::Drain), Action::Drain { grace_secs: 1 }));
    assert_eq!(
        step(&spec, Phase::Running, Event::Exited { code: None }),
        Phase::Done { code: 0 }
    );
}
