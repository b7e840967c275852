#![allow(non_snake_case)]

use orchd::collections::StringMap;
use orchd::config::{Config, Scope};
use orchd::engine::{
    artifacts_dir, call_orch_parse, clean, fell, gather, gather_answer, gather_on, generate,
    generate_step, grow, is_up_to_date, judge_parse, logs, status, up, validate_schema,
    write_vars_overlay, EngineError, GenerateEvent, GeneratePhase, ParseOutcome, Stamps, Step,
    UnitFile,
};
use orchd::exec::ExecSet;
use orchd::platform::{platform_of, PlatformError, PlatformKind};
use orchd::runtime::apple::{AppleMode, AppleRuntime};
use orchd::runtime::bare::BareRuntime;
use orchd::runtime::{AnyRuntime, RuntimeError};
use orchd::types::{
    LogConfig, OrchFile, RecreatePolicy, ResourceLimits, RestartConfig, Service, ServiceMode, TimeoutConfig,
};

fn test_config() -> Config {
    Config {
        orchfile: "/srv/project/Orchfile".to_string(),
        overlays: vec!["a.orch".to_string(), "b.orch".to_string()],
        runtime: "bare".to_string(),
        platform: "systemd".to_string(),
        scope: Scope::System,
        state_dir: "/srv/state".to_string(),
        project_dir: "/srv/project".to_string(),
        data_dir: "/srv/data".to_string(),
        orch_bin: "orch".to_string(),
        namespace: "orch".to_string(),
        args: vec!["FOO=bar".to_string()],
        verbose: false,
        quiet: false,
    }
}

fn service(name: &str, mode: ServiceMode) -> Service {
    Service {
        name: name.to_string(),
        mode,
        image: None,
        run_command: Some(format!("run {}", name)),
        entrypoint: None,
        cmd: None,
        publish: Vec::new(),
        volumes: Vec::new(),
        user: None,
        stop_command: None,
        reload_command: None,
        workdir: None,
        env: StringMap::new(),
        env_files: Vec::new(),
        requires: Vec::new(),
        after: Vec::new(),
        healthcheck: None,
        readiness_timeout: None,
        oneshot: false,
        disabled: false,
        recreate: RecreatePolicy::default(),
        restart: RestartConfig::default(),
        timeouts: TimeoutConfig::default(),
        resources: ResourceLimits::default(),
        logging: LogConfig::default(),
    }
}

#[test]
fn test_engine_error_display__orch_parse() {
    let err = EngineError::OrchParse("file not found".to_string());
    assert_eq!(err.message(), "orch parse failed: file not found");
}

#[test]
fn test_engine_error_display__json_deserialize() {
    let err = EngineError::JsonDeserialize("unexpected token".to_string());
    assert_eq!(err.message(), "JSON deserialization failed: unexpected token");
}

#[test]
fn test_engine_error_display__runtime_wraps_inner() {
    let inner = RuntimeError::Other("boom".to_string());
    let err = EngineError::Runtime(inner);
    assert_eq!(err.message(), "runtime error: boom");
}

#[test]
fn test_engine_error_display__platform_wraps_inner() {
    let inner = PlatformError::LifecycleFailed("start failed".to_string());
    let err = EngineError::Platform(inner);
    assert_eq!(err.message(), "platform error: lifecycle failed: start failed");
}

#[test]
fn test_engine_error_from_runtime_error() {
    let inner = RuntimeError::UnsupportedMode {
        service: "web".to_string(),
        mode: "container".to_string(),
    };
    let err: EngineError = inner.into();
    assert!(matches!(err, EngineError::Runtime(_)));
}

#[test]
fn test_engine_error_from_platform_error() {
    let inner = PlatformError::InstallFailed("symlink error".to_string());
    let err: EngineError = inner.into();
    assert!(matches!(err, EngineError::Platform(_)));
}

#[test]
fn test_write_vars_overlay__creates_file_with_arg_declarations() {
    let config = test_config();

    let (path, content) = write_vars_overlay(&config);
    assert_eq!(path, "/srv/state/tmp/orchd-vars.orch");
    assert!(content.contains("ARG ORCH_DATA=/srv/data"));
    assert!(content.contains("ARG ORCH_PROJECT=/srv/project"));
    assert!(content.contains("ARG ORCH_STATE_DIR="));
    assert!(content.contains("ARG ORCH_CONTAINERS_DIR="));
}

#[test]
fn vars_overlay_is_written_out_in_full() {
    let (_, content) = write_vars_overlay(&test_config());
    assert_eq!(
        content,
        "# Auto-generated by orchd — built-in variable declarations\n\
         ARG ORCH_DATA=/srv/data\n\
         ARG ORCH_PROJECT=/srv/project\n\
         ARG ORCH_STATE_DIR=/srv/state\n\
         ARG ORCH_CONTAINERS_DIR=/srv/project\n"
    );
}

#[test]
fn runtime_errors_say_what_they_are() {
    let e = RuntimeError::UnsupportedMode { service: "a".to_string(), mode: "b".to_string() };
    assert_eq!(e.message(), "service 'a' has mode 'b' which is not supported by this runtime");
    let e = RuntimeError::PrerequisiteMissing("x".to_string());
    assert_eq!(e.message(), "prerequisite missing: x");
    let e = RuntimeError::BinaryNotFound("x".to_string());
    assert_eq!(e.message(), "binary not found: x");
}

#[test]
fn platform_errors_say_what_they_are() {
    let text = || "x".to_string();
    assert_eq!(PlatformError::PrerequisiteMissing(text()).message(), "prerequisite missing: x");
    assert_eq!(PlatformError::GenerationFailed(text()).message(), "generation failed: x");
    assert_eq!(PlatformError::InstallFailed(text()).message(), "install failed: x");
    assert_eq!(PlatformError::LifecycleFailed(text()).message(), "lifecycle failed: x");
    assert_eq!(PlatformError::Io(text()).message(), "I/O error: x");
    assert_eq!(PlatformError::Other(text()).message(), "x");
}

#[test]
fn orch_parse_gets_own_variables_before_overlays() {
    let call = call_orch_parse(&test_config());
    assert_eq!(call.program, "orch");
    assert_eq!(
        call.args,
        vec![
            "parse",
            "/srv/project/Orchfile",
            "/srv/state/tmp/orchd-vars.orch",
            "a.orch",
            "b.orch",
            "--arg",
            "FOO=bar",
        ]
    );
}

#[test]
fn orch_parse_outcomes_are_judged() {
    let config = test_config();
    let text = |o: ParseOutcome| judge_parse(&config, &o).unwrap_err().message();
    assert_eq!(
        text(ParseOutcome::NoDirectory("e".to_string())),
        "orch parse failed: failed to create tmp dir: e"
    );
    assert_eq!(
        text(ParseOutcome::NotWritten("e".to_string())),
        "orch parse failed: failed to write vars overlay: e"
    );
    assert_eq!(
        text(ParseOutcome::NotRun("e".to_string())),
        "orch parse failed: failed to execute 'orch': e"
    );
    assert_eq!(
        text(ParseOutcome::Failed { code: Some(2), stderr: " bad\n".to_string() }),
        "orch parse failed: exit code 2: bad"
    );
    assert_eq!(
        text(ParseOutcome::Failed { code: None, stderr: String::new() }),
        "orch parse failed: exit code -1: "
    );
    assert_eq!(
        text(ParseOutcome::NotText("e".to_string())),
        "orch parse failed: invalid UTF-8 in orch output: e"
    );
    let ok = judge_parse(&config, &ParseOutcome::Text("{}".to_string()));
    assert_eq!(ok.unwrap(), "{}");
}

fn stamps(orchfile: i128, overlays: Vec<Option<i128>>, units: Vec<(&str, Option<i128>)>) -> Stamps {
    Stamps {
        orchfile: Some(orchfile),
        overlays,
        units: Some(
            units
                .into_iter()
                .map(|(n, t)| UnitFile { name: n.to_string(), modified: t })
                .collect(),
        ),
    }
}

#[test]
fn units_must_be_newer_than_all_inputs() {
    assert!(is_up_to_date(PlatformKind::Systemd, &stamps(5, vec![Some(7), None], vec![("a.service", Some(7))])));
    assert!(!is_up_to_date(PlatformKind::Systemd, &stamps(5, vec![Some(8)], vec![("a.service", Some(7))])));
    assert!(!is_up_to_date(PlatformKind::Systemd, &stamps(
        5,
        vec![],
        vec![("a.service", Some(9)), ("orch.target", Some(4))]
    )));
    assert!(!is_up_to_date(PlatformKind::Systemd, &stamps(5, vec![], vec![("a.service", None)])));
    assert!(!is_up_to_date(PlatformKind::Systemd, &stamps(5, vec![], vec![("a.plist", Some(9))])));
    assert!(is_up_to_date(PlatformKind::Systemd, &stamps(5, vec![], vec![("x.txt", None), ("a.target", Some(5))])));
    let mut none = stamps(5, vec![], vec![("a.service", Some(9))]);
    none.orchfile = None;
    assert!(!is_up_to_date(PlatformKind::Systemd, &none));
    let mut none = stamps(5, vec![], vec![]);
    none.units = None;
    assert!(!is_up_to_date(PlatformKind::Systemd, &none));
}

#[test]
fn each_platform_has_artifacts_of_its_own() {
    let plists = stamps(5, vec![Some(6)], vec![("orch.web.plist", Some(7))]);
    assert!(is_up_to_date(PlatformKind::Launchd, &plists));
    assert!(!is_up_to_date(PlatformKind::Systemd, &plists));
    let stale = stamps(5, vec![Some(8)], vec![("orch.web.plist", Some(7))]);
    assert!(!is_up_to_date(PlatformKind::Launchd, &stale));
    let specs = stamps(5, vec![], vec![("orch.web.json", Some(7))]);
    assert!(is_up_to_date(PlatformKind::Orchdi, &specs));
    assert!(!is_up_to_date(PlatformKind::Launchd, &specs));
    let units = stamps(5, vec![], vec![("orch-web.service", Some(7))]);
    assert!(!is_up_to_date(PlatformKind::Launchd, &units));
    assert!(!is_up_to_date(PlatformKind::Orchdi, &units));

    let mut cfg = test_config();
    assert_eq!(artifacts_dir(&cfg), "/srv/state/units");
    cfg.platform = "launchd".to_string();
    assert_eq!(artifacts_dir(&cfg), "/srv/state/units");
    cfg.platform = "orchdi".to_string();
    assert_eq!(artifacts_dir(&cfg), "/srv/state/supervise");
}

fn versioned(version: &str) -> OrchFile {
    OrchFile { version: version.to_string(), args: StringMap::new(), services: vec![] }
}

#[test]
fn schemas_are_checked_up_to_the_patch() {
    assert!(validate_schema(&versioned("0.2")).is_ok());
    assert!(validate_schema(&versioned("0.2.0")).is_ok());
    assert!(validate_schema(&versioned("0.2.99")).is_ok());
    for version in ["0.20.0", "0.1.0", "1.2.0", "0", ""] {
        match validate_schema(&versioned(version)) {
            Err(EngineError::OrchParse(m)) => assert_eq!(
                m,
                format!(
                    "orch schema version {} is not supported by orchd 0.1.0.\n\
                     Supported schemas: 0.2\nUpdate orchd or use a compatible orch version.",
                    version
                )
            ),
            other => panic!("expected OrchParse, got {:?}", other),
        }
    }
}

#[test]
fn gathering_accounts_for_every_service() {
    let mut off = service("off", ServiceMode::Host);
    off.disabled = true;
    let web = service("web", ServiceMode::Host);
    let mut db = service("db", ServiceMode::Container);
    db.image = Some("pg:15".to_string());
    let last = service("last", ServiceMode::Host);
    let services = vec![off.clone(), web, db, off, last];
    let rt = AnyRuntime::Bare(BareRuntime::new("/data".to_string()));

    let g = gather(&services);
    assert_eq!(g.next, 1);
    assert_eq!(g.skipped, 1);
    let g = gather_on(&services, &rt, g, Ok(()));
    assert_eq!(g.next, 2);
    assert_eq!(g.exec_sets.len(), 1);
    assert_eq!(g.exec_sets[0].0, 1);
    assert_eq!(g.exec_sets[0].1.start, "run web");
    let g = gather_on(&services, &rt, g, Ok(()));
    assert_eq!(g.next, 4);
    assert_eq!(g.skipped, 2);
    assert_eq!(g.errors.len(), 1);
    assert!(g.errors[0].starts_with("db: service 'db' has mode 'container (FROM pg:15)"));
    let failed = Err(RuntimeError::Other("no disk".to_string()));
    let g = gather_on(&services, &rt, g, failed);
    assert_eq!(g.next, 5);
    assert_eq!(g.errors[1], "last: no disk");
    assert_eq!(g.exec_sets.len() + g.errors.len() + g.skipped, services.len());
}

#[test]
fn gathering_asks_a_co_process_where_it_must() {
    let rt = AnyRuntime::Apple(AppleRuntime {
        mode: AppleMode::OrchdOsx,
        bin: Some("orchd-osx".to_string()),
        namespace: "orch".to_string(),
        data_dir: "/data".to_string(),
    });
    let services =
        vec![service("vm", ServiceMode::Container), service("host", ServiceMode::Host)];
    let g = gather_on(&services, &rt, gather(&services), Ok(()));
    assert!(g.asking);
    assert_eq!(g.next, 0);
    let answer = ExecSet {
        start: "orchd-osx run vm".to_string(),
        pre_start: None,
        stop: None,
        post_stop: None,
    };
    let g = gather_answer(&services, g, Ok(answer));
    assert!(!g.asking);
    assert_eq!(g.next, 1);
    let g = gather_on(&services, &rt, g, Ok(()));
    assert_eq!(g.next, 2);
    assert_eq!(g.exec_sets[0].1.start, "orchd-osx run vm");
    assert_eq!(g.exec_sets[1].1.start, "run host");
}

#[test]
fn platforms_are_told_by_name() {
    assert_eq!(platform_of("launchd"), PlatformKind::Launchd);
    assert_eq!(platform_of("orchdi"), PlatformKind::Orchdi);
    assert_eq!(platform_of("systemd"), PlatformKind::Systemd);
    assert_eq!(platform_of("anything"), PlatformKind::Systemd);
}

#[test]
fn growing_generates_and_then_starts() {
    let config = test_config();
    let names = vec!["web".to_string()];
    let steps = grow(&config, &names, true);
    assert_eq!(steps.len(), 1);
    assert!(matches!(steps[0], Step::Generate { platform: PlatformKind::Systemd }));
    let steps = grow(&config, &names, false);
    assert_eq!(steps.len(), 2);
    assert!(matches!(steps[0], Step::Generate { .. }));
    match &steps[1] {
        Step::Start { services, .. } => assert_eq!(services, &names),
        other => panic!("expected Start, got {:?}", other),
    }
    assert_eq!(up(&config, &names, true).len(), 1);
}

#[test]
fn felling_stops_cleans_and_removes_data() {
    let config = test_config();
    let steps = fell(&config, false);
    assert_eq!(steps.len(), 3);
    assert!(matches!(steps[0], Step::Stop { .. }));
    assert!(!steps[0].must_succeed());
    assert!(matches!(steps[1], Step::Clean { .. }));
    assert!(steps[1].must_succeed());
    match &steps[2] {
        Step::RemoveData { path } => assert_eq!(path, "/srv/data"),
        other => panic!("expected RemoveData, got {:?}", other),
    }
    assert!(!steps[2].must_succeed());
    assert_eq!(clean(&config, true).len(), 2);
}

#[test]
fn status_and_logs_go_to_the_platform() {
    let mut config = test_config();
    config.platform = "launchd".to_string();
    assert!(matches!(
        status(&config, true),
        Step::Status { platform: PlatformKind::Launchd, as_json: true }
    ));
    match logs(&config, "web", true, 7) {
        Step::Logs { platform, service, follow, lines } => {
            assert_eq!(platform, PlatformKind::Launchd);
            assert_eq!(service, "web");
            assert!(follow);
            assert_eq!(lines, 7);
        }
        other => panic!("expected Logs, got {:?}", other),
    }
}

#[test]
fn generation_passes_through_its_phases() {
    let mut phase = generate(false);
    assert!(matches!(phase, GeneratePhase::Freshness));
    phase = generate_step(phase, GenerateEvent::Looked { up_to_date: false });
    let mut seen = Vec::new();
    while !matches!(phase, GeneratePhase::Done) {
        seen.push(format!("{:?}", phase));
        phase = generate_step(phase, GenerateEvent::Succeeded);
    }
    assert_eq!(seen, vec!["CheckRuntime", "CheckPlatform", "Parse", "Gather", "Write", "Install"]);
    assert!(matches!(generate(true), GeneratePhase::CheckRuntime));

    let fresh = generate_step(generate(false), GenerateEvent::Looked { up_to_date: true });
    assert!(matches!(fresh, GeneratePhase::Done));

    let error = EngineError::OrchParse("x".to_string());
    let failed = generate_step(generate(true), GenerateEvent::Erred { error });
    let failed = generate_step(failed, GenerateEvent::Succeeded);
    match failed {
        GeneratePhase::Failed { error } => assert_eq!(error.message(), "orch parse failed: x"),
        other => panic!("expected Failed, got {:?}", other),
    }
}
