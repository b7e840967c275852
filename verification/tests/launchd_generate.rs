#![allow(non_snake_case)]

use orchd::collections::StringMap;
use orchd::config::{Config, Scope};
use orchd::exec::ExecSet;
use orchd::orchdi::{
    build_dep_gates, build_supervise_spec, parse_duration_secs, service_label, DepGate,
};
use orchd::platform::launchd::environment::env_file_paths;
use orchd::platform::launchd::generate::{
    generate_service_plist, generate_service_plist_with_deps, plist_filename,
};
use orchd::platform::launchd::plist::xml_escape;
use orchd::platform::Host;
use orchd::types::{
    LogConfig, RecreatePolicy, ResourceLimits, RestartConfig, RestartPolicy, Service, ServiceMode,
    TimeoutConfig,
};

fn test_config() -> Config {
    Config {
        orchfile: "/test/Orchfile".to_string(),
        overlays: Vec::new(),
        runtime: "bare".to_string(),
        platform: "launchd".to_string(),
        scope: Scope::User,
        state_dir: "/test/.orch".to_string(),
        project_dir: "/test/project".to_string(),
        data_dir: "/test/.orch/data".to_string(),
        orch_bin: "orch".to_string(),
        namespace: "orch".to_string(),
        args: Vec::new(),
        verbose: false,
        quiet: false,
    }
}

fn host() -> Host {
    Host {
        home: Some("/Users/test".to_string()),
        exe: Some("/usr/local/bin/orchd".to_string()),
        files: StringMap::new(),
    }
}

fn simple_host_service(name: &str, run_cmd: &str) -> Service {
    Service {
        name: name.to_string(),
        mode: ServiceMode::Host,
        image: None,
        run_command: Some(run_cmd.to_string()),
        entrypoint: None,
        cmd: None,
        publish: Vec::new(),
        volumes: Vec::new(),
        user: None,
        stop_command: None,
        reload_command: None,
        workdir: None,
        env: StringMap::new(),
        env_files: Vec::new(),
        requires: Vec::new(),
        after: Vec::new(),
        healthcheck: None,
        readiness_timeout: None,
        oneshot: false,
        disabled: false,
        recreate: RecreatePolicy::default(),
        restart: RestartConfig::default(),
        timeouts: TimeoutConfig::default(),
        resources: ResourceLimits::default(),
        logging: LogConfig::default(),
    }
}

fn simple_exec_set(start: &str) -> ExecSet {
    ExecSet { start: start.to_string(), pre_start: None, stop: None, post_stop: None }
}

#[test]
fn test_generate_service_plist__basic_structure() {
    let cfg = test_config();
    let svc = simple_host_service("web", "python server.py");
    let exec = simple_exec_set("python server.py");
    let p = generate_service_plist(&svc, &exec, &cfg, &host());

    assert!(p.starts_with("<?xml version=\"1.0\""));
    assert!(p.contains("<!DOCTYPE plist"));
    assert!(p.contains("<plist version=\"1.0\">"));
    assert!(p.contains("</plist>"));
    assert!(p.contains("<key>Label</key>"));
    assert!(p.contains("<string>orch.web</string>"));
    assert!(p.contains("<key>ProgramArguments</key>"));
    assert!(p.contains("<string>/bin/bash</string>"));
    assert!(p.contains("<string>-c</string>"));
    assert!(p.contains("exec python server.py"));
    assert!(p.contains("<key>RunAtLoad</key>"));
    assert!(p.contains("<true/>"));
}

#[test]
fn test_generate_service_plist__keepalive_on_failure() {
    let cfg = test_config();
    let mut svc = simple_host_service("worker", "celery worker");
    svc.restart.policy = RestartPolicy::OnFailure;
    let exec = simple_exec_set("celery worker");
    let p = generate_service_plist(&svc, &exec, &cfg, &host());

    assert!(p.contains("<key>KeepAlive</key>"));
    assert!(p.contains("<key>SuccessfulExit</key>"));
    assert!(p.contains("<false/>"));
}

#[test]
fn test_generate_service_plist__keepalive_always() {
    let cfg = test_config();
    let mut svc = simple_host_service("worker", "loop.sh");
    svc.restart.policy = RestartPolicy::Always;
    let exec = simple_exec_set("loop.sh");
    let p = generate_service_plist(&svc, &exec, &cfg, &host());

    // KeepAlive=Always is `<true/>`, not the `<dict>` OnFailure form. Scope to
    // the KeepAlive value (up to the next key) rather than a fixed window.
    let pos = p.find("<key>KeepAlive</key>").unwrap();
    let after = &p[pos + "<key>KeepAlive</key>".len()..];
    let value = &after[..after.find("<key>").unwrap_or(after.len())];
    assert!(value.contains("<true/>"));
    assert!(!value.contains("<dict>"));
}

#[test]
fn test_generate_service_plist__no_keepalive_when_oneshot() {
    let cfg = test_config();
    let mut svc = simple_host_service("migrate", "migrate.sh");
    svc.oneshot = true;
    let exec = simple_exec_set("migrate.sh");
    let p = generate_service_plist(&svc, &exec, &cfg, &host());

    assert!(!p.contains("<key>KeepAlive</key>"));
}

#[test]
fn test_generate_service_plist__throttle_interval_from_delay() {
    let cfg = test_config();
    let mut svc = simple_host_service("worker", "w");
    svc.restart.policy = RestartPolicy::OnFailure;
    svc.restart.delay = Some("5s".to_string());
    let exec = simple_exec_set("w");
    let p = generate_service_plist(&svc, &exec, &cfg, &host());

    assert!(p.contains("<key>ThrottleInterval</key>"));
    assert!(p.contains("<integer>5</integer>"));
}

#[test]
fn test_generate_service_plist__environment_sorted() {
    let cfg = test_config();
    let mut svc = simple_host_service("app", "app");
    svc.env.insert("ZED".to_string(), "1".to_string());
    svc.env.insert("ALPHA".to_string(), "2".to_string());
    let exec = simple_exec_set("app");
    let p = generate_service_plist(&svc, &exec, &cfg, &host());

    assert!(p.contains("<key>EnvironmentVariables</key>"));
    let alpha_pos = p.find("<key>ALPHA</key>").unwrap();
    let zed_pos = p.find("<key>ZED</key>").unwrap();
    assert!(alpha_pos < zed_pos);
}

fn dictionary(plist: &str) -> Vec<(String, String)> {
    let from = plist.find("<key>EnvironmentVariables</key>").unwrap();
    let body = &plist[from..plist[from..].find("</dict>").unwrap() + from];
    let inner = |line: &str, tag: &str| {
        let line = line.trim();
        line.strip_prefix(&format!("<{}>", tag))
            .and_then(|l| l.strip_suffix(&format!("</{}>", tag)))
            .map(String::from)
    };
    let keys = body.lines().skip(1).filter_map(|l| inner(l, "key"));
    let values = body.lines().filter_map(|l| inner(l, "string"));
    keys.zip(values).collect()
}

fn pairs(list: &[(&str, &str)]) -> Vec<(String, String)> {
    list.iter().map(|(k, v)| (k.to_string(), v.to_string())).collect()
}

#[test]
fn environment_files_are_inlined() {
    let cfg = test_config();
    let mut svc = simple_host_service("app", "app");
    svc.env.insert("MODE".to_string(), "own".to_string());
    svc.env.insert("KEPT".to_string(), "own".to_string());
    svc.env_files = vec![".env".to_string(), "/etc/app/env".to_string(), "gone".to_string()];
    let paths = env_file_paths(&vec![svc.clone()], &cfg);
    let local = format!("{}/.env", cfg.project_dir);
    assert_eq!(paths, vec![local.clone(), "/etc/app/env".to_string(), format!("{}/gone", cfg.project_dir)]);

    let mut h = host();
    h.files.insert(local, "# comment\n\nMODE = first\nA=1=2\nno line\n".to_string());
    h.files.insert("/etc/app/env".to_string(), "MODE=second\nPATH=/opt/bin\n".to_string());
    let p = generate_service_plist(&svc, &simple_exec_set("app"), &cfg, &h);
    assert_eq!(
        dictionary(&p),
        pairs(&[("A", "1=2"), ("KEPT", "own"), ("MODE", "second"), ("PATH", "/opt/bin")])
    );

    let p = generate_service_plist(&svc, &simple_exec_set("app"), &cfg, &host());
    assert_eq!(
        dictionary(&p),
        pairs(&[
            ("PATH", "/usr/local/bin:/opt/homebrew/bin:/usr/bin:/bin:/usr/sbin:/sbin"),
            ("KEPT", "own"),
            ("MODE", "own"),
        ])
    );
}

#[test]
fn test_generate_service_plist__workdir_resolved() {
    let cfg = test_config();
    let mut svc = simple_host_service("app", "app");
    svc.workdir = Some("backend".to_string());
    let exec = simple_exec_set("app");
    let p = generate_service_plist(&svc, &exec, &cfg, &host());

    assert!(p.contains("<key>WorkingDirectory</key>"));
    assert!(p.contains("<string>/test/project/backend</string>"));
}

#[test]
fn test_generate_service_plist__user() {
    let cfg = test_config();
    let mut svc = simple_host_service("pg", "postgres");
    svc.user = Some("postgres".to_string());
    let exec = simple_exec_set("postgres");
    let p = generate_service_plist(&svc, &exec, &cfg, &host());

    assert!(p.contains("<key>UserName</key>"));
    assert!(p.contains("<string>postgres</string>"));
}

#[test]
fn test_generate_service_plist__default_log_paths_user_scope() {
    let cfg = test_config();
    let svc = simple_host_service("web", "x");
    let exec = simple_exec_set("x");
    let p = generate_service_plist(&svc, &exec, &cfg, &host());

    assert!(p.contains("<key>StandardOutPath</key>"));
    assert!(p.contains("orch.web.out.log"));
    assert!(p.contains("orch.web.err.log"));
    // Should use $HOME/Library/Logs (whatever HOME is in test env)
    assert!(p.contains("/Library/Logs/"));
}

#[test]
fn test_generate_service_plist__system_scope_log_paths() {
    let mut cfg = test_config();
    cfg.scope = Scope::System;
    let svc = simple_host_service("web", "x");
    let exec = simple_exec_set("x");
    let p = generate_service_plist(&svc, &exec, &cfg, &host());

    assert!(p.contains("<string>/Library/Logs/orch.web.out.log</string>"));
    assert!(p.contains("<string>/Library/Logs/orch.web.err.log</string>"));
}

#[test]
fn test_generate_service_plist__custom_log_paths_override_defaults() {
    let cfg = test_config();
    let mut svc = simple_host_service("app", "app");
    svc.logging.stdout = Some("/var/log/app/out.log".to_string());
    svc.logging.stderr = Some("/var/log/app/err.log".to_string());
    let exec = simple_exec_set("app");
    let p = generate_service_plist(&svc, &exec, &cfg, &host());

    assert!(p.contains("<string>/var/log/app/out.log</string>"));
    assert!(p.contains("<string>/var/log/app/err.log</string>"));
}

#[test]
fn test_generate_service_plist__pre_start_chained() {
    let cfg = test_config();
    let svc = simple_host_service("nginx", "nginx -g 'daemon off;'");
    let exec = ExecSet {
        start: "nginx -g 'daemon off;'".to_string(),
        pre_start: Some("nginx -t".to_string()),
        stop: None,
        post_stop: None,
    };
    let p = generate_service_plist(&svc, &exec, &cfg, &host());

    assert!(p.contains("nginx -t &amp;&amp; exec nginx -g &apos;daemon off;&apos;"));
}

#[test]
fn test_generate_service_plist__limit_nofile() {
    let cfg = test_config();
    let mut svc = simple_host_service("pg", "postgres");
    svc.resources.limit_nofile = Some(65536);
    let exec = simple_exec_set("postgres");
    let p = generate_service_plist(&svc, &exec, &cfg, &host());

    assert!(p.contains("<key>SoftResourceLimits</key>"));
    assert!(p.contains("<key>NumberOfFiles</key>"));
    assert!(p.contains("<integer>65536</integer>"));
}

#[test]
fn test_generate_service_plist__limit_nproc() {
    let cfg = test_config();
    let mut svc = simple_host_service("app", "app");
    svc.resources.limit_nproc = Some(4096);
    let exec = simple_exec_set("app");
    let p = generate_service_plist(&svc, &exec, &cfg, &host());

    assert!(p.contains("<key>NumberOfProcesses</key>"));
    assert!(p.contains("<integer>4096</integer>"));
}

#[test]
fn test_generate_service_plist__no_teardown_uses_exec() {
    // Host/bare services (no stop/post_stop) keep the fast exec path.
    let cfg = test_config();
    let svc = simple_host_service("web", "python server.py");
    let exec = simple_exec_set("python server.py");
    let p = generate_service_plist(&svc, &exec, &cfg, &host());

    assert!(p.contains("exec python server.py"));
    assert!(!p.contains("__orch_down"));
}

#[test]
fn test_generate_service_plist__teardown_delegates_to_supervisor() {
    // Container services carry stop+post_stop; launchd has no ExecStop, so the
    // plist delegates to `orchd supervise` (teardown handled in the supervisor).
    let cfg = test_config();
    let svc = simple_host_service("postgres", "container run --name orch-postgres pg:15");
    let exec = ExecSet {
        start: "container run --name orch-postgres pg:15".to_string(),
        pre_start: Some("container image pull pg:15".to_string()),
        stop: Some("container stop orch-postgres".to_string()),
        post_stop: Some("container delete --force orch-postgres".to_string()),
    };
    let p = generate_service_plist(&svc, &exec, &cfg, &host());

    // ProgramArguments delegates to the supervisor with this service's spec.
    assert!(p.contains("<string>supervise</string>"));
    assert!(p.contains("<string>--spec</string>"));
    assert!(p.contains("orch.postgres.json"));
    // There is no bash trap wrapper: supervision is a real process.
    assert!(!p.contains("__orch_down"));
    assert!(!p.contains("trap "));
}

#[test]
fn test_generate_service_plist__process_type_interactive() {
    // Without ProcessType, launchd throttles CPU/IO. We always set Interactive.
    let cfg = test_config();
    let svc = simple_host_service("web", "server");
    let exec = simple_exec_set("server");
    let p = generate_service_plist(&svc, &exec, &cfg, &host());

    assert!(p.contains("<key>ProcessType</key>"));
    assert!(p.contains("<string>Interactive</string>"));
}

#[test]
fn test_generate_service_plist__container_default_exit_timeout() {
    // Teardown present, no explicit TIMEOUT_STOP → generous default (30s)
    // so container stop+delete finishes before launchd SIGKILLs the wrapper.
    let cfg = test_config();
    let svc = simple_host_service("pg", "container run --name orch-pg pg:15");
    let exec = ExecSet {
        start: "container run --name orch-pg pg:15".to_string(),
        pre_start: None,
        stop: Some("container stop orch-pg".to_string()),
        post_stop: Some("container delete --force orch-pg".to_string()),
    };
    let p = generate_service_plist(&svc, &exec, &cfg, &host());

    assert!(p.contains("<key>ExitTimeOut</key>"));
    assert!(p.contains("<integer>30</integer>"));
}

#[test]
fn test_generate_service_plist__explicit_timeout_stop_wins() {
    let cfg = test_config();
    let mut svc = simple_host_service("pg", "x");
    svc.timeouts.stop = Some("45s".to_string());
    let exec = ExecSet {
        start: "x".to_string(),
        pre_start: None,
        stop: Some("container stop orch-pg".to_string()),
        post_stop: None,
    };
    let p = generate_service_plist(&svc, &exec, &cfg, &host());

    assert!(p.contains("<integer>45</integer>"));
    assert!(!p.contains("<integer>30</integer>"));
}

#[test]
fn test_generate_service_plist__no_exit_timeout_for_plain_host() {
    // Host service, no teardown, no TIMEOUT_STOP → no ExitTimeOut emitted.
    let cfg = test_config();
    let svc = simple_host_service("web", "server");
    let exec = simple_exec_set("server");
    let p = generate_service_plist(&svc, &exec, &cfg, &host());

    assert!(!p.contains("<key>ExitTimeOut</key>"));
}

#[test]
fn test_build_dep_gates__requires_and_after() {
    let mut pg = simple_host_service("postgres", "postgres");
    pg.healthcheck = Some("pg_isready -h localhost".to_string());
    pg.readiness_timeout = Some("60s".to_string());

    let mut ls = simple_host_service("localstack", "localstack");
    ls.healthcheck = Some("http://localhost:4566/health".to_string());

    let nohc = simple_host_service("redis", "redis-server"); // no healthcheck → no gate

    let mut app = simple_host_service("app", "app");
    app.requires = vec!["postgres".to_string(), "redis".to_string()];
    app.after = vec!["localstack".to_string()];

    let all = vec![pg, ls, nohc, app.clone()];
    let gates = build_dep_gates(&test_config(), &app, &all);

    // postgres (required, command HC, 60s) + localstack (after, http→curl) ; redis skipped
    assert_eq!(gates.len(), 2);
    let pg_gate = &gates[0];
    assert!(pg_gate.required);
    assert_eq!(pg_gate.poll_cmd, "pg_isready -h localhost");
    assert_eq!(pg_gate.timeout_secs, 60);
    let ls_gate = &gates[1];
    assert!(!ls_gate.required);
    assert_eq!(ls_gate.poll_cmd, "curl -sf 'http://localhost:4566/health'");
    assert_eq!(ls_gate.timeout_secs, 90); // default
}

#[test]
fn test_generate_service_plist_with_deps__delegates_to_supervisor() {
    // A service with dependencies delegates to the supervisor (which runs the
    // readiness polls), not an inline bash prologue.
    let cfg = test_config();
    let svc = simple_host_service("app", "app run");
    let exec = simple_exec_set("app run");
    let deps = vec![
        DepGate { poll_cmd: "pg_isready".to_string(), timeout_secs: 60, required: true },
        DepGate { poll_cmd: "curl -sf 'http://x/health'".to_string(), timeout_secs: 90, required: false },
    ];
    let p = generate_service_plist_with_deps(&svc, &exec, &cfg, &host(), &deps);

    assert!(p.contains("<string>supervise</string>"));
    assert!(p.contains("orch.app.json"));
    assert!(!p.contains("__orch_wait")); // no inline bash poll loop
}

#[test]
fn test_build_supervise_spec__carries_execset_and_deps() {
    let cfg = test_config();
    let svc = simple_host_service("pg", "container run --name orch-pg pg:15");
    let exec = ExecSet {
        start: "container run --name orch-pg pg:15".to_string(),
        pre_start: Some("container image pull pg:15".to_string()),
        stop: Some("container stop orch-pg".to_string()),
        post_stop: Some("container delete --force orch-pg".to_string()),
    };
    let deps = vec![DepGate {
        poll_cmd: "pg_isready".to_string(),
        timeout_secs: 60,
        required: true,
    }];
    let spec = build_supervise_spec(&svc, &exec, &cfg, &deps);

    assert_eq!(spec.label, "orch.pg");
    assert_eq!(spec.pre_start.as_deref(), Some("container image pull pg:15"));
    assert_eq!(spec.stop.as_deref(), Some("container stop orch-pg"));
    assert_eq!(spec.post_stop.as_deref(), Some("container delete --force orch-pg"));
    assert_eq!(spec.deps.len(), 1);
    assert!(spec.deps[0].required);
    assert_eq!(spec.stop_timeout_secs, 30); // container default
}

#[test]
fn test_generate_service_plist__exit_timeout() {
    let cfg = test_config();
    let mut svc = simple_host_service("slow", "x");
    svc.timeouts.stop = Some("30s".to_string());
    let exec = simple_exec_set("x");
    let p = generate_service_plist(&svc, &exec, &cfg, &host());

    assert!(p.contains("<key>ExitTimeOut</key>"));
    assert!(p.contains("<integer>30</integer>"));
}

#[test]
fn test_service_label__format() {
    let cfg = test_config();
    assert_eq!(service_label(&cfg, "web"), "orch.web");
}

#[test]
fn test_plist_filename__format() {
    let cfg = test_config();
    assert_eq!(plist_filename(&cfg, "web"), "orch.web.plist");
}

#[test]
fn test_parse_duration_secs__variants() {
    assert_eq!(parse_duration_secs("5s"), Some(5));
    assert_eq!(parse_duration_secs("2m"), Some(120));
    assert_eq!(parse_duration_secs("45"), Some(45));
    assert_eq!(parse_duration_secs("bad"), None);
}

#[test]
fn test_xml_escape__special_chars() {
    assert_eq!(xml_escape("a & b"), "a &amp; b");
    assert_eq!(xml_escape("<x>"), "&lt;x&gt;");
    assert_eq!(xml_escape("\"x\""), "&quot;x&quot;");
    assert_eq!(xml_escape("'x'"), "&apos;x&apos;");
}

