#![allow(non_snake_case)]

use orchd::collections::{StringMap, StringSet};
use orchd::config::{Config, Scope};
use orchd::exec::ExecSet;
use orchd::platform::systemd::generate::{
    generate_ready_gate, generate_service_unit, generate_target, services_needing_ready_gates,
    services_with_ready_gates,
};
use orchd::platform::systemd::unit::escape_bash;
use orchd::types::{
    CpuCount, LogConfig, RecreatePolicy, ResourceLimits, RestartConfig, RestartPolicy, Service,
    ServiceMode, TimeoutConfig,
};

fn test_config() -> Config {
    Config {
        orchfile: "/test/Orchfile".to_string(),
        overlays: Vec::new(),
        runtime: "bare".to_string(),
        platform: "systemd".to_string(),
        scope: Scope::System,
        state_dir: "/test/.orch".to_string(),
        project_dir: "/test/project".to_string(),
        data_dir: "/test/.orch/data".to_string(),
        orch_bin: "orch".to_string(),
        namespace: "orch".to_string(),
        args: Vec::new(),
        verbose: false,
        quiet: false,
    }
}

fn cpus(percent: u32, whole: Option<u64>, text: &str) -> CpuCount {
    CpuCount { percent, whole, text: text.to_string() }
}

fn simple_host_service(name: &str, run_cmd: &str) -> Service {
    Service {
        name: name.to_string(),
        mode: ServiceMode::Host,
        image: None,
        run_command: Some(run_cmd.to_string()),
        entrypoint: None,
        cmd: None,
        publish: Vec::new(),
        volumes: Vec::new(),
        user: None,
        stop_command: None,
        reload_command: None,
        workdir: None,
        env: StringMap::new(),
        env_files: Vec::new(),
        requires: Vec::new(),
        after: Vec::new(),
        healthcheck: None,
        readiness_timeout: None,
        oneshot: false,
        disabled: false,
        recreate: RecreatePolicy::default(),
        restart: RestartConfig::default(),
        timeouts: TimeoutConfig::default(),
        resources: ResourceLimits::default(),
        logging: LogConfig::default(),
    }
}

fn simple_exec_set(start: &str) -> ExecSet {
    ExecSet { start: start.to_string(), pre_start: None, stop: None, post_stop: None }
}

#[test]
fn test_generate_service_unit__basic_host_service() {
    let config = test_config();
    let svc = simple_host_service("django", "python manage.py runserver 0.0.0.0:9090");
    let exec = simple_exec_set("python manage.py runserver 0.0.0.0:9090");
    let gates = StringSet::new();

    let unit = generate_service_unit(&svc, &exec, &config, &gates);

    assert!(unit.contains("[Unit]"));
    assert!(unit.contains("Description=orch: django"));
    assert!(unit.contains("PartOf=orch.target"));
    assert!(unit.contains("[Service]"));
    assert!(unit.contains("Type=simple"));
    assert!(unit.contains("ExecStart=/bin/bash -c 'python manage.py runserver 0.0.0.0:9090'"));
    assert!(unit.contains("Restart=no"));
    assert!(unit.contains("[Install]"));
    assert!(unit.contains("WantedBy=orch.target"));
}

#[test]
fn test_generate_service_unit__oneshot() {
    let config = test_config();
    let mut svc = simple_host_service("migrate", "python manage.py migrate");
    svc.oneshot = true;
    let exec = simple_exec_set("python manage.py migrate");
    let gates = StringSet::new();

    let unit = generate_service_unit(&svc, &exec, &config, &gates);

    assert!(unit.contains("Type=oneshot"));
    assert!(unit.contains("RemainAfterExit=yes"));
    assert!(!unit.contains("Restart="));
}

#[test]
fn test_generate_service_unit__with_environment() {
    let config = test_config();
    let mut svc = simple_host_service("webapp", "python manage.py runserver");
    svc.env.insert("DJANGO_SETTINGS_MODULE".to_string(), "myapp.settings.dev".to_string());
    svc.env.insert("DEBUG".to_string(), "true".to_string());
    let exec = simple_exec_set("python manage.py runserver");
    let gates = StringSet::new();

    let unit = generate_service_unit(&svc, &exec, &config, &gates);

    assert!(unit.contains("Environment=\"DEBUG=true\""));
    assert!(unit.contains("Environment=\"DJANGO_SETTINGS_MODULE=myapp.settings.dev\""));
}

#[test]
fn test_generate_service_unit__with_restart_on_failure() {
    let config = test_config();
    let mut svc = simple_host_service("worker", "celery -A myapp worker");
    svc.restart = RestartConfig {
        policy: RestartPolicy::OnFailure,
        delay: Some("5s".to_string()),
        start_limit_burst: Some(3),
        start_limit_interval: Some("60s".to_string()),
    };
    let exec = simple_exec_set("celery -A myapp worker");
    let gates = StringSet::new();

    let unit = generate_service_unit(&svc, &exec, &config, &gates);

    assert!(unit.contains("Restart=on-failure"));
    assert!(unit.contains("RestartSec=5s"));
    assert!(unit.contains("StartLimitBurst=3"));
    assert!(unit.contains("StartLimitIntervalSec=60s"));
}

#[test]
fn test_generate_service_unit__with_resources() {
    let config = test_config();
    let mut svc = simple_host_service("postgres", "postgres -p 5433");
    svc.resources = ResourceLimits {
        memory: Some("4G".to_string()),
        cpus: Some(cpus(200, Some(2), "2")),
        cpu_quota: None,
        limit_nofile: Some(65536),
        limit_nproc: None,
        tasks_max: None,
        io_weight: None,
    };
    let exec = simple_exec_set("postgres -p 5433");
    let gates = StringSet::new();

    let unit = generate_service_unit(&svc, &exec, &config, &gates);

    assert!(unit.contains("MemoryMax=4G"));
    assert!(unit.contains("CPUQuota=200%"));
    assert!(unit.contains("LimitNOFILE=65536"));
}

#[test]
fn test_generate_service_unit__cpu_quota_overrides_cpus() {
    let config = test_config();
    let mut svc = simple_host_service("app", "app run");
    svc.resources = ResourceLimits {
        cpus: Some(cpus(200, Some(2), "2")),
        cpu_quota: Some("150%".to_string()),
        ..ResourceLimits::default()
    };
    let exec = simple_exec_set("app run");
    let gates = StringSet::new();

    let unit = generate_service_unit(&svc, &exec, &config, &gates);

    assert!(unit.contains("CPUQuota=150%"));
    assert!(!unit.contains("CPUQuota=200%"));
}

#[test]
fn test_generate_service_unit__with_dependencies() {
    let config = test_config();
    let mut svc = simple_host_service("django", "python manage.py runserver");
    svc.requires = vec!["postgres".to_string(), "redis".to_string()];
    svc.after = vec!["localstack".to_string()];
    let exec = simple_exec_set("python manage.py runserver");

    let mut gates = StringSet::new();
    gates.insert("postgres".to_string());

    let unit = generate_service_unit(&svc, &exec, &config, &gates);

    assert!(unit.contains("BindsTo=orch-postgres.service orch-redis.service"));
    assert!(unit.contains("orch-postgres-ready.service"));
    assert!(unit.contains("orch-redis.service"));
    assert!(unit.contains("orch-localstack.service"));
}

#[test]
fn test_generate_service_unit__with_workdir() {
    let config = test_config();
    let mut svc = simple_host_service("app", "python run.py");
    svc.workdir = Some("backend".to_string());
    let exec = simple_exec_set("python run.py");
    let gates = StringSet::new();

    let unit = generate_service_unit(&svc, &exec, &config, &gates);

    assert!(unit.contains("WorkingDirectory=/test/project/backend"));
}

#[test]
fn test_generate_service_unit__with_user() {
    let config = test_config();
    let mut svc = simple_host_service("postgres", "postgres -p 5433");
    svc.user = Some("postgres".to_string());
    let exec = simple_exec_set("postgres -p 5433");
    let gates = StringSet::new();

    let unit = generate_service_unit(&svc, &exec, &config, &gates);

    assert!(unit.contains("User=postgres"));
}

#[test]
fn test_generate_service_unit__with_exec_set_stop() {
    let config = test_config();
    let svc = simple_host_service("nginx", "nginx -g 'daemon off;'");
    let exec = ExecSet {
        start: "nginx -g 'daemon off;'".to_string(),
        pre_start: Some("nginx -t".to_string()),
        stop: Some("nginx -s quit".to_string()),
        post_stop: Some("rm /run/nginx.pid".to_string()),
    };
    let gates = StringSet::new();

    let unit = generate_service_unit(&svc, &exec, &config, &gates);

    assert!(unit.contains("ExecStartPre=/bin/bash -c 'nginx -t'"));
    assert!(unit.contains("ExecStart=/bin/bash -c 'nginx -g '\\''daemon off;'\\'''"));
    assert!(unit.contains("ExecStop=/bin/bash -c 'nginx -s quit'"));
    assert!(unit.contains("ExecStopPost=/bin/bash -c 'rm /run/nginx.pid'"));
}

#[test]
fn reloading_runs_the_reload_command() {
    let config = test_config();
    let mut svc = simple_host_service("nginx", "nginx");
    let exec = ExecSet {
        start: "nginx".to_string(),
        pre_start: None,
        stop: Some("nginx -s quit".to_string()),
        post_stop: None,
    };
    let gates = StringSet::new();
    assert!(!generate_service_unit(&svc, &exec, &config, &gates).contains("ExecReload="));
    svc.reload_command = Some("nginx -s reload".to_string());
    let unit = generate_service_unit(&svc, &exec, &config, &gates);
    assert!(unit.contains(
        "ExecStop=/bin/bash -c 'nginx -s quit'\nExecReload=/bin/bash -c 'nginx -s reload'\n"
    ));
}

#[test]
fn test_generate_ready_gate__basic() {
    let config = test_config();
    let mut svc = simple_host_service("postgres", "postgres -p 5433");
    svc.healthcheck = Some("pg_isready -h localhost -p 5433".to_string());
    svc.readiness_timeout = Some("60s".to_string());

    let unit = generate_ready_gate(&svc, &config);

    assert!(unit.contains("Description=orch: wait for postgres health"));
    assert!(unit.contains("After=orch-postgres.service"));
    assert!(unit.contains("BindsTo=orch-postgres.service"));
    assert!(unit.contains("Type=oneshot"));
    assert!(unit.contains("RemainAfterExit=yes"));
    assert!(unit.contains("until pg_isready -h localhost -p 5433 >/dev/null 2>&1; do sleep 2; done; exit 0"));
    assert!(unit.contains("TimeoutStartSec=60s"));
}

#[test]
fn test_generate_ready_gate__http_converted_to_curl() {
    let config = test_config();
    let mut svc = simple_host_service("web", "web");
    svc.healthcheck = Some("http://localhost:8000/health".to_string());

    let unit = generate_ready_gate(&svc, &config);

    assert!(unit.contains("curl -sf"));
    assert!(unit.contains("http://localhost:8000/health"));
    assert!(!unit.contains("http://localhost:8000/health; do"));
}

#[test]
fn test_generate_ready_gate__default_timeout() {
    let config = test_config();
    let mut svc = simple_host_service("redis", "redis-server");
    svc.healthcheck = Some("redis-cli ping".to_string());

    let unit = generate_ready_gate(&svc, &config);

    assert!(unit.contains("TimeoutStartSec=90s"));
}

#[test]
fn test_generate_ready_gate__proceeds_on_timeout() {
    let config = test_config();
    let mut svc = simple_host_service("db", "db");
    svc.healthcheck = Some("pg_isready".to_string());

    let unit = generate_ready_gate(&svc, &config);

    assert!(unit.contains("done; exit 0"));
}

#[test]
fn test_generate_target() {
    let config = test_config();
    let unit = generate_target(&config);

    assert!(unit.contains("Description=orch managed services"));
    assert!(unit.contains("WantedBy=multi-user.target"));
}

#[test]
fn test_services_needing_ready_gates__basic() {
    let mut postgres = simple_host_service("postgres", "postgres -p 5433");
    postgres.healthcheck = Some("pg_isready".to_string());

    let mut redis = simple_host_service("redis", "redis-server");
    redis.healthcheck = Some("redis-cli ping".to_string());

    let mut django = simple_host_service("django", "python manage.py runserver");
    django.requires = vec!["postgres".to_string()];

    let services = vec![postgres, redis, django];
    let gates = services_needing_ready_gates(&services);

    assert!(gates.contains("postgres"));
    assert!(!gates.contains("redis"));
    assert!(!gates.contains("django"));
}

#[test]
fn test_services_needing_ready_gates__after_dep() {
    let mut localstack = simple_host_service("localstack", "localstack start");
    localstack.healthcheck = Some("curl -sf http://localhost:4566".to_string());

    let mut celery = simple_host_service("celery", "celery worker");
    celery.after = vec!["localstack".to_string()];

    let services = vec![localstack, celery];
    let gates = services_needing_ready_gates(&services);

    assert!(gates.contains("localstack"));
}

#[test]
fn test_services_needing_ready_gates__requires_no_healthcheck_gets_gate() {
    let postgres = simple_host_service("postgres", "postgres -p 5433");

    let mut django = simple_host_service("django", "python manage.py runserver");
    django.requires = vec!["postgres".to_string()];

    let services = vec![postgres, django];
    let gates = services_needing_ready_gates(&services);

    assert!(gates.contains("postgres"));
}

#[test]
fn test_services_needing_ready_gates__disabled_deps_ignored() {
    let mut postgres = simple_host_service("postgres", "postgres -p 5433");
    postgres.healthcheck = Some("pg_isready".to_string());

    let mut django = simple_host_service("django", "python manage.py runserver");
    django.requires = vec!["postgres".to_string()];
    django.disabled = true; // disabled service's deps don't count

    let services = vec![postgres, django];
    let gates = services_needing_ready_gates(&services);

    assert!(gates.is_empty());
}

#[test]
fn test_escape_bash__single_quotes() {
    let result = escape_bash("echo 'hello world'");
    assert_eq!(result, "echo '\\''hello world'\\''");
}

#[test]
fn test_escape_bash__no_special_chars() {
    let result = escape_bash("python manage.py runserver");
    assert_eq!(result, "python manage.py runserver");
}

#[test]
fn test_generate_service_unit__with_env_files() {
    let config = test_config();
    let mut svc = simple_host_service("app", "python run.py");
    svc.env_files = vec![".env.local".to_string(), "/etc/app/env".to_string()];
    let exec = simple_exec_set("python run.py");
    let gates = StringSet::new();

    let unit = generate_service_unit(&svc, &exec, &config, &gates);

    assert!(unit.contains("EnvironmentFile=/test/project/.env.local"));
    assert!(unit.contains("EnvironmentFile=/etc/app/env"));
}

#[test]
fn test_generate_service_unit__with_timeouts() {
    let config = test_config();
    let mut svc = simple_host_service("slow", "slow-start");
    svc.timeouts = TimeoutConfig {
        start: Some("300s".to_string()),
        stop: Some("30s".to_string()),
    };
    let exec = simple_exec_set("slow-start");
    let gates = StringSet::new();

    let unit = generate_service_unit(&svc, &exec, &config, &gates);

    assert!(unit.contains("TimeoutStartSec=300s"));
    assert!(unit.contains("TimeoutStopSec=30s"));
}

#[test]
fn test_generate_service_unit__with_logging() {
    let config = test_config();
    let mut svc = simple_host_service("app", "app run");
    svc.logging = LogConfig {
        stdout: Some("/var/log/app/stdout.log".to_string()),
        stderr: Some("/var/log/app/stderr.log".to_string()),
    };
    let exec = simple_exec_set("app run");
    let gates = StringSet::new();

    let unit = generate_service_unit(&svc, &exec, &config, &gates);

    assert!(unit.contains("StandardOutput=file:/var/log/app/stdout.log"));
    assert!(unit.contains("StandardError=file:/var/log/app/stderr.log"));
}


#[test]
fn ready_gates_are_generated_where_there_is_a_healthcheck() {
    let mut postgres = simple_host_service("postgres", "postgres");
    postgres.healthcheck = Some("pg_isready".to_string());
    let redis = simple_host_service("redis", "redis-server");
    let mut web = simple_host_service("web", "w");
    web.requires = vec!["postgres".to_string(), "redis".to_string()];
    web.healthcheck = Some("ok".to_string());
    let services = vec![postgres, redis, web];

    let needed = services_needing_ready_gates(&services);
    assert!(needed.contains("postgres"));
    assert!(needed.contains("redis"));
    assert!(!needed.contains("web"));

    let generated = services_with_ready_gates(&services);
    assert!(generated.contains("postgres"));
    assert!(!generated.contains("redis"));
    assert!(!generated.contains("web"));
}
