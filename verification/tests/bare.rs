#![allow(non_snake_case)]

use orchd::collections::StringMap;
use orchd::runtime::bare::BareRuntime;
use orchd::runtime::{Preparation, RuntimeError};
use orchd::types::{
    LogConfig, RecreatePolicy, ResourceLimits, RestartConfig, Service, ServiceMode, TimeoutConfig,
};

fn host_service(name: &str, run_command: &str) -> Service {
    Service {
        name: name.to_string(),
        mode: ServiceMode::Host,
        image: None,
        run_command: Some(run_command.to_string()),
        entrypoint: None,
        cmd: None,
        publish: Vec::new(),
        volumes: Vec::new(),
        user: None,
        stop_command: None,
        reload_command: None,
        workdir: None,
        env: StringMap::new(),
        env_files: Vec::new(),
        requires: Vec::new(),
        after: Vec::new(),
        healthcheck: None,
        readiness_timeout: None,
        oneshot: false,
        disabled: false,
        recreate: RecreatePolicy::default(),
        restart: RestartConfig::default(),
        timeouts: TimeoutConfig::default(),
        resources: ResourceLimits::default(),
        logging: LogConfig::default(),
    }
}

fn container_service(name: &str, image: &str) -> Service {
    let mut svc = host_service(name, "");
    svc.mode = ServiceMode::Container;
    svc.image = Some(image.to_string());
    svc.run_command = None;
    svc
}

#[test]
fn test_exec_set__host_service_returns_start_command() {
    let rt = BareRuntime::new("/tmp/orchd-test-data".to_string());
    let svc = host_service("django", "/usr/bin/python manage.py runserver 0.0.0.0:9090");

    let exec = rt.exec_set(&svc).unwrap();
    assert_eq!(exec.start, "/usr/bin/python manage.py runserver 0.0.0.0:9090");
    assert!(exec.pre_start.is_none());
    assert!(exec.stop.is_none());
    assert!(exec.post_stop.is_none());
}

#[test]
fn test_exec_set__host_service_includes_stop_command() {
    let rt = BareRuntime::new("/tmp/orchd-test-data".to_string());
    let mut svc = host_service("nginx", "nginx -g 'daemon off;'");
    svc.stop_command = Some("nginx -s quit".to_string());

    let exec = rt.exec_set(&svc).unwrap();
    assert_eq!(exec.start, "nginx -g 'daemon off;'");
    assert_eq!(exec.stop.as_deref(), Some("nginx -s quit"));
}

#[test]
fn test_exec_set__container_service_rejected() {
    let rt = BareRuntime::new("/tmp/orchd-test-data".to_string());
    let svc = container_service("postgres", "pgvector/pgvector:pg15");

    let err = rt.exec_set(&svc).unwrap_err();
    match err {
        RuntimeError::UnsupportedMode { service, mode } => {
            assert_eq!(service, "postgres");
            assert!(mode.contains("pgvector/pgvector:pg15"));
        }
        other => panic!("expected UnsupportedMode, got: {:?}", other),
    }
}

#[test]
fn test_exec_set__host_service_without_run_command_errors() {
    let rt = BareRuntime::new("/tmp/orchd-test-data".to_string());
    let mut svc = host_service("broken", "placeholder");
    svc.run_command = None;

    let err = rt.exec_set(&svc).unwrap_err();
    let msg = err.message();
    assert!(msg.contains("no RUN command"), "got: {}", msg);
}

#[test]
fn test_check__always_succeeds() {
    let rt = BareRuntime::new("/tmp/orchd-test-data".to_string());
    assert!(rt.check().is_ok());
}

#[test]
fn test_name__returns_bare() {
    let rt = BareRuntime::new("/tmp/orchd-test-data".to_string());
    assert_eq!(rt.name(), "bare");
}

#[test]
fn test_cleanup__is_noop() {
    let rt = BareRuntime::new("/tmp/orchd-test-data".to_string());
    let svc = host_service("redis", "redis-server");
    assert!(rt.cleanup(&svc).is_ok());
}

#[test]
fn test_prepare__creates_service_data_directory() {
    let rt = BareRuntime::new("/tmp/orchd-test-bare-prepare".to_string());
    let svc = host_service("postgres", "postgres -p 5433");

    match rt.prepare(&svc) {
        Preparation::Directory { path } => {
            assert_eq!(path, "/tmp/orchd-test-bare-prepare/postgres");
        }
        other => panic!("expected Directory, got: {:?}", other),
    }
}
