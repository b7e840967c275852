#![allow(non_snake_case)]

use orchd::collections::StringMap;
use orchd::types::{
    LogConfig, OrchFile, RecreatePolicy, ResourceLimits, RestartConfig, RestartPolicy, Service,
    ServiceMode, TimeoutConfig,
};

fn simple_host_service(name: &str, run_cmd: &str) -> Service {
    Service {
        name: name.to_string(),
        mode: ServiceMode::Host,
        image: None,
        run_command: Some(run_cmd.to_string()),
        entrypoint: None,
        cmd: None,
        publish: Vec::new(),
        volumes: Vec::new(),
        user: None,
        stop_command: None,
        reload_command: None,
        workdir: None,
        env: StringMap::new(),
        env_files: Vec::new(),
        requires: Vec::new(),
        after: Vec::new(),
        healthcheck: None,
        readiness_timeout: None,
        oneshot: false,
        disabled: false,
        recreate: RecreatePolicy::default(),
        restart: RestartConfig::default(),
        timeouts: TimeoutConfig::default(),
        resources: ResourceLimits::default(),
        logging: LogConfig::default(),
    }
}

fn minimal() -> OrchFile {
    OrchFile {
        version: "0.2.0".to_string(),
        args: StringMap::new(),
        services: vec![simple_host_service("web", "/usr/bin/nginx")],
    }
}

fn full() -> OrchFile {
    let mut api = simple_host_service("api", "");
    api.mode = ServiceMode::Container;
    api.image = Some("myapp:latest".to_string());
    api.run_command = None;
    OrchFile { version: "0.2.0".to_string(), args: StringMap::new(), services: vec![api] }
}

#[test]
fn test_is_host__returns_true_for_host_mode() {
    let orchfile = minimal();
    assert!(orchfile.services[0].is_host());
    assert!(!orchfile.services[0].is_container());
}

#[test]
fn test_is_container__returns_true_for_container_mode() {
    let orchfile = full();
    assert!(orchfile.services[0].is_container());
    assert!(!orchfile.services[0].is_host());
}

#[test]
fn defaults_are_the_mildest() {
    assert_eq!(RestartPolicy::default(), RestartPolicy::No);
    assert_eq!(RecreatePolicy::default(), RecreatePolicy::Never);
    assert_eq!(RestartConfig::default().policy, RestartPolicy::No);
    assert!(TimeoutConfig::default().stop.is_none());
    assert!(LogConfig::default().stdout.is_none());
    assert!(ResourceLimits::default().cpus.is_none());
}

#[test]
fn a_clone_has_everything() {
    let mut svc = simple_host_service("web", "w");
    svc.env.insert("A".to_string(), "1".to_string());
    svc.env_files = vec!["f".to_string()];
    svc.requires = vec!["r".to_string()];
    svc.after = vec!["a".to_string()];
    svc.resources.memory = Some("1G".to_string());
    svc.restart.delay = Some("5s".to_string());
    let c = svc.clone();
    assert_eq!(c.name, "web");
    assert_eq!(c.env.get("A").unwrap(), "1");
    assert_eq!(c.env_files, vec!["f"]);
    assert_eq!(c.requires, vec!["r"]);
    assert_eq!(c.after, vec!["a"]);
    assert_eq!(c.resources.memory.as_deref(), Some("1G"));
    assert_eq!(c.restart.delay.as_deref(), Some("5s"));
}
