#![allow(non_snake_case)]

use orchd::collections::StringMap;
use orchd::config::{Config, Scope};
use orchd::platform::launchd::lifecycle as launchd;
use orchd::platform::launchd::lifecycle::StartPhase;
use orchd::platform::launchd::{install_dir, plist_dest_path, LaunchdPlatform};
use orchd::platform::orchdi::lifecycle as supervisors;
use orchd::platform::orchdi::OrchdiPlatform;
use orchd::platform::status::{render_status, status_json, status_table, ServiceStatus};
use orchd::platform::systemd::lifecycle as systemd;
use orchd::platform::systemd::SystemdPlatform;
use orchd::platform::{cannot_read_units, Host, Outcome, Removal};

fn test_config(scope: Scope) -> Config {
    Config {
        orchfile: "/test/Orchfile".to_string(),
        overlays: Vec::new(),
        runtime: "bare".to_string(),
        platform: "launchd".to_string(),
        scope,
        state_dir: "/test/.orch".to_string(),
        project_dir: "/test/project".to_string(),
        data_dir: "/test/.orch/data".to_string(),
        orch_bin: "orch".to_string(),
        namespace: "orch".to_string(),
        args: Vec::new(),
        verbose: false,
        quiet: false,
    }
}

fn host() -> Host {
    Host {
        home: Some("/Users/test".to_string()),
        exe: Some("/bin/orchd".to_string()),
        files: StringMap::new(),
    }
}

fn nowhere() -> Host {
    Host { home: None, exe: None, files: StringMap::new() }
}

fn names(list: &[&str]) -> Vec<String> {
    list.iter().map(|s| s.to_string()).collect()
}

fn ended(success: bool, stdout: &str, stderr: &str) -> Outcome {
    Outcome::Ended {
        success,
        code: Some(if success { 0 } else { 4 }),
        stdout: stdout.to_string(),
        stderr: stderr.to_string(),
    }
}

fn not_run() -> Outcome {
    Outcome::NotRun("gone".to_string())
}

#[test]
fn test_install_dir__system() {
    let cfg = test_config(Scope::System);
    assert_eq!(install_dir(&cfg, &host()), "/Library/LaunchDaemons");
}

#[test]
fn test_install_dir__user_uses_home() {
    let cfg = test_config(Scope::User);
    assert_eq!(install_dir(&cfg, &host()), "/Users/test/Library/LaunchAgents");
    assert_eq!(install_dir(&cfg, &nowhere()), "./Library/LaunchAgents");
}

#[test]
fn test_plist_dest_path__joins_install_dir() {
    let cfg = test_config(Scope::User);
    let p = plist_dest_path(&cfg, &host(), "orch.web");
    assert_eq!(p, "/Users/test/Library/LaunchAgents/orch.web.plist");
}

#[test]
fn launchd_is_checked_and_installed() {
    let platform = LaunchdPlatform::new();
    assert!(platform.check(&ended(true, "", "")).is_ok());
    assert!(platform.check(&ended(false, "", "usage")).is_ok());
    assert!(platform.check(&ended(false, "usage", "")).is_ok());
    let text = "prerequisite missing: launchctl not found on PATH";
    assert_eq!(platform.check(&ended(false, "", "")).unwrap_err().message(), text);
    assert_eq!(platform.check(&not_run()).unwrap_err().message(), text);
    let files = names(&["orch.web.plist", "orch.web.service", "plist", ".plist"]);
    let copies = platform.install(&files, &test_config(Scope::System), &host());
    assert_eq!(copies.len(), 1);
    assert_eq!(copies[0].from, "/test/.orch/units/orch.web.plist");
    assert_eq!(copies[0].to, "/Library/LaunchDaemons/orch.web.plist");
}

#[test]
fn launchd_labels_are_named_or_discovered() {
    let cfg = test_config(Scope::User);
    let installed =
        names(&["orch.a.plist", "com.apple.plist", "orch.b.txt", "orch.c.plist.plist"]);
    assert_eq!(launchd::labels_for(&names(&["web"]), &installed, &cfg), vec!["orch.web"]);
    assert_eq!(launchd::labels_for(&names(&[]), &installed, &cfg), vec!["orch.a", "orch.c"]);
}

#[test]
fn launchd_starts_by_bootstrap_or_kickstart() {
    let cfg = test_config(Scope::User);
    let labels = names(&["orch.a", "orch.b"]);
    let p = launchd::start(&labels);
    assert_eq!(p, StartPhase::Bootstrap { next: 0 });
    let call = launchd::start_call(&labels, p, &cfg, &host(), "501").unwrap();
    assert_eq!(call.program, "launchctl");
    assert_eq!(
        call.args,
        vec!["bootstrap", "gui/501", "/Users/test/Library/LaunchAgents/orch.a.plist"]
    );
    let p = launchd::start_step(&labels, p, &ended(true, "", ""), &cfg, "501").unwrap();
    assert_eq!(p, StartPhase::Bootstrap { next: 1 });
    let p = launchd::start_step(&labels, p, &not_run(), &cfg, "501").unwrap();
    assert_eq!(p, StartPhase::Kickstart { next: 1 });
    let call = launchd::start_call(&labels, p, &cfg, &host(), "501").unwrap();
    assert_eq!(call.args, vec!["kickstart", "-k", "gui/501/orch.b"]);
    let bad = launchd::start_step(&labels, p, &ended(false, "", ""), &cfg, "501");
    assert_eq!(
        bad.unwrap_err().message(),
        "lifecycle failed: launchctl kickstart gui/501/orch.b failed"
    );
    let bad = launchd::start_step(&labels, p, &not_run(), &cfg, "501");
    assert_eq!(bad.unwrap_err().message(), "lifecycle failed: launchctl kickstart: gone");
    let p = launchd::start_step(&labels, p, &ended(true, "", ""), &cfg, "501").unwrap();
    assert_eq!(p, StartPhase::Started);
    assert!(launchd::start_call(&labels, p, &cfg, &host(), "501").is_none());
    assert_eq!(launchd::start(&names(&[])), StartPhase::Started);
}

#[test]
fn launchd_restart_unloads_and_starts() {
    let cfg = test_config(Scope::System);
    let labels = names(&["orch.a"]);
    let (stops, phase) = launchd::restart(&labels, &cfg, &host(), "0");
    assert_eq!(stops.len(), 1);
    assert_eq!(
        stops[0].args,
        vec!["bootout", "system", "/Library/LaunchDaemons/orch.a.plist"]
    );
    assert_eq!(phase, StartPhase::Bootstrap { next: 0 });
}

#[test]
fn launchd_states_are_read() {
    let cfg = test_config(Scope::User);
    assert_eq!(launchd::current_uid(&ended(true, "501\n", "")), "501");
    assert_eq!(launchd::current_uid(&ended(false, "501\n", "")), "0");
    assert_eq!(launchd::current_uid(&not_run()), "0");
    assert_eq!(
        launchd::job_of("orch.web.plist", &cfg),
        Some(("orch.web".to_string(), "web".to_string()))
    );
    assert_eq!(launchd::job_of("web.plist", &cfg), None);
    assert_eq!(launchd::query("orch.web", &cfg, "501").args, vec!["print", "gui/501/orch.web"]);
    let answer = "x = {\n\tstate = running,\n\tpid = 42,\n\tlast exit code = 0\n}";
    let s = launchd::job_status("web", &ended(true, answer, ""));
    assert_eq!(
        (s.name.as_str(), s.active_state.as_str(), s.sub_state.as_str(), s.pid),
        ("web", "active", "running", Some(42))
    );
    let s = launchd::job_status("web", &ended(true, "state = waiting\npid = 0", ""));
    assert_eq!((s.active_state.as_str(), s.sub_state.as_str(), s.pid), ("inactive", "waiting", None));
    let s = launchd::job_status("web", &ended(false, answer, ""));
    assert_eq!((s.active_state.as_str(), s.sub_state.as_str(), s.pid), ("inactive", "dead", None));
}

#[test]
fn launchd_logs_are_tailed() {
    let call = launchd::logs("web", true, 100, &test_config(Scope::User), &nowhere());
    assert_eq!(call.program, "tail");
    assert_eq!(
        call.args,
        vec![
            "-n",
            "100",
            "-f",
            "/tmp/Library/Logs/orch.web.out.log",
            "/tmp/Library/Logs/orch.web.err.log",
        ]
    );
    assert_eq!(launchd::judge_logs(&not_run()).unwrap_err().message(), "lifecycle failed: tail: gone");
    assert_eq!(
        launchd::judge_logs(&ended(false, "", "")).unwrap_err().message(),
        "lifecycle failed: tail exited with code 4"
    );
    assert!(launchd::judge_logs(&ended(true, "", "")).is_ok());
}

#[test]
fn systemd_is_checked_installed_and_reloaded() {
    let platform = SystemdPlatform::new();
    assert_eq!(platform.name(), "systemd");
    assert!(platform.check(true).is_ok());
    assert_eq!(
        platform.check(false).unwrap_err().message(),
        "prerequisite missing: systemd is not running (no /run/systemd/system)"
    );
    let system = test_config(Scope::System);
    let user = test_config(Scope::User);
    assert_eq!(platform.systemd_dir(&system, &host()), "/etc/systemd/system");
    assert_eq!(platform.systemd_dir(&user, &host()), "/Users/test/.config/systemd/user");
    let links = platform.install(&names(&["a.service", "orch.target"]), &system, &host());
    assert_eq!(links.len(), 2);
    assert_eq!(links[1].from, "/test/.orch/units/orch.target");
    assert_eq!(links[1].to, "/etc/systemd/system/orch.target");
    assert_eq!(platform.reload(&system).args, vec!["daemon-reload"]);
    assert_eq!(platform.reload(&user).args, vec!["--user", "daemon-reload"]);
    assert!(platform.judge_reload(&ended(true, "", "")).is_ok());
    assert_eq!(
        platform.judge_reload(&ended(false, "", "")).unwrap_err().message(),
        "install failed: systemctl daemon-reload failed"
    );
    assert_eq!(
        platform.judge_reload(&not_run()).unwrap_err().message(),
        "install failed: systemctl daemon-reload: gone"
    );
}

#[test]
fn systemd_starts_and_stops_units_or_the_target() {
    let user = test_config(Scope::User);
    let system = test_config(Scope::System);
    let call = systemd::start(&names(&[]), &system);
    assert_eq!(call.program, "systemctl");
    assert_eq!(call.args, vec!["start", "orch.target"]);
    let call = systemd::stop(&names(&["a", "b"]), &user);
    assert_eq!(call.args, vec!["--user", "stop", "orch-a.service", "orch-b.service"]);
    let one = names(&["a"]);
    assert!(systemd::judge_start(&one, &user, &ended(true, "", "")).is_ok());
    assert_eq!(
        systemd::judge_start(&one, &user, &ended(false, "", " no such unit\n"))
            .unwrap_err()
            .message(),
        "lifecycle failed: systemctl start orch-a.service failed: no such unit"
    );
    assert_eq!(
        systemd::judge_stop(&names(&[]), &user, &not_run()).unwrap_err().message(),
        "lifecycle failed: systemctl stop orch.target: gone"
    );
}

#[test]
fn systemd_states_are_read() {
    let cfg = test_config(Scope::System);
    let files = names(&[
        "orch-web.service",
        "orch-db-ready.service",
        "orch.target",
        "other-web.service",
        "orch-db.service",
    ]);
    assert_eq!(
        systemd::units_to_query(&files, &cfg),
        vec!["orch-web.service", "orch-db.service"]
    );
    assert_eq!(systemd::service_of("orch-web.service", &cfg).as_deref(), Some("web"));
    assert_eq!(systemd::service_of("orch-db-ready.service", &cfg), None);
    assert_eq!(
        systemd::query("orch-web.service", &cfg).args,
        vec!["show", "orch-web.service", "--property=ActiveState,SubState,MainPID"]
    );
    let answer = ended(true, "ActiveState=active\nSubState=running\nMainPID=7\n", "");
    let s = systemd::unit_status("orch-web.service", &cfg, &answer).unwrap();
    assert_eq!(
        (s.name.as_str(), s.active_state.as_str(), s.sub_state.as_str(), s.pid),
        ("web", "active", "running", Some(7))
    );
    let s = systemd::unit_status("orch-web.service", &cfg, &ended(false, "MainPID=0", "")).unwrap();
    assert_eq!((s.active_state.as_str(), s.sub_state.as_str(), s.pid), ("unknown", "unknown", None));
    let e = systemd::unit_status("orch-web.service", &cfg, &not_run()).unwrap_err();
    assert_eq!(e.message(), "lifecycle failed: systemctl show: gone");
}

#[test]
fn systemd_logs_come_from_the_journal() {
    let call = systemd::logs("web", false, 5, &test_config(Scope::User));
    assert_eq!(call.program, "journalctl");
    assert_eq!(
        call.args,
        vec!["--user", "-u", "orch-web.service", "--no-pager", "-n", "5"]
    );
    let failed = Outcome::Ended {
        success: false,
        code: None,
        stdout: String::new(),
        stderr: String::new(),
    };
    assert_eq!(
        systemd::judge_logs(&failed).unwrap_err().message(),
        "lifecycle failed: journalctl exited with code -1"
    );
}

fn status_of(name: &str, pid: Option<u32>) -> ServiceStatus {
    ServiceStatus {
        name: name.to_string(),
        active_state: "active".to_string(),
        sub_state: "running".to_string(),
        pid,
    }
}

#[test]
fn states_are_shown_as_a_table() {
    assert_eq!(
        status_table(&vec![status_of("web", Some(42)), status_of("db", None)]),
        "SERVICE                  STATE        SUB          PID\n\
         ------------------------------------------------------------\n\
         web                      active       running      42\n\
         db                       active       running      -\n"
    );
}

#[test]
fn states_are_shown_as_json() {
    assert_eq!(status_json(&vec![]), "[\n]\n");
    let text = status_json(&vec![status_of("web", Some(42)), status_of("db", None)]);
    assert_eq!(
        text,
        "[\n  {\"name\":\"web\",\"state\":\"active\",\"sub\":\"running\",\"pid\":42},\
         \n  {\"name\":\"db\",\"state\":\"active\",\"sub\":\"running\",\"pid\":null}\n]\n"
    );
    let v: serde_json::Value = serde_json::from_str(&text).unwrap();
    assert_eq!(v[0]["pid"], 42);
}

#[test]
fn states_are_sorted_by_name() {
    let list = vec![
        status_of("b", Some(1)),
        status_of("a", Some(2)),
        status_of("b", Some(3)),
        status_of("B", Some(4)),
    ];
    let text = render_status(list, true);
    let v: serde_json::Value = serde_json::from_str(&text).unwrap();
    let pids: Vec<u64> = v.as_array().unwrap().iter().map(|s| s["pid"].as_u64().unwrap()).collect();
    assert_eq!(pids, vec![4, 2, 1, 3]);
    assert!(systemd::status(vec![], false).starts_with("SERVICE"));
    assert!(launchd::status(vec![], true).starts_with("["));
}

#[test]
fn unreadable_units_are_reported() {
    assert_eq!(
        cannot_read_units(&test_config(Scope::User), "no such file").message(),
        "lifecycle failed: cannot read units directory '/test/.orch/units': no such file. \
         Run 'orchd generate' first."
    );
}

#[test]
fn supervisors_are_tracked_by_pid_files() {
    let cfg = test_config(Scope::User);
    assert_eq!(supervisors::pidfile(&cfg, "orch.web"), "/test/.orch/run/orch.web.pid");
    assert_eq!(supervisors::logfile(&cfg, "orch.web"), "/test/.orch/logs/orch.web.log");
    assert_eq!(supervisors::read_pid(&Some(" 42\n".to_string())), Some(42));
    assert_eq!(supervisors::read_pid(&Some("-1".to_string())), Some(-1));
    assert_eq!(supervisors::read_pid(&Some("x".to_string())), None);
    assert_eq!(supervisors::read_pid(&None), None);
    let files = names(&[
        "orch.web.json",
        "orch.db.json",
        "other.web.json",
        "orchard.web.json",
        "orch.x.pid",
        "other.x.pid",
        ".json",
        "json",
    ]);
    assert_eq!(
        supervisors::labels_to_start(&names(&[]), &files, &cfg),
        vec!["orch.web", "orch.db", "other.web", "orchard.web"]
    );
    assert_eq!(supervisors::labels_to_start(&names(&["web"]), &files, &cfg), vec!["orch.web"]);
    assert_eq!(supervisors::labels_to_stop(&names(&[]), &files, &cfg), vec!["orch.x"]);
    assert_eq!(supervisors::own_labels(&files, "json", &cfg), vec!["orch.web", "orch.db"]);
    assert_eq!(supervisors::stems(&files, "pid"), vec!["orch.x", "other.x"]);
    assert_eq!(supervisors::labels_to_stop(&names(&["web"]), &files, &cfg), vec!["orch.web"]);
}

#[test]
fn supervisors_are_started_and_stopped() {
    let cfg = test_config(Scope::User);
    assert!(supervisors::start("orch.web", Some(3), true, &cfg, &host()).is_none());
    let call = supervisors::start("orch.web", Some(3), false, &cfg, &host()).unwrap();
    assert_eq!(call.program, "/bin/orchd");
    assert_eq!(
        call.args,
        vec!["supervise", "--spec", "/test/.orch/supervise/orch.web.json"]
    );
    let call = supervisors::start("orch.web", None, false, &cfg, &nowhere()).unwrap();
    assert_eq!(call.program, "orchd");
    assert_eq!(
        supervisors::stop("orch.web", Some(3), &cfg),
        (Some(3), "/test/.orch/run/orch.web.pid".to_string())
    );
    assert_eq!(
        supervisors::spawn_failed("e").message(),
        "lifecycle failed: spawn supervisor: e"
    );
}

#[test]
fn supervisors_are_shown() {
    let rows = vec![
        supervisors::row("orch.web", Some(42), true),
        supervisors::row("orch.db", None, true),
    ];
    assert_eq!(
        supervisors::status(&rows, false),
        "orch.web                     42       running\n\
         orch.db                      -        stopped\n"
    );
    assert_eq!(
        supervisors::status(&rows, true),
        "[{\"label\":\"orch.web\",\"pid\":42,\"running\":true},\
         {\"label\":\"orch.db\",\"pid\":0,\"running\":false}]\n"
    );
    assert_eq!(supervisors::status(&vec![], false), "no orchdi services\n");
    assert_eq!(supervisors::status(&vec![], true), "[]\n");
    let call = supervisors::logs("web", true, 9, &test_config(Scope::User));
    assert_eq!(call.args, vec!["-n", "9", "-f", "/test/.orch/logs/orch.web.log"]);
    assert!(supervisors::judge_logs(&ended(false, "", "")).is_ok());
    assert_eq!(
        supervisors::judge_logs(&not_run()).unwrap_err().message(),
        "lifecycle failed: tail: gone"
    );
}

#[test]
fn a_survey_keeps_to_its_namespace() {
    let cfg = test_config(Scope::User);
    assert_eq!(systemd::service_of("other-web.service", &cfg), None);
    assert_eq!(launchd::job_of("other.web.plist", &cfg), None);
}

fn undone(removals: &Vec<Removal>) -> Vec<String> {
    removals
        .iter()
        .map(|r| match r {
            Removal::Call { call } => format!("{} {}", call.program, call.args.join(" ")),
            Removal::File { path } => format!("rm {}", path),
            Removal::EmptyDirectory { path } => format!("rmdir {}", path),
        })
        .collect()
}

#[test]
fn cleaning_systemd_removes_the_grove_alone() {
    let cfg = test_config(Scope::User);
    let files = names(&[
        "orch-web.service",
        "orch-web-ready.service",
        "orch.target",
        "other-web.service",
        "other.target",
    ]);
    let removals = SystemdPlatform::new().clean(&files, &cfg, &host());
    assert_eq!(
        undone(&removals),
        vec![
            "rm /Users/test/.config/systemd/user/orch-web.service",
            "rm /test/.orch/units/orch-web.service",
            "rm /Users/test/.config/systemd/user/orch-web-ready.service",
            "rm /test/.orch/units/orch-web-ready.service",
            "rm /Users/test/.config/systemd/user/orch.target",
            "rm /test/.orch/units/orch.target",
            "rmdir /test/.orch/units",
            "systemctl --user daemon-reload",
        ]
    );
}

#[test]
fn cleaning_launchd_removes_the_grove_alone() {
    let cfg = test_config(Scope::User);
    let files = names(&["orch.web.plist", "orch.db.plist", "other.web.plist", "orch.txt"]);
    let installed = names(&["orch.web.plist", "other.web.plist"]);
    let removals = LaunchdPlatform::new().clean(&files, &installed, &cfg, &host(), "501");
    assert_eq!(
        undone(&removals),
        vec![
            "launchctl bootout gui/501 /Users/test/Library/LaunchAgents/orch.web.plist",
            "rm /Users/test/Library/LaunchAgents/orch.web.plist",
            "rm /test/.orch/units/orch.web.plist",
            "rm /test/.orch/units/orch.db.plist",
            "rmdir /test/.orch/units",
        ]
    );
}

#[test]
fn cleaning_orchdi_removes_the_grove_alone() {
    let cfg = test_config(Scope::User);
    let specs = names(&["orch.web.json", "other.web.json", "orch.web.txt", "orchard.json"]);
    let pids = names(&["other.web.pid", "orch.web.pid", "orch.web.ready"]);
    assert_eq!(
        undone(&OrchdiPlatform::new().clean(&specs, &pids, &cfg)),
        vec![
            "rm /test/.orch/supervise/orch.web.json",
            "rm /test/.orch/run/orch.web.pid",
            "rmdir /test/.orch/supervise",
            "rmdir /test/.orch/run",
        ]
    );
}

#[test]
fn what_cannot_be_installed_is_reported() {
    let cfg = test_config(Scope::User);
    let systemd = SystemdPlatform::new();
    let links = systemd.install(&names(&["orch.target"]), &cfg, &host());
    assert_eq!(
        systemd.link_failed(&links[0], "denied").message(),
        "install failed: failed to symlink /test/.orch/units/orch.target -> \
         /Users/test/.config/systemd/user/orch.target: denied"
    );
    let launchd = LaunchdPlatform::new();
    let copies = launchd.install(&names(&["orch.web.plist"]), &cfg, &host());
    assert_eq!(
        launchd.copy_failed(&copies[0], "denied").message(),
        "install failed: copy /test/.orch/units/orch.web.plist -> \
         /Users/test/Library/LaunchAgents/orch.web.plist: denied"
    );
    assert_eq!(
        launchd.dir_failed("/d", "denied").message(),
        "install failed: create /d: denied"
    );
}
