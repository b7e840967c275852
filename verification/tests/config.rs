#![allow(non_snake_case)]

use orchd::cli::{Cli, Commands};
use orchd::collections::StringMap;
use orchd::config::{
    detect_platform, load_orchrc, orchrc_candidates, parse_orchrc, Config, Environment, Scope,
};

fn stub_cli() -> Cli {
    Cli {
        command: Commands::Survey { json: false },
        orchfile: None,
        overlay: vec![],
        runtime: None,
        platform: None,
        state_dir: None,
        project_dir: None,
        data_dir: None,
        orch_bin: None,
        namespace: None,
        user: false,
        system: false,
        args: vec![],
        verbose: false,
        quiet: false,
    }
}

fn environment(vars: &[(&str, &str)]) -> Environment {
    let mut map = StringMap::new();
    for (k, v) in vars {
        map.insert(k.to_string(), v.to_string());
    }
    Environment { vars: map, cwd: Some("/work".to_string()), macos: false }
}

fn load(cli: &Cli) -> Config {
    Config::load(cli, &environment(&[]), &None, &None)
}

#[test]
fn test_load__defaults_runtime_to_bare() {
    let cli = stub_cli();
    let config = load(&cli);
    assert_eq!(config.runtime, "bare");
}

#[test]
fn test_load__defaults_namespace_to_orch() {
    let cli = stub_cli();
    let config = load(&cli);
    assert_eq!(config.namespace, "orch");
}

#[test]
fn test_load__cli_runtime_overrides_default() {
    let mut cli = stub_cli();
    cli.runtime = Some("containerd".to_string());
    let config = load(&cli);
    assert_eq!(config.runtime, "containerd");
}

#[test]
fn test_load__cli_namespace_overrides_default() {
    let mut cli = stub_cli();
    cli.namespace = Some("myproject".to_string());
    let config = load(&cli);
    assert_eq!(config.namespace, "myproject");
}

#[test]
fn test_load__cli_state_dir_overrides_default() {
    let mut cli = stub_cli();
    cli.state_dir = Some("/tmp/test-state".to_string());
    let config = load(&cli);
    assert_eq!(config.state_dir, "/tmp/test-state");
}

#[test]
fn test_load__data_dir_defaults_to_state_dir_data() {
    let mut cli = stub_cli();
    cli.state_dir = Some("/tmp/test-state".to_string());
    let config = load(&cli);
    assert_eq!(config.data_dir, "/tmp/test-state/data");
}

#[test]
fn test_load__cli_data_dir_overrides_default() {
    let mut cli = stub_cli();
    cli.state_dir = Some("/tmp/test-state".to_string());
    cli.data_dir = Some("/mnt/data".to_string());
    let config = load(&cli);
    assert_eq!(config.data_dir, "/mnt/data");
}

#[test]
fn test_load__verbose_and_quiet_from_cli() {
    let mut cli = stub_cli();
    cli.verbose = true;
    cli.quiet = true;
    let config = load(&cli);
    assert!(config.verbose);
    assert!(config.quiet);
}

#[test]
fn test_load__overlays_passed_through() {
    let mut cli = stub_cli();
    cli.overlay = vec!["a.orch".to_string(), "b.orch".to_string()];
    let config = load(&cli);
    assert_eq!(config.overlays.len(), 2);
    assert_eq!(config.overlays[0], "a.orch");
}

#[test]
fn test_load__args_passed_through() {
    let mut cli = stub_cli();
    cli.args = vec!["FOO=bar".to_string(), "BAZ=qux".to_string()];
    let config = load(&cli);
    assert_eq!(config.args.len(), 2);
    assert_eq!(config.args[0], "FOO=bar");
}

#[test]
fn test_unit_name__formats_correctly() {
    let mut cli = stub_cli();
    cli.namespace = Some("orch".to_string());
    let config = load(&cli);
    assert_eq!(config.unit_name("postgres"), "orch-postgres.service");
}

#[test]
fn test_unit_name__custom_namespace() {
    let mut cli = stub_cli();
    cli.namespace = Some("myapp".to_string());
    let config = load(&cli);
    assert_eq!(config.unit_name("redis"), "myapp-redis.service");
}

#[test]
fn test_target_name__formats_correctly() {
    let mut cli = stub_cli();
    cli.namespace = Some("orch".to_string());
    let config = load(&cli);
    assert_eq!(config.target_name(), "orch.target");
}

#[test]
fn test_units_dir__is_under_state_dir() {
    let mut cli = stub_cli();
    cli.state_dir = Some("/tmp/test-state".to_string());
    let config = load(&cli);
    assert_eq!(config.units_dir(), "/tmp/test-state/units");
}

#[test]
fn test_detect_platform__macos_returns_launchd() {
    assert_eq!(detect_platform(true), "launchd");
}

#[test]
fn test_detect_platform__non_macos_returns_systemd() {
    assert_eq!(detect_platform(false), "systemd");
}

// --- parse_orchrc ---

#[test]
fn test_parse_orchrc__basic_key_value() {
    let content = "runtime=bare\nnamespace=myapp\n";
    let rc = parse_orchrc(content);
    assert_eq!(rc.get("runtime").unwrap(), "bare");
    assert_eq!(rc.get("namespace").unwrap(), "myapp");
}

#[test]
fn test_parse_orchrc__comments_and_blanks_ignored() {
    let content = "# comment\n\nruntime=bare\n  # another comment\n";
    let rc = parse_orchrc(content);
    assert_eq!(rc.len(), 1);
    assert_eq!(rc.get("runtime").unwrap(), "bare");
}

#[test]
fn test_parse_orchrc__value_with_equals() {
    let content = "namespace=a=b\n";
    let rc = parse_orchrc(content);
    assert_eq!(rc.get("namespace").unwrap(), "a=b");
}

#[test]
fn test_parse_orchrc__whitespace_trimmed() {
    let content = "  runtime = bare  \n";
    let rc = parse_orchrc(content);
    assert_eq!(rc.get("runtime").unwrap(), "bare");
}

#[test]
fn test_parse_orchrc__empty_content() {
    let rc = parse_orchrc("");
    assert!(rc.is_empty());
}

#[test]
fn test_load__orchrc_sets_namespace() {
    let mut cli = stub_cli();
    cli.project_dir = Some("/srv/project".to_string());
    cli.namespace = None;
    let rc = Some("namespace=from-rc\n".to_string());
    let config = Config::load(&cli, &environment(&[]), &rc, &None);
    assert_eq!(config.namespace, "from-rc");
}

#[test]
fn test_load__cli_overrides_orchrc() {
    let mut cli = stub_cli();
    cli.project_dir = Some("/srv/project".to_string());
    cli.namespace = Some("from-cli".to_string());
    let rc = Some("namespace=from-rc\n".to_string());
    let config = Config::load(&cli, &environment(&[]), &rc, &None);
    assert_eq!(config.namespace, "from-cli");
}

#[test]
fn environment_wins_over_orchrc_and_loses_to_cli() {
    let env = environment(&[("ORCH_NAMESPACE", "from-env"), ("ORCH_RUNTIME", "apple")]);
    let rc = Some("namespace=from-rc\nruntime=containerd\n".to_string());
    let mut cli = stub_cli();
    cli.runtime = Some("bare".to_string());
    let config = Config::load(&cli, &env, &rc, &None);
    assert_eq!(config.namespace, "from-env");
    assert_eq!(config.runtime, "bare");
}

#[test]
fn every_setting_has_its_own_variable_and_key() {
    let env = environment(&[
        ("ORCH_ORCHFILE", "/e/Orchfile"),
        ("ORCH_STATE_DIR", "/e/state"),
        ("ORCH_DATA", "/e/data"),
        ("ORCH_PLATFORM", "launchd"),
        ("ORCH_PROJECT", "/e/project"),
        ("ORCH_BIN", "/e/orch"),
        ("ORCH_SCOPE", "User"),
    ]);
    let config = Config::load(&stub_cli(), &env, &None, &None);
    assert_eq!(config.orchfile, "/e/Orchfile");
    assert_eq!(config.state_dir, "/e/state");
    assert_eq!(config.data_dir, "/e/data");
    assert_eq!(config.platform, "launchd");
    assert_eq!(config.project_dir, "/e/project");
    assert_eq!(config.orch_bin, "/e/orch");
    assert_eq!(config.scope, Scope::User);

    let rc = Some(
        "orchfile=/r/Orchfile\nstate_dir=/r/state\ndata_dir=/r/data\nplatform=orchdi\n\
         orch_bin=/r/orch\nscope=user\nruntime=apple\n"
            .to_string(),
    );
    let config = Config::load(&stub_cli(), &environment(&[]), &rc, &None);
    assert_eq!(config.orchfile, "/r/Orchfile");
    assert_eq!(config.state_dir, "/r/state");
    assert_eq!(config.data_dir, "/r/data");
    assert_eq!(config.platform, "orchdi");
    assert_eq!(config.orch_bin, "/r/orch");
    assert_eq!(config.scope, Scope::User);
    assert_eq!(config.runtime, "apple");
    assert_eq!(config.project_dir, "/work");
}

#[test]
fn defaults_follow_home_and_the_working_directory() {
    let env = environment(&[("HOME", "/home/me")]);
    let config = Config::load(&stub_cli(), &env, &None, &None);
    assert_eq!(config.project_dir, "/work");
    assert_eq!(config.orchfile, "/work/Orchfile");
    assert_eq!(config.state_dir, "/home/me/.orch");
    assert_eq!(config.data_dir, "/home/me/.orch/data");
    assert_eq!(config.orch_bin, "orch");
    assert_eq!(config.platform, "systemd");
    assert_eq!(config.scope, Scope::System);

    let bare = Environment { vars: StringMap::new(), cwd: None, macos: true };
    let config = Config::load(&stub_cli(), &bare, &None, &None);
    assert_eq!(config.project_dir, ".");
    assert_eq!(config.orchfile, "./Orchfile");
    assert_eq!(config.state_dir, "/root/.orch");
    assert_eq!(config.platform, "launchd");
}

#[test]
fn scope_flags_win_and_nonsense_is_system() {
    let env = environment(&[("ORCH_SCOPE", "user")]);
    let mut cli = stub_cli();
    cli.system = true;
    assert_eq!(Config::load(&cli, &env, &None, &None).scope, Scope::System);
    cli.user = true;
    assert_eq!(Config::load(&cli, &env, &None, &None).scope, Scope::User);
    let env = environment(&[("ORCH_SCOPE", "everyone")]);
    let rc = Some("scope=user".to_string());
    assert_eq!(Config::load(&stub_cli(), &env, &rc, &None).scope, Scope::System);
}

#[test]
fn scope_is_read_in_any_case() {
    assert_eq!(Scope::from_str("SYSTEM"), Some(Scope::System));
    assert_eq!(Scope::from_str("uSeR"), Some(Scope::User));
    assert_eq!(Scope::from_str(" user"), None);
    assert_eq!(Scope::from_str(""), None);
    assert!(Scope::User.is_user());
    assert!(!Scope::System.is_user());
}

#[test]
fn orchrc_files_are_not_merged() {
    let project = Some("namespace=project\n".to_string());
    let home = Some("namespace=home\nruntime=apple\n".to_string());
    let rc = load_orchrc(&project, &home);
    assert_eq!(rc.get("namespace").unwrap(), "project");
    assert!(rc.get("runtime").is_none());
    let rc = load_orchrc(&None, &home);
    assert_eq!(rc.get("runtime").unwrap(), "apple");
    assert!(load_orchrc(&None, &None).is_empty());
}

#[test]
fn the_last_of_two_lines_with_one_key_wins() {
    let rc = parse_orchrc("a=1\nb=2\r\na = 3 = 4\n=5\nnonsense\n");
    assert_eq!(rc.len(), 2);
    assert_eq!(rc.get("a").unwrap(), "3 = 4");
    assert_eq!(rc.get("b").unwrap(), "2");
}

#[test]
fn orchrc_is_looked_for_in_project_then_home() {
    let mut cli = stub_cli();
    cli.project_dir = Some("/p".to_string());
    let (project, home) = orchrc_candidates(&cli, &environment(&[("HOME", "/h/")]));
    assert_eq!(project, "/p/.orchrc");
    assert_eq!(home, "/h/.orchrc");
}

#[test]
fn every_layer_yields_to_the_one_above() {
    let rc = Some("runtime=podman\n".to_string());
    let home = Some("runtime=apple\nnamespace=mine\n".to_string());
    let vars = environment(&[("ORCH_RUNTIME", "containerd")]);
    let none = environment(&[]);
    let mut cli = stub_cli();
    assert_eq!(Config::load(&cli, &none, &None, &None).runtime, "bare");
    assert_eq!(Config::load(&cli, &none, &None, &home).runtime, "apple");
    assert_eq!(Config::load(&cli, &none, &None, &home).namespace, "mine");
    assert_eq!(Config::load(&cli, &none, &rc, &home).runtime, "podman");
    assert_eq!(Config::load(&cli, &none, &rc, &home).namespace, "orch");
    assert_eq!(Config::load(&cli, &vars, &rc, &home).runtime, "containerd");
    cli.runtime = Some("apple".to_string());
    assert_eq!(Config::load(&cli, &vars, &rc, &home).runtime, "apple");
}
