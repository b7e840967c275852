//! Settings, merged from the command line, the environment, `.orchrc` and
//! defaults.

use crate::cli::Cli;
use crate::collections::{clone_list, StringMap};
use crate::paths::{join, under};
use crate::text::chars::{chars_of, lowercase, same_text, string_of_range, to_lowercase};
use crate::text::scan::{find, find_from, lines, split_lines, trim, trimmed};
use vstd::prelude::*;

verus! {

/// Whose services these are.
#[derive(Debug, Clone, Copy, PartialEq, Eq, Structural)]
pub enum Scope {
    System,
    User,
}

/// The scope that a text names, in whatever case.
pub open spec fn scope_of(s: Seq<char>) -> Option<Scope> {
    if lowercase(s) == "system"@ {
        Some(Scope::System)
    } else if lowercase(s) == "user"@ {
        Some(Scope::User)
    } else {
        None
    }
}

impl Scope {
    /// Reads a scope.
    pub fn from_str(s: &str) -> (r: Option<Self>)
        ensures
            r == scope_of(s@),
    {
        let t = to_lowercase(s);
        if same_text(t.as_str(), "system") {
            Some(Scope::System)
        } else if same_text(t.as_str(), "user") {
            Some(Scope::User)
        } else {
            None
        }
    }

    /// Whether this is the user's scope.
    pub fn is_user(self) -> (r: bool)
        ensures
            r == (self == Scope::User),
    {
        self == Scope::User
    }
}

/// The settings of orchd.
#[derive(Debug)]
pub struct Config {
    /// Path to the Orchfile.
    pub orchfile: String,
    /// Overlay files applied on top of the Orchfile.
    pub overlays: Vec<String>,
    /// Runtime name: bare, containerd, apple.
    pub runtime: String,
    /// Platform name: systemd, launchd, orchdi.
    pub platform: String,
    /// System-wide or the user's own.
    pub scope: Scope,
    /// State directory for generated artifacts.
    pub state_dir: String,
    /// Project root directory.
    pub project_dir: String,
    /// Data directory for service storage.
    pub data_dir: String,
    /// The `orch` program.
    pub orch_bin: String,
    /// Namespace for isolation (used as unit prefix).
    pub namespace: String,
    /// Arguments handed on to `orch parse`, each `key=value`.
    pub args: Vec<String>,
    /// Verbose output.
    pub verbose: bool,
    /// Suppress output that is not an error.
    pub quiet: bool,
}

/// What the surroundings of the process say.
#[derive(Debug)]
pub struct Environment {
    /// The environment variables.
    pub vars: StringMap,
    /// The current directory, if it can be told.
    pub cwd: Option<String>,
    /// Whether this is macOS.
    pub macos: bool,
}

/// The value of a key, if it has one.
pub open spec fn value_of(m: Map<Seq<char>, Seq<char>>, key: Seq<char>) -> Option<Seq<char>> {
    if m.contains_key(key) {
        Some(m[key])
    } else {
        None
    }
}

/// The first of two that is there.
pub open spec fn first_of(a: Option<Seq<char>>, b: Option<Seq<char>>) -> Option<Seq<char>> {
    if a is Some {
        a
    } else {
        b
    }
}

/// What a setting is: the command line's value, else the environment
/// variable's, else that of the `.orchrc` key, else the default.
pub open spec fn setting(
    cli: Option<Seq<char>>,
    var: Option<Seq<char>>,
    rc: Option<Seq<char>>,
    default: Seq<char>,
) -> Seq<char> {
    match first_of(cli, first_of(var, rc)) {
        Some(v) => v,
        None => default,
    }
}

/// The home directory.
pub open spec fn home_of(vars: Map<Seq<char>, Seq<char>>) -> Seq<char> {
    match value_of(vars, "HOME"@) {
        Some(h) => h,
        None => "/root"@,
    }
}

/// The project directory: the command line's, else `ORCH_PROJECT`, else the
/// current directory, else `.`.
pub open spec fn project_dir_of(
    cli: Option<Seq<char>>,
    vars: Map<Seq<char>, Seq<char>>,
    cwd: Option<Seq<char>>,
) -> Seq<char> {
    setting(cli, value_of(vars, "ORCH_PROJECT"@), cwd, "."@)
}

/// The scope: `--user`, else `--system`, else what `ORCH_SCOPE` or else the
/// `.orchrc` says; where that names no scope, the system's.
pub open spec fn chosen_scope(
    user: bool,
    system: bool,
    var: Option<Seq<char>>,
    rc: Option<Seq<char>>,
) -> Scope {
    if user {
        Scope::User
    } else if system {
        Scope::System
    } else {
        match first_of(var, rc) {
            Some(s) => match scope_of(s) {
                Some(scope) => scope,
                None => Scope::System,
            },
            None => Scope::System,
        }
    }
}

/// The unit that runs a service.
pub open spec fn unit_name(namespace: Seq<char>, service: Seq<char>) -> Seq<char> {
    namespace + "-"@ + service + ".service"@
}

/// The unit that groups all services of a namespace.
pub open spec fn target_name(namespace: Seq<char>) -> Seq<char> {
    namespace + ".target"@
}

/// Looks a variable or a key up.
fn lookup(m: &StringMap, key: &str) -> (r: Option<String>)
    ensures
        r.deep_view() == value_of(m@, key@),
{
    match m.get(key) {
        Some(v) => Some(v.clone()),
        None => None,
    }
}

/// Resolves a setting: command line > environment > `.orchrc` > default.
pub fn resolve(
    cli: &Option<String>,
    env: &Environment,
    var: &str,
    rc: &StringMap,
    key: &str,
    default: String,
) -> (r: String)
    ensures
        r@ == setting(
            cli.deep_view(),
            value_of(env.vars@, var@),
            value_of(rc@, key@),
            default@,
        ),
{
    if let Some(v) = cli {
        return v.clone();
    }
    if let Some(v) = lookup(&env.vars, var) {
        return v;
    }
    if let Some(v) = lookup(rc, key) {
        return v;
    }
    default
}

/// The home directory, or `/root`.
pub fn dirs_or_home(env: &Environment) -> (r: String)
    ensures
        r@ == home_of(env.vars@),
{
    match lookup(&env.vars, "HOME") {
        Some(h) => h,
        None => "/root".to_string(),
    }
}

/// The project directory, which locates the `.orchrc` and so is not set in it.
pub fn project_dir(cli: &Cli, env: &Environment) -> (r: String)
    ensures
        r@ == project_dir_of(cli.project_dir.deep_view(), env.vars@, env.cwd.deep_view()),
{
    if let Some(v) = &cli.project_dir {
        return v.clone();
    }
    if let Some(v) = lookup(&env.vars, "ORCH_PROJECT") {
        return v;
    }
    match &env.cwd {
        Some(v) => v.clone(),
        None => ".".to_string(),
    }
}

/// The places of the `.orchrc`, in the order in which they are tried.
pub fn orchrc_candidates(cli: &Cli, env: &Environment) -> (r: (String, String))
    ensures
        r.0@ == under(
            project_dir_of(cli.project_dir.deep_view(), env.vars@, env.cwd.deep_view()),
            ".orchrc"@,
        ),
        r.1@ == under(home_of(env.vars@), ".orchrc"@),
{
    let project = project_dir(cli, env);
    let home = dirs_or_home(env);
    (join(project.as_str(), ".orchrc"), join(home.as_str(), ".orchrc"))
}

/// The platform where none is set.
pub open spec fn default_platform(macos: bool) -> Seq<char> {
    if macos {
        "launchd"@
    } else {
        "systemd"@
    }
}

/// Picks the platform by the operating system.
pub fn detect_platform(macos: bool) -> (r: String)
    ensures
        r@ == default_platform(macos),
{
    if macos {
        "launchd".to_string()
    } else {
        "systemd".to_string()
    }
}

/// The key and value that a line of an `.orchrc` gives: what stands before and
/// after its first `=`, both trimmed. A blank line, a comment, a line without
/// `=` and one with an empty key give nothing.
pub open spec fn orchrc_entry(line: Seq<char>) -> Option<(Seq<char>, Seq<char>)> {
    let t = trimmed(line);
    if t.len() == 0 || t[0] == '#' {
        None
    } else {
        match find(t, '=') {
            Some(i) => {
                let key = trimmed(t.take(i));
                if key.len() > 0 {
                    Some((key, trimmed(t.skip(i + 1))))
                } else {
                    None
                }
            },
            None => None,
        }
    }
}

/// What the lines of an `.orchrc` set. Of two lines with one key the later
/// stands.
pub open spec fn orchrc_settings(lines: Seq<Seq<char>>) -> Map<Seq<char>, Seq<char>>
    decreases lines.len(),
{
    if lines.len() == 0 {
        Map::empty()
    } else {
        let before = orchrc_settings(lines.drop_last());
        match orchrc_entry(lines.last()) {
            Some(e) => before.insert(e.0, e.1),
            None => before,
        }
    }
}

/// Reads one line of an `.orchrc`.
fn parse_orchrc_line(line: &str) -> (r: Option<(String, String)>)
    ensures
        match r {
            Some(e) => orchrc_entry(line@) == Some((e.0@, e.1@)),
            None => orchrc_entry(line@) is None,
        },
{
    let t = trim(line);
    let cs = chars_of(t.as_str());
    if cs.len() == 0 || cs[0] == '#' {
        return None;
    }
    assert(cs@.skip(0) == cs@);
    match find_from(cs.as_slice(), '=', 0) {
        Some(i) => {
            let key = trim(string_of_range(cs.as_slice(), 0, i).as_str());
            let value = trim(string_of_range(cs.as_slice(), i + 1, cs.len()).as_str());
            assert(cs@.subrange(0, i as int) == cs@.take(i as int));
            assert(cs@.subrange(i + 1, cs@.len() as int) == cs@.skip(i + 1));
            if key.unicode_len() > 0 {
                Some((key, value))
            } else {
                None
            }
        },
        None => None,
    }
}

/// Reads the content of an `.orchrc`.
pub fn parse_orchrc(content: &str) -> (r: StringMap)
    ensures
        r@ == orchrc_settings(lines(content@)),
{
    let ls = split_lines(content);
    let mut map = StringMap::new();
    let n: usize = ls.len();
    let ghost all = ls.deep_view();
    for i in 0..n
        invariant
            n == ls@.len(),
            all == ls.deep_view(),
            map@ == orchrc_settings(all.take(i as int)),
    {
        assert(all.take(i + 1).drop_last() == all.take(i as int));
        assert(all.take(i + 1).last() == ls@[i as int]@);
        if let Some((key, value)) = parse_orchrc_line(ls[i].as_str()) {
            map.insert(key, value);
        }
    }
    assert(all.take(n as int) == all);
    map
}

/// What is in the `.orchrc` files: the project's alone where it can be read,
/// else that of the home directory, else nothing.
pub open spec fn orchrc_of(
    project: Option<Seq<char>>,
    home: Option<Seq<char>>,
) -> Map<Seq<char>, Seq<char>> {
    match first_of(project, home) {
        Some(content) => orchrc_settings(lines(content)),
        None => Map::empty(),
    }
}

/// Takes the first `.orchrc` that was found; the two are not merged.
pub fn load_orchrc(project: &Option<String>, home: &Option<String>) -> (r: StringMap)
    ensures
        r@ == orchrc_of(project.deep_view(), home.deep_view()),
{
    if let Some(content) = project {
        return parse_orchrc(content.as_str());
    }
    if let Some(content) = home {
        return parse_orchrc(content.as_str());
    }
    StringMap::new()
}

impl Config {
    /// Merges command line > environment > `.orchrc` > defaults.
    ///
    /// `project_rc` and `home_rc` are the contents of the two `.orchrc` files
    /// that [`orchrc_candidates`] names, where they can be read.
    pub fn load(
        cli: &Cli,
        env: &Environment,
        project_rc: &Option<String>,
        home_rc: &Option<String>,
    ) -> (r: Self)
        ensures
            ({
                let vars = env.vars@;
                let rc = orchrc_of(project_rc.deep_view(), home_rc.deep_view());
                &&& r.project_dir@ == project_dir_of(
                    cli.project_dir.deep_view(),
                    vars,
                    env.cwd.deep_view(),
                )
                &&& r.orchfile@ == setting(
                    cli.orchfile.deep_view(),
                    value_of(vars, "ORCH_ORCHFILE"@),
                    value_of(rc, "orchfile"@),
                    under(r.project_dir@, "Orchfile"@),
                )
                &&& r.state_dir@ == setting(
                    cli.state_dir.deep_view(),
                    value_of(vars, "ORCH_STATE_DIR"@),
                    value_of(rc, "state_dir"@),
                    under(home_of(vars), ".orch"@),
                )
                &&& r.data_dir@ == setting(
                    cli.data_dir.deep_view(),
                    value_of(vars, "ORCH_DATA"@),
                    value_of(rc, "data_dir"@),
                    under(r.state_dir@, "data"@),
                )
                &&& r.runtime@ == setting(
                    cli.runtime.deep_view(),
                    value_of(vars, "ORCH_RUNTIME"@),
                    value_of(rc, "runtime"@),
                    "bare"@,
                )
                &&& r.platform@ == setting(
                    cli.platform.deep_view(),
                    value_of(vars, "ORCH_PLATFORM"@),
                    value_of(rc, "platform"@),
                    default_platform(env.macos),
                )
                &&& r.namespace@ == setting(
                    cli.namespace.deep_view(),
                    value_of(vars, "ORCH_NAMESPACE"@),
                    value_of(rc, "namespace"@),
                    "orch"@,
                )
                &&& r.orch_bin@ == setting(
                    cli.orch_bin.deep_view(),
                    value_of(vars, "ORCH_BIN"@),
                    value_of(rc, "orch_bin"@),
                    "orch"@,
                )
                &&& r.scope == chosen_scope(
                    cli.user,
                    cli.system,
                    value_of(vars, "ORCH_SCOPE"@),
                    value_of(rc, "scope"@),
                )
                &&& r.overlays.deep_view() == cli.overlay.deep_view()
                &&& r.args.deep_view() == cli.args.deep_view()
                &&& r.verbose == cli.verbose
                &&& r.quiet == cli.quiet
            }),
    {
        let project_dir = project_dir(cli, env);
        let rc = load_orchrc(project_rc, home_rc);
        let default_orchfile = join(project_dir.as_str(), "Orchfile");
        let orchfile = resolve(
            &cli.orchfile,
            env,
            "ORCH_ORCHFILE",
            &rc,
            "orchfile",
            default_orchfile,
        );
        let home = dirs_or_home(env);
        let default_state = join(home.as_str(), ".orch");
        let state_dir = resolve(
            &cli.state_dir,
            env,
            "ORCH_STATE_DIR",
            &rc,
            "state_dir",
            default_state,
        );
        let default_data = join(state_dir.as_str(), "data");
        let data_dir = resolve(&cli.data_dir, env, "ORCH_DATA", &rc, "data_dir", default_data);
        let runtime = resolve(
            &cli.runtime,
            env,
            "ORCH_RUNTIME",
            &rc,
            "runtime",
            "bare".to_string(),
        );
        let platform = resolve(
            &cli.platform,
            env,
            "ORCH_PLATFORM",
            &rc,
            "platform",
            detect_platform(env.macos),
        );
        let namespace = resolve(
            &cli.namespace,
            env,
            "ORCH_NAMESPACE",
            &rc,
            "namespace",
            "orch".to_string(),
        );
        let orch_bin = resolve(
            &cli.orch_bin,
            env,
            "ORCH_BIN",
            &rc,
            "orch_bin",
            "orch".to_string(),
        );
        let scope = if cli.user {
            Scope::User
        } else if cli.system {
            Scope::System
        } else {
            let named = match lookup(&env.vars, "ORCH_SCOPE") {
                Some(s) => Some(s),
                None => lookup(&rc, "scope"),
            };
            match named {
                Some(s) => match Scope::from_str(s.as_str()) {
                    Some(scope) => scope,
                    None => Scope::System,
                },
                None => Scope::System,
            }
        };
        Config {
            orchfile,
            overlays: clone_list(&cli.overlay),
            runtime,
            platform,
            scope,
            state_dir,
            project_dir,
            data_dir,
            orch_bin,
            namespace,
            args: clone_list(&cli.args),
            verbose: cli.verbose,
            quiet: cli.quiet,
        }
    }

    /// The directory where generated files are written.
    pub fn units_dir(&self) -> (r: String)
        ensures
            r@ == under(self.state_dir@, "units"@),
    {
        join(self.state_dir.as_str(), "units")
    }

    /// The unit that runs a service.
    pub fn unit_name(&self, service_name: &str) -> (r: String)
        ensures
            r@ == unit_name(self.namespace@, service_name@),
    {
        let mut r = self.namespace.clone();
        r.append("-");
        r.append(service_name);
        r.append(".service");
        r
    }

    /// The unit that groups all services.
    pub fn target_name(&self) -> (r: String)
        ensures
            r@ == target_name(self.namespace@),
    {
        let mut r = self.namespace.clone();
        r.append(".target");
        r
    }
}

/// The layers of a setting: each has its say only where those before it have no
/// value.
pub proof fn law_precedence(
    cli: Option<Seq<char>>,
    var: Option<Seq<char>>,
    rc: Option<Seq<char>>,
    default: Seq<char>,
)
    ensures
        cli matches Some(v) ==> setting(cli, var, rc, default) == v,
        cli is None ==> (var matches Some(v) ==> setting(cli, var, rc, default) == v),
        cli is None && var is None ==> (rc matches Some(v) ==> setting(cli, var, rc, default) == v),
        cli is None && var is None && rc is None ==> setting(cli, var, rc, default) == default,
{
}

/// Where the project has an `.orchrc`, the one in the home directory has no
/// effect on any setting.
pub proof fn law_first_orchrc_wins(
    project: Seq<char>,
    home: Option<Seq<char>>,
    other: Option<Seq<char>>,
)
    ensures
        orchrc_of(Some(project), home) == orchrc_of(Some(project), other),
        orchrc_of(Some(project), home) == orchrc_settings(lines(project)),
{
}

/// Whether a line of an `.orchrc` gives a key.
pub open spec fn sets_key(line: Seq<char>, key: Seq<char>) -> bool {
    orchrc_entry(line) matches Some(e) && e.0 == key
}

/// Of the lines of an `.orchrc` with one key, the last decides: whatever stands
/// before it, what it sets is the setting.
pub proof fn law_last_line_wins(
    lines: Seq<Seq<char>>,
    i: int,
    key: Seq<char>,
    value: Seq<char>,
)
    requires
        0 <= i < lines.len(),
        orchrc_entry(lines[i]) == Some((key, value)),
        forall|j: int| i < j < lines.len() ==> !sets_key(#[trigger] lines[j], key),
    ensures
        value_of(orchrc_settings(lines), key) == Some(value),
    decreases lines.len(),
{
    if i < lines.len() - 1 {
        let init = lines.drop_last();
        assert(init[i] == lines[i]);
        assert forall|j: int| i < j < init.len() implies !sets_key(#[trigger] init[j], key) by {
            assert(init[j] == lines[j]);
        }
        law_last_line_wins(init, i, key, value);
        assert(!sets_key(lines[lines.len() - 1], key));
    }
}

/// An `.orchrc` sets no key that none of its lines gives.
pub proof fn law_only_lines_set(lines: Seq<Seq<char>>, key: Seq<char>)
    requires
        orchrc_settings(lines).contains_key(key),
    ensures
        exists|i: int|
            0 <= i < lines.len() && (#[trigger] orchrc_entry(lines[i])) == Some(
                (key, orchrc_settings(lines)[key]),
            ),
    decreases lines.len(),
{
    let init = lines.drop_last();
    let last = orchrc_entry(lines.last());
    if last matches Some(e) && e.0 == key {
        assert(orchrc_entry(lines[lines.len() - 1]) == Some((key, orchrc_settings(lines)[key])));
    } else {
        law_only_lines_set(init, key);
        let i = choose|i: int|
            0 <= i < init.len() && (#[trigger] orchrc_entry(init[i])) == Some(
                (key, orchrc_settings(init)[key]),
            );
        assert(init[i] == lines[i]);
        assert(orchrc_entry(lines[i]) == Some((key, orchrc_settings(lines)[key])));
    }
}

/// Two services of one namespace never share a unit name.
pub proof fn law_unit_names_differ(namespace: Seq<char>, a: Seq<char>, b: Seq<char>)
    requires
        unit_name(namespace, a) == unit_name(namespace, b),
    ensures
        a == b,
{
    let x = unit_name(namespace, a);
    let from = namespace.len() + "-"@.len();
    assert(a =~= x.subrange(from as int, x.len() - ".service"@.len()));
    assert(b =~= x.subrange(from as int, x.len() - ".service"@.len()));
}

} // verus!
