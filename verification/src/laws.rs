//! What settings, walks and rows do, from end to end.

use crate::config::{
    chosen_scope, default_platform, home_of, orchrc_entry, project_dir_of, scope_of,
    target_name, unit_name, Scope,
};
use crate::engine::{
    artifacts_dir_of, clean_steps, engine_message, gather_prepared, gather_start,
    generate_next, generate_run, generate_start, is_artifact, must_succeed, newest, parse_args,
    parsed, past_disabled, schema_of, supported_schema, up_steps, up_to_date,
    vars_path, vars_text, with_commands, EngineErrorView, GatheringView, GenerateEventView,
    GeneratePhaseView, ParseOutcomeView, StepView, UnitFileView,
};
use crate::exec::ExecSetView;
use crate::orchard::{
    orchard_message, planted_execs, planted_services, tend_steps, trees_of, ArtifactView,
    OrchardErrorView, TendStepView, TreeView,
};
use crate::orchdi::label_of;
use crate::paths::{extension, last_dot, lemma_last_dot, lemma_with_extension, stem, under};
use crate::platform::launchd::generate::plist_name;
use crate::platform::systemd::generate::gate_name;
use crate::platform::{platform_message, signed_decimal, PlatformErrorView, PlatformKind};
use crate::runtime::{commands_of, must_ask, runtime_message, AnyRuntime, RuntimeErrorView};
use crate::runtime::containerd::run::is_blank;
use crate::text::chars::{is_whitespace, lowercase};
use crate::text::order::{text_le, text_lt};
use crate::text::number::{decimal, is_digit, lemma_decimal_round_trip, parse_signed, parse_unsigned};
use crate::text::scan::{
    find, joined, lemma_find_first, lemma_find_range, lines, occurs, trim_end, trim_start, trimmed,
    without_prefix, without_suffix, without_suffixes, word_len, words,
};
use crate::types::ServiceView;
use vstd::prelude::*;

verus! {

/// The scopes go by their names, whatever their case.
pub proof fn law_scopes_go_by_their_names(s: Seq<char>)
    ensures
        scope_of(s) == Some(Scope::System) <==> lowercase(s) == "system"@,
        scope_of(s) == Some(Scope::User) <==> lowercase(s) == "user"@,
{
    reveal_strlit("system");
    reveal_strlit("user");
    assert("system"@.len() == 6 && "user"@.len() == 4);
}

/// The scope is that of the flag, and `--user` wins over `--system`. Without a flag
/// it is what the variable says, else what the `.orchrc` says, and the system's
/// where neither names a scope.
pub proof fn law_scopes_are_chosen_in_order(
    user: bool,
    system: bool,
    var: Option<Seq<char>>,
    rc: Option<Seq<char>>,
)
    ensures
        user ==> chosen_scope(user, system, var, rc) == Scope::User,
        !user && system ==> chosen_scope(user, system, var, rc) == Scope::System,
        !user && !system ==> {
            let named = match var {
                Some(s) => scope_of(s),
                None => match rc {
                    Some(s) => scope_of(s),
                    None => None,
                },
            };
            chosen_scope(user, system, var, rc) == (match named {
                Some(scope) => scope,
                None => Scope::System,
            })
        },
{
}

/// The project is where the flag says, else where the variable says, else here.
/// The home directory is that of the environment, else root's. Machines with
/// launchd use it, others systemd.
pub proof fn law_places_have_defaults(
    cli: Option<Seq<char>>,
    vars: Map<Seq<char>, Seq<char>>,
    cwd: Option<Seq<char>>,
)
    ensures
        cli matches Some(d) ==> project_dir_of(cli, vars, cwd) == d,
        cli is None && vars.contains_key("ORCH_PROJECT"@) ==> project_dir_of(cli, vars, cwd)
            == vars["ORCH_PROJECT"@],
        cli is None && !vars.contains_key("ORCH_PROJECT"@) && cwd is Some ==> project_dir_of(
            cli,
            vars,
            cwd,
        ) == cwd->0,
        cli is None && !vars.contains_key("ORCH_PROJECT"@) && cwd is None ==> project_dir_of(
            cli,
            vars,
            cwd,
        ) == "."@,
        vars.contains_key("HOME"@) ==> home_of(vars) == vars["HOME"@],
        !vars.contains_key("HOME"@) ==> home_of(vars) == "/root"@,
        default_platform(true) == "launchd"@,
        default_platform(false) == "systemd"@,
{
}

/// Whether a text has no white space at its ends.
pub open spec fn is_trim(s: Seq<char>) -> bool {
    s.len() > 0 ==> !is_whitespace(s[0]) && !is_whitespace(s.last())
}

proof fn lemma_is_trim(s: Seq<char>)
    requires
        is_trim(s),
    ensures
        trimmed(s) == s,
{
}

/// A line `key=value` sets the key to all that follows the first `=`. A comment, and a
/// line without `=`, sets nothing.
pub proof fn law_lines_set_keys(key: Seq<char>, value: Seq<char>, line: Seq<char>)
    ensures
        is_trim(key) && is_trim(value) && key.len() > 0 && value.len() > 0 && key[0] != '#'
            && !key.contains('=') ==> orchrc_entry(key + "="@ + value) == Some((key, value)),
        trimmed(line).len() > 0 && trimmed(line)[0] == '#' ==> orchrc_entry(line) is None,
        !trimmed(line).contains('=') ==> orchrc_entry(line) is None,
        trimmed(line).len() == 0 ==> orchrc_entry(line) is None,
{
    reveal_strlit("=");
    if is_trim(key) && is_trim(value) && key.len() > 0 && value.len() > 0 && key[0] != '#'
        && !key.contains('=') {
        let t = key + "="@ + value;
        assert(t[0] == key[0] && t.last() == value.last());
        assert(trimmed(t) == t);
        assert forall|j: int| 0 <= j < key.len() implies t[j] != '=' by {
            assert(t[j] == key[j]);
            assert(key.contains(key[j]));
        }
        assert(t[key.len() as int] == '=');
        lemma_find_first(t, '=', key.len() as int);
        assert(t.take(key.len() as int) =~= key);
        assert(t.skip(key.len() as int + 1) =~= value);
        lemma_is_trim(key);
        lemma_is_trim(value);
    }
    if !trimmed(line).contains('=') {
        let t = trimmed(line);
        lemma_find_range(t, '=');
        if let Some(i) = find(t, '=') {
            assert(t.contains(t[i]));
        }
    }
}

/// Trimming takes white space from both ends, all of it, and nothing else.
pub proof fn law_trimming_takes_the_ends(s: Seq<char>)
    ensures
        is_trim(trimmed(s)),
        exists|a: Seq<char>, b: Seq<char>|
            s == #[trigger] (a + trimmed(s) + b) && is_blank(a)
                && is_blank(b),
{
    let (a, m) = lemma_trim_start(s);
    let b = lemma_trim_end(m);
    assert(trim_start(s) == m);
    if trimmed(s).len() > 0 {
        assert(trimmed(s)[0] == m[0]);
    }
    assert(s =~= a + trimmed(s) + b);
}

proof fn lemma_trim_start(s: Seq<char>) -> (r: (Seq<char>, Seq<char>))
    ensures
        r.1 == trim_start(s),
        s == r.0 + r.1,
        is_blank(r.0),
        r.1.len() > 0 ==> !is_whitespace(r.1[0]),
    decreases s.len(),
{
    if s.len() > 0 && is_whitespace(s[0]) {
        let (a, m) = lemma_trim_start(s.skip(1));
        let front = seq![s[0]] + a;
        assert(s =~= seq![s[0]] + s.skip(1));
        assert(seq![s[0]] + (a + m) =~= front + m);
        assert forall|i: int| 0 <= i < front.len() implies is_whitespace(#[trigger] front[i]) by {
            if i > 0 {
                assert(front[i] == a[i - 1]);
            }
        }
        (front, m)
    } else {
        assert(s =~= Seq::empty() + s);
        (Seq::empty(), s)
    }
}

proof fn lemma_trim_end(s: Seq<char>) -> (b: Seq<char>)
    ensures
        s == trim_end(s) + b,
        is_blank(b),
        trim_end(s).len() > 0 ==> !is_whitespace(trim_end(s).last()),
    decreases s.len(),
{
    if s.len() > 0 && is_whitespace(s.last()) {
        let b = lemma_trim_end(s.drop_last());
        let back = b.push(s.last());
        assert(s =~= s.drop_last().push(s.last()));
        assert((trim_end(s.drop_last()) + b).push(s.last()) =~= trim_end(s.drop_last()) + back);
        assert forall|i: int| 0 <= i < back.len() implies is_whitespace(#[trigger] back[i]) by {
            if i < b.len() {
                assert(back[i] == b[i]);
            }
        }
        back
    } else {
        assert(s =~= s + Seq::empty());
        Seq::empty()
    }
}

/// A text is cut into lines where lines end, and a line without an end counts too.
pub proof fn law_lines_end_at_line_ends(line: Seq<char>, rest: Seq<char>)
    requires
        !line.contains('\n'),
    ensures
        lines(Seq::empty()) == Seq::<Seq<char>>::empty(),
        line.len() > 0 ==> lines(line) == seq![line],
        lines(line + seq!['\n'] + rest) == seq![
            if line.len() > 0 && line.last() == '\r' {
                line.drop_last()
            } else {
                line
            },
        ] + lines(rest),
{
    let s = line + seq!['\n'] + rest;
    assert forall|j: int| 0 <= j < line.len() implies s[j] != '\n' && line[j] != '\n' by {
        assert(s[j] == line[j]);
        assert(line.contains(line[j]));
    }
    assert(s[line.len() as int] == '\n');
    lemma_find_first(s, '\n', line.len() as int);
    assert(s.take(line.len() as int) =~= line);
    assert(s.skip(line.len() as int + 1) =~= rest);
    lemma_find_range(line, '\n');
    if let Some(i) = find(line, '\n') {
        assert(line[i] == '\n');
    }
}

/// Joined texts stand one after the other, with the separator between neighbours.
pub proof fn law_joining_puts_separators_between(
    parts: Seq<Seq<char>>,
    part: Seq<char>,
    sep: Seq<char>,
)
    ensures
        joined(Seq::empty(), sep) == Seq::<char>::empty(),
        joined(seq![part], sep) == part,
        parts.len() > 0 ==> joined(parts.push(part), sep) == joined(parts, sep) + sep + part,
{
    assert(parts.push(part).drop_last() =~= parts);
}

/// A relative path is seen from its directory, an absolute one is itself.
pub proof fn law_paths_are_seen_from_their_directory(base: Seq<char>, p: Seq<char>)
    ensures
        p.len() > 0 && p[0] == '/' ==> under(base, p) == p,
        (p.len() == 0 || p[0] != '/') && base.len() > 0 && base.last() != '/' ==> under(base, p)
            == base + seq!['/'] + p,
        (p.len() == 0 || p[0] != '/') && base.len() > 0 && base.last() == '/' ==> under(base, p)
            == base + p,
        (p.len() == 0 || p[0] != '/') && base.len() == 0 ==> under(base, p) == p,
{
    reveal_strlit("/");
    assert("/"@ =~= seq!['/']);
    if base.len() == 0 {
        assert(base + p =~= p);
    }
}

/// What is generated for a platform is what is looked at to tell whether it is up to
/// date: the units, gates and target of systemd, the jobs of launchd, the specs of
/// orchdi.
pub proof fn law_artifacts_are_recognised(namespace: Seq<char>, service: Seq<char>)
    requires
        namespace.len() > 0,
    ensures
        is_artifact(PlatformKind::Systemd, unit_name(namespace, service)),
        is_artifact(PlatformKind::Systemd, gate_name(namespace, service)),
        is_artifact(PlatformKind::Systemd, target_name(namespace)),
        is_artifact(PlatformKind::Launchd, plist_name(namespace, service)),
        is_artifact(PlatformKind::Orchdi, label_of(namespace, service) + ".json"@),
        !is_artifact(PlatformKind::Systemd, plist_name(namespace, service)),
        !is_artifact(PlatformKind::Launchd, unit_name(namespace, service)),
{
    lemma_extensions();
    let unit = namespace + "-"@ + service;
    let gate = namespace + "-"@ + service + "-ready"@;
    let label = label_of(namespace, service);
    assert(unit_name(namespace, service) =~= unit + seq!['.'] + "service"@);
    assert(gate_name(namespace, service) =~= gate + seq!['.'] + "service"@);
    assert(target_name(namespace) =~= namespace + seq!['.'] + "target"@);
    assert(plist_name(namespace, service) =~= label + seq!['.'] + "plist"@);
    assert(label + ".json"@ =~= label + seq!['.'] + "json"@);
    lemma_with_extension(unit, "service"@);
    lemma_with_extension(gate, "service"@);
    lemma_with_extension(namespace, "target"@);
    lemma_with_extension(label, "plist"@);
    lemma_with_extension(label, "json"@);
    assert("plist"@.len() == 5 && "service"@.len() == 7 && "target"@.len() == 6);
}

proof fn lemma_extensions()
    ensures
        ".service"@ == seq!['.'] + "service"@,
        "-ready.service"@ == "-ready"@ + seq!['.'] + "service"@,
        ".target"@ == seq!['.'] + "target"@,
        ".plist"@ == seq!['.'] + "plist"@,
        ".json"@ == seq!['.'] + "json"@,
        "plist"@.len() == 5 && "service"@.len() == 7 && "target"@.len() == 6,
        forall|i: int| 0 <= i < 7 ==> "service"@[i] != '.',
        forall|i: int| 0 <= i < 6 ==> "target"@[i] != '.',
        forall|i: int| 0 <= i < 5 ==> "plist"@[i] != '.',
        forall|i: int| 0 <= i < "json"@.len() ==> "json"@[i] != '.',
        "."@ == seq!['.'],
        "-"@.len() == 1,
{
    reveal_strlit(".service");
    reveal_strlit("service");
    reveal_strlit("-ready.service");
    reveal_strlit("-ready");
    reveal_strlit(".target");
    reveal_strlit("target");
    reveal_strlit(".plist");
    reveal_strlit("plist");
    reveal_strlit(".json");
    reveal_strlit("json");
    reveal_strlit(".");
    reveal_strlit("-");
    assert(".service"@ =~= seq!['.'] + "service"@);
    assert("-ready.service"@ =~= "-ready"@ + seq!['.'] + "service"@);
    assert(".target"@ =~= seq!['.'] + "target"@);
    assert(".plist"@ =~= seq!['.'] + "plist"@);
    assert(".json"@ =~= seq!['.'] + "json"@);
    assert("."@ =~= seq!['.']);
}

/// Where artifacts are looked for is where they are written.
pub proof fn law_artifacts_have_their_directory(state_dir: Seq<char>)
    ensures
        artifacts_dir_of(PlatformKind::Systemd, state_dir) == under(state_dir, "units"@),
        artifacts_dir_of(PlatformKind::Launchd, state_dir) == under(state_dir, "units"@),
        artifacts_dir_of(PlatformKind::Orchdi, state_dir) == under(state_dir, "supervise"@),
{
}

/// What is newer than every input need not be generated again.
pub proof fn law_fresh_artifacts_are_kept(
    platform: PlatformKind,
    orchfile: i128,
    overlays: Seq<Option<i128>>,
    files: Seq<UnitFileView>,
    time: i128,
    i: int,
)
    requires
        0 <= i < files.len(),
        is_artifact(platform, files[i].name),
        orchfile <= time,
        forall|k: int|
            0 <= k < overlays.len() ==> ((#[trigger] overlays[k]) matches Some(t) ==> t <= time),
        forall|k: int|
            0 <= k < files.len() && is_artifact(platform, (#[trigger] files[k]).name) ==> (
            files[k].modified matches Some(t) && t >= time),
    ensures
        up_to_date(platform, Some(orchfile), overlays, Some(files)),
{
    lemma_newest(orchfile, overlays, time);
}

proof fn lemma_newest(first: i128, others: Seq<Option<i128>>, time: i128)
    requires
        first <= time,
        forall|k: int|
            0 <= k < others.len() ==> ((#[trigger] others[k]) matches Some(t) ==> t <= time),
    ensures
        newest(first, others) <= time,
    decreases others.len(),
{
    if others.len() > 0 {
        let init = others.drop_last();
        assert forall|k: int| 0 <= k < init.len() implies ((#[trigger] init[k]) matches Some(t)
            ==> t <= time) by {
            assert(init[k] == others[k]);
        }
        lemma_newest(first, init, time);
        assert(others[others.len() - 1] == others.last());
    }
}

/// Without an Orchfile whose time can be told, or a directory that can be listed, or
/// any artifact, nothing is up to date.
pub proof fn law_nothing_known_is_not_fresh(
    platform: PlatformKind,
    orchfile: Option<i128>,
    overlays: Seq<Option<i128>>,
    units: Option<Seq<UnitFileView>>,
)
    requires
        orchfile is None || units is None || (units matches Some(files) && forall|k: int|
            0 <= k < files.len() ==> !is_artifact(platform, (#[trigger] files[k]).name)),
    ensures
        !up_to_date(platform, orchfile, overlays, units),
{
}

/// `orch parse` is handed the Orchfile, then the built-in variables, then the
/// overlays, and last every argument after its flag.
pub proof fn law_parsing_is_handed_everything(
    orchfile: Seq<char>,
    vars: Seq<char>,
    overlays: Seq<Seq<char>>,
    args: Seq<Seq<char>>,
    arg: Seq<char>,
)
    ensures
        parse_args(orchfile, vars, overlays, Seq::empty()) == seq!["parse"@, orchfile, vars]
            + overlays,
        parse_args(orchfile, vars, overlays, args.push(arg)) == parse_args(
            orchfile,
            vars,
            overlays,
            args,
        ) + seq!["--arg"@, arg],
{
    assert(parse_args(orchfile, vars, overlays, Seq::empty()) =~= seq!["parse"@, orchfile, vars]
        + overlays);
    assert(args.push(arg).drop_last() =~= args);
    assert(parse_args(orchfile, vars, overlays, args.push(arg)) =~= parse_args(
        orchfile,
        vars,
        overlays,
        args,
    ) + seq!["--arg"@, arg]);
}

/// The built-in variables tell where data, project and state are.
pub proof fn law_variables_tell_the_places(
    data_dir: Seq<char>,
    project_dir: Seq<char>,
    state_dir: Seq<char>,
)
    ensures
        vars_path(state_dir) == under(under(state_dir, "tmp"@), "orchd-vars.orch"@),
        vars_text(data_dir, project_dir, state_dir)
            == "# Auto-generated by orchd — built-in variable declarations\nARG ORCH_DATA="@
            + data_dir + "\nARG ORCH_PROJECT="@ + project_dir + "\nARG ORCH_STATE_DIR="@
            + state_dir + "\nARG ORCH_CONTAINERS_DIR="@ + project_dir + "\n"@,
{
}

/// Parsing succeeds exactly if `orch parse` wrote a text, and gives that text.
/// Otherwise what went wrong is passed on.
pub proof fn law_only_texts_are_parsed(bin: Seq<char>, outcome: ParseOutcomeView)
    ensures
        parsed(bin, outcome) is Ok <==> outcome is Text,
        outcome matches ParseOutcomeView::Text(s) ==> parsed(bin, outcome) == Ok::<
            Seq<char>,
            EngineErrorView,
        >(s),
        outcome matches ParseOutcomeView::NoDirectory(e) ==> parsed(bin, outcome) == Err::<
            Seq<char>,
            EngineErrorView,
        >(EngineErrorView::OrchParse("failed to create tmp dir: "@ + e)),
        outcome matches ParseOutcomeView::NotWritten(e) ==> parsed(bin, outcome) == Err::<
            Seq<char>,
            EngineErrorView,
        >(EngineErrorView::OrchParse("failed to write vars overlay: "@ + e)),
        outcome matches ParseOutcomeView::NotText(e) ==> parsed(bin, outcome) == Err::<
            Seq<char>,
            EngineErrorView,
        >(EngineErrorView::OrchParse("invalid UTF-8 in orch output: "@ + e)),
        outcome matches ParseOutcomeView::Failed { code: None, stderr } ==> parsed(bin, outcome)
            == Err::<Seq<char>, EngineErrorView>(
            EngineErrorView::OrchParse("exit code "@ + signed_decimal(-1) + ": "@ + trimmed(stderr)),
        ),
        outcome matches ParseOutcomeView::NotRun(e) ==> parsed(bin, outcome) == Err::<
            Seq<char>,
            EngineErrorView,
        >(EngineErrorView::OrchParse("failed to execute '"@ + bin + "': "@ + e)),
        outcome matches ParseOutcomeView::Failed { code: Some(c), stderr } ==> parsed(bin, outcome)
            == Err::<Seq<char>, EngineErrorView>(
            EngineErrorView::OrchParse(
                "exit code "@ + signed_decimal(c as int) + ": "@ + trimmed(stderr),
            ),
        ),
{
}

/// A version is supported exactly if it is `0.2`, with or without further numbers.
pub proof fn law_schemas_match_by_major_and_minor(version: Seq<char>)
    ensures
        schema_of(version) == supported_schema() <==> version == "0.2"@ || "0.2."@.is_prefix_of(
            version,
        ),
{
    reveal_strlit("0.2");
    reveal_strlit("0.2.");
    lemma_find_range(version, '.');
    if let Some(i) = find(version, '.') {
        lemma_find_range(version.skip(i + 1), '.');
        if let Some(j) = find(version.skip(i + 1), '.') {
            assert(version[i + 1 + j] == '.');
            if version.take(i + 1 + j) == "0.2"@ {
                assert(version.take(i + 1 + j).len() == 3);
                assert(version.subrange(0, 4) =~= "0.2."@) by {
                    assert forall|k: int| 0 <= k < 4 implies version[k] == "0.2."@[k] by {
                        if k < 3 {
                            assert(version.take(3)[k] == "0.2"@[k]);
                        }
                    }
                }
            }
        }
    }
    if "0.2."@.is_prefix_of(version) {
        assert forall|k: int| 0 <= k < 4 implies version[k] == "0.2."@[k] by {
            assert(version.subrange(0, 4)[k] == version[k]);
        }
        assert(version[0] == '0' && version[1] == '.' && version[2] == '2' && version[3] == '.');
        lemma_find_first(version, '.', 1);
        lemma_find_first(version.skip(2), '.', 1);
        assert(version.take(3) =~= "0.2"@);
    }
    if version == "0.2"@ {
        assert(version[0] == '0' && version[1] == '.' && version[2] == '2');
        lemma_find_first(version, '.', 1);
        lemma_find_range(version.skip(2), '.');
        if let Some(j) = find(version.skip(2), '.') {
            assert(version.skip(2)[j] == version[2]);
        }
    }
}

/// Each error says of what kind it is and what happened.
pub proof fn law_walk_errors_say_their_kind(
    s: Seq<char>,
    r: RuntimeErrorView,
    p: PlatformErrorView,
)
    ensures
        engine_message(EngineErrorView::OrchParse(s)) == "orch parse failed: "@ + s,
        engine_message(EngineErrorView::JsonDeserialize(s)) == "JSON deserialization failed: "@ + s,
        engine_message(EngineErrorView::Runtime(r)) == "runtime error: "@ + runtime_message(r),
        engine_message(EngineErrorView::Platform(p)) == "platform error: "@ + platform_message(p),
        orchard_message(OrchardErrorView::Stdin(s)) == "read stdin failed: "@ + s,
        orchard_message(OrchardErrorView::Json(s)) == "invalid JSON on stdin: "@ + s,
        orchard_message(OrchardErrorView::Runtime(r)) == "runtime error: "@ + runtime_message(r),
        orchard_message(OrchardErrorView::Other(s)) == s,
{
}

/// What a gathering leaves when it goes past disabled services: everything but how
/// far it is and how many it has skipped.
proof fn lemma_past_disabled(services: Seq<ServiceView>, g: GatheringView)
    ensures
        past_disabled(services, g).exec_sets == g.exec_sets,
        past_disabled(services, g).errors == g.errors,
        past_disabled(services, g).asking == g.asking,
        past_disabled(services, g).next >= g.next,
        past_disabled(services, g).next - g.next == past_disabled(services, g).skipped - g.skipped,
    decreases services.len() - g.next,
{
    if 0 <= g.next < services.len() && services[g.next].disabled {
        lemma_past_disabled(
            services,
            GatheringView { next: g.next + 1, skipped: g.skipped + 1, ..g },
        );
    }
}

/// A service that can be run is kept with its commands; one that cannot is noted by
/// its name with the reason. Nothing else changes, and the next service is on.
pub proof fn law_services_are_kept_or_noted(
    services: Seq<ServiceView>,
    g: GatheringView,
    commands: ExecSetView,
    e: RuntimeErrorView,
)
    ensures
        gather_start() == (GatheringView {
            next: 0,
            asking: false,
            exec_sets: Seq::empty(),
            skipped: 0,
            errors: Seq::empty(),
        }),
        ({
            let kept = with_commands(services, g, Ok(commands));
            let noted = with_commands(services, g, Err(e));
            &&& kept.exec_sets == g.exec_sets.push((g.next as usize, commands))
            &&& kept.errors == g.errors
            &&& !kept.asking
            &&& kept.next > g.next
            &&& noted.exec_sets == g.exec_sets
            &&& noted.errors == g.errors.push(services[g.next].name + ": "@ + runtime_message(e))
            &&& !noted.asking
            &&& noted.next > g.next
        }),
{
    let moved = GatheringView { next: g.next + 1, asking: false, ..g };
    lemma_past_disabled(
        services,
        GatheringView { exec_sets: g.exec_sets.push((g.next as usize, commands)), ..moved },
    );
    lemma_past_disabled(
        services,
        GatheringView {
            errors: g.errors.push(services[g.next].name + ": "@ + runtime_message(e)),
            ..moved
        },
    );
}

/// A service that could not be prepared for is noted; one that was gets the
/// commands of its runtime, or those that the co-process is asked for.
pub proof fn law_prepared_services_get_their_commands(
    services: Seq<ServiceView>,
    runtime: &AnyRuntime,
    g: GatheringView,
    e: RuntimeErrorView,
)
    ensures
        gather_prepared(services, runtime, g, Err(e)) == with_commands(services, g, Err(e)),
        must_ask(runtime, services[g.next]) ==> gather_prepared(services, runtime, g, Ok(())) == (
        GatheringView { asking: true, ..g }),
        !must_ask(runtime, services[g.next]) ==> gather_prepared(services, runtime, g, Ok(()))
            == with_commands(services, g, commands_of(runtime, services[g.next])),
{
}

/// Going up generates first, unless told not to, and then starts what is named.
/// Going down stops first, then removes what was generated, and last the data,
/// unless that is kept. Only stopping and removing data may fail.
pub proof fn law_walks_take_their_steps(
    platform: PlatformKind,
    services: Seq<Seq<char>>,
    data_dir: Seq<char>,
    step: StepView,
)
    ensures
        up_steps(platform, services, false) == seq![
            StepView::Generate { platform },
            StepView::Start { platform, services },
        ],
        up_steps(platform, services, true) == seq![StepView::Start { platform, services }],
        clean_steps(platform, data_dir, true) == seq![
            StepView::Stop { platform },
            StepView::Clean { platform },
        ],
        clean_steps(platform, data_dir, false) == seq![
            StepView::Stop { platform },
            StepView::Clean { platform },
            StepView::RemoveData { path: data_dir },
        ],
        must_succeed(step) <==> !(step is Stop || step is RemoveData),
{
    assert(up_steps(platform, services, false) =~= seq![
        StepView::Generate { platform },
        StepView::Start { platform, services },
    ]);
    assert(up_steps(platform, services, true) =~= seq![StepView::Start { platform, services }]);
    assert(clean_steps(platform, data_dir, true) =~= seq![
        StepView::Stop { platform },
        StepView::Clean { platform },
    ]);
    assert(clean_steps(platform, data_dir, false) =~= seq![
        StepView::Stop { platform },
        StepView::Clean { platform },
        StepView::RemoveData { path: data_dir },
    ]);
}

/// Generating goes through its phases in order: runtime, platform, parsing,
/// gathering, writing, installing. It ends at once where everything is up to date,
/// and with the first error, which it keeps.
pub proof fn law_generating_goes_in_order(
    phase: GeneratePhaseView,
    event: GenerateEventView,
    error: EngineErrorView,
)
    ensures
        generate_start(true) is CheckRuntime,
        generate_start(false) is Freshness,
        ({
            let looked = |fresh: bool|
                generate_next(
                    GeneratePhaseView::Freshness,
                    GenerateEventView::Looked { up_to_date: fresh },
                );
            looked(true) is Done && looked(false) is CheckRuntime
        }),
        ({
            let on = |p: GeneratePhaseView| generate_next(p, GenerateEventView::Succeeded);
            &&& on(GeneratePhaseView::CheckRuntime) is CheckPlatform
            &&& on(GeneratePhaseView::CheckPlatform) is Parse
            &&& on(GeneratePhaseView::Parse) is Gather
            &&& on(GeneratePhaseView::Gather) is Write
            &&& on(GeneratePhaseView::Write) is Install
            &&& on(GeneratePhaseView::Install) is Done
        }),
        !(phase is Done) && !(phase is Failed) ==> generate_next(
            phase,
            GenerateEventView::Erred { error },
        ) == (GeneratePhaseView::Failed { error }),
        phase is Done || phase is Failed ==> generate_next(phase, event) == phase,
{
}

/// Without being forced, nothing is generated unless something was found not to be
/// up to date.
pub proof fn law_fresh_groves_are_left_alone(events: Seq<GenerateEventView>)
    ensures
        ({
            let phase = generate_run(false, events);
            !(phase is Freshness) && !(phase is Done) && !(phase is Failed) ==> exists|j: int|
                0 <= j < events.len() && (#[trigger] events[j]) == (GenerateEventView::Looked {
                    up_to_date: false,
                })
        }),
    decreases events.len(),
{
    if events.len() > 0 {
        let before = events.drop_last();
        law_fresh_groves_are_left_alone(before);
        let was = generate_run(false, before);
        let phase = generate_run(false, events);
        if !(phase is Freshness) && !(phase is Done) && !(phase is Failed) {
            if was is Freshness {
                assert(events[events.len() - 1] == (GenerateEventView::Looked {
                    up_to_date: false,
                }));
            } else {
                let j = choose|j: int|
                    0 <= j < before.len() && (#[trigger] before[j]) == (GenerateEventView::Looked {
                        up_to_date: false,
                    });
                assert(events[j] == before[j]);
            }
        }
    }
}

/// Sowing pairs each service that can be run with its commands, and planting takes
/// the pairs as they are.
pub proof fn law_trees_pair_services_with_commands(
    services: Seq<ServiceView>,
    exec_sets: Seq<(usize, ExecSetView)>,
    trees: Seq<TreeView>,
    i: int,
)
    ensures
        trees_of(services, exec_sets).len() == exec_sets.len(),
        0 <= i < exec_sets.len() ==> trees_of(services, exec_sets)[i].service
            == services[exec_sets[i].0 as int] && trees_of(services, exec_sets)[i].exec_set
            == exec_sets[i].1,
        planted_services(trees).len() == trees.len(),
        planted_execs(trees).len() == trees.len(),
        0 <= i < trees.len() <= usize::MAX ==> planted_services(trees)[i] == trees[i].service
            && planted_execs(trees)[i].0 == i && planted_execs(trees)[i].1 == trees[i].exec_set,
{
}

/// Tending writes every artifact where it belongs, then installs, and then starts
/// where it is told to.
pub proof fn law_tending_writes_installs_and_starts(
    artifacts: Seq<ArtifactView>,
    platform: PlatformKind,
    start: bool,
    i: int,
)
    ensures
        ({
            let steps = tend_steps(artifacts, platform, start);
            &&& steps.len() == artifacts.len() + 1 + (if start {
                1int
            } else {
                0
            })
            &&& 0 <= i < artifacts.len() ==> steps[i] == (TendStepView::Write {
                path: artifacts[i].path,
                content: artifacts[i].content,
            })
            &&& steps[artifacts.len() as int] == (TendStepView::Install { platform })
            &&& start ==> steps[artifacts.len() as int + 1] == (TendStepView::Start { platform })
        }),
{
}

/// Capital letters of ASCII become small ones, and nothing else changes.
pub proof fn law_lower_case_is_of_ascii(s: Seq<char>, i: int)
    requires
        0 <= i < s.len(),
    ensures
        lowercase(s).len() == s.len(),
        'A' <= s[i] <= 'Z' ==> lowercase(s)[i] as int == s[i] as int + ('a' as int - 'A' as int),
        !('A' <= s[i] <= 'Z') ==> lowercase(s)[i] == s[i],
{
}

/// Words are what white space parts.
pub proof fn law_words_are_parted_by_white_space(
    blank: Seq<char>,
    word: Seq<char>,
    c: char,
    rest: Seq<char>,
)
    requires
        is_blank(blank),
        word.len() > 0,
        forall|i: int| 0 <= i < word.len() ==> !is_whitespace(#[trigger] word[i]),
        is_whitespace(c),
    ensures
        words(blank) == Seq::<Seq<char>>::empty(),
        words(blank + word) == seq![word],
        words(blank + word + seq![c] + rest) == seq![word] + words(seq![c] + rest),
        words(seq![c] + rest) == words(rest),
{
    lemma_skip_blank(blank, Seq::empty());
    assert(blank + Seq::<char>::empty() =~= blank);
    lemma_skip_blank(blank, word);
    lemma_word_len(word, Seq::empty());
    assert(word + Seq::<char>::empty() =~= word);
    assert(word.take(word.len() as int) =~= word);
    assert(word.skip(word.len() as int) =~= Seq::empty());
    assert(words(Seq::empty()) =~= Seq::<Seq<char>>::empty());
    assert(words(blank + word) =~= seq![word]);
    let tail = seq![c] + rest;
    let all = word + tail;
    assert(blank + word + seq![c] + rest =~= blank + all);
    lemma_skip_blank(blank, all);
    lemma_word_len(word, tail);
    assert(all[0] == word[0]);
    assert(all.take(word.len() as int) =~= word);
    assert(all.skip(word.len() as int) =~= tail);
    assert(tail.skip(1) =~= rest);
    assert(trim_start(tail) == trim_start(rest));
}

proof fn lemma_skip_blank(blank: Seq<char>, s: Seq<char>)
    requires
        is_blank(blank),
        s.len() > 0 ==> !is_whitespace(s[0]),
    ensures
        trim_start(blank + s) == s,
    decreases blank.len(),
{
    if blank.len() == 0 {
        assert(blank + s =~= s);
    } else {
        let rest = blank.skip(1);
        assert((blank + s)[0] == blank[0]);
        assert((blank + s).skip(1) =~= rest + s);
        assert forall|i: int| 0 <= i < rest.len() implies is_whitespace(#[trigger] rest[i]) by {
            assert(rest[i] == blank[i + 1]);
        }
        lemma_skip_blank(rest, s);
    }
}

proof fn lemma_word_len(word: Seq<char>, tail: Seq<char>)
    requires
        forall|i: int| 0 <= i < word.len() ==> !is_whitespace(#[trigger] word[i]),
        tail.len() > 0 ==> is_whitespace(tail[0]),
    ensures
        word_len(word + tail) == word.len(),
    decreases word.len(),
{
    if word.len() == 0 {
        assert(word + tail =~= tail);
    } else {
        let rest = word.skip(1);
        assert((word + tail)[0] == word[0]);
        assert((word + tail).skip(1) =~= rest + tail);
        assert forall|i: int| 0 <= i < rest.len() implies !is_whitespace(#[trigger] rest[i]) by {
            assert(rest[i] == word[i + 1]);
        }
        lemma_word_len(rest, tail);
    }
}

/// Texts are ordered as in a dictionary: the first difference decides, and what only
/// goes on longer comes later.
pub proof fn law_texts_are_ordered_by_their_first_difference(
    start: Seq<char>,
    a: char,
    b: char,
    x: Seq<char>,
    y: Seq<char>,
)
    requires
        a < b,
    ensures
        text_lt(start + seq![a] + x, start + seq![b] + y),
        !text_le(start + seq![b] + y, start + seq![a] + x),
        text_lt(start, start + seq![a] + x),
        text_le(start, start),
    decreases start.len(),
{
    let p = start + seq![a] + x;
    let q = start + seq![b] + y;
    if start.len() > 0 {
        let rest = start.skip(1);
        law_texts_are_ordered_by_their_first_difference(rest, a, b, x, y);
        assert(p.skip(1) =~= rest + seq![a] + x);
        assert(q.skip(1) =~= rest + seq![b] + y);
        assert(p[0] == start[0] && q[0] == start[0]);
    } else {
        assert(p[0] == a && q[0] == b);
    }
    assert(p[start.len() as int] == a && q[start.len() as int] == b);
    assert(p.len() > start.len());
}

/// The extension of a file's name is what follows its last dot, and the stem what
/// precedes it; a dot that begins a name parts nothing.
pub proof fn law_extensions_follow_the_last_dot(base: Seq<char>, ext: Seq<char>)
    requires
        forall|i: int| 0 <= i < ext.len() ==> ext[i] != '.',
    ensures
        base.len() > 0 ==> extension(base + seq!['.'] + ext) == Some(ext),
        base.len() > 0 ==> stem(base + seq!['.'] + ext) == base,
        extension(seq!['.'] + ext) is None,
        stem(seq!['.'] + ext) == seq!['.'] + ext,
        extension(ext) is None,
        stem(ext) == ext,
{
    if base.len() > 0 {
        lemma_with_extension(base, ext);
    }
    let hidden = seq!['.'] + ext;
    lemma_last_dot(ext);
    lemma_last_dot(hidden);
    match last_dot(hidden) {
        Some(i) => {
            if i > 0 {
                assert(hidden[i] == ext[i - 1]);
            }
        },
        None => {
            assert(hidden[0] == '.');
        },
    }
}

/// A character is found where it first stands.
pub proof fn law_characters_are_found_first(before: Seq<char>, c: char, after: Seq<char>)
    requires
        !before.contains(c),
    ensures
        find(before + seq![c] + after, c) == Some(before.len() as int),
        find(before, c) is None,
{
    let whole = before + seq![c] + after;
    assert forall|j: int| 0 <= j < before.len() implies whole[j] != c by {
        assert(before.contains(before[j]));
    }
    lemma_find_first(whole, c, before.len() as int);
    lemma_find_range(before, c);
    if find(before, c) is Some {
        assert(before.contains(before[find(before, c)->0]));
    }
}

/// What begins a text can be taken off its front, and nothing else can.
pub proof fn law_beginnings_are_taken_off(part: Seq<char>, rest: Seq<char>, s: Seq<char>)
    ensures
        without_prefix(part + rest, part) == Some(rest),
        without_prefix(s, part) matches Some(r) ==> s == part + r,
{
    assert((part + rest).skip(part.len() as int) =~= rest);
    assert(part.is_prefix_of(part + rest));
    if part.is_prefix_of(s) {
        assert(s =~= part + s.skip(part.len() as int));
    }
}

/// What ends a text can be taken off its end, once or as often as it is there, and
/// nothing else can.
pub proof fn law_ends_are_taken_off(rest: Seq<char>, part: Seq<char>, s: Seq<char>)
    ensures
        without_suffix(rest + part, part) == Some(rest),
        without_suffix(s, part) matches Some(r) ==> s == r + part,
        part.len() > 0 ==> without_suffixes(rest + part, part) == without_suffixes(rest, part),
        !part.is_suffix_of(s) ==> without_suffixes(s, part) == s,
{
    assert((rest + part).take(rest.len() as int) =~= rest);
    assert(part.is_suffix_of(rest + part));
    if part.is_suffix_of(s) {
        assert(s =~= s.take(s.len() - part.len()) + part);
    }
}

/// A part occurs in a text that has it anywhere, and in no other.
pub proof fn law_parts_occur_anywhere(
    before: Seq<char>,
    part: Seq<char>,
    after: Seq<char>,
    s: Seq<char>,
)
    ensures
        occurs(part, before + part + after),
        occurs(part, s) ==> exists|i: int|
            0 <= i <= s.len() - part.len() && s == #[trigger] s.take(i) + part + s.skip(
                i + part.len(),
            ),
{
    let n: int = before.len() as int;
    assert((before + part + after).subrange(n, n + part.len()) =~= part);
    if occurs(part, s) {
        let i = choose|i: int|
            0 <= i && i + part.len() <= s.len() && #[trigger] s.subrange(i, i + part.len())
                == part;
        assert(s =~= s.take(i) + s.subrange(i, i + part.len()) + s.skip(i + part.len()));
    }
}

/// A number is read as it is written, with or without its sign, if it is not too
/// large; what holds anything but digits is no number.
pub proof fn law_numbers_are_read_as_written(n: nat, max: nat, s: Seq<char>, i: int)
    ensures
        parse_unsigned(decimal(n), max) == (if n <= max {
            Some(n)
        } else {
            None
        }),
        parse_unsigned(seq!['+'] + decimal(n), max) == (if n <= max {
            Some(n)
        } else {
            None
        }),
        parse_signed(decimal(n)) == (if n <= i32::MAX {
            Some(n as int)
        } else {
            None
        }),
        parse_signed(seq!['-'] + decimal(n)) == (if -n >= i32::MIN {
            Some(-n)
        } else {
            None
        }),
        parse_unsigned(Seq::empty(), max) is None,
        0 < i < s.len() && !is_digit(s[i]) ==> parse_unsigned(s, max) is None,
        0 < i < s.len() && !is_digit(s[i]) ==> parse_signed(s) is None,
        s.len() > 0 && !is_digit(s[0]) && s[0] != '+' ==> parse_unsigned(s, max) is None,
        s.len() > 0 && !is_digit(s[0]) && s[0] != '+' && s[0] != '-' ==> parse_signed(s) is None,
{
    let d = decimal(n);
    lemma_decimal_round_trip(n, n);
    assert(is_digit(d[0]));
    assert((seq!['+'] + d).skip(1) =~= d);
    assert((seq!['-'] + d).skip(1) =~= d);
    if 0 < i < s.len() && !is_digit(s[i]) {
        assert(s.skip(1)[i - 1] == s[i]);
    }
}

/// Numbers are written to the base of ten, the digits from `0` to `9` in a row.
pub proof fn law_numbers_are_decimal(n: nat, d: nat)
    requires
        d < 10,
    ensures
        decimal(d).len() == 1,
        decimal(d)[0] as int == '0' as int + d,
        n > 0 ==> decimal(n * 10 + d) == decimal(n) + decimal(d),
{
    if n > 0 {
        let m: nat = n * 10 + d;
        assert(m / 10 == n && m % 10 == d);
        assert(decimal(m) =~= decimal(n) + decimal(d));
    }
}

} // verus!
