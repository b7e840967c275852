//! Supervisors as detached processes, tracked by pid files.

use crate::config::Config;
use crate::orchdi::{label_of, service_label, spec_path, supervise_spec_path};
use crate::paths::{
    extension, extension_of, join, lemma_with_extension, stem, stem_of, under,
};
use crate::platform::launchd::lifecycle::{service_labels, tail_args};
use crate::platform::status::{padded, push_padded};
use crate::platform::{
    get_or, push_signed, result_view, signed_decimal, value_or, Host, Invocation, InvocationView,
    Outcome, OutcomeView, PlatformError, PlatformErrorView,
};
use crate::text::chars::same_text;
use crate::text::number::{decimal, decimal_of, parse_i32, parse_signed};
use crate::text::scan::{lemma_prefixes_nest, starts_with, trim, trimmed};
use vstd::prelude::*;

verus! {

/// Where pid files are kept.
pub open spec fn run_dir_of(state_dir: Seq<char>) -> Seq<char> {
    under(state_dir, "run"@)
}

/// Where logs are kept.
pub open spec fn logs_dir_of(state_dir: Seq<char>) -> Seq<char> {
    under(state_dir, "logs"@)
}

/// Where pid files are kept.
pub fn run_dir(config: &Config) -> (r: String)
    ensures
        r@ == run_dir_of(config.state_dir@),
{
    join(config.state_dir.as_str(), "run")
}

/// Where logs are kept.
pub fn logs_dir(config: &Config) -> (r: String)
    ensures
        r@ == logs_dir_of(config.state_dir@),
{
    join(config.state_dir.as_str(), "logs")
}

/// The pid file of a label.
pub fn pidfile(config: &Config, label: &str) -> (r: String)
    ensures
        r@ == under(run_dir_of(config.state_dir@), label@ + ".pid"@),
{
    let mut file = label.to_string();
    file.append(".pid");
    join(run_dir(config).as_str(), file.as_str())
}

/// The log of a label.
pub open spec fn log_of(state_dir: Seq<char>, label: Seq<char>) -> Seq<char> {
    under(logs_dir_of(state_dir), label + ".log"@)
}

/// The log of a label.
pub fn logfile(config: &Config, label: &str) -> (r: String)
    ensures
        r@ == log_of(config.state_dir@, label@),
{
    let mut file = label.to_string();
    file.append(".log");
    join(logs_dir(config).as_str(), file.as_str())
}

/// The process id that the text of a pid file gives.
pub open spec fn pid_of(content: Option<Seq<char>>) -> Option<int> {
    match content {
        Some(text) => parse_signed(trimmed(text)),
        None => None,
    }
}

/// Reads the text of a pid file, if there is one.
pub fn read_pid(content: &Option<String>) -> (r: Option<i32>)
    ensures
        match r {
            Some(p) => pid_of(content.deep_view()) == Some(p as int),
            None => pid_of(content.deep_view()) is None,
        },
{
    match content {
        Some(text) => parse_i32(trim(text.as_str()).as_str()),
        None => None,
    }
}

/// The stems of the files with an extension.
pub open spec fn stems_of(files: Seq<Seq<char>>, ext: Seq<char>) -> Seq<Seq<char>>
    decreases files.len(),
{
    if files.len() == 0 {
        Seq::empty()
    } else {
        let before = stems_of(files.drop_last(), ext);
        if extension(files.last()) == Some(ext) {
            before.push(stem(files.last()))
        } else {
            before
        }
    }
}

/// The stems of the files with an extension.
pub fn stems(files: &Vec<String>, ext: &str) -> (r: Vec<String>)
    ensures
        r.deep_view() == stems_of(files.deep_view(), ext@),
{
    let mut r: Vec<String> = Vec::new();
    let ghost all = files.deep_view();
    let n: usize = files.len();
    assert(r.deep_view() =~= stems_of(all.take(0), ext@));
    for i in 0..n
        invariant
            n == files@.len(),
            all == files.deep_view(),
            r.deep_view() == stems_of(all.take(i as int), ext@),
    {
        let ghost done = r.deep_view();
        let file = files[i].as_str();
        assert(all.take(i + 1).drop_last() == all.take(i as int));
        assert(all.take(i + 1).last() == file@);
        let has = match extension_of(file) {
            Some(e) => same_text(e.as_str(), ext),
            None => false,
        };
        if has {
            let s = stem_of(file);
            let ghost v = s@;
            r.push(s);
            assert(r.deep_view() =~= done.push(v));
        }
    }
    assert(all.take(n as int) == all);
    r
}

/// Whether a label is of the namespace.
pub open spec fn is_own(label: Seq<char>, namespace: Seq<char>) -> bool {
    (namespace + "."@).is_prefix_of(label)
}

/// Tells whether a label is of the namespace.
pub fn check_own(label: &str, config: &Config) -> (r: bool)
    ensures
        r == is_own(label@, config.namespace@),
{
    let mut prefix = config.namespace.clone();
    prefix.append(".");
    starts_with(label, prefix.as_str())
}

/// The labels of the namespace among labels.
pub open spec fn own(labels: Seq<Seq<char>>, namespace: Seq<char>) -> Seq<Seq<char>>
    decreases labels.len(),
{
    if labels.len() == 0 {
        Seq::empty()
    } else {
        let before = own(labels.drop_last(), namespace);
        if is_own(labels.last(), namespace) {
            before.push(labels.last())
        } else {
            before
        }
    }
}

/// The labels of the namespace that the files with an extension give.
pub fn own_labels(files: &Vec<String>, ext: &str, config: &Config) -> (r: Vec<String>)
    ensures
        r.deep_view() == own(stems_of(files.deep_view(), ext@), config.namespace@),
{
    let labels = stems(files, ext);
    let ghost all = labels.deep_view();
    let ghost ns = config.namespace@;
    let mut r: Vec<String> = Vec::new();
    let n: usize = labels.len();
    assert(r.deep_view() =~= own(all.take(0), ns));
    for i in 0..n
        invariant
            n == labels@.len(),
            all == labels.deep_view(),
            ns == config.namespace@,
            r.deep_view() == own(all.take(i as int), ns),
    {
        let ghost done = r.deep_view();
        assert(all.take(i + 1).drop_last() == all.take(i as int));
        assert(all.take(i + 1).last() == labels@[i as int]@);
        if check_own(labels[i].as_str(), config) {
            r.push(labels[i].clone());
            assert(r.deep_view() =~= done.push(all[i as int]));
        }
    }
    assert(all.take(n as int) == all);
    r
}

/// The labels of services.
pub open spec fn named_labels(services: Seq<Seq<char>>, namespace: Seq<char>) -> Seq<Seq<char>> {
    services.map_values(|s: Seq<char>| label_of(namespace, s))
}

/// The labels to start: those of the services named, or those of every spec file,
/// of whatever namespace, where none is named.
pub open spec fn started_labels(
    services: Seq<Seq<char>>,
    spec_files: Seq<Seq<char>>,
    namespace: Seq<char>,
) -> Seq<Seq<char>> {
    if services.len() == 0 {
        stems_of(spec_files, "json"@)
    } else {
        named_labels(services, namespace)
    }
}

/// The labels to stop: those of the services named, or those of the namespace
/// that the pid files give, where none is named.
pub open spec fn stopped_labels(
    services: Seq<Seq<char>>,
    pid_files: Seq<Seq<char>>,
    namespace: Seq<char>,
) -> Seq<Seq<char>> {
    if services.len() == 0 {
        own(stems_of(pid_files, "pid"@), namespace)
    } else {
        named_labels(services, namespace)
    }
}

/// The labels to start: the services named, or every spec that was generated.
pub fn labels_to_start(services: &Vec<String>, spec_files: &Vec<String>, config: &Config) -> (r:
    Vec<String>)
    ensures
        r.deep_view() == started_labels(
            services.deep_view(),
            spec_files.deep_view(),
            config.namespace@,
        ),
{
    if services.len() == 0 {
        stems(spec_files, "json")
    } else {
        service_labels(services, config)
    }
}

/// The labels to stop: the services named, or every pid file of the namespace.
pub fn labels_to_stop(services: &Vec<String>, pid_files: &Vec<String>, config: &Config) -> (r: Vec<
    String,
>)
    ensures
        r.deep_view() == stopped_labels(
            services.deep_view(),
            pid_files.deep_view(),
            config.namespace@,
        ),
{
    if services.len() == 0 {
        own_labels(pid_files, "pid", config)
    } else {
        service_labels(services, config)
    }
}

/// Starting a label: nothing where a supervisor is alive, else the command that
/// spawns one.
pub fn start(label: &str, pid: Option<i32>, alive: bool, config: &Config, host: &Host) -> (r:
    Option<Invocation>)
    ensures
        r.deep_view() == (if pid is Some && alive {
            None
        } else {
            Some(
                InvocationView {
                    program: value_or(host.exe.deep_view(), "orchd"@),
                    args: seq!["supervise"@, "--spec"@, spec_path(config.state_dir@, label@)],
                },
            )
        }),
{
    if pid.is_some() && alive {
        return None;
    }
    let mut args: Vec<String> = Vec::new();
    args.push("supervise".to_string());
    args.push("--spec".to_string());
    args.push(supervise_spec_path(config, label));
    assert(args.deep_view() =~= seq![
        "supervise"@,
        "--spec"@,
        spec_path(config.state_dir@, label@),
    ]);
    Some(Invocation { program: get_or(&host.exe, "orchd"), args })
}

/// Reports that a supervisor could not be spawned.
pub fn spawn_failed(reason: &str) -> (r: PlatformError)
    ensures
        r@ == PlatformErrorView::LifecycleFailed("spawn supervisor: "@ + reason@),
{
    let mut m = "spawn supervisor: ".to_string();
    m.append(reason);
    PlatformError::LifecycleFailed(m)
}

/// Stopping a label: whom to tell to terminate, and the pid file to remove.
pub fn stop(label: &str, pid: Option<i32>, config: &Config) -> (r: (Option<i32>, String))
    ensures
        r.0 == pid,
        r.1@ == under(run_dir_of(config.state_dir@), label@ + ".pid"@),
{
    (pid, pidfile(config, label))
}

/// A supervisor as the status shows it.
#[derive(Debug)]
pub struct Row {
    pub label: String,
    pub pid: Option<i32>,
    pub running: bool,
}

#[verifier::ext_equal]
pub struct RowView {
    pub label: Seq<char>,
    pub pid: Option<i32>,
    pub running: bool,
}

impl View for Row {
    type V = RowView;

    open spec fn view(&self) -> RowView {
        RowView { label: self.label@, pid: self.pid, running: self.running }
    }
}

impl DeepView for Row {
    type V = RowView;

    open spec fn deep_view(&self) -> RowView {
        self@
    }
}

/// The row of a label, given its process id and whether that process is alive.
pub fn row(label: &str, pid: Option<i32>, alive: bool) -> (r: Row)
    ensures
        r@ == (RowView { label: label@, pid, running: pid is Some && alive }),
{
    Row { label: label.to_string(), pid, running: pid.is_some() && alive }
}

/// A row as a JSON object.
pub open spec fn json_row(row: RowView) -> Seq<char> {
    "{\"label\":\""@ + row.label + "\",\"pid\":"@ + signed_decimal(
        match row.pid {
            Some(p) => p as int,
            None => 0,
        },
    ) + ",\"running\":"@ + (if row.running {
        "true"@
    } else {
        "false"@
    }) + "}"@
}

/// Rows as JSON objects with commas between them.
pub open spec fn json_rows(rows: Seq<RowView>) -> Seq<char>
    decreases rows.len(),
{
    if rows.len() == 0 {
        Seq::empty()
    } else if rows.len() == 1 {
        json_row(rows[0])
    } else {
        json_rows(rows.drop_last()) + ","@ + json_row(rows.last())
    }
}

/// A row as a line of text.
pub open spec fn text_row(row: RowView) -> Seq<char> {
    padded(row.label, 28) + " "@ + padded(
        match row.pid {
            Some(p) => signed_decimal(p as int),
            None => "-"@,
        },
        8,
    ) + " "@ + (if row.running {
        "running\n"@
    } else {
        "stopped\n"@
    })
}

/// Rows as lines of text.
pub open spec fn text_rows(rows: Seq<RowView>) -> Seq<char>
    decreases rows.len(),
{
    if rows.len() == 0 {
        Seq::empty()
    } else {
        text_rows(rows.drop_last()) + text_row(rows.last())
    }
}

/// What the status shows.
pub open spec fn shown(rows: Seq<RowView>, as_json: bool) -> Seq<char> {
    if as_json {
        "["@ + json_rows(rows) + "]\n"@
    } else if rows.len() == 0 {
        "no orchdi services\n"@
    } else {
        text_rows(rows)
    }
}

fn push_json_row(out: &mut String, row: &Row)
    ensures
        final(out)@ == old(out)@ + json_row(row@),
{
    let ghost before = out@;
    let pid: i32 = match row.pid {
        Some(p) => p,
        None => 0,
    };
    out.append("{\"label\":\"");
    out.append(row.label.as_str());
    out.append("\",\"pid\":");
    push_signed(out, pid);
    out.append(",\"running\":");
    if row.running {
        out.append("true");
    } else {
        out.append("false");
    }
    out.append("}");
    assert(out@ =~= before + json_row(row@));
}

fn push_text_row(out: &mut String, row: &Row)
    ensures
        final(out)@ == old(out)@ + text_row(row@),
{
    let ghost before = out@;
    let mut pid = String::new();
    match row.pid {
        Some(p) => {
            push_signed(&mut pid, p);
            assert(pid@ =~= signed_decimal(p as int));
        },
        None => {
            pid = "-".to_string();
        },
    }
    push_padded(out, row.label.as_str(), 28);
    out.append(" ");
    push_padded(out, pid.as_str(), 8);
    out.append(" ");
    if row.running {
        out.append("running\n");
    } else {
        out.append("stopped\n");
    }
    assert(out@ =~= before + text_row(row@));
}

/// Shows the supervisors, as text or as JSON.
pub fn status(rows: &Vec<Row>, as_json: bool) -> (r: String)
    ensures
        r@ == shown(rows.deep_view(), as_json),
{
    let n: usize = rows.len();
    let ghost all = rows.deep_view();
    if as_json {
        let mut out = "[".to_string();
        let ghost head = out@;
        assert(out@ =~= head + json_rows(all.take(0)));
        for i in 0..n
            invariant
                n == rows@.len(),
                all == rows.deep_view(),
                out@ == head + json_rows(all.take(i as int)),
        {
            assert(all.take(i + 1).drop_last() == all.take(i as int));
            assert(all.take(i + 1).last() == rows@[i as int]@);
            if i > 0 {
                out.append(",");
            }
            push_json_row(&mut out, &rows[i]);
            assert(out@ =~= head + json_rows(all.take(i + 1)));
        }
        assert(all.take(n as int) == all);
        out.append("]\n");
        out
    } else if n == 0 {
        "no orchdi services\n".to_string()
    } else {
        let mut out = String::new();
        assert(out@ =~= text_rows(all.take(0)));
        for i in 0..n
            invariant
                n == rows@.len(),
                all == rows.deep_view(),
                out@ == text_rows(all.take(i as int)),
        {
            assert(all.take(i + 1).drop_last() == all.take(i as int));
            assert(all.take(i + 1).last() == rows@[i as int]@);
            push_text_row(&mut out, &rows[i]);
        }
        assert(all.take(n as int) == all);
        out
    }
}

/// The command that shows a service's log.
pub fn logs(service: &str, follow: bool, lines: u32, config: &Config) -> (r: Invocation)
    ensures
        r@ == (InvocationView {
            program: "tail"@,
            args: tail_args(
                lines as nat,
                follow,
                seq![log_of(config.state_dir@, label_of(config.namespace@, service@))],
            ),
        }),
{
    let label = service_label(config, service);
    let file = logfile(config, label.as_str());
    let mut args: Vec<String> = Vec::new();
    args.push("-n".to_string());
    args.push(decimal_of(lines as u64));
    assert(args.deep_view() =~= seq!["-n"@, decimal(lines as nat)]);
    let ghost head = args.deep_view();
    if follow {
        args.push("-f".to_string());
        assert(args.deep_view() =~= head + seq!["-f"@]);
    }
    let ghost mid = args.deep_view();
    assert(mid =~= head + (if follow {
        seq!["-f"@]
    } else {
        seq![]
    }));
    args.push(file);
    assert(args.deep_view() =~= mid + seq![file@]);
    Invocation { program: "tail".to_string(), args }
}

/// What the command that shows a log results in: it only has to run.
pub fn judge_logs(outcome: &Outcome) -> (r: Result<(), PlatformError>)
    ensures
        result_view(r) == (match outcome@ {
            OutcomeView::NotRun(e) => Err(PlatformErrorView::LifecycleFailed("tail: "@ + e)),
            OutcomeView::Ended { .. } => Ok(()),
        }),
{
    match outcome {
        Outcome::NotRun(e) => {
            let mut m = "tail: ".to_string();
            m.append(e.as_str());
            Err(PlatformError::LifecycleFailed(m))
        },
        Outcome::Ended { .. } => Ok(()),
    }
}

/// The spec file and the pid file of a service are found again as the label they
/// were made for, so that starting and stopping without names reach the service.
pub proof fn law_files_give_their_labels(namespace: Seq<char>, service: Seq<char>)
    ensures
        ({
            let label = label_of(namespace, service);
            &&& started_labels(Seq::empty(), seq![label + ".json"@], namespace) == seq![label]
            &&& stopped_labels(Seq::empty(), seq![label + ".pid"@], namespace) == seq![label]
        }),
{
    reveal_strlit(".");
    reveal_strlit(".json");
    reveal_strlit("json");
    reveal_strlit(".pid");
    reveal_strlit("pid");
    reveal_with_fuel(stems_of, 2);
    reveal_with_fuel(own, 2);
    let label = label_of(namespace, service);
    assert(label + ".json"@ =~= label + seq!['.'] + "json"@);
    assert(label + ".pid"@ =~= label + seq!['.'] + "pid"@);
    lemma_with_extension(label, "json"@);
    lemma_with_extension(label, "pid"@);
    assert(seq![label + ".json"@].drop_last() =~= Seq::<Seq<char>>::empty());
    assert(seq![label + ".pid"@].drop_last() =~= Seq::<Seq<char>>::empty());
    assert(stems_of(seq![label + ".json"@], "json"@) =~= seq![label]);
    assert(stems_of(seq![label + ".pid"@], "pid"@) =~= seq![label]);
    assert(label.subrange(0, (namespace + "."@).len() as int) =~= namespace + "."@);
    assert(seq![label].drop_last() =~= Seq::<Seq<char>>::empty());
    assert(own(seq![label], namespace) =~= seq![label]);
}

/// Groves are apart: a label of another namespace is not of this one, as long as
/// neither namespace, with its separator, begins the other.
pub proof fn law_groves_are_apart(namespace: Seq<char>, other: Seq<char>, service: Seq<char>)
    requires
        !(namespace + "."@).is_prefix_of(other + "."@),
        !(other + "."@).is_prefix_of(namespace + "."@),
    ensures
        !is_own(label_of(other, service), namespace),
{
    let label = label_of(other, service);
    let theirs = other + "."@;
    assert(label.subrange(0, theirs.len() as int) =~= theirs);
    if is_own(label, namespace) {
        lemma_prefixes_nest(namespace + "."@, theirs, label);
    }
}

/// Stopping without names stops labels of the namespace alone.
pub proof fn law_only_own_labels_are_stopped(
    pid_files: Seq<Seq<char>>,
    namespace: Seq<char>,
    i: int,
)
    requires
        0 <= i < stopped_labels(Seq::empty(), pid_files, namespace).len(),
    ensures
        is_own(stopped_labels(Seq::empty(), pid_files, namespace)[i], namespace),
{
    lemma_own(stems_of(pid_files, "pid"@), namespace, i);
}

proof fn lemma_own(labels: Seq<Seq<char>>, namespace: Seq<char>, i: int)
    requires
        0 <= i < own(labels, namespace).len(),
    ensures
        is_own(own(labels, namespace)[i], namespace),
    decreases labels.len(),
{
    if labels.len() > 0 {
        let before = own(labels.drop_last(), namespace);
        if i < before.len() {
            lemma_own(labels.drop_last(), namespace, i);
        }
    }
}

} // verus!
