//! What the supervisor does over a run, and what its specs ask of it.

use crate::exec::ExecSetView;
use crate::orchdi::supervise::{action_of, next, notice_of, phase_after, ActionView, Event, Phase};
use crate::orchdi::{
    dep_gates, duration, find_enabled, gate_of, gates_of, health_command, label_of, marker_path,
    optional_duration, spec_path, supervise_spec_of, GateView, SuperviseSpecView,
};
use crate::paths::under;
use crate::text::number::is_digit;
use crate::text::scan::trimmed;
use crate::types::ServiceView;
use vstd::prelude::*;

verus! {

/// What the supervisor has to do after a run of events.
pub open spec fn doing(spec: SuperviseSpecView, events: Seq<Event>) -> ActionView {
    action_of(spec, phase_after(spec, events))
}

/// The seconds that the main process is given to end by itself.
pub open spec fn grace(spec: SuperviseSpecView) -> nat {
    if spec.stop_timeout_secs < 1 {
        1
    } else {
        spec.stop_timeout_secs
    }
}

/// Whether at `j` the supervisor had waited for the main process to end by itself,
/// and its time was up.
pub open spec fn time_was_up(spec: SuperviseSpecView, events: Seq<Event>, j: int) -> bool {
    &&& 0 <= j < events.len()
    &&& phase_after(spec, events.take(j)) is Drain
    &&& doing(spec, events.take(j)) == (ActionView::Drain { grace_secs: grace(spec) })
    &&& events[j] == (Event::Alive { expired: true })
}

/// The main process is killed only after it was given its time to end by itself
/// and has not done so.
pub proof fn law_killing_is_the_last_resort(spec: SuperviseSpecView, events: Seq<Event>)
    requires
        phase_after(spec, events) is Kill || doing(spec, events) is Kill,
    ensures
        phase_after(spec, events) is Kill,
        exists|j: int| time_was_up(spec, events, j),
    decreases events.len(),
{
    if events.len() > 0 {
        let before = events.drop_last();
        let last = events.len() - 1;
        assert(events.take(last) == before);
        if phase_after(spec, before) is Kill {
            law_killing_is_the_last_resort(spec, before);
            let j = choose|j: int| time_was_up(spec, before, j);
            assert(before.take(j) == events.take(j));
            assert(time_was_up(spec, events, j));
        } else {
            assert(time_was_up(spec, events, last));
        }
    }
}

/// Once the supervisor is told to end, it runs the stop command or, where there is
/// none, sends the signal to terminate. Whatever comes of that, the main process
/// then has its whole time to end by itself.
pub proof fn law_stopping_is_graceful(
    spec: SuperviseSpecView,
    events: Seq<Event>,
    asked: Event,
)
    requires
        phase_after(spec, events) is Running,
        asked is Ran || asked is Performed,
    ensures
        doing(spec, events) is Watch,
        doing(spec, events.push(Event::Terminated)) == (match spec.stop {
            Some(cmd) => ActionView::Run { cmd },
            None => ActionView::Terminate,
        }),
        doing(spec, events.push(Event::Terminated).push(asked)) == (ActionView::Drain {
            grace_secs: grace(spec),
        }),
        phase_after(spec, events.push(Event::Terminated).push(asked)) is Drain,
{
    let told = events.push(Event::Terminated);
    assert(told.drop_last() =~= events);
    assert(told.push(asked).drop_last() =~= told);
}

/// While the main process is given its time, the supervisor goes on waiting, kills
/// it once the time is up, and is done with it as soon as it has ended.
pub proof fn law_waiting_ends_with_the_process(spec: SuperviseSpecView, code: Option<i32>)
    ensures
        next(spec, Phase::Drain, Event::Alive { expired: false }) is Drain,
        action_of(spec, next(spec, Phase::Drain, Event::Alive { expired: true })) is Kill,
        after_the_end(spec, next(spec, Phase::Drain, Event::Exited { code })),
        after_the_end(spec, next(spec, Phase::Drain, Event::WaitFailed)),
        after_the_end(spec, next(spec, Phase::Kill, Event::Performed)),
{
}

/// Whether a phase follows a main process that was stopped: the command that is to
/// follow it is run, and then, or where there is none at once, the supervisor ends
/// with code 0.
pub open spec fn after_the_end(spec: SuperviseSpecView, phase: Phase) -> bool {
    match spec.post_stop {
        Some(cmd) => action_of(spec, phase) == (ActionView::Run { cmd }) && forall|success: bool|
            action_of(spec, #[trigger] next(spec, phase, Event::Ran { success })) == (
            ActionView::Exit { code: 0 }),
        None => action_of(spec, phase) == (ActionView::Exit { code: 0 }),
    }
}

/// Whether the supervisor was told to end, at `j`, while it watched.
pub open spec fn told_to_end(spec: SuperviseSpecView, events: Seq<Event>, j: int) -> bool {
    &&& 0 <= j < events.len()
    &&& phase_after(spec, events.take(j)) is Running
    &&& events[j] is Terminated
}

/// No supervisor stops its service unless it was told to end.
pub proof fn law_nothing_stops_unasked(spec: SuperviseSpecView, events: Seq<Event>)
    requires
        ({
            let p = phase_after(spec, events);
            p is Stop || p is Drain || p is Kill
        }),
    ensures
        exists|j: int| told_to_end(spec, events, j),
    decreases events.len(),
{
    if events.len() > 0 {
        let before = events.drop_last();
        let last = events.len() - 1;
        assert(events.take(last) == before);
        if phase_after(spec, before) is Running {
            assert(told_to_end(spec, events, last));
        } else {
            law_nothing_stops_unasked(spec, before);
            let j = choose|j: int| told_to_end(spec, before, j);
            assert(before.take(j) == events.take(j));
            assert(told_to_end(spec, events, j));
        }
    }
}

/// Whether an action ended well at `j`.
pub open spec fn went_well(
    spec: SuperviseSpecView,
    events: Seq<Event>,
    todo: ActionView,
    event: Event,
    j: int,
) -> bool {
    0 <= j < events.len() && doing(spec, events.take(j)) == todo && events[j] == event
}

/// The main process is the start command of the spec. It is not started before the
/// command that is to precede it has succeeded, and not watched before it was
/// started.
pub proof fn law_starting_in_order(spec: SuperviseSpecView, events: Seq<Event>)
    requires
        ({
            let p = phase_after(spec, events);
            p is Start || p is Running || p is Stop || p is Drain || p is Kill
        }),
    ensures
        spec.pre_start matches Some(cmd) ==> exists|j: int|
            went_well(spec, events, ActionView::Run { cmd }, Event::Ran { success: true }, j),
        phase_after(spec, events) is Start ==> doing(spec, events) == (ActionView::Spawn {
            cmd: spec.start,
        }),
        !(phase_after(spec, events) is Start) ==> exists|j: int|
            went_well(
                spec,
                events,
                ActionView::Spawn { cmd: spec.start },
                Event::Spawned { success: true },
                j,
            ),
    decreases events.len(),
{
    if events.len() > 0 {
        let before = events.drop_last();
        let last = events.len() - 1;
        assert(events.take(last) == before);
        let p = phase_after(spec, before);
        let ran = Event::Ran { success: true };
        let spawn = ActionView::Spawn { cmd: spec.start };
        let spawned = Event::Spawned { success: true };
        if p is Start || p is Running || p is Stop || p is Drain || p is Kill {
            law_starting_in_order(spec, before);
            if let Some(cmd) = spec.pre_start {
                let run = ActionView::Run { cmd };
                let j = choose|j: int| went_well(spec, before, run, ran, j);
                assert(before.take(j) == events.take(j));
                assert(went_well(spec, events, run, ran, j));
            }
            if p is Start {
                if !(phase_after(spec, events) is Start) {
                    assert(went_well(spec, events, spawn, spawned, last));
                }
            } else {
                let j = choose|j: int| went_well(spec, before, spawn, spawned, j);
                assert(before.take(j) == events.take(j));
                assert(went_well(spec, events, spawn, spawned, j));
            }
        } else if let Some(cmd) = spec.pre_start {
            assert(went_well(spec, events, ActionView::Run { cmd }, ran, last));
        }
    }
}

/// The supervisor waits for its gates in their order, each with its own command
/// and for its own time. A gate that opened, and one that is not required, lets
/// it go on to the next, and then to the commands. A required gate that stayed
/// shut ends it with code 1.
pub proof fn law_gates_are_waited_for_in_order(spec: SuperviseSpecView, i: int)
    requires
        0 <= i < spec.deps.len() <= usize::MAX,
    ensures
        phase_after(spec, Seq::empty()) == (Phase::Gate { next: 0 }),
        ({
            let gate = Phase::Gate { next: i as usize };
            let open = next(spec, gate, Event::Polled { healthy: true });
            let shut = next(spec, gate, Event::Polled { healthy: false });
            &&& action_of(spec, gate) == (ActionView::Await {
                cmd: spec.deps[i].poll_cmd,
                timeout_secs: spec.deps[i].timeout_secs,
            })
            &&& i + 1 < spec.deps.len() ==> open == (Phase::Gate { next: (i + 1) as usize })
            &&& i + 1 == spec.deps.len() ==> action_of(spec, open) == (match spec.pre_start {
                Some(cmd) => ActionView::Run { cmd },
                None => ActionView::Spawn { cmd: spec.start },
            })
            &&& !spec.deps[i].required ==> shut == open
            &&& spec.deps[i].required ==> action_of(spec, shut) == (ActionView::Exit { code: 1 })
        }),
{
}

/// A supervisor without gates begins with the command that is to precede the main
/// process, or with the main process itself.
pub proof fn law_without_gates_it_starts_at_once(spec: SuperviseSpecView)
    requires
        spec.deps.len() == 0,
    ensures
        doing(spec, Seq::empty()) == (match spec.pre_start {
            Some(cmd) => ActionView::Run { cmd },
            None => ActionView::Spawn { cmd: spec.start },
        }),
{
}

/// Where the command that precedes the main process fails, or the main process
/// cannot be started or watched, the supervisor ends with code 1. Where they
/// succeed, it goes on.
pub proof fn law_failures_end_the_supervisor(spec: SuperviseSpecView)
    ensures
        action_of(spec, next(spec, Phase::PreStart, Event::Ran { success: false })) == (
        ActionView::Exit { code: 1 }),
        action_of(spec, next(spec, Phase::PreStart, Event::Ran { success: true })) == (
        ActionView::Spawn { cmd: spec.start }),
        action_of(spec, next(spec, Phase::Start, Event::Spawned { success: false })) == (
        ActionView::Exit { code: 1 }),
        action_of(spec, next(spec, Phase::Start, Event::Spawned { success: true })) is Watch,
        action_of(spec, next(spec, Phase::Running, Event::WaitFailed)) == (ActionView::Exit {
            code: 1,
        }),
{
}

/// What is left to do once a main process that ended by itself is cleaned up
/// after: the marker of a oneshot is written if it succeeded, else removed, and the
/// supervisor ends with the code.
pub open spec fn ends_with(spec: SuperviseSpecView, phase: Phase, code: i32) -> bool {
    match spec.ready_marker {
        Some(path) => action_of(spec, phase) == (if code == 0 {
            ActionView::WriteMarker { path }
        } else {
            ActionView::RemoveMarker { path }
        }) && action_of(spec, next(spec, phase, Event::Performed)) == (ActionView::Exit { code }),
        None => action_of(spec, phase) == (ActionView::Exit { code }),
    }
}

/// A main process that ends by itself is cleaned up after, its success is recorded
/// where it is a oneshot, and its code is passed on. One that a signal ended
/// counts as 0.
pub proof fn law_exits_are_recorded(spec: SuperviseSpecView, code: Option<i32>, success: bool)
    ensures
        ({
            let own = match code {
                Some(c) => c,
                None => 0i32,
            };
            let phase = next(spec, Phase::Running, Event::Exited { code });
            match spec.post_stop {
                Some(cmd) => action_of(spec, phase) == (ActionView::Run { cmd }) && ends_with(
                    spec,
                    next(spec, phase, Event::Ran { success }),
                    own,
                ),
                None => ends_with(spec, phase, own),
            }
        }),
{
}

/// Whether a phase waits for an event.
pub open spec fn waits_for(phase: Phase, event: Event) -> bool {
    match event {
        Event::Polled { .. } => phase is Gate,
        Event::Ran { .. } => phase is PreStart || phase is Stop || phase is PostStop,
        Event::Spawned { .. } => phase is Start,
        Event::Terminated => phase is Running,
        Event::Alive { .. } => phase is Drain,
        Event::Exited { .. } => phase is Running || phase is Drain,
        Event::WaitFailed => phase is Running || phase is Drain,
        Event::Performed => phase is Stop || phase is Kill || phase is Mark,
    }
}

/// What a phase does not wait for does not move it, and a supervisor that has ended
/// has ended for good.
pub proof fn law_stray_events_change_nothing(
    spec: SuperviseSpecView,
    phase: Phase,
    event: Event,
    code: i32,
)
    ensures
        !waits_for(phase, event) ==> next(spec, phase, event) == phase,
        next(spec, Phase::Done { code }, event) == (Phase::Done { code }),
        action_of(spec, Phase::Done { code }) == (ActionView::Exit { code }),
{
}

/// The supervisor says whose it is and what went wrong, and is silent otherwise.
pub proof fn law_failures_are_reported(spec: SuperviseSpecView, phase: Phase, event: Event, i: int)
    requires
        0 <= i < spec.deps.len() <= usize::MAX,
    ensures
        notice_of(spec, phase, event) matches Some(line) ==> ("supervise["@ + spec.label
            + "]: "@).is_prefix_of(line),
        notice_of(spec, phase, event) is Some <==> (phase is Gate && event == (Event::Polled {
            healthy: false,
        }) || phase is PreStart && event == (Event::Ran { success: false }) || phase is Start
            && event == (Event::Spawned { success: false }) || phase is Running
            && event is WaitFailed),
        notice_of(spec, Phase::Start, Event::Spawned { success: false }) == Some(
            "supervise["@ + spec.label + "]: "@ + "failed to start: "@,
        ),
        notice_of(spec, Phase::Running, Event::WaitFailed) == Some(
            "supervise["@ + spec.label + "]: "@ + "wait error: "@,
        ),
        notice_of(spec, Phase::Gate { next: i as usize }, Event::Polled { healthy: false })
            == Some(
            "supervise["@ + spec.label + "]: "@ + (if spec.deps[i].required {
                "required dependency not ready: "@
            } else {
                "dependency not ready (proceeding): "@
            }) + spec.deps[i].poll_cmd,
        ),
{
    let head = "supervise["@ + spec.label + "]: "@;
    if let Some(line) = notice_of(spec, phase, event) {
        assert(line.subrange(0, head.len() as int) =~= head);
    }
}

/// A URL is fetched, whether by `http` or by `https`, and what has neither scheme is
/// run as it is.
pub proof fn law_urls_are_fetched(rest: Seq<char>, hc: Seq<char>)
    ensures
        health_command("http://"@ + rest) == "curl -sf 'http://"@ + rest + "'"@,
        health_command("https://"@ + rest) == "curl -sf 'https://"@ + rest + "'"@,
        (hc.len() < 7 || hc.take(7) != "http://"@) && (hc.len() < 8 || hc.take(8) != "https://"@)
            ==> health_command(hc) == hc,
{
    reveal_strlit("http://");
    reveal_strlit("https://");
    reveal_strlit("curl -sf '");
    reveal_strlit("curl -sf 'http://");
    reveal_strlit("curl -sf 'https://");
    let a = "http://"@ + rest;
    let b = "https://"@ + rest;
    assert(a.subrange(0, 7) =~= "http://"@);
    assert(b.subrange(0, 8) =~= "https://"@);
    assert("curl -sf '"@ + a + "'"@ =~= "curl -sf 'http://"@ + rest + "'"@);
    assert("curl -sf '"@ + b + "'"@ =~= "curl -sf 'https://"@ + rest + "'"@);
    if "http://"@.is_prefix_of(hc) {
        assert(hc.take(7) =~= "http://"@);
    }
    if "https://"@.is_prefix_of(hc) {
        assert(hc.take(8) =~= "https://"@);
    }
}

/// The spec and the marker of a service are in the state directory, under the
/// name of the service in its namespace.
pub proof fn law_files_bear_the_label(
    state_dir: Seq<char>,
    namespace: Seq<char>,
    service: Seq<char>,
)
    ensures
        label_of(namespace, service) == namespace + "."@ + service,
        spec_path(state_dir, namespace + "."@ + service) == under(
            under(state_dir, "supervise"@),
            namespace + "."@ + service + ".json"@,
        ),
        marker_path(state_dir, namespace, service) == under(
            under(state_dir, "ready"@),
            namespace + "."@ + service + ".ready"@,
        ),
{
}

/// Services of one namespace have labels of their own.
pub proof fn law_labels_differ(namespace: Seq<char>, a: Seq<char>, b: Seq<char>)
    requires
        label_of(namespace, a) == label_of(namespace, b),
    ensures
        a == b,
{
    let n = (namespace + "."@).len() as int;
    assert(a =~= label_of(namespace, a).skip(n));
    assert(b =~= label_of(namespace, b).skip(n));
}

/// The supervisor of a service runs the commands of that service, waits for its
/// gates, and records the success of a oneshot. It gives the service as long to
/// stop as it asks for, else 30 seconds where something is torn down, else 10.
pub proof fn law_specs_say_what_to_do(
    service: ServiceView,
    exec_set: ExecSetView,
    state_dir: Seq<char>,
    namespace: Seq<char>,
    deps: Seq<GateView>,
)
    ensures
        ({
            let spec = supervise_spec_of(service, exec_set, state_dir, namespace, deps);
            let own = optional_duration(service.timeouts.stop);
            &&& spec.label == namespace + "."@ + service.name
            &&& spec.start == exec_set.start
            &&& spec.pre_start == exec_set.pre_start
            &&& spec.stop == exec_set.stop
            &&& spec.post_stop == exec_set.post_stop
            &&& spec.deps == deps
            &&& spec.ready_marker is Some <==> service.oneshot
            &&& spec.ready_marker matches Some(path) ==> path == under(
                under(state_dir, "ready"@),
                namespace + "."@ + service.name + ".ready"@,
            )
            &&& own is Some ==> spec.stop_timeout_secs == own->0
            &&& own is None && (exec_set.stop is Some || exec_set.post_stop is Some)
                ==> spec.stop_timeout_secs == 30
            &&& own is None && exec_set.stop is None && exec_set.post_stop is None
                ==> spec.stop_timeout_secs == 10
        }),
{
}

/// What an enabled dependency is polled with. A required oneshot must have left its
/// marker; a dependency with a healthcheck must pass it; a required oneshot with a
/// healthcheck both. One that has neither makes no gate. It has as long to become
/// ready as it asks for, or 90 seconds.
pub proof fn law_gates_ask_what_there_is_to_ask(
    state_dir: Seq<char>,
    namespace: Seq<char>,
    all: Seq<ServiceView>,
    name: Seq<char>,
    required: bool,
)
    ensures
        find_enabled(all, name) is None ==> gate_of(state_dir, namespace, all, name, required)
            is None,
        find_enabled(all, name) matches Some(dep) ==> {
            let gate = gate_of(state_dir, namespace, all, name, required);
            let marker = "test -f "@ + under(
                under(state_dir, "ready"@),
                namespace + "."@ + dep.name + ".ready"@,
            );
            let own = optional_duration(dep.readiness_timeout);
            &&& gate is Some <==> dep.healthcheck is Some || required && dep.oneshot
            &&& gate matches Some(g) ==> {
                &&& g.required == required
                &&& own is Some ==> g.timeout_secs == own->0
                &&& own is None ==> g.timeout_secs == 90
                &&& required && dep.oneshot && dep.healthcheck is None ==> g.poll_cmd == marker
                &&& required && dep.oneshot && dep.healthcheck is Some ==> g.poll_cmd == marker
                    + " && "@ + health_command(dep.healthcheck->0)
                &&& !(required && dep.oneshot) ==> g.poll_cmd == health_command(
                    dep.healthcheck->0,
                )
            }
        },
{
}

/// The gates of a service come in the order in which it names what they stand for:
/// first all that it requires, then all that it only comes after.
pub proof fn law_gates_keep_the_order(
    state_dir: Seq<char>,
    namespace: Seq<char>,
    all: Seq<ServiceView>,
    service: ServiceView,
    names: Seq<Seq<char>>,
    name: Seq<char>,
    required: bool,
)
    ensures
        dep_gates(state_dir, namespace, service, all) == gates_of(
            state_dir,
            namespace,
            all,
            service.requires,
            true,
        ) + gates_of(state_dir, namespace, all, service.after, false),
        gates_of(state_dir, namespace, all, Seq::empty(), required) == Seq::<GateView>::empty(),
        gates_of(state_dir, namespace, all, names.push(name), required) == gates_of(
            state_dir,
            namespace,
            all,
            names,
            required,
        ) + (match gate_of(state_dir, namespace, all, name, required) {
            Some(g) => seq![g],
            None => seq![],
        }),
{
    let more = names.push(name);
    assert(more.drop_last() =~= names);
    assert(gates_of(state_dir, namespace, all, more, required) =~= gates_of(
        state_dir,
        namespace,
        all,
        names,
        required,
    ) + (match gate_of(state_dir, namespace, all, name, required) {
        Some(g) => seq![g],
        None => seq![],
    }));
}

/// White space around a duration does not matter, and what ends neither in a digit
/// nor in a known unit is none.
pub proof fn law_durations_need_a_known_unit(s: Seq<char>)
    ensures
        trimmed(s).len() > 0 && !is_digit(trimmed(s).last()) && trimmed(s).last() != 's'
            && trimmed(s).last() != 'm' ==> duration(s) is None,
        trimmed(s).len() == 0 ==> duration(s) is None,
{
    reveal_strlit("s");
    reveal_strlit("m");
    let t = trimmed(s);
    if t.len() > 0 && !is_digit(t.last()) && t.last() != 's' && t.last() != 'm' {
        assert(t[t.len() - 1] == t.last());
        if "s"@.is_suffix_of(t) {
            assert("s"@[0] == t.last());
        }
        if "m"@.is_suffix_of(t) {
            assert("m"@[0] == t.last());
        }
        if t[0] == '+' && t.len() > 1 {
            assert(t.skip(1)[t.len() - 2] == t.last());
        }
    }
}

/// A dependency names the first service of that name that is not disabled.
pub proof fn law_the_first_enabled_service_counts(
    before: Seq<ServiceView>,
    service: ServiceView,
    after: Seq<ServiceView>,
)
    requires
        !service.disabled,
        forall|i: int|
            0 <= i < before.len() && (#[trigger] before[i]).name == service.name
                ==> before[i].disabled,
    ensures
        find_enabled(before + seq![service] + after, service.name) == Some(service),
        find_enabled(before, service.name) is None,
    decreases before.len(),
{
    let all = before + seq![service] + after;
    if before.len() > 0 {
        let rest = before.skip(1);
        assert forall|i: int|
            0 <= i < rest.len() && (#[trigger] rest[i]).name == service.name implies rest[i].disabled by {
            assert(rest[i] == before[i + 1]);
        }
        law_the_first_enabled_service_counts(rest, service, after);
        assert(all[0] == before[0]);
        assert(all.skip(1) =~= rest + seq![service] + after);
    } else {
        assert(all[0] == service);
    }
}

} // verus!
