//! The supervisor of one service, as a state machine.
//!
//! The supervisor waits for its gates, runs the commands of its spec in turn
//! and watches the main process. [`action`] says what has to be done in a
//! phase, and [`step`] which phase follows once it is done.

use crate::exec::ExecSetView;
use crate::orchdi::{
    dep_gates, find_enabled, law_dependencies_have_gates, poll_command, supervise_spec_of,
    SuperviseSpec, SuperviseSpecView,
};
use crate::types::ServiceView;
use vstd::prelude::*;

verus! {

/// Where the supervisor stands.
#[derive(Debug, Clone, Copy, PartialEq, Eq, Structural)]
pub enum Phase {
    /// Waiting for the dependency of that index.
    Gate { next: usize },
    /// Running the command that precedes the main process.
    PreStart,
    /// Starting the main process.
    Start,
    /// Watching the main process.
    Running,
    /// Asking the main process to stop.
    Stop,
    /// Waiting for the main process to stop.
    Drain,
    /// Killing the main process.
    Kill,
    /// Running the command that follows the main process.
    PostStop { code: i32, mark: bool },
    /// Recording whether a oneshot has succeeded.
    Mark { code: i32 },
    /// Finished.
    Done { code: i32 },
}

/// What came of an action.
#[derive(Debug, Clone, Copy, PartialEq, Eq, Structural)]
pub enum Event {
    /// A gate was polled until it opened, or its time was up.
    Polled { healthy: bool },
    /// A command was run.
    Ran { success: bool },
    /// The main process was started, or could not be.
    Spawned { success: bool },
    /// The supervisor was told to end.
    Terminated,
    /// The main process still runs; the time to stop may be up.
    Alive { expired: bool },
    /// The main process has ended, with a code unless a signal ended it.
    Exited { code: Option<i32> },
    /// The main process cannot be watched.
    WaitFailed,
    /// A signal was sent, or a marker written or removed.
    Performed,
}

/// What the supervisor has to do.
#[derive(Debug)]
pub enum Action {
    /// Poll the command until it succeeds or the time is up.
    Await { cmd: String, timeout_secs: u32 },
    /// Run the command to its end.
    Run { cmd: String },
    /// Start the main process in a process group of its own.
    Spawn { cmd: String },
    /// See whether a signal came, else whether the main process has ended.
    Watch,
    /// Send the process group the signal to terminate.
    Terminate,
    /// See whether the main process has ended within the time given.
    Drain { grace_secs: u32 },
    /// Kill the process group and wait for the main process.
    Kill,
    /// Write the marker.
    WriteMarker { path: String },
    /// Remove the marker.
    RemoveMarker { path: String },
    /// End the supervisor.
    Exit { code: i32 },
}

#[verifier::ext_equal]
pub enum ActionView {
    Await { cmd: Seq<char>, timeout_secs: nat },
    Run { cmd: Seq<char> },
    Spawn { cmd: Seq<char> },
    Watch,
    Terminate,
    Drain { grace_secs: nat },
    Kill,
    WriteMarker { path: Seq<char> },
    RemoveMarker { path: Seq<char> },
    Exit { code: i32 },
}

impl View for Action {
    type V = ActionView;

    open spec fn view(&self) -> ActionView {
        match *self {
            Action::Await { cmd, timeout_secs } => ActionView::Await {
                cmd: cmd@,
                timeout_secs: timeout_secs as nat,
            },
            Action::Run { cmd } => ActionView::Run { cmd: cmd@ },
            Action::Spawn { cmd } => ActionView::Spawn { cmd: cmd@ },
            Action::Watch => ActionView::Watch,
            Action::Terminate => ActionView::Terminate,
            Action::Drain { grace_secs } => ActionView::Drain { grace_secs: grace_secs as nat },
            Action::Kill => ActionView::Kill,
            Action::WriteMarker { path } => ActionView::WriteMarker { path: path@ },
            Action::RemoveMarker { path } => ActionView::RemoveMarker { path: path@ },
            Action::Exit { code } => ActionView::Exit { code },
        }
    }
}

/// Whether the supervisor of a spec can stand in a phase.
pub open spec fn valid(spec: SuperviseSpecView, phase: Phase) -> bool {
    match phase {
        Phase::Gate { next } => next < spec.deps.len(),
        Phase::PreStart => spec.pre_start is Some,
        Phase::PostStop { .. } => spec.post_stop is Some,
        Phase::Mark { .. } => spec.ready_marker is Some,
        _ => true,
    }
}

/// The phase in which dependency `i` is next, or what follows them all.
pub open spec fn from_gate(spec: SuperviseSpecView, i: int) -> Phase {
    if i < spec.deps.len() {
        Phase::Gate { next: i as usize }
    } else if spec.pre_start is Some {
        Phase::PreStart
    } else {
        Phase::Start
    }
}

/// The phase once the commands are done.
pub open spec fn finishing(spec: SuperviseSpecView, code: i32, mark: bool) -> Phase {
    if mark && spec.ready_marker is Some {
        Phase::Mark { code }
    } else {
        Phase::Done { code }
    }
}

/// The phase once the main process is gone.
pub open spec fn stopped(spec: SuperviseSpecView, code: i32, mark: bool) -> Phase {
    if spec.post_stop is Some {
        Phase::PostStop { code, mark }
    } else {
        finishing(spec, code, mark)
    }
}

/// The exit code that is reported for a process: its own, or 0 if a signal
/// ended it.
pub open spec fn reported(code: Option<i32>) -> i32 {
    match code {
        Some(c) => c,
        None => 0,
    }
}

/// The phase that follows an event. An event that a phase does not wait for
/// changes nothing.
pub open spec fn next(spec: SuperviseSpecView, phase: Phase, event: Event) -> Phase {
    match (phase, event) {
        (Phase::Gate { next }, Event::Polled { healthy }) => if healthy
            || !spec.deps[next as int].required {
            from_gate(spec, next + 1)
        } else {
            Phase::Done { code: 1 }
        },
        (Phase::PreStart, Event::Ran { success }) => if success {
            Phase::Start
        } else {
            Phase::Done { code: 1 }
        },
        (Phase::Start, Event::Spawned { success }) => if success {
            Phase::Running
        } else {
            Phase::Done { code: 1 }
        },
        (Phase::Running, Event::Terminated) => Phase::Stop,
        (Phase::Running, Event::Exited { code }) => stopped(spec, reported(code), true),
        (Phase::Running, Event::WaitFailed) => Phase::Done { code: 1 },
        (Phase::Stop, Event::Ran { .. }) => Phase::Drain,
        (Phase::Stop, Event::Performed) => Phase::Drain,
        (Phase::Drain, Event::Exited { .. }) => stopped(spec, 0, false),
        (Phase::Drain, Event::WaitFailed) => stopped(spec, 0, false),
        (Phase::Drain, Event::Alive { expired }) => if expired {
            Phase::Kill
        } else {
            Phase::Drain
        },
        (Phase::Kill, Event::Performed) => stopped(spec, 0, false),
        (Phase::PostStop { code, mark }, Event::Ran { .. }) => finishing(spec, code, mark),
        (Phase::Mark { code }, Event::Performed) => Phase::Done { code },
        _ => phase,
    }
}

/// What has to be done in a phase.
pub open spec fn action_of(spec: SuperviseSpecView, phase: Phase) -> ActionView {
    match phase {
        Phase::Gate { next } => ActionView::Await {
            cmd: spec.deps[next as int].poll_cmd,
            timeout_secs: spec.deps[next as int].timeout_secs,
        },
        Phase::PreStart => ActionView::Run { cmd: spec.pre_start->0 },
        Phase::Start => ActionView::Spawn { cmd: spec.start },
        Phase::Running => ActionView::Watch,
        Phase::Stop => match spec.stop {
            Some(cmd) => ActionView::Run { cmd },
            None => ActionView::Terminate,
        },
        Phase::Drain => ActionView::Drain {
            grace_secs: if spec.stop_timeout_secs == 0 {
                1
            } else {
                spec.stop_timeout_secs
            },
        },
        Phase::Kill => ActionView::Kill,
        Phase::PostStop { .. } => ActionView::Run { cmd: spec.post_stop->0 },
        Phase::Mark { code } => if code == 0 {
            ActionView::WriteMarker { path: spec.ready_marker->0 }
        } else {
            ActionView::RemoveMarker { path: spec.ready_marker->0 }
        },
        Phase::Done { code } => ActionView::Exit { code },
    }
}

/// The phase after a run of events from the beginning.
pub open spec fn phase_after(spec: SuperviseSpecView, events: Seq<Event>) -> Phase
    decreases events.len(),
{
    if events.len() == 0 {
        from_gate(spec, 0)
    } else {
        next(spec, phase_after(spec, events.drop_last()), events.last())
    }
}

fn enter_gate(spec: &SuperviseSpec, i: usize) -> (r: Phase)
    ensures
        r == from_gate(spec@, i as int),
        valid(spec@, r),
{
    if i < spec.deps.len() {
        Phase::Gate { next: i }
    } else if spec.pre_start.is_some() {
        Phase::PreStart
    } else {
        Phase::Start
    }
}

fn enter_finishing(spec: &SuperviseSpec, code: i32, mark: bool) -> (r: Phase)
    ensures
        r == finishing(spec@, code, mark),
        valid(spec@, r),
{
    if mark && spec.ready_marker.is_some() {
        Phase::Mark { code }
    } else {
        Phase::Done { code }
    }
}

fn enter_stopped(spec: &SuperviseSpec, code: i32, mark: bool) -> (r: Phase)
    ensures
        r == stopped(spec@, code, mark),
        valid(spec@, r),
{
    if spec.post_stop.is_some() {
        Phase::PostStop { code, mark }
    } else {
        enter_finishing(spec, code, mark)
    }
}

/// The phase in which a supervisor begins.
pub fn begin(spec: &SuperviseSpec) -> (r: Phase)
    ensures
        r == phase_after(spec@, Seq::empty()),
        valid(spec@, r),
{
    enter_gate(spec, 0)
}

/// The phase that follows an event.
pub fn step(spec: &SuperviseSpec, phase: Phase, event: Event) -> (r: Phase)
    requires
        valid(spec@, phase),
    ensures
        r == next(spec@, phase, event),
        valid(spec@, r),
{
    match (phase, event) {
        (Phase::Gate { next }, Event::Polled { healthy }) => {
            assert(spec@.deps[next as int] == spec.deps@[next as int]@);
            let count: usize = spec.deps.len();
            assert(next < count);
            if healthy || !spec.deps[next].required {
                enter_gate(spec, next + 1)
            } else {
                Phase::Done { code: 1 }
            }
        },
        (Phase::PreStart, Event::Ran { success }) => if success {
            Phase::Start
        } else {
            Phase::Done { code: 1 }
        },
        (Phase::Start, Event::Spawned { success }) => if success {
            Phase::Running
        } else {
            Phase::Done { code: 1 }
        },
        (Phase::Running, Event::Terminated) => Phase::Stop,
        (Phase::Running, Event::Exited { code }) => {
            let reported: i32 = match code {
                Some(c) => c,
                None => 0,
            };
            enter_stopped(spec, reported, true)
        },
        (Phase::Running, Event::WaitFailed) => Phase::Done { code: 1 },
        (Phase::Stop, Event::Ran { .. }) => Phase::Drain,
        (Phase::Stop, Event::Performed) => Phase::Drain,
        (Phase::Drain, Event::Exited { .. }) => enter_stopped(spec, 0, false),
        (Phase::Drain, Event::WaitFailed) => enter_stopped(spec, 0, false),
        (Phase::Drain, Event::Alive { expired }) => if expired {
            Phase::Kill
        } else {
            Phase::Drain
        },
        (Phase::Kill, Event::Performed) => enter_stopped(spec, 0, false),
        (Phase::PostStop { code, mark }, Event::Ran { .. }) => enter_finishing(spec, code, mark),
        (Phase::Mark { code }, Event::Performed) => Phase::Done { code },
        _ => phase,
    }
}

/// What has to be done in a phase.
pub fn action(spec: &SuperviseSpec, phase: Phase) -> (r: Action)
    requires
        valid(spec@, phase),
    ensures
        r@ == action_of(spec@, phase),
{
    match phase {
        Phase::Gate { next } => {
            assert(spec@.deps[next as int] == spec.deps@[next as int]@);
            Action::Await {
                cmd: spec.deps[next].poll_cmd.clone(),
                timeout_secs: spec.deps[next].timeout_secs,
            }
        },
        Phase::PreStart => match &spec.pre_start {
            Some(cmd) => Action::Run { cmd: cmd.clone() },
            None => Action::Watch,
        },
        Phase::Start => Action::Spawn { cmd: spec.start.clone() },
        Phase::Running => Action::Watch,
        Phase::Stop => match &spec.stop {
            Some(cmd) => Action::Run { cmd: cmd.clone() },
            None => Action::Terminate,
        },
        Phase::Drain => {
            let grace_secs: u32 = if spec.stop_timeout_secs == 0 {
                1
            } else {
                spec.stop_timeout_secs
            };
            Action::Drain { grace_secs }
        },
        Phase::Kill => Action::Kill,
        Phase::PostStop { .. } => match &spec.post_stop {
            Some(cmd) => Action::Run { cmd: cmd.clone() },
            None => Action::Watch,
        },
        Phase::Mark { code } => match &spec.ready_marker {
            Some(path) => if code == 0 {
                Action::WriteMarker { path: path.clone() }
            } else {
                Action::RemoveMarker { path: path.clone() }
            },
            None => Action::Watch,
        },
        Phase::Done { code } => Action::Exit { code },
    }
}

/// What the supervisor reports when an event is not as wished.
pub open spec fn notice_of(spec: SuperviseSpecView, phase: Phase, event: Event) -> Option<
    Seq<char>,
> {
    let head = "supervise["@ + spec.label + "]: "@;
    match (phase, event) {
        (Phase::Gate { next }, Event::Polled { healthy }) => if healthy {
            None
        } else if spec.deps[next as int].required {
            Some(head + "required dependency not ready: "@ + spec.deps[next as int].poll_cmd)
        } else {
            Some(head + "dependency not ready (proceeding): "@ + spec.deps[next as int].poll_cmd)
        },
        (Phase::PreStart, Event::Ran { success }) => if success {
            None
        } else {
            Some(head + "pre_start failed: "@ + spec.pre_start->0)
        },
        (Phase::Start, Event::Spawned { success }) => if success {
            None
        } else {
            Some(head + "failed to start: "@)
        },
        (Phase::Running, Event::WaitFailed) => Some(head + "wait error: "@),
        _ => None,
    }
}

/// The line that the supervisor reports for an event, if any. Where starting or
/// waiting failed, the reason is for the caller to add.
pub fn notice(spec: &SuperviseSpec, phase: Phase, event: Event) -> (r: Option<String>)
    requires
        valid(spec@, phase),
    ensures
        r.deep_view() == notice_of(spec@, phase, event),
{
    let mut head = "supervise[".to_string();
    head.append(spec.label.as_str());
    head.append("]: ");
    match (phase, event) {
        (Phase::Gate { next }, Event::Polled { healthy }) => {
            assert(spec@.deps[next as int] == spec.deps@[next as int]@);
            if healthy {
                None
            } else {
                if spec.deps[next].required {
                    head.append("required dependency not ready: ");
                } else {
                    head.append("dependency not ready (proceeding): ");
                }
                head.append(spec.deps[next].poll_cmd.as_str());
                Some(head)
            }
        },
        (Phase::PreStart, Event::Ran { success }) => if success {
            None
        } else {
            head.append("pre_start failed: ");
            if let Some(cmd) = &spec.pre_start {
                head.append(cmd.as_str());
            }
            Some(head)
        },
        (Phase::Start, Event::Spawned { success }) => if success {
            None
        } else {
            head.append("failed to start: ");
            Some(head)
        },
        (Phase::Running, Event::WaitFailed) => {
            head.append("wait error: ");
            Some(head)
        },
        _ => None,
    }
}

/// How polling a gate goes on.
#[derive(Debug, Clone, Copy, PartialEq, Eq, Structural)]
pub enum Poll {
    Healthy,
    TimedOut,
    /// Poll again after so many seconds.
    Again { pause_secs: u64 },
}

/// How polling goes on after one attempt: success ends it at once, the deadline
/// ends it after a failure, and otherwise there is another attempt two seconds
/// later.
pub fn wait_healthy(passed: bool, expired: bool) -> (r: Poll)
    ensures
        r == (if passed {
            Poll::Healthy
        } else if expired {
            Poll::TimedOut
        } else {
            Poll::Again { pause_secs: 2 }
        }),
{
    if passed {
        Poll::Healthy
    } else if expired {
        Poll::TimedOut
    } else {
        Poll::Again { pause_secs: 2 }
    }
}

/// Whether the event at `j` opened gate `i`.
pub open spec fn gate_opened(
    spec: SuperviseSpecView,
    events: Seq<Event>,
    i: int,
    j: int,
) -> bool {
    &&& 0 <= j < events.len()
    &&& phase_after(spec, events.take(j)) == Phase::Gate { next: i as usize }
    &&& events[j] == Event::Polled { healthy: true }
}

/// Whether a phase lies past gate `i`, on a supervisor that has not ended.
pub open spec fn past_gate(phase: Phase, i: int) -> bool {
    match phase {
        Phase::Gate { next } => i < next,
        Phase::Done { .. } => false,
        _ => true,
    }
}

/// No supervisor gets past a required gate unless a poll of that gate has
/// succeeded. In particular the main process is never started before every
/// required dependency was ready.
pub proof fn law_required_gates_hold(spec: SuperviseSpecView, events: Seq<Event>, i: int)
    requires
        spec.deps.len() <= usize::MAX,
        0 <= i < spec.deps.len(),
        spec.deps[i].required,
        past_gate(phase_after(spec, events), i),
    ensures
        exists|j: int| gate_opened(spec, events, i, j),
    decreases events.len(),
{
    if events.len() > 0 {
        let before = events.drop_last();
        let p = phase_after(spec, before);
        let last = events.len() - 1;
        assert(events.take(last) == before);
        if past_gate(p, i) {
            law_required_gates_hold(spec, before, i);
            let j = choose|j: int| gate_opened(spec, before, i, j);
            assert(before.take(j) == events.take(j));
            assert(gate_opened(spec, events, i, j));
        } else {
            lemma_phase_valid(spec, before);
            assert(gate_opened(spec, events, i, last));
        }
    }
}

/// Every phase that a run reaches is valid.
proof fn lemma_phase_valid(spec: SuperviseSpecView, events: Seq<Event>)
    requires
        spec.deps.len() <= usize::MAX,
    ensures
        valid(spec, phase_after(spec, events)),
    decreases events.len(),
{
    if events.len() > 0 {
        lemma_phase_valid(spec, events.drop_last());
    }
}

/// Whether a poll of a command succeeded at some time of a run.
pub open spec fn polled_well(
    spec: SuperviseSpecView,
    events: Seq<Event>,
    poll_cmd: Seq<char>,
) -> bool {
    exists|i: int, j: int|
        0 <= i < spec.deps.len() && spec.deps[i].poll_cmd == poll_cmd && gate_opened(
            spec,
            events,
            i,
            j,
        )
}

/// Whether a supervisor is done waiting and has not ended.
pub open spec fn past_gates(phase: Phase) -> bool {
    !(phase is Gate) && !(phase is Done)
}

/// A service that requires another waits until that one is ready: the supervisor
/// of a service does not get as far as the service's own commands unless a poll
/// of every enabled dependency that the service requires, and that can tell
/// whether it is ready, has succeeded.
pub proof fn law_required_dependencies_are_ready(
    service: ServiceView,
    all: Seq<ServiceView>,
    exec_set: ExecSetView,
    state_dir: Seq<char>,
    namespace: Seq<char>,
    events: Seq<Event>,
    name: Seq<char>,
)
    requires
        service.requires.contains(name),
        find_enabled(all, name) matches Some(dep) && poll_command(
            state_dir,
            namespace,
            dep,
            true,
        ) is Some,
        dep_gates(state_dir, namespace, service, all).len() <= usize::MAX,
        past_gates(
            phase_after(
                supervise_spec_of(
                    service,
                    exec_set,
                    state_dir,
                    namespace,
                    dep_gates(state_dir, namespace, service, all),
                ),
                events,
            ),
        ),
    ensures
        polled_well(
            supervise_spec_of(
                service,
                exec_set,
                state_dir,
                namespace,
                dep_gates(state_dir, namespace, service, all),
            ),
            events,
            poll_command(state_dir, namespace, find_enabled(all, name)->0, true)->0,
        ),
{
    let gates = dep_gates(state_dir, namespace, service, all);
    let spec = supervise_spec_of(service, exec_set, state_dir, namespace, gates);
    let cmd = poll_command(state_dir, namespace, find_enabled(all, name)->0, true)->0;
    law_dependencies_have_gates(state_dir, namespace, service, all, name, true);
    let i = choose|i: int|
        0 <= i < gates.len() && (#[trigger] gates[i]).poll_cmd == cmd && gates[i].required;
    assert(spec.deps[i] == gates[i]);
    law_required_gates_hold(spec, events, i);
    let j = choose|j: int| gate_opened(spec, events, i, j);
    assert(spec.deps[i].poll_cmd == cmd && gate_opened(spec, events, i, j));
}

/// Whether the main process is up, or on its way down.
pub open spec fn up(phase: Phase) -> bool {
    phase is Running || phase is Stop || phase is Drain || phase is Kill
}

/// Whether the run was in the phase of the command after the main process at
/// some time from `k` on.
pub open spec fn cleaned_up(spec: SuperviseSpecView, events: Seq<Event>, k: int) -> bool {
    exists|j: int|
        k <= j <= events.len() && (#[trigger] phase_after(spec, events.take(j))) is PostStop
}

/// Once the main process runs, the supervisor does not end before it has run
/// the command that is to follow the main process, whether that ended by itself
/// or was stopped. The one exception is a main process that cannot be watched.
pub proof fn law_post_stop_runs(spec: SuperviseSpecView, events: Seq<Event>, k: int)
    requires
        spec.post_stop is Some,
        0 <= k <= events.len(),
        phase_after(spec, events.take(k)) is Running,
        forall|j: int|
            k <= j < events.len() && phase_after(spec, #[trigger] events.take(j)) is Running
                ==> events[j] != Event::WaitFailed,
    ensures
        up(phase_after(spec, events)) || cleaned_up(spec, events, k),
    decreases events.len(),
{
    assert(events.take(events.len() as int) == events);
    if events.len() > k {
        let before = events.drop_last();
        let last = events.len() - 1;
        assert(before.take(k) == events.take(k));
        assert forall|j: int|
            k <= j < before.len() && phase_after(
                spec,
                #[trigger] before.take(j),
            ) is Running implies before[j] != Event::WaitFailed by {
            assert(before.take(j) == events.take(j));
        }
        law_post_stop_runs(spec, before, k);
        assert(events.take(last) == before);
        if cleaned_up(spec, before, k) {
            let j = choose|j: int|
                k <= j <= before.len() && (#[trigger] phase_after(
                    spec,
                    before.take(j),
                )) is PostStop;
            assert(before.take(j) == events.take(j));
            assert(phase_after(spec, events.take(j)) is PostStop);
        } else if !up(phase_after(spec, events)) {
            assert(phase_after(spec, events.take(events.len() as int)) is PostStop);
        }
    }
}

/// Whether a phase is on the way down after a stop was asked for.
pub open spec fn going_down(phase: Phase) -> bool {
    match phase {
        Phase::Stop => true,
        Phase::Drain => true,
        Phase::Kill => true,
        Phase::PostStop { code, mark } => code == 0 && !mark,
        Phase::Done { code } => code == 0,
        _ => false,
    }
}

/// A supervisor that was told to end stops its service, leaves the marker as it
/// is and ends with code 0.
pub proof fn law_terminated_ends_well(spec: SuperviseSpecView, events: Seq<Event>, k: int)
    requires
        0 <= k <= events.len(),
        phase_after(spec, events.take(k)) is Stop,
    ensures
        going_down(phase_after(spec, events)),
    decreases events.len(),
{
    assert(events.take(events.len() as int) == events);
    if events.len() > k {
        let before = events.drop_last();
        assert(before.take(k) == events.take(k));
        law_terminated_ends_well(spec, before, k);
    }
}

/// Whether a phase reports the code `c`.
pub open spec fn reports(phase: Phase, c: i32) -> bool {
    match phase {
        Phase::PostStop { code, mark } => code == c && mark,
        Phase::Mark { code } => code == c,
        Phase::Done { code } => code == c,
        _ => false,
    }
}

/// A supervisor whose main process ended by itself ends with the code of that
/// process, or with 0 where a signal ended it.
pub proof fn law_exit_code_is_passed_on(
    spec: SuperviseSpecView,
    events: Seq<Event>,
    k: int,
    code: Option<i32>,
)
    requires
        0 <= k < events.len(),
        phase_after(spec, events.take(k)) is Running,
        events[k] == (Event::Exited { code }),
    ensures
        reports(phase_after(spec, events), reported(code)),
    decreases events.len(),
{
    let before = events.drop_last();
    if k == before.len() {
        assert(events.take(k) == before);
    } else {
        assert(before.take(k) == events.take(k));
        law_exit_code_is_passed_on(spec, before, k, code);
    }
}

} // verus!
