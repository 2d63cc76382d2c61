//! The lifecycle of an application's components: start them in registration
//! order, wait for the shutdown signal, then broadcast shutdown and join the
//! background tasks in reverse order. A component that fails to start stops
//! the start-up, shuts down what was started, and marks the run as failed.
//!
//! The decisions are a state machine: each step takes the outcome of the last
//! action and gives the next action, which the caller performs.
use vstd::prelude::*;

verus! {

/// Where the lifecycle stands.
#[derive(Debug, Clone, Copy, PartialEq, Eq, Structural)]
pub enum Phase {
    /// Starting the component at `next`.
    Starting,
    /// All components started; waiting for the shutdown signal.
    Waiting,
    /// The shutdown signal is to be broadcast to the components.
    Broadcasting,
    /// Joining background tasks; `remaining` of them are left.
    Joining { remaining: usize },
    /// Done.
    Stopped,
}

/// What the caller reports after performing an action.
#[derive(Debug, Clone, Copy, PartialEq, Eq, Structural)]
pub enum Event {
    /// The component started; `has_task` when it spawned a background task.
    Started { has_task: bool },
    /// The component failed to start.
    StartFailed,
    /// The shutdown signal (Ctrl+C or SIGTERM) arrived.
    SignalReceived,
    /// The shutdown signal was broadcast to the components.
    ShutdownSent,
    /// The background task asked for was joined.
    TaskJoined,
}

/// What the caller is to do next.
#[derive(Debug, Clone, Copy, PartialEq, Eq, Structural)]
pub enum Action {
    /// Start the component with this registration index.
    Start(usize),
    /// Wait for the shutdown signal.
    WaitForSignal,
    /// Broadcast the shutdown signal.
    BroadcastShutdown,
    /// Join the background task with this index (tasks are indexed in the
    /// order their components started).
    Join(usize),
    /// Stop; `failed` when a component failed to start (the process then exits
    /// with status 1).
    Stop { failed: bool },
}

/// The state of the lifecycle of `components` components.
#[derive(Debug, Clone, Copy, PartialEq, Eq, Structural)]
pub struct Lifecycle {
    pub components: usize,
    pub next: usize,
    pub tasks: usize,
    pub phase: Phase,
    pub failed: bool,
}

/// The action that a state asks for.
pub open spec fn pending(s: Lifecycle) -> Action {
    match s.phase {
        Phase::Starting => Action::Start(s.next),
        Phase::Waiting => Action::WaitForSignal,
        Phase::Broadcasting => Action::BroadcastShutdown,
        Phase::Joining { remaining } => Action::Join((remaining - 1) as usize),
        Phase::Stopped => Action::Stop { failed: s.failed },
    }
}

/// The state after joining a task when `remaining` were left.
pub open spec fn after_join(s: Lifecycle, remaining: usize) -> Lifecycle {
    if remaining > 1 {
        Lifecycle { phase: Phase::Joining { remaining: (remaining - 1) as usize }, ..s }
    } else {
        Lifecycle { phase: Phase::Stopped, ..s }
    }
}

/// The state after the event `e`; an event the state does not wait for
/// changes nothing.
pub open spec fn next_state(s: Lifecycle, e: Event) -> Lifecycle {
    match (s.phase, e) {
        (Phase::Starting, Event::Started { has_task }) => {
            let tasks = if has_task { (s.tasks + 1) as usize } else { s.tasks };
            let next = (s.next + 1) as usize;
            if next < s.components {
                Lifecycle { next, tasks, ..s }
            } else {
                Lifecycle { next, tasks, phase: Phase::Waiting, ..s }
            }
        },
        (Phase::Starting, Event::StartFailed) => Lifecycle { phase: Phase::Broadcasting, failed: true, ..s },
        (Phase::Waiting, Event::SignalReceived) => Lifecycle { phase: Phase::Broadcasting, ..s },
        (Phase::Broadcasting, Event::ShutdownSent) => if s.tasks > 0 {
            Lifecycle { phase: Phase::Joining { remaining: s.tasks }, ..s }
        } else {
            Lifecycle { phase: Phase::Stopped, ..s }
        },
        (Phase::Joining { remaining }, Event::TaskJoined) => after_join(s, remaining),
        _ => s,
    }
}

impl Lifecycle {
    /// What every state satisfies: at most the components are started, no more
    /// tasks than started components, tasks left to join are among the tasks,
    /// and start-up is under way only while components are left.
    pub open spec fn wf(&self) -> bool {
        &&& self.next <= self.components
        &&& self.tasks <= self.next
        &&& self.phase == Phase::Starting ==> self.next < self.components
        &&& self.phase matches Phase::Joining { remaining } ==> 0 < remaining <= self.tasks
    }

    /// The state before anything is started, and the first action: start the
    /// first component, or wait for the signal when there is none.
    pub fn new(components: usize) -> (r: (Lifecycle, Action))
        ensures
            r.0.wf(),
            r.0.components == components,
            r.0.next == 0,
            r.0.tasks == 0,
            !r.0.failed,
            r.0.phase == (if components > 0 { Phase::Starting } else { Phase::Waiting }),
            r.1 == pending(r.0),
    {
        let phase = if components > 0 { Phase::Starting } else { Phase::Waiting };
        let s = Lifecycle { components, next: 0, tasks: 0, phase, failed: false };
        (s, s.pending())
    }

    /// The action this state asks for.
    pub fn pending(&self) -> (r: Action)
        requires
            self.wf(),
        ensures
            r == pending(*self),
    {
        match self.phase {
            Phase::Starting => Action::Start(self.next),
            Phase::Waiting => Action::WaitForSignal,
            Phase::Broadcasting => Action::BroadcastShutdown,
            Phase::Joining { remaining } => Action::Join(remaining - 1),
            Phase::Stopped => Action::Stop { failed: self.failed },
        }
    }

    /// Takes the outcome of the last action and gives the next action.
    pub fn step(&mut self, e: Event) -> (r: Action)
        requires
            old(self).wf(),
        ensures
            final(self).wf(),
            *final(self) == next_state(*old(self), e),
            r == pending(*final(self)),
    {
        match (self.phase, e) {
            (Phase::Starting, Event::Started { has_task }) => {
                if has_task {
                    self.tasks = self.tasks + 1;
                }
                self.next = self.next + 1;
                if self.next >= self.components {
                    self.phase = Phase::Waiting;
                }
            },
            (Phase::Starting, Event::StartFailed) => {
                self.phase = Phase::Broadcasting;
                self.failed = true;
            },
            (Phase::Waiting, Event::SignalReceived) => {
                self.phase = Phase::Broadcasting;
            },
            (Phase::Broadcasting, Event::ShutdownSent) => {
                if self.tasks > 0 {
                    self.phase = Phase::Joining { remaining: self.tasks };
                } else {
                    self.phase = Phase::Stopped;
                }
            },
            (Phase::Joining { remaining }, Event::TaskJoined) => {
                if remaining > 1 {
                    self.phase = Phase::Joining { remaining: remaining - 1 };
                } else {
                    self.phase = Phase::Stopped;
                }
            },
            _ => {},
        }
        self.pending()
    }
}

/// The state after the events `es`, in order.
pub open spec fn run(s: Lifecycle, es: Seq<Event>) -> Lifecycle
    decreases es.len(),
{
    if es.len() == 0 {
        s
    } else {
        run(next_state(s, es[0]), es.skip(1))
    }
}

/// The state `Lifecycle::new(n)` gives.
pub open spec fn initial(n: usize) -> Lifecycle {
    Lifecycle { components: n, next: 0, tasks: 0, phase: if n > 0 { Phase::Starting } else { Phase::Waiting }, failed: false }
}

/// The events that report the start-up outcomes `has_task`, one per component.
pub open spec fn starts(has_task: Seq<bool>) -> Seq<Event> {
    Seq::new(has_task.len(), |i: int| Event::Started { has_task: has_task[i] })
}

/// `j` task-joined events.
pub open spec fn joins(j: nat) -> Seq<Event> {
    Seq::new(j, |i: int| Event::TaskJoined)
}

/// How many of `b` hold.
pub open spec fn count_true(b: Seq<bool>) -> nat
    decreases b.len(),
{
    if b.len() == 0 {
        0
    } else {
        count_true(b.drop_last()) + if b.last() { 1nat } else { 0nat }
    }
}

/// Running events one more event at the end is one more step.
pub proof fn lemma_run_push(s: Lifecycle, es: Seq<Event>, e: Event)
    ensures
        run(s, es.push(e)) == next_state(run(s, es), e),
    decreases es.len(),
{
    if es.len() == 0 {
        assert(es.push(e).skip(1) =~= Seq::<Event>::empty());
        assert(es.push(e)[0] == e);
        assert(run(next_state(s, e), Seq::<Event>::empty()) == next_state(s, e));
    } else {
        assert(es.push(e)[0] == es[0]);
        assert(es.push(e).skip(1) =~= es.skip(1).push(e));
        lemma_run_push(next_state(s, es[0]), es.skip(1), e);
    }
}

/// Every sequence of events keeps a well-formed state well formed.
pub proof fn law_runs_keep_wf(s: Lifecycle, es: Seq<Event>)
    requires
        s.wf(),
    ensures
        run(s, es).wf(),
    decreases es.len(),
{
    if es.len() > 0 {
        law_runs_keep_wf(next_state(s, es[0]), es.skip(1));
    }
}

/// Components are started one after another in registration order: after the
/// first `k` report a successful start the `k`-th is started next, and after
/// all of them the lifecycle waits for the shutdown signal, having counted one
/// background task per component that spawned one.
pub proof fn law_components_start_in_order(n: usize, has_task: Seq<bool>)
    requires
        has_task.len() <= n,
    ensures
        run(initial(n), starts(has_task)).wf(),
        run(initial(n), starts(has_task)).next == has_task.len(),
        run(initial(n), starts(has_task)).tasks == count_true(has_task),
        !run(initial(n), starts(has_task)).failed,
        run(initial(n), starts(has_task)).components == n,
        has_task.len() < n ==> run(initial(n), starts(has_task)).phase == Phase::Starting,
        has_task.len() == n ==> run(initial(n), starts(has_task)).phase == Phase::Waiting,
        has_task.len() < n ==> pending(run(initial(n), starts(has_task))) == Action::Start(has_task.len() as usize),
        has_task.len() == n ==> pending(run(initial(n), starts(has_task))) == Action::WaitForSignal,
    decreases has_task.len(),
{
    if has_task.len() > 0 {
        let prev = has_task.drop_last();
        law_components_start_in_order(n, prev);
        assert(starts(has_task) =~= starts(prev).push(Event::Started { has_task: has_task.last() }));
        assert(count_true(has_task) == count_true(prev) + if has_task.last() { 1nat } else { 0nat });
        lemma_run_push(initial(n), starts(prev), Event::Started { has_task: has_task.last() });
    } else {
        assert(starts(has_task) =~= Seq::<Event>::empty());
    }
}

/// Shutdown joins every background task exactly once, the last started first:
/// after the broadcast, the `j`-th join asks for task `tasks - 1 - j`, and
/// after all of them the lifecycle stops, failed exactly when it had failed.
pub proof fn law_tasks_joined_in_reverse(s: Lifecycle, j: nat)
    requires
        s.wf(),
        s.phase == Phase::Broadcasting,
        j <= s.tasks,
    ensures
        run(next_state(s, Event::ShutdownSent), joins(j)).wf(),
        run(next_state(s, Event::ShutdownSent), joins(j)).failed == s.failed,
        run(next_state(s, Event::ShutdownSent), joins(j)).tasks == s.tasks,
        j < s.tasks ==> run(next_state(s, Event::ShutdownSent), joins(j)).phase == (Phase::Joining { remaining: (s.tasks - j) as usize }),
        j == s.tasks ==> run(next_state(s, Event::ShutdownSent), joins(j)).phase == Phase::Stopped,
        j < s.tasks ==> pending(run(next_state(s, Event::ShutdownSent), joins(j))) == Action::Join((s.tasks - 1 - j) as usize),
        j == s.tasks ==> pending(run(next_state(s, Event::ShutdownSent), joins(j))) == (Action::Stop { failed: s.failed }),
    decreases j,
{
    let s1 = next_state(s, Event::ShutdownSent);
    if j == 0 {
        assert(joins(0) =~= Seq::<Event>::empty());
    } else {
        law_tasks_joined_in_reverse(s, (j - 1) as nat);
        assert(joins(j) =~= joins((j - 1) as nat).push(Event::TaskJoined));
        lemma_run_push(s1, joins((j - 1) as nat), Event::TaskJoined);
    }
}

/// The state when the component after those with start-up outcomes `has_task`
/// fails to start.
pub open spec fn after_start_failure(n: usize, has_task: Seq<bool>) -> Lifecycle {
    next_state(run(initial(n), starts(has_task)), Event::StartFailed)
}

/// The state when the shutdown signal arrives after all components started
/// with outcomes `has_task`.
pub open spec fn after_signal(n: usize, has_task: Seq<bool>) -> Lifecycle {
    next_state(run(initial(n), starts(has_task)), Event::SignalReceived)
}

/// The state after the broadcast and after every task was joined.
pub open spec fn after_shutdown(s: Lifecycle) -> Lifecycle {
    run(next_state(s, Event::ShutdownSent), joins(s.tasks as nat))
}

/// A component that fails to start ends the start-up: the shutdown signal is
/// broadcast next, only the tasks of the components started before it are
/// joined, and the lifecycle stops as failed.
pub proof fn law_start_failure_stops_failed(n: usize, has_task: Seq<bool>)
    requires
        has_task.len() < n,
    ensures
        pending(after_start_failure(n, has_task)) == Action::BroadcastShutdown,
        after_start_failure(n, has_task).tasks == count_true(has_task),
        pending(after_shutdown(after_start_failure(n, has_task))) == (Action::Stop { failed: true }),
{
    law_components_start_in_order(n, has_task);
    let s = after_start_failure(n, has_task);
    law_tasks_joined_in_reverse(s, s.tasks as nat);
}

/// When every component starts, the run lasts until the shutdown signal, after
/// which every task is joined and the lifecycle stops as not failed.
pub proof fn law_signal_stops_cleanly(n: usize, has_task: Seq<bool>)
    requires
        has_task.len() == n,
    ensures
        pending(after_signal(n, has_task)) == Action::BroadcastShutdown,
        after_signal(n, has_task).tasks == count_true(has_task),
        pending(after_shutdown(after_signal(n, has_task))) == (Action::Stop { failed: false }),
{
    law_components_start_in_order(n, has_task);
    let s = after_signal(n, has_task);
    law_tasks_joined_in_reverse(s, s.tasks as nat);
}

/// A stopped lifecycle ignores every event.
pub proof fn law_stopped_is_final(s: Lifecycle, e: Event)
    requires
        s.phase == Phase::Stopped,
    ensures
        next_state(s, e) == s,
        pending(next_state(s, e)) == (Action::Stop { failed: s.failed }),
{
}

} // verus!
