//! Tearing the backend down when the shell closes: ask it to stop, give it a
//! moment, and stop it by force if it is still there.

use vstd::prelude::*;
use crate::launcher::ProcessHandle;
use crate::signal::{GracefulTerminator, SignalOutcome};

verus! {

/// How long the backend gets to exit after the graceful signal, in
/// milliseconds.
pub const GRACE_MILLIS: u64 = 1000;

/// Where the teardown of the backend stands.
#[derive(Clone, Copy, Debug, PartialEq, Eq, Structural)]
pub enum ShutdownPhase {
    /// The backend runs and nobody has asked it to stop.
    Running,
    /// The graceful signal is on its way or the grace period is running.
    SignaledGraceful,
    /// The teardown is over. Nothing leads out of this phase.
    Terminated,
}

/// What one look at the backend after the grace period showed.
#[derive(Clone, Copy, Debug, PartialEq, Eq, Structural)]
pub enum ExitObservation {
    /// The backend has exited.
    Exited,
    /// The backend is still running.
    StillRunning,
    /// The operating system could not tell.
    Unknown,
}

/// What happened outside the coordinator.
#[derive(Clone, Copy, Debug, PartialEq, Eq, Structural)]
pub enum ShutdownEvent {
    /// The shell was asked to close.
    CloseRequested,
    /// The graceful signal was sent, with this outcome.
    GracefulSignal(SignalOutcome),
    /// The grace period is over and the backend was looked at once.
    GraceElapsed(ExitObservation),
}

/// What the coordinator wants done next.
#[derive(Clone, Copy, Debug, PartialEq, Eq, Structural)]
pub enum ShutdownAction {
    /// Nothing is to be done.
    Nothing,
    /// Send the graceful signal to `pid` and report the outcome.
    SendGraceful { pid: u32 },
    /// Wait `grace_millis`, then look once whether `pid` has exited and
    /// report what was seen.
    AwaitExit { pid: u32, grace_millis: u64 },
    /// Stop `pid` unconditionally.
    ForceKill { pid: u32 },
}

/// Mathematical model of a [`ShutdownCoordinator`].
pub struct CoordinatorSpec {
    pub pid: u32,
    pub capability: GracefulTerminator,
    pub phase: ShutdownPhase,
}

/// The coordinator's reaction to one event: the state it moves to and the
/// action it asks for. An event that does not belong to the current phase
/// changes nothing and asks for nothing.
pub open spec fn step_of(state: CoordinatorSpec, event: ShutdownEvent) -> (
    CoordinatorSpec,
    ShutdownAction,
) {
    let terminated = CoordinatorSpec { phase: ShutdownPhase::Terminated, ..state };
    match (state.phase, event) {
        (ShutdownPhase::Running, ShutdownEvent::CloseRequested) => match state.capability {
            GracefulTerminator::SignalCapable => (
                CoordinatorSpec { phase: ShutdownPhase::SignaledGraceful, ..state },
                ShutdownAction::SendGraceful { pid: state.pid },
            ),
            GracefulTerminator::SignalIncapable => (
                terminated,
                ShutdownAction::ForceKill { pid: state.pid },
            ),
        },
        (
            ShutdownPhase::SignaledGraceful,
            ShutdownEvent::GracefulSignal(SignalOutcome::Delivered),
        ) => (state, ShutdownAction::AwaitExit { pid: state.pid, grace_millis: GRACE_MILLIS }),
        (ShutdownPhase::SignaledGraceful, ShutdownEvent::GracefulSignal(_)) => (
            terminated,
            ShutdownAction::Nothing,
        ),
        (
            ShutdownPhase::SignaledGraceful,
            ShutdownEvent::GraceElapsed(ExitObservation::StillRunning),
        ) => (terminated, ShutdownAction::ForceKill { pid: state.pid }),
        (ShutdownPhase::SignaledGraceful, ShutdownEvent::GraceElapsed(_)) => (
            terminated,
            ShutdownAction::Nothing,
        ),
        _ => (state, ShutdownAction::Nothing),
    }
}

/// The state reached and the actions asked for while `events` arrive one by
/// one.
pub open spec fn run(state: CoordinatorSpec, events: Seq<ShutdownEvent>) -> (
    CoordinatorSpec,
    Seq<ShutdownAction>,
)
    decreases events.len(),
{
    if events.len() == 0 {
        (state, Seq::empty())
    } else {
        let (next, action) = step_of(state, events[0]);
        let (last, actions) = run(next, events.drop_first());
        (last, seq![action] + actions)
    }
}

/// How many of `actions` send the graceful signal.
pub open spec fn graceful_signals(actions: Seq<ShutdownAction>) -> nat
    decreases actions.len(),
{
    if actions.len() == 0 {
        0
    } else {
        graceful_signals(actions.drop_first()) + if actions[0] is SendGraceful {
            1nat
        } else {
            0nat
        }
    }
}

/// How many of `actions` stop the backend by force.
pub open spec fn forced_kills(actions: Seq<ShutdownAction>) -> nat
    decreases actions.len(),
{
    if actions.len() == 0 {
        0
    } else {
        forced_kills(actions.drop_first()) + if actions[0] is ForceKill {
            1nat
        } else {
            0nat
        }
    }
}

/// Owns the handle to the backend from the moment it was started and
/// decides, event by event, what its teardown needs next.
pub struct ShutdownCoordinator {
    handle: ProcessHandle,
    capability: GracefulTerminator,
    phase: ShutdownPhase,
}

impl View for ShutdownCoordinator {
    type V = CoordinatorSpec;

    closed spec fn view(&self) -> CoordinatorSpec {
        CoordinatorSpec { pid: self.handle@, capability: self.capability, phase: self.phase }
    }
}

impl ShutdownCoordinator {
    /// Takes over the handle of the backend that was just started. The
    /// coordinator begins in the running phase.
    pub fn new(handle: ProcessHandle, capability: GracefulTerminator) -> (coordinator:
        ShutdownCoordinator)
        ensures
            coordinator@ == (CoordinatorSpec {
                pid: handle@,
                capability,
                phase: ShutdownPhase::Running,
            }),
    {
        ShutdownCoordinator { handle, capability, phase: ShutdownPhase::Running }
    }

    /// The pid of the backend.
    pub fn pid(&self) -> (pid: u32)
        ensures
            pid == self@.pid,
    {
        self.handle.pid()
    }

    /// Whether the platform can ask the backend to terminate itself.
    pub fn capability(&self) -> (capability: GracefulTerminator)
        ensures
            capability == self@.capability,
    {
        self.capability
    }

    /// Where the teardown stands.
    pub fn phase(&self) -> (phase: ShutdownPhase)
        ensures
            phase == self@.phase,
    {
        self.phase
    }

    /// Whether the teardown is over.
    pub fn is_terminated(&self) -> (over: bool)
        ensures
            over == (self@.phase == ShutdownPhase::Terminated),
    {
        match self.phase {
            ShutdownPhase::Terminated => true,
            _ => false,
        }
    }

    /// Takes in one event and returns the action to perform next.
    pub fn step(&mut self, event: ShutdownEvent) -> (action: ShutdownAction)
        ensures
            (final(self)@, action) == step_of(old(self)@, event),
    {
        let pid = self.handle.pid();
        match (self.phase, event) {
            (ShutdownPhase::Running, ShutdownEvent::CloseRequested) => match self.capability {
                GracefulTerminator::SignalCapable => {
                    self.phase = ShutdownPhase::SignaledGraceful;
                    ShutdownAction::SendGraceful { pid }
                },
                GracefulTerminator::SignalIncapable => {
                    self.phase = ShutdownPhase::Terminated;
                    ShutdownAction::ForceKill { pid }
                },
            },
            (
                ShutdownPhase::SignaledGraceful,
                ShutdownEvent::GracefulSignal(SignalOutcome::Delivered),
            ) => ShutdownAction::AwaitExit { pid, grace_millis: GRACE_MILLIS },
            (ShutdownPhase::SignaledGraceful, ShutdownEvent::GracefulSignal(_)) => {
                self.phase = ShutdownPhase::Terminated;
                ShutdownAction::Nothing
            },
            (
                ShutdownPhase::SignaledGraceful,
                ShutdownEvent::GraceElapsed(ExitObservation::StillRunning),
            ) => {
                self.phase = ShutdownPhase::Terminated;
                ShutdownAction::ForceKill { pid }
            },
            (ShutdownPhase::SignaledGraceful, ShutdownEvent::GraceElapsed(_)) => {
                self.phase = ShutdownPhase::Terminated;
                ShutdownAction::Nothing
            },
            _ => ShutdownAction::Nothing,
        }
    }
}

/// The close handler on a platform with a graceful signal, when the signal
/// was delivered: the close request, the outcome of the signal, and what
/// the look after the grace period showed.
pub open spec fn close_episode(seen: ExitObservation) -> Seq<ShutdownEvent> {
    seq![
        ShutdownEvent::CloseRequested,
        ShutdownEvent::GracefulSignal(SignalOutcome::Delivered),
        ShutdownEvent::GraceElapsed(seen),
    ]
}

/// One action is asked for per event.
pub proof fn lemma_one_action_per_event(state: CoordinatorSpec, events: Seq<ShutdownEvent>)
    ensures
        run(state, events).1.len() == events.len(),
    decreases events.len(),
{
    if events.len() > 0 {
        lemma_one_action_per_event(step_of(state, events[0]).0, events.drop_first());
    }
}

/// A backend that exits within the grace period is never stopped by force:
/// it is signalled once, waited for, and left alone.
pub proof fn lemma_prompt_exit_is_not_killed(state: CoordinatorSpec)
    requires
        state.phase == ShutdownPhase::Running,
        state.capability == GracefulTerminator::SignalCapable,
    ensures
        run(state, close_episode(ExitObservation::Exited)).0.phase == ShutdownPhase::Terminated,
        run(state, close_episode(ExitObservation::Exited)).1 == seq![
            ShutdownAction::SendGraceful { pid: state.pid },
            ShutdownAction::AwaitExit { pid: state.pid, grace_millis: GRACE_MILLIS },
            ShutdownAction::Nothing,
        ],
        forced_kills(run(state, close_episode(ExitObservation::Exited)).1) == 0,
        graceful_signals(run(state, close_episode(ExitObservation::Exited)).1) == 1,
{
    lemma_close_episode(state, ExitObservation::Exited);
    let actions = run(state, close_episode(ExitObservation::Exited)).1;
    lemma_counts_of_three(actions);
}

/// A backend that ignores the graceful signal is stopped by force exactly
/// once, and only after the grace period has been waited out.
pub proof fn lemma_ignored_signal_is_killed_once(state: CoordinatorSpec)
    requires
        state.phase == ShutdownPhase::Running,
        state.capability == GracefulTerminator::SignalCapable,
    ensures
        run(state, close_episode(ExitObservation::StillRunning)).0.phase
            == ShutdownPhase::Terminated,
        run(state, close_episode(ExitObservation::StillRunning)).1 == seq![
            ShutdownAction::SendGraceful { pid: state.pid },
            ShutdownAction::AwaitExit { pid: state.pid, grace_millis: GRACE_MILLIS },
            ShutdownAction::ForceKill { pid: state.pid },
        ],
        forced_kills(run(state, close_episode(ExitObservation::StillRunning)).1) == 1,
        graceful_signals(run(state, close_episode(ExitObservation::StillRunning)).1) == 1,
{
    lemma_close_episode(state, ExitObservation::StillRunning);
    let actions = run(state, close_episode(ExitObservation::StillRunning)).1;
    lemma_counts_of_three(actions);
}

/// Without a graceful signal the close request stops the backend by force
/// at once, and the teardown is over.
pub proof fn lemma_incapable_platform_kills_at_once(state: CoordinatorSpec)
    requires
        state.phase == ShutdownPhase::Running,
        state.capability == GracefulTerminator::SignalIncapable,
    ensures
        step_of(state, ShutdownEvent::CloseRequested) == (
            CoordinatorSpec { phase: ShutdownPhase::Terminated, ..state },
            ShutdownAction::ForceKill { pid: state.pid },
        ),
{
}

/// Whatever events arrive in whatever order, the graceful signal is asked
/// for at most once and so is the forced stop; neither is asked for again
/// once its phase has passed.
pub proof fn lemma_each_signal_at_most_once(state: CoordinatorSpec, events: Seq<ShutdownEvent>)
    ensures
        graceful_signals(run(state, events).1) <= if state.phase == ShutdownPhase::Running {
            1nat
        } else {
            0nat
        },
        forced_kills(run(state, events).1) <= if state.phase == ShutdownPhase::Terminated {
            0nat
        } else {
            1nat
        },
    decreases events.len(),
{
    if events.len() > 0 {
        let (next, action) = step_of(state, events[0]);
        let rest = run(next, events.drop_first()).1;
        lemma_each_signal_at_most_once(next, events.drop_first());
        let actions = run(state, events).1;
        assert(actions.drop_first() =~= rest);
        assert(actions[0] == action);
    }
}

/// Once the teardown is over, no event changes the coordinator or makes it
/// ask for anything.
pub proof fn lemma_terminated_is_absorbing(state: CoordinatorSpec, events: Seq<ShutdownEvent>)
    requires
        state.phase == ShutdownPhase::Terminated,
    ensures
        run(state, events).0 == state,
        run(state, events).1.len() == events.len(),
        forall|i: int|
            0 <= i < events.len() ==> #[trigger] run(state, events).1[i]
                == ShutdownAction::Nothing,
    decreases events.len(),
{
    if events.len() > 0 {
        lemma_terminated_is_absorbing(state, events.drop_first());
    }
}

/// Events that arrive in two batches have the effect of the first batch
/// followed by that of the second.
pub proof fn lemma_run_in_two_batches(
    state: CoordinatorSpec,
    first: Seq<ShutdownEvent>,
    second: Seq<ShutdownEvent>,
)
    ensures
        run(state, first + second).0 == run(run(state, first).0, second).0,
        run(state, first + second).1 == run(state, first).1 + run(
            run(state, first).0,
            second,
        ).1,
    decreases first.len(),
{
    if first.len() == 0 {
        assert(first + second =~= second);
        assert(run(state, first).1 + run(state, second).1 =~= run(state, second).1);
    } else {
        let next = step_of(state, first[0]).0;
        assert((first + second).drop_first() =~= first.drop_first() + second);
        lemma_run_in_two_batches(next, first.drop_first(), second);
        let middle = run(state, first).0;
        assert(run(state, first + second).1 =~= run(state, first).1 + run(middle, second).1);
    }
}

/// Teardown happens once. After any events that end the teardown, whatever
/// arrives later, a second close request included, leaves the coordinator
/// as it is and asks for nothing: the actions of the whole are those of the
/// first batch followed by nothing.
pub proof fn lemma_second_close_is_a_no_op(
    state: CoordinatorSpec,
    first: Seq<ShutdownEvent>,
    second: Seq<ShutdownEvent>,
)
    requires
        run(state, first).0.phase == ShutdownPhase::Terminated,
    ensures
        run(state, first + second).0 == run(state, first).0,
        run(state, first + second).1.len() == first.len() + second.len(),
        run(state, first + second).1.take(first.len() as int) == run(state, first).1,
        forall|i: int|
            first.len() <= i < first.len() + second.len() ==> #[trigger] run(
                state,
                first + second,
            ).1[i] == ShutdownAction::Nothing,
        graceful_signals(run(state, first + second).1) <= 1,
        forced_kills(run(state, first + second).1) <= 1,
{
    let middle = run(state, first).0;
    lemma_run_in_two_batches(state, first, second);
    lemma_one_action_per_event(state, first);
    lemma_terminated_is_absorbing(middle, second);
    lemma_each_signal_at_most_once(state, first + second);
    let whole = run(state, first + second).1;
    assert(whole.take(first.len() as int) =~= run(state, first).1);
    assert forall|i: int| first.len() <= i < first.len() + second.len() implies #[trigger] whole[i]
        == ShutdownAction::Nothing by {
        assert(whole[i] == run(middle, second).1[i - first.len()]);
    }
}

proof fn lemma_close_episode(state: CoordinatorSpec, seen: ExitObservation)
    requires
        state.phase == ShutdownPhase::Running,
        state.capability == GracefulTerminator::SignalCapable,
    ensures
        run(state, close_episode(seen)).0 == (CoordinatorSpec {
            phase: ShutdownPhase::Terminated,
            ..state
        }),
        run(state, close_episode(seen)).1 == seq![
            ShutdownAction::SendGraceful { pid: state.pid },
            ShutdownAction::AwaitExit { pid: state.pid, grace_millis: GRACE_MILLIS },
            step_of(
                CoordinatorSpec { phase: ShutdownPhase::SignaledGraceful, ..state },
                ShutdownEvent::GraceElapsed(seen),
            ).1,
        ],
{
    let events = close_episode(seen);
    let signaled = CoordinatorSpec { phase: ShutdownPhase::SignaledGraceful, ..state };
    let terminated = CoordinatorSpec { phase: ShutdownPhase::Terminated, ..state };
    let second = events.drop_first();
    let third = second.drop_first();
    assert(third.drop_first() =~= Seq::empty());
    assert(step_of(signaled, events[2]).0 == terminated);
    assert(run(terminated, third.drop_first()) == (terminated, Seq::<ShutdownAction>::empty()));
    assert(run(signaled, third).0 == terminated);
    assert(run(signaled, third).1 =~= seq![step_of(signaled, events[2]).1]);
    assert(run(signaled, second).0 == terminated);
    assert(run(signaled, second).1 =~= seq![step_of(signaled, events[1]).1] + run(
        signaled,
        third,
    ).1);
    assert(run(state, events).0 == terminated);
    assert(run(state, events).1 =~= seq![step_of(state, events[0]).1] + run(signaled, second).1);
}

proof fn lemma_counts_of_three(actions: Seq<ShutdownAction>)
    requires
        actions.len() == 3,
    ensures
        forced_kills(actions) == (if actions[0] is ForceKill {
            1nat
        } else {
            0nat
        }) + (if actions[1] is ForceKill {
            1nat
        } else {
            0nat
        }) + (if actions[2] is ForceKill {
            1nat
        } else {
            0nat
        }),
        graceful_signals(actions) == (if actions[0] is SendGraceful {
            1nat
        } else {
            0nat
        }) + (if actions[1] is SendGraceful {
            1nat
        } else {
            0nat
        }) + (if actions[2] is SendGraceful {
            1nat
        } else {
            0nat
        }),
{
    reveal_with_fuel(forced_kills, 4);
    reveal_with_fuel(graceful_signals, 4);
    let second = actions.drop_first();
    let third = second.drop_first();
    assert(third.drop_first().len() == 0);
}

} // verus!
