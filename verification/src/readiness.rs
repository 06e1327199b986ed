//! Waiting until the backend reports itself healthy.

use vstd::prelude::*;

verus! {

/// What one request to the health endpoint brought back.
#[derive(Clone, Copy, Debug, PartialEq, Eq, Structural)]
pub enum ProbeOutcome {
    /// The endpoint answered with this status code.
    Status(u16),
    /// No answer came: the connection failed or broke off.
    Unreachable,
}

/// What to do after a probe.
#[derive(Clone, Copy, Debug, PartialEq, Eq, Structural)]
pub enum GateAction {
    /// The backend is serving: stop waiting.
    Ready,
    /// Wait `millis`, then probe again.
    RetryAfter { millis: u64 },
}

/// Whether `outcome` shows a healthy backend: an answer with a status from
/// 200 to 299. Any other answer, and no answer, do not.
pub open spec fn is_success(outcome: ProbeOutcome) -> bool {
    outcome matches ProbeOutcome::Status(code) && 200 <= code <= 299
}

/// Tells whether `outcome` shows a healthy backend.
pub fn indicates_ready(outcome: ProbeOutcome) -> (ready: bool)
    ensures
        ready == is_success(outcome),
{
    match outcome {
        ProbeOutcome::Status(code) => 200 <= code && code <= 299,
        ProbeOutcome::Unreachable => false,
    }
}

/// Mathematical model of a [`ReadinessGate`].
pub struct GateSpec {
    /// The pause between two probes, in milliseconds. It never grows.
    pub poll_interval_millis: u64,
    /// How many probes were counted. The count stops at the largest number
    /// it can hold.
    pub attempts: u64,
    /// Whether a probe has succeeded.
    pub ready: bool,
}

/// A gate that has seen no probe yet.
pub open spec fn fresh_gate(poll_interval_millis: u64) -> GateSpec {
    GateSpec { poll_interval_millis, attempts: 0, ready: false }
}

/// A gate after it has seen `outcome`. An open gate stays as it is.
pub open spec fn after_probe(gate: GateSpec, outcome: ProbeOutcome) -> GateSpec {
    if gate.ready {
        gate
    } else {
        GateSpec {
            attempts: if gate.attempts < u64::MAX {
                (gate.attempts + 1) as u64
            } else {
                gate.attempts
            },
            ready: is_success(outcome),
            ..gate
        }
    }
}

/// What a gate asks for when it sees `outcome`.
pub open spec fn reaction_to(gate: GateSpec, outcome: ProbeOutcome) -> GateAction {
    if gate.ready || is_success(outcome) {
        GateAction::Ready
    } else {
        GateAction::RetryAfter { millis: gate.poll_interval_millis }
    }
}

/// A gate after it has seen all of `outcomes`, first to last.
pub open spec fn after_probes(gate: GateSpec, outcomes: Seq<ProbeOutcome>) -> GateSpec
    decreases outcomes.len(),
{
    if outcomes.len() == 0 {
        gate
    } else {
        after_probe(after_probes(gate, outcomes.drop_last()), outcomes.last())
    }
}

/// Holds back the start of the shell until one probe of the backend's
/// health endpoint has succeeded. It never gives up and never lengthens the
/// pause between probes.
#[derive(Debug)]
pub struct ReadinessGate {
    poll_interval_millis: u64,
    attempts: u64,
    ready: bool,
}

impl View for ReadinessGate {
    type V = GateSpec;

    closed spec fn view(&self) -> GateSpec {
        GateSpec {
            poll_interval_millis: self.poll_interval_millis,
            attempts: self.attempts,
            ready: self.ready,
        }
    }
}

impl ReadinessGate {
    /// A closed gate that pauses `poll_interval_millis` between probes.
    pub fn new(poll_interval_millis: u64) -> (gate: ReadinessGate)
        ensures
            gate@ == fresh_gate(poll_interval_millis),
    {
        ReadinessGate { poll_interval_millis, attempts: 0, ready: false }
    }

    /// The pause between two probes, in milliseconds.
    pub fn poll_interval_millis(&self) -> (millis: u64)
        ensures
            millis == self@.poll_interval_millis,
    {
        self.poll_interval_millis
    }

    /// How many probes were counted so far.
    pub fn attempts(&self) -> (count: u64)
        ensures
            count == self@.attempts,
    {
        self.attempts
    }

    /// Whether a probe has succeeded.
    pub fn is_ready(&self) -> (ready: bool)
        ensures
            ready == self@.ready,
    {
        self.ready
    }

    /// Takes in the outcome of one probe and says what to do next.
    pub fn observe(&mut self, outcome: ProbeOutcome) -> (action: GateAction)
        ensures
            final(self)@ == after_probe(old(self)@, outcome),
            action == reaction_to(old(self)@, outcome),
    {
        if self.ready {
            return GateAction::Ready;
        }
        if self.attempts < u64::MAX {
            self.attempts = self.attempts + 1;
        }
        if indicates_ready(outcome) {
            self.ready = true;
            GateAction::Ready
        } else {
            GateAction::RetryAfter { millis: self.poll_interval_millis }
        }
    }
}

/// As long as every probe fails a gate stays closed, counts each probe,
/// and asks for the next one after exactly the configured pause.
pub proof fn lemma_failures_keep_the_gate_closed(
    poll_interval_millis: u64,
    outcomes: Seq<ProbeOutcome>,
    next: ProbeOutcome,
)
    requires
        forall|i: int| 0 <= i < outcomes.len() ==> !is_success(#[trigger] outcomes[i]),
        outcomes.len() < u64::MAX,
    ensures
        !after_probes(fresh_gate(poll_interval_millis), outcomes).ready,
        after_probes(fresh_gate(poll_interval_millis), outcomes).attempts == outcomes.len(),
        after_probes(fresh_gate(poll_interval_millis), outcomes).poll_interval_millis
            == poll_interval_millis,
        !is_success(next) ==> reaction_to(
            after_probes(fresh_gate(poll_interval_millis), outcomes),
            next,
        ) == (GateAction::RetryAfter { millis: poll_interval_millis }),
        is_success(next) ==> reaction_to(
            after_probes(fresh_gate(poll_interval_millis), outcomes),
            next,
        ) == GateAction::Ready,
    decreases outcomes.len(),
{
    if outcomes.len() > 0 {
        lemma_failures_keep_the_gate_closed(
            poll_interval_millis,
            outcomes.drop_last(),
            outcomes.last(),
        );
    }
}

/// A gate opens on the first success and not before: after `failures`
/// failed probes and one that succeeds, it is open and has counted
/// `failures + 1` probes.
pub proof fn lemma_gate_opens_on_first_success(
    poll_interval_millis: u64,
    outcomes: Seq<ProbeOutcome>,
    failures: int,
)
    requires
        0 <= failures < u64::MAX,
        outcomes.len() == failures + 1,
        forall|i: int| 0 <= i < failures ==> !is_success(#[trigger] outcomes[i]),
        is_success(outcomes[failures]),
    ensures
        after_probes(fresh_gate(poll_interval_millis), outcomes).ready,
        after_probes(fresh_gate(poll_interval_millis), outcomes).attempts == failures + 1,
        forall|k: int|
            0 <= k <= failures ==> !(#[trigger] after_probes(
                fresh_gate(poll_interval_millis),
                outcomes.take(k),
            )).ready,
        forall|k: int|
            0 <= k < failures ==> reaction_to(
                after_probes(fresh_gate(poll_interval_millis), outcomes.take(k)),
                #[trigger] outcomes[k],
            ) == (GateAction::RetryAfter { millis: poll_interval_millis }),
{
    let gate = fresh_gate(poll_interval_millis);
    assert forall|k: int| 0 <= k <= failures implies !(#[trigger] after_probes(
        gate,
        outcomes.take(k),
    )).ready && after_probes(gate, outcomes.take(k)).attempts == k && (k < failures ==> reaction_to(
        after_probes(gate, outcomes.take(k)),
        outcomes[k],
    ) == (GateAction::RetryAfter { millis: poll_interval_millis })) by {
        lemma_failures_keep_the_gate_closed(poll_interval_millis, outcomes.take(k), outcomes[k]);
    }
    assert(outcomes.drop_last() =~= outcomes.take(failures));
    assert(!after_probes(gate, outcomes.take(failures)).ready);
    assert(after_probes(gate, outcomes.take(failures)).attempts == failures);
}

/// An open gate stays open, stops counting and keeps answering that the
/// backend is ready.
pub proof fn lemma_open_gate_stays_open(gate: GateSpec, outcomes: Seq<ProbeOutcome>)
    requires
        gate.ready,
    ensures
        after_probes(gate, outcomes) == gate,
    decreases outcomes.len(),
{
    if outcomes.len() > 0 {
        lemma_open_gate_stays_open(gate, outcomes.drop_last());
    }
}

} // verus!
