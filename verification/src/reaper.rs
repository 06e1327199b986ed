//! Finding and signalling instances of the backend left over from an
//! earlier run, before a new one is started.

use vstd::prelude::*;
use sysinfo::{PidExt, ProcessExt, SystemExt};
use crate::matcher::{has_trailing_args, is_backend};
use crate::signal::{GracefulTerminator, SignalOutcome};
use crate::signature::{BackendSignature, ProcessSpec, RunningProcessView, SignatureSpec};

verus! {

/// How long to let the operating system act on a delivered signal before
/// doing anything else, in milliseconds.
pub const SETTLE_MILLIS: u64 = 100;

/// The test that picks the instances of the backend out of a process table.
pub open spec fn backend_test(signature: SignatureSpec) -> spec_fn(ProcessSpec) -> bool {
    |process: ProcessSpec| is_backend(signature, process)
}

/// The projection of a process to its pid.
pub open spec fn pid_of() -> spec_fn(ProcessSpec) -> u32 {
    |process: ProcessSpec| process.pid
}

/// The pids to signal for `table`: those of the processes that match
/// `signature`, in the order of the table.
pub open spec fn stale_pids_of(signature: SignatureSpec, table: Seq<ProcessSpec>) -> Seq<u32> {
    table.filter(backend_test(signature)).map_values(pid_of())
}

/// Nothing is picked from an empty table.
pub proof fn lemma_empty_table_has_no_stale_pids(signature: SignatureSpec)
    ensures
        stale_pids_of(signature, Seq::empty()) == Seq::<u32>::empty(),
{
    assert(Seq::<ProcessSpec>::empty().filter(backend_test(signature)) =~= Seq::empty()) by {
        reveal(Seq::filter);
    }
    assert(stale_pids_of(signature, Seq::empty()) =~= Seq::empty());
}

/// Picks from `table` the pids of the processes that match `signature`.
pub fn stale_pids(signature: &BackendSignature, table: &Vec<RunningProcessView>) -> (pids: Vec<u32>)
    ensures
        pids@ == stale_pids_of(signature@, table.deep_view()),
{
    let ghost model = table.deep_view();
    let mut pids: Vec<u32> = Vec::new();
    let mut i: usize = 0;
    proof {
        assert(model.take(0) =~= Seq::empty());
        lemma_empty_table_has_no_stale_pids(signature@);
    }
    while i < table.len()
        invariant
            i <= table.len(),
            model == table.deep_view(),
            pids@ == stale_pids_of(signature@, model.take(i as int)),
        decreases table.len() - i,
    {
        let matched = crate::matcher::matches(signature, &table[i]);
        proof {
            let seen = model.take(i as int);
            let process = model[i as int];
            assert(process == table[i as int]@);
            assert(model.take(i + 1) =~= seen.push(process));
            seen.lemma_filter_push(process, backend_test(signature@));
            seen.filter(backend_test(signature@)).lemma_push_map_commute(pid_of(), process);
        }
        if matched {
            pids.push(table[i].pid);
        }
        i = i + 1;
    }
    assert(model.take(i as int) =~= model);
    pids
}

/// Whether `pid` is the pid of a process of `table` that matches
/// `signature` in full.
pub open spec fn is_backend_pid(signature: SignatureSpec, table: Seq<ProcessSpec>, pid: u32) -> bool {
    exists|i: int|
        0 <= i < table.len() && is_backend(signature, #[trigger] table[i]) && table[i].pid == pid
}

/// Every pid that is picked belongs to a process of the table that matches
/// the signature in full, and every such process has its pid picked.
pub proof fn lemma_stale_pids_are_backends(signature: SignatureSpec, table: Seq<ProcessSpec>)
    ensures
        forall|pid: u32|
            stale_pids_of(signature, table).contains(pid) <==> is_backend_pid(
                signature,
                table,
                pid,
            ),
{
    let test = backend_test(signature);
    let kept = table.filter(test);
    let pids = stale_pids_of(signature, table);
    assert forall|pid: u32| pids.contains(pid) implies is_backend_pid(signature, table, pid) by {
        let k = choose|k: int| 0 <= k < pids.len() && pids[k] == pid;
        table.lemma_filter_pred(test, k);
        table.lemma_filter_contains_rev(test, kept[k]);
        let i = choose|i: int| 0 <= i < table.len() && table[i] == kept[k];
        assert(is_backend(signature, table[i]) && table[i].pid == pid);
    }
    assert forall|pid: u32| is_backend_pid(signature, table, pid) implies pids.contains(pid) by {
        let i = choose|i: int|
            0 <= i < table.len() && is_backend(signature, #[trigger] table[i]) && table[i].pid
                == pid;
        table.lemma_filter_contains(test, i);
        let k = choose|k: int| 0 <= k < kept.len() && kept[k] == table[i];
        assert(pids[k] == pid);
    }
}

/// A process whose command line does not end with the signature's arguments
/// adds nothing to what is signalled, whatever its binary is called: the
/// pids picked are those picked from the table without it.
pub proof fn lemma_other_arguments_are_spared(
    signature: SignatureSpec,
    table: Seq<ProcessSpec>,
    position: int,
)
    requires
        0 <= position < table.len(),
        !has_trailing_args(table[position].command_vector, signature.trailing_args),
    ensures
        stale_pids_of(signature, table) == stale_pids_of(signature, table.remove(position)),
{
    let test = backend_test(signature);
    let before = table.take(position);
    let after = table.skip(position + 1);
    let single = seq![table[position]];
    assert(table =~= before + single + after);
    assert(table.remove(position) =~= before + after);
    Seq::filter_distributes_over_add(before + single, after, test);
    Seq::filter_distributes_over_add(before, single, test);
    Seq::filter_distributes_over_add(before, after, test);
    assert(single.filter(test) =~= Seq::empty()) by {
        reveal_with_fuel(Seq::filter, 2);
        assert(single.drop_last() =~= Seq::empty());
    }
    assert(before.filter(test) + Seq::empty() =~= before.filter(test));
}

/// Mathematical model of a [`ReapSession`].
pub struct ReapSpec {
    /// The process table the session was planned on.
    pub observed: Seq<ProcessSpec>,
    /// The pids to signal, in order.
    pub plan: Seq<u32>,
    /// How many pids of the plan have been dealt with.
    pub handled: nat,
}

/// The pid to signal next, if any is left.
pub open spec fn next_target_of(session: ReapSpec) -> Option<u32> {
    if session.handled < session.plan.len() {
        Some(session.plan[session.handled as int])
    } else {
        None
    }
}

/// The session after the outcome of one signal was recorded. The outcome
/// plays no part: a failure never ends the scan.
pub open spec fn after_record(session: ReapSpec) -> ReapSpec {
    if session.handled < session.plan.len() {
        ReapSpec { handled: session.handled + 1, ..session }
    } else {
        session
    }
}

/// The pause owed after a signal with `outcome`, in milliseconds.
pub open spec fn pause_after(session: ReapSpec, outcome: SignalOutcome) -> u64 {
    if session.handled < session.plan.len() && outcome == SignalOutcome::Delivered {
        SETTLE_MILLIS
    } else {
        0
    }
}

/// The pids a session visits while `outcomes` are recorded one by one.
pub open spec fn visited(session: ReapSpec, outcomes: Seq<SignalOutcome>) -> Seq<u32>
    decreases outcomes.len(),
{
    if outcomes.len() == 0 || next_target_of(session) is None {
        Seq::empty()
    } else {
        seq![next_target_of(session)->0] + visited(after_record(session), outcomes.drop_first())
    }
}

/// `sysinfo::System::new_all` followed by `processes`: the processes the
/// operating system reports, each as its pid and its command line. Nothing
/// is claimed of the answer, neither which processes it holds nor their
/// order: the table differs from one moment to the next.
#[verifier::external_body]
fn read_process_table() -> (table: Vec<RunningProcessView>) {
    let system = sysinfo::System::new_all();
    system
        .processes()
        .iter()
        .map(|(pid, process)| RunningProcessView {
            pid: pid.as_u32(),
            command_vector: process.cmd().to_vec(),
        })
        .collect()
}

/// One pass over the stale instances of the backend: the table it was
/// planned on, the pids to signal and how far the pass has come.
pub struct ReapSession {
    observed: Vec<RunningProcessView>,
    plan: Vec<u32>,
    handled: usize,
}

impl View for ReapSession {
    type V = ReapSpec;

    closed spec fn view(&self) -> ReapSpec {
        ReapSpec {
            observed: self.observed.deep_view(),
            plan: self.plan@,
            handled: self.handled as nat,
        }
    }
}

impl ReapSession {
    #[verifier::type_invariant]
    spec fn well_formed(&self) -> bool {
        self.handled <= self.plan.len()
    }

    /// Plans a pass over `table`: every process in it that matches
    /// `signature` is to be signalled, in the order of the table.
    pub fn over(signature: &BackendSignature, table: Vec<RunningProcessView>) -> (session:
        ReapSession)
        ensures
            session@ == (ReapSpec {
                observed: table.deep_view(),
                plan: stale_pids_of(signature@, table.deep_view()),
                handled: 0,
            }),
    {
        let plan = stale_pids(signature, &table);
        ReapSession { observed: table, plan, handled: 0 }
    }

    /// Reads the process table of the machine and plans a pass over it.
    /// Whatever the table held, the plan is exactly the matching processes
    /// of it. On a platform without a graceful signal nothing is read and
    /// the plan is empty.
    pub fn scan(signature: &BackendSignature, capability: GracefulTerminator) -> (session:
        ReapSession)
        ensures
            session@.plan == stale_pids_of(signature@, session@.observed),
            session@.handled == 0,
            capability == GracefulTerminator::SignalIncapable ==> session@.observed.len() == 0
                && session@.plan.len() == 0,
    {
        match capability {
            GracefulTerminator::SignalCapable => ReapSession::over(signature, read_process_table()),
            GracefulTerminator::SignalIncapable => {
                let session = ReapSession::over(signature, Vec::new());
                proof {
                    lemma_empty_table_has_no_stale_pids(signature@);
                }
                session
            },
        }
    }

    /// The process table the pass was planned on.
    pub fn observed(&self) -> (table: &Vec<RunningProcessView>)
        ensures
            table.deep_view() == self@.observed,
    {
        &self.observed
    }

    /// The pids to signal, in order.
    pub fn plan(&self) -> (pids: &Vec<u32>)
        ensures
            pids@ == self@.plan,
    {
        &self.plan
    }

    /// How many pids of the plan have been dealt with.
    pub fn handled(&self) -> (count: usize)
        ensures
            count == self@.handled,
            count <= self@.plan.len(),
    {
        proof {
            use_type_invariant(self);
        }
        self.handled
    }

    /// The pid to signal next, or `None` when the pass is over.
    pub fn next_target(&self) -> (target: Option<u32>)
        ensures
            target == next_target_of(self@),
    {
        if self.handled < self.plan.len() {
            Some(self.plan[self.handled])
        } else {
            None
        }
    }

    /// Records the outcome of the signal sent to the current target and
    /// moves on to the next one. Returns the pause to make before going on,
    /// in milliseconds: the settle time after a delivered signal, none
    /// otherwise. Once the pass is over nothing changes.
    pub fn record(&mut self, outcome: SignalOutcome) -> (pause_millis: u64)
        ensures
            final(self)@ == after_record(old(self)@),
            pause_millis == pause_after(old(self)@, outcome),
    {
        if self.handled < self.plan.len() {
            self.handled = self.handled + 1;
            match outcome {
                SignalOutcome::Delivered => SETTLE_MILLIS,
                _ => 0,
            }
        } else {
            0
        }
    }
}

/// Whatever the outcomes of the signals are, a pass that is given an
/// outcome for each planned pid visits the whole plan, in order: a failed
/// signal does not end the scan.
pub proof fn lemma_failures_do_not_end_the_scan(session: ReapSpec, outcomes: Seq<SignalOutcome>)
    requires
        session.handled <= session.plan.len(),
        outcomes.len() >= session.plan.len() - session.handled,
    ensures
        visited(session, outcomes) == session.plan.skip(session.handled as int),
    decreases outcomes.len(),
{
    if outcomes.len() == 0 || next_target_of(session) is None {
        assert(session.plan.skip(session.handled as int) =~= Seq::empty());
    } else {
        lemma_failures_do_not_end_the_scan(after_record(session), outcomes.drop_first());
        assert(session.plan.skip(session.handled as int) =~= seq![
            session.plan[session.handled as int],
        ] + session.plan.skip(session.handled as int + 1));
    }
}

} // verus!
