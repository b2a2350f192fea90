//! The executor service: the registry of executions and the operations the
//! orchestrator calls on it.

use crate::bid::Capability;
use crate::btypes::Resources;
use crate::btypes::RunCommandRequest;
use crate::btypes::RunCommandRequestView;
use crate::btypes::RunCommandResponse;
use crate::btypes::RunCommandResponseView;
use crate::output::Delivery;
use crate::output::DeliveryView;
use crate::record::Action;
use crate::record::ActionView;
use crate::record::Event;
use crate::record::EventView;
use crate::record::ExecutionRecord;
use crate::record::ExecutionState;
use crate::record::RecordView;
use crate::validate::acceptable;
use crate::validate::rejected_for;
use crate::validate::validate;
use crate::validate::ValidationError;
use vstd::prelude::*;

verus! {

/// Why a job was not accepted.
#[derive(Clone, Copy, Debug, PartialEq, Eq, Structural)]
pub enum StartError {
    /// The job failed validation.
    Invalid(ValidationError),
    /// An execution with this identifier is known already.
    Duplicate,
}

/// The model of an [`ExecutorService`]: its executions in the order in which
/// they were accepted, and what the node can give.
pub struct ServiceView {
    pub records: Seq<RecordView>,
    pub capability: Capability,
}

impl ServiceView {
    /// The service that knows no execution.
    pub open spec fn empty(capability: Capability) -> ServiceView {
        ServiceView { records: Seq::empty(), capability }
    }

    /// Whether record `i` is the one of execution `id`.
    pub open spec fn holds_at(self, id: Seq<char>, i: int) -> bool {
        0 <= i < self.records.len() && self.records[i].id() == id
    }

    /// Whether an execution with this identifier is known.
    pub open spec fn knows(self, id: Seq<char>) -> bool {
        exists|i: int| self.holds_at(id, i)
    }

    /// The place of execution `id` among the records.
    pub open spec fn index_of(self, id: Seq<char>) -> int {
        choose|i: int| self.holds_at(id, i)
    }

    /// The record of execution `id`.
    pub open spec fn record(self, id: Seq<char>) -> RecordView {
        self.records[self.index_of(id)]
    }

    /// Every record is valid, and no two of them share an identifier.
    pub open spec fn valid(self) -> bool {
        &&& forall|i: int| 0 <= i < self.records.len() ==> (#[trigger] self.records[i]).valid()
        &&& forall|i: int, j: int|
            0 <= i < self.records.len() && 0 <= j < self.records.len() && i != j ==> (
            #[trigger] self.records[i]).id() != (#[trigger] self.records[j]).id()
    }

    /// The service with the record of execution `id` replaced.
    pub open spec fn replace(self, id: Seq<char>, record: RecordView) -> ServiceView {
        ServiceView { records: self.records.update(self.index_of(id), record), ..self }
    }

    /// The service after `job` was accepted at time `now`.
    pub open spec fn accept(self, job: RunCommandRequestView, now: nat) -> ServiceView {
        ServiceView { records: self.records.push(RecordView::fresh(job, now)), ..self }
    }

    /// What submitting `job` answers: the reason for which validation turns
    /// it down, else that its identifier is taken, else acceptance.
    pub open spec fn admission(self, job: RunCommandRequestView, r: Result<(), StartError>) -> bool {
        match r {
            Ok(()) => acceptable(job) && !self.knows(job.execution_id),
            Err(StartError::Invalid(e)) => rejected_for(job, e),
            Err(StartError::Duplicate) => acceptable(job) && self.knows(job.execution_id),
        }
    }

    /// The service after `job` was submitted at time `now`: it gains a
    /// pending record where the job is accepted and is unchanged otherwise.
    pub open spec fn submit(self, job: RunCommandRequestView, now: nat) -> ServiceView {
        if acceptable(job) && !self.knows(job.execution_id) {
            self.accept(job, now)
        } else {
            self
        }
    }

    /// The service after `event` reached execution `id` at time `now`. An
    /// event for an unknown execution changes nothing.
    pub open spec fn dispatch(self, id: Seq<char>, event: EventView, now: nat) -> ServiceView {
        if self.knows(id) {
            self.replace(id, self.record(id).apply(event, now))
        } else {
            self
        }
    }

    /// What the backend is asked to do when `event` reaches execution `id`.
    pub open spec fn reaction(self, id: Seq<char>, event: EventView) -> ActionView {
        if self.knows(id) {
            self.record(id).action(event)
        } else {
            ActionView::Idle
        }
    }

    /// What waiting for execution `id` answers: nothing for an unknown
    /// execution, else the result once the execution has ended.
    pub open spec fn outcome(self, id: Seq<char>) -> Option<Option<RunCommandResponseView>> {
        if !self.knows(id) {
            None
        } else if self.record(id).state.terminal() {
            Some(Some(self.record(id).result()))
        } else {
            Some(None)
        }
    }

    /// The service after it was asked to forget execution `id`: the record is
    /// dropped where the execution has ended; one that has not ended stays.
    pub open spec fn forget(self, id: Seq<char>) -> ServiceView {
        if self.knows(id) && self.record(id).state.terminal() {
            ServiceView { records: self.records.remove(self.index_of(id)), ..self }
        } else {
            self
        }
    }

    /// The service after a reader was added to the output of execution `id`.
    pub open spec fn open_stream(self, id: Seq<char>, history: bool, follow: bool) -> ServiceView {
        if self.knows(id) {
            self.replace(id, self.record(id).subscribe(history, follow))
        } else {
            self
        }
    }

    /// What reader `reader` of execution `id` gets next; closed where the
    /// execution is unknown.
    pub open spec fn delivery(self, id: Seq<char>, reader: int) -> DeliveryView {
        if self.knows(id) {
            self.record(id).output.delivery(reader)
        } else {
            DeliveryView::Closed
        }
    }

    /// The service after reader `reader` of execution `id` asked for its
    /// next chunk.
    pub open spec fn next_output(self, id: Seq<char>, reader: int) -> ServiceView {
        if self.knows(id) {
            self.replace(id, self.record(id).poll(reader))
        } else {
            self
        }
    }

    /// The service after reader `reader` of execution `id` gave up.
    pub open spec fn close_stream(self, id: Seq<char>, reader: int) -> ServiceView {
        if self.knows(id) {
            self.replace(id, self.record(id).detach(reader))
        } else {
            self
        }
    }
}

/// The models of a list of records.
pub open spec fn models(records: Seq<ExecutionRecord>) -> Seq<RecordView> {
    records.map_values(|r: ExecutionRecord| r@)
}

/// The model of what waiting answers.
pub open spec fn outcome_view(r: Option<Option<RunCommandResponse>>) -> Option<
    Option<RunCommandResponseView>,
> {
    match r {
        None => None,
        Some(None) => Some(None),
        Some(Some(res)) => Some(Some(res@)),
    }
}

/// In a valid service the record of a known execution is found at one place
/// only.
pub proof fn lemma_index_unique(s: ServiceView, id: Seq<char>, i: int)
    requires
        s.valid(),
        s.holds_at(id, i),
    ensures
        s.knows(id),
        s.index_of(id) == i,
        s.record(id) == s.records[i],
{
    let j = s.index_of(id);
    assert(s.holds_at(id, j));
    if i != j {
        assert(s.records[i].id() != s.records[j].id());
    }
}

/// Replacing the record of a known execution by a valid one with the same
/// identifier leaves a valid service valid.
pub proof fn lemma_replace_valid(s: ServiceView, id: Seq<char>, record: RecordView)
    requires
        s.valid(),
        s.knows(id),
        record.valid(),
        record.id() == id,
    ensures
        s.replace(id, record).valid(),
{
    let k = s.index_of(id);
    assert(s.holds_at(id, k));
    let after = s.replace(id, record);
    assert forall|i: int, j: int|
        0 <= i < after.records.len() && 0 <= j < after.records.len() && i != j implies (
    #[trigger] after.records[i]).id() != (#[trigger] after.records[j]).id() by {
        assert(s.records[i].id() != s.records[j].id());
    }
}

/// Replacing the record of a known execution by a valid one with the same
/// identifier changes no other record and makes no execution known or
/// unknown.
pub proof fn lemma_replace_lookup(
    s: ServiceView,
    id: Seq<char>,
    record: RecordView,
    other: Seq<char>,
)
    requires
        s.valid(),
        s.knows(id),
        record.valid(),
        record.id() == id,
    ensures
        s.replace(id, record).valid(),
        s.replace(id, record).knows(other) == s.knows(other),
        s.knows(other) ==> s.replace(id, record).record(other) == if other == id {
            record
        } else {
            s.record(other)
        },
{
    lemma_replace_valid(s, id, record);
    let k = s.index_of(id);
    let after = s.replace(id, record);
    assert(s.holds_at(id, k));
    if s.knows(other) {
        let j = s.index_of(other);
        assert(s.holds_at(other, j));
        lemma_index_unique(s, other, j);
        if other == id {
            lemma_index_unique(s, id, k);
        }
        assert(after.holds_at(other, j));
        lemma_index_unique(after, other, j);
    } else if after.knows(other) {
        let j = after.index_of(other);
        assert(after.holds_at(other, j));
        assert(s.holds_at(other, j));
    }
}

/// Accepting a job with a new identifier adds its record and changes no
/// other.
pub proof fn lemma_accept_lookup(
    s: ServiceView,
    job: RunCommandRequestView,
    now: nat,
    other: Seq<char>,
)
    requires
        s.valid(),
        !s.knows(job.execution_id),
    ensures
        s.accept(job, now).valid(),
        s.accept(job, now).knows(other) == (s.knows(other) || other == job.execution_id),
        s.accept(job, now).knows(job.execution_id),
        s.accept(job, now).record(job.execution_id) == RecordView::fresh(job, now),
        s.knows(other) ==> s.accept(job, now).record(other) == s.record(other),
{
    let after = s.accept(job, now);
    let n = s.records.len() as int;
    assert(after.records[n] == RecordView::fresh(job, now));
    assert forall|i: int, j: int|
        0 <= i < after.records.len() && 0 <= j < after.records.len() && i != j implies (
    #[trigger] after.records[i]).id() != (#[trigger] after.records[j]).id() by {
        if i < n && j < n {
            assert(s.records[i].id() != s.records[j].id());
        } else if i < n {
            assert(!s.holds_at(job.execution_id, i));
        } else {
            assert(!s.holds_at(job.execution_id, j));
        }
    }
    assert(after.holds_at(job.execution_id, n));
    lemma_index_unique(after, job.execution_id, n);
    if s.knows(other) {
        let j = s.index_of(other);
        assert(s.holds_at(other, j));
        assert(after.holds_at(other, j));
        lemma_index_unique(after, other, j);
    } else if after.knows(other) {
        let j = after.index_of(other);
        assert(after.holds_at(other, j));
        if j < n {
            assert(s.holds_at(other, j));
        }
    }
}

/// Forgetting an execution drops its record and changes no other.
pub proof fn lemma_forget_lookup(s: ServiceView, id: Seq<char>, other: Seq<char>)
    requires
        s.valid(),
    ensures
        s.forget(id).valid(),
        s.knows(id) && s.record(id).state.terminal() ==> !s.forget(id).knows(id),
        other != id ==> s.forget(id).knows(other) == s.knows(other),
        other != id && s.knows(other) ==> s.forget(id).record(other) == s.record(other),
{
    if s.knows(id) && s.record(id).state.terminal() {
        let k = s.index_of(id);
        assert(s.holds_at(id, k));
        let after = s.forget(id);
        assert forall|i: int| 0 <= i < after.records.len() implies (
        #[trigger] after.records[i]).valid() by {
            if i < k {
                assert(after.records[i] == s.records[i]);
            } else {
                assert(after.records[i] == s.records[i + 1]);
            }
        }
        assert forall|i: int, j: int|
            0 <= i < after.records.len() && 0 <= j < after.records.len() && i != j implies (
        #[trigger] after.records[i]).id() != (#[trigger] after.records[j]).id() by {
            let a = if i < k {
                i
            } else {
                i + 1
            };
            let b = if j < k {
                j
            } else {
                j + 1
            };
            assert(after.records[i] == s.records[a]);
            assert(after.records[j] == s.records[b]);
            assert(s.records[a].id() != s.records[b].id());
        }
        if after.knows(id) {
            let j = after.index_of(id);
            assert(after.holds_at(id, j));
            let b = if j < k {
                j
            } else {
                j + 1
            };
            assert(after.records[j] == s.records[b]);
            assert(s.records[b].id() != s.records[k].id());
        }
        if other != id {
            if s.knows(other) {
                let j = s.index_of(other);
                assert(s.holds_at(other, j));
                let b = if j < k {
                    j
                } else {
                    j - 1
                };
                assert(after.records[b] == s.records[j]);
                assert(after.holds_at(other, b));
                lemma_index_unique(after, other, b);
            } else if after.knows(other) {
                let j = after.index_of(other);
                assert(after.holds_at(other, j));
                let b = if j < k {
                    j
                } else {
                    j + 1
                };
                assert(after.records[j] == s.records[b]);
                assert(s.holds_at(other, b));
            }
        }
    }
}

/// One call on the service.
pub enum ServiceOp {
    Submit(RunCommandRequestView, nat),
    Dispatch(Seq<char>, EventView, nat),
    OpenStream(Seq<char>, bool, bool),
    NextOutput(Seq<char>, int),
    CloseStream(Seq<char>, int),
    Forget(Seq<char>),
}

impl ServiceView {
    /// The service after one call.
    pub open spec fn step(self, op: ServiceOp) -> ServiceView {
        match op {
            ServiceOp::Submit(job, now) => self.submit(job, now),
            ServiceOp::Dispatch(id, event, now) => self.dispatch(id, event, now),
            ServiceOp::OpenStream(id, history, follow) => self.open_stream(id, history, follow),
            ServiceOp::NextOutput(id, reader) => self.next_output(id, reader),
            ServiceOp::CloseStream(id, reader) => self.close_stream(id, reader),
            ServiceOp::Forget(id) => self.forget(id),
        }
    }

    /// The service after the calls `ops`, taken in order.
    pub open spec fn run(self, ops: Seq<ServiceOp>) -> ServiceView
        decreases ops.len(),
    {
        if ops.len() == 0 {
            self
        } else {
            self.run(ops.drop_last()).step(ops.last())
        }
    }
}

/// One call leaves a valid service valid. An execution that was known stays
/// known unless the call is to forget it, and its record moves forward only;
/// once it has ended, its state and its result stay as they are.
pub proof fn lemma_step_keeps(s: ServiceView, op: ServiceOp, id: Seq<char>)
    requires
        s.valid(),
    ensures
        s.step(op).valid(),
        s.knows(id) && op != ServiceOp::Forget(id) ==> s.step(op).knows(id) && s.record(
            id,
        ).precedes(s.step(op).record(id)),
{
    match op {
        ServiceOp::Forget(target) => {
            lemma_forget_lookup(s, target, id);
        },
        ServiceOp::Submit(job, now) => {
            if acceptable(job) && !s.knows(job.execution_id) {
                lemma_accept_lookup(s, job, now, id);
            }
        },
        ServiceOp::Dispatch(target, event, now) => {
            if s.knows(target) {
                let k = s.index_of(target);
                assert(s.holds_at(target, k));
                crate::record::lemma_apply_valid(s.record(target), event, now);
                crate::record::lemma_state_moves_forward(s.record(target), event, now);
                lemma_replace_lookup(s, target, s.record(target).apply(event, now), id);
            }
        },
        ServiceOp::OpenStream(target, history, follow) => {
            if s.knows(target) {
                let k = s.index_of(target);
                assert(s.holds_at(target, k));
                crate::record::lemma_readers_keep_valid(s.record(target), history, follow, 0);
                crate::record::lemma_readers_leave_result(s.record(target), history, follow, 0);
                lemma_replace_lookup(s, target, s.record(target).subscribe(history, follow), id);
            }
        },
        ServiceOp::NextOutput(target, reader) => {
            if s.knows(target) {
                let k = s.index_of(target);
                assert(s.holds_at(target, k));
                crate::record::lemma_readers_keep_valid(s.record(target), true, true, reader);
                crate::record::lemma_readers_leave_result(s.record(target), true, true, reader);
                lemma_replace_lookup(s, target, s.record(target).poll(reader), id);
            }
        },
        ServiceOp::CloseStream(target, reader) => {
            if s.knows(target) {
                let k = s.index_of(target);
                assert(s.holds_at(target, k));
                crate::record::lemma_readers_keep_valid(s.record(target), true, true, reader);
                crate::record::lemma_readers_leave_result(s.record(target), true, true, reader);
                lemma_replace_lookup(s, target, s.record(target).detach(reader), id);
            }
        },
    }
}

/// Whatever is called on the service, an execution that was known stays
/// known until the service is asked to forget it, and its record moves
/// forward only.
pub proof fn lemma_run_keeps(s: ServiceView, ops: Seq<ServiceOp>, id: Seq<char>)
    requires
        s.valid(),
        forall|k: int| 0 <= k < ops.len() ==> ops[k] != ServiceOp::Forget(id),
    ensures
        s.run(ops).valid(),
        s.knows(id) ==> s.run(ops).knows(id) && s.record(id).precedes(s.run(ops).record(id)),
    decreases ops.len(),
{
    if ops.len() > 0 {
        assert forall|k: int| 0 <= k < ops.drop_last().len() implies ops.drop_last()[k]
            != ServiceOp::Forget(id) by {
            assert(ops.drop_last()[k] == ops[k]);
        }
        lemma_run_keeps(s, ops.drop_last(), id);
        lemma_step_keeps(s.run(ops.drop_last()), ops.last(), id);
    }
}

/// A job that was accepted can be waited for from then on: whatever is
/// called on the service afterwards, short of forgetting the execution,
/// waiting never answers that the execution is unknown, and right after
/// acceptance it answers that the execution has not ended.
pub proof fn lemma_started_can_be_awaited(
    s: ServiceView,
    job: RunCommandRequestView,
    now: nat,
    ops: Seq<ServiceOp>,
)
    requires
        s.valid(),
        acceptable(job),
        !s.knows(job.execution_id),
        forall|k: int| 0 <= k < ops.len() ==> ops[k] != ServiceOp::Forget(job.execution_id),
    ensures
        s.submit(job, now).outcome(job.execution_id) == Some(
            None::<RunCommandResponseView>,
        ),
        s.submit(job, now).run(ops).outcome(job.execution_id) is Some,
{
    lemma_accept_lookup(s, job, now, job.execution_id);
    lemma_run_keeps(s.submit(job, now), ops, job.execution_id);
}

/// An execution has one result: once waiting has answered with it, it
/// answers with the same whenever it is asked again, whatever is called on
/// the service in between, short of forgetting the execution.
pub proof fn lemma_result_is_final(s: ServiceView, ops: Seq<ServiceOp>, id: Seq<char>)
    requires
        s.valid(),
        s.outcome(id) matches Some(Some(_)),
        forall|k: int| 0 <= k < ops.len() ==> ops[k] != ServiceOp::Forget(id),
    ensures
        s.run(ops).outcome(id) == s.outcome(id),
{
    lemma_run_keeps(s, ops, id);
}

/// Cancelling an execution that is unknown or has ended changes nothing and
/// asks nothing of the backend.
pub proof fn lemma_cancel_is_idle(s: ServiceView, id: Seq<char>, now: nat)
    requires
        s.valid(),
        !s.knows(id) || s.record(id).state.terminal(),
    ensures
        s.dispatch(id, EventView::Cancel, now) == s,
        s.reaction(id, EventView::Cancel) is Idle,
{
    if s.knows(id) {
        let k = s.index_of(id);
        assert(s.holds_at(id, k));
        assert(s.records.update(k, s.records[k]) =~= s.records);
    }
}

/// A job whose identifier is taken is turned down, and the service with
/// all its records stays as it was.
pub proof fn lemma_duplicate_start_rejected(s: ServiceView, job: RunCommandRequestView, now: nat)
    requires
        s.knows(job.execution_id),
    ensures
        s.submit(job, now) == s,
        !s.admission(job, Ok(())),
{
}

/// The executor service: every execution it has accepted, by identifier,
/// and what the node can give.
#[derive(Debug)]
pub struct ExecutorService {
    records: Vec<ExecutionRecord>,
    capability: Capability,
}

impl View for ExecutorService {
    type V = ServiceView;

    closed spec fn view(&self) -> ServiceView {
        ServiceView { records: models(self.records@), capability: self.capability }
    }
}

impl Default for ExecutorService {
    /// A service that knows no execution, on a node without limits.
    fn default() -> (s: Self)
        ensures
            s.wf(),
            s@ == ServiceView::empty(
                Capability {
                    resources: Resources {
                        cpu_millis: u64::MAX,
                        memory: u64::MAX,
                        disk: u64::MAX,
                        gpu: u64::MAX,
                    },
                    networking: true,
                },
            ),
    {
        ExecutorService::new(
            Capability {
                resources: Resources {
                    cpu_millis: u64::MAX,
                    memory: u64::MAX,
                    disk: u64::MAX,
                    gpu: u64::MAX,
                },
                networking: true,
            },
        )
    }
}

impl ExecutorService {
    /// The model is valid and every record is well-formed.
    pub closed spec fn wf(&self) -> bool {
        &&& self@.valid()
        &&& forall|i: int| 0 <= i < self.records.len() ==> (#[trigger] self.records[i]).wf()
    }

    /// Validity of the model follows from well-formedness.
    pub proof fn lemma_wf_valid(&self)
        requires
            self.wf(),
        ensures
            self@.valid(),
    {
    }

    /// A service that knows no execution, on a node that can give
    /// `capability`.
    pub fn new(capability: Capability) -> (s: Self)
        ensures
            s.wf(),
            s@ == ServiceView::empty(capability),
    {
        let s = ExecutorService { records: Vec::new(), capability };
        assert(s@.records =~= Seq::empty());
        s
    }

    /// What the node can give.
    pub fn capability(&self) -> (c: Capability)
        ensures
            c == self@.capability,
    {
        self.capability
    }

    /// How many executions the service knows.
    pub fn execution_count(&self) -> (n: usize)
        ensures
            n == self@.records.len(),
    {
        self.records.len()
    }

    /// The place of execution `id` among the records.
    fn find(&self, id: &String) -> (r: Option<usize>)
        requires
            self.wf(),
        ensures
            match r {
                Some(i) => self@.holds_at(id@, i as int) && self@.knows(id@) && self@.index_of(id@)
                    == i,
                None => !self@.knows(id@),
            },
    {
        let mut i: usize = 0;
        while i < self.records.len()
            invariant
                self.wf(),
                0 <= i <= self.records.len(),
                forall|j: int| 0 <= j < i ==> !self@.holds_at(id@, j),
            decreases self.records.len() - i,
        {
            if *self.records[i].execution_id() == *id {
                proof {
                    lemma_index_unique(self@, id@, i as int);
                }
                return Some(i);
            }
            i = i + 1;
        }
        None
    }

    /// Whether an execution with this identifier is known.
    pub fn knows(&self, id: &String) -> (k: bool)
        requires
            self.wf(),
        ensures
            k == self@.knows(id@),
    {
        self.find(id).is_some()
    }

    /// Where execution `id` stands, if it is known.
    pub fn state_of(&self, id: &String) -> (s: Option<ExecutionState>)
        requires
            self.wf(),
        ensures
            s == if self@.knows(id@) {
                Some(self@.record(id@).state)
            } else {
                None
            },
    {
        match self.find(id) {
            Some(i) => Some(self.records[i].state()),
            None => None,
        }
    }

    /// The job of execution `id`, if it is known.
    pub fn job_of(&self, id: &String) -> (job: Option<&RunCommandRequest>)
        requires
            self.wf(),
        ensures
            match job {
                Some(j) => self@.knows(id@) && j@ == self@.record(id@).job,
                None => !self@.knows(id@),
            },
    {
        match self.find(id) {
            Some(i) => Some(self.records[i].job()),
            None => None,
        }
    }

    /// Validates `job` and, where it passes and its identifier is new, adds
    /// a pending record for it. Nothing is asked of the backend. A job that
    /// is turned down leaves the service as it was.
    pub fn submit(&mut self, job: RunCommandRequest, now: u64) -> (r: Result<(), StartError>)
        requires
            old(self).wf(),
        ensures
            final(self).wf(),
            old(self)@.admission(job@, r),
            final(self)@ == old(self)@.submit(job@, now as nat),
            r is Ok ==> final(self)@.knows(job@.execution_id) && final(self)@.record(
                job@.execution_id,
            ) == RecordView::fresh(job@, now as nat),
    {
        match validate(&job) {
            Err(e) => {
                proof {
                    crate::validate::lemma_rejection_unique(job@, e, e);
                }
                return Err(StartError::Invalid(e));
            },
            Ok(()) => {},
        }
        if self.find(&job.execution_id).is_some() {
            return Err(StartError::Duplicate);
        }
        let ghost before = self@;
        let record = ExecutionRecord::new(job, now);
        proof {
            lemma_accept_lookup(before, job@, now as nat, job@.execution_id);
            record.lemma_wf_valid();
            assert(models(self.records@.push(record)) =~= before.records.push(record@));
            let after = before.accept(job@, now as nat);
            assert forall|i: int, j: int|
                0 <= i < after.records.len() && 0 <= j < after.records.len() && i != j implies (
            #[trigger] after.records[i]).id() != (#[trigger] after.records[j]).id() by {
                if i < before.records.len() && j < before.records.len() {
                    assert(before.records[i].id() != before.records[j].id());
                } else if i < before.records.len() {
                    assert(!before.holds_at(job@.execution_id, i));
                } else {
                    assert(!before.holds_at(job@.execution_id, j));
                }
            }
        }
        self.records.push(record);
        Ok(())
    }

    /// Hands `event`, which reached the engine at time `now`, to execution
    /// `id` and returns what the backend is to do next. An event for an
    /// unknown execution changes nothing and asks for nothing.
    pub fn dispatch(&mut self, id: &String, event: Event, now: u64) -> (action: Action)
        requires
            old(self).wf(),
        ensures
            final(self).wf(),
            final(self)@ == old(self)@.dispatch(id@, event@, now as nat),
            action@ == old(self)@.reaction(id@, event@),
            old(self)@.knows(id@) ==> final(self)@.knows(id@) && final(self)@.record(id@) == old(
                self,
            )@.record(id@).apply(event@, now as nat),
    {
        let ghost before = self@;
        match self.find(id) {
            None => Action::Idle,
            Some(i) => {
                let action = self.records[i].apply(event, now);
                proof {
                    self.records[i as int].lemma_wf_valid();
                    lemma_replace_lookup(before, id@, self.records[i as int]@, id@);
                    lemma_replace_valid(before, id@, self.records[i as int]@);
                    assert(models(self.records@) =~= before.records.update(
                        i as int,
                        self.records[i as int]@,
                    ));
                }
                action
            },
        }
    }

    /// What waiting for execution `id` answers: `None` for an unknown
    /// execution, `Some(None)` while it has not ended, and its result once it
    /// has. Nothing is changed, so that asking again gives the same.
    pub fn result_of(&self, id: &String) -> (r: Option<Option<RunCommandResponse>>)
        requires
            self.wf(),
        ensures
            outcome_view(r) == self@.outcome(id@),
    {
        match self.find(id) {
            None => None,
            Some(i) => Some(self.records[i].result()),
        }
    }

    /// Drops the record of execution `id` if the execution has ended, and
    /// says whether it did. An execution that has not ended is never dropped.
    pub fn forget(&mut self, id: &String) -> (dropped: bool)
        requires
            old(self).wf(),
        ensures
            final(self).wf(),
            final(self)@ == old(self)@.forget(id@),
            dropped == (old(self)@.knows(id@) && old(self)@.record(id@).state.terminal()),
            dropped ==> !final(self)@.knows(id@),
    {
        let ghost before = self@;
        match self.find(id) {
            None => false,
            Some(i) => {
                if !self.records[i].state().is_terminal() {
                    return false;
                }
                proof {
                    lemma_forget_lookup(before, id@, id@);
                    assert(models(self.records@.remove(i as int)) =~= before.records.remove(
                        i as int,
                    ));
                }
                self.records.remove(i);
                true
            },
        }
    }

    /// Adds a reader to the output of execution `id` and returns its number;
    /// `None` for an unknown execution.
    pub fn open_stream(&mut self, id: &String, history: bool, follow: bool) -> (reader: Option<
        usize,
    >)
        requires
            old(self).wf(),
        ensures
            final(self).wf(),
            final(self)@ == old(self)@.open_stream(id@, history, follow),
            old(self)@.knows(id@) ==> final(self)@.knows(id@) && final(self)@.record(id@) == old(
                self,
            )@.record(id@).subscribe(history, follow),
            match reader {
                Some(n) => old(self)@.knows(id@) && n == old(self)@.record(
                    id@,
                ).output.subscribers.len(),
                None => !old(self)@.knows(id@),
            },
    {
        let ghost before = self@;
        match self.find(id) {
            None => None,
            Some(i) => {
                let reader = self.records[i].subscribe(history, follow);
                proof {
                    self.records[i as int].lemma_wf_valid();
                    lemma_replace_lookup(before, id@, self.records[i as int]@, id@);
                    lemma_replace_valid(before, id@, self.records[i as int]@);
                    assert(models(self.records@) =~= before.records.update(
                        i as int,
                        self.records[i as int]@,
                    ));
                }
                Some(reader)
            },
        }
    }

    /// Gives reader `reader` of execution `id` its next chunk of output.
    pub fn next_output(&mut self, id: &String, reader: usize) -> (d: Delivery)
        requires
            old(self).wf(),
        ensures
            final(self).wf(),
            final(self)@ == old(self)@.next_output(id@, reader as int),
            old(self)@.knows(id@) ==> final(self)@.knows(id@) && final(self)@.record(id@) == old(
                self,
            )@.record(id@).poll(reader as int),
            d@ == old(self)@.delivery(id@, reader as int),
    {
        let ghost before = self@;
        match self.find(id) {
            None => Delivery::Closed,
            Some(i) => {
                let d = self.records[i].poll(reader);
                proof {
                    self.records[i as int].lemma_wf_valid();
                    lemma_replace_lookup(before, id@, self.records[i as int]@, id@);
                    lemma_replace_valid(before, id@, self.records[i as int]@);
                    assert(models(self.records@) =~= before.records.update(
                        i as int,
                        self.records[i as int]@,
                    ));
                }
                d
            },
        }
    }

    /// Stops reader `reader` of execution `id` where it is.
    pub fn close_stream(&mut self, id: &String, reader: usize)
        requires
            old(self).wf(),
        ensures
            final(self).wf(),
            final(self)@ == old(self)@.close_stream(id@, reader as int),
            old(self)@.knows(id@) ==> final(self)@.knows(id@) && final(self)@.record(id@) == old(
                self,
            )@.record(id@).detach(reader as int),
    {
        let ghost before = self@;
        match self.find(id) {
            None => {},
            Some(i) => {
                self.records[i].detach(reader);
                proof {
                    self.records[i as int].lemma_wf_valid();
                    lemma_replace_lookup(before, id@, self.records[i as int]@, id@);
                    lemma_replace_valid(before, id@, self.records[i as int]@);
                    assert(models(self.records@) =~= before.records.update(
                        i as int,
                        self.records[i as int]@,
                    ));
                }
            },
        }
    }
}

} // verus!
