//! The life of one execution: its states, the events that move it from one
//! to the next, and what the backend is asked to do at each step.

use crate::btypes::opt_text;
use crate::btypes::OutputLimits;
use crate::btypes::RunCommandRequest;
use crate::btypes::RunCommandRequestView;
use crate::btypes::RunCommandResponse;
use crate::btypes::RunCommandResponseView;
use crate::docker::DockerError;
use crate::docker::DockerErrorView;
use crate::output::Broadcaster;
use crate::output::BroadcasterView;
use crate::output::Delivery;
use crate::output::StreamKind;
use crate::text::lossy_text;
use crate::text::utf8_lossy;
use vstd::prelude::*;

verus! {

/// Where an execution stands. The last three states are terminal.
#[derive(Clone, Copy, Debug, PartialEq, Eq, Structural)]
pub enum ExecutionState {
    Pending,
    Preparing,
    Running,
    Completed,
    Failed,
    Cancelled,
}

impl ExecutionState {
    /// Whether nothing can follow this state.
    pub open spec fn terminal(self) -> bool {
        self is Completed || self is Failed || self is Cancelled
    }

    /// How far along the lifecycle this state is.
    pub open spec fn rank(self) -> nat {
        match self {
            ExecutionState::Pending => 0,
            ExecutionState::Preparing => 1,
            ExecutionState::Running => 2,
            _ => 3,
        }
    }

    /// Whether nothing can follow this state.
    pub fn is_terminal(&self) -> (t: bool)
        ensures
            t == self.terminal(),
    {
        match self {
            ExecutionState::Completed | ExecutionState::Failed | ExecutionState::Cancelled => true,
            _ => false,
        }
    }
}

/// Something that happened to an execution.
#[derive(Debug)]
pub enum Event {
    /// The engine took the job up.
    Prepare,
    /// The image of the job was pulled.
    Pulled,
    /// A container for the job runs, under this handle.
    Started(String),
    /// The backend failed.
    Failed(DockerError),
    /// The job wrote to one of its streams.
    Output(StreamKind, Vec<u8>),
    /// The job's process ended with this code.
    Exited(i32),
    /// The backend confirmed that it stopped the job.
    Stopped,
    /// The backend did not confirm a stop in time.
    GraceExpired,
    /// The orchestrator asked for the job to be cancelled.
    Cancel,
}

/// The model of an [`Event`].
pub enum EventView {
    Prepare,
    Pulled,
    Started(Seq<char>),
    Failed(DockerErrorView),
    Output(StreamKind, Seq<u8>),
    Exited(int),
    Stopped,
    GraceExpired,
    Cancel,
}

impl View for Event {
    type V = EventView;

    open spec fn view(&self) -> EventView {
        match self {
            Event::Prepare => EventView::Prepare,
            Event::Pulled => EventView::Pulled,
            Event::Started(h) => EventView::Started(h@),
            Event::Failed(e) => EventView::Failed(e@),
            Event::Output(s, d) => EventView::Output(*s, d@),
            Event::Exited(c) => EventView::Exited(*c as int),
            Event::Stopped => EventView::Stopped,
            Event::GraceExpired => EventView::GraceExpired,
            Event::Cancel => EventView::Cancel,
        }
    }
}

/// What the backend is to do next for an execution.
#[derive(Debug)]
pub enum Action {
    /// Nothing.
    Idle,
    /// Pull the image.
    Pull,
    /// Stage the inputs, apply the network policy, then create and start the
    /// container.
    Launch,
    /// Stop the job: its container where it has one, its preparation
    /// otherwise.
    Stop(Option<String>),
    /// Kill the job at once.
    Kill(Option<String>),
}

/// The model of an [`Action`].
pub enum ActionView {
    Idle,
    Pull,
    Launch,
    Stop(Option<Seq<char>>),
    Kill(Option<Seq<char>>),
}

impl View for Action {
    type V = ActionView;

    open spec fn view(&self) -> ActionView {
        match self {
            Action::Idle => ActionView::Idle,
            Action::Pull => ActionView::Pull,
            Action::Launch => ActionView::Launch,
            Action::Stop(h) => ActionView::Stop(opt_text(*h)),
            Action::Kill(h) => ActionView::Kill(opt_text(*h)),
        }
    }
}

/// The limits that hold where a job names none: nothing is cut.
pub open spec fn no_limits() -> OutputLimits {
    OutputLimits {
        max_stdout_file_length: u64::MAX,
        max_stdout_return_length: u64::MAX,
        max_stderr_file_length: u64::MAX,
        max_stderr_return_length: u64::MAX,
    }
}

/// The limits under which a job's output is captured.
pub open spec fn limits_of(job: RunCommandRequestView) -> OutputLimits {
    match job.output_limits {
        Some(l) => l,
        None => no_limits(),
    }
}

/// The model of an [`ExecutionRecord`].
pub struct RecordView {
    pub job: RunCommandRequestView,
    pub state: ExecutionState,
    pub image_ready: bool,
    pub container: Option<Seq<char>>,
    pub output: BroadcasterView,
    pub exit_code: int,
    pub error_msg: Option<Seq<char>>,
    pub cancel_requested: bool,
    pub created_at: nat,
    pub finished_at: Option<nat>,
}

impl RecordView {
    /// The record of a job that was just accepted.
    pub open spec fn fresh(job: RunCommandRequestView, now: nat) -> RecordView {
        RecordView {
            job,
            state: ExecutionState::Pending,
            image_ready: false,
            container: None,
            output: BroadcasterView::fresh(limits_of(job)),
            exit_code: 0,
            error_msg: None,
            cancel_requested: false,
            created_at: now,
            finished_at: None,
        }
    }

    /// The identifier of the execution.
    pub open spec fn id(self) -> Seq<char> {
        self.job.execution_id
    }

    /// Whether the backend is at work on the job.
    pub open spec fn active(self) -> bool {
        self.state is Preparing || self.state is Running
    }

    /// Whether the job is being prepared and its image is yet to come.
    pub open spec fn awaits_image(self) -> bool {
        self.state is Preparing && !self.image_ready
    }

    /// Whether the job is being prepared, its image is there and its
    /// container is yet to come.
    pub open spec fn awaits_container(self) -> bool {
        self.state is Preparing && self.image_ready
    }

    /// The record as it ends in `state` at time `now`: its output is closed.
    pub open spec fn finish(self, state: ExecutionState, now: nat) -> RecordView {
        RecordView { state, finished_at: Some(now), output: self.output.close(), ..self }
    }

    /// The state in which a job ends that stopped of itself: cancelled where
    /// a cancellation was asked for before, `otherwise` where none was.
    pub open spec fn ending(self, otherwise: ExecutionState) -> ExecutionState {
        if self.cancel_requested {
            ExecutionState::Cancelled
        } else {
            otherwise
        }
    }

    /// The record after `event` at time `now`. A terminal record never
    /// changes, and an event that does not fit the state changes nothing.
    pub open spec fn apply(self, event: EventView, now: nat) -> RecordView {
        if self.state.terminal() {
            self
        } else {
            match event {
                EventView::Prepare => if self.state is Pending {
                    RecordView { state: ExecutionState::Preparing, ..self }
                } else {
                    self
                },
                EventView::Pulled => if !self.awaits_image() {
                    self
                } else if self.cancel_requested {
                    self.finish(ExecutionState::Cancelled, now)
                } else {
                    RecordView { image_ready: true, ..self }
                },
                EventView::Started(handle) => if self.awaits_container() {
                    RecordView { state: ExecutionState::Running, container: Some(handle), ..self }
                } else {
                    self
                },
                EventView::Failed(error) => if !self.active() {
                    self
                } else if self.cancel_requested {
                    self.finish(ExecutionState::Cancelled, now)
                } else {
                    RecordView {
                        error_msg: Some(error.text()),
                        ..self.finish(ExecutionState::Failed, now)
                    }
                },
                EventView::Output(stream, data) => if self.state is Running {
                    RecordView { output: self.output.write(stream, data), ..self }
                } else {
                    self
                },
                EventView::Exited(code) => if self.state is Running {
                    RecordView {
                        exit_code: code,
                        ..self.finish(self.ending(ExecutionState::Completed), now)
                    }
                } else {
                    self
                },
                EventView::Stopped | EventView::GraceExpired => if self.active()
                    && self.cancel_requested {
                    self.finish(ExecutionState::Cancelled, now)
                } else {
                    self
                },
                EventView::Cancel => if self.state is Pending {
                    RecordView {
                        cancel_requested: true,
                        ..self.finish(ExecutionState::Cancelled, now)
                    }
                } else {
                    RecordView { cancel_requested: true, ..self }
                },
            }
        }
    }

    /// What the backend is asked to do when `event` reaches the record. A
    /// container that starts when the record cannot take it, because the
    /// execution has ended meanwhile or has a container already, is killed.
    pub open spec fn action(self, event: EventView) -> ActionView {
        match event {
            EventView::Prepare => if self.state is Pending {
                ActionView::Pull
            } else {
                ActionView::Idle
            },
            EventView::Pulled => if self.awaits_image() && !self.cancel_requested {
                ActionView::Launch
            } else {
                ActionView::Idle
            },
            EventView::Started(handle) => if self.awaits_container() {
                if self.cancel_requested {
                    ActionView::Stop(Some(handle))
                } else {
                    ActionView::Idle
                }
            } else if self.container == Some(handle) {
                ActionView::Idle
            } else {
                ActionView::Kill(Some(handle))
            },
            EventView::GraceExpired => if self.active() && self.cancel_requested {
                ActionView::Kill(self.container)
            } else {
                ActionView::Idle
            },
            EventView::Cancel => if self.active() && !self.cancel_requested {
                ActionView::Stop(self.container)
            } else {
                ActionView::Idle
            },
            _ => ActionView::Idle,
        }
    }

    /// The result of the execution as the record holds it.
    pub open spec fn result(self) -> RunCommandResponseView {
        RunCommandResponseView {
            stdout: lossy_text(self.output.returned(StreamKind::Stdout)),
            stdout_truncated: self.output.truncated(StreamKind::Stdout),
            stderr: lossy_text(self.output.returned(StreamKind::Stderr)),
            stderr_truncated: self.output.truncated(StreamKind::Stderr),
            exit_code: self.exit_code,
            error_msg: self.error_msg,
        }
    }

    /// The record after a reader was added to its output.
    pub open spec fn subscribe(self, history: bool, follow: bool) -> RecordView {
        RecordView { output: self.output.subscribe(history, follow), ..self }
    }

    /// The record after reader `reader` asked for its next chunk.
    pub open spec fn poll(self, reader: int) -> RecordView {
        RecordView { output: self.output.poll(reader), ..self }
    }

    /// The record after reader `reader` gave up.
    pub open spec fn detach(self, reader: int) -> RecordView {
        RecordView { output: self.output.detach(reader), ..self }
    }

    /// What holds of every record: its output is valid and is closed exactly
    /// when the state is terminal, which is also when the end was recorded;
    /// a running job has its image and a container, a pending one has
    /// neither and no cancellation; an error message stands exactly with a
    /// failure.
    pub open spec fn valid(self) -> bool {
        &&& self.output.valid()
        &&& self.output.limits == limits_of(self.job)
        &&& self.output.closed <==> self.state.terminal()
        &&& self.finished_at is Some <==> self.state.terminal()
        &&& self.state is Running ==> self.container is Some && self.image_ready
        &&& self.state is Pending ==> self.container is None && !self.cancel_requested
            && !self.image_ready
        &&& self.state is Preparing ==> self.container is None
        &&& self.error_msg is Some <==> self.state is Failed
    }

    /// The record after the events `events`, each with the time at which it
    /// reached the engine, taken in order.
    pub open spec fn replay(self, events: Seq<(EventView, nat)>) -> RecordView
        decreases events.len(),
    {
        if events.len() == 0 {
            self
        } else {
            self.replay(events.drop_last()).apply(events.last().0, events.last().1)
        }
    }

    /// Whether `later` can be what this record has become: it is the record
    /// of the same job, accepted at the same time, and no earlier in the
    /// lifecycle; and where this record is terminal, `later` ended in the
    /// same state at the same time and gives the same result.
    pub open spec fn precedes(self, later: RecordView) -> bool {
        &&& later.job == self.job
        &&& later.created_at == self.created_at
        &&& self.state.rank() <= later.state.rank()
        &&& self.state.terminal() ==> {
            &&& later.state == self.state
            &&& later.finished_at == self.finished_at
            &&& later.result() == self.result()
        }
    }
}

/// Every event leaves a valid record valid.
pub proof fn lemma_apply_valid(r: RecordView, event: EventView, now: nat)
    requires
        r.valid(),
    ensures
        r.apply(event, now).valid(),
{
    if let EventView::Output(stream, data) = event {
        crate::output::lemma_write_valid(r.output, stream, data);
    }
}

/// Nothing follows a terminal state: a record that has ended takes no event,
/// and asks nothing of the backend but to kill a container that starts too
/// late.
pub proof fn lemma_terminal_is_final(r: RecordView, event: EventView, now: nat)
    requires
        r.valid(),
        r.state.terminal(),
    ensures
        r.apply(event, now) == r,
        !(event is Started) ==> r.action(event) is Idle,
        event matches EventView::Started(handle) ==> r.action(event) is Idle || r.action(event)
            == ActionView::Kill(Some(handle)),
{
}

/// An event moves a record forward or not at all: from pending to preparing
/// or cancelled, from preparing to running, failed or cancelled, from
/// running to completed, failed or cancelled.
pub proof fn lemma_state_moves_forward(r: RecordView, event: EventView, now: nat)
    ensures
        r.precedes(r.apply(event, now)),
        r.apply(event, now).state != r.state ==> match r.state {
            ExecutionState::Pending => r.apply(event, now).state is Preparing || r.apply(
                event,
                now,
            ).state is Cancelled,
            ExecutionState::Preparing => r.apply(event, now).state is Running || r.apply(
                event,
                now,
            ).state is Failed || r.apply(event, now).state is Cancelled,
            ExecutionState::Running => r.apply(event, now).state.terminal(),
            _ => false,
        },
{
}

/// No event takes captured output away: what the log held before an event
/// it still holds after it, also where the event ends the execution in
/// failure or cancellation; and only output itself adds to the log or raises
/// a truncation flag.
pub proof fn lemma_output_survives(r: RecordView, event: EventView, now: nat)
    requires
        r.valid(),
    ensures
        r.output.log.len() <= r.apply(event, now).output.log.len(),
        r.apply(event, now).output.log.take(r.output.log.len() as int) == r.output.log,
        r.output.truncated(StreamKind::Stdout) ==> r.apply(event, now).output.truncated(
            StreamKind::Stdout,
        ),
        r.output.truncated(StreamKind::Stderr) ==> r.apply(event, now).output.truncated(
            StreamKind::Stderr,
        ),
        !(event is Output) ==> r.apply(event, now).output.log == r.output.log && r.apply(
            event,
            now,
        ).result().stdout == r.result().stdout && r.apply(event, now).result().stderr
            == r.result().stderr,
{
    let after = r.apply(event, now);
    if let EventView::Output(stream, data) = event {
        crate::output::lemma_step_valid(r.output, crate::output::LogOp::Write(stream, data));
    }
    assert(after.output.log.take(r.output.log.len() as int) =~= r.output.log);
}

/// What readers do to the output of a record does not reach its state or
/// its result.
pub proof fn lemma_readers_leave_result(r: RecordView, history: bool, follow: bool, reader: int)
    ensures
        r.precedes(r.subscribe(history, follow)),
        r.precedes(r.poll(reader)),
        r.precedes(r.detach(reader)),
        r.subscribe(history, follow).state == r.state,
        r.poll(reader).state == r.state,
        r.detach(reader).state == r.state,
{
}

/// What readers do to the output of a valid record leaves it valid.
pub proof fn lemma_readers_keep_valid(r: RecordView, history: bool, follow: bool, reader: int)
    requires
        r.valid(),
    ensures
        r.subscribe(history, follow).valid(),
        r.poll(reader).valid(),
        r.detach(reader).valid(),
{
    crate::output::lemma_step_valid(r.output, crate::output::LogOp::Subscribe(history, follow));
    crate::output::lemma_step_valid(r.output, crate::output::LogOp::Poll(reader));
    crate::output::lemma_step_valid(r.output, crate::output::LogOp::Detach(reader));
}

/// Whatever events reach a record, it stays valid and moves forward only;
/// once it has ended, its state and its result stay as they are.
pub proof fn lemma_replay_moves_forward(r: RecordView, events: Seq<(EventView, nat)>)
    requires
        r.valid(),
    ensures
        r.replay(events).valid(),
        r.precedes(r.replay(events)),
    decreases events.len(),
{
    if events.len() > 0 {
        lemma_replay_moves_forward(r, events.drop_last());
        let mid = r.replay(events.drop_last());
        lemma_apply_valid(mid, events.last().0, events.last().1);
        lemma_state_moves_forward(mid, events.last().0, events.last().1);
    }
}

/// A job that exits while a cancellation arrives ends in exactly one state,
/// whichever of the two the engine sees first: completed where the exit
/// came first, cancelled where the cancellation did. Either way the record
/// is terminal after both, and no later event changes it.
pub proof fn lemma_exit_cancel_race(
    r: RecordView,
    code: int,
    exit_time: nat,
    cancel_time: nat,
    later: EventView,
    later_time: nat,
)
    requires
        r.valid(),
        r.state is Running,
        !r.cancel_requested,
    ensures
        r.apply(EventView::Exited(code), exit_time).apply(EventView::Cancel, cancel_time).state
            is Completed,
        r.apply(EventView::Cancel, cancel_time).apply(EventView::Exited(code), exit_time).state
            is Cancelled,
        r.apply(EventView::Exited(code), exit_time).apply(EventView::Cancel, cancel_time).apply(
            later,
            later_time,
        ) == r.apply(EventView::Exited(code), exit_time),
        r.apply(EventView::Cancel, cancel_time).apply(EventView::Exited(code), exit_time).apply(
            later,
            later_time,
        ) == r.apply(EventView::Cancel, cancel_time).apply(EventView::Exited(code), exit_time),
{
}

/// Once a cancellation was asked for, the job can end in no state but
/// cancelled, whatever the backend reports afterwards; and the backend's
/// confirmation, or the end of the grace period, ends it at once.
pub proof fn lemma_cancel_wins(r: RecordView, now: nat, events: Seq<(EventView, nat)>)
    requires
        r.valid(),
        !r.state.terminal(),
    ensures
        r.apply(EventView::Cancel, now).cancel_requested,
        r.apply(EventView::Cancel, now).replay(events).cancel_requested,
        r.apply(EventView::Cancel, now).replay(events).state.terminal() ==> r.apply(
            EventView::Cancel,
            now,
        ).replay(events).state is Cancelled,
        !r.apply(EventView::Cancel, now).replay(events).state.terminal() ==> r.apply(
            EventView::Cancel,
            now,
        ).replay(events).apply(EventView::Stopped, now).state is Cancelled && r.apply(
            EventView::Cancel,
            now,
        ).replay(events).apply(EventView::GraceExpired, now).state is Cancelled,
    decreases events.len(),
{
    if events.len() > 0 {
        lemma_cancel_wins(r, now, events.drop_last());
        lemma_replay_moves_forward(r.apply(EventView::Cancel, now), events.drop_last());
        lemma_apply_valid(r, EventView::Cancel, now);
    }
}

/// One execution as the engine keeps it.
#[derive(Debug)]
pub struct ExecutionRecord {
    job: RunCommandRequest,
    state: ExecutionState,
    image_ready: bool,
    container: Option<String>,
    output: Broadcaster,
    exit_code: i32,
    error_msg: Option<String>,
    cancel_requested: bool,
    created_at: u64,
    finished_at: Option<u64>,
}

impl View for ExecutionRecord {
    type V = RecordView;

    closed spec fn view(&self) -> RecordView {
        RecordView {
            job: self.job@,
            state: self.state,
            image_ready: self.image_ready,
            container: opt_text(self.container),
            output: self.output@,
            exit_code: self.exit_code as int,
            error_msg: opt_text(self.error_msg),
            cancel_requested: self.cancel_requested,
            created_at: self.created_at as nat,
            finished_at: match self.finished_at {
                Some(t) => Some(t as nat),
                None => None,
            },
        }
    }
}

impl ExecutionRecord {
    /// The record's model is valid, and so is the output it owns.
    pub closed spec fn wf(&self) -> bool {
        &&& self@.valid()
        &&& self.output.wf()
    }

    /// Validity of the model follows from well-formedness.
    pub proof fn lemma_wf_valid(&self)
        requires
            self.wf(),
        ensures
            self@.valid(),
    {
    }

    /// The record of a job accepted at time `now`: pending, with an empty
    /// output log under the job's limits.
    pub fn new(job: RunCommandRequest, now: u64) -> (r: Self)
        ensures
            r.wf(),
            r@ == RecordView::fresh(job@, now as nat),
    {
        let limits = match job.output_limits {
            Some(l) => l,
            None => OutputLimits::unlimited(),
        };
        ExecutionRecord {
            job,
            state: ExecutionState::Pending,
            image_ready: false,
            container: None,
            output: Broadcaster::new(limits),
            exit_code: 0,
            error_msg: None,
            cancel_requested: false,
            created_at: now,
            finished_at: None,
        }
    }

    /// The identifier of the execution.
    pub fn execution_id(&self) -> (id: &String)
        ensures
            id@ == self@.id(),
    {
        &self.job.execution_id
    }

    /// The job this record was made for.
    pub fn job(&self) -> (job: &RunCommandRequest)
        ensures
            job@ == self@.job,
    {
        &self.job
    }

    /// Where the execution stands.
    pub fn state(&self) -> (s: ExecutionState)
        ensures
            s == self@.state,
    {
        self.state
    }

    /// Whether a cancellation was asked for.
    pub fn cancel_requested(&self) -> (c: bool)
        ensures
            c == self@.cancel_requested,
    {
        self.cancel_requested
    }

    /// When the job was accepted.
    pub fn created_at(&self) -> (t: u64)
        ensures
            t == self@.created_at,
    {
        self.created_at
    }

    /// When the execution ended, if it has.
    pub fn finished_at(&self) -> (t: Option<u64>)
        ensures
            match t {
                Some(at) => self@.finished_at == Some(at as nat),
                None => self@.finished_at is None,
            },
    {
        self.finished_at
    }

    /// A copy of the container's handle, if the job has one.
    fn handle(&self) -> (h: Option<String>)
        ensures
            opt_text(h) == self@.container,
    {
        match &self.container {
            Some(c) => Some(c.clone()),
            None => None,
        }
    }

    /// Ends the execution in `state` at time `now` and closes its output.
    fn finish(&mut self, state: ExecutionState, now: u64)
        requires
            old(self).output.wf(),
        ensures
            final(self).output.wf(),
            final(self)@ == old(self)@.finish(state, now as nat),
    {
        self.state = state;
        self.finished_at = Some(now);
        self.output.close();
    }

    /// Takes `event`, which reached the engine at time `now`, and returns
    /// what the backend is to do next. The record moves as its model does
    /// under `apply`; the answer is the model's `action`.
    pub fn apply(&mut self, event: Event, now: u64) -> (action: Action)
        requires
            old(self).wf(),
        ensures
            final(self).wf(),
            final(self)@ == old(self)@.apply(event@, now as nat),
            action@ == old(self)@.action(event@),
    {
        proof {
            lemma_apply_valid(self@, event@, now as nat);
        }
        let terminal = self.state.is_terminal();
        let active = self.state == ExecutionState::Preparing || self.state
            == ExecutionState::Running;
        match event {
            Event::Prepare => {
                if self.state == ExecutionState::Pending {
                    self.state = ExecutionState::Preparing;
                    Action::Pull
                } else {
                    Action::Idle
                }
            },
            Event::Pulled => {
                if self.state == ExecutionState::Preparing && !self.image_ready {
                    if self.cancel_requested {
                        self.finish(ExecutionState::Cancelled, now);
                        Action::Idle
                    } else {
                        self.image_ready = true;
                        Action::Launch
                    }
                } else {
                    Action::Idle
                }
            },
            Event::Started(handle) => {
                if self.state == ExecutionState::Preparing && self.image_ready {
                    let action = if self.cancel_requested {
                        Action::Stop(Some(handle.clone()))
                    } else {
                        Action::Idle
                    };
                    self.state = ExecutionState::Running;
                    self.container = Some(handle);
                    action
                } else {
                    let known = match &self.container {
                        Some(c) => *c == handle,
                        None => false,
                    };
                    if known {
                        Action::Idle
                    } else {
                        Action::Kill(Some(handle))
                    }
                }
            },
            Event::Failed(error) => {
                if active {
                    if self.cancel_requested {
                        self.finish(ExecutionState::Cancelled, now);
                    } else {
                        self.finish(ExecutionState::Failed, now);
                        self.error_msg = Some(error.message());
                    }
                }
                Action::Idle
            },
            Event::Output(stream, data) => {
                if self.state == ExecutionState::Running {
                    self.output.write(stream, data.as_slice());
                }
                Action::Idle
            },
            Event::Exited(code) => {
                if self.state == ExecutionState::Running {
                    let state = if self.cancel_requested {
                        ExecutionState::Cancelled
                    } else {
                        ExecutionState::Completed
                    };
                    self.finish(state, now);
                    self.exit_code = code;
                }
                Action::Idle
            },
            Event::Stopped => {
                if active && self.cancel_requested {
                    self.finish(ExecutionState::Cancelled, now);
                }
                Action::Idle
            },
            Event::GraceExpired => {
                if active && self.cancel_requested {
                    let handle = self.handle();
                    self.finish(ExecutionState::Cancelled, now);
                    Action::Kill(handle)
                } else {
                    Action::Idle
                }
            },
            Event::Cancel => {
                if terminal {
                    Action::Idle
                } else if self.state == ExecutionState::Pending {
                    self.finish(ExecutionState::Cancelled, now);
                    self.cancel_requested = true;
                    Action::Idle
                } else if !self.cancel_requested {
                    self.cancel_requested = true;
                    Action::Stop(self.handle())
                } else {
                    Action::Idle
                }
            },
        }
    }

    /// The result of the execution, once it has ended. It is made of what
    /// the record holds and changes nothing, so that asking again gives the
    /// same.
    pub fn result(&self) -> (r: Option<RunCommandResponse>)
        requires
            self.wf(),
        ensures
            match r {
                Some(res) => self@.state.terminal() && res@ == self@.result(),
                None => !self@.state.terminal(),
            },
    {
        if !self.state.is_terminal() {
            return None;
        }
        let stdout = self.output.returned(StreamKind::Stdout);
        let stderr = self.output.returned(StreamKind::Stderr);
        let error_msg = match &self.error_msg {
            Some(m) => Some(m.clone()),
            None => None,
        };
        Some(
            RunCommandResponse {
                stdout: utf8_lossy(stdout.as_slice()),
                stdout_truncated: self.output.truncated(StreamKind::Stdout),
                stderr: utf8_lossy(stderr.as_slice()),
                stderr_truncated: self.output.truncated(StreamKind::Stderr),
                exit_code: self.exit_code,
                error_msg,
            },
        )
    }

    /// All that is kept of `stream`, in write order.
    pub fn captured(&self, stream: StreamKind) -> (bytes: Vec<u8>)
        requires
            self.wf(),
        ensures
            bytes@ == self@.output.captured(stream),
    {
        self.output.captured(stream)
    }

    /// Whether output of `stream` was dropped.
    pub fn truncated(&self, stream: StreamKind) -> (t: bool)
        ensures
            t == self@.output.truncated(stream),
    {
        self.output.truncated(stream)
    }

    /// Adds a reader to the output and returns its number.
    pub fn subscribe(&mut self, history: bool, follow: bool) -> (reader: usize)
        requires
            old(self).wf(),
        ensures
            final(self).wf(),
            reader == old(self)@.output.subscribers.len(),
            final(self)@ == old(self)@.subscribe(history, follow),
    {
        self.output.subscribe(history, follow)
    }

    /// Gives reader `reader` its next chunk of output.
    pub fn poll(&mut self, reader: usize) -> (d: Delivery)
        requires
            old(self).wf(),
        ensures
            final(self).wf(),
            d@ == old(self)@.output.delivery(reader as int),
            final(self)@ == old(self)@.poll(reader as int),
    {
        self.output.poll(reader)
    }

    /// Stops reader `reader` where it is.
    pub fn detach(&mut self, reader: usize)
        requires
            old(self).wf(),
        ensures
            final(self).wf(),
            final(self)@ == old(self)@.detach(reader as int),
    {
        self.output.detach(reader)
    }
}

} // verus!
