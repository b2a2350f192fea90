//! The output of one execution: a bounded log of what the job wrote, and the
//! readers that follow it, each with a cursor of its own.

use crate::btypes::OutputLimits;
use vstd::prelude::*;
use vstd::slice::slice_subrange;
use vstd::slice::slice_to_vec;

verus! {

/// One of the two streams a job writes to.
#[derive(Clone, Copy, Debug, PartialEq, Eq, Structural)]
pub enum StreamKind {
    Stdout,
    Stderr,
}

/// A piece of output as it was written to one stream.
#[derive(Debug)]
pub struct Chunk {
    pub stream: StreamKind,
    pub data: Vec<u8>,
}

/// The model of a [`Chunk`].
pub struct ChunkView {
    pub stream: StreamKind,
    pub data: Seq<u8>,
}

impl View for Chunk {
    type V = ChunkView;

    open spec fn view(&self) -> ChunkView {
        ChunkView { stream: self.stream, data: self.data@ }
    }
}

/// What a reader gets when it asks for the next piece of output.
#[derive(Debug)]
pub enum Delivery {
    /// The next chunk in write order.
    Data(Chunk),
    /// Nothing new yet; more may come.
    Pending,
    /// The reader has seen all it will ever see.
    Closed,
}

/// The model of a [`Delivery`].
pub enum DeliveryView {
    Data(ChunkView),
    Pending,
    Closed,
}

impl View for Delivery {
    type V = DeliveryView;

    open spec fn view(&self) -> DeliveryView {
        match self {
            Delivery::Data(c) => DeliveryView::Data(c@),
            Delivery::Pending => DeliveryView::Pending,
            Delivery::Closed => DeliveryView::Closed,
        }
    }
}

/// A reader's place in the log. A reader with a limit stops there: it reads a
/// snapshot. One without follows the log until it is closed.
#[derive(Clone, Copy, Debug)]
pub struct Subscriber {
    cursor: usize,
    limit: Option<usize>,
}

/// The model of a [`Subscriber`].
pub struct SubscriberView {
    pub cursor: nat,
    pub limit: Option<nat>,
}

impl View for Subscriber {
    type V = SubscriberView;

    closed spec fn view(&self) -> SubscriberView {
        SubscriberView {
            cursor: self.cursor as nat,
            limit: match self.limit {
                Some(l) => Some(l as nat),
                None => None,
            },
        }
    }
}

/// The model of a [`Broadcaster`]: the retained chunks in write order, the
/// two truncation flags, whether the log is closed, and the readers.
pub struct BroadcasterView {
    pub limits: OutputLimits,
    pub log: Seq<ChunkView>,
    pub stdout_truncated: bool,
    pub stderr_truncated: bool,
    pub closed: bool,
    pub subscribers: Seq<SubscriberView>,
}

/// The bytes that `log` holds of `stream`, in write order.
pub open spec fn stream_bytes(log: Seq<ChunkView>, stream: StreamKind) -> Seq<u8>
    decreases log.len(),
{
    if log.len() == 0 {
        Seq::empty()
    } else if log.last().stream == stream {
        stream_bytes(log.drop_last(), stream) + log.last().data
    } else {
        stream_bytes(log.drop_last(), stream)
    }
}

/// The cap on what is kept of `stream`.
pub open spec fn file_cap(limits: OutputLimits, stream: StreamKind) -> nat {
    match stream {
        StreamKind::Stdout => limits.max_stdout_file_length as nat,
        StreamKind::Stderr => limits.max_stderr_file_length as nat,
    }
}

/// The cap on what is returned inline of `stream`.
pub open spec fn return_cap(limits: OutputLimits, stream: StreamKind) -> nat {
    match stream {
        StreamKind::Stdout => limits.max_stdout_return_length as nat,
        StreamKind::Stderr => limits.max_stderr_return_length as nat,
    }
}

/// The first `n` items of `s`, or all of `s` where it is shorter.
pub open spec fn prefix<A>(s: Seq<A>, n: nat) -> Seq<A> {
    if n <= s.len() {
        s.take(n as int)
    } else {
        s
    }
}

impl BroadcasterView {
    /// The log of a fresh execution.
    pub open spec fn fresh(limits: OutputLimits) -> BroadcasterView {
        BroadcasterView {
            limits,
            log: Seq::empty(),
            stdout_truncated: false,
            stderr_truncated: false,
            closed: false,
            subscribers: Seq::empty(),
        }
    }

    /// What is kept of `stream`.
    pub open spec fn captured(self, stream: StreamKind) -> Seq<u8> {
        stream_bytes(self.log, stream)
    }

    /// Whether output of `stream` was dropped.
    pub open spec fn truncated(self, stream: StreamKind) -> bool {
        match stream {
            StreamKind::Stdout => self.stdout_truncated,
            StreamKind::Stderr => self.stderr_truncated,
        }
    }

    /// What is returned inline of `stream`.
    pub open spec fn returned(self, stream: StreamKind) -> Seq<u8> {
        prefix(self.captured(stream), return_cap(self.limits, stream))
    }

    /// How many more bytes of `stream` can be kept.
    pub open spec fn room(self, stream: StreamKind) -> int {
        file_cap(self.limits, stream) - self.captured(stream).len()
    }

    /// No stream holds more than its cap, and every reader's cursor lies
    /// within the log and before its limit.
    pub open spec fn valid(self) -> bool {
        &&& self.captured(StreamKind::Stdout).len() <= file_cap(self.limits, StreamKind::Stdout)
        &&& self.captured(StreamKind::Stderr).len() <= file_cap(self.limits, StreamKind::Stderr)
        &&& forall|i: int|
            0 <= i < self.subscribers.len() ==> (#[trigger] self.subscribers[i]).cursor
                <= self.log.len()
        &&& forall|i: int|
            0 <= i < self.subscribers.len() ==> match (#[trigger] self.subscribers[i]).limit {
                Some(l) => self.subscribers[i].cursor <= l <= self.log.len(),
                None => true,
            }
    }

    /// The log after `data` was written to `stream`: the part that still fits
    /// is appended as one chunk, the rest is dropped and flagged. A closed
    /// log takes nothing.
    pub open spec fn write(self, stream: StreamKind, data: Seq<u8>) -> BroadcasterView {
        if self.closed {
            self
        } else {
            let kept = prefix(data, self.room(stream) as nat);
            let cut = data.len() > self.room(stream);
            BroadcasterView {
                log: if kept.len() > 0 {
                    self.log.push(ChunkView { stream, data: kept })
                } else {
                    self.log
                },
                stdout_truncated: self.stdout_truncated || (stream == StreamKind::Stdout && cut),
                stderr_truncated: self.stderr_truncated || (stream == StreamKind::Stderr && cut),
                ..self
            }
        }
    }

    /// The log after it was closed.
    pub open spec fn close(self) -> BroadcasterView {
        BroadcasterView { closed: true, ..self }
    }

    /// The reader that `subscribe` adds.
    pub open spec fn new_subscriber(self, history: bool, follow: bool) -> SubscriberView {
        SubscriberView {
            cursor: if history {
                0
            } else {
                self.log.len()
            },
            limit: if follow {
                None
            } else {
                Some(self.log.len())
            },
        }
    }

    /// The log after a reader was added at the end of the list of readers.
    pub open spec fn subscribe(self, history: bool, follow: bool) -> BroadcasterView {
        BroadcasterView {
            subscribers: self.subscribers.push(self.new_subscriber(history, follow)),
            ..self
        }
    }

    /// Where reader `id` stops reading as the log stands.
    pub open spec fn horizon(self, id: int) -> nat {
        match self.subscribers[id].limit {
            Some(l) => l,
            None => self.log.len(),
        }
    }

    /// The chunks that reader `id` has yet to get from the log as it is.
    pub open spec fn pending(self, id: int) -> Seq<ChunkView> {
        self.log.subrange(self.subscribers[id].cursor as int, self.horizon(id) as int)
    }

    /// Whether reader `id` will never get anything more.
    pub open spec fn finished(self, id: int) -> bool {
        ||| id < 0
        ||| id >= self.subscribers.len()
        ||| (self.pending(id).len() == 0 && (self.closed || self.subscribers[id].limit is Some))
    }

    /// What reader `id` gets next.
    pub open spec fn delivery(self, id: int) -> DeliveryView {
        if self.finished(id) {
            DeliveryView::Closed
        } else if self.pending(id).len() == 0 {
            DeliveryView::Pending
        } else {
            DeliveryView::Data(self.pending(id)[0])
        }
    }

    /// The log after reader `id` asked for its next chunk: its cursor moves
    /// by one where there was a chunk for it, and nothing else changes.
    pub open spec fn poll(self, id: int) -> BroadcasterView {
        if self.delivery(id) is Data {
            BroadcasterView {
                subscribers: self.subscribers.update(
                    id,
                    SubscriberView {
                        cursor: self.subscribers[id].cursor + 1,
                        ..self.subscribers[id]
                    },
                ),
                ..self
            }
        } else {
            self
        }
    }

    /// The log after reader `id` gave up: it stops where it is.
    pub open spec fn detach(self, id: int) -> BroadcasterView {
        if 0 <= id < self.subscribers.len() {
            BroadcasterView {
                subscribers: self.subscribers.update(
                    id,
                    SubscriberView {
                        limit: Some(self.subscribers[id].cursor),
                        ..self.subscribers[id]
                    },
                ),
                ..self
            }
        } else {
            self
        }
    }
}

/// Appending a chunk appends its bytes to its own stream and leaves the
/// other stream as it was.
pub proof fn lemma_stream_bytes_push(log: Seq<ChunkView>, chunk: ChunkView, stream: StreamKind)
    ensures
        stream_bytes(log.push(chunk), stream) == if chunk.stream == stream {
            stream_bytes(log, stream) + chunk.data
        } else {
            stream_bytes(log, stream)
        },
{
    assert(log.push(chunk).drop_last() =~= log);
    assert(log.push(chunk).last() == chunk);
}

/// One step in the life of a log: the job writes, the engine closes the log,
/// or a reader comes, asks for its next chunk, or leaves.
pub enum LogOp {
    Write(StreamKind, Seq<u8>),
    Close,
    Subscribe(bool, bool),
    Poll(int),
    Detach(int),
}

impl BroadcasterView {
    /// The log after one step.
    pub open spec fn step(self, op: LogOp) -> BroadcasterView {
        match op {
            LogOp::Write(stream, data) => self.write(stream, data),
            LogOp::Close => self.close(),
            LogOp::Subscribe(history, follow) => self.subscribe(history, follow),
            LogOp::Poll(id) => self.poll(id),
            LogOp::Detach(id) => self.detach(id),
        }
    }

    /// The log after the steps `ops`, taken in order.
    pub open spec fn run(self, ops: Seq<LogOp>) -> BroadcasterView
        decreases ops.len(),
    {
        if ops.len() == 0 {
            self
        } else {
            self.run(ops.drop_last()).step(ops.last())
        }
    }

    /// The chunks that reader `id` was given in the course of `ops`, in the
    /// order in which it got them.
    pub open spec fn received(self, ops: Seq<LogOp>, id: int) -> Seq<ChunkView>
        decreases ops.len(),
    {
        if ops.len() == 0 {
            Seq::empty()
        } else {
            let earlier = self.received(ops.drop_last(), id);
            match self.run(ops.drop_last()).delivery(id) {
                DeliveryView::Data(chunk) => if ops.last() == LogOp::Poll(id) {
                    earlier.push(chunk)
                } else {
                    earlier
                },
                _ => earlier,
            }
        }
    }
}

/// All that `ops` wrote to `stream`, kept or not, in write order.
pub open spec fn produced(ops: Seq<LogOp>, stream: StreamKind) -> Seq<u8>
    decreases ops.len(),
{
    if ops.len() == 0 {
        Seq::empty()
    } else {
        match ops.last() {
            LogOp::Write(s, data) => if s == stream {
                produced(ops.drop_last(), stream) + data
            } else {
                produced(ops.drop_last(), stream)
            },
            _ => produced(ops.drop_last(), stream),
        }
    }
}

/// Writing to a valid log leaves it valid.
pub proof fn lemma_write_valid(b: BroadcasterView, stream: StreamKind, data: Seq<u8>)
    requires
        b.valid(),
    ensures
        b.write(stream, data).valid(),
{
    let after = b.write(stream, data);
    if !b.closed {
        let kept = prefix(data, b.room(stream) as nat);
        if kept.len() > 0 {
            let chunk = ChunkView { stream, data: kept };
            lemma_stream_bytes_push(b.log, chunk, StreamKind::Stdout);
            lemma_stream_bytes_push(b.log, chunk, StreamKind::Stderr);
        }
        assert forall|i: int| 0 <= i < after.subscribers.len() implies (
        #[trigger] after.subscribers[i]).cursor <= after.log.len() by {
            assert(b.subscribers[i].cursor <= b.log.len());
        }
        assert forall|i: int| 0 <= i < after.subscribers.len() implies match (
        #[trigger] after.subscribers[i]).limit {
            Some(l) => after.subscribers[i].cursor <= l <= after.log.len(),
            None => true,
        } by {
            assert(b.subscribers[i].cursor <= b.log.len());
        }
    }
}

/// Every step leaves a valid log valid, keeps what the log held, and leaves
/// the limits as they were.
pub proof fn lemma_step_valid(b: BroadcasterView, op: LogOp)
    requires
        b.valid(),
    ensures
        b.step(op).valid(),
        b.step(op).limits == b.limits,
        b.log.len() <= b.step(op).log.len(),
        b.step(op).log.take(b.log.len() as int) == b.log,
        b.closed ==> b.step(op).log == b.log && b.step(op).closed,
{
    let after = b.step(op);
    match op {
        LogOp::Write(stream, data) => {
            lemma_write_valid(b, stream, data);
        },
        _ => {},
    }
    assert(after.log.take(b.log.len() as int) =~= b.log);
}

/// The truncation flag of a stream says exactly whether more was written to
/// it than its cap allows, and what is kept is the start of what was
/// written, as far as the cap allows: this holds of a log that began empty
/// and was not closed, whatever its readers did meanwhile.
pub proof fn lemma_truncation(limits: OutputLimits, ops: Seq<LogOp>, stream: StreamKind)
    requires
        forall|k: int| 0 <= k < ops.len() ==> ops[k] != LogOp::Close,
    ensures
        BroadcasterView::fresh(limits).run(ops).valid(),
        !BroadcasterView::fresh(limits).run(ops).closed,
        BroadcasterView::fresh(limits).run(ops).captured(stream) == prefix(
            produced(ops, stream),
            file_cap(limits, stream),
        ),
        BroadcasterView::fresh(limits).run(ops).truncated(stream) <==> produced(ops, stream).len()
            > file_cap(limits, stream),
    decreases ops.len(),
{
    let start = BroadcasterView::fresh(limits);
    if ops.len() == 0 {
        assert(start.subscribers.len() == 0);
    } else {
        let earlier = ops.drop_last();
        assert forall|k: int| 0 <= k < earlier.len() implies earlier[k] != LogOp::Close by {
            assert(earlier[k] == ops[k]);
        }
        lemma_truncation(limits, earlier, stream);
        let mid = start.run(earlier);
        lemma_limits_kept(start, earlier);
        lemma_step_valid(mid, ops.last());
        assert(ops.last() != LogOp::Close);
        match ops.last() {
            LogOp::Write(s, data) => {
                let kept = prefix(data, mid.room(s) as nat);
                if kept.len() > 0 {
                    lemma_stream_bytes_push(mid.log, ChunkView { stream: s, data: kept }, stream);
                }
                if s == stream {
                    assert(mid.write(s, data).captured(stream) =~= prefix(
                        produced(earlier, stream) + data,
                        file_cap(limits, stream),
                    ));
                }
            },
            _ => {},
        }
    }
}

/// No step changes the limits of a log.
pub proof fn lemma_limits_kept(b: BroadcasterView, ops: Seq<LogOp>)
    ensures
        b.run(ops).limits == b.limits,
    decreases ops.len(),
{
    if ops.len() > 0 {
        lemma_limits_kept(b, ops.drop_last());
    }
}

/// One step of a log, seen from reader `id`, which does not leave: what the
/// reader has been given so far stays the part of the log between the place
/// where it began and the place where it stands.
proof fn lemma_reader_step(b: BroadcasterView, op: LogOp, id: int, start: int, got: Seq<ChunkView>)
    requires
        b.valid(),
        0 <= id < b.subscribers.len(),
        op != LogOp::Detach(id),
        0 <= start <= b.subscribers[id].cursor,
        got == b.log.subrange(start, b.subscribers[id].cursor as int),
    ensures
        id < b.step(op).subscribers.len(),
        b.step(op).subscribers[id].limit == b.subscribers[id].limit,
        b.subscribers[id].cursor <= b.step(op).subscribers[id].cursor,
        match b.delivery(id) {
            DeliveryView::Data(chunk) => if op == LogOp::Poll(id) {
                got.push(chunk)
            } else {
                got
            },
            _ => got,
        } == b.step(op).log.subrange(start, b.step(op).subscribers[id].cursor as int),
{
    let after = b.step(op);
    let cursor = b.subscribers[id].cursor as int;
    lemma_step_valid(b, op);
    assert(cursor <= b.log.len());
    assert(cursor <= b.horizon(id) <= b.log.len());
    assert forall|k: int| 0 <= k < b.log.len() implies b.log[k] == after.log[k] by {
        assert(b.log[k] == after.log.take(b.log.len() as int)[k]);
    }
    if op == LogOp::Poll(id) && b.delivery(id) is Data {
        assert(b.pending(id)[0] == b.log[cursor]);
        assert(got.push(b.log[cursor]) =~= after.log.subrange(start, cursor + 1));
    } else {
        assert(after.subscribers[id].cursor == cursor);
        assert(got =~= after.log.subrange(start, cursor));
    }
}

/// A reader that does not leave gets every chunk between the place where it
/// stood and the place where it stops, once and in write order, whatever
/// else happens to the log meanwhile: what it was given is the part of the
/// log that it has passed, and what it was given, followed by what still
/// waits for it, is the part up to where it stops. What the log held stays
/// as it was, and a closed log takes nothing more.
pub proof fn lemma_reader_progress(b: BroadcasterView, ops: Seq<LogOp>, id: int)
    requires
        b.valid(),
        0 <= id < b.subscribers.len(),
        forall|k: int| 0 <= k < ops.len() ==> ops[k] != LogOp::Detach(id),
    ensures
        b.run(ops).valid(),
        b.log.len() <= b.run(ops).log.len(),
        b.run(ops).log.take(b.log.len() as int) == b.log,
        b.closed ==> b.run(ops).log == b.log && b.run(ops).closed,
        id < b.run(ops).subscribers.len(),
        b.run(ops).subscribers[id].limit == b.subscribers[id].limit,
        b.subscribers[id].cursor <= b.run(ops).subscribers[id].cursor <= b.run(ops).horizon(id),
        b.received(ops, id) == b.run(ops).log.subrange(
            b.subscribers[id].cursor as int,
            b.run(ops).subscribers[id].cursor as int,
        ),
        b.received(ops, id) + b.run(ops).pending(id) == b.run(ops).log.subrange(
            b.subscribers[id].cursor as int,
            b.run(ops).horizon(id) as int,
        ),
    decreases ops.len(),
{
    let start = b.subscribers[id].cursor as int;
    if ops.len() == 0 {
        assert(b.subscribers[id].cursor <= b.log.len());
        assert(b.received(ops, id) =~= b.log.subrange(start, start));
        assert(b.log.take(b.log.len() as int) =~= b.log);
    } else {
        let earlier = ops.drop_last();
        assert forall|k: int| 0 <= k < earlier.len() implies earlier[k] != LogOp::Detach(id) by {
            assert(earlier[k] == ops[k]);
        }
        lemma_reader_progress(b, earlier, id);
        let mid = b.run(earlier);
        let op = ops.last();
        let after = mid.step(op);
        lemma_step_valid(mid, op);
        lemma_reader_step(mid, op, id, start, b.received(earlier, id));
        assert(after.log.take(b.log.len() as int) =~= b.log) by {
            assert(after.log.take(mid.log.len() as int) == mid.log);
            assert(mid.log.take(b.log.len() as int) == b.log);
            assert forall|k: int| 0 <= k < b.log.len() implies after.log[k] == b.log[k] by {
                assert(b.log[k] == mid.log.take(b.log.len() as int)[k]);
                assert(mid.log[k] == after.log.take(mid.log.len() as int)[k]);
            }
        }
        assert(after.subscribers[id].cursor <= after.log.len());
    }
    let end = b.run(ops);
    let cursor = end.subscribers[id].cursor as int;
    assert(cursor <= end.log.len());
    assert(cursor <= end.horizon(id) <= end.log.len());
    assert(end.log.subrange(start, cursor) + end.log.subrange(cursor, end.horizon(id) as int)
        =~= end.log.subrange(start, end.horizon(id) as int));
}

/// A reader that asks for a snapshot of the whole log gets the log as it
/// is, once and in write order, and is then told that it is closed; the log
/// itself is as it was, so that the next such reader gets the same. This
/// holds however often such a reader is added and whatever else happens to
/// the log meanwhile.
pub proof fn lemma_snapshot_replays_log(b: BroadcasterView, ops: Seq<LogOp>)
    requires
        b.valid(),
        forall|k: int| 0 <= k < ops.len() ==> ops[k] != LogOp::Detach(b.subscribers.len() as int),
    ensures
        ({
            let id = b.subscribers.len() as int;
            let after = b.subscribe(true, false).run(ops);
            &&& b.subscribe(true, false).received(ops, id) + after.pending(id) == b.log
            &&& after.pending(id).len() == 0 ==> after.delivery(id) is Closed
            &&& after.pending(id).len() > 0 ==> after.delivery(id) == DeliveryView::Data(
                b.log[b.subscribe(true, false).received(ops, id).len() as int],
            )
            &&& b.closed ==> after.log == b.log
        }),
{
    let id = b.subscribers.len() as int;
    let first = b.subscribe(true, false);
    lemma_step_valid(b, LogOp::Subscribe(true, false));
    lemma_reader_progress(first, ops, id);
    let after = first.run(ops);
    assert(after.log.subrange(0, b.log.len() as int) =~= after.log.take(b.log.len() as int));
    let got = first.received(ops, id);
    if after.pending(id).len() > 0 {
        assert((got + after.pending(id))[got.len() as int] == after.pending(id)[0]);
    }
}

/// A reader that follows the log from its end on gets every chunk that is
/// written after it came, once and in write order, however fast or slow any
/// other reader is: what it was given, followed by what still waits for it,
/// is what the log gained.
pub proof fn lemma_follower_sees_all(b: BroadcasterView, ops: Seq<LogOp>)
    requires
        b.valid(),
        forall|k: int| 0 <= k < ops.len() ==> ops[k] != LogOp::Detach(b.subscribers.len() as int),
    ensures
        ({
            let id = b.subscribers.len() as int;
            let after = b.subscribe(false, true).run(ops);
            &&& b.log.len() <= after.log.len()
            &&& after.log.take(b.log.len() as int) == b.log
            &&& b.subscribe(false, true).received(ops, id) + after.pending(id) == after.log.skip(
                b.log.len() as int,
            )
        }),
{
    let id = b.subscribers.len() as int;
    let first = b.subscribe(false, true);
    lemma_step_valid(b, LogOp::Subscribe(false, true));
    lemma_reader_progress(first, ops, id);
    let after = first.run(ops);
    assert(after.log.subrange(b.log.len() as int, after.log.len() as int) =~= after.log.skip(
        b.log.len() as int,
    ));
}

/// What the other readers do to the log does not reach reader `id`: a step
/// that is not its own leaves its place and what it gets next as they were,
/// unless the step is a write or closes the log.
pub proof fn lemma_readers_independent(b: BroadcasterView, op: LogOp, id: int)
    requires
        b.valid(),
        0 <= id < b.subscribers.len(),
        op != LogOp::Poll(id),
        op != LogOp::Detach(id),
        !(op is Write),
        !(op is Close),
    ensures
        b.step(op).subscribers[id] == b.subscribers[id],
        b.step(op).delivery(id) == b.delivery(id),
        b.step(op).log == b.log,
{
}

/// The bounded output log of one execution, with its readers.
#[derive(Debug)]
pub struct Broadcaster {
    limits: OutputLimits,
    log: Vec<Chunk>,
    stdout_len: u64,
    stderr_len: u64,
    stdout_truncated: bool,
    stderr_truncated: bool,
    closed: bool,
    subscribers: Vec<Subscriber>,
}

impl View for Broadcaster {
    type V = BroadcasterView;

    closed spec fn view(&self) -> BroadcasterView {
        BroadcasterView {
            limits: self.limits,
            log: self.log@.map_values(|c: Chunk| c@),
            stdout_truncated: self.stdout_truncated,
            stderr_truncated: self.stderr_truncated,
            closed: self.closed,
            subscribers: self.subscribers@.map_values(|s: Subscriber| s@),
        }
    }
}

impl Broadcaster {
    /// The model is valid and the byte counts agree with the log.
    pub closed spec fn wf(&self) -> bool {
        &&& self@.valid()
        &&& self.stdout_len as nat == self@.captured(StreamKind::Stdout).len()
        &&& self.stderr_len as nat == self@.captured(StreamKind::Stderr).len()
    }

    /// Validity of the model follows from well-formedness.
    pub proof fn lemma_wf_valid(&self)
        requires
            self.wf(),
        ensures
            self@.valid(),
    {
    }

    /// An empty, open log with no readers.
    pub fn new(limits: OutputLimits) -> (b: Self)
        ensures
            b.wf(),
            b@ == BroadcasterView::fresh(limits),
    {
        let b = Broadcaster {
            limits,
            log: Vec::new(),
            stdout_len: 0,
            stderr_len: 0,
            stdout_truncated: false,
            stderr_truncated: false,
            closed: false,
            subscribers: Vec::new(),
        };
        assert(b@.log =~= Seq::empty());
        assert(b@.subscribers =~= Seq::empty());
        b
    }

    /// The limits this log was made with.
    pub fn limits(&self) -> (l: OutputLimits)
        ensures
            l == self@.limits,
    {
        self.limits
    }

    /// Whether the log is closed.
    pub fn is_closed(&self) -> (c: bool)
        ensures
            c == self@.closed,
    {
        self.closed
    }

    /// How many chunks the log holds.
    pub fn chunk_count(&self) -> (n: usize)
        ensures
            n == self@.log.len(),
    {
        self.log.len()
    }

    /// How many readers were ever added.
    pub fn subscriber_count(&self) -> (n: usize)
        ensures
            n == self@.subscribers.len(),
    {
        self.subscribers.len()
    }

    /// Whether output of `stream` was dropped.
    pub fn truncated(&self, stream: StreamKind) -> (t: bool)
        ensures
            t == self@.truncated(stream),
    {
        match stream {
            StreamKind::Stdout => self.stdout_truncated,
            StreamKind::Stderr => self.stderr_truncated,
        }
    }

    /// Takes `data` as written to `stream`. What fits under the stream's cap
    /// is kept as one chunk; the rest is dropped and the stream is flagged as
    /// truncated. Readers are not touched.
    pub fn write(&mut self, stream: StreamKind, data: &[u8])
        requires
            old(self).wf(),
        ensures
            final(self).wf(),
            final(self)@ == old(self)@.write(stream, data@),
    {
        if self.closed {
            return ;
        }
        let ghost before = self@;
        let cap: u64 = match stream {
            StreamKind::Stdout => self.limits.max_stdout_file_length,
            StreamKind::Stderr => self.limits.max_stderr_file_length,
        };
        let used: u64 = match stream {
            StreamKind::Stdout => self.stdout_len,
            StreamKind::Stderr => self.stderr_len,
        };
        let room: u64 = cap - used;
        let fits: bool = data.len() as u64 <= room;
        let keep: usize = if fits {
            data.len()
        } else {
            room as usize
        };
        if !fits {
            match stream {
                StreamKind::Stdout => {
                    self.stdout_truncated = true;
                },
                StreamKind::Stderr => {
                    self.stderr_truncated = true;
                },
            }
        }
        if keep > 0 {
            let kept: Vec<u8> = slice_to_vec(slice_subrange(data, 0, keep));
            let chunk = Chunk { stream, data: kept };
            proof {
                assert(chunk@.data =~= prefix(data@, before.room(stream) as nat));
                lemma_stream_bytes_push(before.log, chunk@, StreamKind::Stdout);
                lemma_stream_bytes_push(before.log, chunk@, StreamKind::Stderr);
                assert(self.log@.push(chunk).map_values(|c: Chunk| c@) =~= before.log.push(
                    chunk@,
                ));
            }
            self.log.push(chunk);
            match stream {
                StreamKind::Stdout => {
                    self.stdout_len = used + keep as u64;
                },
                StreamKind::Stderr => {
                    self.stderr_len = used + keep as u64;
                },
            }
        }
        proof {
            assert(self@.subscribers == before.subscribers);
            assert(self@ == before.write(stream, data@));
        }
    }

    /// Closes the log: nothing more is taken, and readers that have read it
    /// all are told so.
    pub fn close(&mut self)
        requires
            old(self).wf(),
        ensures
            final(self).wf(),
            final(self)@ == old(self)@.close(),
    {
        self.closed = true;
    }

    /// Adds a reader and returns its number. With `history` it starts at the
    /// first chunk, else at the end of the log. With `follow` it reads on as
    /// the log grows, else it stops where the log ends now.
    pub fn subscribe(&mut self, history: bool, follow: bool) -> (id: usize)
        requires
            old(self).wf(),
        ensures
            final(self).wf(),
            id == old(self)@.subscribers.len(),
            final(self)@ == old(self)@.subscribe(history, follow),
    {
        let ghost before = self@;
        let end = self.log.len();
        let sub = Subscriber {
            cursor: if history {
                0
            } else {
                end
            },
            limit: if follow {
                None
            } else {
                Some(end)
            },
        };
        let id = self.subscribers.len();
        proof {
            assert(sub@ == before.new_subscriber(history, follow));
            assert(self.subscribers@.push(sub).map_values(|s: Subscriber| s@)
                =~= before.subscribers.push(sub@));
        }
        self.subscribers.push(sub);
        id
    }

    /// Gives reader `id` its next chunk, if the log holds one for it, and
    /// moves its cursor past it. No other reader and no part of the log is
    /// touched. An unknown reader is told that it is closed.
    pub fn poll(&mut self, id: usize) -> (d: Delivery)
        requires
            old(self).wf(),
        ensures
            final(self).wf(),
            d@ == old(self)@.delivery(id as int),
            final(self)@ == old(self)@.poll(id as int),
    {
        let ghost before = self@;
        if id >= self.subscribers.len() {
            return Delivery::Closed;
        }
        let sub = self.subscribers[id];
        let end = match sub.limit {
            Some(l) => l,
            None => self.log.len(),
        };
        assert(sub@ == before.subscribers[id as int]);
        assert(end == before.horizon(id as int));
        if sub.cursor < end {
            let stream = self.log[sub.cursor].stream;
            let data = self.log[sub.cursor].data.clone();
            let moved = Subscriber { cursor: sub.cursor + 1, limit: sub.limit };
            proof {
                assert(before.pending(id as int)[0] == before.log[sub.cursor as int]);
                assert(self.subscribers@.update(id as int, moved).map_values(
                    |s: Subscriber| s@,
                ) =~= before.subscribers.update(id as int, moved@));
            }
            self.subscribers.set(id, moved);
            Delivery::Data(Chunk { stream, data })
        } else if sub.limit.is_some() || self.closed {
            Delivery::Closed
        } else {
            Delivery::Pending
        }
    }

    /// Stops reader `id` where it is: it will be told that it is closed.
    pub fn detach(&mut self, id: usize)
        requires
            old(self).wf(),
        ensures
            final(self).wf(),
            final(self)@ == old(self)@.detach(id as int),
    {
        let ghost before = self@;
        if id < self.subscribers.len() {
            let sub = self.subscribers[id];
            let stopped = Subscriber { cursor: sub.cursor, limit: Some(sub.cursor) };
            proof {
                assert(sub@ == before.subscribers[id as int]);
                assert(self.subscribers@.update(id as int, stopped).map_values(
                    |s: Subscriber| s@,
                ) =~= before.subscribers.update(id as int, stopped@));
            }
            self.subscribers.set(id, stopped);
        }
    }

    /// All that is kept of `stream`, in write order.
    pub fn captured(&self, stream: StreamKind) -> (bytes: Vec<u8>)
        requires
            self.wf(),
        ensures
            bytes@ == self@.captured(stream),
    {
        let mut bytes: Vec<u8> = Vec::new();
        let mut i: usize = 0;
        while i < self.log.len()
            invariant
                0 <= i <= self.log.len(),
                bytes@ == stream_bytes(self@.log.take(i as int), stream),
            decreases self.log.len() - i,
        {
            proof {
                let next = self@.log.take(i as int + 1);
                assert(next.drop_last() =~= self@.log.take(i as int));
                assert(next.last() == self.log[i as int]@);
            }
            if self.log[i].stream == stream {
                bytes.extend_from_slice(self.log[i].data.as_slice());
            }
            i = i + 1;
        }
        proof {
            assert(self@.log.take(i as int) =~= self@.log);
        }
        bytes
    }

    /// What is returned inline of `stream`: the kept bytes, cut at the
    /// stream's return cap.
    pub fn returned(&self, stream: StreamKind) -> (bytes: Vec<u8>)
        requires
            self.wf(),
        ensures
            bytes@ == self@.returned(stream),
    {
        let mut bytes = self.captured(stream);
        let cap: u64 = match stream {
            StreamKind::Stdout => self.limits.max_stdout_return_length,
            StreamKind::Stderr => self.limits.max_stderr_return_length,
        };
        if cap < bytes.len() as u64 {
            bytes.truncate(cap as usize);
        }
        bytes
    }
}

} // verus!
