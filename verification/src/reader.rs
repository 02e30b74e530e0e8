//! The response reader: an event-driven state machine that reassembles the
//! terminal emulator's asynchronous paste response from possibly-fragmented
//! reads, detects the BEL terminator, and bounds the wait for each burst.
//! The machine itself performs no I/O: the caller waits on the terminal
//! descriptor, drains it, and hands every outcome to [`ResponseReader::step`]
//! as a [`ReaderEvent`].

use vstd::prelude::*;

use crate::codec::BEL;
use crate::codec::ends_with_bel;

verus! {

/// The buffer size for draining clipboard bytes from the terminal: a
/// trade-off between memory use and the frequency of system calls.
pub const TTY_CLIPBOARD_BUFFER_SIZE: usize = 8192;

/// The longest wait for the terminal emulator to push the next burst of the
/// paste response, in milliseconds. The window restarts on every readiness
/// event: only inter-burst gaps are timed, never the elapsed total, so slow
/// multi-burst responses are tolerated. When it elapses with no event, the
/// emulator most likely does not support the clipboard exchange at all.
pub const TTY_CLIPBOARD_MAX_WAIT_MILLIS: u64 = 500;

/// Where the reader stands.
#[derive(Clone, Copy, Debug, PartialEq, Eq, Structural)]
pub enum ReaderStatus {
    /// Waiting for the terminal descriptor to become readable.
    AwaitReadable,
    /// Draining the readable descriptor until a read would block.
    Draining,
    /// The accumulated response ends with BEL: the exchange succeeded.
    Complete,
    /// No readiness event arrived within the wait window.
    TimedOut,
    /// A read returned zero bytes before any terminator was seen.
    UnexpectedEof,
}

/// What the caller observed on the terminal descriptor.
pub enum ReaderEvent {
    /// The wait window elapsed with no readiness event.
    WaitElapsed,
    /// The descriptor became readable.
    BecameReadable,
    /// One read returned these bytes.
    ChunkRead(Vec<u8>),
    /// A read would have blocked: the descriptor is drained for now.
    WouldBlock,
    /// A read returned zero bytes: the stream closed.
    StreamClosed,
}

/// The bytes an event contributes to the accumulated response.
pub open spec fn chunk_bytes(event: ReaderEvent) -> Seq<u8> {
    match event {
        ReaderEvent::ChunkRead(chunk) => chunk@,
        _ => Seq::empty(),
    }
}

/// Whether the reader still awaits events, as opposed to having reached one
/// of its three terminal states.
pub open spec fn reader_live(status: ReaderStatus) -> bool {
    status == ReaderStatus::AwaitReadable || status == ReaderStatus::Draining
}

/// Which events can arrive in which state: the wait ends or succeeds while
/// awaiting readability, and single reads resolve only while draining.
pub open spec fn event_fits(status: ReaderStatus, event: ReaderEvent) -> bool {
    match status {
        ReaderStatus::AwaitReadable => event is WaitElapsed || event is BecameReadable,
        ReaderStatus::Draining => event is ChunkRead || event is WouldBlock
            || event is StreamClosed,
        _ => false,
    }
}

/// The state an event moves the reader to, given the response accumulated
/// so far (the event's own bytes included).
pub open spec fn next_status(status: ReaderStatus, event: ReaderEvent, grown: Seq<u8>) -> ReaderStatus {
    match (status, event) {
        (ReaderStatus::AwaitReadable, ReaderEvent::WaitElapsed) => ReaderStatus::TimedOut,
        (ReaderStatus::AwaitReadable, ReaderEvent::BecameReadable) => ReaderStatus::Draining,
        (ReaderStatus::Draining, ReaderEvent::ChunkRead(_)) => ReaderStatus::Draining,
        (ReaderStatus::Draining, ReaderEvent::WouldBlock) => if ends_with_bel(grown) {
            ReaderStatus::Complete
        } else {
            ReaderStatus::AwaitReadable
        },
        (ReaderStatus::Draining, ReaderEvent::StreamClosed) => ReaderStatus::UnexpectedEof,
        _ => status,
    }
}

/// One step of the reader: a live machine appends the event's bytes and
/// moves to the next state; a terminal state absorbs every event.
pub open spec fn step_spec(status: ReaderStatus, buffered: Seq<u8>, event: ReaderEvent) -> (
    ReaderStatus,
    Seq<u8>,
) {
    if reader_live(status) {
        let grown = buffered + chunk_bytes(event);
        (next_status(status, event, grown), grown)
    } else {
        (status, buffered)
    }
}

/// The reader: its state and the response accumulated so far.
pub struct ResponseReader {
    /// Where the reader stands.
    pub status: ReaderStatus,
    /// The response bytes accumulated so far.
    pub content: Vec<u8>,
}

impl ResponseReader {
    /// A fresh reader: awaiting readability, nothing accumulated.
    pub fn new() -> (reader: ResponseReader)
        ensures
            reader.status == ReaderStatus::AwaitReadable,
            reader.content@ == Seq::<u8>::empty(),
    {
        ResponseReader { status: ReaderStatus::AwaitReadable, content: Vec::new() }
    }

    /// Feeds one observed event to the reader. The wait window elapsing
    /// while the reader awaits readability times the exchange out; a burst
    /// of reads grows the accumulated response; once a read would block,
    /// the response is complete exactly when it ends with BEL, and the
    /// reader otherwise returns to awaiting the next burst.
    pub fn step(&mut self, event: ReaderEvent)
        requires
            reader_live(old(self).status),
            event_fits(old(self).status, event),
        ensures
            (final(self).status, final(self).content@) == step_spec(
                old(self).status,
                old(self).content@,
                event,
            ),
            old(self).status is AwaitReadable && event is WaitElapsed ==> final(self).status
                is TimedOut,
    {
        match event {
            ReaderEvent::WaitElapsed => {
                self.status = ReaderStatus::TimedOut;
            },
            ReaderEvent::BecameReadable => {
                self.status = ReaderStatus::Draining;
            },
            ReaderEvent::ChunkRead(mut chunk) => {
                self.content.append(&mut chunk);
            },
            ReaderEvent::WouldBlock => {
                if buffer_ends_with_bel(&self.content) {
                    self.status = ReaderStatus::Complete;
                } else {
                    self.status = ReaderStatus::AwaitReadable;
                }
            },
            ReaderEvent::StreamClosed => {
                self.status = ReaderStatus::UnexpectedEof;
            },
        }
        proof {
            assert(self.content@ =~= old(self).content@ + chunk_bytes(event));
        }
    }
}

/// Whether the accumulated response already ends with the BEL terminator.
fn buffer_ends_with_bel(buffer: &Vec<u8>) -> (sealed: bool)
    ensures
        sealed == ends_with_bel(buffer@),
{
    let length: usize = buffer.len();
    if length == 0 {
        false
    } else {
        buffer[length - 1] == BEL
    }
}

/// The reader's state and accumulated response after a whole run of events.
pub open spec fn run_spec(status: ReaderStatus, buffered: Seq<u8>, events: Seq<ReaderEvent>) -> (
    ReaderStatus,
    Seq<u8>,
)
    decreases events.len(),
{
    if events.len() == 0 {
        (status, buffered)
    } else {
        let stepped = step_spec(status, buffered, events[0]);
        run_spec(stepped.0, stepped.1, events.drop_first())
    }
}

/// Every byte the events of a run deliver, in arrival order.
pub open spec fn drained_bytes(events: Seq<ReaderEvent>) -> Seq<u8>
    decreases events.len(),
{
    if events.len() == 0 {
        Seq::empty()
    } else {
        chunk_bytes(events[0]) + drained_bytes(events.drop_first())
    }
}

/// Whether the reader is still live whenever an event of the run arrives:
/// only the run's very last event may move it to a terminal state.
pub open spec fn live_run(status: ReaderStatus, buffered: Seq<u8>, events: Seq<ReaderEvent>) -> bool
    decreases events.len(),
{
    events.len() == 0 || (reader_live(status) && {
        let stepped = step_spec(status, buffered, events[0]);
        live_run(stepped.0, stepped.1, events.drop_first())
    })
}

/// The reassembly law: over any run of events, a response delivered across
/// arbitrarily many readiness events and reads is accumulated whole — the
/// buffer afterwards is the buffer before followed by every delivered chunk
/// in arrival order — and the reader reaches `Complete` only once that
/// buffer ends with the BEL terminator.
pub proof fn lemma_reader_reassembles(
    status: ReaderStatus,
    buffered: Seq<u8>,
    events: Seq<ReaderEvent>,
)
    requires
        reader_live(status),
        live_run(status, buffered, events),
    ensures
        run_spec(status, buffered, events).1 == buffered + drained_bytes(events),
        run_spec(status, buffered, events).0 == ReaderStatus::Complete ==> ends_with_bel(
            run_spec(status, buffered, events).1,
        ),
    decreases events.len(),
{
    if events.len() == 0 {
        assert(buffered + drained_bytes(events) =~= buffered);
    } else {
        let stepped = step_spec(status, buffered, events[0]);
        let rest = events.drop_first();
        assert(run_spec(status, buffered, events) == run_spec(stepped.0, stepped.1, rest));
        assert(drained_bytes(events) == chunk_bytes(events[0]) + drained_bytes(rest));
        assert(live_run(stepped.0, stepped.1, rest));
        if reader_live(stepped.0) {
            lemma_reader_reassembles(stepped.0, stepped.1, rest);
            assert(stepped.1 + drained_bytes(rest) =~= buffered + drained_bytes(events));
        } else {
            assert(rest.len() == 0 || !live_run(stepped.0, stepped.1, rest));
            assert(run_spec(stepped.0, stepped.1, rest) == stepped);
            assert(stepped.1 =~= buffered + drained_bytes(events));
        }
    }
}

} // verus!
