//! What a stream over an iroh connection reports: its write errors, and the events it logs.

use crate::io_error::IoErrorKind;
use vstd::prelude::*;

verus! {

/// How many events of one sort a stream logs.
pub const MAX_LOGGED_STREAM_EVENTS: u8 = 6;

/// How many pending reads a stream logs.
pub const MAX_LOGGED_PENDING_READS: u8 = 4;

/// From how many milliseconds on a pending read is long.
pub const LONG_PENDING_READ_MS: u128 = 100;

/// Why a write to a QUIC stream failed.
#[derive(Debug, Clone, Copy, PartialEq, Eq, Structural)]
pub enum WriteFailure {
    /// The peer no longer reads the stream.
    Stopped,
    /// The connection was lost.
    ConnectionLost,
    /// The stream was closed before.
    ClosedStream,
    /// Early data was rejected.
    ZeroRttRejected,
}

/// Convert a QUIC write error to an appropriate kind of I/O error.
pub fn write_error_to_io(failure: WriteFailure) -> (r: IoErrorKind)
    ensures
        r == match failure {
            WriteFailure::Stopped => IoErrorKind::BrokenPipe,
            WriteFailure::ConnectionLost => IoErrorKind::ConnectionAborted,
            WriteFailure::ClosedStream => IoErrorKind::NotConnected,
            WriteFailure::ZeroRttRejected => IoErrorKind::Other,
        },
{
    match failure {
        WriteFailure::Stopped => IoErrorKind::BrokenPipe,
        WriteFailure::ConnectionLost => IoErrorKind::ConnectionAborted,
        WriteFailure::ClosedStream => IoErrorKind::NotConnected,
        WriteFailure::ZeroRttRejected => IoErrorKind::Other,
    }
}

/// The content of a stream's log state, with times of type `I`.
pub ghost struct LogView<I> {
    /// How many reads were logged.
    pub reads: u8,
    /// How many pending reads were logged.
    pub pending_reads: u8,
    /// Since when a read is pending, if one is.
    pub pending_since: Option<I>,
    /// How many writes were logged.
    pub writes: u8,
    /// How many flushes were logged.
    pub flushes: u8,
    /// How many shutdowns were logged.
    pub shutdowns: u8,
}

impl<I> LogView<I> {
    /// No more was logged than is logged at most.
    pub open spec fn within_limits(self) -> bool {
        &&& self.reads <= MAX_LOGGED_STREAM_EVENTS
        &&& self.pending_reads <= MAX_LOGGED_PENDING_READS
        &&& self.writes <= MAX_LOGGED_STREAM_EVENTS
        &&& self.flushes <= MAX_LOGGED_STREAM_EVENTS
        &&& self.shutdowns <= MAX_LOGGED_STREAM_EVENTS
    }
}

/// The count after an event, of which at most so many are logged.
pub open spec fn counted(count: u8, limit: u8) -> u8 {
    if count < limit {
        (count + 1) as u8
    } else {
        count
    }
}

/// The number under which an event is logged, if it is.
pub open spec fn event_number(count: u8, limit: u8) -> Option<u8> {
    if count < limit {
        Some((count + 1) as u8)
    } else {
        None
    }
}

fn count_event(count: &mut u8, limit: u8) -> (r: Option<u8>)
    ensures
        *final(count) == counted(*old(count), limit),
        r == event_number(*old(count), limit),
{
    if *count < limit {
        *count = *count + 1;
        Some(*count)
    } else {
        None
    }
}

/// What is logged when a read brought data.
pub struct ReadReport<I> {
    /// Since when the read was pending, if it was: that it resumed is logged.
    pub resumed_from: Option<I>,
    /// The number of reads to give with that.
    pub total_read_events: u8,
    /// The number under which the read itself is logged, if it is.
    pub event: Option<u8>,
    /// How many bytes it brought.
    pub bytes: usize,
}

/// The log state of a stream: which events are still logged, and since when a read is pending.
#[derive(Debug)]
pub struct StreamLog<I> {
    read_events_logged: u8,
    read_pending_events_logged: u8,
    read_pending_since: Option<I>,
    write_events_logged: u8,
    flush_events_logged: u8,
    shutdown_events_logged: u8,
}

impl<I> View for StreamLog<I> {
    type V = LogView<I>;

    closed spec fn view(&self) -> LogView<I> {
        LogView {
            reads: self.read_events_logged,
            pending_reads: self.read_pending_events_logged,
            pending_since: self.read_pending_since,
            writes: self.write_events_logged,
            flushes: self.flush_events_logged,
            shutdowns: self.shutdown_events_logged,
        }
    }
}

impl<I> StreamLog<I> {
    /// The log state of a new stream.
    #[must_use]
    pub fn new() -> (r: StreamLog<I>)
        ensures
            r@ == (LogView {
                reads: 0,
                pending_reads: 0,
                pending_since: None::<I>,
                writes: 0,
                flushes: 0,
                shutdowns: 0,
            }),
            r@.within_limits(),
    {
        StreamLog {
            read_events_logged: 0,
            read_pending_events_logged: 0,
            read_pending_since: None,
            write_events_logged: 0,
            flush_events_logged: 0,
            shutdown_events_logged: 0,
        }
    }

    /// How many reads were logged.
    pub fn read_events(&self) -> (r: u8)
        ensures
            r == self@.reads,
    {
        self.read_events_logged
    }

    /// A read brought data; the buffer held `before` bytes and now holds `after`.
    pub fn on_read(&mut self, before: usize, after: usize) -> (r: ReadReport<I>)
        requires
            old(self)@.within_limits(),
        ensures
            final(self)@ == (LogView {
                reads: counted(old(self)@.reads, MAX_LOGGED_STREAM_EVENTS),
                pending_since: None::<I>,
                ..old(self)@
            }),
            final(self)@.within_limits(),
            r.resumed_from == old(self)@.pending_since,
            r.total_read_events == old(self)@.reads + 1,
            r.event == event_number(old(self)@.reads, MAX_LOGGED_STREAM_EVENTS),
            r.bytes == if after >= before {
                after - before
            } else {
                0
            },
    {
        let resumed_from = self.read_pending_since.take();
        let total_read_events: u8 = self.read_events_logged.saturating_add(1);
        let event = count_event(&mut self.read_events_logged, MAX_LOGGED_STREAM_EVENTS);
        ReadReport { resumed_from, total_read_events, event, bytes: after.saturating_sub(before) }
    }

    /// A read is pending as of the given time. Gives the number under which that is logged, if it
    /// is; it is not while the read was pending already.
    pub fn on_read_pending(&mut self, now: I) -> (r: Option<u8>)
        requires
            old(self)@.within_limits(),
        ensures
            final(self)@ == if old(self)@.pending_since is None {
                LogView {
                    pending_reads: counted(old(self)@.pending_reads, MAX_LOGGED_PENDING_READS),
                    pending_since: Some(now),
                    ..old(self)@
                }
            } else {
                old(self)@
            },
            final(self)@.within_limits(),
            r == if old(self)@.pending_since is None {
                event_number(old(self)@.pending_reads, MAX_LOGGED_PENDING_READS)
            } else {
                None
            },
    {
        if self.read_pending_since.is_some() {
            return None;
        }
        self.read_pending_since = Some(now);
        count_event(&mut self.read_pending_events_logged, MAX_LOGGED_PENDING_READS)
    }

    /// A write took data. Gives the number under which that is logged, if it is.
    pub fn on_write(&mut self) -> (r: Option<u8>)
        requires
            old(self)@.within_limits(),
        ensures
            final(self)@ == (LogView {
                writes: counted(old(self)@.writes, MAX_LOGGED_STREAM_EVENTS),
                ..old(self)@
            }),
            final(self)@.within_limits(),
            r == event_number(old(self)@.writes, MAX_LOGGED_STREAM_EVENTS),
    {
        count_event(&mut self.write_events_logged, MAX_LOGGED_STREAM_EVENTS)
    }

    /// A flush was done. Gives the number under which that is logged, if it is.
    pub fn on_flush(&mut self) -> (r: Option<u8>)
        requires
            old(self)@.within_limits(),
        ensures
            final(self)@ == (LogView {
                flushes: counted(old(self)@.flushes, MAX_LOGGED_STREAM_EVENTS),
                ..old(self)@
            }),
            final(self)@.within_limits(),
            r == event_number(old(self)@.flushes, MAX_LOGGED_STREAM_EVENTS),
    {
        count_event(&mut self.flush_events_logged, MAX_LOGGED_STREAM_EVENTS)
    }

    /// A shutdown was done. Gives the number under which that is logged, if it is.
    pub fn on_shutdown(&mut self) -> (r: Option<u8>)
        requires
            old(self)@.within_limits(),
        ensures
            final(self)@ == (LogView {
                shutdowns: counted(old(self)@.shutdowns, MAX_LOGGED_STREAM_EVENTS),
                ..old(self)@
            }),
            final(self)@.within_limits(),
            r == event_number(old(self)@.shutdowns, MAX_LOGGED_STREAM_EVENTS),
    {
        count_event(&mut self.shutdown_events_logged, MAX_LOGGED_STREAM_EVENTS)
    }
}

/// Whether a read that was pending for that many milliseconds counts as a long stall.
pub fn is_long_stall(pending_ms: u128) -> (r: bool)
    ensures
        r == (pending_ms >= LONG_PENDING_READ_MS),
{
    pending_ms >= LONG_PENDING_READ_MS
}

/// Events of one sort are numbered from one on, up to the limit; those beyond it are not logged and
/// not counted.
pub proof fn events_are_logged_up_to_the_limit(count: u8, limit: u8)
    requires
        count <= limit,
    ensures
        event_number(count, limit) is Some <==> count < limit,
        event_number(count, limit) is Some ==> event_number(count, limit)->0 == count + 1,
        counted(count, limit) == if count < limit {
            count + 1
        } else {
            count as int
        },
        counted(count, limit) <= limit,
        event_number(count, limit) is Some ==> event_number(count, limit)->0 == counted(count, limit),
{
}

} // verus!
