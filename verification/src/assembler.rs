//! The line assembler: one decision for each poll of the device.
//!
//! The caller polls the device and the cancellation flag and hands over
//! what it found; the assembler says what to do next. A read call starts
//! with an empty accumulator and ends when a step yields anything but
//! `Retry`. The accumulator does not outlive the call: it is empty again
//! after a line, after a buffer that does not decode, and after a
//! cancellation.

use vstd::prelude::*;
use crate::lines::{decode_line, decoded_line, LINE_FEED};

verus! {

/// How long the caller sleeps before it polls again, in milliseconds.
pub const RETRY_INTERVAL_MS: u64 = 1;

/// What one poll of the device found.
#[derive(Clone, Copy, Debug, PartialEq, Eq, Structural)]
pub enum ReadEvent {
    /// Bytes were waiting and this is the next one.
    Byte(u8),
    /// Bytes were waiting, but reading one failed.
    ReadFailed,
    /// No bytes were waiting; `cancel` is the cancellation flag as found.
    Idle { cancel: bool },
}

/// What the caller does after a poll.
#[derive(Debug, PartialEq, Eq)]
pub enum ReadStep {
    /// Sleep for the retry interval and poll again.
    Retry,
    /// The call ends with this line.
    Line(String),
    /// The call ends without a line: the buffer did not decode.
    Dropped,
    /// The call ends without a line; clear the cancellation flag.
    Cancelled,
}

/// A `ReadStep` with its line as a sequence of characters.
pub enum ReadOutcome {
    Retry,
    Line(Seq<char>),
    Dropped,
    Cancelled,
}

impl View for ReadStep {
    type V = ReadOutcome;

    open spec fn view(&self) -> ReadOutcome {
        match self {
            ReadStep::Retry => ReadOutcome::Retry,
            ReadStep::Line(line) => ReadOutcome::Line(line@),
            ReadStep::Dropped => ReadOutcome::Dropped,
            ReadStep::Cancelled => ReadOutcome::Cancelled,
        }
    }
}

/// How a call ends on a line feed: with the line of the buffer, or
/// without one where the buffer holds none.
pub open spec fn line_outcome(buffer: Seq<u8>) -> ReadOutcome {
    match decoded_line(buffer) {
        Some(line) => ReadOutcome::Line(line),
        None => ReadOutcome::Dropped,
    }
}

/// The accumulator after a poll, and what the caller does.
///
/// A byte is appended; a line feed then ends the call with the line of
/// the buffer. A failed read changes nothing. With no bytes waiting the
/// call ends if cancellation was requested and goes on if not.
pub open spec fn assemble(buffer: Seq<u8>, event: ReadEvent) -> (Seq<u8>, ReadOutcome) {
    match event {
        ReadEvent::Byte(b) => if b == LINE_FEED {
            (Seq::empty(), line_outcome(buffer.push(b)))
        } else {
            (buffer.push(b), ReadOutcome::Retry)
        },
        ReadEvent::ReadFailed => (buffer, ReadOutcome::Retry),
        ReadEvent::Idle { cancel } => if cancel {
            (Seq::empty(), ReadOutcome::Cancelled)
        } else {
            (buffer, ReadOutcome::Retry)
        },
    }
}

/// The bytes of one line under assembly.
pub struct LineAssembler {
    buffer: Vec<u8>,
}

impl View for LineAssembler {
    type V = Seq<u8>;

    closed spec fn view(&self) -> Seq<u8> {
        self.buffer@
    }
}

impl LineAssembler {
    /// An assembler with nothing accumulated.
    pub fn new() -> (r: Self)
        ensures
            r@ == Seq::<u8>::empty(),
    {
        LineAssembler { buffer: Vec::new() }
    }

    /// The number of bytes accumulated.
    pub fn pending(&self) -> (n: usize)
        ensures
            n == self@.len(),
    {
        self.buffer.len()
    }

    /// Takes what one poll found and says what the caller does next.
    pub fn step(&mut self, event: ReadEvent) -> (r: ReadStep)
        ensures
            (final(self)@, r@) == assemble(old(self)@, event),
    {
        match event {
            ReadEvent::Byte(b) => {
                self.buffer.push(b);
                if b == LINE_FEED {
                    let line = decode_line(self.buffer.as_slice());
                    self.buffer.clear();
                    match line {
                        Some(line) => ReadStep::Line(line),
                        None => ReadStep::Dropped,
                    }
                } else {
                    ReadStep::Retry
                }
            },
            ReadEvent::ReadFailed => ReadStep::Retry,
            ReadEvent::Idle { cancel } => {
                if cancel {
                    self.buffer.clear();
                    ReadStep::Cancelled
                } else {
                    ReadStep::Retry
                }
            },
        }
    }
}

/// One read call against recorded polls: how it ends and how many polls
/// it takes. It ends with `Retry` where the polls run out first.
pub open spec fn spec_read_line(buffer: Seq<u8>, events: Seq<ReadEvent>) -> (ReadOutcome, nat)
    decreases events.len(),
{
    if events.len() == 0 {
        (ReadOutcome::Retry, 0)
    } else {
        let (next, outcome) = assemble(buffer, events[0]);
        if outcome is Retry {
            let (last, taken) = spec_read_line(next, events.drop_first());
            (last, taken + 1)
        } else {
            (outcome, 1)
        }
    }
}

/// Runs one read call, which starts with an empty accumulator, against
/// recorded polls. Returns how the call ends and how many polls it took;
/// `Retry` says that the polls ran out while the call was still waiting.
pub fn read_line(events: &[ReadEvent]) -> (r: (ReadStep, usize))
    ensures
        (r.0@, r.1 as nat) == spec_read_line(Seq::empty(), events@),
{
    let mut assembler = LineAssembler::new();
    let mut i: usize = 0;
    let n = events.len();
    assert(events@.skip(0) =~= events@);
    while i < n
        invariant
            n == events@.len(),
            i <= n,
            spec_read_line(Seq::empty(), events@) == (
                spec_read_line(assembler@, events@.skip(i as int)).0,
                (spec_read_line(assembler@, events@.skip(i as int)).1 + i) as nat,
            ),
        decreases n - i,
    {
        let ghost rest = events@.skip(i as int);
        assert(rest[0] == events@[i as int]);
        assert(rest.drop_first() =~= events@.skip(i + 1));
        let step = assembler.step(events[i]);
        i += 1;
        match step {
            ReadStep::Retry => {},
            _ => {
                return (step, i);
            },
        }
    }
    (ReadStep::Retry, i)
}

} // verus!
