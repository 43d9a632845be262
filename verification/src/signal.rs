//! What the driver asks of the hardware side, one step at a time.
//!
//! The panel hangs on a write-only serial bus and four digital lines. Three
//! of them are outputs: reset (active low), chip select (active low) and
//! data/command select (low announces a command byte, high data bytes). The
//! fourth, busy, is an input that the panel holds high while it works.

use vstd::prelude::*;

verus! {

/// An output line of the panel.
#[derive(Clone, Copy, Debug, PartialEq, Eq, Structural)]
pub enum Line {
    Reset,
    Select,
    DataCommand,
}

/// The level of a digital line.
#[derive(Clone, Copy, Debug, PartialEq, Eq, Structural)]
pub enum Level {
    Low,
    High,
}

/// One step for the hardware side, as a mathematical value.
pub enum Signal {
    /// Drive an output line to a level.
    Drive(Line, Level),
    /// Write the bytes to the bus, in order, as one blocking write.
    Write(Seq<u8>),
    /// Do nothing for at least this many milliseconds.
    DelayMs(u8),
    /// Sample the busy line until it reads low.
    AwaitIdle,
}

/// One step for the hardware side.
///
/// Steps are carried out in the order in which they were queued. Whether a
/// line change or a bus write succeeded is not reported back: the protocol
/// does not depend on it.
#[derive(Debug, PartialEq, Eq)]
pub enum Action {
    /// Drive an output line to a level.
    Drive(Line, Level),
    /// Write the bytes to the bus, in order, as one blocking write.
    Write(Vec<u8>),
    /// Do nothing for at least this many milliseconds.
    DelayMs(u8),
    /// Sample the busy line until it reads low, asking
    /// `EpdInterface::busy_sampled` after each sample how to go on.
    AwaitIdle,
}

impl View for Action {
    type V = Signal;

    open spec fn view(&self) -> Signal {
        match *self {
            Action::Drive(line, level) => Signal::Drive(line, level),
            Action::Write(bytes) => Signal::Write(bytes@),
            Action::DelayMs(ms) => Signal::DelayMs(ms),
            Action::AwaitIdle => Signal::AwaitIdle,
        }
    }
}

/// The steps of a queue, each as its mathematical value.
pub open spec fn signals(queue: Seq<Action>) -> Seq<Signal> {
    Seq::new(queue.len(), |i: int| queue[i]@)
}

/// Queueing one more step appends its value.
pub proof fn lemma_signals_push(queue: Seq<Action>, action: Action)
    ensures
        signals(queue.push(action)) == signals(queue).push(action@),
{
    assert(signals(queue.push(action)) =~= signals(queue).push(action@));
}

} // verus!
