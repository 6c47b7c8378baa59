//! The processor execution contract: a processor exposes a pure,
//! non-blocking decision function reporting one of four events, a
//! synchronous CPU-only step, and a suspending step for work that may wait
//! on I/O. The scheduler multiplexes processors over a fixed worker budget
//! by dispatching on the reported event.

use vstd::prelude::*;

verus! {

/// What a processor's decision function asks the scheduler to do next.
#[derive(Clone, Copy, Debug, PartialEq, Eq, Structural)]
pub enum Event {
    /// The processor is starved: it asked its input for a block and has
    /// nothing to do until one arrives.
    NeedData,
    /// The processor has CPU-only work ready; run its synchronous step.
    Sync,
    /// The processor is blocked on external progress (a saturated outbound
    /// channel); run its suspending step off the CPU path.
    Async,
    /// The processor is done and must never be polled again.
    Finished,
}

} // verus!
