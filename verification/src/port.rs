//! The flow-control primitive: a single-slot conduit carrying one block at a
//! time between a producing and a consuming processor. The slot of depth one
//! is the backpressure primitive: a consumer must drain before a new block
//! may be pushed.
//!
//! The two halves of a conduit share one finished flag, so closing either
//! side is visible to the other; here the conduit is one value whose two
//! sides the scheduler lends out in turn, which models the guarantee that
//! only one side's step runs at once.

use crate::block::ColumnarBlock;
use vstd::prelude::*;

verus! {

/// A single-slot conduit between two processors.
///
/// The ghost `history` records every block ever pushed, and `pulled` counts
/// how many of them have been pulled; the well-formedness invariant ties the
/// slot to the history, which is what makes the FIFO and single-in-flight
/// laws stateable.
pub struct Port {
    data: Option<ColumnarBlock>,
    finished: bool,
    need_data: bool,
    history: Ghost<Seq<ColumnarBlock>>,
    pulled: Ghost<nat>,
}

impl Port {
    /// Every block ever pushed into the port, in push order.
    pub closed spec fn pushed(&self) -> Seq<ColumnarBlock> {
        self.history@
    }

    /// How many pushed blocks have been pulled so far.
    pub closed spec fn pulled_count(&self) -> nat {
        self.pulled@
    }

    /// Whether the port has been closed.
    pub closed spec fn spec_is_finished(&self) -> bool {
        self.finished
    }

    /// Whether the consumer has declared that it wants a block.
    pub closed spec fn spec_needs_data(&self) -> bool {
        self.need_data
    }

    /// Whether the slot currently holds a block (and the port is open).
    pub closed spec fn spec_has_data(&self) -> bool {
        self.data is Some && !self.finished
    }

    /// Whether the slot is free.
    pub closed spec fn spec_slot_free(&self) -> bool {
        self.data is None
    }

    /// Whether a producer may push now: the consumer asked for data, the
    /// slot is free, and the port is open.
    pub open spec fn spec_can_push(&self) -> bool {
        self.spec_needs_data() && self.spec_slot_free() && !self.spec_is_finished()
    }

    /// Well-formedness: the slot holds exactly the pushed blocks that have
    /// not been pulled, and there is at most one of those.
    pub closed spec fn wf(&self) -> bool {
        &&& self.pulled@ <= self.history@.len()
        &&& self.history@.len() <= self.pulled@ + 1
        &&& (self.data is Some <==> self.history@.len() == self.pulled@ + 1)
        &&& (self.data is Some ==> self.data->Some_0 == self.history@.last())
    }

    /// A fresh, open, empty port.
    pub fn new() -> (p: Port)
        ensures
            p.wf(),
            p.pushed() == Seq::<ColumnarBlock>::empty(),
            p.pulled_count() == 0,
            !p.spec_is_finished(),
            !p.spec_needs_data(),
            !p.spec_has_data(),
            p.spec_slot_free(),
    {
        Port {
            data: None,
            finished: false,
            need_data: false,
            history: Ghost(Seq::empty()),
            pulled: Ghost(0),
        }
    }

    /// Non-blocking query: is a block waiting in the slot of an open port?
    pub fn has_data(&self) -> (r: bool)
        ensures
            r == self.spec_has_data(),
    {
        self.data.is_some() && !self.finished
    }

    /// Non-blocking query: has the port been closed?
    pub fn is_finished(&self) -> (r: bool)
        ensures
            r == self.spec_is_finished(),
    {
        self.finished
    }

    /// Non-blocking query: may a producer push now?
    pub fn can_push(&self) -> (r: bool)
        ensures
            r == self.spec_can_push(),
    {
        self.need_data && self.data.is_none() && !self.finished
    }

    /// The consumer declares that it wants a block.
    pub fn set_need_data(&mut self)
        ensures
            final (self).wf() == old(self).wf(),
            final (self).spec_needs_data(),
            final (self).pushed() == old(self).pushed(),
            final (self).pulled_count() == old(self).pulled_count(),
            final (self).spec_is_finished() == old(self).spec_is_finished(),
            final (self).spec_has_data() == old(self).spec_has_data(),
            final (self).spec_slot_free() == old(self).spec_slot_free(),
    {
        self.need_data = true;
    }

    /// Pushes a block into the free slot of an open port.
    ///
    /// Pushing while a block is still in flight is a programming-contract
    /// violation, excluded here by precondition rather than handled at run
    /// time; `Port::wf` keeps at most one block in flight in consequence.
    pub fn push(&mut self, b: ColumnarBlock)
        requires
            old(self).wf(),
            old(self).spec_slot_free(),
            !old(self).spec_is_finished(),
        ensures
            final (self).wf(),
            final (self).pushed() == old(self).pushed().push(b),
            final (self).pulled_count() == old(self).pulled_count(),
            final (self).pushed().len() == final (self).pulled_count() + 1,
            final (self).pushed()[final (self).pulled_count() as int] == b,
            final (self).spec_has_data(),
            !final (self).spec_is_finished(),
            !final (self).spec_needs_data(),
            !final (self).spec_slot_free(),
    {
        self.data = Some(b);
        self.need_data = false;
        proof {
            self.history@ = self.history@.push(b);
        }
    }

    /// Pulls the block waiting in the slot, freeing it.
    ///
    /// The result is exactly the `pulled_count`-th block ever pushed: pulls
    /// observe blocks in push order.
    pub fn pull(&mut self) -> (b: ColumnarBlock)
        requires
            old(self).wf(),
            old(self).spec_has_data(),
        ensures
            final (self).wf(),
            b == old(self).pushed()[old(self).pulled_count() as int],
            b == old(self).pushed().last(),
            final (self).pushed() == old(self).pushed(),
            final (self).pulled_count() == old(self).pulled_count() + 1,
            final (self).spec_slot_free(),
            !final (self).spec_has_data(),
            final (self).spec_is_finished() == old(self).spec_is_finished(),
            final (self).spec_needs_data() == old(self).spec_needs_data(),
    {
        let b = self.data.take().unwrap();
        proof {
            self.pulled@ = self.pulled@ + 1;
        }
        b
    }

    /// Closes the port. Idempotent; afterwards `has_data` reports false and
    /// `is_finished` reports true, permanently.
    pub fn finish(&mut self)
        ensures
            final (self).wf() == old(self).wf(),
            final (self).spec_is_finished(),
            !final (self).spec_has_data(),
            final (self).pushed() == old(self).pushed(),
            final (self).pulled_count() == old(self).pulled_count(),
            final (self).spec_slot_free() == old(self).spec_slot_free(),
            final (self).spec_needs_data() == old(self).spec_needs_data(),
    {
        self.finished = true;
    }
}

/// Port FIFO law: in a well-formed port the pulls that have happened
/// observed exactly the pushed blocks in push order (the `k`-th pull
/// returned `pushed()[k]`, as `Port::pull` ensures), every pulled block was
/// first pushed, and a block can only be observed while `has_data` reports
/// true, since `Port::pull` requires it.
pub proof fn lemma_port_fifo(p: Port)
    requires
        p.wf(),
    ensures
        p.pulled_count() <= p.pushed().len(),
        p.spec_has_data() ==> p.pushed().len() == p.pulled_count() + 1,
{
}

/// A port reports data exactly when its slot is occupied and it is open: a
/// block can only sit unobserved in the slot of a port that was closed.
pub proof fn lemma_port_empty_slot(p: Port)
    ensures
        p.spec_has_data() <==> (!p.spec_slot_free() && !p.spec_is_finished()),
{
}

/// Single-in-flight law: a well-formed port never holds more than one block
/// that was pushed and not yet pulled; a second push without an intervening
/// pull is rejected by the precondition of `Port::push`.
pub proof fn lemma_single_in_flight(p: Port)
    requires
        p.wf(),
    ensures
        p.pushed().len() - p.pulled_count() <= 1,
{
}

} // verus!
