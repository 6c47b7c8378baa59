//! The head of a local pipeline: a processor that emits already
//! materialized blocks into its output port, one at a time, and closes the
//! port when it has nothing more to emit. It stands for the storage or
//! remote-source collaborator that feeds the first blocks into a fragment.

use crate::block::ColumnarBlock;
use crate::port::Port;
use crate::processor::Event;
use std::collections::VecDeque;
use vstd::prelude::*;

verus! {

/// A producer of materialized blocks, emitted in queue order.
pub struct BlockSource {
    blocks: VecDeque<ColumnarBlock>,
}

impl BlockSource {
    /// The blocks still to emit, next first.
    pub closed spec fn remaining(&self) -> Seq<ColumnarBlock> {
        self.blocks@
    }

    /// Every block still to emit is well-formed.
    pub open spec fn wf(&self) -> bool {
        forall|i: int| 0 <= i < self.remaining().len() ==> (#[trigger] self.remaining()[i]).wf()
    }

    /// A source with nothing to emit yet.
    pub fn new() -> (s: BlockSource)
        ensures
            s.remaining() == Seq::<ColumnarBlock>::empty(),
            s.wf(),
    {
        BlockSource { blocks: VecDeque::new() }
    }

    /// Queues one more block for emission.
    pub fn add_block(&mut self, b: ColumnarBlock)
        requires
            old(self).wf(),
            b.wf(),
        ensures
            final (self).wf(),
            final (self).remaining() == old(self).remaining().push(b),
    {
        self.blocks.push_back(b);
    }

    /// The decision function: a closed port ends the source; otherwise the
    /// source has work whenever it may push or has run out (closing the
    /// port is its last piece of work); else it waits for the consumer.
    pub fn event(&self, out: &Port) -> (e: Event)
        ensures
            e == (if out.spec_is_finished() {
                Event::Finished
            } else if self.remaining().len() == 0 || out.spec_can_push() {
                Event::Sync
            } else {
                Event::NeedData
            }),
    {
        if out.is_finished() {
            return Event::Finished;
        }
        if self.blocks.len() == 0 || out.can_push() {
            return Event::Sync;
        }
        Event::NeedData
    }

    /// The work step: push the next block if the port will take one, close
    /// the port once every block has been emitted.
    pub fn process(&mut self, out: &mut Port)
        requires
            old(self).wf(),
            old(out).wf(),
            !old(out).spec_is_finished(),
            old(self).remaining().len() == 0 || old(out).spec_can_push(),
        ensures
            final (self).wf(),
            final (out).wf(),
            old(self).remaining().len() == 0 ==> {
                &&& final (self).remaining() == old(self).remaining()
                &&& final (out).spec_is_finished()
                &&& final (out).pushed() == old(out).pushed()
                &&& final (out).pulled_count() == old(out).pulled_count()
                &&& final (out).spec_slot_free() == old(out).spec_slot_free()
            },
            old(self).remaining().len() > 0 ==> {
                &&& final (self).remaining() == old(self).remaining().drop_first()
                &&& final (out).pushed() == old(out).pushed().push(old(self).remaining()[0])
                &&& final (out).pulled_count() == old(out).pulled_count()
                &&& final (out).pushed().len() == final (out).pulled_count() + 1
                &&& final (out).pushed()[final (out).pulled_count() as int] == old(
                    self,
                ).remaining()[0]
                &&& final (out).spec_has_data()
                &&& !final (out).spec_is_finished()
            },
    {
        match self.blocks.pop_front() {
            None => {
                out.finish();
            },
            Some(b) => {
                out.push(b);
            },
        }
    }
}

} // verus!
