//! The inbound boundary processor of an exchange: it drains its query's
//! publish channel, materializes each wire frame back into a block, and
//! feeds the blocks into the local pipeline as ordinary port traffic. A
//! drained and closed channel is the end of the stream; a frame that does
//! not materialize is fatal to the fragment.

use crate::block::ColumnarBlock;
use crate::errors::ErrorCode;
use crate::frame::{frame_bytes, frame_parses, materialize_frame};
use crate::manager::ExchangeManager;
use crate::port::Port;
use crate::processor::Event;
use vstd::prelude::*;

verus! {

/// The merge-exchange source processor: at most one materialized block
/// buffered at a time, waiting for the output port to take it.
pub struct ExchangeSourceProcessor {
    output_data: Option<ColumnarBlock>,
    channel: usize,
    drained: bool,
}

impl ExchangeSourceProcessor {
    /// The buffered materialized block, if any.
    pub closed spec fn spec_output(&self) -> Option<ColumnarBlock> {
        self.output_data
    }

    /// The registry index of the channel this source drains.
    pub closed spec fn spec_channel(&self) -> usize {
        self.channel
    }

    /// Whether the stream has ended: the channel was seen closed and empty.
    pub closed spec fn spec_drained(&self) -> bool {
        self.drained
    }

    /// A source draining the channel at registry index `channel`.
    pub fn create(channel: usize) -> (r: ExchangeSourceProcessor)
        ensures
            r.spec_output() is None,
            r.spec_channel() == channel,
            !r.spec_drained(),
    {
        ExchangeSourceProcessor { output_data: None, channel, drained: false }
    }

    /// A stable identifier for diagnostics.
    pub fn name(&self) -> (r: &'static str)
        ensures
            r@ == "ExchangeSource"@,
    {
        "ExchangeSource"
    }

    /// The decision function: a closed output port ends the source, and so
    /// does an ended stream once the consumer has taken the last block
    /// (the port is closed on the way out); a buffered block is pushed as
    /// soon as the consumer will take it; with nothing buffered the source
    /// must await the transport.
    pub fn event(&mut self, out: &mut Port) -> (e: Event)
        requires
            old(out).wf(),
        ensures
            final (out).wf(),
            final (self).spec_channel() == old(self).spec_channel(),
            final (self).spec_drained() == old(self).spec_drained(),
            old(out).spec_is_finished() ==> {
                &&& e == Event::Finished
                &&& *final (self) == *old(self)
                &&& *final (out) == *old(out)
            },
            !old(out).spec_is_finished() && old(self).spec_drained() && old(self).spec_output()
                is None && !old(out).spec_has_data() ==> {
                &&& e == Event::Finished
                &&& *final (self) == *old(self)
                &&& final (out).spec_is_finished()
                &&& final (out).pushed() == old(out).pushed()
                &&& final (out).pulled_count() == old(out).pulled_count()
            },
            !old(out).spec_is_finished() && old(self).spec_drained() && old(self).spec_output()
                is None && old(out).spec_has_data() ==> {
                &&& e == Event::NeedData
                &&& *final (self) == *old(self)
                &&& *final (out) == *old(out)
            },
            !old(out).spec_is_finished() && !(old(self).spec_drained() && old(self).spec_output()
                is None) ==> {
                &&& (old(self).spec_output() is Some && old(out).spec_can_push() ==> {
                    &&& e == Event::Async
                    &&& final (self).spec_output() is None
                    &&& final (out).pushed() == old(out).pushed().push(
                        old(self).spec_output()->Some_0,
                    )
                    &&& final (out).pulled_count() == old(out).pulled_count()
                    &&& final (out).spec_has_data()
                })
                &&& (old(self).spec_output() is Some && !old(out).spec_can_push() ==> {
                    &&& e == Event::NeedData
                    &&& *final (self) == *old(self)
                    &&& *final (out) == *old(out)
                })
                &&& (old(self).spec_output() is None ==> {
                    &&& e == Event::Async
                    &&& *final (self) == *old(self)
                    &&& *final (out) == *old(out)
                })
            },
    {
        if out.is_finished() {
            return Event::Finished;
        }
        if self.output_data.is_some() {
            if out.can_push() {
                let b = self.output_data.take().unwrap();
                out.push(b);
                return Event::Async;
            }
            return Event::NeedData;
        }
        if self.drained {
            if out.has_data() {
                return Event::NeedData;
            }
            out.finish();
            return Event::Finished;
        }
        Event::Async
    }

    /// The suspending step: fetch the next frame from the publish channel
    /// and materialize it. An empty but open channel leaves the source
    /// waiting; an empty closed channel ends the stream; a frame that is
    /// not a well-formed wire frame is a fatal transport failure.
    pub fn async_process(&mut self, mgr: &mut ExchangeManager) -> (r: Result<(), ErrorCode>)
        requires
            old(mgr).wf(),
            old(self).spec_channel() < old(mgr).num_entries(),
            old(self).spec_output() is None,
        ensures
            final (mgr).wf(),
            final (mgr).num_entries() == old(mgr).num_entries(),
            final (mgr).spec_channel_capacity() == old(mgr).spec_channel_capacity(),
            final (self).spec_channel() == old(self).spec_channel(),
            forall|j: int|
                0 <= j < old(mgr).num_entries() && j != old(self).spec_channel()
                    ==> final (mgr).spec_entries()[j] == old(mgr).spec_entries()[j],
            ({
                let ci = old(self).spec_channel() as int;
                let fr = old(mgr).frames_at(ci);
                &&& final (mgr).closed_at(ci) == old(mgr).closed_at(ci)
                &&& (fr.len() == 0 ==> {
                    &&& r is Ok
                    &&& final (mgr).frames_at(ci) == fr
                    &&& final (self).spec_output() is None
                    &&& final (self).spec_drained() == (old(self).spec_drained() || old(
                        mgr,
                    ).closed_at(ci))
                })
                &&& (fr.len() > 0 ==> {
                    &&& final (mgr).frames_at(ci) == fr.drop_first()
                    &&& final (self).spec_drained() == old(self).spec_drained()
                    &&& (frame_parses(fr[0]) ==> {
                        &&& r is Ok
                        &&& final (self).spec_output() is Some
                        &&& final (self).spec_output()->Some_0.wf()
                        &&& frame_bytes(final (self).spec_output()->Some_0) == fr[0]
                    })
                    &&& (!frame_parses(fr[0]) ==> {
                        &&& r == Err::<(), ErrorCode>(ErrorCode::MalformedFrame)
                        &&& final (self).spec_output() is None
                    })
                })
            }),
    {
        match mgr.try_recv_on(self.channel) {
            None => {
                if mgr.is_closed_on(self.channel) {
                    self.drained = true;
                }
                Ok(())
            },
            Some(frame) => {
                let block = match materialize_frame(&frame) {
                    Ok(b) => b,
                    Err(e) => {
                        return Err(e);
                    },
                };
                self.output_data = Some(block);
                Ok(())
            },
        }
    }
}

} // verus!
