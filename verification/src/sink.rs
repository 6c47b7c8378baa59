//! The outbound boundary processor of an exchange: it drains its input
//! port, serializes each non-empty block into a wire frame, and delivers
//! the frames to its destination's publish channel without ever blocking a
//! CPU worker. A full channel suspends the sink (`Async`), which leaves its
//! input port un-drained and so withholds `NeedData` upstream: backpressure
//! propagates end-to-end through ordinary port flow control.
//!
//! A closed destination channel is a normal termination signal, not an
//! error: the sink reports `Finished` and also finishes its own input port,
//! so the upstream producer stops eagerly instead of computing blocks
//! nobody will consume.

use crate::block::ColumnarBlock;
use crate::channel::TrySendOutcome;
use crate::errors::ErrorCode;
use crate::frame::{frame_bytes, serialize_block};
use crate::manager::ExchangeManager;
use crate::port::Port;
use crate::processor::Event;
use vstd::prelude::*;

verus! {

/// What a merge-exchange boundary needs to know: which query it belongs to
/// and which destination its frames go to. The wire format is
/// self-describing, so no per-boundary field layout is carried.
pub struct MergeExchangeParams {
    pub query_id: String,
    pub destination_id: String,
}

/// Serialization settings derived from the exchange parameters.
pub struct SerializeParams {}

impl MergeExchangeParams {
    /// Derives the serialization settings for this boundary.
    pub fn create_serialize_params(&self) -> (r: Result<SerializeParams, ErrorCode>)
        ensures
            r is Ok,
    {
        Ok(SerializeParams {  })
    }
}

/// The merge-exchange sink processor: at most one buffered input block and
/// at most one pending serialized frame at a time.
pub struct ExchangeMergeSink {
    input_data: Option<ColumnarBlock>,
    output_data: Option<Vec<u8>>,
    serialize_params: SerializeParams,
    query_id: String,
    destination_id: String,
    channel: Option<usize>,
}

/// The channel index a pending frame will go to: the sink's already
/// resolved channel, or the one the registry will resolve for its key.
pub open spec fn pre_channel_index(s: &ExchangeMergeSink, m: &ExchangeManager) -> int {
    if s.spec_channel() is Some {
        s.spec_channel()->Some_0 as int
    } else {
        m.resolved_index(s.qid(), s.did())
    }
}

/// The frames queued at that channel before the sink acts.
pub open spec fn pre_frames(s: &ExchangeMergeSink, m: &ExchangeManager) -> Seq<Seq<u8>> {
    if s.spec_channel() is Some {
        m.frames_at(s.spec_channel()->Some_0 as int)
    } else {
        m.frames_before(s.qid(), s.did())
    }
}

/// Whether that channel is already closed before the sink acts.
pub open spec fn pre_closed(s: &ExchangeMergeSink, m: &ExchangeManager) -> bool {
    if s.spec_channel() is Some {
        m.closed_at(s.spec_channel()->Some_0 as int)
    } else {
        m.closed_before(s.qid(), s.did())
    }
}

/// How the sink's buffered input, its input port and the reported event
/// relate once no frame is pending: buffered input is consumed first, a
/// finished port ends the sink, available port data is pulled, and
/// otherwise the sink declares need and starves.
pub open spec fn consume_step(
    old_input: Option<ColumnarBlock>,
    old_port: Port,
    new_input: Option<ColumnarBlock>,
    new_port: Port,
    e: Event,
) -> bool {
    if old_input is Some {
        &&& e == Event::Sync
        &&& new_input == old_input
        &&& new_port == old_port
    } else if old_port.spec_is_finished() {
        &&& e == Event::Finished
        &&& new_input is None
        &&& new_port == old_port
    } else if old_port.spec_has_data() {
        &&& e == Event::Sync
        &&& new_input == Some(old_port.pushed()[old_port.pulled_count() as int])
        &&& new_port.pushed() == old_port.pushed()
        &&& new_port.pulled_count() == old_port.pulled_count() + 1
        &&& new_port.spec_slot_free()
        &&& !new_port.spec_is_finished()
        &&& new_port.spec_needs_data() == old_port.spec_needs_data()
    } else {
        &&& e == Event::NeedData
        &&& new_input is None
        &&& new_port.pushed() == old_port.pushed()
        &&& new_port.pulled_count() == old_port.pulled_count()
        &&& new_port.spec_needs_data()
        &&& !new_port.spec_is_finished()
        &&& new_port.spec_slot_free() == old_port.spec_slot_free()
    }
}

impl ExchangeMergeSink {
    /// The query identifier of this sink's boundary.
    pub closed spec fn qid(&self) -> Seq<char> {
        self.query_id@
    }

    /// The destination identifier of this sink's boundary.
    pub closed spec fn did(&self) -> Seq<char> {
        self.destination_id@
    }

    /// The buffered input block, if any.
    pub closed spec fn spec_input(&self) -> Option<ColumnarBlock> {
        self.input_data
    }

    /// The pending serialized frame, if any.
    pub closed spec fn spec_output(&self) -> Option<Seq<u8>> {
        match self.output_data {
            Some(v) => Some(v@),
            None => None,
        }
    }

    /// The resolved publish-channel index, if resolution happened yet.
    pub closed spec fn spec_channel(&self) -> Option<usize> {
        self.channel
    }

    /// The sink's resolved channel, if any, is a live registry entry for
    /// the sink's own key.
    pub open spec fn resolved_ok(&self, m: &ExchangeManager) -> bool {
        self.spec_channel() is Some ==> {
            let i = self.spec_channel()->Some_0 as int;
            &&& i < m.num_entries()
            &&& m.key_matches(i, self.qid(), self.did())
        }
    }

    /// Builds a sink for one exchange boundary, with empty buffers and the
    /// publish channel still unresolved.
    pub fn try_create(params: MergeExchangeParams) -> (r: Result<ExchangeMergeSink, ErrorCode>)
        ensures
            r is Ok,
            r->Ok_0.qid() == params.query_id@,
            r->Ok_0.did() == params.destination_id@,
            r->Ok_0.spec_input() is None,
            r->Ok_0.spec_output() is None,
            r->Ok_0.spec_channel() is None,
    {
        let serialize_params = match params.create_serialize_params() {
            Ok(p) => p,
            Err(e) => {
                return Err(e);
            },
        };
        Ok(
            ExchangeMergeSink {
                input_data: None,
                output_data: None,
                serialize_params,
                query_id: params.query_id,
                destination_id: params.destination_id,
                channel: None,
            },
        )
    }

    /// The resolved publish-channel index, if resolution happened yet.
    pub fn channel_index(&self) -> (r: Option<usize>)
        ensures
            r == self.spec_channel(),
    {
        self.channel
    }

    /// The query identifier of this sink's boundary.
    pub fn query_id_ref(&self) -> (r: &String)
        ensures
            r@ == self.qid(),
    {
        &self.query_id
    }

    /// A stable identifier for diagnostics.
    pub fn name(&self) -> (r: &'static str)
        ensures
            r@ == "ExchangeSink"@,
    {
        "ExchangeSink"
    }

    /// The decision function. In priority order: flush the pending frame
    /// (resolving the publish channel lazily; a closed channel finishes the
    /// sink and its input, a full one suspends it), then report buffered
    /// input as `Sync` work, then follow the input port: finished, has
    /// data, or must be asked for more.
    pub fn event(&mut self, input: &mut Port, mgr: &mut ExchangeManager) -> (r: Result<
        Event,
        ErrorCode,
    >)
        requires
            old(mgr).wf(),
            old(input).wf(),
            old(self).resolved_ok(old(mgr)),
        ensures
            r is Ok,
            final (self).qid() == old(self).qid(),
            final (self).did() == old(self).did(),
            final (mgr).wf(),
            final (input).wf(),
            final (self).resolved_ok(final (mgr)),
            final (mgr).spec_channel_capacity() == old(mgr).spec_channel_capacity(),
            old(self).spec_channel() is Some
                ==> final (self).spec_channel() == old(self).spec_channel(),
            old(self).spec_output() is None ==> {
                &&& *final (mgr) == *old(mgr)
                &&& final (self).spec_channel() == old(self).spec_channel()
                &&& final (self).spec_output() is None
                &&& consume_step(
                    old(self).spec_input(),
                    *old(input),
                    final (self).spec_input(),
                    *final (input),
                    r->Ok_0,
                )
            },
            old(self).spec_output() is Some ==> ({
                let ci = pre_channel_index(old(self), old(mgr));
                let fr0 = pre_frames(old(self), old(mgr));
                let cl0 = pre_closed(old(self), old(mgr));
                let cap = old(mgr).spec_channel_capacity();
                &&& final (self).spec_channel() is Some
                &&& final (self).spec_channel()->Some_0 == ci
                &&& final (mgr).num_entries() == (if old(self).spec_channel() is Some
                    || old(mgr).has_key(old(self).qid(), old(self).did()) {
                    old(mgr).num_entries()
                } else {
                    old(mgr).num_entries() + 1
                })
                &&& forall|j: int|
                    0 <= j < old(mgr).num_entries() && j != ci ==> final (mgr).spec_entries()[j]
                        == old(mgr).spec_entries()[j]
                &&& final (mgr).cap_at(ci) == cap
                &&& final (mgr).closed_at(ci) == cl0
                &&& (cl0 ==> {
                    &&& r->Ok_0 == Event::Finished
                    &&& final (mgr).frames_at(ci) == fr0
                    &&& final (self).spec_output() is None
                    &&& final (self).spec_input() == old(self).spec_input()
                    &&& final (input).spec_is_finished()
                    &&& final (input).pushed() == old(input).pushed()
                    &&& final (input).pulled_count() == old(input).pulled_count()
                })
                &&& (!cl0 && fr0.len() >= cap ==> {
                    &&& r->Ok_0 == Event::Async
                    &&& final (mgr).frames_at(ci) == fr0
                    &&& final (self).spec_output() == old(self).spec_output()
                    &&& final (self).spec_input() == old(self).spec_input()
                    &&& *final (input) == *old(input)
                })
                &&& (!cl0 && fr0.len() < cap ==> {
                    &&& final (mgr).frames_at(ci) == fr0.push(old(self).spec_output()->Some_0)
                    &&& final (self).spec_output() is None
                    &&& consume_step(
                        old(self).spec_input(),
                        *old(input),
                        final (self).spec_input(),
                        *final (input),
                        r->Ok_0,
                    )
                })
            }),
    {
        if self.output_data.is_some() {
            let output = self.output_data.take().unwrap();
            let idx: usize = match self.channel {
                Some(i) => i,
                None => {
                    let i = mgr.get_or_create_publish_channel(
                        &self.query_id,
                        &self.destination_id,
                    );
                    self.channel = Some(i);
                    i
                },
            };
            match mgr.try_send_on(idx, output) {
                TrySendOutcome::Sent => {},
                TrySendOutcome::Closed(_) => {
                    input.finish();
                    return Ok(Event::Finished);
                },
                TrySendOutcome::Full(f) => {
                    self.output_data = Some(f);
                    return Ok(Event::Async);
                },
            }
        }
        if self.input_data.is_some() {
            return Ok(Event::Sync);
        }
        if input.is_finished() {
            return Ok(Event::Finished);
        }
        if input.has_data() {
            let block = input.pull();
            self.input_data = Some(block);
            return Ok(Event::Sync);
        }
        input.set_need_data();
        Ok(Event::NeedData)
    }

    /// The synchronous step: consume the buffered input block. An empty
    /// block is dropped silently, it carries no data worth sending; a block
    /// whose serialization would need dictionary pages is refused with an
    /// unimplemented-capability error; any other block is serialized into
    /// the pending wire frame.
    pub fn process(&mut self) -> (r: Result<(), ErrorCode>)
        requires
            old(self).spec_input() is Some ==> old(self).spec_input()->Some_0.wf(),
        ensures
            final (self).qid() == old(self).qid(),
            final (self).did() == old(self).did(),
            final (self).spec_channel() == old(self).spec_channel(),
            final (self).spec_input() is None,
            old(self).spec_input() is None ==> {
                &&& r is Ok
                &&& *final (self) == *old(self)
            },
            old(self).spec_input() is Some ==> ({
                let b = old(self).spec_input()->Some_0;
                &&& (b.spec_is_empty() ==> r is Ok
                    && final (self).spec_output() == old(self).spec_output())
                &&& (!b.spec_is_empty() && b.spec_dict_encoded()
                    ==> r == Err::<(), ErrorCode>(ErrorCode::UnImplement)
                    && final (self).spec_output() == old(self).spec_output())
                &&& (!b.spec_is_empty() && !b.spec_dict_encoded() ==> r is Ok
                    && final (self).spec_output() == Some(frame_bytes(b)))
            }),
    {
        let taken = self.input_data.take();
        if let Some(data_block) = taken {
            if data_block.is_empty() {
                return Ok(());
            }
            if data_block.is_dict_encoded() {
                return Err(ErrorCode::UnImplement);
            }
            let values = serialize_block(&data_block);
            self.output_data = Some(values);
        }
        Ok(())
    }

    /// The suspending step: deliver the pending frame once the channel has
    /// room again. A send on a channel that closed in the meantime is a
    /// fatal transport failure; a channel still full leaves the frame
    /// pending for another pass.
    pub fn async_process(&mut self, mgr: &mut ExchangeManager) -> (r: Result<(), ErrorCode>)
        requires
            old(mgr).wf(),
            old(self).resolved_ok(old(mgr)),
            old(self).spec_output() is Some ==> old(self).spec_channel() is Some,
        ensures
            final (self).qid() == old(self).qid(),
            final (self).did() == old(self).did(),
            final (self).spec_input() == old(self).spec_input(),
            final (self).spec_channel() == old(self).spec_channel(),
            final (mgr).wf(),
            final (self).resolved_ok(final (mgr)),
            final (mgr).spec_channel_capacity() == old(mgr).spec_channel_capacity(),
            final (mgr).num_entries() == old(mgr).num_entries(),
            old(self).spec_output() is None ==> {
                &&& r is Ok
                &&& *final (self) == *old(self)
                &&& *final (mgr) == *old(mgr)
            },
            old(self).spec_output() is Some ==> ({
                let ci = old(self).spec_channel()->Some_0 as int;
                let fr0 = old(mgr).frames_at(ci);
                let cl0 = old(mgr).closed_at(ci);
                let cap = old(mgr).spec_channel_capacity();
                &&& forall|j: int|
                    0 <= j < old(mgr).num_entries() && j != ci ==> final (mgr).spec_entries()[j]
                        == old(mgr).spec_entries()[j]
                &&& final (mgr).cap_at(ci) == old(mgr).cap_at(ci)
                &&& final (mgr).closed_at(ci) == cl0
                &&& (cl0 ==> {
                    &&& r == Err::<(), ErrorCode>(ErrorCode::SendClosed)
                    &&& final (mgr).frames_at(ci) == fr0
                    &&& final (self).spec_output() is None
                })
                &&& (!cl0 && fr0.len() >= cap ==> {
                    &&& r is Ok
                    &&& final (mgr).frames_at(ci) == fr0
                    &&& final (self).spec_output() == old(self).spec_output()
                })
                &&& (!cl0 && fr0.len() < cap ==> {
                    &&& r is Ok
                    &&& final (mgr).frames_at(ci) == fr0.push(old(self).spec_output()->Some_0)
                    &&& final (self).spec_output() is None
                })
            }),
    {
        if self.output_data.is_some() {
            let output = self.output_data.take().unwrap();
            if let Some(idx) = self.channel {
                match mgr.try_send_on(idx, output) {
                    TrySendOutcome::Sent => {},
                    TrySendOutcome::Closed(_) => {
                        return Err(ErrorCode::SendClosed);
                    },
                    TrySendOutcome::Full(f) => {
                        self.output_data = Some(f);
                    },
                }
            }
        }
        Ok(())
    }
}

} // verus!
