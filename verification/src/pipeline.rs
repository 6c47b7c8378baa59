//! A local query fragment and the scheduler that drives it to completion.
//!
//! The pipeline here is a linear fragment: a block source feeding, through
//! one flow-controlled port, a merge-exchange sink. The scheduler pumps the
//! sink's decision function and dispatches on the reported event: `Sync`
//! runs the CPU step, `Async` hands the blocked send to the reactor (the
//! transport drains one frame, completing the suspended delivery), and
//! `NeedData` gives the producer its turn. The loop is proved to terminate,
//! and on success every processor is finished, no block is left stranded in
//! a port, and the frames delivered plus the frames still queued are
//! exactly the wire frames of the non-empty source blocks, in order.
//!
//! A failing step aborts the whole fragment: every port is force-finished,
//! the query's exchange channels are torn down, and the error is surfaced
//! to the caller; partial output is not rolled back.

use crate::block::ColumnarBlock;
use crate::errors::ErrorCode;
use crate::frame::{block_frames, frames_of_blocks};
use crate::manager::ExchangeManager;
use crate::port::Port;
use crate::processor::Event;
use crate::sink::ExchangeMergeSink;
use crate::source::BlockSource;
use vstd::prelude::*;

verus! {

/// The views of a sequence of delivered frames.
pub open spec fn frames_view(v: Seq<Vec<u8>>) -> Seq<Seq<u8>> {
    Seq::new(v.len(), |i: int| v[i]@)
}

/// A one-fragment pipeline: a source, the port wiring it to the sink, and
/// the exchange sink at the tail.
pub struct Pipeline {
    pub source: BlockSource,
    pub port: Port,
    pub sink: ExchangeMergeSink,
}

/// The frame a pending sink output stands for.
pub open spec fn opt_frame_seq(o: Option<Seq<u8>>) -> Seq<Seq<u8>> {
    match o {
        Some(f) => seq![f],
        None => Seq::empty(),
    }
}

/// The frames a buffered sink input block still owes downstream.
pub open spec fn opt_block_frames(o: Option<ColumnarBlock>) -> Seq<Seq<u8>> {
    match o {
        Some(b) => block_frames(b),
        None => Seq::empty(),
    }
}

/// The frames the block waiting in a port slot still owes downstream.
pub open spec fn slot_frames(p: &Port) -> Seq<Seq<u8>> {
    if p.spec_has_data() {
        block_frames(p.pushed()[p.pulled_count() as int])
    } else {
        Seq::empty()
    }
}

/// Every frame the pipeline still owes its destination, in delivery order:
/// the pending serialized frame, then the buffered input block's frame,
/// then the in-flight port block's frame, then those of the blocks the
/// source has not emitted yet.
pub open spec fn inflight_frames(p: &Pipeline) -> Seq<Seq<u8>> {
    opt_frame_seq(p.sink.spec_output()) + opt_block_frames(p.sink.spec_input()) + slot_frames(
        &p.port,
    ) + frames_of_blocks(p.source.remaining())
}

/// Whether a block is one the exchange sink refuses: non-empty, and its
/// serialization would need dictionary pages.
pub open spec fn refused_block(b: ColumnarBlock) -> bool {
    !b.spec_is_empty() && b.spec_dict_encoded()
}

/// Whether none of the blocks is one the sink refuses: exactly the inputs
/// on which a run of the scheduler owes success.
pub open spec fn no_refused_blocks(s: Seq<ColumnarBlock>) -> bool {
    forall|i: int| 0 <= i < s.len() ==> !refused_block(#[trigger] s[i])
}

/// The scheduler's termination measure: every dispatched event strictly
/// shrinks it, so a pipeline whose destination stays open finishes in
/// finitely many steps.
pub open spec fn pipeline_measure(p: &Pipeline) -> int {
    16 * p.source.remaining().len() + (if p.port.spec_has_data() {
        8int
    } else {
        0int
    }) + (if p.sink.spec_input() is Some {
        4int
    } else {
        0int
    }) + (if !p.port.spec_is_finished() {
        2int
    } else {
        0int
    }) + (if p.sink.spec_output() is Some {
        1int
    } else {
        0int
    })
}

impl Pipeline {
    /// Structural invariant: the port is well-formed and every block held
    /// anywhere in the fragment is well-formed.
    pub open spec fn wf(&self) -> bool {
        &&& self.port.wf()
        &&& self.source.wf()
        &&& (self.sink.spec_input() is Some ==> self.sink.spec_input()->Some_0.wf())
        &&& (self.port.spec_has_data() ==> self.port.pushed()[self.port.pulled_count() as int].wf())
    }

    /// A pipeline that has not run yet: nothing buffered, nothing pulled,
    /// the publish channel not resolved.
    pub open spec fn is_fresh(&self) -> bool {
        &&& self.port.pushed().len() == 0
        &&& self.port.pulled_count() == 0
        &&& !self.port.spec_is_finished()
        &&& !self.port.spec_needs_data()
        &&& self.port.spec_slot_free()
        &&& self.sink.spec_input() is None
        &&& self.sink.spec_output() is None
        &&& self.sink.spec_channel() is None
    }

    /// Wires a source and a sink together with a fresh port.
    pub fn new(source: BlockSource, sink: ExchangeMergeSink) -> (p: Pipeline)
        ensures
            p.source == source,
            p.sink == sink,
            p.port.wf(),
            p.port.pushed().len() == 0,
            p.port.pulled_count() == 0,
            !p.port.spec_is_finished(),
            !p.port.spec_needs_data(),
            p.port.spec_slot_free(),
            !p.port.spec_has_data(),
    {
        Pipeline { source, port: Port::new(), sink }
    }
}

/// Aborts a fragment after a failed step: the port is force-finished and
/// every publish channel of the query is closed and unregistered.
fn abort_fragment(p: &mut Pipeline, mgr: &mut ExchangeManager)
    requires
        old(mgr).wf(),
    ensures
        final (mgr).wf(),
        final (mgr).spec_channel_capacity() == old(mgr).spec_channel_capacity(),
        final (p).sink == old(p).sink,
        final (p).source == old(p).source,
        final (p).port.spec_is_finished(),
        forall|dd: Seq<char>| !final (mgr).has_key(final (p).sink.qid(), dd),
{
    p.port.finish();
    mgr.cancel_query(p.sink.query_id_ref());
    proof {
        assert forall|dd: Seq<char>| !mgr.has_key(p.sink.qid(), dd) by {
            abort_no_key(mgr, p.sink.qid(), dd);
        }
    }
}

/// Drives the pipeline until every processor reports `Finished`, or a step
/// fails. When it succeeds and the destination was open, the source is
/// exhausted, no block is stranded `HasData` in the port, the sink's
/// buffers are empty, and the frames handed to the transport (`delivered`)
/// followed by the frames still queued in the publish channel are exactly
/// the channel's initial frames followed by one wire frame per non-empty
/// source block, in emission order; success is owed whenever no source
/// block is one the sink refuses. On failure the fragment is aborted: the
/// port is force-finished and the query's channels are torn down.
#[verifier::rlimit(100)]
#[verifier::loop_isolation(false)]
pub fn execute(p: &mut Pipeline, mgr: &mut ExchangeManager, delivered: &mut Vec<Vec<u8>>) -> (r:
    Result<(), ErrorCode>)
    requires
        old(p).wf(),
        old(p).is_fresh(),
        old(mgr).wf(),
        old(delivered)@.len() == 0,
    ensures
        final (mgr).wf(),
        final (mgr).spec_channel_capacity() == old(mgr).spec_channel_capacity(),
        final (p).sink.qid() == old(p).sink.qid(),
        final (p).sink.did() == old(p).sink.did(),
        ({
            let q = old(p).sink.qid();
            let d = old(p).sink.did();
            let cl0 = old(mgr).closed_before(q, d);
            let fr0 = old(mgr).frames_before(q, d);
            let total = frames_of_blocks(old(p).source.remaining());
            &&& (r is Ok ==> {
                &&& final (p).port.spec_is_finished()
                &&& !final (p).port.spec_has_data()
                &&& final (p).sink.spec_output() is None
            })
            &&& (r is Ok && !cl0 ==> {
                &&& final (p).source.remaining().len() == 0
                &&& final (p).sink.spec_input() is None
                &&& (final (p).sink.spec_channel() is None ==> {
                    &&& *final (mgr) == *old(mgr)
                    &&& final (delivered)@ == old(delivered)@
                    &&& total == Seq::<Seq<u8>>::empty()
                })
                &&& (final (p).sink.spec_channel() is Some ==> {
                    let ci = final (p).sink.spec_channel()->Some_0 as int;
                    &&& ci < final (mgr).num_entries()
                    &&& final (mgr).key_matches(ci, q, d)
                    &&& !final (mgr).closed_at(ci)
                    &&& frames_view(final (delivered)@) + final (mgr).frames_at(ci) == fr0 + total
                })
            })
            &&& (r is Err ==> {
                &&& r == Err::<(), ErrorCode>(ErrorCode::UnImplement)
                &&& final (p).port.spec_is_finished()
                &&& !final (mgr).has_key(q, d)
                &&& !no_refused_blocks(old(p).source.remaining())
            })
            &&& (no_refused_blocks(old(p).source.remaining()) ==> r is Ok)
        }),
{
    let ghost q = old(p).sink.qid();
    let ghost d = old(p).sink.did();
    let ghost cl0 = old(mgr).closed_before(q, d);
    let ghost fr0 = old(mgr).frames_before(q, d);
    let ghost cap0 = old(mgr).spec_channel_capacity();
    let ghost total = frames_of_blocks(old(p).source.remaining());
    let ghost blocks0 = old(p).source.remaining();
    proof {
        crate::port::lemma_port_empty_slot(old(p).port);
        assert(inflight_frames(old(p)) =~= total);
    }
    loop
        invariant
            p.wf(),
            mgr.wf(),
            p.sink.resolved_ok(mgr),
            p.sink.qid() == q,
            p.sink.did() == d,
            q == old(p).sink.qid(),
            d == old(p).sink.did(),
            mgr.spec_channel_capacity() == cap0,
            cap0 == old(mgr).spec_channel_capacity(),
            cl0 == old(mgr).closed_before(q, d),
            fr0 == old(mgr).frames_before(q, d),
            total == frames_of_blocks(old(p).source.remaining()),
            blocks0 == old(p).source.remaining(),
            old(delivered)@.len() == 0,
            no_refused_blocks(blocks0) ==> {
                &&& no_refused_blocks(p.source.remaining())
                &&& (p.sink.spec_input() is Some ==> !refused_block(
                    p.sink.spec_input()->Some_0,
                ))
                &&& (p.port.spec_has_data() ==> !refused_block(
                    p.port.pushed()[p.port.pulled_count() as int],
                ))
            },
            p.port.spec_is_finished() ==> p.source.remaining().len() == 0
                && p.port.spec_slot_free(),
            p.sink.spec_channel() is None ==> {
                &&& *mgr == *old(mgr)
                &&& delivered@.len() == 0
                &&& inflight_frames(p) == total
            },
            p.sink.spec_channel() is Some ==> ({
                let ci = p.sink.spec_channel()->Some_0 as int;
                &&& mgr.closed_at(ci) == cl0
                &&& (!cl0 ==> frames_view(delivered@) + mgr.frames_at(ci) + inflight_frames(p)
                    == fr0 + total)
            }),
        decreases pipeline_measure(p),
    {
        let ghost pre_p = *p;
        let ghost pre_mgr = *mgr;
        let e = match p.sink.event(&mut p.port, mgr) {
            Ok(ev) => ev,
            Err(_) => vstd::pervasive::unreached(),
        };
        proof {
            crate::port::lemma_port_empty_slot(pre_p.port);
            crate::port::lemma_port_empty_slot(p.port);
            if pre_p.sink.spec_output() is None {
                lemma_consume_conserves(
                    pre_p.sink.spec_input(),
                    pre_p.port,
                    p.sink.spec_input(),
                    p.port,
                    e,
                );
                if p.sink.spec_channel() is Some {
                    let ci = p.sink.spec_channel()->Some_0 as int;
                    if !cl0 {
                        assert(frames_view(delivered@) + mgr.frames_at(ci) + inflight_frames(p)
                            =~= fr0 + total);
                    }
                } else {
                    assert(inflight_frames(p) =~= total);
                }
            } else {
                assert(crate::sink::pre_closed(&pre_p.sink, &pre_mgr) == cl0);
                if !cl0 {
                    let ci = p.sink.spec_channel()->Some_0 as int;
                    let f = pre_p.sink.spec_output()->Some_0;
                    let frpre = crate::sink::pre_frames(&pre_p.sink, &pre_mgr);
                    if pre_p.sink.spec_channel() is None {
                        assert(frpre == fr0);
                        assert(frames_view(delivered@) =~= Seq::<Seq<u8>>::empty());
                    }
                    assert(frames_view(delivered@) + frpre + inflight_frames(&pre_p) =~= fr0
                        + total);
                    if frpre.len() < cap0 {
                        assert(mgr.frames_at(ci) == frpre.push(f));
                        assert(p.sink.spec_output() is None);
                        lemma_consume_conserves(
                            pre_p.sink.spec_input(),
                            pre_p.port,
                            p.sink.spec_input(),
                            p.port,
                            e,
                        );
                        assert(opt_frame_seq(pre_p.sink.spec_output()) =~= seq![f]);
                        assert(frames_view(delivered@) + mgr.frames_at(ci) + inflight_frames(p)
                            =~= fr0 + total);
                    } else {
                        assert(e == Event::Async);
                        assert(mgr.frames_at(ci) == frpre);
                        assert(inflight_frames(p) =~= inflight_frames(&pre_p));
                        assert(frames_view(delivered@) + mgr.frames_at(ci) + inflight_frames(p)
                            =~= fr0 + total);
                    }
                }
            }
        }
        let ghost mid_p = *p;
        let ghost mid_mgr = *mgr;
        match e {
            Event::Finished => {
                proof {
                    if !cl0 {
                        assert(p.port.spec_is_finished());
                        assert(p.source.remaining().len() == 0);
                        assert(frames_of_blocks(p.source.remaining()) == Seq::<Seq<u8>>::empty());
                        assert(inflight_frames(p) =~= Seq::<Seq<u8>>::empty());
                        if p.sink.spec_channel() is Some {
                            let ci = p.sink.spec_channel()->Some_0 as int;
                            assert(frames_view(delivered@) + mgr.frames_at(ci) + inflight_frames(p)
                                =~= frames_view(delivered@) + mgr.frames_at(ci));
                        } else {
                            assert(total =~= Seq::<Seq<u8>>::empty());
                            assert(delivered@ =~= old(delivered)@);
                        }
                    }
                }
                return Ok(());
            },
            Event::Sync => {
                match p.sink.process() {
                    Ok(()) => {
                        proof {
                            let b = mid_p.sink.spec_input()->Some_0;
                            assert(mid_p.sink.spec_input() is Some);
                            assert(mid_p.sink.spec_output() is None);
                            if p.sink.spec_channel() is Some {
                                let ci = p.sink.spec_channel()->Some_0 as int;
                                if !cl0 {
                                    assert(frames_view(delivered@) + mgr.frames_at(ci)
                                        + inflight_frames(p) =~= frames_view(delivered@)
                                        + mid_mgr.frames_at(ci) + inflight_frames(&mid_p));
                                }
                            } else {
                                assert(inflight_frames(p) =~= inflight_frames(&mid_p));
                            }
                        }
                    },
                    Err(err) => {
                        proof {
                            let b = mid_p.sink.spec_input()->Some_0;
                            assert(mid_p.sink.spec_input() is Some && refused_block(b));
                            if no_refused_blocks(blocks0) {
                                if pre_p.sink.spec_input() is Some {
                                    assert(b == pre_p.sink.spec_input()->Some_0);
                                } else {
                                    assert(b == pre_p.port.pushed()[pre_p.port.pulled_count()
                                        as int]);
                                }
                                assert(false);
                            }
                        }
                        abort_fragment(p, mgr);
                        return Err(err);
                    },
                }
            },
            Event::Async => {
                let ci = match p.sink.channel_index() {
                    Some(i) => i,
                    None => vstd::pervasive::unreached(),
                };
                let ghost pre_dv = delivered@;
                let f = match mgr.try_recv_on(ci) {
                    Some(f) => f,
                    None => vstd::pervasive::unreached(),
                };
                delivered.push(f);
                proof {
                    assert(frames_view(delivered@) =~= frames_view(pre_dv).push(f@));
                    assert(frames_view(pre_dv).push(f@) + mgr.frames_at(ci as int) =~= frames_view(
                        pre_dv,
                    ) + mid_mgr.frames_at(ci as int));
                    assert(frames_view(delivered@) + mgr.frames_at(ci as int) + inflight_frames(p)
                        =~= fr0 + total);
                }
                let ghost rec_mgr = *mgr;
                proof {
                    assert(p.sink.resolved_ok(mgr));
                }
                match p.sink.async_process(mgr) {
                    Ok(()) => {
                        proof {
                            let f2 = mid_p.sink.spec_output()->Some_0;
                            assert(mgr.frames_at(ci as int) == rec_mgr.frames_at(ci as int).push(
                                f2,
                            ));
                            assert(p.sink.spec_output() is None);
                            assert(opt_frame_seq(mid_p.sink.spec_output()) =~= seq![f2]);
                            assert(frames_view(delivered@) + mgr.frames_at(ci as int)
                                + inflight_frames(p) =~= fr0 + total);
                        }
                    },
                    Err(err) => {
                        proof {
                            assert(rec_mgr.closed_at(ci as int) == cl0);
                            assert(!cl0);
                            assert(false);
                        }
                        abort_fragment(p, mgr);
                        return Err(err);
                    },
                }
            },
            Event::NeedData => {
                let se = p.source.event(&p.port);
                proof {
                    assert(!p.port.spec_is_finished());
                    assert(se == Event::Sync);
                }
                match se {
                    Event::Sync => {
                        let ghost rem = p.source.remaining();
                        p.source.process(&mut p.port);
                        proof {
                            crate::port::lemma_port_empty_slot(p.port);
                            if rem.len() > 0 {
                                assert(frames_of_blocks(rem) == block_frames(rem[0])
                                    + frames_of_blocks(rem.drop_first()));
                                assert(slot_frames(&p.port) == block_frames(rem[0]));
                                if no_refused_blocks(blocks0) {
                                    assert(!refused_block(rem[0]));
                                    assert forall|i: int|
                                        0 <= i < p.source.remaining().len() implies !refused_block(
                                        #[trigger] p.source.remaining()[i],
                                    ) by {
                                        assert(p.source.remaining()[i] == rem[i + 1]);
                                    };
                                }
                            }
                            if p.sink.spec_channel() is Some {
                                let ci = p.sink.spec_channel()->Some_0 as int;
                                if !cl0 {
                                    assert(frames_view(delivered@) + mgr.frames_at(ci)
                                        + inflight_frames(p) =~= frames_view(delivered@)
                                        + mid_mgr.frames_at(ci) + inflight_frames(&mid_p));
                                }
                            } else {
                                assert(inflight_frames(p) =~= inflight_frames(&mid_p));
                            }
                        }
                    },
                    _ => {},
                }
            },
        }
    }
}

/// Across one consume transition of the sink (buffering kept, the port
/// drained, or need declared) the frames owed by the buffered input block
/// and the port slot together are conserved.
proof fn lemma_consume_conserves(
    oi: Option<ColumnarBlock>,
    op: Port,
    ni: Option<ColumnarBlock>,
    np: Port,
    e: Event,
)
    requires
        crate::sink::consume_step(oi, op, ni, np, e),
        op.wf(),
    ensures
        opt_block_frames(ni) + slot_frames(&np) == opt_block_frames(oi) + slot_frames(&op),
{
    crate::port::lemma_port_empty_slot(op);
    crate::port::lemma_port_empty_slot(np);
    if oi is Some {
        assert(opt_block_frames(ni) + slot_frames(&np) =~= opt_block_frames(oi) + slot_frames(&op));
    } else if op.spec_is_finished() {
        assert(opt_block_frames(ni) + slot_frames(&np) =~= opt_block_frames(oi) + slot_frames(&op));
    } else if op.spec_has_data() {
        assert(ni == Some(op.pushed()[op.pulled_count() as int]));
        assert(!np.spec_has_data());
        assert(opt_block_frames(ni) + slot_frames(&np) =~= opt_block_frames(oi) + slot_frames(&op));
    } else {
        assert(!np.spec_has_data());
        assert(opt_block_frames(ni) + slot_frames(&np) =~= opt_block_frames(oi) + slot_frames(&op));
    }
}

/// After a query's channels are torn down, no channel is registered under
/// any of its keys.
proof fn abort_no_key(m: &ExchangeManager, q: Seq<char>, d: Seq<char>)
    requires
        forall|i: int|
            0 <= i < m.num_entries() ==> crate::manager::entry_query_id(
                #[trigger] m.spec_entries()[i],
            ) != q,
    ensures
        !m.has_key(q, d),
{
    assert forall|i: int| 0 <= i < m.num_entries() implies !m.key_matches(i, q, d) by {
        assert(crate::manager::entry_query_id(m.spec_entries()[i]) != q);
    }
}

} // verus!
