//! The process-wide exchange registry: one bounded publish channel per
//! (query identifier, destination identifier) pair, created lazily on first
//! lookup and reused for the rest of the query, torn down when the query
//! finishes or is cancelled. Creation is idempotent: a lookup for a key that
//! already has a channel returns the existing one and changes nothing.

use crate::channel::{channel_cap, channel_closed, channel_frames, PublishChannel, TrySendOutcome};
use vstd::prelude::*;
use vstd::seq_lib::*;

verus! {

/// One registered publish channel with its key.
pub struct ChannelEntry {
    query_id: String,
    destination_id: String,
    channel: PublishChannel,
}

/// The query identifier of a registry entry.
pub closed spec fn entry_query_id(e: ChannelEntry) -> Seq<char> {
    e.query_id@
}

/// The destination identifier of a registry entry.
pub closed spec fn entry_destination_id(e: ChannelEntry) -> Seq<char> {
    e.destination_id@
}

/// The registry mapping (query identifier, destination identifier) to a
/// bounded publish channel.
pub struct ExchangeManager {
    entries: Vec<ChannelEntry>,
    channel_capacity: usize,
}

impl ExchangeManager {
    /// How many channels are registered.
    pub closed spec fn num_entries(&self) -> nat {
        self.entries@.len()
    }

    /// The registered entries, in registration order.
    pub closed spec fn spec_entries(&self) -> Seq<ChannelEntry> {
        self.entries@
    }

    /// The query identifier of entry `i`.
    pub open spec fn qid_at(&self, i: int) -> Seq<char> {
        entry_query_id(self.spec_entries()[i])
    }

    /// The destination identifier of entry `i`.
    pub open spec fn did_at(&self, i: int) -> Seq<char> {
        entry_destination_id(self.spec_entries()[i])
    }

    /// The frames queued in the channel of entry `i`, oldest first.
    pub closed spec fn frames_at(&self, i: int) -> Seq<Seq<u8>> {
        channel_frames(&self.entries@[i].channel)
    }

    /// The capacity of the channel of entry `i`.
    pub closed spec fn cap_at(&self, i: int) -> nat {
        channel_cap(&self.entries@[i].channel)
    }

    /// Whether the channel of entry `i` has been closed.
    pub closed spec fn closed_at(&self, i: int) -> bool {
        channel_closed(&self.entries@[i].channel)
    }

    /// The capacity every newly created channel gets.
    pub closed spec fn spec_channel_capacity(&self) -> nat {
        self.channel_capacity as nat
    }

    /// Whether entry `i` is keyed by (`q`, `d`).
    pub open spec fn key_matches(&self, i: int, q: Seq<char>, d: Seq<char>) -> bool {
        self.qid_at(i) == q && self.did_at(i) == d
    }

    /// Whether some entry is keyed by (`q`, `d`).
    pub open spec fn has_key(&self, q: Seq<char>, d: Seq<char>) -> bool {
        exists|i: int| 0 <= i < self.num_entries() && self.key_matches(i, q, d)
    }

    /// Registry invariant: keys are unique, every channel was created with
    /// the registry's capacity, and no queue ever exceeds it.
    pub open spec fn wf(&self) -> bool {
        &&& self.spec_channel_capacity() >= 1
        &&& unique_keys(self.spec_entries())
        &&& forall|i: int|
            0 <= i < self.num_entries() ==> #[trigger] self.cap_at(i)
                == self.spec_channel_capacity()
        &&& forall|i: int|
            0 <= i < self.num_entries() ==> (#[trigger] self.frames_at(i)).len() <= self.cap_at(i)
    }

    /// The index the channel for (`q`, `d`) has, or will get on its lazy
    /// creation: the unique existing entry if the key is registered, the
    /// next free slot otherwise.
    pub open spec fn resolved_index(&self, q: Seq<char>, d: Seq<char>) -> int {
        if self.has_key(q, d) {
            choose|i: int| 0 <= i < self.num_entries() && self.key_matches(i, q, d)
        } else {
            self.num_entries() as int
        }
    }

    /// The frames already queued for (`q`, `d`), before any lazy creation:
    /// empty when no channel is registered under the key yet.
    pub open spec fn frames_before(&self, q: Seq<char>, d: Seq<char>) -> Seq<Seq<u8>> {
        if self.has_key(q, d) {
            self.frames_at(self.resolved_index(q, d))
        } else {
            Seq::empty()
        }
    }

    /// Whether the channel for (`q`, `d`) is already closed; a channel yet
    /// to be created is open.
    pub open spec fn closed_before(&self, q: Seq<char>, d: Seq<char>) -> bool {
        if self.has_key(q, d) {
            self.closed_at(self.resolved_index(q, d))
        } else {
            false
        }
    }

    /// An empty registry whose channels will hold at most
    /// `channel_capacity` frames each.
    pub fn new(channel_capacity: usize) -> (m: ExchangeManager)
        requires
            channel_capacity >= 1,
        ensures
            m.wf(),
            m.num_entries() == 0,
            m.spec_channel_capacity() == channel_capacity,
    {
        ExchangeManager { entries: Vec::new(), channel_capacity }
    }

    /// Returns the index of the publish channel for (`query_id`,
    /// `destination_id`), creating it if, and only if, no channel is
    /// registered under that key yet. A repeated lookup for the same key
    /// returns the same entry and leaves the registry unchanged.
    pub fn get_or_create_publish_channel(&mut self, query_id: &String, destination_id: &String) -> (
        i: usize)
        requires
            old(self).wf(),
        ensures
            final (self).wf(),
            final (self).spec_channel_capacity() == old(self).spec_channel_capacity(),
            i < final (self).num_entries(),
            final (self).key_matches(i as int, query_id@, destination_id@),
            i == old(self).resolved_index(query_id@, destination_id@),
            final (self).frames_at(i as int) == old(self).frames_before(query_id@, destination_id@),
            final (self).closed_at(i as int) == old(self).closed_before(query_id@, destination_id@),
            final (self).cap_at(i as int) == old(self).spec_channel_capacity(),
            final (self).num_entries() == if old(self).has_key(query_id@, destination_id@) {
                old(self).num_entries()
            } else {
                old(self).num_entries() + 1
            },
            forall|j: int|
                0 <= j < old(self).num_entries() ==> final (self).spec_entries()[j] == old(
                    self,
                ).spec_entries()[j],
            old(self).has_key(query_id@, destination_id@) ==> {
                &&& *final (self) == *old(self)
                &&& old(self).key_matches(i as int, query_id@, destination_id@)
            },
            !old(self).has_key(query_id@, destination_id@) ==> {
                &&& i == old(self).num_entries()
                &&& final (self).num_entries() == old(self).num_entries() + 1
                &&& final (self).spec_entries().subrange(0, i as int) == old(self).spec_entries()
                &&& final (self).frames_at(i as int) == Seq::<Seq<u8>>::empty()
                &&& !final (self).closed_at(i as int)
                &&& final (self).cap_at(i as int) == final (self).spec_channel_capacity()
            },
    {
        let n = self.entries.len();
        let mut j: usize = 0;
        while j < n
            invariant
                *self == *old(self),
                old(self).wf(),
                n == self.num_entries(),
                0 <= j <= n,
                forall|k: int| 0 <= k < j ==> !self.key_matches(k, query_id@, destination_id@),
            decreases n - j,
        {
            if self.entries[j].query_id == *query_id && self.entries[j].destination_id
                == *destination_id {
                assert(self.key_matches(j as int, query_id@, destination_id@));
                assert(self.has_key(query_id@, destination_id@));
                proof {
                    let c = self.resolved_index(query_id@, destination_id@);
                    assert(self.key_matches(c, query_id@, destination_id@));
                    assert(c == j as int);
                }
                return j;
            }
            j = j + 1;
        }
        assert(!self.has_key(query_id@, destination_id@));
        let channel = PublishChannel::create(self.channel_capacity);
        let entry = ChannelEntry {
            query_id: query_id.clone(),
            destination_id: destination_id.clone(),
            channel,
        };
        self.entries.push(entry);
        proof {
            let oe = old(self).spec_entries();
            let ne = self.spec_entries();
            assert(ne.subrange(0, n as int) =~= oe);
            assert(forall|k: int| 0 <= k < n ==> #[trigger] ne[k] == oe[k]);
            assert forall|k: int| 0 <= k < ne.len() implies #[trigger] self.cap_at(k)
                == self.spec_channel_capacity() by {
                if k < n {
                    assert(ne[k] == oe[k]);
                    assert(old(self).cap_at(k) == old(self).spec_channel_capacity());
                }
            }
            assert forall|k: int| 0 <= k < ne.len() implies (#[trigger] self.frames_at(k)).len()
                <= self.cap_at(k) by {
                if k < n {
                    assert(ne[k] == oe[k]);
                    assert(old(self).frames_at(k).len() <= old(self).cap_at(k));
                }
            }
            assert forall|a: int, b: int|
                0 <= a < ne.len() && 0 <= b < ne.len() && entry_query_id(#[trigger] ne[a])
                    == entry_query_id(#[trigger] ne[b]) && entry_destination_id(ne[a])
                    == entry_destination_id(ne[b]) implies a == b by {
                if a < oe.len() && b < oe.len() {
                    assert(ne[a] == oe[a] && ne[b] == oe[b]);
                } else if a < oe.len() && b == oe.len() {
                    assert(ne[a] == oe[a]);
                    assert(old(self).key_matches(a, query_id@, destination_id@));
                } else if b < oe.len() && a == oe.len() {
                    assert(ne[b] == oe[b]);
                    assert(old(self).key_matches(b, query_id@, destination_id@));
                }
            }
        }
        n
    }

    /// How many channels are registered.
    pub fn num_channels(&self) -> (r: usize)
        ensures
            r == self.num_entries(),
    {
        self.entries.len()
    }

    /// Whether the channel of entry `i` has been closed.
    pub fn is_closed_on(&self, i: usize) -> (r: bool)
        requires
            i < self.num_entries(),
        ensures
            r == self.closed_at(i as int),
    {
        self.entries[i].channel.is_closed()
    }

    /// Closes the channel of entry `i` without unregistering it: later
    /// sends on it fail, queued frames stay drainable.
    pub fn close_on(&mut self, i: usize)
        requires
            old(self).wf(),
            i < old(self).num_entries(),
        ensures
            final (self).wf(),
            final (self).num_entries() == old(self).num_entries(),
            final (self).spec_channel_capacity() == old(self).spec_channel_capacity(),
            forall|j: int|
                0 <= j < old(self).num_entries() && j != i ==> final (self).spec_entries()[j]
                    == old(self).spec_entries()[j],
            final (self).qid_at(i as int) == old(self).qid_at(i as int),
            final (self).did_at(i as int) == old(self).did_at(i as int),
            final (self).cap_at(i as int) == old(self).cap_at(i as int),
            final (self).frames_at(i as int) == old(self).frames_at(i as int),
            final (self).closed_at(i as int),
    {
        let entry = &mut self.entries[i];
        entry.channel.close();
        proof {
            assert(self.cap_at(i as int) == old(self).cap_at(i as int));
            assert(old(self).frames_at(i as int).len() <= old(self).cap_at(i as int));
            assert(self.frames_at(i as int).len() <= self.cap_at(i as int));
            lemma_pointwise_keys_wf(old(self), self, i as int);
        }
    }

    /// Non-blocking send of a frame on the channel of entry `i`; see
    /// `PublishChannel::try_send_frame` for the three outcomes.
    pub fn try_send_on(&mut self, i: usize, frame: Vec<u8>) -> (r: TrySendOutcome)
        requires
            old(self).wf(),
            i < old(self).num_entries(),
        ensures
            final (self).wf(),
            final (self).num_entries() == old(self).num_entries(),
            final (self).spec_channel_capacity() == old(self).spec_channel_capacity(),
            forall|j: int|
                0 <= j < old(self).num_entries() && j != i ==> final (self).spec_entries()[j]
                    == old(self).spec_entries()[j],
            final (self).qid_at(i as int) == old(self).qid_at(i as int),
            final (self).did_at(i as int) == old(self).did_at(i as int),
            final (self).cap_at(i as int) == old(self).cap_at(i as int),
            final (self).closed_at(i as int) == old(self).closed_at(i as int),
            old(self).closed_at(i as int) ==> {
                &&& r == TrySendOutcome::Closed(frame)
                &&& final (self).frames_at(i as int) == old(self).frames_at(i as int)
            },
            !old(self).closed_at(i as int) && old(self).frames_at(i as int).len() >= old(
                self,
            ).cap_at(i as int) ==> {
                &&& r == TrySendOutcome::Full(frame)
                &&& final (self).frames_at(i as int) == old(self).frames_at(i as int)
            },
            !old(self).closed_at(i as int) && old(self).frames_at(i as int).len() < old(self).cap_at(
                i as int,
            ) ==> {
                &&& r == TrySendOutcome::Sent
                &&& final (self).frames_at(i as int) == old(self).frames_at(i as int).push(frame@)
            },
    {
        let entry = &mut self.entries[i];
        let r = entry.channel.try_send_frame(frame);
        proof {
            assert(self.cap_at(i as int) == old(self).cap_at(i as int));
            assert(old(self).frames_at(i as int).len() <= old(self).cap_at(i as int));
            assert(self.frames_at(i as int).len() <= self.cap_at(i as int));
            lemma_pointwise_keys_wf(old(self), self, i as int);
        }
        r
    }

    /// Non-blocking receive from the channel of entry `i`: the transport
    /// side's accessor, popping the oldest queued frame if there is one.
    pub fn try_recv_on(&mut self, i: usize) -> (r: Option<Vec<u8>>)
        requires
            old(self).wf(),
            i < old(self).num_entries(),
        ensures
            final (self).wf(),
            final (self).num_entries() == old(self).num_entries(),
            final (self).spec_channel_capacity() == old(self).spec_channel_capacity(),
            forall|j: int|
                0 <= j < old(self).num_entries() && j != i ==> final (self).spec_entries()[j]
                    == old(self).spec_entries()[j],
            final (self).qid_at(i as int) == old(self).qid_at(i as int),
            final (self).did_at(i as int) == old(self).did_at(i as int),
            final (self).cap_at(i as int) == old(self).cap_at(i as int),
            final (self).closed_at(i as int) == old(self).closed_at(i as int),
            old(self).frames_at(i as int).len() == 0 ==> {
                &&& r is None
                &&& final (self).frames_at(i as int) == old(self).frames_at(i as int)
            },
            old(self).frames_at(i as int).len() > 0 ==> {
                &&& r is Some
                &&& r->Some_0@ == old(self).frames_at(i as int)[0]
                &&& final (self).frames_at(i as int) == old(self).frames_at(i as int).drop_first()
            },
    {
        let entry = &mut self.entries[i];
        let r = entry.channel.try_recv_frame();
        proof {
            assert(self.cap_at(i as int) == old(self).cap_at(i as int));
            assert(old(self).frames_at(i as int).len() <= old(self).cap_at(i as int));
            assert(self.frames_at(i as int).len() <= self.cap_at(i as int));
            lemma_pointwise_keys_wf(old(self), self, i as int);
        }
        r
    }

    /// Tears down every channel of `query_id`: each is closed and its
    /// registry entry removed; channels of other queries survive untouched.
    pub fn cancel_query(&mut self, query_id: &String)
        requires
            old(self).wf(),
        ensures
            final (self).wf(),
            final (self).spec_channel_capacity() == old(self).spec_channel_capacity(),
            final (self).spec_entries() == old(self).spec_entries().filter(
                |e: ChannelEntry| entry_query_id(e) != query_id@,
            ),
            forall|i: int|
                0 <= i < final (self).num_entries() ==> entry_query_id(
                    #[trigger] final (self).spec_entries()[i],
                ) != query_id@,
    {
        let ghost pred = (|e: ChannelEntry| entry_query_id(e) != query_id@);
        let mut rest: Vec<ChannelEntry> = Vec::new();
        core::mem::swap(&mut rest, &mut self.entries);
        let ghost orig = rest@;
        proof {
            assert(orig.subrange(0, 0) =~= Seq::<ChannelEntry>::empty());
            reveal(Seq::filter);
        }
        while rest.len() > 0
            invariant
                pred == (|e: ChannelEntry| entry_query_id(e) != query_id@),
                rest@.len() <= orig.len(),
                rest@ == orig.subrange(orig.len() - rest@.len(), orig.len() as int),
                self.entries@ == orig.subrange(0, orig.len() - rest@.len()).filter(pred),
                self.channel_capacity == old(self).channel_capacity,
            decreases rest@.len(),
        {
            let ghost done = orig.len() - rest@.len();
            let ghost prefix = orig.subrange(0, done);
            let mut e = rest.remove(0);
            proof {
                assert(e == orig[done]);
                assert(rest@ =~= orig.subrange(orig.len() - rest@.len(), orig.len() as int));
                assert(orig.subrange(0, done + 1) =~= prefix.push(orig[done]));
                lemma_filter_push(prefix, pred, orig[done]);
            }
            if e.query_id == *query_id {
                e.channel.close();
            } else {
                self.entries.push(e);
            }
        }
        proof {
            assert(orig.subrange(0, orig.len() as int) =~= orig);
            lemma_filter_origin(orig, pred);
            lemma_filter_unique_keys(orig, pred);
            assert(old(self).spec_entries() == orig);
            let f = self.spec_entries();
            assert(f == orig.filter(pred));
            assert forall|k: int| 0 <= k < f.len() implies #[trigger] self.cap_at(k)
                == self.spec_channel_capacity() by {
                assert(orig.filter(pred)[k] == f[k]);
                let j = choose|j: int| 0 <= j < orig.len() && orig[j] == orig.filter(pred)[k];
                assert(orig[j] == f[k]);
                assert(old(self).cap_at(j) == old(self).spec_channel_capacity());
            }
            assert forall|k: int| 0 <= k < f.len() implies (#[trigger] self.frames_at(k)).len()
                <= self.cap_at(k) by {
                assert(orig.filter(pred)[k] == f[k]);
                let j = choose|j: int| 0 <= j < orig.len() && orig[j] == orig.filter(pred)[k];
                assert(orig[j] == f[k]);
                assert(old(self).frames_at(j).len() <= old(self).cap_at(j));
                assert(old(self).cap_at(j) == old(self).spec_channel_capacity());
            }
            assert forall|k: int| 0 <= k < f.len() implies entry_query_id(#[trigger] f[k])
                != query_id@ by {
                orig.lemma_filter_pred(pred, k);
                assert(orig.filter(pred)[k] == f[k]);
            }
        }
    }
}

/// Keys-unique predicate over a sequence of registry entries.
pub open spec fn unique_keys(s: Seq<ChannelEntry>) -> bool {
    forall|i: int, j: int|
        0 <= i < s.len() && 0 <= j < s.len() && entry_query_id(#[trigger] s[i]) == entry_query_id(
            #[trigger] s[j],
        ) && entry_destination_id(s[i]) == entry_destination_id(s[j]) ==> i == j
}

/// `filter` over a sequence extended by one element keeps the filtered
/// prefix and appends the element exactly when it satisfies the predicate.
proof fn lemma_filter_push(s: Seq<ChannelEntry>, pred: spec_fn(ChannelEntry) -> bool, e: ChannelEntry)
    ensures
        s.push(e).filter(pred) == if pred(e) {
            s.filter(pred).push(e)
        } else {
            s.filter(pred)
        },
{
    reveal(Seq::filter);
    assert(s.push(e).drop_last() =~= s);
}

/// Idempotent channel creation: in a well-formed registry no key has two
/// channels, so every lookup for one (query, destination) pair lands on the
/// same entry — which is also what `get_or_create_publish_channel` ensures
/// when the key is already registered: it returns that entry and changes
/// nothing.
pub proof fn lemma_no_duplicate_channel(m: &ExchangeManager, i: int, j: int)
    requires
        m.wf(),
        0 <= i < m.num_entries(),
        0 <= j < m.num_entries(),
        m.qid_at(i) == m.qid_at(j),
        m.did_at(i) == m.did_at(j),
    ensures
        i == j,
{
}

/// A registry that differs from a well-formed one only in the channel state
/// of one entry, within capacity, is well-formed again.
proof fn lemma_pointwise_keys_wf(o: &ExchangeManager, n: &ExchangeManager, i: int)
    requires
        o.wf(),
        0 <= i < o.num_entries(),
        n.num_entries() == o.num_entries(),
        n.spec_channel_capacity() == o.spec_channel_capacity(),
        forall|k: int|
            0 <= k < n.num_entries() && k != i ==> n.spec_entries()[k] == o.spec_entries()[k],
        n.qid_at(i) == o.qid_at(i),
        n.did_at(i) == o.did_at(i),
        n.cap_at(i) == o.cap_at(i),
        n.frames_at(i).len() <= n.cap_at(i),
    ensures
        n.wf(),
{
    let ne = n.spec_entries();
    let oe = o.spec_entries();
    assert forall|a: int, b: int|
        0 <= a < ne.len() && 0 <= b < ne.len() && entry_query_id(#[trigger] ne[a])
            == entry_query_id(#[trigger] ne[b]) && entry_destination_id(ne[a])
            == entry_destination_id(ne[b]) implies a == b by {
        assert(entry_query_id(ne[a]) == entry_query_id(oe[a]) && entry_destination_id(ne[a])
            == entry_destination_id(oe[a]));
        assert(entry_query_id(ne[b]) == entry_query_id(oe[b]) && entry_destination_id(ne[b])
            == entry_destination_id(oe[b]));
    }
    assert forall|k: int| 0 <= k < n.num_entries() implies #[trigger] n.cap_at(k)
        == n.spec_channel_capacity() by {
        if k != i {
            assert(ne[k] == oe[k]);
            assert(o.cap_at(k) == o.spec_channel_capacity());
        }
    }
    assert forall|k: int| 0 <= k < n.num_entries() implies (#[trigger] n.frames_at(k)).len()
        <= n.cap_at(k) by {
        if k != i {
            assert(ne[k] == oe[k]);
            assert(o.frames_at(k).len() <= o.cap_at(k));
        }
    }
}

/// Every entry that `filter` keeps stands somewhere in the unfiltered
/// sequence.
proof fn lemma_filter_origin(s: Seq<ChannelEntry>, pred: spec_fn(ChannelEntry) -> bool)
    ensures
        forall|i: int|
            0 <= i < s.filter(pred).len() ==> exists|k: int|
                0 <= k < s.len() && s[k] == #[trigger] s.filter(pred)[i],
    decreases s.len(),
{
    reveal(Seq::filter);
    if s.len() > 0 {
        let prev = s.drop_last();
        lemma_filter_origin(prev, pred);
        let f = s.filter(pred);
        let fd = prev.filter(pred);
        assert forall|i: int| 0 <= i < f.len() implies exists|k: int|
            0 <= k < s.len() && s[k] == #[trigger] f[i] by {
            if pred(s.last()) && i == f.len() - 1 {
                assert(s[s.len() - 1] == f[i]);
            } else {
                assert(f[i] == fd[i]);
                let k = choose|k: int| 0 <= k < prev.len() && prev[k] == fd[i];
                assert(s[k] == f[i]);
            }
        }
    }
}

/// Filtering a sequence whose keys are unique yields a sequence whose keys
/// are unique.
proof fn lemma_filter_unique_keys(s: Seq<ChannelEntry>, pred: spec_fn(ChannelEntry) -> bool)
    requires
        unique_keys(s),
    ensures
        unique_keys(s.filter(pred)),
    decreases s.len(),
{
    reveal(Seq::filter);
    if s.len() > 0 {
        let prev = s.drop_last();
        assert(unique_keys(prev)) by {
            assert(forall|i: int| 0 <= i < prev.len() ==> prev[i] == s[i]);
        }
        lemma_filter_unique_keys(prev, pred);
        lemma_filter_origin(prev, pred);
        let f = s.filter(pred);
        let fd = prev.filter(pred);
        assert forall|i: int, j: int|
            0 <= i < f.len() && 0 <= j < f.len() && entry_query_id(#[trigger] f[i])
                == entry_query_id(#[trigger] f[j]) && entry_destination_id(f[i])
                == entry_destination_id(f[j]) implies i == j by {
            if pred(s.last()) {
                if i < fd.len() && j < fd.len() {
                    assert(f[i] == fd[i] && f[j] == fd[j]);
                } else if i < fd.len() && j == fd.len() {
                    let k = choose|k: int| 0 <= k < prev.len() && prev[k] == fd[i];
                    assert(s[k] == f[i] && s[s.len() - 1] == f[j]);
                } else if j < fd.len() && i == fd.len() {
                    let k = choose|k: int| 0 <= k < prev.len() && prev[k] == fd[j];
                    assert(s[k] == f[j] && s[s.len() - 1] == f[i]);
                }
            } else {
                assert(f[i] == fd[i] && f[j] == fd[j]);
            }
        }
    }
}

} // verus!
