//! The reordering sink's buffer: transformed tiles arrive in any order, wait
//! keyed by sequence, and leave strictly in ascending sequence order, each
//! exactly once, starting at sequence 0.

use std::collections::BTreeMap;

use vstd::prelude::*;

use crate::tile::WriteTileMsg;

verus! {

broadcast use {
    vstd::std_specs::btree::group_btree_axioms,
    vstd::laws_cmp::group_laws_cmp,
    vstd::set::group_set_axioms,
    vstd::map::group_map_axioms,
    vstd::seq::group_seq_axioms,
};

/// A consistency violation in the stream the sink consumes.
#[derive(Clone, Copy, Debug, PartialEq, Eq, Structural)]
pub enum PipelineError {
    /// A sequence arrived twice.
    DuplicateSequence,
    /// A sequence arrived that was already flushed.
    StaleSequence,
    /// A sequence too large to take a successor.
    SequenceOverflow,
}

impl PipelineError {
    /// A fixed description of the error.
    pub fn message(&self) -> &'static str {
        match self {
            PipelineError::DuplicateSequence => "tile sequence arrived twice",
            PipelineError::StaleSequence => "tile sequence arrived after being written",
            PipelineError::SequenceOverflow => "tile sequence out of range",
        }
    }
}

/// The sink's sparse reorder buffer. `next` is the sequence the destination
/// archive expects; every buffered tile has a sequence not yet flushed.
pub struct ReorderBuffer {
    next: usize,
    pending: BTreeMap<usize, WriteTileMsg>,
}

impl ReorderBuffer {
    /// The next sequence to flush; every sequence below it has been flushed.
    pub closed spec fn next_seq(&self) -> int {
        self.next as int
    }

    /// The buffered tiles, keyed by sequence.
    pub closed spec fn pending_map(&self) -> Map<usize, WriteTileMsg> {
        self.pending@
    }

    /// Internal soundness: every buffered tile waits under its own rank, no
    /// buffered rank has been flushed, and every rank leaves room for a
    /// successor.
    pub closed spec fn wf(&self) -> bool {
        forall|k: usize| #[trigger]
            self.pending@.dom().contains(k) ==> self.pending@[k].index == k && self.next <= k
                < usize::MAX
    }

    /// An empty buffer expecting sequence 0.
    pub fn new() -> (r: ReorderBuffer)
        ensures
            r.wf(),
            r.next_seq() == 0,
            r.pending_map() == Map::<usize, WriteTileMsg>::empty(),
    {
        ReorderBuffer { next: 0, pending: BTreeMap::new() }
    }

    /// Whether nothing is left waiting: the stream may only end this way.
    pub fn is_drained(&self) -> (r: bool)
        ensures
            r == self.pending_map().dom().is_empty(),
    {
        self.pending.is_empty()
    }

    /// The next sequence the destination expects; equal to the number of
    /// tiles flushed so far.
    pub fn next_index(&self) -> (r: usize)
        ensures
            r == self.next_seq(),
    {
        self.next
    }

    /// Takes one arriving tile and returns the tiles now ready to flush: the
    /// longest contiguous run of buffered sequences starting at the one the
    /// destination expects, in ascending order, each exactly once.
    pub fn accept(&mut self, msg: WriteTileMsg) -> (ready: Vec<WriteTileMsg>)
        requires
            old(self).wf(),
            old(self).next_seq() <= msg.index < usize::MAX,
            !old(self).pending_map().dom().contains(msg.index as usize),
        ensures
            final(self).wf(),
            final(self).next_seq() == old(self).next_seq() + ready@.len(),
            forall|i: int|
                0 <= i < ready@.len() ==> (#[trigger] ready@[i]).index == old(self).next_seq() + i,
            ({
                let m = old(self).pending_map().insert(msg.index as usize, msg);
                &&& forall|k: usize|
                    old(self).next_seq() <= k < final(self).next_seq() ==> (#[trigger] m.dom().contains(k))
                        && ready@[k - old(self).next_seq()] == m[k]
                &&& forall|k: usize| #[trigger]
                    final(self).pending_map().dom().contains(k) <==> (m.dom().contains(k) && k
                        >= final(self).next_seq())
                &&& forall|k: usize| #[trigger]
                    final(self).pending_map().dom().contains(k) ==> final(self).pending_map()[k]
                        == m[k]
                &&& (final(self).next_seq() < usize::MAX ==> !m.dom().contains(
                    (final(self).next_seq() as usize),
                ))
            }),
    {
        let ghost m = old(self).pending_map().insert(msg.index as usize, msg);
        let ghost n0 = old(self).next_seq();
        self.pending.insert(msg.index, msg);
        assert(self.pending@ =~= m);
        let mut ready: Vec<WriteTileMsg> = Vec::new();
        loop
            invariant
                n0 <= self.next as int,
                ready@.len() == self.next - n0,
                forall|k: usize|
                    n0 <= k < self.next ==> (#[trigger] m.dom().contains(k)) && ready@[k - n0]
                        == m[k],
                forall|k: usize| #[trigger]
                    self.pending@.dom().contains(k) <==> (m.dom().contains(k) && k >= self.next),
                forall|k: usize| #[trigger]
                    self.pending@.dom().contains(k) ==> self.pending@[k] == m[k],
                forall|k: usize| #[trigger] m.dom().contains(k) ==> m[k].index == k && k < usize::MAX,
            ensures
                n0 <= self.next as int,
                ready@.len() == self.next - n0,
                forall|k: usize|
                    n0 <= k < self.next ==> (#[trigger] m.dom().contains(k)) && ready@[k - n0]
                        == m[k],
                forall|k: usize| #[trigger]
                    self.pending@.dom().contains(k) <==> (m.dom().contains(k) && k >= self.next),
                forall|k: usize| #[trigger]
                    self.pending@.dom().contains(k) ==> self.pending@[k] == m[k],
                self.next < usize::MAX ==> !m.dom().contains((self.next as usize)),
            decreases self.pending@.dom().len(),
        {
            let cur = self.next;
            match self.pending.remove(&cur) {
                Some(t) => {
                    assert(m.dom().contains(cur) && t == m[cur]);
                    ready.push(t);
                    self.next = self.next + 1;
                },
                None => {
                    break ;
                },
            }
        }
        assert forall|i: int| 0 <= i < ready@.len() implies (#[trigger] ready@[i]).index == n0
            + i by {
            let k = ((n0 + i) as usize);
            assert(n0 <= k < self.next);
            assert(m.dom().contains(k) && ready@[k - n0] == m[k]);
        }
        ready
    }

    /// Takes one arriving tile after testing the stream's consistency: a
    /// duplicate, stale, or out-of-range sequence is reported instead of
    /// buffered; a fresh one is buffered and the tiles now ready to flush
    /// come back, exactly as `accept` returns them.
    pub fn push_tile(&mut self, msg: WriteTileMsg) -> (r: Result<
        Vec<WriteTileMsg>,
        PipelineError,
    >)
        requires
            old(self).wf(),
        ensures
            final(self).wf(),
            r is Err <==> (msg.index == usize::MAX || msg.index < old(self).next_seq() || old(
                self,
            ).pending_map().dom().contains(msg.index as usize)),
            (match r {
                Err(e) => {
                    &&& *final(self) == *old(self)
                    &&& (e == PipelineError::SequenceOverflow <==> msg.index == usize::MAX)
                    &&& (e == PipelineError::StaleSequence <==> msg.index < usize::MAX
                        && msg.index < old(self).next_seq())
                    &&& (e == PipelineError::DuplicateSequence <==> msg.index < usize::MAX
                        && msg.index >= old(self).next_seq()
                        && old(self).pending_map().dom().contains(msg.index as usize))
                },
                Ok(ready) => {
                    let m = old(self).pending_map().insert(msg.index as usize, msg);
                    &&& final(self).next_seq() == old(self).next_seq() + ready@.len()
                    &&& forall|i: int|
                        0 <= i < ready@.len() ==> (#[trigger] ready@[i]).index
                            == old(self).next_seq() + i
                    &&& forall|k: usize|
                        old(self).next_seq() <= k < final(self).next_seq() ==> (
                        #[trigger] m.dom().contains(k)) && ready@[k - old(self).next_seq()] == m[k]
                    &&& forall|k: usize| #[trigger]
                        final(self).pending_map().dom().contains(k) <==> (m.dom().contains(k) && k
                            >= final(self).next_seq())
                    &&& forall|k: usize| #[trigger]
                        final(self).pending_map().dom().contains(k)
                            ==> final(self).pending_map()[k] == m[k]
                    &&& (final(self).next_seq() < usize::MAX ==> !m.dom().contains(
                        (final(self).next_seq() as usize),
                    ))
                },
            }),
    {
        if msg.index == usize::MAX {
            return Err(PipelineError::SequenceOverflow);
        }
        if msg.index < self.next {
            return Err(PipelineError::StaleSequence);
        }
        if self.pending.contains_key(&msg.index) {
            return Err(PipelineError::DuplicateSequence);
        }
        Ok(self.accept(msg))
    }
}

/// A sequence of `n` distinct ranks, all below `n`, hits every rank below
/// `n`.
proof fn lemma_dense_ranks(idxs: Seq<int>, v: int)
    requires
        idxs.no_duplicates(),
        forall|t: int| 0 <= t < idxs.len() ==> 0 <= #[trigger] idxs[t] < idxs.len(),
        0 <= v < idxs.len(),
    ensures
        idxs.contains(v),
{
    broadcast use vstd::seq_lib::seq_to_set_is_finite;

    let n = idxs.len() as int;
    let s = idxs.to_set();
    idxs.unique_seq_to_set();
    let full = vstd::set_lib::set_int_range(0, n);
    assert(s.subset_of(full)) by {
        assert forall|x: int| s.contains(x) implies full.contains(x) by {
            let t = choose|t: int| 0 <= t < idxs.len() && idxs[t] == x;
            assert(0 <= idxs[t] < n);
        }
    }
    vstd::set_lib::lemma_int_range(0, n);
    vstd::set_lib::lemma_len_subset(s, full);
    vstd::set_lib::lemma_subset_equality(s, full);
    assert(s.contains(v));
}

/// Every flushed position holds exactly the arrived tile of its rank.
spec fn out_matches(arr: Map<usize, WriteTileMsg>, out: Seq<WriteTileMsg>) -> bool {
    forall|j: int|
        #![trigger out[j]]
        #![trigger arr.dom().contains((j as usize))]
        0 <= j < out.len() ==> arr.dom().contains((j as usize)) && out[j] == arr[(j as usize)]
}

/// Feeding a reorder buffer tiles whose sequences are any permutation of
/// `0 .. N-1` flushes all `N` tiles, in strictly ascending sequence order,
/// each exactly once, each with the data that arrived under its sequence.
#[verifier::rlimit(100)]
pub fn reorder_all(msgs: Vec<WriteTileMsg>) -> (out: Vec<WriteTileMsg>)
    requires
        forall|t: int| 0 <= t < msgs@.len() ==> (#[trigger] msgs@[t].index) < msgs@.len(),
        forall|s: int, t: int| 0 <= s < t < msgs@.len() ==> msgs@[s].index != msgs@[t].index,
    ensures
        out@.len() == msgs@.len(),
        forall|j: int| 0 <= j < out@.len() ==> (#[trigger] out@[j]).index == j,
        forall|t: int|
            0 <= t < msgs@.len() ==> out@[(#[trigger] msgs@[t]).index as int] == msgs@[t],
{
    let ghost orig = msgs@;
    let count: usize = msgs.len();
    let ghost n = count as int;
    let mut msgs = msgs;
    let mut buf = ReorderBuffer::new();
    let mut out: Vec<WriteTileMsg> = Vec::new();
    let ghost mut arr: Map<usize, WriteTileMsg> = Map::empty();
    while msgs.len() > 0
        invariant
            n == orig.len() && n <= usize::MAX,
            msgs@.len() <= n,
            msgs@ == orig.subrange(n - msgs@.len(), n),
            forall|t: int| 0 <= t < n ==> (#[trigger] orig[t].index) < n,
            forall|s: int, t: int| 0 <= s < t < n ==> orig[s].index != orig[t].index,
            buf.wf(),
            buf.next_seq() == out@.len(),
            forall|q: usize| #[trigger] arr.dom().contains(q) ==> q < n && arr[q].index == q,
            forall|t: int|
                0 <= t < n - msgs@.len() ==> arr.dom().contains((#[trigger] orig[t]).index)
                    && arr[orig[t].index] == orig[t],
            forall|t: int|
                n - msgs@.len() <= t < n ==> !arr.dom().contains((#[trigger] orig[t]).index),
            forall|q: usize| #[trigger]
                buf.pending_map().dom().contains(q) <==> (arr.dom().contains(q) && q
                    >= buf.next_seq()),
            !buf.pending_map().dom().contains((out@.len() as usize)),
            forall|q: usize| #[trigger]
                buf.pending_map().dom().contains(q) ==> buf.pending_map()[q] == arr[q],
            out_matches(arr, out@),
        decreases msgs@.len(),
    {
        let ghost k = n - msgs@.len();
        let ghost pre = msgs@;
        let msg = msgs.remove(0);
        proof {
            assert(pre == orig.subrange(k, n));
            assert(msg == pre[0]);
            assert(pre[0] == orig.subrange(k, n)[0]);
            assert(orig.subrange(k, n)[0] == orig[k]);
            assert(msg == orig[k]);
        }
        proof {
            assert(!arr.dom().contains(orig[k].index));
            if (msg.index as int) < out@.len() {
                let j = msg.index as int;
                assert(out@[j] == arr[(j as usize)]);
                assert(arr.dom().contains(msg.index));
            }
            if buf.pending_map().dom().contains(msg.index) {
                assert(arr.dom().contains(msg.index));
            }
        }
        let ghost m = buf.pending_map().insert(msg.index, msg);
        let ghost n0 = buf.next_seq();
        let ghost old_pending = buf.pending_map();
        let mut ready = buf.accept(msg);
        let ghost flushed = ready@;
        proof {
            assert(m == old_pending.insert(msg.index as usize, msg));
            assert(forall|k: usize|
                n0 <= k < buf.next_seq() ==> (#[trigger] m.dom().contains(k)) && flushed[k - n0]
                    == m[k]);
        }
        let ghost old_arr = arr;
        proof {
            arr = arr.insert(msg.index, msg);
            assert forall|q: usize| m.dom().contains(q) implies arr.dom().contains(q) && m[q]
                == arr[q] by {
                if q != msg.index {
                    assert(old_pending.dom().contains(q));
                }
            }
        }
        let ghost old_out = out@;
        out.append(&mut ready);
        proof {
            assert(out@ == old_out + flushed);
            assert(out@.len() == n0 + flushed.len());
            assert(out@.len() == buf.next_seq());
            assert forall|j: int|
                #![trigger out@[j]]
                #![trigger arr.dom().contains((j as usize))]
                0 <= j < out@.len() implies arr.dom().contains((j as usize)) && out@[j] == arr[(
            j as usize)] by {
                assert(out_matches(old_arr, old_out));
                if n0 <= j {
                    assert(j < buf.next_seq());
                    assert(j <= usize::MAX);
                    let q = j as usize;
                    assert(q == j && n0 <= q < buf.next_seq());
                    assert(m.dom().contains(q));
                    assert(flushed[q - n0] == m[q]);
                    assert(out@[j] == flushed[j - n0]);
                } else {
                    assert(out@[j] == old_out[j]);
                    assert(old_out[j] == old_arr[(j as usize)]);
                    assert((j as usize) != msg.index);
                    assert(arr[(j as usize)] == old_arr[(j as usize)]);
                }
            }
            assert forall|q: usize| #[trigger]
                buf.pending_map().dom().contains(q) <==> (arr.dom().contains(q) && q
                    >= buf.next_seq()) by {
                if arr.dom().contains(q) && q >= buf.next_seq() && q != msg.index {
                    assert(old_pending.dom().contains(q));
                    assert(m.dom().contains(q));
                }
            }
            if buf.next_seq() < usize::MAX {
                assert(!m.dom().contains((buf.next_seq() as usize)));
                assert(!buf.pending_map().dom().contains((out@.len() as usize)));
            } else {
                assert(!buf.pending_map().dom().contains((out@.len() as usize)));
            }
        }
    }
    proof {
        assert(msgs@.len() == 0);
        let next = buf.next_seq();
        assert(out@.len() == next);
        if next < n {
            let idxs = orig.map_values(|t: WriteTileMsg| t.index as int);
            assert forall|s: int, t: int|
                0 <= s < idxs.len() && 0 <= t < idxs.len() && s != t implies idxs[s]
                != idxs[t] by {
                assert(idxs[s] == orig[s].index && idxs[t] == orig[t].index);
            }
            assert(forall|t: int| 0 <= t < idxs.len() ==> 0 <= #[trigger] idxs[t] < idxs.len());
            lemma_dense_ranks(idxs, next);
            let t = choose|t: int| 0 <= t < idxs.len() && idxs[t] == next;
            assert(arr.dom().contains(orig[t].index));
            assert(orig[t].index == next as usize);
            assert(buf.pending_map().dom().contains((next as usize)));
        }
        if out@.len() > 0 {
            let j = out@.len() - 1;
            assert(out_matches(arr, out@));
            assert(out@[j] == arr[(j as usize)]);
            assert(arr.dom().contains((j as usize)));
        }
        assert(out@.len() == n);
    }
    out
}

} // verus!
