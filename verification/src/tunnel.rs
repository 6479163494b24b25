//! The accounting of one CONNECT tunnel session: the success response is
//! observed before any tunnel byte flows, bytes are relayed in order in both
//! directions, and the per-direction byte counters always equal the bytes
//! relayed so far.

use vstd::prelude::*;

verus! {

/// The bytes of a chunk sequence, concatenated in order.
pub open spec fn concat_chunks(cs: Seq<Seq<u8>>) -> Seq<u8>
    decreases cs.len(),
{
    if cs.len() == 0 {
        Seq::empty()
    } else {
        concat_chunks(cs.drop_last()) + cs.last()
    }
}

/// The total byte count of a chunk sequence.
pub open spec fn total_len(cs: Seq<Seq<u8>>) -> int
    decreases cs.len(),
{
    if cs.len() == 0 {
        0
    } else {
        total_len(cs.drop_last()) + cs.last().len()
    }
}

proof fn lemma_total_len_take(cs: Seq<Seq<u8>>, j: int)
    requires
        0 <= j <= cs.len(),
    ensures
        0 <= total_len(cs.take(j)) <= total_len(cs),
        total_len(cs.take(j)) == concat_chunks(cs.take(j)).len(),
    decreases cs.len(),
{
    if j == cs.len() {
        assert(cs.take(j) =~= cs);
        lemma_concat_len(cs);
    } else {
        lemma_total_len_take(cs.drop_last(), j);
        assert(cs.drop_last().take(j) =~= cs.take(j));
        lemma_concat_len(cs.take(j));
    }
}

proof fn lemma_concat_len(cs: Seq<Seq<u8>>)
    ensures
        concat_chunks(cs).len() == total_len(cs),
        total_len(cs) >= 0,
    decreases cs.len(),
{
    if cs.len() > 0 {
        lemma_concat_len(cs.drop_last());
    }
}

/// One tunnel session between an upgraded client transport and the dialed
/// upstream. The byte logs are the session's ghost transcripts, one per
/// direction, each relayed chunk appended in arrival order.
pub struct TunnelSession {
    pub response_sent: bool,
    pub client_to_upstream: u64,
    pub upstream_to_client: u64,
    pub up_log: Ghost<Seq<u8>>,
    pub down_log: Ghost<Seq<u8>>,
}

impl TunnelSession {
    /// Session soundness: each counter equals its transcript's length, and
    /// nothing has been relayed while the success response is still unsent.
    pub open spec fn wf(&self) -> bool {
        &&& self.client_to_upstream == self.up_log@.len()
        &&& self.upstream_to_client == self.down_log@.len()
        &&& (!self.response_sent ==> self.up_log@.len() == 0 && self.down_log@.len() == 0)
    }

    /// A fresh session: response not yet sent, nothing relayed.
    pub fn new() -> (s: TunnelSession)
        ensures
            s.wf(),
            !s.response_sent,
            s.up_log@ == Seq::<u8>::empty(),
            s.down_log@ == Seq::<u8>::empty(),
            s.client_to_upstream == 0,
            s.upstream_to_client == 0,
    {
        TunnelSession {
            response_sent: false,
            client_to_upstream: 0,
            upstream_to_client: 0,
            up_log: Ghost(Seq::empty()),
            down_log: Ghost(Seq::empty()),
        }
    }

    /// Record that the empty CONNECT success response has gone out. Only
    /// after this may bytes be relayed.
    pub fn mark_response_sent(&mut self)
        requires
            old(self).wf(),
        ensures
            final(self).wf(),
            final(self).response_sent,
            final(self).up_log == old(self).up_log,
            final(self).down_log == old(self).down_log,
            final(self).client_to_upstream == old(self).client_to_upstream,
            final(self).upstream_to_client == old(self).upstream_to_client,
    {
        self.response_sent = true;
    }

    /// Relay one chunk from the client to the upstream: the transcript grows
    /// by exactly the chunk, in order, and the counter by its length.
    pub fn relay_client_to_upstream(&mut self, chunk: &[u8])
        requires
            old(self).wf(),
            old(self).response_sent,
            old(self).client_to_upstream + chunk@.len() <= u64::MAX,
        ensures
            final(self).wf(),
            final(self).response_sent,
            final(self).up_log@ == old(self).up_log@ + chunk@,
            final(self).client_to_upstream == old(self).client_to_upstream + chunk@.len(),
            final(self).down_log == old(self).down_log,
            final(self).upstream_to_client == old(self).upstream_to_client,
    {
        self.up_log = Ghost(self.up_log@ + chunk@);
        self.client_to_upstream = self.client_to_upstream + chunk.len() as u64;
    }

    /// Relay one chunk from the upstream to the client, symmetrically.
    pub fn relay_upstream_to_client(&mut self, chunk: &[u8])
        requires
            old(self).wf(),
            old(self).response_sent,
            old(self).upstream_to_client + chunk@.len() <= u64::MAX,
        ensures
            final(self).wf(),
            final(self).response_sent,
            final(self).down_log@ == old(self).down_log@ + chunk@,
            final(self).upstream_to_client == old(self).upstream_to_client + chunk@.len(),
            final(self).up_log == old(self).up_log,
            final(self).client_to_upstream == old(self).client_to_upstream,
    {
        self.down_log = Ghost(self.down_log@ + chunk@);
        self.upstream_to_client = self.upstream_to_client + chunk.len() as u64;
    }

    /// Relay a whole stream of chunks from the client in arrival order: the
    /// transcript grows by their concatenation, so the upstream sees every
    /// byte in the order the client wrote it.
    pub fn relay_all_client_to_upstream(&mut self, chunks: &Vec<Vec<u8>>)
        requires
            old(self).wf(),
            old(self).response_sent,
            old(self).client_to_upstream + total_len(chunks.deep_view()) <= u64::MAX,
        ensures
            final(self).wf(),
            final(self).response_sent,
            final(self).up_log@ == old(self).up_log@ + concat_chunks(chunks.deep_view()),
            final(self).client_to_upstream == old(self).client_to_upstream + total_len(
                chunks.deep_view(),
            ),
            final(self).down_log == old(self).down_log,
            final(self).upstream_to_client == old(self).upstream_to_client,
    {
        let ghost cs = chunks.deep_view();
        let ghost start_log = self.up_log@;
        let ghost start_count = self.client_to_upstream as int;
        let n = chunks.len();
        let mut i: usize = 0;
        while i < n
            invariant
                i <= n,
                n == cs.len(),
                cs == chunks.deep_view(),
                self.wf(),
                self.response_sent,
                start_count + total_len(cs) <= u64::MAX,
                self.up_log@ == start_log + concat_chunks(cs.take(i as int)),
                self.client_to_upstream == start_count + total_len(cs.take(i as int)),
                self.down_log == old(self).down_log,
                self.upstream_to_client == old(self).upstream_to_client,
            decreases n - i,
        {
            proof {
                lemma_total_len_take(cs, i as int);
                lemma_total_len_take(cs, i + 1);
                assert(cs.take(i + 1).drop_last() =~= cs.take(i as int));
                assert(cs.take(i + 1).last() == cs[i as int]);
                assert(chunks@[i as int]@ == cs[i as int]);
            }
            self.relay_client_to_upstream(chunks[i].as_slice());
            proof {
                assert(self.up_log@ =~= start_log + concat_chunks(cs.take(i + 1)));
            }
            i = i + 1;
        }
        proof {
            assert(cs.take(n as int) =~= cs);
        }
    }
    /// Relay a whole stream of chunks from the upstream in arrival order,
    /// symmetrically: the client sees every byte in the order the upstream
    /// wrote it.
    pub fn relay_all_upstream_to_client(&mut self, chunks: &Vec<Vec<u8>>)
        requires
            old(self).wf(),
            old(self).response_sent,
            old(self).upstream_to_client + total_len(chunks.deep_view()) <= u64::MAX,
        ensures
            final(self).wf(),
            final(self).response_sent,
            final(self).down_log@ == old(self).down_log@ + concat_chunks(chunks.deep_view()),
            final(self).upstream_to_client == old(self).upstream_to_client + total_len(
                chunks.deep_view(),
            ),
            final(self).up_log == old(self).up_log,
            final(self).client_to_upstream == old(self).client_to_upstream,
    {
        let ghost cs = chunks.deep_view();
        let ghost start_log = self.down_log@;
        let ghost start_count = self.upstream_to_client as int;
        let n = chunks.len();
        let mut i: usize = 0;
        while i < n
            invariant
                i <= n,
                n == cs.len(),
                cs == chunks.deep_view(),
                self.wf(),
                self.response_sent,
                start_count + total_len(cs) <= u64::MAX,
                self.down_log@ == start_log + concat_chunks(cs.take(i as int)),
                self.upstream_to_client == start_count + total_len(cs.take(i as int)),
                self.up_log == old(self).up_log,
                self.client_to_upstream == old(self).client_to_upstream,
            decreases n - i,
        {
            proof {
                lemma_total_len_take(cs, i as int);
                lemma_total_len_take(cs, i + 1);
                assert(cs.take(i + 1).drop_last() =~= cs.take(i as int));
                assert(cs.take(i + 1).last() == cs[i as int]);
                assert(chunks@[i as int]@ == cs[i as int]);
            }
            self.relay_upstream_to_client(chunks[i].as_slice());
            proof {
                assert(self.down_log@ =~= start_log + concat_chunks(cs.take(i + 1)));
            }
            i = i + 1;
        }
        proof {
            assert(cs.take(n as int) =~= cs);
        }
    }
}

/// Law: a well-formed session that has not yet sent the CONNECT success
/// response has relayed nothing in either direction.
pub proof fn lemma_response_precedes_relay(s: TunnelSession)
    requires
        s.wf(),
        !s.response_sent,
    ensures
        s.up_log@ =~= Seq::<u8>::empty(),
        s.down_log@ =~= Seq::<u8>::empty(),
        s.client_to_upstream == 0,
        s.upstream_to_client == 0,
{
}

/// Law: a well-formed session reports per-direction byte counts equal to
/// the bytes actually relayed in that direction.
pub proof fn lemma_counts_match_transcripts(s: TunnelSession)
    requires
        s.wf(),
    ensures
        s.client_to_upstream == s.up_log@.len(),
        s.upstream_to_client == s.down_log@.len(),
{
}

} // verus!
