//! The latest (peer, height, round, value) seen from each peer, kept as a set.
use vstd::prelude::*;
use crate::consensus_types::{GossipMsg, NilOrVal};
use crate::height::StarknetHeight;
use crate::keys::key_bytes_eq;
use crate::peers::PeerId;
use crate::proposal::BlockHash;
use crate::round::Round;

verus! {

/// What is recorded of a gossip message: who sent it, and the height, round and value it
/// is about.
#[derive(Clone, Debug)]
pub struct CrdtKey {
    pub peer_id: PeerId,
    pub height: StarknetHeight,
    pub round: Round,
    pub value: NilOrVal<BlockHash>,
}

/// A key as plain values.
pub type KeyView = (Seq<u8>, StarknetHeight, Round, NilOrVal<BlockHash>);

/// The plain values of a key.
pub open spec fn key_view(k: CrdtKey) -> KeyView {
    (k.peer_id@, k.height, k.round, k.value)
}

/// The plain values of a list of keys.
pub open spec fn keys_view(s: Seq<CrdtKey>) -> Seq<KeyView> {
    s.map_values(|k: CrdtKey| key_view(k))
}

/// The latest key seen from each peer; no key occurs twice.
#[derive(Clone, Debug)]
pub struct Crdt {
    pub peer_state: Vec<CrdtKey>,
}

/// Equality of two values, nil or not.
fn value_eq(a: &NilOrVal<BlockHash>, b: &NilOrVal<BlockHash>) -> (r: bool)
    ensures
        r == (*a == *b),
{
    match (a, b) {
        (NilOrVal::Nil, NilOrVal::Nil) => true,
        (NilOrVal::Val(x), NilOrVal::Val(y)) => {
            let e = key_bytes_eq(&x.0, &y.0);
            proof {
                if e {
                    assert(x.0 == y.0);
                }
            }
            e
        },
        _ => false,
    }
}

/// Equality of two keys.
fn key_eq(a: &CrdtKey, b: &CrdtKey) -> (r: bool)
    ensures
        r == (key_view(*a) == key_view(*b)),
{
    a.peer_id.same(&b.peer_id) && a.height == b.height && a.round == b.round && value_eq(&a.value, &b.value)
}

impl Crdt {
    /// The keys seen so far.
    pub open spec fn view_set(&self) -> Set<KeyView> {
        keys_view(self.peer_state@).to_set()
    }

    /// No key occurs twice.
    pub open spec fn wf(&self) -> bool {
        keys_view(self.peer_state@).no_duplicates()
    }

    /// Nothing seen yet.
    pub fn new() -> (r: Self)
        ensures
            r.wf(),
            r.view_set() == Set::<KeyView>::empty(),
    {
        let r = Crdt { peer_state: Vec::new() };
        assert(keys_view(r.peer_state@) =~= Seq::<KeyView>::empty());
        assert(r.view_set() =~= Set::<KeyView>::empty());
        r
    }

    /// Records what `msg` from `peer_id` is about, as the latest seen from that peer: the
    /// keys seen before from the same peer are dropped, those of other peers stay.
    pub fn store_msg(&mut self, peer_id: PeerId, msg: &GossipMsg)
        requires
            old(self).wf(),
        ensures
            final(self).wf(),
            final(self).view_set() == stored(
                old(self).view_set(),
                (peer_id@, msg_height_of(*msg), msg_round_of(*msg), msg_value_of(*msg)),
            ),
    {
        let ghost pid = peer_id@;
        let ghost kv = keys_view(old(self).peer_state@);
        let key = CrdtKey {
            peer_id,
            height: msg.msg_height(),
            round: msg.msg_round(),
            value: msg.msg_value_id(),
        };
        let mut out: Vec<CrdtKey> = Vec::new();
        let mut i: usize = 0;
        while i < self.peer_state.len()
            invariant
                i <= self.peer_state@.len(),
                self.peer_state@ == old(self).peer_state@,
                kv == keys_view(old(self).peer_state@),
                kv.no_duplicates(),
                key.peer_id@ == pid,
                keys_view(out@).no_duplicates(),
                forall|m: int| 0 <= m < out@.len() ==> (#[trigger] keys_view(out@)[m]).0 != pid
                    && kv.take(i as int).contains(keys_view(out@)[m]),
                forall|j: int| 0 <= j < i && (#[trigger] kv[j]).0 != pid ==> keys_view(out@).contains(kv[j]),
            decreases self.peer_state@.len() - i,
        {
            let e = &self.peer_state[i];
            let ghost before = keys_view(out@);
            if !e.peer_id.same(&key.peer_id) {
                let c = CrdtKey { peer_id: e.peer_id.duplicate(), height: e.height, round: e.round, value: e.value };
                assert(key_view(c) == kv[i as int]);
                out.push(c);
                proof {
                    assert(keys_view(out@) =~= before.push(kv[i as int]));
                    assert forall|m: int| 0 <= m < before.len() implies before[m] != kv[i as int] by {
                        let j = choose|j: int| 0 <= j < i && kv.take(i as int)[j] == before[m];
                        assert(kv[j] == before[m]);
                    }
                    assert forall|x: int, y: int| 0 <= x < y < keys_view(out@).len() implies keys_view(out@)[x]
                        != keys_view(out@)[y] by {
                        if y < before.len() {
                            assert(before[x] != before[y]);
                        }
                    }
                }
            }
            proof {
                assert forall|m: int| 0 <= m < out@.len() implies (#[trigger] keys_view(out@)[m]).0 != pid
                    && kv.take(i as int + 1).contains(keys_view(out@)[m]) by {
                    if m < before.len() {
                        let j = choose|j: int| 0 <= j < i && kv.take(i as int)[j] == before[m];
                        assert(kv.take(i as int + 1)[j] == before[m]);
                    } else {
                        assert(kv.take(i as int + 1)[i as int] == kv[i as int]);
                    }
                }
                assert forall|j: int| 0 <= j < i + 1 && (#[trigger] kv[j]).0 != pid implies keys_view(out@).contains(kv[j]) by {
                    if j < i {
                        let m = choose|m: int| 0 <= m < before.len() && before[m] == kv[j];
                        assert(keys_view(out@)[m] == kv[j]);
                    } else {
                        assert(keys_view(out@)[keys_view(out@).len() - 1] == kv[j]);
                    }
                }
            }
            i += 1;
        }
        let ghost kept = keys_view(out@);
        proof {
            assert(kv.take(i as int) =~= kv);
            assert forall|m: int| 0 <= m < kept.len() implies kept[m] != key_view(key) by {}
        }
        out.push(key);
        self.peer_state = out;
        proof {
            assert(keys_view(self.peer_state@) =~= kept.push(key_view(key)));
            assert forall|x: int, y: int| 0 <= x < y < keys_view(self.peer_state@).len() implies keys_view(
                self.peer_state@,
            )[x] != keys_view(self.peer_state@)[y] by {
                if y < kept.len() {
                    assert(kept[x] != kept[y]);
                }
            }
            let target = stored(old(self).view_set(), key_view(key));
            assert forall|k: KeyView| #[trigger] self.view_set().contains(k) <==> target.contains(k) by {
                if self.view_set().contains(k) {
                    let m = choose|m: int| 0 <= m < keys_view(self.peer_state@).len() && keys_view(self.peer_state@)[m] == k;
                    if m < kept.len() {
                        assert(kept[m] == k);
                        let j = choose|j: int| 0 <= j < kv.len() && kv[j] == k;
                    }
                }
                if target.contains(k) && k != key_view(key) {
                    let j = choose|j: int| 0 <= j < kv.len() && kv[j] == k;
                    let m = choose|m: int| 0 <= m < kept.len() && kept[m] == k;
                    assert(keys_view(self.peer_state@)[m] == k);
                }
                if k == key_view(key) {
                    assert(keys_view(self.peer_state@)[kept.len() as int] == k);
                }
            }
            assert(self.view_set() =~= target);
        }
    }
}

/// The keys seen after storing `k`: the keys of other peers than that of `k`, and `k`.
pub open spec fn stored(seen: Set<KeyView>, k: KeyView) -> Set<KeyView> {
    seen.filter(|e: KeyView| e.0 != k.0).insert(k)
}

/// The height that a gossip message is about.
pub open spec fn msg_height_of(m: GossipMsg) -> StarknetHeight {
    match m {
        GossipMsg::Vote(v) => v.message.height,
        GossipMsg::Proposal(p) => p.message.height,
    }
}

/// The round that a gossip message is about.
pub open spec fn msg_round_of(m: GossipMsg) -> Round {
    match m {
        GossipMsg::Vote(v) => v.message.round,
        GossipMsg::Proposal(p) => p.message.round,
    }
}

/// The value that a gossip message is about.
pub open spec fn msg_value_of(m: GossipMsg) -> NilOrVal<BlockHash> {
    match m {
        GossipMsg::Vote(v) => v.message.value,
        GossipMsg::Proposal(p) => NilOrVal::Val(p.message.block_hash),
    }
}

/// After storing a message, the only key of its peer is the one just stored, and the keys
/// of the other peers are those seen before.
pub proof fn lemma_store_msg_keeps_latest(seen: Set<KeyView>, k: KeyView)
    ensures
        forall|e: KeyView| #[trigger] stored(seen, k).contains(e) && e.0 == k.0 ==> e == k,
        forall|e: KeyView| e.0 != k.0 ==> (#[trigger] stored(seen, k).contains(e) <==> seen.contains(e)),
{
}

/// Storing the same message from the same peer a second time changes nothing.
pub proof fn lemma_store_msg_idempotent(seen: Set<KeyView>, k: KeyView)
    ensures
        stored(stored(seen, k), k) == stored(seen, k),
{
    assert(stored(stored(seen, k), k) =~= stored(seen, k));
}

/// Messages from different peers may be stored in either order.
pub proof fn lemma_store_msg_commutes(seen: Set<KeyView>, k1: KeyView, k2: KeyView)
    requires
        k1.0 != k2.0,
    ensures
        stored(stored(seen, k1), k2) == stored(stored(seen, k2), k1),
{
    assert(stored(stored(seen, k1), k2) =~= stored(stored(seen, k2), k1));
}

} // verus!
