//! Peers of the network, identified by the bytes of their peer id.
use vstd::prelude::*;
use crate::height::StarknetHeight;

verus! {

/// The identity of a peer: the bytes of its multihash.
#[derive(Clone, Debug)]
pub struct PeerId(pub Vec<u8>);

impl View for PeerId {
    type V = Seq<u8>;

    open spec fn view(&self) -> Seq<u8> {
        self.0@
    }
}

/// Byte-by-byte equality of two byte vectors.
pub fn bytes_eq(a: &Vec<u8>, b: &Vec<u8>) -> (r: bool)
    ensures
        r == (a@ == b@),
{
    if a.len() != b.len() {
        return false;
    }
    let mut i: usize = 0;
    while i < a.len()
        invariant
            i <= a@.len(),
            a@.len() == b@.len(),
            forall|j: int| 0 <= j < i ==> a@[j] == b@[j],
        decreases a@.len() - i,
    {
        if a[i] != b[i] {
            return false;
        }
        i += 1;
    }
    assert(a@ =~= b@);
    true
}

impl PeerId {
    /// The peer with the given id bytes.
    pub fn from_bytes(bytes: Vec<u8>) -> (r: Self)
        ensures
            r@ == bytes@,
    {
        PeerId(bytes)
    }

    /// Two peers are the same when their ids have the same bytes.
    pub fn same(&self, other: &Self) -> (r: bool)
        ensures
            r == (self@ == other@),
    {
        bytes_eq(&self.0, &other.0)
    }

    /// A copy of the peer id.
    pub fn duplicate(&self) -> (r: Self)
        ensures
            r@ == self@,
    {
        PeerId(crate::encoding::copy_bytes(&self.0))
    }
}

/// The peer ids of `s`, as byte sequences.
pub open spec fn ids(s: Seq<PeerId>) -> Seq<Seq<u8>> {
    s.map_values(|p: PeerId| p@)
}

/// A set of peers; no peer occurs twice.
#[derive(Clone, Debug)]
pub struct PeerSet {
    pub peers: Vec<PeerId>,
}

/// The position of the peer with id `id` in `s`, if any.
fn position(s: &Vec<PeerId>, id: &PeerId) -> (r: Option<usize>)
    ensures
        match r {
            Some(i) => i < s@.len() && s@[i as int]@ == id@,
            None => forall|j: int| 0 <= j < s@.len() ==> (#[trigger] s@[j])@ != id@,
        },
{
    let mut i: usize = 0;
    while i < s.len()
        invariant
            i <= s@.len(),
            forall|j: int| 0 <= j < i ==> (#[trigger] s@[j])@ != id@,
        decreases s@.len() - i,
    {
        if s[i].same(id) {
            return Some(i);
        }
        i += 1;
    }
    None
}

impl PeerSet {
    /// The set of peer ids.
    pub open spec fn view_set(&self) -> Set<Seq<u8>> {
        ids(self.peers@).to_set()
    }

    /// No peer occurs twice.
    pub open spec fn wf(&self) -> bool {
        ids(self.peers@).no_duplicates()
    }

    /// The empty set.
    pub fn new() -> (r: Self)
        ensures
            r.wf(),
            r.view_set() == Set::<Seq<u8>>::empty(),
    {
        let r = PeerSet { peers: Vec::new() };
        assert(ids(r.peers@) =~= Seq::<Seq<u8>>::empty());
        assert(r.view_set() =~= Set::<Seq<u8>>::empty());
        r
    }

    /// Whether the set holds `peer`.
    pub fn contains(&self, peer: &PeerId) -> (r: bool)
        ensures
            r == self.view_set().contains(peer@),
    {
        let r = position(&self.peers, peer);
        proof {
            if r is Some {
                let i = r->0 as int;
                assert(ids(self.peers@)[i] == peer@);
            } else {
                assert forall|j: int| 0 <= j < ids(self.peers@).len() implies ids(self.peers@)[j] != peer@ by {
                    assert(self.peers@[j]@ != peer@);
                }
            }
        }
        r.is_some()
    }

    /// Adds `peer`.
    pub fn insert(&mut self, peer: PeerId)
        requires
            old(self).wf(),
        ensures
            final(self).wf(),
            final(self).view_set() == old(self).view_set().insert(peer@),
    {
        if !self.contains(&peer) {
            let ghost before = ids(self.peers@);
            self.peers.push(peer);
            proof {
                assert(ids(self.peers@) =~= before.push(peer@));
                before.lemma_push_to_set_commute(peer@);
                assert forall|i: int, j: int| 0 <= i < j < ids(self.peers@).len() implies ids(self.peers@)[i] != ids(self.peers@)[j] by {
                    if j == before.len() {
                        assert(before.contains(before[i]));
                    }
                }
            }
        } else {
            assert(old(self).view_set().insert(peer@) =~= old(self).view_set());
        }
    }

    /// Removes `peer`.
    pub fn remove(&mut self, peer: &PeerId)
        requires
            old(self).wf(),
        ensures
            final(self).wf(),
            final(self).view_set() == old(self).view_set().remove(peer@),
    {
        match position(&self.peers, peer) {
            Some(i) => {
                let ghost before = ids(self.peers@);
                let _ = self.peers.remove(i);
                proof {
                    let after = ids(self.peers@);
                    assert(after =~= before.remove(i as int));
                    assert(before[i as int] == peer@);
                    assert forall|a: int, b: int| 0 <= a < b < after.len() implies after[a] != after[b] by {
                        let a2 = if a < i { a } else { a + 1 };
                        let b2 = if b < i { b } else { b + 1 };
                        assert(after[a] == before[a2] && after[b] == before[b2]);
                    }
                    assert forall|x: Seq<u8>| #[trigger] after.to_set().contains(x) <==> before.to_set().remove(peer@).contains(x) by {
                        if before.to_set().remove(peer@).contains(x) {
                            let k = choose|k: int| 0 <= k < before.len() && before[k] == x;
                            assert(k != i);
                            if k < i {
                                assert(after[k] == x);
                            } else {
                                assert(after[k - 1] == x);
                            }
                        }
                        if after.to_set().contains(x) {
                            let k = choose|k: int| 0 <= k < after.len() && after[k] == x;
                            let k2 = if k < i { k } else { k + 1 };
                            assert(before[k2] == x);
                            assert(k2 != i);
                            assert(before[k2] != before[i as int]);
                        }
                    }
                    assert(after.to_set() =~= before.to_set().remove(peer@));
                }
            },
            None => {
                proof {
                    assert(!ids(self.peers@).contains(peer@)) by {
                        if ids(self.peers@).contains(peer@) {
                            let k = choose|k: int| 0 <= k < ids(self.peers@).len() && ids(self.peers@)[k] == peer@;
                            assert(self.peers@[k]@ == peer@);
                        }
                    }
                    assert(old(self).view_set().remove(peer@) =~= old(self).view_set());
                }
            },
        }
    }

    /// The number of peers.
    pub fn len(&self) -> (r: usize)
        requires
            self.wf(),
        ensures
            r == self.view_set().len(),
    {
        proof {
            ids(self.peers@).unique_seq_to_set();
        }
        self.peers.len()
    }
}

/// The last height each peer reported; no peer occurs twice.
#[derive(Clone, Debug)]
pub struct PeerHeights {
    pub entries: Vec<(PeerId, StarknetHeight)>,
}

/// The heights reported by the peers of `s`, by peer id.
pub open spec fn heights_map(s: Seq<(PeerId, StarknetHeight)>) -> Map<Seq<u8>, StarknetHeight>
    decreases s.len(),
{
    if s.len() == 0 {
        Map::empty()
    } else {
        heights_map(s.drop_last()).insert(s[s.len() - 1].0@, s[s.len() - 1].1)
    }
}

impl PeerHeights {
    /// The last height reported by each peer.
    pub open spec fn view_map(&self) -> Map<Seq<u8>, StarknetHeight> {
        heights_map(self.entries@)
    }

    /// No peer yet.
    pub fn new() -> (r: Self)
        ensures
            r.view_map() == Map::<Seq<u8>, StarknetHeight>::empty(),
    {
        PeerHeights { entries: Vec::new() }
    }

    /// Records that `peer` is at `height`.
    pub fn insert(&mut self, peer: PeerId, height: StarknetHeight)
        ensures
            final(self).view_map() == old(self).view_map().insert(peer@, height),
    {
        self.entries.push((peer, height));
        assert(self.entries@.drop_last() =~= old(self).entries@);
    }

    /// The last height `peer` reported, if any.
    pub fn get(&self, peer: &PeerId) -> (r: Option<StarknetHeight>)
        ensures
            match r {
                Some(h) => self.view_map().contains_key(peer@) && self.view_map()[peer@] == h,
                None => !self.view_map().contains_key(peer@),
            },
    {
        let mut i: usize = self.entries.len();
        assert(self.entries@.take(i as int) =~= self.entries@);
        while i > 0
            invariant
                i <= self.entries@.len(),
                forall|j: int| i <= j < self.entries@.len() ==> (#[trigger] self.entries@[j]).0@ != peer@,
                heights_map(self.entries@).contains_key(peer@) <==> heights_map(self.entries@.take(i as int)).contains_key(peer@),
                heights_map(self.entries@).contains_key(peer@) ==> heights_map(self.entries@)[peer@] == heights_map(self.entries@.take(i as int))[peer@],
            decreases i,
        {
            proof {
                assert(self.entries@.take(i as int).drop_last() =~= self.entries@.take(i - 1));
            }
            if self.entries[i - 1].0.same(peer) {
                return Some(self.entries[i - 1].1);
            }
            i -= 1;
        }
        proof {
            assert(self.entries@.take(0) =~= Seq::<(PeerId, StarknetHeight)>::empty());
        }
        None
    }
}

} // verus!
