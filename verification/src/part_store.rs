//! Bookkeeping of the Starknet proposal-part store: the index of part keys kept for each
//! height and round, its binary encoding, and the choice of what to prune.
use vstd::prelude::*;
use crate::encoding::{le_bytes, le_u64, push_u64_le};
use crate::height::StarknetHeight;
use crate::round::Round;

verus! {

/// The key of a stored part.
pub type PartKey = u64;

/// The keys of the parts stored for one height and round, in the order they were stored.
#[derive(Clone, Debug)]
pub struct PartKeys(pub Vec<PartKey>);

/// The largest key of `s`, or 0 when it is empty.
pub open spec fn max_key(s: Seq<u64>) -> int
    decreases s.len(),
{
    if s.len() == 0 {
        0
    } else {
        let m = max_key(s.drop_last());
        if s[s.len() - 1] > m {
            s[s.len() - 1] as int
        } else {
            m
        }
    }
}

/// The key a new part gets: one more than the largest key, or 1 when there is none.
pub open spec fn next_key_of(s: Seq<u64>) -> int {
    if s.len() == 0 {
        1
    } else {
        max_key(s) + 1
    }
}

/// `max_key` bounds every key, and is one of them when there is any.
pub proof fn lemma_max_key(s: Seq<u64>)
    ensures
        forall|i: int| 0 <= i < s.len() ==> s[i] <= max_key(s),
        s.len() > 0 ==> exists|i: int| 0 <= i < s.len() && s[i] == max_key(s),
        0 <= max_key(s),
    decreases s.len(),
{
    if s.len() > 0 {
        let d = s.drop_last();
        lemma_max_key(d);
        if d.len() > 0 {
            let w = choose|i: int| 0 <= i < d.len() && d[i] == max_key(d);
            assert(s[w] == d[w]);
        }
        assert forall|i: int| 0 <= i < s.len() - 1 implies s[i] == d[i] by {}
    }
}

/// The bincode encoding of a sequence of `u64`: the length, then every element, each on
/// eight little-endian bytes.
pub open spec fn bincode_keys(keys: Seq<u64>) -> Seq<u8> {
    le_bytes(keys.len(), 8) + concat_le(keys)
}

/// The eight little-endian bytes of every element of `keys`, one after the other.
pub open spec fn concat_le(keys: Seq<u64>) -> Seq<u8>
    decreases keys.len(),
{
    if keys.len() == 0 {
        Seq::empty()
    } else {
        concat_le(keys.drop_last()) + le_u64(keys[keys.len() - 1])
    }
}

/// The keys read, if any, as plain values.
pub open spec fn keys_read(r: Option<Vec<u64>>) -> Option<Seq<u64>> {
    match r {
        Some(v) => Some(v@),
        None => None,
    }
}

/// What a reader of the bincode encoding must give on `data`: the keys whose encoding
/// starts `data`, if any; nothing when `data` is too short to hold a length.
pub open spec fn reads_bincode_keys(data: Seq<u8>, read: Option<Seq<u64>>) -> bool {
    &&& forall|keys: Seq<u64>, tail: Seq<u8>|
        #![trigger bincode_keys(keys), tail.len()]
        data == bincode_keys(keys) + tail ==> read == Some(keys)
    &&& (read matches Some(keys) ==> bincode_keys(keys).len() <= data.len() && data.take(
        bincode_keys(keys).len() as int,
    ) == bincode_keys(keys))
    &&& (data.len() < 8 ==> read is None)
}

/// Calls `bincode::serialize` on a vector of `u64`: with bincode's default options it
/// writes the length and then every element as eight little-endian bytes, and never fails
/// on a vector.
#[verifier::external_body]
fn bincode_serialize_keys(keys: &Vec<u64>) -> (r: Option<Vec<u8>>)
    ensures
        keys_encoded(r, keys@),
{
    bincode::serialize(keys).ok()
}

/// `r` holds the bincode encoding of `keys`.
pub open spec fn keys_encoded(r: Option<Vec<u8>>, keys: Seq<u64>) -> bool {
    r matches Some(b) && b@ == bincode_keys(keys)
}

/// Calls `bincode::deserialize` for a vector of `u64`: reads the length and that many
/// elements from the front of `data`, ignoring what follows; fails when `data` holds less.
#[verifier::external_body]
fn bincode_deserialize_keys(data: &[u8]) -> (r: Option<Vec<u64>>)
    ensures
        reads_bincode_keys(data@, keys_read(r)),
{
    bincode::deserialize::<Vec<u64>>(data).ok()
}

impl PartKeys {
    /// No keys.
    pub fn new() -> (r: Self)
        ensures
            r.0@ == Seq::<u64>::empty(),
    {
        PartKeys(Vec::new())
    }

    /// The key for the next part: one more than the largest key, or 1 when there is none.
    pub fn next_key(&self) -> (r: PartKey)
        requires
            forall|i: int| 0 <= i < self.0@.len() ==> self.0@[i] < u64::MAX,
        ensures
            r == next_key_of(self.0@),
    {
        let mut best: Option<u64> = None;
        let mut i: usize = 0;
        while i < self.0.len()
            invariant
                i <= self.0@.len(),
                best == if i == 0 { None } else { Some(max_key(self.0@.take(i as int)) as u64) },
                forall|j: int| 0 <= j < self.0@.len() ==> self.0@[j] < u64::MAX,
            decreases self.0@.len() - i,
        {
            let k = self.0[i];
            proof {
                assert(self.0@.take(i as int + 1).drop_last() =~= self.0@.take(i as int));
                lemma_max_key(self.0@.take(i as int));
            }
            best = match best {
                None => Some(k),
                Some(m) => if k > m { Some(k) } else { Some(m) },
            };
            i += 1;
        }
        proof {
            assert(self.0@.take(self.0@.len() as int) =~= self.0@);
            lemma_max_key(self.0@);
        }
        match best {
            None => 1,
            Some(m) => m + 1,
        }
    }

    /// Adds a key at the end.
    pub fn push(&mut self, key: PartKey)
        ensures
            final(self).0@ == old(self).0@.push(key),
    {
        self.0.push(key);
    }

    /// The keys, in order.
    pub fn iter(&self) -> (r: &Vec<PartKey>)
        ensures
            r@ == self.0@,
    {
        &self.0
    }

    /// The bincode encoding of the keys, as the index table stores them.
    pub fn to_bytes(&self) -> (r: Vec<u8>)
        ensures
            r@ == bincode_keys(self.0@),
    {
        match bincode_serialize_keys(&self.0) {
            Some(b) => b,
            None => {
                let mut b: Vec<u8> = Vec::new();
                push_u64_le(&mut b, 0);
                b
            },
        }
    }

    /// The keys that `data` encodes, or `None` when it does not start with an encoding.
    pub fn from_bytes(data: &[u8]) -> (r: Option<Self>)
        ensures
            reads_bincode_keys(data@, match r {
                Some(k) => Some(k.0@),
                None => None,
            }),
    {
        match bincode_deserialize_keys(data) {
            Some(v) => Some(PartKeys(v)),
            None => None,
        }
    }
}

/// The encoding of keys reads back as the same keys.
pub proof fn lemma_part_keys_round_trip(keys: Seq<u64>, data: Seq<u8>, read: Option<Seq<u64>>)
    requires
        data == bincode_keys(keys),
        reads_bincode_keys(data, read),
    ensures
        read == Some(keys),
{
    assert(data == bincode_keys(keys) + Seq::<u8>::empty());
    let _ = bincode_keys(keys);
    let _ = Seq::<u8>::empty().len();
}

/// Storing a part for a height and round: the keys known for them, with the key the part
/// gets added at the end, and that key.
pub fn plan_insert(existing: Option<PartKeys>) -> (r: (PartKeys, PartKey))
    requires
        existing matches Some(k) ==> forall|i: int| 0 <= i < k.0@.len() ==> k.0@[i] < u64::MAX,
    ensures
        ({
            let before = match existing {
                Some(k) => k.0@,
                None => Seq::<u64>::empty(),
            };
            &&& r.1 == next_key_of(before)
            &&& r.0.0@ == before.push(r.1)
        }),
{
    let mut part_keys = match existing {
        Some(k) => k,
        None => PartKeys::new(),
    };
    let next_key = part_keys.next_key();
    part_keys.push(next_key);
    (part_keys, next_key)
}

/// The keys of `s` are strictly increasing: the order they were stored in is the order of
/// their keys.
pub open spec fn keys_increasing(s: Seq<u64>) -> bool {
    forall|i: int, j: int| 0 <= i < j < s.len() ==> s[i] < s[j]
}

/// The key that a new part gets is larger than every key of its height and round, so the
/// parts of a height and round, read in the order of their keys, come in the order they
/// were stored.
pub proof fn lemma_plan_insert_keeps_order(before: Seq<u64>)
    requires
        keys_increasing(before),
        forall|i: int| 0 <= i < before.len() ==> before[i] < u64::MAX,
    ensures
        keys_increasing(before.push(next_key_of(before) as u64)),
        forall|i: int| 0 <= i < before.len() ==> before[i] < next_key_of(before),
{
    lemma_max_key(before);
    let after = before.push(next_key_of(before) as u64);
    assert forall|i: int, j: int| 0 <= i < j < after.len() implies after[i] < after[j] by {
        if j < before.len() {
            assert(after[i] == before[i] && after[j] == before[j]);
        } else {
            assert(after[i] == before[i]);
        }
    }
}

/// The key under which the index stores the keys of a height and round: fork, block
/// number, and the round as a signed number.
pub fn index_key(height: StarknetHeight, round: Round) -> (r: (u64, u64, i64))
    ensures
        r == (height.fork_id, height.block_number, round.spec_as_i64() as i64),
{
    (height.fork_id, height.block_number, round.as_i64())
}

/// The height and round of an index key.
pub fn from_index_key(key: (u64, u64, i64)) -> (r: (StarknetHeight, Round))
    ensures
        r.0 == (StarknetHeight { fork_id: key.0, block_number: key.1 }),
        key.2 < 0 ==> r.1 == Round::Nil,
        key.2 >= 0 ==> r.1 == Round::Defined(key.2 as u32),
{
    (StarknetHeight::new(key.0, key.1), Round::from_i64(key.2))
}

/// An entry of the parts index.
#[derive(Clone, Debug)]
pub struct IndexEntry {
    pub height: StarknetHeight,
    pub round: Round,
    pub keys: PartKeys,
}

/// Holds for the index entries of heights before `retain_height`.
pub open spec fn below(retain_height: StarknetHeight) -> spec_fn(IndexEntry) -> bool {
    |e: IndexEntry| e.height.precedes(retain_height)
}

/// The part keys and the index keys to delete.
pub type PruneSelection = (Vec<PartKeys>, Vec<(StarknetHeight, Round)>);

/// What pruning below `retain_height` removes: the entries of the index for heights before
/// it, given as the part keys to delete and the index keys to delete, both in index order.
#[verifier::spinoff_prover]
pub fn select_for_pruning(entries: &Vec<IndexEntry>, retain_height: StarknetHeight) -> (r: PruneSelection)
    ensures
        ({
            let pruned = entries@.filter(below(retain_height));
            &&& r.0@.len() == pruned.len()
            &&& r.1@.len() == pruned.len()
            &&& forall|i: int| 0 <= i < pruned.len() ==> (#[trigger] r.0@[i]).0@ == pruned[i].keys.0@
                && r.1@[i] == (pruned[i].height, pruned[i].round)
        }),
{
    let ghost p = below(retain_height);
    let mut all_part_keys: Vec<PartKeys> = Vec::new();
    let mut index_keys: Vec<(StarknetHeight, Round)> = Vec::new();
    let mut i: usize = 0;
    while i < entries.len()
        invariant
            i <= entries@.len(),
            p == below(retain_height),
            all_part_keys@.len() == entries@.take(i as int).filter(p).len(),
            index_keys@.len() == entries@.take(i as int).filter(p).len(),
            forall|j: int| 0 <= j < all_part_keys@.len() ==> (#[trigger] all_part_keys@[j]).0@ == entries@.take(i as int).filter(p)[j].keys.0@
                && index_keys@[j] == (entries@.take(i as int).filter(p)[j].height, entries@.take(i as int).filter(p)[j].round),
        decreases entries@.len() - i,
    {
        let e = &entries[i];
        proof {
            reveal(Seq::filter);
            assert(entries@.take(i as int + 1).drop_last() =~= entries@.take(i as int));
        }
        if e.height.lt(&retain_height) {
            all_part_keys.push(PartKeys(crate::part_store::copy_keys(&e.keys.0)));
            index_keys.push((e.height, e.round));
        }
        i += 1;
    }
    assert(entries@.take(entries@.len() as int) =~= entries@);
    (all_part_keys, index_keys)
}

/// A copy of a list of keys.
pub fn copy_keys(v: &Vec<u64>) -> (r: Vec<u64>)
    ensures
        r@ == v@,
{
    let mut out: Vec<u64> = Vec::new();
    let mut i: usize = 0;
    while i < v.len()
        invariant
            i <= v@.len(),
            out@ == v@.take(i as int),
        decreases v@.len() - i,
    {
        out.push(v[i]);
        i += 1;
        assert(out@ =~= v@.take(i as int));
    }
    assert(v@.take(v@.len() as int) =~= v@);
    out
}

} // verus!
