//! The transaction pool of the key-value application: transactions keyed by their hash.
use vstd::prelude::*;
use std::collections::BTreeMap;
use crate::proposal::{txs_view, Transaction};

verus! {

broadcast use {vstd::laws_cmp::group_laws_cmp, vstd::std_specs::btree::group_btree_axioms};

/// The hash that `std::hash::DefaultHasher::new()` gives to a byte vector.
pub uninterp spec fn default_hash(data: Seq<u8>) -> u64;

/// Hashes the bytes of a transaction with `std::hash::DefaultHasher::new()`: a keyed
/// hash whose keys are fixed, so the same bytes always give the same hash in a build.
#[verifier::external_body]
fn tx_hash(data: &Vec<u8>) -> (r: u64)
    ensures
        r == default_hash(data@),
{
    let mut hasher = std::hash::DefaultHasher::new();
    std::hash::Hash::hash(data, &mut hasher);
    std::hash::Hasher::finish(&hasher)
}

/// Calls `std::collections::BTreeMap::pop_first`: removes and returns the entry with the
/// least key, or `None` when the map is empty.
#[verifier::external_body]
fn pop_first(m: &mut BTreeMap<u64, Transaction>) -> (r: Option<(u64, Transaction)>)
    ensures
        r is None <== old(m)@.dom().len() == 0,
        r is None ==> final(m)@ == old(m)@ && old(m)@.dom().len() == 0,
        r matches Some((k, v)) ==> old(m)@.contains_key(k) && old(m)@[k] == v,
        r matches Some((k, v)) ==> final(m)@ == old(m)@.remove(k),
        r matches Some((k, v)) ==> forall|j: u64| old(m)@.contains_key(j) ==> k <= j,
{
    m.pop_first()
}

/// The pool: transactions keyed by the hash of their bytes.
pub struct State {
    pub transactions: BTreeMap<u64, Transaction>,
}

/// The transactions of a map, as plain values.
pub open spec fn pool_view(m: Map<u64, Transaction>) -> Map<u64, Seq<u8>> {
    m.map_values(|t: Transaction| t@)
}

/// The keys of `keys` are strictly increasing.
pub open spec fn increasing(keys: Seq<u64>) -> bool {
    forall|i: int, j: int| 0 <= i < j < keys.len() ==> keys[i] < keys[j]
}

/// `after` is `before` without the entries at `keys`, which are the least keys of `before`
/// in increasing order, and `out` holds their transactions in that order.
pub open spec fn reaped_by(before: Map<u64, Seq<u8>>, after: Map<u64, Seq<u8>>, out: Seq<Seq<u8>>, keys: Seq<u64>) -> bool {
    &&& keys.len() == out.len()
    &&& increasing(keys)
    &&& forall|i: int| 0 <= i < keys.len() ==> before.contains_key(#[trigger] keys[i]) && before[keys[i]] == out[i]
    &&& after == before.remove_keys(keys.to_set())
    &&& forall|i: int, k: u64| #![trigger keys[i], after.contains_key(k)] 0 <= i < keys.len() && after.contains_key(k) ==> keys[i] < k
}

/// Reaping `before` left `after` and took out `out`: the transactions with the ten least
/// keys, or all of them when there are fewer, in increasing order of key.
pub open spec fn reaped(before: Map<u64, Seq<u8>>, after: Map<u64, Seq<u8>>, out: Seq<Seq<u8>>) -> bool {
    &&& out.len() == if before.len() < 10 { before.len() } else { 10 }
    &&& exists|keys: Seq<u64>| reaped_by(before, after, out, keys)
}

impl State {
    /// The transactions of the pool, by key.
    pub open spec fn pool(&self) -> Map<u64, Seq<u8>> {
        pool_view(self.transactions@)
    }

    /// An empty pool.
    pub fn new() -> (r: Self)
        ensures
            r.pool() == Map::<u64, Seq<u8>>::empty(),
    {
        let r = State { transactions: BTreeMap::new() };
        assert(r.pool() =~= Map::<u64, Seq<u8>>::empty());
        r
    }

    /// The number of transactions in the pool.
    pub fn len(&self) -> (r: usize)
        ensures
            r == self.pool().len(),
    {
        assert(self.pool().dom() =~= self.transactions@.dom());
        self.transactions.len()
    }

    /// Adds `tx` under `key`, unless some transaction is there already.
    pub fn add_tx_with_key(&mut self, key: u64, tx: &Transaction)
        ensures
            final(self).pool() == if old(self).pool().contains_key(key) {
                old(self).pool()
            } else {
                old(self).pool().insert(key, tx@)
            },
    {
        if !self.transactions.contains_key(&key) {
            let t = tx.duplicate();
            self.transactions.insert(key, t);
            assert(self.pool() =~= old(self).pool().insert(key, tx@));
        }
    }

    /// Adds `tx` under the hash of its bytes, unless some transaction is there already.
    pub fn add_tx(&mut self, tx: &Transaction)
        ensures
            ({
                let key = default_hash(tx@);
                final(self).pool() == if old(self).pool().contains_key(key) {
                    old(self).pool()
                } else {
                    old(self).pool().insert(key, tx@)
                }
            }),
    {
        let key = tx_hash(&tx.0);
        self.add_tx_with_key(key, tx);
    }

    /// Removes the transaction with the given hash, if there is one.
    pub fn remove_tx(&mut self, hash: &u64)
        ensures
            final(self).pool() == old(self).pool().remove(*hash),
    {
        self.transactions.remove(hash);
        assert(self.pool() =~= old(self).pool().remove(*hash));
    }

    /// A transaction comes in: it is added if the pool holds fewer than `max_tx_count`
    /// transactions, and dropped otherwise.
    pub fn input(&mut self, tx: &Transaction, max_tx_count: usize) -> (added: bool)
        ensures
            added == (old(self).pool().len() < max_tx_count),
            ({
                let key = default_hash(tx@);
                final(self).pool() == if !added || old(self).pool().contains_key(key) {
                    old(self).pool()
                } else {
                    old(self).pool().insert(key, tx@)
                }
            }),
    {
        if self.len() < max_tx_count {
            self.add_tx(tx);
            true
        } else {
            false
        }
    }

    /// Takes the transactions with the least keys out of the pool, in increasing order of
    /// key, ten at most: all of them when there are fewer.
    pub fn reap(&mut self) -> (r: Vec<Transaction>)
        ensures
            reaped(old(self).pool(), final(self).pool(), txs_view(r@)),
    {
        let mut buffer: Vec<Transaction> = Vec::new();
        let ghost mut keys: Seq<u64> = Seq::empty();
        proof {
            assert(old(self).pool().remove_keys(keys.to_set()) =~= old(self).pool());
        }
        while buffer.len() < 10 && self.len() > 0
            invariant
                keys.len() == buffer@.len(),
                buffer@.len() <= 10,
                increasing(keys),
                forall|i: int| 0 <= i < keys.len() ==> old(self).pool().contains_key(#[trigger] keys[i])
                    && old(self).pool()[keys[i]] == buffer@[i]@,
                self.pool() == old(self).pool().remove_keys(keys.to_set()),
                self.pool().len() + buffer@.len() == old(self).pool().len(),
                forall|i: int, k: u64| #![trigger keys[i], self.pool().contains_key(k)] 0 <= i < keys.len() && self.pool().contains_key(k) ==> keys[i] < k,
            decreases 10 - buffer@.len(),
        {
            let ghost before = self.pool();
            let ghost before_buf = buffer@;
            assert(before.dom() =~= self.transactions@.dom());
            match pop_first(&mut self.transactions) {
                Some((k, tx)) => {
                    proof {
                        assert(self.pool() =~= before.remove(k));
                        assert(before.contains_key(k));
                        assert(before[k] == tx@);
                        assert forall|i: int| 0 <= i < keys.len() implies keys[i] < k by {
                            assert(before.contains_key(k));
                        }
                        let prev_keys = keys;
                        keys = keys.push(k);
                        prev_keys.lemma_push_to_set_commute(k);
                        assert(keys.to_set() =~= prev_keys.to_set().insert(k));
                        assert(self.pool() =~= old(self).pool().remove_keys(keys.to_set()));
                        assert(before.len() == self.pool().len() + 1);
                    }
                    buffer.push(tx);
                    proof {
                        assert forall|i: int| 0 <= i < keys.len() implies old(self).pool().contains_key(#[trigger] keys[i])
                            && old(self).pool()[keys[i]] == buffer@[i]@ by {
                            if i < keys.len() - 1 {
                                assert(buffer@[i] == before_buf[i]);
                            } else {
                                assert(buffer@[i] == tx);
                            }
                        }
                        assert forall|i: int, kk: u64| #![trigger keys[i], self.pool().contains_key(kk)] 0 <= i < keys.len() && self.pool().contains_key(kk) implies keys[i] < kk by {
                            if i < keys.len() - 1 {
                            } else {
                                assert(before.contains_key(kk));
                                assert(kk != k);
                            }
                        }
                    }
                },
                None => {
                    assert(false);
                },
            }
        }
        proof {
            let out = txs_view(buffer@);
            assert(keys.len() == out.len());
            assert(forall|i: int| 0 <= i < keys.len() ==> #[trigger] out[i] == buffer@[i]@);
            assert(reaped_by(old(self).pool(), self.pool(), out, keys));
        }
        buffer
    }
}

impl Default for State {
    /// An empty pool.
    fn default() -> (r: Self)
        ensures
            r.pool() == Map::<u64, Seq<u8>>::empty(),
    {
        State::new()
    }
}

/// A message to the mempool actor.
#[derive(Clone, Debug)]
pub enum MempoolMsg {
    /// A gossip event.
    GossipEvent(MempoolGossipEvent),
    /// A transaction came in.
    Input(Transaction),
    /// A request for transactions to build a proposal from.
    TxStream,
    /// The transactions of a decided block, to forget.
    Update(Vec<u64>),
}

/// A gossip event, as far as the mempool cares.
#[derive(Clone, Debug)]
pub enum MempoolGossipEvent {
    /// Listening on an address.
    Listening,
    /// A peer connected.
    PeerConnected,
    /// A peer disconnected.
    PeerDisconnected,
    /// A peer sent a batch of transactions.
    TransactionBatch(Vec<Transaction>),
}

/// What the mempool actor does after a message.
#[derive(Clone, Debug)]
pub enum MempoolAction {
    /// Nothing more.
    Nothing,
    /// Send each of these transactions to itself as an `Input`.
    Forward(Vec<Transaction>),
    /// Answer the request with these transactions.
    Reply(Vec<Transaction>),
}

/// The mempool actor of the key-value application.
#[derive(Copy, Clone, Debug)]
pub struct KvMempool {
    /// The most transactions the pool holds.
    pub max_tx_count: usize,
}

impl KvMempool {
    /// A mempool actor holding at most `max_tx_count` transactions.
    pub fn new(max_tx_count: usize) -> (r: Self)
        ensures
            r.max_tx_count == max_tx_count,
    {
        KvMempool { max_tx_count }
    }

    /// Handles a message: a batch received from a peer is forwarded as inputs; an input
    /// is added if the pool has room; a request reaps up to ten transactions; an update
    /// leaves the pool as it is.
    pub fn handle(&self, msg: MempoolMsg, state: &mut State) -> (r: MempoolAction)
        ensures
            match msg {
                MempoolMsg::GossipEvent(MempoolGossipEvent::TransactionBatch(batch)) => {
                    &&& final(state).pool() == old(state).pool()
                    &&& r matches MempoolAction::Forward(txs) && txs_view(txs@) == txs_view(batch@)
                },
                MempoolMsg::GossipEvent(_) => final(state).pool() == old(state).pool() && r is Nothing,
                MempoolMsg::Input(tx) => {
                    &&& r is Nothing
                    &&& final(state).pool() == if old(state).pool().len() < self.max_tx_count
                        && !old(state).pool().contains_key(default_hash(tx@)) {
                        old(state).pool().insert(default_hash(tx@), tx@)
                    } else {
                        old(state).pool()
                    }
                },
                MempoolMsg::TxStream => r matches MempoolAction::Reply(txs) && reaped(old(state).pool(), final(state).pool(), txs_view(txs@)),
                MempoolMsg::Update(_) => final(state).pool() == old(state).pool() && r is Nothing,
            },
    {
        match msg {
            MempoolMsg::GossipEvent(MempoolGossipEvent::TransactionBatch(batch)) => MempoolAction::Forward(batch),
            MempoolMsg::GossipEvent(_) => MempoolAction::Nothing,
            MempoolMsg::Input(tx) => {
                state.input(&tx, self.max_tx_count);
                MempoolAction::Nothing
            },
            MempoolMsg::TxStream => {
                let txs = state.reap();
                MempoolAction::Reply(txs)
            },
            MempoolMsg::Update(_) => MempoolAction::Nothing,
        }
    }
}

} // verus!
