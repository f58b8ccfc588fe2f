//! The decisions of the ABCI host: which proposal parts it keeps, what it broadcasts when
//! it proposes, what it asks the application, and which height comes next.
use vstd::prelude::*;
use crate::address::Address;
use crate::bytes_buf::{bytes_contents, bytes_empty};
use crate::height::{AbciHeight, Height};
use crate::keys::PublicKey;
use crate::proposal::{
    all_txs, concat_sign_bytes, fills_block, first_init, has_fin, keccak256_digest, parts_view,
    proposal_parts_of, txs_view, find_fin, build_value_from_parts, build_proposal_parts, get_tx_bytes, bytes_view,
    BlockHash, PartView, ProposalInit, ProposalPart, ProposedValue, Transaction, Validity,
};
use crate::round::Round;
use crate::validator_set::ValidatorSet;
use crate::abci_app::AbciReply;
use crate::proposal::vecs_view;

verus! {

/// The transactions to propose from the application's reply to `PrepareProposal`: those of
/// the expected response, in order; none, and so no proposal, for any other reply.
pub fn transactions_to_propose(reply: AbciReply<Vec<Vec<u8>>>) -> (r: Option<Vec<Transaction>>)
    ensures
        match reply {
            AbciReply::Expected(txs) => r matches Some(v) && txs_view(v@) == vecs_view(txs@),
            _ => r is None,
        },
{
    match reply {
        AbciReply::Expected(txs) => {
            let mut out: Vec<Transaction> = Vec::new();
            let mut i: usize = 0;
            while i < txs.len()
                invariant
                    i <= txs@.len(),
                    txs_view(out@) == vecs_view(txs@.take(i as int)),
                decreases txs@.len() - i,
            {
                let ghost before = out@;
                let t = Transaction::new(crate::encoding::copy_bytes(&txs[i]));
                assert(t@ == txs@[i as int]@);
                out.push(t);
                assert(out@ =~= before.push(t));
                assert(txs@.take(i as int + 1) =~= txs@.take(i as int).push(txs@[i as int]));
                assert(txs_view(out@) =~= txs_view(before).push(t@));
                assert(vecs_view(txs@.take(i as int + 1)) =~= vecs_view(txs@.take(i as int)).push(txs@[i as int]@));
                i += 1;
            }
            assert(txs@.take(i as int) =~= txs@);
            Some(out)
        },
        _ => None,
    }
}

/// Where the requests that report a decision to the application stand.
#[derive(Copy, Clone, Debug, PartialEq, Eq, Structural)]
pub enum DecisionStep {
    /// Ask the application to process the proposal.
    ProcessProposal,
    /// Ask the application to finalize the block.
    FinalizeBlock,
    /// Ask the application to commit.
    Commit,
    /// All three requests were answered: the next height starts.
    Done,
    /// A request was not answered as expected: the decision is left there.
    Abandoned,
}

/// The step after `step` once its request was answered, as expected or not.
pub open spec fn decision_step_after(step: DecisionStep, answered: bool) -> DecisionStep {
    match step {
        DecisionStep::Done => DecisionStep::Done,
        DecisionStep::Abandoned => DecisionStep::Abandoned,
        _ => if !answered {
            DecisionStep::Abandoned
        } else {
            match step {
                DecisionStep::ProcessProposal => DecisionStep::FinalizeBlock,
                DecisionStep::FinalizeBlock => DecisionStep::Commit,
                _ => DecisionStep::Done,
            }
        },
    }
}

/// A request that is not answered as expected ends the decision: from any step that still
/// has a request to make, an unanswered request leads to `Abandoned`, and no later request
/// is made. Answered requests go through ProcessProposal, FinalizeBlock and Commit in this
/// order to `Done`, and `Done` and `Abandoned` are final.
pub proof fn lemma_decision_steps(step: DecisionStep, answered: bool)
    ensures
        step != DecisionStep::Done && step != DecisionStep::Abandoned ==> decision_step_after(step, false)
            == DecisionStep::Abandoned,
        decision_step_after(DecisionStep::ProcessProposal, true) == DecisionStep::FinalizeBlock,
        decision_step_after(DecisionStep::FinalizeBlock, true) == DecisionStep::Commit,
        decision_step_after(DecisionStep::Commit, true) == DecisionStep::Done,
        decision_step_after(DecisionStep::Done, answered) == DecisionStep::Done,
        decision_step_after(DecisionStep::Abandoned, answered) == DecisionStep::Abandoned,
{
}

/// The step after `step`: the next request once this one was answered as expected, and
/// `Abandoned` once one was not; `Done` and `Abandoned` stay.
pub fn next_decision_step(step: DecisionStep, answered: bool) -> (r: DecisionStep)
    ensures
        r == decision_step_after(step, answered),
        !answered && step != DecisionStep::Done ==> r == DecisionStep::Abandoned,
{
    match step {
        DecisionStep::Done => DecisionStep::Done,
        DecisionStep::Abandoned => DecisionStep::Abandoned,
        _ => if !answered {
            DecisionStep::Abandoned
        } else {
            match step {
                DecisionStep::ProcessProposal => DecisionStep::FinalizeBlock,
                DecisionStep::FinalizeBlock => DecisionStep::Commit,
                _ => DecisionStep::Done,
            }
        },
    }
}

/// A proposal part kept for the height and round it belongs to.
#[derive(Clone, Debug)]
pub struct StoredPart {
    pub height: AbciHeight,
    pub round: Round,
    pub part: ProposalPart,
}

/// The proposal parts the host has seen, in the order it saw them.
#[derive(Clone, Debug)]
pub struct PartStore {
    pub parts: Vec<StoredPart>,
}

/// A stored part as plain values.
pub open spec fn stored_view(p: StoredPart) -> (AbciHeight, Round, PartView) {
    (p.height, p.round, p.part@)
}

/// The parts of `s` for `height` and `round`, in the order they were stored.
pub open spec fn parts_at(s: Seq<(AbciHeight, Round, PartView)>, height: AbciHeight, round: Round) -> Seq<PartView>
    decreases s.len(),
{
    if s.len() == 0 {
        Seq::empty()
    } else {
        let rest = parts_at(s.drop_last(), height, round);
        let (h, r, p) = s[s.len() - 1];
        if h == height && r == round {
            rest.push(p)
        } else {
            rest
        }
    }
}

/// The entries of `s` at `min_height` or above, in order.
pub open spec fn retained_from(s: Seq<(AbciHeight, Round, PartView)>, min_height: AbciHeight) -> Seq<(AbciHeight, Round, PartView)>
    decreases s.len(),
{
    if s.len() == 0 {
        s
    } else {
        let rest = retained_from(s.drop_last(), min_height);
        if s[s.len() - 1].0.0 >= min_height.0 {
            rest.push(s[s.len() - 1])
        } else {
            rest
        }
    }
}

/// Storing a part adds it at the end of the parts kept for its height and round, and
/// changes the parts of no other height and round.
pub proof fn lemma_parts_at_push(
    s: Seq<(AbciHeight, Round, PartView)>,
    e: (AbciHeight, Round, PartView),
    height: AbciHeight,
    round: Round,
)
    ensures
        parts_at(s.push(e), height, round) == if e.0 == height && e.1 == round {
            parts_at(s, height, round).push(e.2)
        } else {
            parts_at(s, height, round)
        },
{
    assert(s.push(e).drop_last() =~= s);
}

impl PartStore {
    /// The stored entries as plain values.
    pub open spec fn entries(&self) -> Seq<(AbciHeight, Round, PartView)> {
        self.parts@.map_values(|p: StoredPart| stored_view(p))
    }

    /// An empty store.
    pub fn new() -> (r: Self)
        ensures
            r.entries() == Seq::<(AbciHeight, Round, PartView)>::empty(),
    {
        let r = PartStore { parts: Vec::new() };
        assert(r.entries() =~= Seq::<(AbciHeight, Round, PartView)>::empty());
        r
    }

    /// Keeps `part` as a part for `height` and `round`.
    pub fn store(&mut self, height: AbciHeight, round: Round, part: ProposalPart)
        ensures
            final(self).entries() == old(self).entries().push((height, round, part@)),
    {
        self.parts.push(StoredPart { height, round, part });
        assert(self.entries() =~= old(self).entries().push((height, round, part@)));
    }

    /// All the parts for `height` and `round`, in the order they were stored.
    pub fn all_parts(&self, height: AbciHeight, round: Round) -> (r: Vec<ProposalPart>)
        ensures
            parts_view(r@) == parts_at(self.entries(), height, round),
    {
        let mut out: Vec<ProposalPart> = Vec::new();
        let mut i: usize = 0;
        while i < self.parts.len()
            invariant
                i <= self.parts@.len(),
                parts_view(out@) == parts_at(self.entries().take(i as int), height, round),
            decreases self.parts@.len() - i,
        {
            proof {
                assert(self.entries().take(i as int + 1).drop_last() =~= self.entries().take(i as int));
                assert(self.entries().take(i as int + 1)[i as int] == stored_view(self.parts@[i as int]));
            }
            let ghost prev = out@;
            if self.parts[i].height == height && self.parts[i].round == round {
                let p = self.parts[i].part.duplicate();
                out.push(p);
                assert(parts_view(out@) =~= parts_view(prev).push(p@));
            }
            i += 1;
        }
        assert(self.entries().take(self.parts@.len() as int) =~= self.entries());
        out
    }

    /// Drops every part of a height below `min_height`.
    pub fn prune(&mut self, min_height: AbciHeight)
        ensures
            final(self).entries() == retained_from(old(self).entries(), min_height),
    {
        let mut kept: Vec<StoredPart> = Vec::new();
        let ghost old_entries = self.entries();
        let mut i: usize = 0;
        while i < self.parts.len()
            invariant
                i <= self.parts@.len(),
                old_entries == self.entries(),
                kept@.map_values(|p: StoredPart| stored_view(p)) == retained_from(
                    old_entries.take(i as int),
                    min_height,
                ),
            decreases self.parts@.len() - i,
        {
            proof {
                assert(old_entries.take(i as int + 1).drop_last() =~= old_entries.take(i as int));
                assert(old_entries.take(i as int + 1)[i as int] == stored_view(self.parts@[i as int]));
            }
            let ghost prev = kept@;
            if self.parts[i].height.0 >= min_height.0 {
                let e = StoredPart {
                    height: self.parts[i].height,
                    round: self.parts[i].round,
                    part: self.parts[i].part.duplicate(),
                };
                kept.push(e);
                assert(kept@.map_values(|p: StoredPart| stored_view(p)) =~= prev.map_values(
                    |p: StoredPart| stored_view(p),
                ).push(stored_view(e)));
            }
            i += 1;
        }
        assert(old_entries.take(old_entries.len() as int) =~= old_entries);
        self.parts = kept;
    }
}

/// What a stream message carries: a proposal part, or the end of the stream.
#[derive(Clone, Debug)]
pub enum StreamContent {
    Data(ProposalPart),
    Fin(bool),
}

/// A message of a stream of proposal parts.
#[derive(Clone, Debug)]
pub struct StreamMessage {
    pub stream_id: u64,
    pub sequence: u64,
    pub content: StreamContent,
}

/// The arguments of a `PrepareProposal` request to the application.
#[derive(Clone, Debug)]
pub struct PrepareProposalArgs {
    pub max_tx_bytes: i64,
    pub height: i64,
    pub next_validators_hash: Vec<u8>,
    pub proposer_address: Vec<u8>,
}

/// The arguments of the requests that report a decision to the application.
#[derive(Debug)]
pub struct DecisionArgs {
    pub txs: Vec<bytes::Bytes>,
    pub height: i64,
    pub hash: Vec<u8>,
    pub next_validators_hash: Vec<u8>,
    pub proposer_address: bytes::Bytes,
}

/// The state that the host keeps between messages.
#[derive(Clone, Debug)]
pub struct HostState {
    pub height: AbciHeight,
    pub round: Round,
    pub proposer: Option<Address>,
    pub part_store: PartStore,
    pub next_stream_id: u64,
}

/// The parts `s` make a whole proposal: there is an `Init` part and a `Fin` part.
pub open spec fn complete(s: Seq<PartView>) -> bool {
    s.len() > 0 && first_init(s) is Some && has_fin(s)
}

/// The value that the whole proposal made of `s` proposes at `height` and `round`.
pub open spec fn value_of(s: Seq<PartView>, height: AbciHeight, round: Round, v: ProposedValue) -> bool {
    &&& v.value.0@ == keccak256_digest(concat_sign_bytes(s))
    &&& v.validator_address == first_init(s)->0.proposer
    &&& v.validity == Validity::Valid
    &&& v.height == height
    &&& v.round == round
}

/// The bytes of the first key of the validator set: the hash the application is told
/// for the next validators.
fn next_validators_hash(validators: &ValidatorSet) -> (r: Vec<u8>)
    requires
        validators.validators@.len() > 0,
    ensures
        r@ == validators.validators@[0].public_key.bytes@,
{
    let keys = validators.get_keys();
    let b = keys[0].as_bytes();
    let mut out: Vec<u8> = Vec::new();
    crate::encoding::push_bytes(&mut out, vstd::array::array_as_slice(&b));
    out
}

impl HostState {
    /// The state before the first round: height 0, no round, no proposer, no parts.
    pub fn new() -> (r: Self)
        ensures
            r.height == AbciHeight(0),
            r.round == Round::Nil,
            r.proposer is None,
            r.part_store.entries() == Seq::<(AbciHeight, Round, PartView)>::empty(),
            r.next_stream_id == 0,
    {
        HostState {
            height: AbciHeight::new(0),
            round: Round::Nil,
            proposer: None,
            part_store: PartStore::new(),
            next_stream_id: 0,
        }
    }

    /// A round starts: remember its height, number and proposer.
    pub fn start_round(&mut self, height: AbciHeight, round: Round, proposer: Address)
        ensures
            final(self).height == height,
            final(self).round == round,
            final(self).proposer == Some(proposer),
            final(self).part_store == old(self).part_store,
            final(self).next_stream_id == old(self).next_stream_id,
    {
        self.height = height;
        self.round = round;
        self.proposer = Some(proposer);
    }

    /// The `PrepareProposal` request for `height`: at most 10 bytes of transactions, the
    /// first validator's key as the next validators' hash, and the current proposer.
    pub fn prepare_proposal_args(&self, validators: &ValidatorSet, height: AbciHeight) -> (r:
        PrepareProposalArgs)
        requires
            self.proposer is Some,
            validators.validators@.len() > 0,
        ensures
            r.max_tx_bytes == 10,
            r.height == height.0 as i64,
            r.next_validators_hash@ == validators.validators@[0].public_key.bytes@,
            r.proposer_address@ == (self.proposer->0).0.bytes@,
    {
        let proposer = match self.proposer {
            Some(p) => p,
            None => return PrepareProposalArgs {
                max_tx_bytes: 10,
                height: 0,
                next_validators_hash: Vec::new(),
                proposer_address: Vec::new(),
            },
        };
        let pb = proposer.as_bytes();
        let mut proposer_address: Vec<u8> = Vec::new();
        crate::encoding::push_bytes(&mut proposer_address, vstd::array::array_as_slice(&pb));
        PrepareProposalArgs {
            max_tx_bytes: 10,
            height: height.as_u64() as i64,
            next_validators_hash: next_validators_hash(validators),
            proposer_address,
        }
    }

    /// Proposes a block of `txes` at `height` and `round` as `address`: builds its parts,
    /// keeps them, and returns the block hash, the messages that stream the parts under a
    /// fresh stream id (one per part, numbered from 0, then the end of the stream), and the
    /// value read back from all the parts kept for that height and round.
    pub fn propose(
        &mut self,
        height: AbciHeight,
        round: Round,
        address: Address,
        max_block_size: u64,
        txes: Vec<Transaction>,
    ) -> (r: (BlockHash, Vec<StreamMessage>, Option<ProposedValue>))
        requires
            old(self).next_stream_id < u64::MAX,
        ensures
            ({
                let (hash, msgs, value) = r;
                let sid = old(self).next_stream_id;
                let store = final(self).part_store.entries();
                let mine = parts_at(store, height, round);
                &&& final(self).next_stream_id == sid + 1
                &&& final(self).height == old(self).height
                &&& final(self).round == old(self).round
                &&& final(self).proposer == old(self).proposer
                &&& msgs@.len() == 5
                &&& forall|i: int| 0 <= i < 5 ==> (#[trigger] msgs@[i]).stream_id == sid && msgs@[i].sequence == i
                &&& (forall|i: int| 0 <= i < 4 ==> ((#[trigger] msgs@[i]).content matches StreamContent::Data(p)
                    && p@ == store[old(self).part_store.entries().len() + i].2))
                &&& msgs@[msgs@.len() - 1].content == StreamContent::Fin(true)
                &&& exists|k: int| fills_block(txs_view(txes@), max_block_size as int, k)
                    && store == old(self).part_store.entries() + proposal_parts_of(height, round, address, txs_view(txes@).take(k)).map_values(
                        |p: PartView| (height, round, p),
                    )
                &&& hash.0@ == keccak256_digest(concat_sign_bytes(store.skip(old(self).part_store.entries().len() as int).map_values(
                    |e: (AbciHeight, Round, PartView)| e.2,
                )))
                &&& value is Some <==> complete(mine)
                &&& value matches Some(v) ==> value_of(mine, height, round, v)
                &&& parts_at(old(self).part_store.entries(), height, round).len() == 0 ==> (value matches Some(v)
                    && v.value == hash && v.validator_address == address)
            }),
    {
        let (hash, parts) = build_proposal_parts(height, round, address, max_block_size, txes);
        let ghost pv = parts_view(parts@);
        let ghost old_store = self.part_store.entries();
        let stream_id = self.next_stream_id;
        self.next_stream_id = self.next_stream_id + 1;
        let mut msgs: Vec<StreamMessage> = Vec::new();
        let mut i: usize = 0;
        while i < parts.len()
            invariant
                i <= parts@.len(),
                parts@.len() == 4,
                pv == parts_view(parts@),
                self.height == old(self).height,
                self.round == old(self).round,
                self.proposer == old(self).proposer,
                self.next_stream_id == stream_id + 1,
                self.part_store.entries() == old_store + pv.take(i as int).map_values(
                    |p: PartView| (height, round, p),
                ),
                msgs@.len() == i,
                forall|j: int| 0 <= j < i ==> (#[trigger] msgs@[j]).stream_id == stream_id && msgs@[j].sequence == j,
                forall|j: int| 0 <= j < i ==> ((#[trigger] msgs@[j]).content matches StreamContent::Data(p)
                    && p@ == pv[j]),
            decreases parts@.len() - i,
        {
            let ghost before = self.part_store.entries();
            self.part_store.store(height, round, parts[i].duplicate());
            msgs.push(StreamMessage { stream_id, sequence: i as u64, content: StreamContent::Data(parts[i].duplicate()) });
            i += 1;
            assert(pv.take(i as int).map_values(|p: PartView| (height, round, p)) =~= pv.take(
                (i - 1) as int,
            ).map_values(|p: PartView| (height, round, p)).push((height, round, pv[i - 1])));
        }
        msgs.push(StreamMessage { stream_id, sequence: i as u64, content: StreamContent::Fin(true) });
        let all = self.part_store.all_parts(height, round);
        let value = build_value_from_parts(&all, height, round);
        proof {
            let store = self.part_store.entries();
            assert(pv.take(4) =~= pv);
            assert(store.skip(old_store.len() as int).map_values(|e: (AbciHeight, Round, PartView)| e.2) =~= pv);
            lemma_parts_at_append(old_store, pv, height, round);
            if parts_at(old_store, height, round).len() == 0 {
                assert(parts_at(store, height, round) =~= pv);
                let k = choose|k: int| fills_block(txs_view(txes@), max_block_size as int, k)
                    && pv == proposal_parts_of(height, round, address, txs_view(txes@).take(k));
                assert(pv[0] == proposal_parts_of(height, round, address, txs_view(txes@).take(k))[0]);
                assert(pv.take(1).drop_last() =~= Seq::<PartView>::empty());
                assert(first_init(pv.take(1)) is Some);
                crate::proposal::lemma_first_init_prefix(pv, 1);
                assert(pv[3] is Fin);
                if value is Some {
                    let v = value->0;
                    broadcast use vstd::array::group_array_axioms;
                    assert(v.value.0@ == hash.0@);
                    assert(v.value.0 =~= hash.0);
                    assert(pv.take(1)[0] == pv[0]);
                    assert(first_init(pv.take(1).drop_last()) is None);
                    assert(pv[0] == PartView::Init(
                        ProposalInit { block_number: height, fork_id: 1, proposal_round: round, proposer: address },
                    ));
                    assert(first_init(pv.take(1)) == Some(
                        ProposalInit { block_number: height, fork_id: 1, proposal_round: round, proposer: address },
                    ));
                    assert(v.validator_address == first_init(pv)->0.proposer);
                }
            }
        }
        (hash, msgs, value)
    }
}

/// Keeps `part` for `height` and `round`; once a `Fin` part is among the parts kept for
/// them, returns the value that those parts propose, if they make a whole proposal.
pub fn build_value_from_part(state: &mut HostState, height: AbciHeight, round: Round, part: ProposalPart) -> (r:
    Option<ProposedValue>)
    ensures
        final(state).part_store.entries() == old(state).part_store.entries().push((height, round, part@)),
        final(state).height == old(state).height,
        final(state).round == old(state).round,
        final(state).proposer == old(state).proposer,
        final(state).next_stream_id == old(state).next_stream_id,
        ({
            let mine = parts_at(final(state).part_store.entries(), height, round);
            &&& r is Some <==> complete(mine)
            &&& r matches Some(v) ==> value_of(mine, height, round, v)
        }),
{
    state.part_store.store(height, round, part);
    let all_parts = state.part_store.all_parts(height, round);
    if !find_fin(&all_parts) {
        return None;
    }
    build_value_from_parts(&all_parts, height, round)
}

/// `s` extended with the first `j` parts of `ps`, kept for `height` and `round`.
pub open spec fn stored_with(
    s: Seq<(AbciHeight, Round, PartView)>,
    height: AbciHeight,
    round: Round,
    ps: Seq<PartView>,
    j: int,
) -> Seq<(AbciHeight, Round, PartView)> {
    s + ps.take(j).map_values(|p: PartView| (height, round, p))
}

impl HostState {
    /// Handles the parts of a proposal for `height` and `round` received from a peer.
    /// Parts of a height below the current one are ignored. Otherwise the parts are kept
    /// one by one, until those kept for the height and round make a whole proposal;
    /// its value is returned, and the parts after it are left aside.
    pub fn receive_parts(&mut self, height: AbciHeight, round: Round, parts: Vec<ProposalPart>) -> (r:
        Option<ProposedValue>)
        ensures
            final(self).height == old(self).height,
            final(self).round == old(self).round,
            final(self).proposer == old(self).proposer,
            final(self).next_stream_id == old(self).next_stream_id,
            height.0 < old(self).height.0 ==> r is None && final(self).part_store.entries()
                == old(self).part_store.entries(),
            height.0 >= old(self).height.0 ==> ({
                let s = old(self).part_store.entries();
                let ps = parts_view(parts@);
                let prior = parts_at(s, height, round);
                exists|k: int|
                    #![trigger stored_with(s, height, round, ps, k)]
                    0 <= k <= ps.len() && final(self).part_store.entries() == stored_with(s, height, round, ps, k)
                        && (forall|j: int| 1 <= j < k ==> !complete(#[trigger] (prior + ps.take(j))))
                        && (r matches Some(v) ==> k >= 1 && complete(prior + ps.take(k)) && value_of(
                        prior + ps.take(k),
                        height,
                        round,
                        v,
                    )) && (r is None ==> k == ps.len() && (k >= 1 ==> !complete(prior + ps.take(k))))
            }),
    {
        if height.lt(&self.height) {
            return None;
        }
        let ghost s = old(self).part_store.entries();
        let ghost ps = parts_view(parts@);
        let ghost prior = parts_at(s, height, round);
        let mut i: usize = 0;
        while i < parts.len()
            invariant
                i <= parts@.len(),
                ps == parts_view(parts@),
                s == old(self).part_store.entries(),
                prior == parts_at(s, height, round),
                height.0 >= old(self).height.0,
                self.height == old(self).height,
                self.round == old(self).round,
                self.proposer == old(self).proposer,
                self.next_stream_id == old(self).next_stream_id,
                self.part_store.entries() == stored_with(s, height, round, ps, i as int),
                forall|j: int| 1 <= j <= i ==> !complete(#[trigger] (prior + ps.take(j))),
            decreases parts@.len() - i,
        {
            let v = build_value_from_part(self, height, round, parts[i].duplicate());
            i += 1;
            proof {
                assert(stored_with(s, height, round, ps, i as int) =~= stored_with(
                    s,
                    height,
                    round,
                    ps,
                    i - 1,
                ).push((height, round, ps[i - 1])));
                lemma_parts_at_append(s, ps.take(i as int), height, round);
            }
            if v.is_some() {
                proof {
                    assert(parts_at(self.part_store.entries(), height, round) == prior + ps.take(i as int));
                    assert(self.part_store.entries() == stored_with(s, height, round, ps, i as int));
                }
                return v;
            }
        }
        proof {
            assert(self.part_store.entries() == stored_with(s, height, round, ps, ps.len() as int));
        }
        None
    }

    /// The arguments of the requests that report the decision on `block_hash` at `height`
    /// and `round`: the transactions of the parts kept for them, the first validator's key
    /// as the next validators' hash, and the current proposer, if any.
    pub fn decision_args(
        &self,
        validators: &ValidatorSet,
        height: AbciHeight,
        round: Round,
        block_hash: BlockHash,
    ) -> (r: DecisionArgs)
        requires
            validators.validators@.len() > 0,
        ensures
            bytes_view(r.txs@) == all_txs(parts_at(self.part_store.entries(), height, round)),
            r.height == height.0 as i64,
            r.hash@ == block_hash.0@,
            r.next_validators_hash@ == validators.validators@[0].public_key.bytes@,
            bytes_contents(r.proposer_address) == match self.proposer {
                Some(p) => p.0.bytes@,
                None => Seq::<u8>::empty(),
            },
    {
        let all_parts = self.part_store.all_parts(height, round);
        let txs = get_tx_bytes(&all_parts);
        let proposer_address = match self.proposer {
            Some(p) => p.to_bytes(),
            None => bytes_empty(),
        };
        let hb = block_hash.0;
        let mut hash: Vec<u8> = Vec::new();
        crate::encoding::push_bytes(&mut hash, vstd::array::array_as_slice(&hb));
        DecisionArgs {
            txs,
            height: height.as_u64() as i64,
            hash,
            next_validators_hash: next_validators_hash(validators),
            proposer_address,
        }
    }

    /// After the application has committed a decision: drops the parts of heights below the
    /// current one and returns the height to start next, the one after the current one.
    pub fn finish_decision(&mut self) -> (r: AbciHeight)
        requires
            old(self).height.0 < u64::MAX,
        ensures
            final(self).part_store.entries() == retained_from(old(self).part_store.entries(), old(self).height),
            final(self).height == old(self).height,
            final(self).round == old(self).round,
            final(self).proposer == old(self).proposer,
            final(self).next_stream_id == old(self).next_stream_id,
            r.0 == old(self).height.0 + 1,
    {
        let h = self.height;
        self.part_store.prune(h);
        h.increment()
    }
}

/// A proposal whose parts arrive in the order they were streamed gives back the value its
/// proposer built: the parts make a whole proposal only once the last one, the `Fin`
/// part, has arrived, and the value then has the block hash of all the parts and names
/// the proposer.
pub proof fn lemma_streamed_proposal_read_back(
    height: AbciHeight,
    round: Round,
    proposer: Address,
    txs: Seq<Seq<u8>>,
    k: int,
    v: ProposedValue,
)
    requires
        1 <= k <= 4,
        complete(proposal_parts_of(height, round, proposer, txs).take(k)),
        value_of(proposal_parts_of(height, round, proposer, txs).take(k), height, round, v),
    ensures
        k == 4,
        v.value.0@ == keccak256_digest(concat_sign_bytes(proposal_parts_of(height, round, proposer, txs))),
        v.validator_address == proposer,
        v.height == height,
        v.round == round,
{
    let pv = proposal_parts_of(height, round, proposer, txs);
    let init = ProposalInit { block_number: height, fork_id: 1, proposal_round: round, proposer };
    if k < 4 {
        let i = choose|i: int| 0 <= i < pv.take(k).len() && pv.take(k)[i] is Fin;
        assert(pv.take(k)[i] == pv[i]);
        assert(false);
    }
    assert(pv.take(4) =~= pv);
    assert(pv.take(1).drop_last() =~= Seq::<PartView>::empty());
    assert(pv.take(1)[0] == PartView::Init(init));
    assert(first_init(Seq::<PartView>::empty()) is None);
    assert(first_init(pv.take(1).drop_last()) is None);
    assert(first_init(pv.take(1)) == Some(init));
    crate::proposal::lemma_first_init_prefix(pv, 1);
}

/// Storing a run of parts for one height and round appends them to the parts of that
/// height and round.
pub proof fn lemma_parts_at_append(
    s: Seq<(AbciHeight, Round, PartView)>,
    ps: Seq<PartView>,
    height: AbciHeight,
    round: Round,
)
    ensures
        parts_at(s + ps.map_values(|p: PartView| (height, round, p)), height, round) == parts_at(
            s,
            height,
            round,
        ) + ps,
    decreases ps.len(),
{
    if ps.len() == 0 {
        assert(s + ps.map_values(|p: PartView| (height, round, p)) =~= s);
        assert(parts_at(s, height, round) + ps =~= parts_at(s, height, round));
    } else {
        let init = ps.drop_last();
        lemma_parts_at_append(s, init, height, round);
        let whole = s + ps.map_values(|p: PartView| (height, round, p));
        assert(whole.drop_last() =~= s + init.map_values(|p: PartView| (height, round, p)));
        assert(parts_at(s, height, round) + ps =~= (parts_at(s, height, round) + init).push(ps[ps.len() - 1]));
    }
}

} // verus!
