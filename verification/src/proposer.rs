//! Choosing the proposer of a round.
use vstd::prelude::*;
use crate::address::Address;
use crate::consensus_types::{NilOrVal, Proposal, Vote};
use crate::height::{Height, StarknetHeight};
use crate::keys::PrivateKey;
use crate::proposal::BlockHash;
use crate::round::Round;
use crate::validator_set::{Validator, ValidatorSet};

verus! {

/// Picks the proposer of a round by rotating through the validator set.
#[derive(Copy, Clone, Debug)]
pub struct RotateProposer;

/// Always picks the same proposer.
#[derive(Copy, Clone, Debug)]
pub struct FixedProposer {
    pub proposer: Address,
}

impl RotateProposer {
    /// The address of the validator at position `round % count`, where a `Nil` round
    /// counts as `usize::MAX`.
    pub fn select_proposer(&self, round: Round, validator_set: &ValidatorSet) -> (r: Address)
        requires
            validator_set.validators@.len() > 0,
        ensures
            r == validator_set.validators@[((round.spec_as_i64() as usize) as int) % (validator_set.validators@.len() as int)].address,
    {
        let proposer_index = (round.as_i64() as usize) % validator_set.validators.len();
        validator_set.validators[proposer_index].address
    }
}

impl FixedProposer {
    /// A selector that always picks `proposer`.
    pub fn new(proposer: Address) -> (r: Self)
        ensures
            r.proposer == proposer,
    {
        FixedProposer { proposer }
    }

    /// The fixed proposer, whatever the round and validators.
    pub fn select_proposer(&self, _round: Round, _validator_set: &ValidatorSet) -> (r: Address)
        ensures
            r == self.proposer,
    {
        self.proposer
    }
}

/// The consensus context of a Starknet node: it signs with the node's private key.
#[derive(Copy, Clone, Debug)]
pub struct MockContext {
    pub private_key: PrivateKey,
}

impl MockContext {
    /// The context of a node with the given private key.
    pub fn new(private_key: PrivateKey) -> (r: Self)
        ensures
            r.private_key == private_key,
    {
        MockContext { private_key }
    }

    /// The proposer of `round` at `height`: the validator at position
    /// `(height - 1 + round) % count`, heights counting blocks from 1.
    pub fn select_proposer<'a>(&self, validator_set: &'a ValidatorSet, height: StarknetHeight, round: Round) -> (r: &'a Validator)
        requires
            validator_set.validators@.len() > 0,
            round != Round::Nil,
            (height.block_number as usize) >= 1,
            (height.block_number as usize) - 1 + round.spec_as_i64() <= usize::MAX,
        ensures
            *r == validator_set.validators@[(((height.block_number as usize) - 1 + round.spec_as_i64()) % (validator_set.validators@.len() as int))],
    {
        let h = height.as_u64() as usize;
        let rd = round.as_i64() as usize;
        let proposer_index = (h - 1 + rd) % validator_set.count();
        match validator_set.get_by_index(proposer_index) {
            Some(v) => v,
            None => &validator_set.validators[0],
        }
    }

    /// A proposal of `block_hash` at `height` and `round` by `address`.
    pub fn new_proposal(height: StarknetHeight, round: Round, block_hash: BlockHash, pol_round: Round, address: Address) -> (r: Proposal)
        ensures
            r == (Proposal { height, round, block_hash, pol_round, proposer: address }),
    {
        Proposal::new(height, round, block_hash, pol_round, address)
    }

    /// A prevote for `value_id` at `height` and `round` by `address`.
    pub fn new_prevote(height: StarknetHeight, round: Round, value_id: NilOrVal<BlockHash>, address: Address) -> (r: Vote)
        ensures
            r == Vote::new_prevote_spec(height, round, value_id, address),
    {
        Vote::new_prevote(height, round, value_id, address)
    }

    /// A precommit for `value_id` at `height` and `round` by `address`.
    pub fn new_precommit(height: StarknetHeight, round: Round, value_id: NilOrVal<BlockHash>, address: Address) -> (r: Vote)
        ensures
            r == Vote::new_precommit_spec(height, round, value_id, address),
    {
        Vote::new_precommit(height, round, value_id, address)
    }
}

} // verus!
