//! Votes, proposals and the messages that carry them.
use vstd::prelude::*;
use crate::address::Address;
use crate::height::StarknetHeight;
use crate::proposal::BlockHash;
use crate::round::Round;

verus! {

/// Either nil or a value.
#[derive(Copy, Clone, Debug)]
pub enum NilOrVal<T> {
    Nil,
    Val(T),
}

/// The kind of a vote.
#[derive(Copy, Clone, Debug, PartialEq, Eq, Structural)]
pub enum VoteType {
    Prevote,
    Precommit,
}

/// A vote of a validator for a value, or for nil, at a height and round.
#[derive(Copy, Clone, Debug)]
pub struct Vote {
    pub vote_type: VoteType,
    pub height: StarknetHeight,
    pub round: Round,
    pub value: NilOrVal<BlockHash>,
    pub validator_address: Address,
}

/// A proposal of a block at a height and round, with its proof-of-lock round.
#[derive(Copy, Clone, Debug)]
pub struct Proposal {
    pub height: StarknetHeight,
    pub round: Round,
    pub block_hash: BlockHash,
    pub pol_round: Round,
    pub proposer: Address,
}

/// A message with the signature of its sender.
#[derive(Clone, Debug)]
pub struct SignedMessage<M> {
    pub message: M,
    pub signature: Vec<u8>,
}

impl Vote {
    /// The prevote of `address` for `value` at `height` and `round`.
    pub open spec fn new_prevote_spec(height: StarknetHeight, round: Round, value: NilOrVal<BlockHash>, address: Address) -> Vote {
        Vote { vote_type: VoteType::Prevote, height, round, value, validator_address: address }
    }

    /// The precommit of `address` for `value` at `height` and `round`.
    pub open spec fn new_precommit_spec(height: StarknetHeight, round: Round, value: NilOrVal<BlockHash>, address: Address) -> Vote {
        Vote { vote_type: VoteType::Precommit, height, round, value, validator_address: address }
    }

    /// A prevote.
    pub fn new_prevote(height: StarknetHeight, round: Round, value: NilOrVal<BlockHash>, address: Address) -> (r: Self)
        ensures
            r == Vote::new_prevote_spec(height, round, value, address),
    {
        Vote { vote_type: VoteType::Prevote, height, round, value, validator_address: address }
    }

    /// A precommit.
    pub fn new_precommit(height: StarknetHeight, round: Round, value: NilOrVal<BlockHash>, address: Address) -> (r: Self)
        ensures
            r == Vote::new_precommit_spec(height, round, value, address),
    {
        Vote { vote_type: VoteType::Precommit, height, round, value, validator_address: address }
    }
}

impl Proposal {
    /// A proposal.
    pub fn new(height: StarknetHeight, round: Round, block_hash: BlockHash, pol_round: Round, address: Address) -> (r: Self)
        ensures
            r == (Proposal { height, round, block_hash, pol_round, proposer: address }),
    {
        Proposal { height, round, block_hash, pol_round, proposer: address }
    }
}

/// A message that can be broadcast by the gossip layer.
#[derive(Clone, Debug)]
pub enum GossipMsg {
    Vote(SignedMessage<Vote>),
    Proposal(SignedMessage<Proposal>),
}

/// A message that can be sent by the consensus layer.
#[derive(Copy, Clone, Debug)]
pub enum ConsensusMsg {
    Vote(Vote),
    Proposal(Proposal),
}

impl GossipMsg {
    /// The height the message is about.
    pub fn msg_height(&self) -> (r: StarknetHeight)
        ensures
            r == match self {
                GossipMsg::Vote(m) => m.message.height,
                GossipMsg::Proposal(m) => m.message.height,
            },
    {
        match self {
            GossipMsg::Vote(m) => m.message.height,
            GossipMsg::Proposal(m) => m.message.height,
        }
    }

    /// The round the message is about.
    pub fn msg_round(&self) -> (r: Round)
        ensures
            r == match self {
                GossipMsg::Vote(m) => m.message.round,
                GossipMsg::Proposal(m) => m.message.round,
            },
    {
        match self {
            GossipMsg::Vote(m) => m.message.round,
            GossipMsg::Proposal(m) => m.message.round,
        }
    }

    /// The value the message is about: what a vote votes for; the value a proposal proposes.
    pub fn msg_value_id(&self) -> (r: NilOrVal<BlockHash>)
        ensures
            r == match self {
                GossipMsg::Vote(m) => m.message.value,
                GossipMsg::Proposal(m) => NilOrVal::Val(m.message.block_hash),
            },
    {
        match self {
            GossipMsg::Vote(m) => m.message.value,
            GossipMsg::Proposal(m) => NilOrVal::Val(m.message.block_hash),
        }
    }
}

} // verus!
