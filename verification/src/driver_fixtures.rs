//! Ready-made inputs, outputs and states of the round driver at height 1, for
//! driving consensus through a scenario step by step.
use vstd::prelude::*;
use crate::address::Address;
use crate::consensus_types::{NilOrVal, VoteType};
use crate::height::AbciHeight;
use crate::proposal::Validity;
use crate::round::Round;

verus! {

/// A value that can be proposed and decided on.
#[derive(Copy, Clone, Debug)]
pub struct Value(pub u64);

/// The identifier of a value.
#[derive(Copy, Clone, Debug)]
pub struct ValueId(pub u64);

impl Value {
    /// The value with the given number.
    pub fn new(value: u64) -> (r: Self)
        ensures
            r.0 == value,
    {
        Value(value)
    }

    /// The identifier of the value: its number.
    pub fn id(&self) -> (r: ValueId)
        ensures
            r.0 == self.0,
    {
        ValueId(self.0)
    }
}

/// A proposal of a value at a height and round, with its proof-of-lock round.
#[derive(Copy, Clone, Debug)]
pub struct Proposal {
    pub height: AbciHeight,
    pub round: Round,
    pub value: Value,
    pub pol_round: Round,
    pub validator_address: Address,
}

impl Proposal {
    /// A proposal of `value` at `height` and `round` by `address`.
    pub fn new(height: AbciHeight, round: Round, value: Value, pol_round: Round, address: Address) -> (r: Self)
        ensures
            r == (Proposal { height, round, value, pol_round, validator_address: address }),
    {
        Proposal { height, round, value, pol_round, validator_address: address }
    }
}

/// A vote for the identifier of a value, or for nil.
#[derive(Copy, Clone, Debug)]
pub struct Vote {
    pub vote_type: VoteType,
    pub height: AbciHeight,
    pub round: Round,
    pub value: NilOrVal<ValueId>,
    pub validator_address: Address,
}

impl Vote {
    /// A prevote.
    pub fn new_prevote(height: AbciHeight, round: Round, value: NilOrVal<ValueId>, address: Address) -> (r: Self)
        ensures
            r == (Vote { vote_type: VoteType::Prevote, height, round, value, validator_address: address }),
    {
        Vote { vote_type: VoteType::Prevote, height, round, value, validator_address: address }
    }

    /// A precommit.
    pub fn new_precommit(height: AbciHeight, round: Round, value: NilOrVal<ValueId>, address: Address) -> (r: Self)
        ensures
            r == (Vote { vote_type: VoteType::Precommit, height, round, value, validator_address: address }),
    {
        Vote { vote_type: VoteType::Precommit, height, round, value, validator_address: address }
    }
}

/// The step of a round that a timeout bounds.
#[derive(Copy, Clone, Debug, PartialEq, Eq, Structural)]
pub enum TimeoutKind {
    Propose,
    Prevote,
    Precommit,
}

/// A timeout for a step of a round.
#[derive(Copy, Clone, Debug)]
pub struct Timeout {
    pub round: Round,
    pub kind: TimeoutKind,
}

/// An input of the driver.
#[derive(Copy, Clone, Debug)]
pub enum Input {
    /// Start a new round at a height, with its proposer.
    NewRound(AbciHeight, Round, Address),
    /// A proposal and whether its value is valid.
    Proposal(Proposal, Validity),
    /// A vote.
    Vote(Vote),
    /// A timeout elapsed.
    TimeoutElapsed(Timeout),
}

/// An output of the driver.
#[derive(Copy, Clone, Debug)]
pub enum Output {
    /// A new round started.
    NewRound(AbciHeight, Round),
    /// Broadcast a proposal.
    Propose(Proposal),
    /// Broadcast a vote.
    Vote(Vote),
    /// A value was decided on in a round.
    Decide(Round, Value),
    /// Start a timer.
    ScheduleTimeout(Timeout),
}

/// The step of the round state machine.
#[derive(Copy, Clone, Debug, PartialEq, Eq, Structural)]
pub enum Step {
    Unstarted,
    Propose,
    Prevote,
    Precommit,
    Commit,
}

/// A value together with the round it was seen in.
#[derive(Copy, Clone, Debug)]
pub struct RoundValue {
    pub value: Value,
    pub round: Round,
}

/// The state of the round state machine.
#[derive(Copy, Clone, Debug)]
pub struct State {
    pub height: AbciHeight,
    pub round: Round,
    pub step: Step,
    pub locked: Option<RoundValue>,
    pub valid: Option<RoundValue>,
    pub decision: Option<Value>,
}

/// The value that the vote fixtures vote for.
pub open spec fn fixture_value_id() -> ValueId {
    ValueId(9999)
}

/// The identifier of the value that the vote fixtures vote for.
fn fixture_value_id_exec() -> (r: ValueId)
    ensures
        r == fixture_value_id(),
{
    Value::new(9999).id()
}

/// A vote of `kind` at height 1.
pub open spec fn vote_at(kind: VoteType, round: Round, value: NilOrVal<ValueId>, address: Address) -> Vote {
    Vote { vote_type: kind, height: AbciHeight(1), round, value, validator_address: address }
}

/// The state at height 1 in `round` and `step`, with nothing locked, valid or decided.
pub open spec fn bare_state(round: Round, step: Step) -> State {
    State { height: AbciHeight(1), round, step, locked: None, valid: None, decision: None }
}

/// The value of `proposal` seen in `round`.
pub open spec fn seen_in(proposal: Proposal, round: Round) -> Option<RoundValue> {
    Some(RoundValue { value: proposal.value, round })
}

/// Input: start `round` at height 1 with `proposer`.
pub fn new_round_input(round: Round, proposer: Address) -> (r: Input)
    ensures
        r == Input::NewRound(AbciHeight(1), round, proposer),
{
    Input::NewRound(AbciHeight::new(1), round, proposer)
}

/// Output: `round` started at height 1.
pub fn new_round_output(round: Round) -> (r: Output)
    ensures
        r == Output::NewRound(AbciHeight(1), round),
{
    Output::NewRound(AbciHeight::new(1), round)
}

/// Output: propose `value` at height 1.
pub fn proposal_output(round: Round, value: Value, locked_round: Round, address: Address) -> (r: Output)
    ensures
        r == Output::Propose(
            (Proposal { height: AbciHeight(1), round, value, pol_round: locked_round, validator_address: address }),
        ),
{
    Output::Propose(Proposal::new(AbciHeight::new(1), round, value, locked_round, address))
}

/// Input: a proposal of `value` at height 1, valid or not.
pub fn proposal_input(round: Round, value: Value, locked_round: Round, validity: Validity, address: Address) -> (r:
    Input)
    ensures
        r == Input::Proposal(
            (Proposal { height: AbciHeight(1), round, value, pol_round: locked_round, validator_address: address }),
            validity,
        ),
{
    Input::Proposal(Proposal::new(AbciHeight::new(1), round, value, locked_round, address), validity)
}

/// Output: prevote for the fixture value in `round`.
pub fn prevote_output(round: Round, addr: &Address) -> (r: Output)
    ensures
        r == Output::Vote(vote_at(VoteType::Prevote, round, NilOrVal::Val(fixture_value_id()), *addr)),
{
    Output::Vote(Vote::new_prevote(AbciHeight::new(1), round, NilOrVal::Val(fixture_value_id_exec()), *addr))
}

/// Output: prevote for nil in `round`.
pub fn prevote_nil_output(round: Round, addr: &Address) -> (r: Output)
    ensures
        r == Output::Vote(vote_at(VoteType::Prevote, round, NilOrVal::Nil, *addr)),
{
    Output::Vote(Vote::new_prevote(AbciHeight::new(1), round, NilOrVal::Nil, *addr))
}

/// Input: a prevote for the fixture value in round 0.
pub fn prevote_input(addr: &Address) -> (r: Input)
    ensures
        r == Input::Vote(vote_at(VoteType::Prevote, Round::Defined(0), NilOrVal::Val(fixture_value_id()), *addr)),
{
    Input::Vote(Vote::new_prevote(AbciHeight::new(1), Round::new(0), NilOrVal::Val(fixture_value_id_exec()), *addr))
}

/// Input: a prevote for nil in round 0.
pub fn prevote_nil_input(addr: &Address) -> (r: Input)
    ensures
        r == Input::Vote(vote_at(VoteType::Prevote, Round::Defined(0), NilOrVal::Nil, *addr)),
{
    Input::Vote(Vote::new_prevote(AbciHeight::new(1), Round::new(0), NilOrVal::Nil, *addr))
}

/// Input: a prevote for the fixture value in `round`.
pub fn prevote_input_at(round: Round, addr: &Address) -> (r: Input)
    ensures
        r == Input::Vote(vote_at(VoteType::Prevote, round, NilOrVal::Val(fixture_value_id()), *addr)),
{
    Input::Vote(Vote::new_prevote(AbciHeight::new(1), round, NilOrVal::Val(fixture_value_id_exec()), *addr))
}

/// Output: precommit for `value` in `round`.
pub fn precommit_output(round: Round, value: Value, addr: &Address) -> (r: Output)
    ensures
        r == Output::Vote(vote_at(VoteType::Precommit, round, NilOrVal::Val(ValueId(value.0)), *addr)),
{
    Output::Vote(Vote::new_precommit(AbciHeight::new(1), round, NilOrVal::Val(value.id()), *addr))
}

/// Output: precommit for nil in `round`.
pub fn precommit_nil_output(round: Round, addr: &Address) -> (r: Output)
    ensures
        r == Output::Vote(vote_at(VoteType::Precommit, round, NilOrVal::Nil, *addr)),
{
    Output::Vote(Vote::new_precommit(AbciHeight::new(1), round, NilOrVal::Nil, *addr))
}

/// Input: a precommit for `value` in `round`.
pub fn precommit_input(round: Round, value: Value, addr: &Address) -> (r: Input)
    ensures
        r == Input::Vote(vote_at(VoteType::Precommit, round, NilOrVal::Val(ValueId(value.0)), *addr)),
{
    Input::Vote(Vote::new_precommit(AbciHeight::new(1), round, NilOrVal::Val(value.id()), *addr))
}

/// Output: `value` was decided on in `round`.
pub fn decide_output(round: Round, value: Value) -> (r: Output)
    ensures
        r == Output::Decide(round, value),
{
    Output::Decide(round, value)
}

/// Output: start the propose timer of `round`.
pub fn start_propose_timer_output(round: Round) -> (r: Output)
    ensures
        r == Output::ScheduleTimeout((Timeout { round, kind: TimeoutKind::Propose })),
{
    Output::ScheduleTimeout(Timeout { round, kind: TimeoutKind::Propose })
}

/// Input: the propose timer of `round` elapsed.
pub fn timeout_propose_input(round: Round) -> (r: Input)
    ensures
        r == Input::TimeoutElapsed((Timeout { round, kind: TimeoutKind::Propose })),
{
    Input::TimeoutElapsed(Timeout { round, kind: TimeoutKind::Propose })
}

/// Output: start the prevote timer of `round`.
pub fn start_prevote_timer_output(round: Round) -> (r: Output)
    ensures
        r == Output::ScheduleTimeout((Timeout { round, kind: TimeoutKind::Prevote })),
{
    Output::ScheduleTimeout(Timeout { round, kind: TimeoutKind::Prevote })
}

/// Input: the prevote timer of `round` elapsed.
pub fn timeout_prevote_input(round: Round) -> (r: Input)
    ensures
        r == Input::TimeoutElapsed((Timeout { round, kind: TimeoutKind::Prevote })),
{
    Input::TimeoutElapsed(Timeout { round, kind: TimeoutKind::Prevote })
}

/// Output: start the precommit timer of `round`.
pub fn start_precommit_timer_output(round: Round) -> (r: Output)
    ensures
        r == Output::ScheduleTimeout((Timeout { round, kind: TimeoutKind::Precommit })),
{
    Output::ScheduleTimeout(Timeout { round, kind: TimeoutKind::Precommit })
}

/// Input: the precommit timer of `round` elapsed.
pub fn timeout_precommit_input(round: Round) -> (r: Input)
    ensures
        r == Input::TimeoutElapsed((Timeout { round, kind: TimeoutKind::Precommit })),
{
    Input::TimeoutElapsed(Timeout { round, kind: TimeoutKind::Precommit })
}

/// State: `round` at the propose step.
pub fn propose_state(round: Round) -> (r: State)
    ensures
        r == bare_state(round, Step::Propose),
{
    State { height: AbciHeight::new(1), round, step: Step::Propose, locked: None, valid: None, decision: None }
}

/// State: `state_round` at the propose step, with the proposed value valid since
/// `valid_round`.
pub fn propose_state_with_proposal_and_valid(state_round: Round, valid_round: Round, proposal: Proposal) -> (r:
    State)
    ensures
        r == (State { valid: seen_in(proposal, valid_round), ..bare_state(state_round, Step::Propose) }),
{
    State {
        height: AbciHeight::new(1),
        round: state_round,
        step: Step::Propose,
        valid: Some(RoundValue { value: proposal.value, round: valid_round }),
        locked: None,
        decision: None,
    }
}

/// State: `round` at the propose step, with the proposed value valid and locked since
/// round 0.
pub fn propose_state_with_proposal_and_locked_and_valid(round: Round, proposal: Proposal) -> (r: State)
    ensures
        r == (State {
            valid: seen_in(proposal, Round::Defined(0)),
            locked: seen_in(proposal, Round::Defined(0)),
            ..bare_state(round, Step::Propose)
        }),
{
    State {
        height: AbciHeight::new(1),
        round,
        step: Step::Propose,
        valid: Some(RoundValue { value: proposal.value, round: Round::new(0) }),
        locked: Some(RoundValue { value: proposal.value, round: Round::new(0) }),
        decision: None,
    }
}

/// State: `round` at the prevote step.
pub fn prevote_state(round: Round) -> (r: State)
    ensures
        r == bare_state(round, Step::Prevote),
{
    State { height: AbciHeight::new(1), round, step: Step::Prevote, locked: None, valid: None, decision: None }
}

/// State: `state_round` at the prevote step, with the proposed value valid since
/// `valid_round`.
pub fn prevote_state_with_proposal_and_valid(state_round: Round, valid_round: Round, proposal: Proposal) -> (r:
    State)
    ensures
        r == (State { valid: seen_in(proposal, valid_round), ..bare_state(state_round, Step::Prevote) }),
{
    State {
        height: AbciHeight::new(1),
        round: state_round,
        step: Step::Prevote,
        valid: Some(RoundValue { value: proposal.value, round: valid_round }),
        locked: None,
        decision: None,
    }
}

/// State: `round` at the prevote step, with the proposed value valid and locked since
/// round 0.
pub fn prevote_state_with_proposal_and_locked_and_valid(round: Round, proposal: Proposal) -> (r: State)
    ensures
        r == (State {
            valid: seen_in(proposal, Round::Defined(0)),
            locked: seen_in(proposal, Round::Defined(0)),
            ..bare_state(round, Step::Prevote)
        }),
{
    State {
        height: AbciHeight::new(1),
        round,
        step: Step::Prevote,
        valid: Some(RoundValue { value: proposal.value, round: Round::new(0) }),
        locked: Some(RoundValue { value: proposal.value, round: Round::new(0) }),
        decision: None,
    }
}

/// State: `round` at the precommit step, with the proposed value valid and locked since
/// round 0.
pub fn precommit_state_with_proposal_and_locked_and_valid(round: Round, proposal: Proposal) -> (r: State)
    ensures
        r == (State {
            valid: seen_in(proposal, Round::Defined(0)),
            locked: seen_in(proposal, Round::Defined(0)),
            ..bare_state(round, Step::Precommit)
        }),
{
    State {
        height: AbciHeight::new(1),
        round,
        step: Step::Precommit,
        valid: Some(RoundValue { value: proposal.value, round: Round::new(0) }),
        locked: Some(RoundValue { value: proposal.value, round: Round::new(0) }),
        decision: None,
    }
}

/// State: `round` at the precommit step.
pub fn precommit_state(round: Round) -> (r: State)
    ensures
        r == bare_state(round, Step::Precommit),
{
    State { height: AbciHeight::new(1), round, step: Step::Precommit, locked: None, valid: None, decision: None }
}

/// State: `state_round` at the precommit step, with the proposed value valid since
/// `valid_round`.
pub fn precommit_state_with_proposal_and_valid(state_round: Round, valid_round: Round, proposal: Proposal) -> (r:
    State)
    ensures
        r == (State { valid: seen_in(proposal, valid_round), ..bare_state(state_round, Step::Precommit) }),
{
    State {
        height: AbciHeight::new(1),
        round: state_round,
        step: Step::Precommit,
        valid: Some(RoundValue { value: proposal.value, round: valid_round }),
        locked: None,
        decision: None,
    }
}

/// State: `round` not started yet.
pub fn new_round(round: Round) -> (r: State)
    ensures
        r == bare_state(round, Step::Unstarted),
{
    State { height: AbciHeight::new(1), round, step: Step::Unstarted, valid: None, locked: None, decision: None }
}

/// State: `round` not started yet, with the proposed value valid since round 0.
pub fn new_round_with_proposal_and_valid(round: Round, proposal: Proposal) -> (r: State)
    ensures
        r == (State { valid: seen_in(proposal, Round::Defined(0)), ..bare_state(round, Step::Unstarted) }),
{
    State {
        height: AbciHeight::new(1),
        round,
        step: Step::Unstarted,
        valid: Some(RoundValue { value: proposal.value, round: Round::new(0) }),
        locked: None,
        decision: None,
    }
}

/// State: `round` not started yet, with the proposed value valid and locked since round 0.
pub fn new_round_with_proposal_and_locked_and_valid(round: Round, proposal: Proposal) -> (r: State)
    ensures
        r == (State {
            valid: seen_in(proposal, Round::Defined(0)),
            locked: seen_in(proposal, Round::Defined(0)),
            ..bare_state(round, Step::Unstarted)
        }),
{
    State {
        height: AbciHeight::new(1),
        round,
        step: Step::Unstarted,
        valid: Some(RoundValue { value: proposal.value, round: Round::new(0) }),
        locked: Some(RoundValue { value: proposal.value, round: Round::new(0) }),
        decision: None,
    }
}

/// State: `value` decided on in `round`.
pub fn decided_state(round: Round, value: Value) -> (r: State)
    ensures
        r == (State { decision: Some(value), ..bare_state(round, Step::Commit) }),
{
    State { height: AbciHeight::new(1), round, step: Step::Commit, valid: None, locked: None, decision: Some(value) }
}

/// State: the proposed value decided on in `round`, valid and locked since round 0.
pub fn decided_state_with_proposal_and_locked_and_valid(round: Round, proposal: Proposal) -> (r: State)
    ensures
        r == (State {
            valid: seen_in(proposal, Round::Defined(0)),
            locked: seen_in(proposal, Round::Defined(0)),
            decision: Some(proposal.value),
            ..bare_state(round, Step::Commit)
        }),
{
    State {
        height: AbciHeight::new(1),
        round,
        step: Step::Commit,
        valid: Some(RoundValue { value: proposal.value, round: Round::new(0) }),
        locked: Some(RoundValue { value: proposal.value, round: Round::new(0) }),
        decision: Some(proposal.value),
    }
}

} // verus!
