use malachite::consensus_types::{NilOrVal, VoteType};
use malachite::driver_fixtures::{
    decided_state, new_round_input, precommit_output, prevote_nil_input, prevote_output, proposal_input,
    propose_state_with_proposal_and_locked_and_valid, start_prevote_timer_output, Input, Output, Proposal, Step,
    TimeoutKind, Value,
};
use malachite::height::AbciHeight;
use malachite::proposal::Validity;
use malachite::address::Address;
use malachite::keys::{PrivateKey, PublicKey};
use malachite::node::AbciNode;
use malachite::proposer::{FixedProposer, MockContext, RotateProposer};
use malachite::height::StarknetHeight;
use malachite::round::Round;
use malachite::threshold::{ThresholdParam, ThresholdParams};
use malachite::validator_set::{Validator, ValidatorSet};

fn key(i: u8) -> PublicKey {
    PublicKey::from_bytes([i; 32])
}

#[test]
fn add_update_remove() {
    let v1 = Validator::new(key(1), 1);
    let v2 = Validator::new(key(2), 2);
    let v3 = Validator::new(key(3), 3);

    let mut vs = ValidatorSet::new(vec![v1, v2, v3]);
    assert_eq!(vs.total_voting_power(), 6);

    let v4 = Validator::new(key(4), 4);
    vs.add(v4);
    assert_eq!(vs.total_voting_power(), 10);

    let mut v5 = Validator::new(key(5), 5);
    vs.update(v5.clone()); // no effect
    assert_eq!(vs.total_voting_power(), 10);

    vs.add(v5.clone());
    assert_eq!(vs.total_voting_power(), 15);

    v5.voting_power = 100;
    vs.update(v5.clone());
    assert_eq!(vs.total_voting_power(), 110);

    vs.remove(&v5.address);
    assert_eq!(vs.total_voting_power(), 10);

    let v6 = Validator::new(key(6), 6);
    vs.remove(&v6.address); // no effect
    assert_eq!(vs.total_voting_power(), 10);
}

#[test]
fn new_sorts_by_address_and_drops_duplicates() {
    let a = Validator::new(key(1), 1);
    let b = Validator::new(key(2), 2);
    let vs = ValidatorSet::new(vec![a, b, a, a]);
    assert_eq!(vs.count(), 2);
    assert_eq!(vs.total_voting_power(), 3);
    assert!(vs.get_by_index(0).unwrap().eq(&a));
    assert!(vs.get_by_index(1).unwrap().eq(&b));
    assert!(vs.get_by_index(2).is_none());
}

#[test]
fn new_sorts_by_address() {
    let vs = ValidatorSet::new(vec![
        Validator::new(key(3), 3),
        Validator::new(PublicKey::from_bytes([1; 32]), 1),
        Validator::new(key(2), 2),
    ]);
    let keys = vs.get_keys();
    assert_eq!(keys[0].as_bytes(), [1; 32]);
    assert_eq!(keys[1].as_bytes(), [2; 32]);
    assert_eq!(keys[2].as_bytes(), [3; 32]);
    let mut low = [9u8; 32];
    low[0] = 0;
    let mut vs = vs;
    vs.add(Validator::new(PublicKey::from_bytes(low), 5));
    assert_eq!(vs.get_by_index(0).unwrap().voting_power, 5);
}

#[test]
fn same_address_keeps_insertion_order() {
    let mut vs = ValidatorSet::new(vec![Validator::new(key(1), 1)]);
    vs.add(Validator::new(key(1), 2));
    assert_eq!(vs.count(), 2);
    assert_eq!(vs.validators[0].voting_power, 1);
    assert_eq!(vs.validators[1].voting_power, 2);
    vs.update(Validator::new(key(1), 7));
    assert_eq!(vs.validators[0].voting_power, 7);
    assert_eq!(vs.validators[1].voting_power, 2);
    vs.remove(&Address::new([1; 32]));
    assert_eq!(vs.count(), 0);
}

#[test]
fn lookups_by_address_and_key() {
    let vs = ValidatorSet::new(vec![Validator::new(key(1), 7), Validator::new(key(2), 9)]);
    let found = vs.get_by_address(&Address::new([2; 32])).unwrap();
    assert_eq!(found.voting_power(), 9);
    assert!(vs.get_by_address(&Address::new([3; 32])).is_none());
    let found = vs.get_by_public_key(&key(1)).unwrap();
    assert_eq!(found.voting_power, 7);
    assert!(vs.get_by_public_key(&key(4)).is_none());
    let keys = vs.get_keys();
    assert_eq!(keys.len(), 2);
    assert_eq!(keys[0].as_bytes(), [1; 32]);
    assert_eq!(keys[1].as_bytes(), [2; 32]);
}

#[test]
fn validator_address_is_its_key() {
    let v = Validator::new(key(8), 3);
    assert_eq!(v.address().as_bytes(), [8; 32]);
    assert!(v.public_key().eq(&key(8)));
    assert!(Address::from_public_key(key(8)).eq(v.address()));
    assert!(!Address::from_public_key(key(9)).eq(v.address()));
}

#[test]
fn genesis_keeps_order_and_powers() {
    let node = AbciNode;
    let vs = node.make_genesis(vec![(key(3), 30), (key(1), 10)]);
    assert_eq!(vs.count(), 2);
    assert_eq!(vs.validators[0].address.as_bytes(), [1; 32]);
    assert_eq!(vs.validators[1].voting_power, 30);
    assert_eq!(vs.total_voting_power(), 40);
    let pk = PrivateKey { bytes: [5; 32] };
    assert_eq!(node.make_private_key_file(pk).bytes, [5; 32]);
    assert_eq!(node.load_private_key(pk).bytes, [5; 32]);
}

#[test]
fn threshold_two_thirds() {
    let p = ThresholdParams::one_third().quorum;
    assert!(p.is_met(7, 10));
    assert!(!p.is_met(6, 10));
    assert_eq!(p.min_expected(10), 7);
}

#[test]
fn threshold_one_third() {
    let p = ThresholdParams::one_third().honest;
    assert!(p.is_met(4, 10));
    assert!(!p.is_met(3, 10));
    assert_eq!(p.min_expected(10), 4);
}

#[test]
fn threshold_one_fifth() {
    let params = ThresholdParams::one_fifth();
    assert_eq!(params.quorum.numerator, 2);
    assert_eq!(params.quorum.denominator, 5);
    assert!(params.quorum.is_met(5, 10));
    assert!(!params.quorum.is_met(4, 10));
    assert!(params.honest.is_met(3, 10));
    assert!(!params.honest.is_met(2, 10));
}

#[test]
fn threshold_met_iff_at_least_min_expected() {
    let p = ThresholdParam::new(2, 3);
    for total in 0u64..30 {
        for weight in 0u64..=total {
            assert_eq!(p.is_met(weight, total), weight >= p.min_expected(total));
        }
    }
}

#[test]
fn rotate_proposer_cycles() {
    let vs = ValidatorSet::new(vec![
        Validator::new(key(1), 1),
        Validator::new(key(2), 1),
        Validator::new(key(3), 1),
    ]);
    let sel = RotateProposer;
    assert_eq!(sel.select_proposer(Round::new(0), &vs).as_bytes(), [1; 32]);
    assert_eq!(sel.select_proposer(Round::new(1), &vs).as_bytes(), [2; 32]);
    assert_eq!(sel.select_proposer(Round::new(5), &vs).as_bytes(), [3; 32]);
    // a Nil round counts as usize::MAX
    let expected = (usize::MAX % 3) as u8 + 1;
    assert_eq!(sel.select_proposer(Round::Nil, &vs).as_bytes(), [expected; 32]);
}

#[test]
fn fixed_proposer_ignores_round() {
    let vs = ValidatorSet::new(vec![Validator::new(key(1), 1), Validator::new(key(2), 1)]);
    let sel = FixedProposer::new(Address::new([2; 32]));
    assert_eq!(sel.select_proposer(Round::new(0), &vs).as_bytes(), [2; 32]);
    assert_eq!(sel.select_proposer(Round::new(9), &vs).as_bytes(), [2; 32]);
}

#[test]
fn mock_context_proposer_by_height_and_round() {
    let vs = ValidatorSet::new(vec![
        Validator::new(key(1), 1),
        Validator::new(key(2), 1),
        Validator::new(key(3), 1),
    ]);
    let ctx = MockContext::new(PrivateKey { bytes: [0; 32] });
    let h1 = StarknetHeight::new(0, 1);
    assert_eq!(ctx.select_proposer(&vs, h1, Round::new(0)).address.as_bytes(), [1; 32]);
    assert_eq!(ctx.select_proposer(&vs, h1, Round::new(2)).address.as_bytes(), [3; 32]);
    let h5 = StarknetHeight::new(0, 5);
    assert_eq!(ctx.select_proposer(&vs, h5, Round::new(0)).address.as_bytes(), [2; 32]);
}

#[test]
fn round_conversions() {
    assert_eq!(Round::Nil.as_i64(), -1);
    assert_eq!(Round::new(4).as_i64(), 4);
    assert!(Round::from_i64(-3).is_nil());
    assert_eq!(Round::from_i64(7), Round::Defined(7));
    assert!(!Round::new(0).is_nil());
}

#[test]
fn driver_fixtures_at_height_one() {

    let a = Address::new([1; 32]);
    match new_round_input(Round::new(2), a) {
        Input::NewRound(h, r, p) => {
            assert_eq!(h.0, 1);
            assert_eq!(r, Round::Defined(2));
            assert_eq!(p.as_bytes(), [1; 32]);
        },
        _ => panic!("expected a new round"),
    }
    match prevote_output(Round::new(1), &a) {
        Output::Vote(v) => {
            assert_eq!(v.vote_type, VoteType::Prevote);
            assert!(matches!(v.value, NilOrVal::Val(id) if id.0 == 9999));
        },
        _ => panic!("expected a vote"),
    }
    match prevote_nil_input(&a) {
        Input::Vote(v) => {
            assert!(matches!(v.value, NilOrVal::Nil));
            assert_eq!(v.round, Round::Defined(0));
        },
        _ => panic!("expected a vote"),
    }
    match precommit_output(Round::new(0), Value::new(7), &a) {
        Output::Vote(v) => {
            assert_eq!(v.vote_type, VoteType::Precommit);
            assert!(matches!(v.value, NilOrVal::Val(id) if id.0 == 7));
        },
        _ => panic!("expected a vote"),
    }
    match start_prevote_timer_output(Round::new(3)) {
        Output::ScheduleTimeout(t) => assert_eq!(t.kind, TimeoutKind::Prevote),
        _ => panic!("expected a timeout"),
    }
    assert!(matches!(proposal_input(Round::new(0), Value::new(1), Round::Nil, Validity::Invalid, a),
        Input::Proposal(p, Validity::Invalid) if p.value.0 == 1));
    let p = Proposal::new(AbciHeight::new(1), Round::new(0), Value::new(5), Round::Nil, a);
    let s = propose_state_with_proposal_and_locked_and_valid(Round::new(1), p);
    assert_eq!(s.step, Step::Propose);
    assert_eq!(s.locked.unwrap().value.0, 5);
    assert_eq!(s.valid.unwrap().round, Round::Defined(0));
    assert!(s.decision.is_none());
    let d = decided_state(Round::new(4), Value::new(8));
    assert_eq!(d.step, Step::Commit);
    assert_eq!(d.decision.unwrap().0, 8);
    assert!(d.locked.is_none());
}

#[test]
fn two_quorums_share_an_honest_weight() {
    let params = ThresholdParams::one_third();
    let total = 10u64;
    for w1 in 0..=total {
        for w2 in 0..=total {
            if params.quorum.is_met(w1, total) && params.quorum.is_met(w2, total) {
                assert!(params.honest.is_met(w1 + w2 - total, total));
            }
        }
    }
}

#[test]
fn add_keeps_addresses_sorted_and_distinct() {
    let mut vs = ValidatorSet::new(vec![Validator::new(key(5), 1), Validator::new(key(2), 1)]);
    vs.add(Validator::new(key(2), 1));
    assert_eq!(vs.count(), 2);
    vs.add(Validator::new(key(3), 4));
    assert_eq!(vs.count(), 3);
    let keys = vs.get_keys();
    assert_eq!(keys[0].as_bytes(), [2; 32]);
    assert_eq!(keys[1].as_bytes(), [3; 32]);
    assert_eq!(keys[2].as_bytes(), [5; 32]);
}
