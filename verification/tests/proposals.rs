use malachite::host::{next_decision_step, transactions_to_propose, DecisionStep};
use malachite::abci_app::{retain_height, AbciApp, AbciError, AbciReply, AppHash, Status, expect_response, process_finalize_block_response};
use malachite::address::{Address, AddressProto, ProtoError};
use malachite::height::AbciHeight;
use malachite::host::{build_value_from_part, HostState, PartStore, StreamContent};
use malachite::keys::PublicKey;
use malachite::proposal::{
    build_proposal_parts, build_value_from_parts, get_tx_bytes, hash_parts, PartType, ProposalFin,
    ProposalInit, ProposalPart, Transaction, Validity,
};
use malachite::round::Round;
use malachite::validator_set::{Validator, ValidatorSet};
use sha3::Digest;

fn txs(sizes: &[usize]) -> Vec<Transaction> {
    sizes.iter().enumerate().map(|(i, n)| Transaction::new(vec![i as u8; *n])).collect()
}

fn keccak_of_parts(parts: &[ProposalPart]) -> [u8; 32] {
    let mut data = Vec::new();
    for p in parts {
        data.extend_from_slice(&p.to_sign_bytes());
    }
    sha3::Keccak256::digest(&data).into()
}

#[test]
fn build_proposal_parts_shape() {
    let proposer = Address::new([4; 32]);
    let (hash, parts) = build_proposal_parts(AbciHeight::new(3), Round::new(1), proposer, 10, txs(&[4, 5, 3]));
    assert_eq!(parts.len(), 4);
    assert_eq!(parts[0].part_type(), PartType::Init);
    let init = parts[0].as_init().unwrap();
    assert_eq!(init.block_number.0, 3);
    assert_eq!(init.fork_id, 1);
    assert_eq!(init.proposal_round, Round::Defined(1));
    assert_eq!(init.proposer.as_bytes(), [4; 32]);
    // 4 + 5 bytes fit into 10, the third transaction would not
    let taken = parts[1].as_transactions().unwrap();
    assert_eq!(taken.len(), 2);
    assert_eq!(parts[1].tx_count(), 2);
    assert_eq!(taken[1].0, vec![1u8; 5]);
    assert_eq!(parts[2].part_type(), PartType::BlockProof);
    assert!(parts[3].as_fin().unwrap().valid_round.is_none());
    assert_eq!(hash.0, keccak_of_parts(&parts));
    assert_eq!(hash_parts(&parts).0, hash.0);
}

#[test]
fn build_proposal_parts_stops_at_first_misfit() {
    let (_, parts) = build_proposal_parts(AbciHeight::new(1), Round::new(0), Address::new([1; 32]), 6, txs(&[7, 1]));
    assert_eq!(parts[1].tx_count(), 0);
    let (_, parts) = build_proposal_parts(AbciHeight::new(1), Round::new(0), Address::new([1; 32]), 100, txs(&[7, 1]));
    assert_eq!(parts[1].tx_count(), 2);
}

#[test]
fn hash_changes_with_contents() {
    let a = build_proposal_parts(AbciHeight::new(1), Round::new(0), Address::new([1; 32]), 100, txs(&[1])).0;
    let b = build_proposal_parts(AbciHeight::new(2), Round::new(0), Address::new([1; 32]), 100, txs(&[1])).0;
    assert_ne!(a.0, b.0);
    let empty: Vec<u8> = Vec::new();
    let expected: [u8; 32] = sha3::Keccak256::digest(&empty).into();
    assert_eq!(hash_parts(&Vec::new()).0, expected);
}

#[test]
fn value_needs_init_and_fin() {
    let init = ProposalPart::Init(ProposalInit {
        block_number: AbciHeight::new(2),
        fork_id: 1,
        proposal_round: Round::new(0),
        proposer: Address::new([9; 32]),
    });
    let fin = ProposalPart::Fin(ProposalFin { valid_round: None });
    assert!(build_value_from_parts(&vec![], AbciHeight::new(2), Round::new(0)).is_none());
    assert!(build_value_from_parts(&vec![init.duplicate()], AbciHeight::new(2), Round::new(0)).is_none());
    assert!(build_value_from_parts(&vec![fin.duplicate()], AbciHeight::new(2), Round::new(0)).is_none());
    let parts = vec![init, fin];
    let v = build_value_from_parts(&parts, AbciHeight::new(2), Round::new(0)).unwrap();
    assert_eq!(v.validator_address.as_bytes(), [9; 32]);
    assert_eq!(v.validity, Validity::Valid);
    assert_eq!(v.value.0, keccak_of_parts(&parts));
}

#[test]
fn tx_bytes_of_parts() {
    let parts = vec![
        ProposalPart::Transactions(txs(&[2])),
        ProposalPart::Fin(ProposalFin { valid_round: None }),
        ProposalPart::Transactions(txs(&[1, 3])),
    ];
    let out = get_tx_bytes(&parts);
    assert_eq!(out.len(), 3);
    assert_eq!(out[0].as_ref(), &[0u8, 0]);
    assert_eq!(out[1].as_ref(), &[0u8]);
    assert_eq!(out[2].as_ref(), &[1u8, 1, 1]);
}

#[test]
fn propose_streams_parts_and_reads_back_value() {
    let mut state = HostState::new();
    let me = Address::new([6; 32]);
    state.start_round(AbciHeight::new(1), Round::new(0), me);
    let (hash, msgs, value) = state.propose(AbciHeight::new(1), Round::new(0), me, 64, txs(&[3, 3]));
    assert_eq!(msgs.len(), 5);
    for (i, m) in msgs.iter().enumerate() {
        assert_eq!(m.stream_id, 0);
        assert_eq!(m.sequence, i as u64);
    }
    assert!(matches!(msgs[4].content, StreamContent::Fin(true)));
    assert!(matches!(msgs[0].content, StreamContent::Data(ProposalPart::Init(_))));
    let v = value.unwrap();
    assert_eq!(v.value.0, hash.0);
    assert_eq!(v.validator_address.as_bytes(), [6; 32]);
    assert_eq!(state.next_stream_id, 1);
    assert_eq!(state.part_store.all_parts(AbciHeight::new(1), Round::new(0)).len(), 4);
}

#[test]
fn receiving_parts_completes_on_fin() {
    let (hash, parts) = build_proposal_parts(AbciHeight::new(4), Round::new(2), Address::new([2; 32]), 64, txs(&[1]));
    let mut state = HostState::new();
    let mut last = None;
    for (i, p) in parts.into_iter().enumerate() {
        last = build_value_from_part(&mut state, AbciHeight::new(4), Round::new(2), p);
        if i < 3 {
            assert!(last.is_none());
        }
    }
    let v = last.unwrap();
    assert_eq!(v.value.0, hash.0);
    assert_eq!(v.height.0, 4);
}

#[test]
fn receive_parts_batch() {
    let (hash, parts) = build_proposal_parts(AbciHeight::new(4), Round::new(0), Address::new([2; 32]), 64, txs(&[1]));
    let mut state = HostState::new();
    let v = state.receive_parts(AbciHeight::new(4), Round::new(0), parts).unwrap();
    assert_eq!(v.value.0, hash.0);
}

#[test]
fn part_store_prunes_lower_heights() {
    let mut store = PartStore::new();
    let fin = ProposalPart::Fin(ProposalFin { valid_round: None });
    store.store(AbciHeight::new(1), Round::new(0), fin.duplicate());
    store.store(AbciHeight::new(2), Round::new(0), fin.duplicate());
    store.store(AbciHeight::new(3), Round::new(0), fin);
    store.prune(AbciHeight::new(2));
    assert!(store.all_parts(AbciHeight::new(1), Round::new(0)).is_empty());
    assert_eq!(store.all_parts(AbciHeight::new(2), Round::new(0)).len(), 1);
    assert_eq!(store.all_parts(AbciHeight::new(3), Round::new(0)).len(), 1);
}

#[test]
fn decision_and_next_height() {
    let vs = ValidatorSet::new(vec![Validator::new(PublicKey::from_bytes([7; 32]), 1)]);
    let mut state = HostState::new();
    let me = Address::new([6; 32]);
    state.start_round(AbciHeight::new(1), Round::new(0), me);
    let args = state.prepare_proposal_args(&vs, AbciHeight::new(1));
    assert_eq!(args.max_tx_bytes, 10);
    assert_eq!(args.height, 1);
    assert_eq!(args.next_validators_hash, vec![7u8; 32]);
    assert_eq!(args.proposer_address, vec![6u8; 32]);
    let (hash, _, _) = state.propose(AbciHeight::new(1), Round::new(0), me, 64, txs(&[2]));
    let d = state.decision_args(&vs, AbciHeight::new(1), Round::new(0), hash);
    assert_eq!(d.txs.len(), 1);
    assert_eq!(d.hash, hash.0.to_vec());
    assert_eq!(d.proposer_address.as_ref(), &[6u8; 32]);
    assert_eq!(state.finish_decision().0, 2);
}

#[test]
fn abci_replies() {
    assert_eq!(Status::from(1), Status::Accepted);
    assert_eq!(Status::from(2), Status::Other(2));
    assert_eq!(AbciApp::process_proposal(AbciReply::Expected(1)).unwrap(), Status::Accepted);
    assert!(matches!(AbciApp::process_proposal(AbciReply::Missing), Err(AbciError::NoResponse)));
    match AbciApp::prepare_proposal(AbciReply::Exception("boom".to_string())) {
        Err(AbciError::Exception(e)) => assert_eq!(e, "boom"),
        _ => panic!("expected an exception"),
    }
    match expect_response::<u8>(AbciReply::Unexpected("Echo".to_string())) {
        Err(AbciError::Unexpected(d)) => assert_eq!(d, "Echo"),
        _ => panic!("expected an unexpected response"),
    }
    assert_eq!(AbciApp::finalize_block(AbciReply::Expected(5u8)).unwrap(), 5);
    assert_eq!(AbciApp::commit(AbciReply::Expected(7)).unwrap().unwrap().0, 7);
    assert!(AbciApp::commit(AbciReply::Expected(-1)).unwrap().is_none());
    assert_eq!(retain_height(0).unwrap().0, 0);
    assert!(retain_height(-5).is_none());
}

#[test]
fn app_hash_from_finalize_block() {
    assert!(matches!(process_finalize_block_response(&[]), AppHash::Empty));
    match process_finalize_block_response(&[3u8; 32]) {
        AppHash::Sha256(h) => assert_eq!(h, [3u8; 32]),
        AppHash::Empty => panic!("expected a hash"),
    }
}

#[test]
fn address_proto_round_trip() {
    let a = Address::new([5; 32]);
    let p = a.to_proto().unwrap();
    assert_eq!(p.elements, vec![5u8; 32]);
    let back = Address::from_proto(p).unwrap();
    assert!(back.eq(&a));
    match Address::from_proto(AddressProto { elements: vec![1, 2, 3] }) {
        Err(ProtoError::Other(msg)) => assert_eq!(msg, "Invalid address length: expected 32, got 3"),
        _ => panic!("expected a length error"),
    }
    assert_eq!(a.to_bytes().as_ref(), &[5u8; 32]);
}

#[test]
fn proposal_transactions_from_reply() {
    let txs = transactions_to_propose(AbciReply::Expected(vec![vec![1, 2], vec![3]])).unwrap();
    assert_eq!(txs.len(), 2);
    assert_eq!(txs[0].0, vec![1, 2]);
    assert_eq!(txs[1].0, vec![3]);
    assert!(transactions_to_propose(AbciReply::Missing).is_none());
    assert!(transactions_to_propose(AbciReply::Exception("x".to_string())).is_none());
}

#[test]
fn decision_steps() {
    let mut step = DecisionStep::ProcessProposal;
    step = next_decision_step(step, true);
    assert_eq!(step, DecisionStep::FinalizeBlock);
    step = next_decision_step(step, true);
    assert_eq!(step, DecisionStep::Commit);
    step = next_decision_step(step, true);
    assert_eq!(step, DecisionStep::Done);
    assert_eq!(next_decision_step(step, false), DecisionStep::Done);
    assert_eq!(next_decision_step(DecisionStep::FinalizeBlock, false), DecisionStep::Abandoned);
    assert_eq!(next_decision_step(DecisionStep::Abandoned, true), DecisionStep::Abandoned);
}
