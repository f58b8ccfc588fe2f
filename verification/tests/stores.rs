use malachite::address::Address;
use malachite::block_store::{decided_block, height_from_key_bytes, height_key_bytes, retained, HEIGHT_KEY_WIDTH};
use malachite::consensus_types::{NilOrVal, Proposal, SignedMessage, Vote, VoteType};
use malachite::entry::{Reply, ERR_ENT, ERR_STR, OK};
use malachite::height::StarknetHeight;
use malachite::keys::PublicKey;
use malachite::kv_host::KvHost;
use malachite::kv_mempool::{KvMempool, MempoolAction, MempoolGossipEvent, MempoolMsg, State};
use malachite::proposal::{BlockHash, Transaction};
use malachite::round::Round;
use malachite::validator_set::{Validator, ValidatorSet};

#[test]
fn height_key_is_two_little_endian_words() {
    let h = StarknetHeight::new(1, 0x0203);
    let bytes = height_key_bytes(h);
    assert_eq!(bytes.len(), HEIGHT_KEY_WIDTH);
    assert_eq!(bytes, vec![1, 0, 0, 0, 0, 0, 0, 0, 3, 2, 0, 0, 0, 0, 0, 0]);
    let back = height_from_key_bytes(&bytes);
    assert_eq!(back, h);
}

#[test]
fn pruning_keeps_heights_from_retain_height() {
    let retain = StarknetHeight::new(0, 5);
    assert!(retained(StarknetHeight::new(0, 5), retain));
    assert!(retained(StarknetHeight::new(0, 6), retain));
    assert!(!retained(StarknetHeight::new(0, 4), retain));
    assert!(retained(StarknetHeight::new(1, 0), retain));
}

#[test]
fn decided_block_from_proposal() {
    let a = Address::new([1; 32]);
    let proposal = SignedMessage {
        message: Proposal {
            height: StarknetHeight::new(0, 7),
            round: Round::new(0),
            block_hash: BlockHash::new([9; 32]),
            pol_round: Round::Nil,
            proposer: a,
        },
        signature: vec![4, 5],
    };
    let commit = SignedMessage {
        message: Vote {
            vote_type: VoteType::Precommit,
            height: StarknetHeight::new(0, 7),
            round: Round::new(0),
            value: NilOrVal::Val(BlockHash::new([9; 32])),
            validator_address: a,
        },
        signature: vec![6],
    };
    let b = decided_block(&proposal, &vec![Transaction::new(vec![1, 2])], &vec![commit]);
    assert_eq!(b.block.height.block_number, 7);
    assert_eq!(b.block.block_hash.0, [9; 32]);
    assert_eq!(b.block.transactions[0].0, vec![1, 2]);
    assert_eq!(b.proposal.signature, vec![4, 5]);
    assert_eq!(b.certificate.commits.len(), 1);
    assert_eq!(b.certificate.commits[0].signature, vec![6]);
}

#[test]
fn kv_host_keeps_params_and_validators() {
    let vs = ValidatorSet::new(vec![Validator::new(PublicKey::from_bytes([2; 32]), 3)]);
    let host = KvHost::new(42u32, vs);
    assert_eq!(host.params(), 42);
    assert_eq!(host.validator_set().total_voting_power(), 3);
}

#[test]
fn reply_texts() {
    assert_eq!(Reply::Accepted.as_str(), "ok\n");
    assert_eq!(Reply::NotText.as_str(), ERR_STR);
    assert_eq!(Reply::NotAnEntry.as_str(), ERR_ENT);
    assert_eq!(OK, "ok\n");
    assert_eq!(ERR_STR, "cannot parse into string\n");
    assert_eq!(ERR_ENT, "cannot parse into Entry\n");
}

#[test]
fn kv_mempool_handles_messages() {
    let m = KvMempool::new(2);
    let mut st = State::new();
    let batch = vec![Transaction::new(vec![1]), Transaction::new(vec![2])];
    match m.handle(MempoolMsg::GossipEvent(MempoolGossipEvent::TransactionBatch(batch)), &mut st) {
        MempoolAction::Forward(txs) => assert_eq!(txs.len(), 2),
        _ => panic!("expected the batch to be forwarded"),
    }
    assert_eq!(st.len(), 0);
    for i in 0u8..3 {
        assert!(matches!(m.handle(MempoolMsg::Input(Transaction::new(vec![i])), &mut st), MempoolAction::Nothing));
    }
    assert_eq!(st.len(), 2);
    assert!(matches!(m.handle(MempoolMsg::Update(vec![]), &mut st), MempoolAction::Nothing));
    assert!(matches!(m.handle(MempoolMsg::GossipEvent(MempoolGossipEvent::PeerConnected), &mut st), MempoolAction::Nothing));
    match m.handle(MempoolMsg::TxStream, &mut st) {
        MempoolAction::Reply(txs) => assert_eq!(txs.len(), 2),
        _ => panic!("expected a reply"),
    }
    assert_eq!(st.len(), 0);
}
