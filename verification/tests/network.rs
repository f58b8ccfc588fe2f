use libp2p::{floodsub, gossipsub};
use malachite::block_sync::{BlockSyncAction, BlockSyncMsg, BlockSyncState, Status};
use malachite::channel::Channel;
use malachite::consensus_types::{GossipMsg, NilOrVal, SignedMessage, Vote, VoteType};
use malachite::crdt::Crdt;
use malachite::discovery::{
    Capability, CapabilityProto, Config, MultiAddressProto, Node, NodeProto, NodesRequest, NodesRequestProto,
    NodesResponse, NodesResponseProto, PeerIdProto, Pow, PowProto, DEFAULT_DIAL_MAX_RETRIES,
};
use malachite::address::{Address, ProtoError};
use malachite::gossip_mempool::{GossipEvent, GossipMempoolAction, GossipMempoolMsg, GossipMempoolState};
use malachite::height::StarknetHeight;
use malachite::peers::{PeerHeights, PeerId, PeerSet};
use malachite::proposal::BlockHash;
use malachite::proposer::MockContext;
use malachite::round::Round;

fn peer(i: u8) -> PeerId {
    PeerId::from_bytes(vec![i, i])
}

#[test]
fn channel_names_and_topics() {
    assert_eq!(Channel::all(), vec![Channel::Consensus, Channel::ProposalParts]);
    assert_eq!(Channel::Consensus.as_str(), "/consensus");
    assert_eq!(Channel::ProposalParts.as_str(), "/proposal_parts");
    let topic = Channel::ProposalParts.to_floodsub_topic();
    assert_eq!(topic.id(), "/proposal_parts");
    assert_eq!(Channel::from_floodsub_topic(&topic), Some(Channel::ProposalParts));
    assert!(Channel::has_floodsub_topic(&topic));
    assert!(!Channel::has_floodsub_topic(&floodsub::Topic::new("/other")));
    assert_eq!(Channel::from_floodsub_topic(&floodsub::Topic::new("/other")), None);
}

#[test]
fn channel_gossipsub_hashes() {
    let hash = gossipsub::IdentTopic::new("/consensus").hash();
    assert!(Channel::has_gossipsub_topic(&hash));
    assert_eq!(Channel::from_gossipsub_topic_hash(&hash), Some(Channel::Consensus));
    let other = gossipsub::IdentTopic::new("/mempool").hash();
    assert!(!Channel::has_gossipsub_topic(&other));
    assert_eq!(Channel::from_gossipsub_topic_hash(&other), None);
}

#[test]
fn block_sync_reports_peers_behind() {
    let mut s = BlockSyncState::new();
    assert!(matches!(s.handle(BlockSyncMsg::Decided { height: StarknetHeight::new(0, 5) }), BlockSyncAction::Nothing));
    assert_eq!(s.current_height.block_number, 5);
    let behind = Status { height: StarknetHeight::new(0, 3), round: Round::new(0) };
    match s.handle(BlockSyncMsg::PeerStatus { peer: peer(1), status: behind }) {
        BlockSyncAction::PeerBehind { peer: p, peer_height, height } => {
            assert_eq!(p.0, vec![1, 1]);
            assert_eq!(peer_height.block_number, 3);
            assert_eq!(height.block_number, 5);
        },
        _ => panic!("expected the peer to be behind"),
    }
    let ahead = Status { height: StarknetHeight::new(0, 9), round: Round::new(0) };
    assert!(matches!(s.handle(BlockSyncMsg::PeerStatus { peer: peer(2), status: ahead }), BlockSyncAction::Nothing));
    assert_eq!(s.peers.get(&peer(2)).unwrap().block_number, 9);
    assert_eq!(s.peers.get(&peer(1)).unwrap().block_number, 3);
    match s.handle(BlockSyncMsg::Tick) {
        BlockSyncAction::PublishStatus(st) => {
            assert_eq!(st.height.block_number, 5);
            assert!(st.round.is_nil());
        },
        _ => panic!("expected a status"),
    }
    assert!(matches!(s.handle(BlockSyncMsg::OtherEvent), BlockSyncAction::Nothing));
}

#[test]
fn peer_heights_keep_latest() {
    let mut h = PeerHeights::new();
    assert!(h.get(&peer(1)).is_none());
    h.insert(peer(1), StarknetHeight::new(0, 2));
    h.insert(peer(1), StarknetHeight::new(0, 4));
    assert_eq!(h.get(&peer(1)).unwrap().block_number, 4);
}

#[test]
fn peer_set_operations() {
    let mut s = PeerSet::new();
    s.insert(peer(1));
    s.insert(peer(2));
    s.insert(peer(1));
    assert_eq!(s.len(), 2);
    assert!(s.contains(&peer(2)));
    s.remove(&peer(2));
    assert!(!s.contains(&peer(2)));
    assert_eq!(s.len(), 1);
    assert!(peer(3).same(&peer(3)));
    assert!(!peer(3).same(&peer(4)));
}

#[test]
fn gossip_mempool_counts_peers() {
    let mut st: GossipMempoolState<u8> = GossipMempoolState::new();
    st.new_event(&GossipEvent::PeerConnected(peer(1)));
    st.new_event(&GossipEvent::PeerConnected(peer(2)));
    st.new_event(&GossipEvent::PeerConnected(peer(1)));
    st.new_event(&GossipEvent::Other);
    assert_eq!(st.number_peers(), 2);
    st.new_event(&GossipEvent::PeerDisconnected(peer(1)));
    assert_eq!(st.number_peers(), 1);
    st.stop();
    st.new_event(&GossipEvent::PeerConnected(peer(3)));
    assert_eq!(st.number_peers(), 0);
}

fn vote(kind: VoteType, block: u64, round: u32, value: NilOrVal<BlockHash>) -> GossipMsg {
    let v = Vote {
        vote_type: kind,
        height: StarknetHeight::new(0, block),
        round: Round::new(round),
        value,
        validator_address: Address::new([1; 32]),
    };
    GossipMsg::Vote(SignedMessage { message: v, signature: vec![] })
}

#[test]
fn crdt_keeps_latest_key_per_peer() {
    let mut c = Crdt::new();
    let m1 = vote(VoteType::Prevote, 1, 0, NilOrVal::Nil);
    let m2 = vote(VoteType::Precommit, 1, 0, NilOrVal::Nil);
    let m3 = vote(VoteType::Prevote, 1, 0, NilOrVal::Val(BlockHash::new([2; 32])));
    c.store_msg(peer(1), &m1);
    c.store_msg(peer(1), &m2);
    assert_eq!(c.peer_state.len(), 1);
    c.store_msg(peer(1), &m3);
    c.store_msg(peer(2), &m1);
    // the later message of peer 1 replaced its earlier one
    assert_eq!(c.peer_state.len(), 2);
    let mine: Vec<_> = c.peer_state.iter().filter(|k| k.peer_id.same(&peer(1))).collect();
    assert_eq!(mine.len(), 1);
    assert!(matches!(mine[0].value, NilOrVal::Val(h) if h.0 == [2; 32]));
    assert_eq!(m3.msg_height().block_number, 1);
    assert_eq!(m3.msg_round(), Round::Defined(0));
    assert!(matches!(m3.msg_value_id(), NilOrVal::Val(h) if h.0 == [2; 32]));
}

#[test]
fn context_builds_votes() {
    let h = StarknetHeight::new(0, 3);
    let a = Address::new([8; 32]);
    let v = MockContext::new_prevote(h, Round::new(1), NilOrVal::Nil, a);
    assert_eq!(v.vote_type, VoteType::Prevote);
    assert_eq!(v.validator_address.as_bytes(), [8; 32]);
    let v = MockContext::new_precommit(h, Round::new(1), NilOrVal::Nil, a);
    assert_eq!(v.vote_type, VoteType::Precommit);
    let p = MockContext::new_proposal(h, Round::new(1), BlockHash::new([3; 32]), Round::Nil, a);
    assert_eq!(p.block_hash.0, [3; 32]);
    assert!(p.pol_round.is_nil());
}

#[test]
fn discovery_config_default() {
    let c = Config::default();
    assert!(c.enabled);
    assert_eq!(c.dial_max_retries, DEFAULT_DIAL_MAX_RETRIES);
    assert_eq!(DEFAULT_DIAL_MAX_RETRIES, 5);
}

fn valid_peer_bytes() -> Vec<u8> {
    libp2p::PeerId::random().to_bytes()
}

fn valid_addr_bytes() -> Vec<u8> {
    "/ip4/127.0.0.1/tcp/80".parse::<libp2p::Multiaddr>().unwrap().to_vec()
}

fn node_proto(id: Vec<u8>, addr: Vec<u8>) -> NodeProto {
    NodeProto {
        id: Some(PeerIdProto { id }),
        addresses: vec![MultiAddressProto { value: addr }],
        capabilities: vec![CapabilityProto { protocol: "p".to_string(), capability: vec![1] }],
        pow: Some(PowProto { block_hash: vec![2], salt: vec![3] }),
    }
}

#[test]
fn node_proto_round_trip() {
    let id = valid_peer_bytes();
    let addr = valid_addr_bytes();
    let n = Node::from_proto(node_proto(id.clone(), addr.clone())).unwrap();
    assert_eq!(n.id.0, id);
    assert_eq!(n.addresses[0].0, addr);
    assert_eq!(n.capabilities[0].protocol, "p");
    assert_eq!(n.pow.salt, vec![3]);
    let p = n.to_proto().unwrap();
    assert_eq!(p.id.unwrap().id, id);
    assert_eq!(p.addresses[0].value, addr);
    assert_eq!(p.pow.unwrap().block_hash, vec![2]);
}

#[test]
fn node_proto_errors() {
    let mut p = node_proto(valid_peer_bytes(), valid_addr_bytes());
    p.id = None;
    match Node::from_proto(p) {
        Err(ProtoError::MissingField { field, .. }) => assert_eq!(field, "id"),
        _ => panic!("expected a missing id"),
    }
    let mut p = node_proto(valid_peer_bytes(), valid_addr_bytes());
    p.pow = None;
    match Node::from_proto(p) {
        Err(ProtoError::MissingField { field, .. }) => assert_eq!(field, "pow"),
        _ => panic!("expected a missing pow"),
    }
    assert!(matches!(Node::from_proto(node_proto(vec![], valid_addr_bytes())), Err(ProtoError::Other(_))));
    assert!(matches!(Node::from_proto(node_proto(valid_peer_bytes(), vec![0xff, 0xff])), Err(ProtoError::Other(_))));
}

#[test]
fn nodes_request_and_response() {
    let id = valid_peer_bytes();
    let req = NodesRequest::from_proto(NodesRequestProto { ids: vec![PeerIdProto { id: id.clone() }] }).unwrap();
    assert_eq!(req.ids[0].0, id);
    assert_eq!(req.to_proto().unwrap().ids[0].id, id);
    assert!(NodesRequest::from_proto(NodesRequestProto { ids: vec![PeerIdProto { id: vec![] }] }).is_err());

    let resp = NodesResponse::from_proto(NodesResponseProto {
        nodes: vec![node_proto(valid_peer_bytes(), valid_addr_bytes()), node_proto(id.clone(), vec![])],
    })
    .unwrap();
    assert_eq!(resp.nodes.len(), 2);
    assert_eq!(resp.nodes[1].id.0, id);
    assert_eq!(resp.to_proto().unwrap().nodes.len(), 2);
    assert!(NodesResponse::from_proto(NodesResponseProto { nodes: vec![node_proto(vec![], vec![])] }).is_err());
}

#[test]
fn capability_and_pow_conversions() {
    let c = Capability::from_proto(CapabilityProto { protocol: "x".to_string(), capability: vec![9] }).unwrap();
    assert_eq!(c.capability, vec![9]);
    assert_eq!(c.to_proto().unwrap().protocol, "x");
    let p = Pow::from_proto(PowProto { block_hash: vec![1], salt: vec![2] }).unwrap();
    assert_eq!(p.to_proto().unwrap().salt, vec![2]);
}

#[test]
fn crdt_order_of_messages_does_not_matter() {
    let m1 = vote(VoteType::Prevote, 1, 0, NilOrVal::Nil);
    let m2 = vote(VoteType::Prevote, 2, 1, NilOrVal::Nil);
    let mut a = Crdt::new();
    a.store_msg(peer(1), &m1);
    a.store_msg(peer(2), &m2);
    let mut b = Crdt::new();
    b.store_msg(peer(2), &m2);
    b.store_msg(peer(1), &m1);
    assert_eq!(a.peer_state.len(), b.peer_state.len());
    for k in &a.peer_state {
        assert!(b.peer_state.iter().any(|j| j.peer_id.same(&k.peer_id)
            && j.height == k.height && j.round == k.round));
    }
}

#[test]
fn gossip_mempool_handles_messages() {
    let mut st: GossipMempoolState<&str> = GossipMempoolState::new();
    assert!(matches!(st.handle(GossipMempoolMsg::<&str, u8, u8>::Subscribe("a")), GossipMempoolAction::Nothing));
    match st.handle(GossipMempoolMsg::<&str, u8, u8>::NewEvent(GossipEvent::PeerConnected(peer(1)))) {
        GossipMempoolAction::Notify(GossipEvent::PeerConnected(p)) => assert_eq!(p.0, vec![1, 1]),
        _ => panic!("expected the event to be passed on"),
    }
    assert!(matches!(st.handle(GossipMempoolMsg::<&str, u8, u8>::GetState), GossipMempoolAction::Reply(1)));
    assert!(matches!(st.handle(GossipMempoolMsg::<&str, u8, u8>::Broadcast(3, 4)), GossipMempoolAction::Broadcast(3, 4)));
    match &st {
        GossipMempoolState::Running { subscribers, .. } => assert_eq!(subscribers, &vec!["a"]),
        GossipMempoolState::Stopped => panic!("expected a running actor"),
    }
    st.stop();
    assert!(matches!(st.handle(GossipMempoolMsg::<&str, u8, u8>::GetState), GossipMempoolAction::Nothing));
}

#[test]
fn invalid_node_writes_but_does_not_read_back() {
    let n = Node {
        id: PeerId::from_bytes(vec![]),
        addresses: vec![],
        capabilities: vec![],
        pow: Pow { block_hash: vec![], salt: vec![] },
    };
    let p = n.to_proto().unwrap();
    assert!(Node::from_proto(p).is_err());
}

#[test]
fn block_sync_publishes_last_decided_height() {
    let mut s = BlockSyncState::new();
    match s.handle(BlockSyncMsg::Tick) {
        BlockSyncAction::PublishStatus(st) => assert_eq!(st.height.block_number, 0),
        _ => panic!("expected a status"),
    }
    s.handle(BlockSyncMsg::Decided { height: StarknetHeight::new(0, 3) });
    s.handle(BlockSyncMsg::OtherEvent);
    s.handle(BlockSyncMsg::Decided { height: StarknetHeight::new(0, 4) });
    s.handle(BlockSyncMsg::OtherEvent);
    match s.handle(BlockSyncMsg::Tick) {
        BlockSyncAction::PublishStatus(st) => assert_eq!(st.height.block_number, 4),
        _ => panic!("expected a status"),
    }
}
