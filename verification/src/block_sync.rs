//! The block-sync state machine: what it learns of the heights of its peers, and what it
//! tells them of its own.
use vstd::prelude::*;
use crate::height::StarknetHeight;
use crate::peers::{PeerHeights, PeerId};
use crate::round::Round;

verus! {

/// The status a node publishes: its height, and its round.
#[derive(Copy, Clone, Debug)]
pub struct Status {
    pub height: StarknetHeight,
    pub round: Round,
}

/// What the block-sync actor is told.
#[derive(Clone, Debug)]
pub enum BlockSyncMsg {
    /// Time to publish our status.
    Tick,
    /// A peer published its status.
    PeerStatus { peer: PeerId, status: Status },
    /// Any other gossip event.
    OtherEvent,
    /// Consensus has decided on a value at `height`.
    Decided { height: StarknetHeight },
}

/// What the block-sync actor does in response.
#[derive(Clone, Debug)]
pub enum BlockSyncAction {
    /// Nothing to do.
    Nothing,
    /// The peer is at a height below ours.
    PeerBehind { peer: PeerId, peer_height: StarknetHeight, height: StarknetHeight },
    /// Publish our status.
    PublishStatus(Status),
}

/// The state of the block-sync state machine.
#[derive(Clone, Debug)]
pub struct BlockSyncState {
    /// Current height.
    pub current_height: StarknetHeight,
    /// The height each connected peer last reported.
    pub peers: PeerHeights,
}

/// Our height after a message: the decided height for a decision, else as it was.
pub open spec fn height_after_msg(h: StarknetHeight, msg: BlockSyncMsg) -> StarknetHeight {
    match msg {
        BlockSyncMsg::Decided { height } => height,
        _ => h,
    }
}

/// Our height after a sequence of messages, starting from `h`.
pub open spec fn height_after(h: StarknetHeight, msgs: Seq<BlockSyncMsg>) -> StarknetHeight
    decreases msgs.len(),
{
    if msgs.len() == 0 {
        h
    } else {
        height_after_msg(height_after(h, msgs.drop_last()), msgs[msgs.len() - 1])
    }
}

/// After a run of messages, our height, and so the height a tick publishes, is the one of
/// the last decision among them.
pub proof fn lemma_height_after_last_decision(h: StarknetHeight, msgs: Seq<BlockSyncMsg>, i: int, d: StarknetHeight)
    requires
        0 <= i < msgs.len(),
        msgs[i] == (BlockSyncMsg::Decided { height: d }),
        forall|j: int| i < j < msgs.len() ==> !(#[trigger] msgs[j] is Decided),
    ensures
        height_after(h, msgs) == d,
    decreases msgs.len(),
{
    if i < msgs.len() - 1 {
        let p = msgs.drop_last();
        assert forall|j: int| i < j < p.len() implies !(#[trigger] p[j] is Decided) by {
            assert(p[j] == msgs[j]);
        }
        lemma_height_after_last_decision(h, p, i, d);
        assert(!(msgs[msgs.len() - 1] is Decided));
    }
}

/// Without a decision among a run of messages, our height stays where it started.
pub proof fn lemma_height_after_no_decision(h: StarknetHeight, msgs: Seq<BlockSyncMsg>)
    requires
        forall|j: int| 0 <= j < msgs.len() ==> !(#[trigger] msgs[j] is Decided),
    ensures
        height_after(h, msgs) == h,
    decreases msgs.len(),
{
    if msgs.len() > 0 {
        let p = msgs.drop_last();
        assert forall|j: int| 0 <= j < p.len() implies !(#[trigger] p[j] is Decided) by {
            assert(p[j] == msgs[j]);
        }
        lemma_height_after_no_decision(h, p);
        assert(!(msgs[msgs.len() - 1] is Decided));
    }
}

impl BlockSyncState {
    /// The initial state: at the default height, with no peer.
    pub fn new() -> (r: Self)
        ensures
            r.current_height == (StarknetHeight { fork_id: 0, block_number: 0 }),
            r.peers.view_map() == Map::<Seq<u8>, StarknetHeight>::empty(),
    {
        BlockSyncState { current_height: StarknetHeight::new(0, 0), peers: PeerHeights::new() }
    }

    /// Records the height a peer reported.
    pub fn store_peer_height(&mut self, peer: PeerId, height: StarknetHeight)
        ensures
            final(self).peers.view_map() == old(self).peers.view_map().insert(peer@, height),
            final(self).current_height == old(self).current_height,
    {
        self.peers.insert(peer, height);
    }

    /// Handles a message: a peer's status is recorded, and reported when the peer is
    /// behind; a decision moves our height; a tick publishes our status, with no round.
    pub fn handle(&mut self, msg: BlockSyncMsg) -> (r: BlockSyncAction)
        ensures
            final(self).current_height == height_after_msg(old(self).current_height, msg),
            match msg {
                BlockSyncMsg::Tick => {
                    &&& final(self).current_height == old(self).current_height
                    &&& final(self).peers.view_map() == old(self).peers.view_map()
                    &&& r matches BlockSyncAction::PublishStatus(s) && s.height == old(self).current_height
                        && s.round == Round::Nil
                },
                BlockSyncMsg::PeerStatus { peer, status } => {
                    &&& final(self).current_height == old(self).current_height
                    &&& final(self).peers.view_map() == old(self).peers.view_map().insert(peer@, status.height)
                    &&& if status.height.precedes(old(self).current_height) {
                        r matches BlockSyncAction::PeerBehind { peer: p, peer_height, height } && p@ == peer@
                            && peer_height == status.height && height == old(self).current_height
                    } else {
                        r is Nothing
                    }
                },
                BlockSyncMsg::OtherEvent => {
                    &&& final(self).current_height == old(self).current_height
                    &&& final(self).peers.view_map() == old(self).peers.view_map()
                    &&& r is Nothing
                },
                BlockSyncMsg::Decided { height } => {
                    &&& final(self).current_height == height
                    &&& final(self).peers.view_map() == old(self).peers.view_map()
                    &&& r is Nothing
                },
            },
    {
        match msg {
            BlockSyncMsg::PeerStatus { peer, status } => {
                let p = peer.duplicate();
                self.store_peer_height(peer, status.height);
                if status.height.lt(&self.current_height) {
                    BlockSyncAction::PeerBehind { peer: p, peer_height: status.height, height: self.current_height }
                } else {
                    BlockSyncAction::Nothing
                }
            },
            BlockSyncMsg::OtherEvent => BlockSyncAction::Nothing,
            BlockSyncMsg::Decided { height } => {
                self.current_height = height;
                BlockSyncAction::Nothing
            },
            BlockSyncMsg::Tick => BlockSyncAction::PublishStatus(
                Status { height: self.current_height, round: Round::Nil },
            ),
        }
    }
}

} // verus!
