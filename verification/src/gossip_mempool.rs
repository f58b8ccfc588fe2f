//! The mempool gossip actor: which peers are connected, who listens to its events, and
//! what it does with each message.
use vstd::prelude::*;
use crate::peers::{PeerId, PeerSet};

verus! {

/// A gossip event, as far as the mempool actor cares.
#[derive(Clone, Debug)]
pub enum GossipEvent {
    PeerConnected(PeerId),
    PeerDisconnected(PeerId),
    Other,
}

/// The state of the actor: stopped, or running with the set of connected peers and the
/// subscribers to its events.
#[derive(Clone, Debug)]
pub enum GossipMempoolState<S> {
    Stopped,
    Running { peers: PeerSet, subscribers: Vec<S> },
}

/// A message to the actor.
#[derive(Clone, Debug)]
pub enum GossipMempoolMsg<S, C, B> {
    /// Send the actor's events to this subscriber too.
    Subscribe(S),
    /// Broadcast a batch on a channel.
    Broadcast(C, B),
    /// Ask for the number of connected peers.
    GetState,
    /// A network event.
    NewEvent(GossipEvent),
}

/// What the actor does after a message.
#[derive(Clone, Debug)]
pub enum GossipMempoolAction<C, B> {
    /// Nothing more.
    Nothing,
    /// Broadcast the batch on the channel.
    Broadcast(C, B),
    /// Pass the event on to every subscriber.
    Notify(GossipEvent),
    /// Answer the request with the number of connected peers.
    Reply(usize),
}

impl<S> GossipMempoolState<S> {
    /// No peer is connected twice.
    pub open spec fn wf(&self) -> bool {
        match self {
            GossipMempoolState::Stopped => true,
            GossipMempoolState::Running { peers, .. } => peers.wf(),
        }
    }

    /// The connected peers; none when stopped.
    pub open spec fn peer_set(&self) -> Set<Seq<u8>> {
        match self {
            GossipMempoolState::Stopped => Set::empty(),
            GossipMempoolState::Running { peers, .. } => peers.view_set(),
        }
    }

    /// The subscribers; none when stopped.
    pub open spec fn subscriber_list(&self) -> Seq<S> {
        match self {
            GossipMempoolState::Stopped => Seq::empty(),
            GossipMempoolState::Running { subscribers, .. } => subscribers@,
        }
    }

    /// A running actor with no peer and no subscriber.
    pub fn new() -> (r: Self)
        ensures
            r.wf(),
            (r is Running),
            r.peer_set() == Set::<Seq<u8>>::empty(),
            r.subscriber_list() == Seq::<S>::empty(),
    {
        GossipMempoolState::Running { peers: PeerSet::new(), subscribers: Vec::new() }
    }

    /// A network event: a connection adds its peer, a disconnection removes it.
    pub fn new_event(&mut self, event: &GossipEvent)
        requires
            old(self).wf(),
        ensures
            final(self).wf(),
            final(self).subscriber_list() == old(self).subscriber_list(),
            (*old(self) is Stopped) ==> (*final(self) is Stopped),
            (*old(self) is Running) ==> (*final(self) is Running) && final(self).peer_set() == match event {
                GossipEvent::PeerConnected(p) => old(self).peer_set().insert(p@),
                GossipEvent::PeerDisconnected(p) => old(self).peer_set().remove(p@),
                GossipEvent::Other => old(self).peer_set(),
            },
    {
        match self {
            GossipMempoolState::Stopped => {},
            GossipMempoolState::Running { peers, .. } => {
                match event {
                    GossipEvent::PeerConnected(p) => peers.insert(p.duplicate()),
                    GossipEvent::PeerDisconnected(p) => peers.remove(p),
                    GossipEvent::Other => {},
                }
            },
        }
    }

    /// The number of connected peers: zero when stopped.
    pub fn number_peers(&self) -> (r: usize)
        requires
            self.wf(),
        ensures
            r == self.peer_set().len(),
    {
        match self {
            GossipMempoolState::Stopped => 0,
            GossipMempoolState::Running { peers, .. } => peers.len(),
        }
    }

    /// Handles a message. A stopped actor does nothing. A running one adds a subscriber,
    /// asks for a broadcast, answers with its number of peers, or records a network event
    /// and passes it on to its subscribers.
    pub fn handle<C, B>(&mut self, msg: GossipMempoolMsg<S, C, B>) -> (r: GossipMempoolAction<C, B>)
        requires
            old(self).wf(),
        ensures
            final(self).wf(),
            (*old(self) is Stopped) ==> (*final(self) is Stopped) && r is Nothing,
            (*old(self) is Running) ==> (*final(self) is Running) && match msg {
                GossipMempoolMsg::Subscribe(s) => {
                    &&& final(self).subscriber_list() == old(self).subscriber_list().push(s)
                    &&& final(self).peer_set() == old(self).peer_set()
                    &&& r is Nothing
                },
                GossipMempoolMsg::Broadcast(c, b) => {
                    &&& final(self).subscriber_list() == old(self).subscriber_list()
                    &&& final(self).peer_set() == old(self).peer_set()
                    &&& r == GossipMempoolAction::<C, B>::Broadcast(c, b)
                },
                GossipMempoolMsg::GetState => {
                    &&& final(self).subscriber_list() == old(self).subscriber_list()
                    &&& final(self).peer_set() == old(self).peer_set()
                    &&& r == GossipMempoolAction::<C, B>::Reply(old(self).peer_set().len() as usize)
                },
                GossipMempoolMsg::NewEvent(e) => {
                    &&& final(self).subscriber_list() == old(self).subscriber_list()
                    &&& final(self).peer_set() == match e {
                        GossipEvent::PeerConnected(p) => old(self).peer_set().insert(p@),
                        GossipEvent::PeerDisconnected(p) => old(self).peer_set().remove(p@),
                        GossipEvent::Other => old(self).peer_set(),
                    }
                    &&& r == GossipMempoolAction::<C, B>::Notify(e)
                },
            },
    {
        if let GossipMempoolState::Stopped = self {
            return GossipMempoolAction::Nothing;
        }
        match msg {
            GossipMempoolMsg::Subscribe(s) => {
                match self {
                    GossipMempoolState::Stopped => {},
                    GossipMempoolState::Running { subscribers, .. } => subscribers.push(s),
                }
                GossipMempoolAction::Nothing
            },
            GossipMempoolMsg::Broadcast(c, b) => GossipMempoolAction::Broadcast(c, b),
            GossipMempoolMsg::GetState => GossipMempoolAction::Reply(self.number_peers()),
            GossipMempoolMsg::NewEvent(e) => {
                self.new_event(&e);
                GossipMempoolAction::Notify(e)
            },
        }
    }

    /// The actor stops.
    pub fn stop(&mut self)
        ensures
            *final(self) is Stopped,
    {
        *self = GossipMempoolState::Stopped;
    }
}

} // verus!
