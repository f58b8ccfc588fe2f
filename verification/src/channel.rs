//! The gossip channels of consensus, and their pub-sub topics.
use vstd::prelude::*;
use vstd::string::StrSliceExecFns;
use libp2p::floodsub;
use libp2p::gossipsub;

verus! {

/// `libp2p::gossipsub::TopicHash`, the hash that identifies a gossipsub topic.
#[verifier::external_type_specification]
#[verifier::external_body]
pub struct ExTopicHash(gossipsub::TopicHash);

/// `libp2p::floodsub::Topic`, a floodsub topic.
#[verifier::external_type_specification]
#[verifier::external_body]
pub struct ExFloodsubTopic(floodsub::Topic);

/// The text of a gossipsub topic hash.
pub uninterp spec fn topic_hash_text(h: gossipsub::TopicHash) -> Seq<char>;

/// The id of a floodsub topic.
pub uninterp spec fn floodsub_topic_id(t: floodsub::Topic) -> Seq<char>;

/// Calls `libp2p::gossipsub::IdentTopic::new(name).hash()`: the hash of the gossipsub
/// topic with the given name under the identity hasher, which is the name itself.
#[verifier::external_body]
fn ident_topic_hash(name: &str) -> (r: gossipsub::TopicHash)
    ensures
        topic_hash_text(r) == name@,
{
    gossipsub::IdentTopic::new(name).hash()
}

/// Calls `libp2p::gossipsub::TopicHash::as_str`: the text of the hash.
#[verifier::external_body]
fn topic_hash_as_str(h: &gossipsub::TopicHash) -> (r: &str)
    ensures
        r@ == topic_hash_text(*h),
{
    h.as_str()
}

/// Calls `<libp2p::gossipsub::TopicHash as PartialEq>::eq`: topic hashes are equal when
/// their texts are.
#[verifier::external_body]
fn topic_hash_eq(a: &gossipsub::TopicHash, b: &gossipsub::TopicHash) -> (r: bool)
    ensures
        r == (topic_hash_text(*a) == topic_hash_text(*b)),
{
    a == b
}

/// Calls `libp2p::floodsub::Topic::new`: the topic with the given id.
#[verifier::external_body]
fn floodsub_topic_new(id: &str) -> (r: floodsub::Topic)
    ensures
        floodsub_topic_id(r) == id@,
{
    floodsub::Topic::new(id)
}

/// Calls `libp2p::floodsub::Topic::id`: the id of the topic.
#[verifier::external_body]
fn floodsub_topic_as_str(t: &floodsub::Topic) -> (r: &str)
    ensures
        r@ == floodsub_topic_id(*t),
{
    t.id()
}

/// Calls `<libp2p::floodsub::Topic as PartialEq>::eq`: topics are equal when their ids are.
#[verifier::external_body]
fn floodsub_topic_eq(a: &floodsub::Topic, b: &floodsub::Topic) -> (r: bool)
    ensures
        r == (floodsub_topic_id(*a) == floodsub_topic_id(*b)),
{
    a == b
}

/// Character-by-character equality of two texts.
pub fn str_eq(a: &str, b: &str) -> (r: bool)
    ensures
        r == (a@ == b@),
{
    let n = a.unicode_len();
    if n != b.unicode_len() {
        return false;
    }
    let mut i: usize = 0;
    while i < n
        invariant
            i <= n,
            n == a@.len(),
            n == b@.len(),
            forall|j: int| 0 <= j < i ==> a@[j] == b@[j],
        decreases n - i,
    {
        if a.get_char(i) != b.get_char(i) {
            return false;
        }
        i += 1;
    }
    assert(a@ =~= b@);
    true
}

/// A channel of the consensus gossip.
#[derive(Copy, Clone, Debug, PartialEq, Eq, Structural)]
pub enum Channel {
    Consensus,
    ProposalParts,
}

/// The topic name of a channel.
pub open spec fn channel_name(c: Channel) -> Seq<char> {
    match c {
        Channel::Consensus => "/consensus"@,
        Channel::ProposalParts => "/proposal_parts"@,
    }
}

/// The channel whose topic name is `name`, if any.
pub open spec fn channel_named(name: Seq<char>) -> Option<Channel> {
    if name == "/consensus"@ {
        Some(Channel::Consensus)
    } else if name == "/proposal_parts"@ {
        Some(Channel::ProposalParts)
    } else {
        None
    }
}

/// The channel with the given topic name, if any.
fn channel_from_name(name: &str) -> (r: Option<Channel>)
    ensures
        r == channel_named(name@),
{
    if str_eq(name, "/consensus") {
        Some(Channel::Consensus)
    } else if str_eq(name, "/proposal_parts") {
        Some(Channel::ProposalParts)
    } else {
        None
    }
}

impl Channel {
    /// Every channel.
    pub fn all() -> (r: Vec<Channel>)
        ensures
            r@ == seq![Channel::Consensus, Channel::ProposalParts],
    {
        let mut v: Vec<Channel> = Vec::new();
        v.push(Channel::Consensus);
        v.push(Channel::ProposalParts);
        assert(v@ =~= seq![Channel::Consensus, Channel::ProposalParts]);
        v
    }

    /// The topic name of the channel.
    pub fn as_str(&self) -> (r: &'static str)
        ensures
            r@ == channel_name(*self),
    {
        match self {
            Channel::Consensus => "/consensus",
            Channel::ProposalParts => "/proposal_parts",
        }
    }

    /// The floodsub topic of the channel.
    pub fn to_floodsub_topic(self) -> (r: floodsub::Topic)
        ensures
            floodsub_topic_id(r) == channel_name(self),
    {
        floodsub_topic_new(self.as_str())
    }

    /// Whether the hash is that of the gossipsub topic of some channel.
    pub fn has_gossipsub_topic(topic_hash: &gossipsub::TopicHash) -> (r: bool)
        ensures
            r == exists|c: Channel| channel_name(c) == topic_hash_text(*topic_hash),
    {
        let channels = Channel::all();
        let mut i: usize = 0;
        while i < channels.len()
            invariant
                i <= channels@.len(),
                channels@ == seq![Channel::Consensus, Channel::ProposalParts],
                forall|j: int| 0 <= j < i ==> channel_name(channels@[j]) != topic_hash_text(*topic_hash),
            decreases channels@.len() - i,
        {
            let h = ident_topic_hash(channels[i].as_str());
            if topic_hash_eq(&h, topic_hash) {
                return true;
            }
            i += 1;
        }
        proof {
            assert forall|c: Channel| channel_name(c) != topic_hash_text(*topic_hash) by {
                match c {
                    Channel::Consensus => assert(channel_name(channels@[0]) != topic_hash_text(*topic_hash)),
                    Channel::ProposalParts => assert(channel_name(channels@[1]) != topic_hash_text(*topic_hash)),
                }
            }
        }
        false
    }

    /// Whether the topic is the floodsub topic of some channel.
    pub fn has_floodsub_topic(topic: &floodsub::Topic) -> (r: bool)
        ensures
            r == exists|c: Channel| channel_name(c) == floodsub_topic_id(*topic),
    {
        let channels = Channel::all();
        let mut i: usize = 0;
        while i < channels.len()
            invariant
                i <= channels@.len(),
                channels@ == seq![Channel::Consensus, Channel::ProposalParts],
                forall|j: int| 0 <= j < i ==> channel_name(channels@[j]) != floodsub_topic_id(*topic),
            decreases channels@.len() - i,
        {
            let t = channels[i].to_floodsub_topic();
            if floodsub_topic_eq(&t, topic) {
                return true;
            }
            i += 1;
        }
        proof {
            assert forall|c: Channel| channel_name(c) != floodsub_topic_id(*topic) by {
                match c {
                    Channel::Consensus => assert(channel_name(channels@[0]) != floodsub_topic_id(*topic)),
                    Channel::ProposalParts => assert(channel_name(channels@[1]) != floodsub_topic_id(*topic)),
                }
            }
        }
        false
    }

    /// The channel whose gossipsub topic has the given hash, if any.
    pub fn from_gossipsub_topic_hash(topic: &gossipsub::TopicHash) -> (r: Option<Self>)
        ensures
            r == channel_named(topic_hash_text(*topic)),
    {
        channel_from_name(topic_hash_as_str(topic))
    }

    /// The channel with the given floodsub topic, if any.
    pub fn from_floodsub_topic(topic: &floodsub::Topic) -> (r: Option<Self>)
        ensures
            r == channel_named(floodsub_topic_id(*topic)),
    {
        channel_from_name(floodsub_topic_as_str(topic))
    }
}

/// A topic hash belongs to some channel exactly when a channel can be read back from it.
pub proof fn lemma_has_topic_iff_channel(t: Seq<char>)
    ensures
        (exists|c: Channel| channel_name(c) == t) <==> channel_named(t) is Some,
{
    if channel_named(t) is Some {
        let c = channel_named(t)->0;
        assert(channel_name(c) == t);
    }
    if exists|c: Channel| channel_name(c) == t {
        let c = choose|c: Channel| channel_name(c) == t;
        match c {
            Channel::Consensus => {},
            Channel::ProposalParts => {},
        }
    }
}

/// Each channel is the channel of its own topic name: names and channels convert back and forth.
pub proof fn lemma_channel_name_round_trip(c: Channel)
    ensures
        channel_named(channel_name(c)) == Some(c),
{
    reveal_strlit("/consensus");
    reveal_strlit("/proposal_parts");
    match c {
        Channel::Consensus => {},
        Channel::ProposalParts => {
            assert("/proposal_parts"@ != "/consensus"@) by {
                assert("/proposal_parts"@.len() != "/consensus"@.len());
            }
        },
    }
}

} // verus!
