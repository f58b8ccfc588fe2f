//! Peer discovery: its configuration, and the messages that describe nodes.
use vstd::prelude::*;
use crate::address::ProtoError;
use crate::peers::PeerId;

verus! {

/// How often a peer is dialed before giving up, by default.
pub const DEFAULT_DIAL_MAX_RETRIES: usize = 5;

/// The configuration of discovery.
#[derive(Copy, Clone, Debug)]
pub struct Config {
    pub enabled: bool,
    pub dial_max_retries: usize,
}

impl Default for Config {
    fn default() -> (r: Self)
        ensures
            r.enabled == true,
            r.dial_max_retries == DEFAULT_DIAL_MAX_RETRIES,
    {
        Config { enabled: true, dial_max_retries: DEFAULT_DIAL_MAX_RETRIES }
    }
}

/// A capability of a node: a protocol and what the node offers of it.
#[derive(Clone, Debug)]
pub struct Capability {
    pub protocol: String,
    pub capability: Vec<u8>,
}

/// A proof of work tying a node to a recent block of the underlying layer.
#[derive(Clone, Debug)]
pub struct Pow {
    /// One of the accepted block hashes in the underlying layer.
    pub block_hash: Vec<u8>,
    /// A salt such that keccak(salt||blockHash||id) is below the difficulty.
    pub salt: Vec<u8>,
}

/// A network address of a node, in its binary multiaddress form.
#[derive(Clone, Debug)]
pub struct Multiaddr(pub Vec<u8>);

/// A node: its peer id, addresses, capabilities and proof of work.
#[derive(Clone, Debug)]
pub struct Node {
    pub id: PeerId,
    pub addresses: Vec<Multiaddr>,
    pub capabilities: Vec<Capability>,
    pub pow: Pow,
}

/// A request for the nodes with the given ids.
#[derive(Clone, Debug)]
pub struct NodesRequest {
    pub ids: Vec<PeerId>,
}

/// The nodes that answer a request.
#[derive(Clone, Debug)]
pub struct NodesResponse {
    pub nodes: Vec<Node>,
}

/// The Protobuf form of a capability.
#[derive(Clone, Debug)]
pub struct CapabilityProto {
    pub protocol: String,
    pub capability: Vec<u8>,
}

/// The Protobuf form of a proof of work.
#[derive(Clone, Debug)]
pub struct PowProto {
    pub block_hash: Vec<u8>,
    pub salt: Vec<u8>,
}

/// The Protobuf form of a peer id.
#[derive(Clone, Debug)]
pub struct PeerIdProto {
    pub id: Vec<u8>,
}

/// The Protobuf form of an address.
#[derive(Clone, Debug)]
pub struct MultiAddressProto {
    pub value: Vec<u8>,
}

/// The Protobuf form of a node.
#[derive(Clone, Debug)]
pub struct NodeProto {
    pub id: Option<PeerIdProto>,
    pub addresses: Vec<MultiAddressProto>,
    pub capabilities: Vec<CapabilityProto>,
    pub pow: Option<PowProto>,
}

/// The Protobuf form of a request for nodes.
#[derive(Clone, Debug)]
pub struct NodesRequestProto {
    pub ids: Vec<PeerIdProto>,
}

/// The Protobuf form of a response with nodes.
#[derive(Clone, Debug)]
pub struct NodesResponseProto {
    pub nodes: Vec<NodeProto>,
}

/// The bytes encode a peer id: a multihash of a code that peer ids may use.
pub uninterp spec fn peer_id_parses(bytes: Seq<u8>) -> bool;

/// The bytes encode a multiaddress: a sequence of protocols with their arguments.
pub uninterp spec fn multiaddr_parses(bytes: Seq<u8>) -> bool;

/// Calls `libp2p::PeerId::from_bytes`: checks that the bytes encode a peer id, giving the
/// description of the error when they do not. No peer id is empty.
#[verifier::external_body]
fn check_peer_id(bytes: &Vec<u8>) -> (r: Result<(), String>)
    ensures
        r is Ok == peer_id_parses(bytes@),
        r is Err <== bytes@.len() == 0,
{
    match libp2p::PeerId::from_bytes(bytes) {
        Ok(_) => Ok(()),
        Err(e) => Err(e.to_string()),
    }
}

/// Calls `libp2p::Multiaddr::try_from` on a byte vector: checks that the bytes encode a
/// multiaddress, giving the description of the error when they do not. The empty address
/// is valid.
#[verifier::external_body]
fn check_multiaddr(bytes: &Vec<u8>) -> (r: Result<(), String>)
    ensures
        r is Ok == multiaddr_parses(bytes@),
        r is Ok <== bytes@.len() == 0,
{
    match libp2p::Multiaddr::try_from(bytes.clone()) {
        Ok(_) => Ok(()),
        Err(e) => Err(e.to_string()),
    }
}

/// A copy of a string.
fn copy_string(s: &String) -> (r: String)
    ensures
        r@ == s@,
{
    s.clone()
}

/// The fields of a capability, as plain values.
pub open spec fn capability_view(c: Capability) -> (Seq<char>, Seq<u8>) {
    (c.protocol@, c.capability@)
}

/// The fields of the Protobuf form of a capability, as plain values.
pub open spec fn capability_proto_view(c: CapabilityProto) -> (Seq<char>, Seq<u8>) {
    (c.protocol@, c.capability@)
}

impl Capability {
    /// The capability of its Protobuf form.
    pub fn from_proto(proto: CapabilityProto) -> (r: Result<Self, ProtoError>)
        ensures
            r matches Ok(c) && capability_view(c) == capability_proto_view(proto),
    {
        Ok(Capability { protocol: proto.protocol, capability: proto.capability })
    }

    /// The Protobuf form of the capability.
    pub fn to_proto(&self) -> (r: Result<CapabilityProto, ProtoError>)
        ensures
            r matches Ok(p) && capability_proto_view(p) == capability_view(*self),
    {
        Ok(CapabilityProto {
            protocol: copy_string(&self.protocol),
            capability: crate::encoding::copy_bytes(&self.capability),
        })
    }
}

impl Pow {
    /// The proof of work of its Protobuf form.
    pub fn from_proto(proto: PowProto) -> (r: Result<Self, ProtoError>)
        ensures
            r matches Ok(p) && p.block_hash@ == proto.block_hash@ && p.salt@ == proto.salt@,
    {
        Ok(Pow { block_hash: proto.block_hash, salt: proto.salt })
    }

    /// The Protobuf form of the proof of work.
    pub fn to_proto(&self) -> (r: Result<PowProto, ProtoError>)
        ensures
            r matches Ok(p) && p.block_hash@ == self.block_hash@ && p.salt@ == self.salt@,
    {
        Ok(PowProto {
            block_hash: crate::encoding::copy_bytes(&self.block_hash),
            salt: crate::encoding::copy_bytes(&self.salt),
        })
    }
}

/// The error for a message whose field `field` is absent.
fn missing_field(message: &str, field: &str) -> (r: ProtoError)
    ensures
        r matches ProtoError::MissingField { message: m, field: f } && m@ == message@ && f@ == field@,
{
    ProtoError::MissingField { message: message.to_owned(), field: field.to_owned() }
}

/// Every address of `s` is a multiaddress.
pub open spec fn all_addresses_parse(s: Seq<MultiAddressProto>) -> bool {
    forall|i: int| 0 <= i < s.len() ==> multiaddr_parses(#[trigger] s[i].value@)
}

/// Every id of `s` is a peer id.
pub open spec fn all_ids_parse(s: Seq<PeerIdProto>) -> bool {
    forall|i: int| 0 <= i < s.len() ==> peer_id_parses(#[trigger] s[i].id@)
}

/// The Protobuf form of a node is well formed: it has an id that is a peer id, a proof of
/// work, and addresses that are all multiaddresses.
pub open spec fn node_proto_valid(p: NodeProto) -> bool {
    &&& p.id is Some
    &&& p.pow is Some
    &&& peer_id_parses(p.id->0.id@)
    &&& all_addresses_parse(p.addresses@)
}

/// `n` is the node that the well-formed Protobuf form `p` describes.
pub open spec fn node_matches(n: Node, p: NodeProto) -> bool {
    &&& n.id@ == p.id->0.id@
    &&& n.addresses@.len() == p.addresses@.len()
    &&& forall|i: int| 0 <= i < n.addresses@.len() ==> (#[trigger] n.addresses@[i]).0@ == p.addresses@[i].value@
    &&& n.capabilities@.len() == p.capabilities@.len()
    &&& forall|i: int| 0 <= i < n.capabilities@.len() ==> capability_view(#[trigger] n.capabilities@[i])
        == capability_proto_view(p.capabilities@[i])
    &&& n.pow.block_hash@ == p.pow->0.block_hash@
    &&& n.pow.salt@ == p.pow->0.salt@
}

/// A node that can be read back from its Protobuf form: its id is a peer id and all its
/// addresses are multiaddresses.
pub open spec fn node_valid(n: Node) -> bool {
    &&& peer_id_parses(n.id@)
    &&& forall|i: int| 0 <= i < n.addresses@.len() ==> multiaddr_parses(#[trigger] n.addresses@[i].0@)
}

/// The Protobuf form of a node is well formed exactly when the node is valid.
pub proof fn lemma_node_proto_valid(n: Node, p: NodeProto)
    requires
        node_matches(n, p),
        p.id is Some,
        p.pow is Some,
    ensures
        node_proto_valid(p) <==> node_valid(n),
{
    if node_valid(n) {
        assert forall|i: int| 0 <= i < p.addresses@.len() implies multiaddr_parses(#[trigger] p.addresses@[i].value@) by {
            assert(n.addresses@[i].0@ == p.addresses@[i].value@);
        }
    }
    if node_proto_valid(p) {
        assert forall|i: int| 0 <= i < n.addresses@.len() implies multiaddr_parses(#[trigger] n.addresses@[i].0@) by {
            assert(n.addresses@[i].0@ == p.addresses@[i].value@);
        }
    }
}

/// A node as plain values: its id, its addresses, its capabilities and its proof of work.
pub open spec fn node_view(n: Node) -> (Seq<u8>, Seq<Seq<u8>>, Seq<(Seq<char>, Seq<u8>)>, Seq<u8>, Seq<u8>) {
    (
        n.id@,
        n.addresses@.map_values(|a: Multiaddr| a.0@),
        n.capabilities@.map_values(|c: Capability| capability_view(c)),
        n.pow.block_hash@,
        n.pow.salt@,
    )
}

/// A Protobuf form describes at most one node.
pub proof fn lemma_node_matches_unique(n: Node, p: NodeProto, m: Node)
    requires
        node_matches(n, p),
        node_matches(m, p),
    ensures
        node_view(n) == node_view(m),
{
    assert(n.addresses@.map_values(|a: Multiaddr| a.0@) =~= m.addresses@.map_values(|a: Multiaddr| a.0@));
    assert(n.capabilities@.map_values(|c: Capability| capability_view(c)) =~= m.capabilities@.map_values(
        |c: Capability| capability_view(c),
    ));
}

/// `w` is what `Node::to_proto` gives for `n`: a form with an id and a proof of work that
/// describes `n`.
pub open spec fn node_written(n: Node, w: Result<NodeProto, ProtoError>) -> bool {
    w matches Ok(p) && p.id is Some && p.pow is Some && node_matches(n, p)
}

/// `r` is what `Node::from_proto` gives for `p`: a node exactly when `p` is well formed,
/// and then the node that `p` describes.
pub open spec fn node_read(p: NodeProto, r: Result<Node, ProtoError>) -> bool {
    &&& (r is Ok <==> node_proto_valid(p))
    &&& (r matches Ok(m) ==> node_matches(m, p))
}

/// The Protobuf form that `Node::to_proto` writes for a valid node reads back, with
/// `Node::from_proto`, as that node.
pub proof fn lemma_node_proto_round_trip(n: Node, p: NodeProto, r: Result<Node, ProtoError>)
    requires
        node_valid(n),
        node_written(n, Ok(p)),
        node_read(p, r),
    ensures
        r matches Ok(m) && node_view(m) == node_view(n),
{
    lemma_node_proto_valid(n, p);
    if let Ok(m) = r {
        lemma_node_matches_unique(n, p, m);
    }
}

/// The addresses of their Protobuf forms, failing at the first that is not a multiaddress.
fn addresses_from_proto(protos: Vec<MultiAddressProto>) -> (r: Result<Vec<Multiaddr>, ProtoError>)
    ensures
        r is Ok <==> all_addresses_parse(protos@),
        r matches Ok(v) ==> v@.len() == protos@.len() && forall|i: int| 0 <= i < v@.len() ==> (#[trigger] v@[i]).0@
            == protos@[i].value@,
{
    let mut out: Vec<Multiaddr> = Vec::new();
    let mut i: usize = 0;
    while i < protos.len()
        invariant
            i <= protos@.len(),
            out@.len() == i,
            forall|j: int| 0 <= j < i ==> multiaddr_parses(#[trigger] protos@[j].value@),
            forall|j: int| 0 <= j < i ==> (#[trigger] out@[j]).0@ == protos@[j].value@,
        decreases protos@.len() - i,
    {
        match check_multiaddr(&protos[i].value) {
            Ok(()) => {},
            Err(e) => {
                return Err(ProtoError::Other(e));
            },
        }
        out.push(Multiaddr(crate::encoding::copy_bytes(&protos[i].value)));
        i += 1;
    }
    Ok(out)
}

/// The capabilities of their Protobuf forms.
fn capabilities_from_proto(protos: Vec<CapabilityProto>) -> (r: Vec<Capability>)
    ensures
        r@.len() == protos@.len(),
        forall|i: int| 0 <= i < r@.len() ==> capability_view(#[trigger] r@[i]) == capability_proto_view(protos@[i]),
{
    let mut out: Vec<Capability> = Vec::new();
    let mut i: usize = 0;
    while i < protos.len()
        invariant
            i <= protos@.len(),
            out@.len() == i,
            forall|j: int| 0 <= j < i ==> capability_view(#[trigger] out@[j]) == capability_proto_view(protos@[j]),
        decreases protos@.len() - i,
    {
        out.push(Capability {
            protocol: copy_string(&protos[i].protocol),
            capability: crate::encoding::copy_bytes(&protos[i].capability),
        });
        i += 1;
    }
    out
}

impl Node {
    /// The node that a Protobuf form describes. Fails when the id is absent, then when the
    /// proof of work is absent, then when the id is not a peer id, then at the first address
    /// that is not a multiaddress.
    pub fn from_proto(proto: NodeProto) -> (r: Result<Self, ProtoError>)
        ensures
            r is Ok <==> node_proto_valid(proto),
            r matches Ok(n) ==> node_matches(n, proto),
            node_read(proto, r),
            proto.id is None ==> (r matches Err(ProtoError::MissingField { field, .. }) && field@ == "id"@),
            proto.id is Some && proto.pow is None ==> (r matches Err(ProtoError::MissingField { field, .. }) && field@ == "pow"@),
    {
        let id = match &proto.id {
            Some(id) => id,
            None => return Err(missing_field("Node", "id")),
        };
        let pow = match &proto.pow {
            Some(pow) => pow,
            None => return Err(missing_field("Node", "pow")),
        };
        match check_peer_id(&id.id) {
            Ok(()) => {},
            Err(e) => return Err(ProtoError::Other(e)),
        }
        let peer = PeerId::from_bytes(crate::encoding::copy_bytes(&id.id));
        let pow_copy = PowProto {
            block_hash: crate::encoding::copy_bytes(&pow.block_hash),
            salt: crate::encoding::copy_bytes(&pow.salt),
        };
        let addresses = match addresses_from_proto(proto.addresses) {
            Ok(a) => a,
            Err(e) => return Err(e),
        };
        let capabilities = capabilities_from_proto(proto.capabilities);
        let pow = match Pow::from_proto(pow_copy) {
            Ok(p) => p,
            Err(e) => return Err(e),
        };
        Ok(Node { id: peer, addresses, capabilities, pow })
    }

    /// The Protobuf form of the node.
    pub fn to_proto(&self) -> (r: Result<NodeProto, ProtoError>)
        ensures
            r matches Ok(p) && p.id is Some && p.pow is Some && node_matches(*self, p),
            r matches Ok(p) && (node_proto_valid(p) <==> node_valid(*self)),
            node_written(*self, r),
    {
        let mut addresses: Vec<MultiAddressProto> = Vec::new();
        let mut i: usize = 0;
        while i < self.addresses.len()
            invariant
                i <= self.addresses@.len(),
                addresses@.len() == i,
                forall|j: int| 0 <= j < i ==> (#[trigger] self.addresses@[j]).0@ == addresses@[j].value@,
            decreases self.addresses@.len() - i,
        {
            addresses.push(MultiAddressProto { value: crate::encoding::copy_bytes(&self.addresses[i].0) });
            i += 1;
        }
        let mut capabilities: Vec<CapabilityProto> = Vec::new();
        let mut j: usize = 0;
        while j < self.capabilities.len()
            invariant
                j <= self.capabilities@.len(),
                capabilities@.len() == j,
                forall|k: int| 0 <= k < j ==> capability_view(#[trigger] self.capabilities@[k])
                    == capability_proto_view(capabilities@[k]),
            decreases self.capabilities@.len() - j,
        {
            let c = match self.capabilities[j].to_proto() {
                Ok(c) => c,
                Err(e) => return Err(e),
            };
            capabilities.push(c);
            j += 1;
        }
        let pow = match self.pow.to_proto() {
            Ok(p) => p,
            Err(e) => return Err(e),
        };
        let p = NodeProto {
            id: Some(PeerIdProto { id: crate::encoding::copy_bytes(&self.id.0) }),
            addresses,
            capabilities,
            pow: Some(pow),
        };
        proof {
            assert(node_matches(*self, p));
            lemma_node_proto_valid(*self, p);
        }
        Ok(p)
    }
}

impl NodesRequest {
    /// The request that a Protobuf form describes; fails at the first id that is not a peer id.
    pub fn from_proto(proto: NodesRequestProto) -> (r: Result<Self, ProtoError>)
        ensures
            r is Ok <==> all_ids_parse(proto.ids@),
            r matches Ok(q) ==> q.ids@.len() == proto.ids@.len() && forall|i: int| 0 <= i < q.ids@.len()
                ==> (#[trigger] q.ids@[i])@ == proto.ids@[i].id@,
    {
        let mut ids: Vec<PeerId> = Vec::new();
        let mut i: usize = 0;
        while i < proto.ids.len()
            invariant
                i <= proto.ids@.len(),
                ids@.len() == i,
                forall|j: int| 0 <= j < i ==> peer_id_parses(#[trigger] proto.ids@[j].id@),
                forall|j: int| 0 <= j < i ==> (#[trigger] ids@[j])@ == proto.ids@[j].id@,
            decreases proto.ids@.len() - i,
        {
            match check_peer_id(&proto.ids[i].id) {
                Ok(()) => {},
                Err(e) => return Err(ProtoError::Other(e)),
            }
            ids.push(PeerId::from_bytes(crate::encoding::copy_bytes(&proto.ids[i].id)));
            i += 1;
        }
        Ok(NodesRequest { ids })
    }

    /// The Protobuf form of the request.
    pub fn to_proto(&self) -> (r: Result<NodesRequestProto, ProtoError>)
        ensures
            r matches Ok(p) && p.ids@.len() == self.ids@.len() && forall|i: int| 0 <= i < p.ids@.len()
                ==> (#[trigger] p.ids@[i]).id@ == self.ids@[i]@,
    {
        let mut ids: Vec<PeerIdProto> = Vec::new();
        let mut i: usize = 0;
        while i < self.ids.len()
            invariant
                i <= self.ids@.len(),
                ids@.len() == i,
                forall|j: int| 0 <= j < i ==> (#[trigger] ids@[j]).id@ == self.ids@[j]@,
            decreases self.ids@.len() - i,
        {
            ids.push(PeerIdProto { id: crate::encoding::copy_bytes(&self.ids[i].0) });
            i += 1;
        }
        Ok(NodesRequestProto { ids })
    }
}

impl NodesResponse {
    /// The response that a Protobuf form describes; fails at the first node that is not
    /// well formed.
    pub fn from_proto(proto: NodesResponseProto) -> (r: Result<Self, ProtoError>)
        ensures
            r is Ok <==> forall|i: int| 0 <= i < proto.nodes@.len() ==> node_proto_valid(#[trigger] proto.nodes@[i]),
            r matches Ok(q) ==> q.nodes@.len() == proto.nodes@.len() && forall|i: int| 0 <= i < q.nodes@.len()
                ==> node_matches(#[trigger] q.nodes@[i], proto.nodes@[i]),
    {
        let mut nodes: Vec<Node> = Vec::new();
        let ghost protos = proto.nodes@;
        let total: usize = proto.nodes.len();
        let mut rest = proto.nodes;
        let mut i: usize = 0;
        while rest.len() > 0
            invariant
                i <= protos.len(),
                rest@ == protos.subrange(i as int, protos.len() as int),
                protos == proto.nodes@,
                protos.len() == total,
                nodes@.len() == i,
                forall|j: int| 0 <= j < i ==> node_proto_valid(#[trigger] protos[j]),
                forall|j: int| 0 <= j < i ==> node_matches(#[trigger] nodes@[j], protos[j]),
            decreases rest@.len(),
        {
            assert(i < protos.len()) by {
                assert(rest@.len() == protos.len() - i);
            }
            let p = rest.remove(0);
            assert(p == protos[i as int]);
            let n = match Node::from_proto(p) {
                Ok(n) => n,
                Err(e) => {
                    assert(!node_proto_valid(protos[i as int]));
                    return Err(e);
                },
            };
            nodes.push(n);
            i += 1;
        }
        Ok(NodesResponse { nodes })
    }

    /// The Protobuf form of the response.
    pub fn to_proto(&self) -> (r: Result<NodesResponseProto, ProtoError>)
        ensures
            r matches Ok(p) && p.nodes@.len() == self.nodes@.len() && forall|i: int| 0 <= i < p.nodes@.len()
                ==> node_matches(self.nodes@[i], #[trigger] p.nodes@[i]) && p.nodes@[i].id is Some && p.nodes@[i].pow is Some,
    {
        let mut nodes: Vec<NodeProto> = Vec::new();
        let mut i: usize = 0;
        while i < self.nodes.len()
            invariant
                i <= self.nodes@.len(),
                nodes@.len() == i,
                forall|j: int| 0 <= j < i ==> node_matches(self.nodes@[j], #[trigger] nodes@[j]) && nodes@[j].id is Some
                    && nodes@[j].pow is Some,
            decreases self.nodes@.len() - i,
        {
            let n = match self.nodes[i].to_proto() {
                Ok(n) => n,
                Err(e) => return Err(e),
            };
            nodes.push(n);
            i += 1;
        }
        Ok(NodesResponseProto { nodes })
    }
}

} // verus!
