//! Validator addresses: an address is the validator's public key.
use vstd::prelude::*;
use crate::keys::PublicKey;
use crate::bytes_buf::{bytes_contents, bytes_copy_from_slice};

verus! {

/// The address of a validator, which is its public key.
#[derive(Copy, Clone, Debug)]
pub struct Address(pub PublicKey);

/// Errors met while converting a Protobuf message.
#[derive(Clone, Debug)]
pub enum ProtoError {
    /// A required field is absent; the payload names the message type and the field.
    MissingField { message: String, field: String },
    /// Any other decoding failure, with its description.
    Other(String),
}

/// The Protobuf form of an address: its key bytes.
#[derive(Clone, Debug)]
pub struct AddressProto {
    pub elements: Vec<u8>,
}

/// The decimal digits of `n`, most significant first, with no leading zero.
pub open spec fn decimal(n: nat) -> Seq<char>
    decreases n,
{
    if n < 10 {
        seq![(48 + n) as char]
    } else {
        decimal(n / 10).push((48 + n % 10) as char)
    }
}

/// The text of the error for an address of `got` bytes.
pub open spec fn invalid_length_text(got: nat) -> Seq<char> {
    "Invalid address length: expected 32, got "@ + decimal(got)
}

/// Calls `format!` on `"Invalid address length: expected 32, got {}"` with `got`, which
/// `Display` writes in decimal.
#[verifier::external_body]
fn invalid_length_message(got: usize) -> (r: String)
    ensures
        r@ == invalid_length_text(got as nat),
{
    format!("Invalid address length: expected 32, got {}", got)
}

impl Address {
    /// The address of the public key whose encoding is `bytes`.
    pub fn new(bytes: [u8; 32]) -> (r: Self)
        ensures
            r.0.bytes == bytes,
    {
        Self::from_public_key(PublicKey::from_bytes(bytes))
    }

    /// The address of `public_key`.
    pub fn from_public_key(public_key: PublicKey) -> (r: Self)
        ensures
            r.0 == public_key,
    {
        Address(public_key)
    }

    /// The 32 bytes of the address.
    pub fn as_bytes(&self) -> (r: [u8; 32])
        ensures
            r == self.0.bytes,
    {
        self.0.as_bytes()
    }

    /// The bytes of the address in a `bytes::Bytes` buffer.
    pub fn to_bytes(&self) -> (r: bytes::Bytes)
        ensures
            bytes_contents(r) == self.0.bytes@,
    {
        let b = self.0.as_bytes();
        bytes_copy_from_slice(vstd::array::array_as_slice(&b))
    }

    /// Address equality, byte by byte.
    pub fn eq(&self, other: &Self) -> (r: bool)
        ensures
            r == (*self == *other),
    {
        self.0.eq(&other.0)
    }

    /// Decodes an address from its Protobuf form; fails unless it holds exactly 32 bytes.
    pub fn from_proto(proto: AddressProto) -> (r: Result<Self, ProtoError>)
        ensures
            proto.elements@.len() == 32 <==> r is Ok,
            r matches Ok(a) ==> a.0.bytes@ == proto.elements@,
            r is Err ==> (r matches Err(ProtoError::Other(m)) && m@ == invalid_length_text(
                proto.elements@.len(),
            )),
    {
        if proto.elements.len() != 32 {
            return Err(ProtoError::Other(invalid_length_message(proto.elements.len())));
        }
        let mut bytes = [0u8; 32];
        let mut i: usize = 0;
        while i < 32
            invariant
                i <= 32,
                proto.elements@.len() == 32,
                bytes@.len() == 32,
                forall|j: int| 0 <= j < i ==> bytes@[j] == proto.elements@[j],
            decreases 32 - i,
        {
            bytes.set(i, proto.elements[i]);
            i += 1;
        }
        assert(bytes@ =~= proto.elements@);
        Ok(Address::new(bytes))
    }

    /// The Protobuf form of the address.
    pub fn to_proto(&self) -> (r: Result<AddressProto, ProtoError>)
        ensures
            r matches Ok(p) && p.elements@ == self.0.bytes@,
    {
        let b = self.0.as_bytes();
        let mut elements: Vec<u8> = Vec::new();
        let mut i: usize = 0;
        while i < 32
            invariant
                i <= 32,
                b@.len() == 32,
                elements@ == b@.take(i as int),
            decreases 32 - i,
        {
            elements.push(b[i]);
            i += 1;
            assert(b@.take(i as int) =~= b@.take((i - 1) as int).push(b@[i - 1]));
        }
        assert(b@.take(32) =~= b@);
        Ok(AddressProto { elements })
    }
}

/// Decoding the Protobuf form of an address gives the same address back:
/// `to_proto` yields elements equal to the key bytes, which `from_proto` accepts
/// and turns into an address with those bytes.
pub proof fn lemma_address_proto_round_trip(a: Address, p: AddressProto, b: Address)
    requires
        p.elements@ == a.0.bytes@,
        b.0.bytes@ == p.elements@,
    ensures
        p.elements@.len() == 32,
        b == a,
{
    broadcast use vstd::array::group_array_axioms;
    assert(b.0.bytes =~= a.0.bytes);
}

} // verus!
