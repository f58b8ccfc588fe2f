//! The store of decided blocks: what a decided block holds, and how its height is
//! written as a key of the block table.
use vstd::prelude::*;
use crate::consensus_types::{Proposal, SignedMessage, Vote};
use crate::encoding::{copy_bytes, le_u64};
use crate::height::StarknetHeight;
use crate::proposal::{copy_txs, txs_view, BlockHash, Transaction};

verus! {

/// A block: its height, its hash and its transactions.
#[derive(Clone, Debug)]
pub struct Block {
    pub height: StarknetHeight,
    pub block_hash: BlockHash,
    pub transactions: Vec<Transaction>,
}

/// The precommits that decided a block.
#[derive(Clone, Debug)]
pub struct Certificate {
    pub commits: Vec<SignedMessage<Vote>>,
}

/// A decided block, with the signed proposal of it and the certificate that decided it.
#[derive(Clone, Debug)]
pub struct DecidedBlock {
    pub block: Block,
    pub proposal: SignedMessage<Proposal>,
    pub certificate: Certificate,
}

/// The plain values of a signed message.
pub open spec fn signed_view<M>(m: SignedMessage<M>) -> (M, Seq<u8>) {
    (m.message, m.signature@)
}

/// The plain values of a list of signed votes.
pub open spec fn commits_view(s: Seq<SignedMessage<Vote>>) -> Seq<(Vote, Seq<u8>)> {
    s.map_values(|m: SignedMessage<Vote>| signed_view(m))
}

/// A copy of a list of signed votes.
fn copy_commits(v: &Vec<SignedMessage<Vote>>) -> (r: Vec<SignedMessage<Vote>>)
    ensures
        commits_view(r@) == commits_view(v@),
{
    let mut out: Vec<SignedMessage<Vote>> = Vec::new();
    let mut i: usize = 0;
    while i < v.len()
        invariant
            i <= v@.len(),
            commits_view(out@) == commits_view(v@.take(i as int)),
        decreases v@.len() - i,
    {
        let ghost before = out@;
        let m = SignedMessage { message: v[i].message, signature: copy_bytes(&v[i].signature) };
        assert(signed_view(m) == signed_view(v@[i as int]));
        out.push(m);
        assert(v@.take(i as int + 1) =~= v@.take(i as int).push(v@[i as int]));
        assert(out@ =~= before.push(m));
        assert(commits_view(out@) =~= commits_view(before).push(signed_view(m)));
        assert(commits_view(v@.take(i as int + 1)) =~= commits_view(v@.take(i as int)).push(signed_view(v@[i as int])));
        i += 1;
    }
    assert(v@.take(i as int) =~= v@);
    out
}

/// The decided block that a signed proposal, the transactions of its value and the
/// precommits that decided it make: the block is at the proposal's height and has the
/// proposed block hash.
pub fn decided_block(
    proposal: &SignedMessage<Proposal>,
    txes: &Vec<Transaction>,
    commits: &Vec<SignedMessage<Vote>>,
) -> (r: DecidedBlock)
    ensures
        r.block.height == proposal.message.height,
        r.block.block_hash == proposal.message.block_hash,
        txs_view(r.block.transactions@) == txs_view(txes@),
        signed_view(r.proposal) == signed_view(*proposal),
        commits_view(r.certificate.commits@) == commits_view(commits@),
{
    DecidedBlock {
        block: Block {
            height: proposal.message.height,
            block_hash: proposal.message.block_hash,
            transactions: copy_txs(txes),
        },
        proposal: SignedMessage { message: proposal.message, signature: copy_bytes(&proposal.signature) },
        certificate: Certificate { commits: copy_commits(commits) },
    }
}

/// The width in bytes of a height key: two `u64`s.
pub const HEIGHT_KEY_WIDTH: usize = 16;

/// The bytes under which the block table stores a height: the fork id, then the block
/// number, each in eight little-endian bytes.
pub open spec fn height_key(h: StarknetHeight) -> Seq<u8> {
    le_u64(h.fork_id) + le_u64(h.block_number)
}

/// `r` is the pair that `data` encodes, if `data` is the encoding of a pair.
pub open spec fn decodes_pair(data: Seq<u8>, r: (u64, u64)) -> bool {
    forall|a: u64, b: u64| #![trigger le_u64(a), le_u64(b)] data == le_u64(a) + le_u64(b) ==> r == (a, b)
}

/// Calls `<(u64, u64) as redb::Value>::as_bytes`: the little-endian bytes of the first
/// element, then those of the second.
#[verifier::external_body]
fn redb_pair_as_bytes(a: u64, b: u64) -> (r: Vec<u8>)
    ensures
        r@ == le_u64(a) + le_u64(b),
{
    <(u64, u64) as redb::Value>::as_bytes(&(a, b))
}

/// Calls `<(u64, u64) as redb::Value>::from_bytes` on 16 bytes: each element from eight
/// little-endian bytes, so the encoding of a pair reads back as that pair. Shorter input
/// is left out, as the call panics on it.
#[verifier::external_body]
fn redb_pair_from_bytes(data: &[u8]) -> (r: (u64, u64))
    requires
        data@.len() == 16,
    ensures
        decodes_pair(data@, r),
{
    <(u64, u64) as redb::Value>::from_bytes(data)
}

/// The key bytes of a height.
pub fn height_key_bytes(h: StarknetHeight) -> (r: Vec<u8>)
    ensures
        r@ == height_key(h),
{
    redb_pair_as_bytes(h.fork_id, h.block_number)
}

/// The height that key bytes encode.
pub fn height_from_key_bytes(data: &[u8]) -> (r: StarknetHeight)
    requires
        data@.len() == HEIGHT_KEY_WIDTH,
    ensures
        forall|h: StarknetHeight| data@ == #[trigger] height_key(h) ==> r == h,
{
    let (fork_id, block_number) = redb_pair_from_bytes(data);
    StarknetHeight::new(fork_id, block_number)
}

/// Pruning below `retain_height` keeps the block at `height`: it is not before it.
pub fn retained(height: StarknetHeight, retain_height: StarknetHeight) -> (r: bool)
    ensures
        r == !height.precedes(retain_height),
{
    !height.lt(&retain_height)
}

/// The key bytes of a height read back as that height.
pub proof fn lemma_height_key_round_trip(h: StarknetHeight, data: Seq<u8>, r: StarknetHeight)
    requires
        data == height_key(h),
        forall|g: StarknetHeight| data == #[trigger] height_key(g) ==> r == g,
    ensures
        r == h,
{
}

} // verus!
