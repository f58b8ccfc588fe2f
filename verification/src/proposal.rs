//! Proposal parts, their signing bytes, and the assembly of a block proposal.
use vstd::prelude::*;
use crate::address::Address;
use crate::encoding::{le_bytes, le_u64, push_bytes, push_le, push_u64_le, copy_bytes, pow256, lemma_le_bytes_value, lemma_le_bytes_injective};
use crate::height::AbciHeight;
use crate::round::Round;
use crate::bytes_buf::{bytes_contents, bytes_from_vec};

verus! {

/// A transaction: opaque bytes.
#[derive(Clone, Debug)]
pub struct Transaction(pub Vec<u8>);

impl View for Transaction {
    type V = Seq<u8>;

    open spec fn view(&self) -> Seq<u8> {
        self.0@
    }
}

impl Transaction {
    /// The transaction with the given bytes.
    pub fn new(bytes: Vec<u8>) -> (r: Self)
        ensures
            r@ == bytes@,
    {
        Transaction(bytes)
    }

    /// The size of the transaction in bytes.
    pub fn size_bytes(&self) -> (r: usize)
        ensures
            r == self@.len(),
    {
        self.0.len()
    }

    /// A copy of the transaction's bytes.
    pub fn to_bytes(&self) -> (r: Vec<u8>)
        ensures
            r@ == self@,
    {
        copy_bytes(&self.0)
    }

    /// A copy of the transaction.
    pub fn duplicate(&self) -> (r: Self)
        ensures
            r@ == self@,
    {
        Transaction(copy_bytes(&self.0))
    }
}

/// The hash of a block.
#[derive(Copy, Clone, Debug)]
pub struct BlockHash(pub [u8; 32]);

impl BlockHash {
    /// The block hash with the given bytes.
    pub fn new(bytes: [u8; 32]) -> (r: Self)
        ensures
            r.0 == bytes,
    {
        BlockHash(bytes)
    }
}

/// The first part of a proposal: who proposes what height in which round.
#[derive(Copy, Clone, Debug)]
pub struct ProposalInit {
    pub block_number: AbciHeight,
    pub fork_id: u64,
    pub proposal_round: Round,
    pub proposer: Address,
}

/// A proof that the proposed block is valid.
#[derive(Clone, Debug)]
pub struct BlockProof {
    pub bytes: Vec<Vec<u8>>,
}

/// The last part of a proposal.
#[derive(Copy, Clone, Debug)]
pub struct ProposalFin {
    pub valid_round: Option<Round>,
}

/// A part of a streamed block proposal.
#[derive(Clone, Debug)]
pub enum ProposalPart {
    Init(ProposalInit),
    Transactions(Vec<Transaction>),
    BlockProof(BlockProof),
    Fin(ProposalFin),
}

/// The kind of a proposal part.
#[derive(Copy, Clone, Debug, PartialEq, Eq, Structural)]
pub enum PartType {
    Init,
    Transactions,
    BlockProof,
    Fin,
}

/// A proposal part as plain values.
pub enum PartView {
    Init(ProposalInit),
    Transactions(Seq<Seq<u8>>),
    BlockProof(Seq<Seq<u8>>),
    Fin(ProposalFin),
}

/// The byte sequences of a list of transactions.
pub open spec fn txs_view(txs: Seq<Transaction>) -> Seq<Seq<u8>> {
    txs.map_values(|t: Transaction| t@)
}

/// The byte sequences held by a list of byte vectors.
pub open spec fn vecs_view(v: Seq<Vec<u8>>) -> Seq<Seq<u8>> {
    v.map_values(|b: Vec<u8>| b@)
}

impl View for ProposalPart {
    type V = PartView;

    open spec fn view(&self) -> PartView {
        match self {
            ProposalPart::Init(i) => PartView::Init(*i),
            ProposalPart::Transactions(txs) => PartView::Transactions(txs_view(txs@)),
            ProposalPart::BlockProof(p) => PartView::BlockProof(vecs_view(p.bytes@)),
            ProposalPart::Fin(f) => PartView::Fin(*f),
        }
    }
}

/// The views of a list of parts.
pub open spec fn parts_view(parts: Seq<ProposalPart>) -> Seq<PartView> {
    parts.map_values(|p: ProposalPart| p@)
}

/// The encoding of a round: 0 for `Nil`, else 1 and the round number on four bytes.
pub open spec fn round_bytes(r: Round) -> Seq<u8> {
    match r {
        Round::Nil => seq![0u8],
        Round::Defined(n) => seq![1u8] + le_bytes(n as nat, 4),
    }
}

/// A length-prefixed list of byte strings: each one as its length on eight bytes, then its bytes.
pub open spec fn chunks_bytes(s: Seq<Seq<u8>>) -> Seq<u8>
    decreases s.len(),
{
    if s.len() == 0 {
        Seq::empty()
    } else {
        chunks_bytes(s.drop_last()) + le_bytes(s[s.len() - 1].len(), 8) + s[s.len() - 1]
    }
}

/// The bytes of a part that its signature and the block hash cover: a tag for the kind
/// of the part, then its fields.
pub open spec fn sign_bytes(p: PartView) -> Seq<u8> {
    match p {
        PartView::Init(i) => seq![0u8] + le_u64(i.block_number.0) + le_u64(i.fork_id) + round_bytes(
            i.proposal_round,
        ) + i.proposer.0.bytes@,
        PartView::Transactions(txs) => seq![1u8] + le_bytes(txs.len(), 8) + chunks_bytes(txs),
        PartView::BlockProof(ps) => seq![2u8] + le_bytes(ps.len(), 8) + chunks_bytes(ps),
        PartView::Fin(f) => seq![3u8] + match f.valid_round {
            None => seq![0u8],
            Some(r) => seq![1u8] + round_bytes(r),
        },
    }
}

/// The signing bytes of a list of parts, one after the other.
pub open spec fn concat_sign_bytes(parts: Seq<PartView>) -> Seq<u8>
    decreases parts.len(),
{
    if parts.len() == 0 {
        Seq::empty()
    } else {
        concat_sign_bytes(parts.drop_last()) + sign_bytes(parts[parts.len() - 1])
    }
}

/// Every byte string of `s` has a length that fits in eight bytes.
pub open spec fn chunk_lengths_fit(s: Seq<Seq<u8>>) -> bool {
    forall|i: int| 0 <= i < s.len() ==> (#[trigger] s[i]).len() < pow256(8)
}

/// The chunk encoding read from the front: the first string's length and bytes, then the
/// others.
proof fn lemma_chunks_front(s: Seq<Seq<u8>>)
    requires
        s.len() > 0,
    ensures
        chunks_bytes(s) == le_bytes(s[0].len(), 8) + s[0] + chunks_bytes(s.drop_first()),
    decreases s.len(),
{
    if s.len() == 1 {
        assert(s.drop_last() =~= Seq::<Seq<u8>>::empty());
        assert(s.drop_first() =~= Seq::<Seq<u8>>::empty());
        assert(chunks_bytes(s) =~= le_bytes(s[0].len(), 8) + s[0] + chunks_bytes(s.drop_first()));
    } else {
        let d = s.drop_last();
        lemma_chunks_front(d);
        assert(d.drop_first() =~= s.drop_first().drop_last());
        let last = s[s.len() - 1];
        assert(s.drop_first()[s.drop_first().len() - 1] == last);
        assert(chunks_bytes(s.drop_first()) == chunks_bytes(d.drop_first()) + le_bytes(last.len(), 8) + last);
        assert(chunks_bytes(s) =~= le_bytes(s[0].len(), 8) + s[0] + chunks_bytes(s.drop_first()));
    }
}

/// The chunk encoding determines the strings it encodes: two lists of the same number of
/// strings whose encodings, each followed by anything, agree, are equal, and so is what
/// follows.
pub proof fn lemma_chunks_injective(s1: Seq<Seq<u8>>, s2: Seq<Seq<u8>>, tail1: Seq<u8>, tail2: Seq<u8>)
    requires
        s1.len() == s2.len(),
        chunk_lengths_fit(s1),
        chunk_lengths_fit(s2),
        chunks_bytes(s1) + tail1 == chunks_bytes(s2) + tail2,
    ensures
        s1 == s2,
        tail1 == tail2,
    decreases s1.len(),
{
    if s1.len() == 0 {
        assert(chunks_bytes(s1) + tail1 =~= tail1);
        assert(chunks_bytes(s2) + tail2 =~= tail2);
        assert(s1 =~= s2);
    } else {
        let a = s1[0];
        let b = s2[0];
        lemma_chunks_front(s1);
        lemma_chunks_front(s2);
        lemma_le_bytes_value(a.len(), 8);
        lemma_le_bytes_value(b.len(), 8);
        let r1 = s1.drop_first();
        let r2 = s2.drop_first();
        let x = le_bytes(a.len(), 8) + a + (chunks_bytes(r1) + tail1);
        let y = le_bytes(b.len(), 8) + b + (chunks_bytes(r2) + tail2);
        assert(x =~= chunks_bytes(s1) + tail1);
        assert(y =~= chunks_bytes(s2) + tail2);
        assert(x.take(8) =~= le_bytes(a.len(), 8));
        assert(y.take(8) =~= le_bytes(b.len(), 8));
        lemma_le_bytes_injective(a.len(), b.len(), 8);
        assert(x.subrange(8, 8 + a.len() as int) =~= a);
        assert(y.subrange(8, 8 + b.len() as int) =~= b);
        assert(x.skip(8 + a.len() as int) =~= chunks_bytes(r1) + tail1);
        assert(y.skip(8 + b.len() as int) =~= chunks_bytes(r2) + tail2);
        assert forall|i: int| 0 <= i < r1.len() implies (#[trigger] r1[i]).len() < pow256(8) by {
            assert(r1[i] == s1[i + 1]);
        }
        assert forall|i: int| 0 <= i < r2.len() implies (#[trigger] r2[i]).len() < pow256(8) by {
            assert(r2[i] == s2[i + 1]);
        }
        lemma_chunks_injective(r1, r2, tail1, tail2);
        assert(s1 =~= seq![a] + r1);
        assert(s2 =~= seq![b] + r2);
    }
}

/// The signing bytes of a part of transactions determine its transactions: two such parts
/// whose signing bytes, each followed by anything, agree, carry the same transactions, and
/// what follows agrees too.
pub proof fn lemma_transactions_sign_bytes_injective(t1: Seq<Seq<u8>>, t2: Seq<Seq<u8>>, tail1: Seq<u8>, tail2: Seq<u8>)
    requires
        t1.len() < pow256(8),
        t2.len() < pow256(8),
        chunk_lengths_fit(t1),
        chunk_lengths_fit(t2),
        sign_bytes(PartView::Transactions(t1)) + tail1 == sign_bytes(PartView::Transactions(t2)) + tail2,
    ensures
        t1 == t2,
        tail1 == tail2,
{
    lemma_le_bytes_value(t1.len(), 8);
    lemma_le_bytes_value(t2.len(), 8);
    let l1 = le_bytes(t1.len(), 8);
    let l2 = le_bytes(t2.len(), 8);
    let c1 = chunks_bytes(t1) + tail1;
    let c2 = chunks_bytes(t2) + tail2;
    assert(sign_bytes(PartView::Transactions(t1)) == seq![1u8] + l1 + chunks_bytes(t1));
    assert(sign_bytes(PartView::Transactions(t2)) == seq![1u8] + l2 + chunks_bytes(t2));
    let x = seq![1u8] + (l1 + c1);
    let y = seq![1u8] + (l2 + c2);
    assert(x =~= sign_bytes(PartView::Transactions(t1)) + tail1);
    assert(y =~= sign_bytes(PartView::Transactions(t2)) + tail2);
    assert(x == y);
    assert(x.subrange(1, 9) =~= l1);
    assert(y.subrange(1, 9) =~= l2);
    lemma_le_bytes_injective(t1.len(), t2.len(), 8);
    assert(x.skip(9) =~= c1);
    assert(y.skip(9) =~= c2);
    lemma_chunks_injective(t1, t2, tail1, tail2);
}

/// The signing bytes of a proposal commit to its transactions: two proposals for the same
/// height, round and proposer with different transactions have different signing bytes,
/// so their block hashes are digests of different data.
pub proof fn lemma_proposal_sign_bytes_commit_to_txs(
    height: AbciHeight,
    round: Round,
    proposer: Address,
    t1: Seq<Seq<u8>>,
    t2: Seq<Seq<u8>>,
)
    requires
        t1.len() < pow256(8),
        t2.len() < pow256(8),
        chunk_lengths_fit(t1),
        chunk_lengths_fit(t2),
        concat_sign_bytes(proposal_parts_of(height, round, proposer, t1)) == concat_sign_bytes(
            proposal_parts_of(height, round, proposer, t2),
        ),
    ensures
        t1 == t2,
{
    let p1 = proposal_parts_of(height, round, proposer, t1);
    let p2 = proposal_parts_of(height, round, proposer, t2);
    lemma_concat_sign_bytes_four(p1);
    lemma_concat_sign_bytes_four(p2);
    let head = sign_bytes(p1[0]);
    assert(p1[0] == p2[0]);
    let rest = sign_bytes(p1[2]) + sign_bytes(p1[3]);
    assert(p1[2] == p2[2] && p1[3] == p2[3]);
    let x = head + (sign_bytes(p1[1]) + rest);
    let y = head + (sign_bytes(p2[1]) + rest);
    assert(x =~= concat_sign_bytes(p1));
    assert(y =~= concat_sign_bytes(p2));
    assert(x.skip(head.len() as int) =~= sign_bytes(p1[1]) + rest);
    assert(y.skip(head.len() as int) =~= sign_bytes(p2[1]) + rest);
    lemma_transactions_sign_bytes_injective(t1, t2, rest, rest);
}

/// The signing bytes of four parts, one after the other.
proof fn lemma_concat_sign_bytes_four(p: Seq<PartView>)
    requires
        p.len() == 4,
    ensures
        concat_sign_bytes(p) == sign_bytes(p[0]) + sign_bytes(p[1]) + sign_bytes(p[2]) + sign_bytes(p[3]),
{
    let p3 = p.drop_last();
    let p2 = p3.drop_last();
    let p1 = p2.drop_last();
    let p0 = p1.drop_last();
    assert(p0.len() == 0);
    assert(concat_sign_bytes(p0) == Seq::<u8>::empty());
    assert(concat_sign_bytes(p1) == concat_sign_bytes(p0) + sign_bytes(p[0]));
    assert(concat_sign_bytes(p2) == concat_sign_bytes(p1) + sign_bytes(p[1]));
    assert(concat_sign_bytes(p3) == concat_sign_bytes(p2) + sign_bytes(p[2]));
    assert(concat_sign_bytes(p) == concat_sign_bytes(p3) + sign_bytes(p[3]));
    assert(concat_sign_bytes(p) =~= sign_bytes(p[0]) + sign_bytes(p[1]) + sign_bytes(p[2]) + sign_bytes(p[3]));
}


/// The Keccak-256 digest of some bytes.
pub uninterp spec fn keccak256_digest(data: Seq<u8>) -> Seq<u8>;

/// Calls `sha3::Keccak256::digest`: the 32-byte Keccak-256 hash of `data`.
#[verifier::external_body]
fn keccak256(data: &[u8]) -> (r: [u8; 32])
    ensures
        r@ == keccak256_digest(data@),
{
    <sha3::Keccak256 as sha3::Digest>::digest(data).into()
}

/// Calls `rand::RngCore::fill_bytes` on `rand::rngs::OsRng`: fills the buffer with random
/// bytes from the operating system; its length stays as it is. On an empty buffer the
/// operating system is not asked, so nothing can fail; a non-empty buffer is left out,
/// as the call panics there when the operating system cannot deliver.
#[verifier::external_body]
fn fill_random(buf: &mut Vec<u8>)
    requires
        old(buf)@.len() == 0,
    ensures
        final(buf)@.len() == old(buf)@.len(),
{
    rand::RngCore::fill_bytes(&mut rand::rngs::OsRng, buf.as_mut_slice())
}

/// Appends the encoding of a round to `buf`.
fn push_round(buf: &mut Vec<u8>, r: Round)
    ensures
        final(buf)@ == old(buf)@ + round_bytes(r),
{
    match r {
        Round::Nil => {
            buf.push(0);
            assert(buf@ =~= old(buf)@ + round_bytes(r));
        },
        Round::Defined(n) => {
            buf.push(1);
            push_le(buf, n as u64, 4);
            assert(buf@ =~= old(buf)@ + round_bytes(r));
        },
    }
}

/// Appends a length-prefixed list of transactions to `buf`.
fn push_tx_chunks(buf: &mut Vec<u8>, txs: &Vec<Transaction>)
    ensures
        final(buf)@ == old(buf)@ + le_bytes(txs@.len(), 8) + chunks_bytes(txs_view(txs@)),
{
    push_u64_le(buf, txs.len() as u64);
    let ghost start = buf@;
    let mut i: usize = 0;
    while i < txs.len()
        invariant
            i <= txs@.len(),
            buf@ == start + chunks_bytes(txs_view(txs@.take(i as int))),
        decreases txs@.len() - i,
    {
        let ghost before = buf@;
        push_u64_le(buf, txs[i].0.len() as u64);
        push_bytes(buf, txs[i].0.as_slice());
        i += 1;
        proof {
            let t = txs_view(txs@.take(i as int));
            assert(t.drop_last() =~= txs_view(txs@.take((i - 1) as int)));
            assert(t[t.len() - 1] == txs@[i - 1]@);
            assert(buf@ =~= start + chunks_bytes(t));
        }
    }
    assert(txs@.take(txs@.len() as int) =~= txs@);
}

/// Appends a length-prefixed list of byte strings to `buf`.
fn push_vec_chunks(buf: &mut Vec<u8>, v: &Vec<Vec<u8>>)
    ensures
        final(buf)@ == old(buf)@ + le_bytes(v@.len(), 8) + chunks_bytes(vecs_view(v@)),
{
    push_u64_le(buf, v.len() as u64);
    let ghost start = buf@;
    let mut i: usize = 0;
    while i < v.len()
        invariant
            i <= v@.len(),
            buf@ == start + chunks_bytes(vecs_view(v@.take(i as int))),
        decreases v@.len() - i,
    {
        push_u64_le(buf, v[i].len() as u64);
        push_bytes(buf, v[i].as_slice());
        i += 1;
        proof {
            let t = vecs_view(v@.take(i as int));
            assert(t.drop_last() =~= vecs_view(v@.take((i - 1) as int)));
            assert(t[t.len() - 1] == v@[i - 1]@);
            assert(buf@ =~= start + chunks_bytes(t));
        }
    }
    assert(v@.take(v@.len() as int) =~= v@);
}

/// A copy of a list of byte vectors.
fn copy_vecs(v: &Vec<Vec<u8>>) -> (r: Vec<Vec<u8>>)
    ensures
        vecs_view(r@) == vecs_view(v@),
{
    let mut out: Vec<Vec<u8>> = Vec::new();
    let mut i: usize = 0;
    while i < v.len()
        invariant
            i <= v@.len(),
            vecs_view(out@) == vecs_view(v@.take(i as int)),
        decreases v@.len() - i,
    {
        let c = copy_bytes(&v[i]);
        let ghost prev = out@;
        out.push(c);
        proof {
            assert(vecs_view(out@) =~= vecs_view(prev).push(c@));
            assert(vecs_view(v@.take(i as int + 1)) =~= vecs_view(v@.take(i as int)).push(v@[i as int]@));
        }
        i += 1;
    }
    assert(v@.take(v@.len() as int) =~= v@);
    out
}

/// A copy of a list of transactions.
pub fn copy_txs(v: &Vec<Transaction>) -> (r: Vec<Transaction>)
    ensures
        txs_view(r@) == txs_view(v@),
{
    let mut out: Vec<Transaction> = Vec::new();
    let mut i: usize = 0;
    while i < v.len()
        invariant
            i <= v@.len(),
            txs_view(out@) == txs_view(v@.take(i as int)),
        decreases v@.len() - i,
    {
        let c = v[i].duplicate();
        let ghost prev = out@;
        out.push(c);
        proof {
            assert(txs_view(out@) =~= txs_view(prev).push(c@));
            assert(txs_view(v@.take(i as int + 1)) =~= txs_view(v@.take(i as int)).push(v@[i as int]@));
        }
        i += 1;
    }
    assert(v@.take(v@.len() as int) =~= v@);
    out
}

impl ProposalPart {
    /// A copy of the part.
    pub fn duplicate(&self) -> (r: Self)
        ensures
            r@ == self@,
    {
        match self {
            ProposalPart::Init(i) => ProposalPart::Init(*i),
            ProposalPart::Transactions(t) => ProposalPart::Transactions(copy_txs(t)),
            ProposalPart::BlockProof(p) => ProposalPart::BlockProof(BlockProof { bytes: copy_vecs(&p.bytes) }),
            ProposalPart::Fin(f) => ProposalPart::Fin(*f),
        }
    }

    /// The kind of the part.
    pub fn part_type(&self) -> (r: PartType)
        ensures
            r == (match self@ {
                PartView::Init(_) => PartType::Init,
                PartView::Transactions(_) => PartType::Transactions,
                PartView::BlockProof(_) => PartType::BlockProof,
                PartView::Fin(_) => PartType::Fin,
            }),
    {
        match self {
            ProposalPart::Init(_) => PartType::Init,
            ProposalPart::Transactions(_) => PartType::Transactions,
            ProposalPart::BlockProof(_) => PartType::BlockProof,
            ProposalPart::Fin(_) => PartType::Fin,
        }
    }

    /// The `Init` contents of the part, if it is one.
    pub fn as_init(&self) -> (r: Option<&ProposalInit>)
        ensures
            match self@ {
                PartView::Init(i) => r == Some(&i),
                _ => r is None,
            },
    {
        match self {
            ProposalPart::Init(i) => Some(i),
            _ => None,
        }
    }

    /// The `Fin` contents of the part, if it is one.
    pub fn as_fin(&self) -> (r: Option<&ProposalFin>)
        ensures
            match self@ {
                PartView::Fin(f) => r == Some(&f),
                _ => r is None,
            },
    {
        match self {
            ProposalPart::Fin(f) => Some(f),
            _ => None,
        }
    }

    /// The transactions of the part, if it is a `Transactions` part.
    pub fn as_transactions(&self) -> (r: Option<&Vec<Transaction>>)
        ensures
            match self@ {
                PartView::Transactions(t) => r matches Some(v) && txs_view(v@) == t,
                _ => r is None,
            },
    {
        match self {
            ProposalPart::Transactions(t) => Some(t),
            _ => None,
        }
    }

    /// The number of transactions the part carries.
    pub fn tx_count(&self) -> (r: usize)
        ensures
            r == (match self@ {
                PartView::Transactions(t) => t.len(),
                _ => 0,
            }),
    {
        match self {
            ProposalPart::Transactions(t) => t.len(),
            _ => 0,
        }
    }

    /// The bytes that the signature of the part, and the block hash, cover.
    pub fn to_sign_bytes(&self) -> (r: Vec<u8>)
        ensures
            r@ == sign_bytes(self@),
    {
        let mut buf: Vec<u8> = Vec::new();
        match self {
            ProposalPart::Init(i) => {
                buf.push(0);
                push_u64_le(&mut buf, i.block_number.0);
                push_u64_le(&mut buf, i.fork_id);
                push_round(&mut buf, i.proposal_round);
                let b = i.proposer.0.bytes;
                push_bytes(&mut buf, vstd::array::array_as_slice(&b));
                assert(buf@ =~= sign_bytes(self@));
            },
            ProposalPart::Transactions(txs) => {
                buf.push(1);
                push_tx_chunks(&mut buf, txs);
                assert(buf@ =~= sign_bytes(self@));
            },
            ProposalPart::BlockProof(p) => {
                buf.push(2);
                push_vec_chunks(&mut buf, &p.bytes);
                assert(buf@ =~= sign_bytes(self@));
            },
            ProposalPart::Fin(f) => {
                buf.push(3);
                match f.valid_round {
                    None => buf.push(0),
                    Some(r) => {
                        buf.push(1);
                        push_round(&mut buf, r);
                    },
                }
                assert(buf@ =~= sign_bytes(self@));
            },
        }
        buf
    }
}

/// The hash of a block made of the given parts: the Keccak-256 digest of their signing
/// bytes, one after the other.
pub fn hash_parts(parts: &Vec<ProposalPart>) -> (r: BlockHash)
    ensures
        r.0@ == keccak256_digest(concat_sign_bytes(parts_view(parts@))),
{
    let mut data: Vec<u8> = Vec::new();
    let mut i: usize = 0;
    while i < parts.len()
        invariant
            i <= parts@.len(),
            data@ == concat_sign_bytes(parts_view(parts@.take(i as int))),
        decreases parts@.len() - i,
    {
        let b = parts[i].to_sign_bytes();
        push_bytes(&mut data, b.as_slice());
        i += 1;
        proof {
            let t = parts_view(parts@.take(i as int));
            assert(t.drop_last() =~= parts_view(parts@.take((i - 1) as int)));
        }
    }
    assert(parts@.take(parts@.len() as int) =~= parts@);
    BlockHash::new(keccak256(data.as_slice()))
}

/// The total size in bytes of a list of transactions.
pub open spec fn txs_size(s: Seq<Seq<u8>>) -> int
    decreases s.len(),
{
    if s.len() == 0 {
        0
    } else {
        txs_size(s.drop_last()) + s[s.len() - 1].len()
    }
}

/// `k` transactions are taken from the front of `txs` by a block of at most `max` bytes:
/// they fit, and either all were taken or the next one would not fit.
pub open spec fn fills_block(txs: Seq<Seq<u8>>, max: int, k: int) -> bool {
    &&& 0 <= k <= txs.len()
    &&& txs_size(txs.take(k)) <= max
    &&& k < txs.len() ==> txs_size(txs.take(k + 1)) > max
}

/// The parts of a proposal of `txs` at `height` and `round` by `proposer`.
pub open spec fn proposal_parts_of(
    height: AbciHeight,
    round: Round,
    proposer: Address,
    txs: Seq<Seq<u8>>,
) -> Seq<PartView> {
    seq![
        PartView::Init(
            ProposalInit { block_number: height, fork_id: 1, proposal_round: round, proposer },
        ),
        PartView::Transactions(txs),
        PartView::BlockProof(seq![Seq::<u8>::empty()]),
        PartView::Fin(ProposalFin { valid_round: None }),
    ]
}

/// Builds the parts of a proposal for `height` and `round`: an `Init` part naming the
/// proposer, one part holding as many transactions from the front of `app_txes` as fit
/// into `max_block_size` bytes, a block proof, and a `Fin` part. Returns them with the
/// block hash, the digest of their signing bytes.
pub fn build_proposal_parts(
    height: AbciHeight,
    round: Round,
    proposer: Address,
    max_block_size: u64,
    app_txes: Vec<Transaction>,
) -> (r: (BlockHash, Vec<ProposalPart>))
    ensures
        ({
            let (hash, parts) = r;
            let txs = txs_view(app_txes@);
            exists|k: int|
                fills_block(txs, max_block_size as int, k) && parts_view(parts@) == proposal_parts_of(
                    height,
                    round,
                    proposer,
                    txs.take(k),
                )
        }),
        r.0.0@ == keccak256_digest(concat_sign_bytes(parts_view(r.1@))),
{
    let ghost txs = txs_view(app_txes@);
    let mut parts: Vec<ProposalPart> = Vec::new();
    parts.push(
        ProposalPart::Init(
            ProposalInit { block_number: height, fork_id: 1, proposal_round: round, proposer },
        ),
    );
    let mut block_size: u64 = 0;
    let mut selected: Vec<Transaction> = Vec::new();
    let mut i: usize = 0;
    let mut full = false;
    while i < app_txes.len() && !full
        invariant
            i <= app_txes@.len(),
            txs == txs_view(app_txes@),
            block_size == txs_size(txs.take(i as int)),
            block_size <= max_block_size,
            txs_view(selected@) == txs.take(i as int),
            full ==> i < app_txes@.len() && txs_size(txs.take(i as int + 1)) > max_block_size,
        decreases app_txes@.len() - i + (if full { 0int } else { 1 }),
    {
        let size = app_txes[i].size_bytes();
        proof {
            assert(txs.take(i as int + 1).drop_last() =~= txs.take(i as int));
            assert(txs.take(i as int + 1)[i as int] == app_txes@[i as int]@);
        }
        if size as u64 > max_block_size - block_size {
            full = true;
        } else {
            block_size = block_size + size as u64;
            selected.push(app_txes[i].duplicate());
            i += 1;
            assert(txs_view(selected@) =~= txs.take(i as int));
        }
    }
    assert(fills_block(txs, max_block_size as int, i as int));
    parts.push(ProposalPart::Transactions(selected));
    let mut proof_bytes: Vec<u8> = Vec::with_capacity(32);
    fill_random(&mut proof_bytes);
    assert(proof_bytes@ =~= Seq::<u8>::empty());
    let mut proofs: Vec<Vec<u8>> = Vec::new();
    proofs.push(proof_bytes);
    parts.push(ProposalPart::BlockProof(BlockProof { bytes: proofs }));
    parts.push(ProposalPart::Fin(ProposalFin { valid_round: None }));
    proof {
        assert(proofs@[0]@ == Seq::<u8>::empty());
        assert(vecs_view(proofs@) =~= seq![Seq::<u8>::empty()]);
        assert(parts_view(parts@) =~= proposal_parts_of(height, round, proposer, txs.take(i as int)));
    }
    let hash = hash_parts(&parts);
    (hash, parts)
}

/// Whether a proposed value is valid.
#[derive(Copy, Clone, Debug, PartialEq, Eq, Structural)]
pub enum Validity {
    Valid,
    Invalid,
}

/// A value proposed by a validator.
#[derive(Copy, Clone, Debug)]
pub struct ProposedValue {
    pub height: AbciHeight,
    pub round: Round,
    pub validator_address: Address,
    pub value: BlockHash,
    pub validity: Validity,
}

/// The contents of the first `Init` part of `parts`, if there is one.
pub open spec fn first_init(parts: Seq<PartView>) -> Option<ProposalInit>
    decreases parts.len(),
{
    if parts.len() == 0 {
        None
    } else {
        match first_init(parts.drop_last()) {
            Some(i) => Some(i),
            None => match parts[parts.len() - 1] {
                PartView::Init(i) => Some(i),
                _ => None,
            },
        }
    }
}

/// Some part of `parts` is a `Fin` part.
pub open spec fn has_fin(parts: Seq<PartView>) -> bool {
    exists|i: int| 0 <= i < parts.len() && parts[i] is Fin
}

/// The transactions that a part carries: those of a `Transactions` part, else none.
pub open spec fn part_txs(p: PartView) -> Seq<Seq<u8>> {
    match p {
        PartView::Transactions(t) => t,
        _ => Seq::empty(),
    }
}

/// The transactions that a list of parts carries, in order.
pub open spec fn all_txs(parts: Seq<PartView>) -> Seq<Seq<u8>>
    decreases parts.len(),
{
    if parts.len() == 0 {
        Seq::empty()
    } else {
        all_txs(parts.drop_last()) + part_txs(parts[parts.len() - 1])
    }
}

/// The contents of the first `Init` part of `parts`, if any.
fn find_init(parts: &Vec<ProposalPart>) -> (r: Option<ProposalInit>)
    ensures
        r == first_init(parts_view(parts@)),
{
    let mut i: usize = 0;
    while i < parts.len()
        invariant
            i <= parts@.len(),
            first_init(parts_view(parts@.take(i as int))) is None,
        decreases parts@.len() - i,
    {
        proof {
            assert(parts_view(parts@.take(i as int + 1)).drop_last() =~= parts_view(parts@.take(i as int)));
        }
        match parts[i].as_init() {
            Some(init) => {
                proof {
                    lemma_first_init_prefix(parts_view(parts@), i as int + 1);
                    assert(parts_view(parts@).take(i as int + 1) =~= parts_view(parts@.take(i as int + 1)));
                }
                return Some(*init);
            },
            None => {},
        }
        i += 1;
    }
    assert(parts@.take(parts@.len() as int) =~= parts@);
    None
}

/// Once a prefix of `parts` holds an `Init` part, the first one of `parts` is that of the prefix.
pub proof fn lemma_first_init_prefix(parts: Seq<PartView>, k: int)
    requires
        0 <= k <= parts.len(),
        first_init(parts.take(k)) is Some,
    ensures
        first_init(parts) == first_init(parts.take(k)),
    decreases parts.len() - k,
{
    if k < parts.len() {
        assert(parts.take(k + 1).drop_last() =~= parts.take(k));
        lemma_first_init_prefix(parts, k + 1);
    } else {
        assert(parts.take(k) =~= parts);
    }
}

/// Whether some part of `parts` is a `Fin` part.
pub(crate) fn find_fin(parts: &Vec<ProposalPart>) -> (r: bool)
    ensures
        r == has_fin(parts_view(parts@)),
{
    let mut i: usize = 0;
    while i < parts.len()
        invariant
            i <= parts@.len(),
            forall|j: int| 0 <= j < i ==> !(parts_view(parts@)[j] is Fin),
        decreases parts@.len() - i,
    {
        match parts[i].as_fin() {
            Some(_) => {
                assert(parts_view(parts@)[i as int] is Fin);
                return true;
            },
            None => {},
        }
        i += 1;
    }
    false
}

/// The block hash, proposer and validity of the proposal made of `parts`; `None` when
/// there are no parts, or no `Init` part, or no `Fin` part. The block hash is the digest
/// of the signing bytes of all parts, the proposer the one the first `Init` part names.
pub fn build_proposal_content_from_parts(
    parts: &Vec<ProposalPart>,
    height: AbciHeight,
    round: Round,
) -> (r: Option<(BlockHash, Address, Validity)>)
    ensures
        ({
            let pv = parts_view(parts@);
            &&& r is Some <==> (pv.len() > 0 && first_init(pv) is Some && has_fin(pv))
            &&& r matches Some((h, a, v)) ==> {
                &&& h.0@ == keccak256_digest(concat_sign_bytes(pv))
                &&& a == first_init(pv)->0.proposer
                &&& v == Validity::Valid
            }
        }),
{
    if parts.len() == 0 {
        return None;
    }
    let init = match find_init(parts) {
        Some(init) => init,
        None => return None,
    };
    if !find_fin(parts) {
        return None;
    }
    let block_hash = hash_parts(parts);
    Some((block_hash, init.proposer, Validity::Valid))
}

/// The value proposed by `parts` at `height` and `round`, when they make a whole proposal.
pub fn build_value_from_parts(parts: &Vec<ProposalPart>, height: AbciHeight, round: Round) -> (r:
    Option<ProposedValue>)
    ensures
        ({
            let pv = parts_view(parts@);
            &&& r is Some <==> (pv.len() > 0 && first_init(pv) is Some && has_fin(pv))
            &&& r matches Some(v) ==> {
                &&& v.value.0@ == keccak256_digest(concat_sign_bytes(pv))
                &&& v.validator_address == first_init(pv)->0.proposer
                &&& v.validity == Validity::Valid
                &&& v.height == height
                &&& v.round == round
            }
        }),
{
    match build_proposal_content_from_parts(parts, height, round) {
        Some((value, validator_address, validity)) => Some(
            ProposedValue { validator_address, height, round, value, validity },
        ),
        None => None,
    }
}

/// The byte contents of a list of buffers.
pub open spec fn bytes_view(v: Seq<bytes::Bytes>) -> Seq<Seq<u8>> {
    v.map_values(|b: bytes::Bytes| bytes_contents(b))
}

/// The bytes of every transaction carried by `all_parts`, in order.
pub fn get_tx_bytes(all_parts: &Vec<ProposalPart>) -> (r: Vec<bytes::Bytes>)
    ensures
        bytes_view(r@) == all_txs(parts_view(all_parts@)),
{
    let mut out: Vec<bytes::Bytes> = Vec::new();
    let mut i: usize = 0;
    while i < all_parts.len()
        invariant
            i <= all_parts@.len(),
            bytes_view(out@) == all_txs(parts_view(all_parts@.take(i as int))),
        decreases all_parts@.len() - i,
    {
        let ghost before = bytes_view(out@);
        proof {
            assert(parts_view(all_parts@.take(i as int + 1)).drop_last() =~= parts_view(all_parts@.take(i as int)));
        }
        match all_parts[i].as_transactions() {
            Some(txs) => {
                let mut j: usize = 0;
                while j < txs.len()
                    invariant
                        j <= txs@.len(),
                        bytes_view(out@) == before + txs_view(txs@).take(j as int),
                    decreases txs@.len() - j,
                {
                    let b = bytes_from_vec(txs[j].to_bytes());
                    let ghost prev = out@;
                    out.push(b);
                    j += 1;
                    proof {
                        assert(txs_view(txs@)[j - 1] == txs@[j - 1]@);
                        assert(bytes_view(out@) =~= bytes_view(prev).push(bytes_contents(b)));
                        assert(txs_view(txs@).take(j as int) =~= txs_view(txs@).take(j - 1).push(
                            txs_view(txs@)[j - 1],
                        ));
                        assert(bytes_view(out@) =~= before + txs_view(txs@).take(j as int));
                    }
                }
                assert(txs_view(txs@).take(txs@.len() as int) =~= txs_view(txs@));
            },
            None => {
                assert(bytes_view(out@) =~= before + Seq::<Seq<u8>>::empty());
            },
        }
        i += 1;
    }
    assert(all_parts@.take(all_parts@.len() as int) =~= all_parts@);
    out
}

} // verus!
