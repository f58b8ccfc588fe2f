//! Little-endian integer encodings and byte appends.
use vstd::prelude::*;

verus! {

/// The `n` low bytes of `v`, least significant first.
pub open spec fn le_bytes(v: nat, n: nat) -> Seq<u8>
    decreases n,
{
    if n == 0 {
        Seq::empty()
    } else {
        seq![(v % 256) as u8] + le_bytes(v / 256, (n - 1) as nat)
    }
}

/// 256 to the power `n`.
pub open spec fn pow256(n: nat) -> nat
    decreases n,
{
    if n == 0 {
        1
    } else {
        256 * pow256((n - 1) as nat)
    }
}

/// The number that little-endian bytes stand for.
pub open spec fn le_value(s: Seq<u8>) -> int
    decreases s.len(),
{
    if s.len() == 0 {
        0
    } else {
        s[0] + 256 * le_value(s.drop_first())
    }
}

/// The `n` low bytes of a number below 256 to the power `n` read back as that number.
pub proof fn lemma_le_bytes_value(v: nat, n: nat)
    requires
        v < pow256(n),
    ensures
        le_bytes(v, n).len() == n,
        le_value(le_bytes(v, n)) == v,
    decreases n,
{
    if n > 0 {
        let w = v / 256;
        assert(w < pow256((n - 1) as nat));
        lemma_le_bytes_value(w, (n - 1) as nat);
        let b = le_bytes(v, n);
        assert(b[0] == (v % 256) as u8);
        assert(b.drop_first() =~= le_bytes(w, (n - 1) as nat));
    }
}

/// Two numbers below 256 to the power `n` with the same `n` low bytes are equal.
pub proof fn lemma_le_bytes_injective(v: nat, w: nat, n: nat)
    requires
        v < pow256(n),
        w < pow256(n),
        le_bytes(v, n) == le_bytes(w, n),
    ensures
        v == w,
{
    lemma_le_bytes_value(v, n);
    lemma_le_bytes_value(w, n);
}

/// The eight little-endian bytes of `v`.
pub open spec fn le_u64(v: u64) -> Seq<u8> {
    le_bytes(v as nat, 8)
}

/// Appends the `n` low bytes of `v`, least significant first, to `buf`.
pub fn push_le(buf: &mut Vec<u8>, v: u64, n: u64)
    ensures
        final(buf)@ == old(buf)@ + le_bytes(v as nat, n as nat),
{
    let mut x: u64 = v;
    let mut i: u64 = 0;
    while i < n
        invariant
            i <= n,
            buf@ + le_bytes(x as nat, (n - i) as nat) == old(buf)@ + le_bytes(v as nat, n as nat),
        decreases n - i,
    {
        let ghost before = buf@;
        buf.push((x % 256) as u8);
        proof {
            assert(le_bytes(x as nat, (n - i) as nat) == seq![(x % 256) as u8] + le_bytes(
                (x / 256) as nat,
                (n - i - 1) as nat,
            ));
            assert(buf@ + le_bytes((x / 256) as nat, (n - i - 1) as nat) =~= before + le_bytes(
                x as nat,
                (n - i) as nat,
            ));
        }
        x = x / 256;
        i += 1;
    }
    assert(buf@ + le_bytes(x as nat, 0) =~= buf@);
}

/// Appends the eight little-endian bytes of `v` to `buf`.
pub fn push_u64_le(buf: &mut Vec<u8>, v: u64)
    ensures
        final(buf)@ == old(buf)@ + le_u64(v),
{
    push_le(buf, v, 8);
}

/// Appends the bytes of `data` to `buf`.
pub fn push_bytes(buf: &mut Vec<u8>, data: &[u8])
    ensures
        final(buf)@ == old(buf)@ + data@,
{
    let ghost start = buf@;
    let mut i: usize = 0;
    while i < data.len()
        invariant
            i <= data@.len(),
            buf@ == start + data@.take(i as int),
        decreases data@.len() - i,
    {
        buf.push(data[i]);
        i += 1;
        assert(data@.take(i as int) =~= data@.take((i - 1) as int).push(data@[i - 1]));
    }
    assert(data@.take(data@.len() as int) =~= data@);
}

/// A copy of `data`.
pub fn copy_bytes(data: &Vec<u8>) -> (r: Vec<u8>)
    ensures
        r@ == data@,
{
    let mut r: Vec<u8> = Vec::new();
    push_bytes(&mut r, data.as_slice());
    r
}

} // verus!
