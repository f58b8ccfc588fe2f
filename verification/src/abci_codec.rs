//! Framing of the ABCI socket protocol: every message travels as its
//! Protobuf encoding prefixed with the body length as an unsigned LEB128 varint.
use vstd::prelude::*;

verus! {

/// The LEB128 encoding of `v`: seven bits per byte, least significant group
/// first, the high bit set on every byte but the last.
pub open spec fn varint_bytes(v: u64) -> Seq<u8>
    decreases v,
{
    if v < 128 {
        seq![v as u8]
    } else {
        seq![((v % 128) + 128) as u8] + varint_bytes((v / 128) as u64)
    }
}

/// The largest value, plus one, that the varint bytes from the `k`-th on can still add
/// to a `u64`: 2 to the power 64 - 7k.
pub open spec fn varint_bound(k: nat) -> int {
    if k == 0 {
        0x1_0000_0000_0000_0000
    } else if k == 1 {
        0x200_0000_0000_0000
    } else if k == 2 {
        0x4_0000_0000_0000
    } else if k == 3 {
        0x800_0000_0000
    } else if k == 4 {
        0x10_0000_0000
    } else if k == 5 {
        0x2000_0000
    } else if k == 6 {
        0x40_0000
    } else if k == 7 {
        0x8000
    } else if k == 8 {
        0x100
    } else {
        2
    }
}

/// LEB128 reading of `input` as its `k`-th byte on: seven bits per byte, least significant
/// group first, until a byte below 128. The tenth byte (`k` = 9) must be 0 or 1, so the
/// value fits in 64 bits. The value and the bytes after it, or `None` when the input
/// ends first or the tenth byte is larger.
pub open spec fn leb128_read(input: Seq<u8>, k: nat) -> Option<(int, Seq<u8>)>
    decreases input.len(),
{
    if input.len() == 0 {
        None
    } else if k >= 9 {
        if input[0] < 2 {
            Some((input[0] as int, input.drop_first()))
        } else {
            None
        }
    } else if input[0] < 128 {
        Some((input[0] as int, input.drop_first()))
    } else {
        match leb128_read(input.drop_first(), k + 1) {
            Some((v, rest)) => Some((input[0] - 128 + 128 * v, rest)),
            None => None,
        }
    }
}

/// What `prost::encoding::decode_varint` reads from the front of `input`:
/// the value and the bytes that follow it, or `None` where it reports an error.
pub open spec fn prost_varint(input: Seq<u8>) -> Option<(u64, Seq<u8>)> {
    match leb128_read(input, 0) {
        Some((v, rest)) => Some((v as u64, rest)),
        None => None,
    }
}

/// A value read from the `k`-th byte on is below `varint_bound(k)`, and the bytes left are
/// a proper suffix of the input, shorter by at most `10 - k`.
proof fn lemma_leb128_read_shape(input: Seq<u8>, k: nat)
    requires
        k <= 9,
    ensures
        leb128_read(input, k) matches Some((v, rest)) ==> {
            &&& 0 <= v < varint_bound(k)
            &&& rest.len() < input.len()
            &&& input.len() <= rest.len() + 10 - k
            &&& rest == input.subrange(input.len() - rest.len(), input.len() as int)
        },
    decreases input.len(),
{
    if input.len() > 0 && k < 9 && input[0] >= 128 {
        let d = input.drop_first();
        lemma_leb128_read_shape(d, k + 1);
        if let Some((v, rest)) = leb128_read(d, k + 1) {
            assert(rest =~= input.subrange(input.len() - rest.len(), input.len() as int));
        }
    } else if input.len() > 0 {
        assert(input.drop_first() =~= input.subrange(1, input.len() as int));
    }
}

/// Input whose bytes all carry the continuation bit, the empty input among them, reads
/// as nothing.
proof fn lemma_leb128_read_unterminated(input: Seq<u8>, k: nat)
    requires
        forall|i: int| 0 <= i < input.len() ==> input[i] >= 128,
    ensures
        leb128_read(input, k) is None,
    decreases input.len(),
{
    if input.len() > 0 && k < 9 {
        let d = input.drop_first();
        assert forall|i: int| 0 <= i < d.len() implies d[i] >= 128 by {
            assert(d[i] == input[i + 1]);
        }
        lemma_leb128_read_unterminated(d, k + 1);
    }
}

/// The LEB128 encoding of a value below `varint_bound(k)`, read from the `k`-th byte on,
/// gives back the value and what follows the encoding.
proof fn lemma_leb128_read_canonical(v: u64, tail: Seq<u8>, k: nat)
    requires
        k <= 9,
        v < varint_bound(k),
    ensures
        leb128_read(varint_bytes(v) + tail, k) == Some((v as int, tail)),
    decreases v,
{
    let input = varint_bytes(v) + tail;
    if v < 128 {
        assert(input[0] == v as u8);
        assert(input.drop_first() =~= tail);
    } else {
        assert(k < 9);
        let w = (v / 128) as u64;
        lemma_leb128_read_canonical(w, tail, k + 1);
        assert(input[0] == ((v % 128) + 128) as u8);
        assert(input.drop_first() =~= varint_bytes(w) + tail);
    }
}

/// What `prost_varint` gives: the canonical encoding of a value followed by anything reads
/// as the value and the rest; unterminated input reads as nothing; a read consumes at least
/// one and at most ten bytes from the front.
pub proof fn lemma_prost_varint(input: Seq<u8>)
    ensures
        reads_canonical_varint(input, prost_varint(input)),
        (forall|i: int| 0 <= i < input.len() ==> input[i] >= 128) ==> prost_varint(input) is None,
        prost_varint(input) matches Some((w, rest)) ==> {
            &&& rest.len() < input.len()
            &&& input.len() <= rest.len() + 10
            &&& rest == input.subrange(input.len() - rest.len(), input.len() as int)
        },
{
    lemma_leb128_read_shape(input, 0);
    if forall|i: int| 0 <= i < input.len() ==> input[i] >= 128 {
        lemma_leb128_read_unterminated(input, 0);
    }
    assert forall|v: u64, tail: Seq<u8>| #![trigger varint_bytes(v), tail.len()] input == varint_bytes(v) + tail
        implies prost_varint(input) == Some((v, tail)) by {
        lemma_leb128_read_canonical(v, tail, 0);
    }
}

/// The value read and the bytes left after it, as plain values.
pub open spec fn read_view<'a>(r: Option<(u64, &'a [u8])>) -> Option<(u64, Seq<u8>)> {
    match r {
        Some((v, rest)) => Some((v, rest@)),
        None => None,
    }
}

/// `read` is what a reader of the canonical encoding of a value must give on `input`:
/// the value, and the bytes that follow its encoding.
pub open spec fn reads_canonical_varint(input: Seq<u8>, read: Option<(u64, Seq<u8>)>) -> bool {
    forall|v: u64, tail: Seq<u8>|
        #![trigger varint_bytes(v), tail.len()]
        input == varint_bytes(v) + tail ==> read == Some((v, tail))
}

/// Appends the LEB128 encoding of `value` to `buf`.
///
/// Calls `prost::encoding::encode_varint`, which writes the seven-bit groups of
/// `value` least significant first, with the continuation bit on all but the last.
#[verifier::external_body]
fn encode_varint(value: u64, buf: &mut Vec<u8>)
    ensures
        final(buf)@ == old(buf)@ + varint_bytes(value),
{
    prost::encoding::encode_varint(value, buf)
}

/// Reads a LEB128 varint from the front of `src`, giving the value and the bytes after it.
///
/// Calls `prost::encoding::decode_varint` on the slice: a LEB128 read of at most ten
/// bytes whose tenth byte must be 0 or 1, as `prost_varint` states.
#[verifier::external_body]
fn decode_varint<'a>(src: &'a [u8]) -> (r: Option<(u64, &'a [u8])>)
    ensures
        read_view(r) == prost_varint(src@),
{
    let mut rest = src;
    match prost::encoding::decode_varint(&mut rest) {
        Ok(v) => Some((v, rest)),
        Err(_) => None,
    }
}

/// The framed form of a message body: its length as a varint, then the body.
pub open spec fn frame_of(body: Seq<u8>) -> Seq<u8> {
    varint_bytes(body.len() as u64) + body
}

/// Where the decoder stands in the byte stream.
#[derive(Copy, Clone, Debug, PartialEq, Eq)]
pub enum DecodeState {
    /// Waiting for the length prefix of the next message.
    Head,
    /// The length prefix has been read; waiting for `len` bytes of body.
    Body { len: u64 },
}

/// Incremental decoder for length-prefixed frames.
pub struct Decode {
    pub state: DecodeState,
}

/// One step of the decoder once the body length `len` is known:
/// wait while fewer than `len` bytes are buffered, else cut the body off the front.
pub open spec fn body_step(len: u64, buf: Seq<u8>) -> (DecodeState, Seq<u8>, Option<Seq<u8>>) {
    if buf.len() < len {
        (DecodeState::Body { len }, buf, None)
    } else {
        (DecodeState::Body { len }, buf.skip(len as int), Some(buf.take(len as int)))
    }
}

/// One call of `Decode::decode` from `state` on the buffered bytes `buf`:
/// the new state, the bytes left buffered, and the frame body produced, if any.
pub open spec fn decode_step(state: DecodeState, buf: Seq<u8>) -> (DecodeState, Seq<u8>, Option<Seq<u8>>) {
    match state {
        DecodeState::Head => match prost_varint(buf) {
            None => (DecodeState::Head, buf, None),
            Some((len, rest)) => body_step(len, rest),
        },
        DecodeState::Body { len } => body_step(len, buf),
    }
}

impl Decode {
    /// A decoder waiting for the first length prefix.
    pub fn new() -> (r: Self)
        ensures
            r.state == DecodeState::Head,
    {
        Decode { state: DecodeState::Head }
    }

    /// Consumes what it can from `src`. Once a whole body is buffered it is cut off the
    /// front of `src` and returned; the decoder stays in its `Body` state until the caller
    /// reports with `body_accepted` that the body decoded as a message.
    pub fn decode(&mut self, src: &mut Vec<u8>) -> (r: Option<Vec<u8>>)
        ensures
            ({
                let (st, rest, out) = decode_step(old(self).state, old(src)@);
                &&& final(self).state == st
                &&& final(src)@ == rest
                &&& (match r {
                    Some(b) => out == Some(b@),
                    None => out is None,
                })
            }),
            // a whole frame at the front of the buffer comes out as its body
            old(self).state == DecodeState::Head ==> forall|body: Seq<u8>, tail: Seq<u8>|
                #![trigger frame_of(body), tail.len()]
                old(src)@ == frame_of(body) + tail && body.len() <= u64::MAX ==> {
                    &&& r matches Some(b) && b@ == body
                    &&& final(src)@ == tail
                },
            // an unterminated prefix, the empty buffer among them, is left as it is
            old(self).state == DecodeState::Head && (forall|i: int| 0 <= i < old(src)@.len() ==> old(src)@[i] >= 128)
                ==> r is None && final(self).state == DecodeState::Head && final(src)@ == old(src)@,
            // a whole prefix is consumed and remembered; the body follows once it is all there
            old(self).state == DecodeState::Head ==> forall|n: u64, tail: Seq<u8>|
                #![trigger varint_bytes(n), tail.len()]
                old(src)@ == varint_bytes(n) + tail ==> {
                    &&& final(self).state == (DecodeState::Body { len: n })
                    &&& tail.len() < n ==> r is None && final(src)@ == tail
                    &&& tail.len() >= n ==> (r matches Some(b) && b@ == tail.take(n as int)) && final(src)@ == tail.skip(n as int)
                },
    {
        proof {
            lemma_prost_varint(src@);
        }
        match self.state {
            DecodeState::Head => {
                let head = decode_varint(src.as_slice());
                proof {
                    lemma_prost_varint(old(src)@);
                }
                match head {
                    None => {
                        proof {
                            assert forall|body: Seq<u8>, tail: Seq<u8>|
                                old(src)@ == frame_of(body) + tail && body.len() <= u64::MAX
                                implies false by {
                                assert(old(src)@ == varint_bytes(body.len() as u64) + (body + tail));
                                let _ = varint_bytes(body.len() as u64);
                                let _ = (body + tail).len();
                            }
                        }
                        None
                    },
                    Some((len, rest)) => {
                        let consumed = src.len() - rest.len();
                        let ghost rest_view = rest@;
                        let tail = src.split_off(consumed);
                        *src = tail;
                        assert(src@ == rest_view);
                        self.state = DecodeState::Body { len };
                        proof {
                            assert forall|body: Seq<u8>, tail: Seq<u8>|
                                old(self).state == DecodeState::Head && old(src)@ == frame_of(body) + tail
                                    && body.len() <= u64::MAX
                                implies len == body.len() && rest_view == body + tail by {
                                assert(old(src)@ == varint_bytes(body.len() as u64) + (body + tail));
                                let _ = varint_bytes(body.len() as u64);
                                let _ = (body + tail).len();
                            }
                        }
                        let r = self.take_body(src, len);
                        proof {
                            assert forall|body: Seq<u8>, tail: Seq<u8>|
                                #![trigger frame_of(body), tail.len()]
                                old(src)@ == frame_of(body) + tail && body.len() <= u64::MAX
                                implies r matches Some(b) && b@ == body && src@ == tail by {
                                assert(old(src)@ == varint_bytes(body.len() as u64) + (body + tail));
                                let _ = varint_bytes(body.len() as u64);
                                let _ = (body + tail).len();
                                assert(rest_view == body + tail);
                                assert((body + tail).take(body.len() as int) =~= body);
                                assert((body + tail).skip(body.len() as int) =~= tail);
                            }
                        }
                        r
                    },
                }
            },
            DecodeState::Body { len } => self.take_body(src, len),
        }
    }

    /// Cuts a body of `len` bytes off the front of `src` once that many are buffered.
    fn take_body(&mut self, src: &mut Vec<u8>, len: u64) -> (r: Option<Vec<u8>>)
        ensures
            ({
                let (st, rest, out) = body_step(len, old(src)@);
                &&& final(self).state == st
                &&& final(src)@ == rest
                &&& (match r {
                    Some(b) => out == Some(b@),
                    None => out is None,
                })
            }),
    {
        self.state = DecodeState::Body { len };
        if (src.len() as u64) < len {
            None
        } else {
            let mut body = src.split_off(len as usize);
            std::mem::swap(src, &mut body);
            proof {
                assert(src@ =~= old(src)@.skip(len as int));
                assert(body@ =~= old(src)@.take(len as int));
            }
            Some(body)
        }
    }

    /// The body handed out last decoded as a message: wait for the next length prefix.
    pub fn body_accepted(&mut self)
        ensures
            final(self).state == DecodeState::Head,
    {
        self.state = DecodeState::Head;
    }
}

/// Appends the frame of `body` to `dst`: its length as a varint, then the body itself.
pub fn encode(body: &[u8], dst: &mut Vec<u8>)
    ensures
        final(dst)@ == old(dst)@ + frame_of(body@),
{
    encode_varint(body.len() as u64, dst);
    let mut i: usize = 0;
    let ghost start = dst@;
    while i < body.len()
        invariant
            i <= body.len(),
            dst@ == start + body@.take(i as int),
        decreases body.len() - i,
    {
        dst.push(body[i]);
        i += 1;
        assert(body@.take(i as int) =~= body@.take((i - 1) as int).push(body@[i - 1]));
    }
    assert(body@.take(body.len() as int) =~= body@);
    assert(old(dst)@ + frame_of(body@) =~= old(dst)@ + varint_bytes(body.len() as u64) + body@);
}

impl Default for Decode {
    /// A decoder waiting for the first length prefix.
    fn default() -> (r: Self)
        ensures
            r.state == DecodeState::Head,
    {
        Decode::new()
    }
}

/// Encoder for length-prefixed frames.
pub struct Encode;

impl Encode {
    /// An encoder.
    pub fn new() -> (r: Self)
        ensures
            r == Encode,
    {
        Encode
    }

    /// Appends the frame of an encoded message to `dst`: its length as a varint, then
    /// the message bytes.
    pub fn encode(&mut self, item: &[u8], dst: &mut Vec<u8>)
        ensures
            final(dst)@ == old(dst)@ + frame_of(item@),
    {
        encode(item, dst)
    }
}

impl Default for Encode {
    /// An encoder.
    fn default() -> (r: Self)
        ensures
            r == Encode,
    {
        Encode
    }
}

} // verus!
