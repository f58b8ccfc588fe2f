use malachite::abci_codec::{encode, Decode, DecodeState, Encode};
use malachite::entry::{handle_request, Entry, Reply};
use malachite::kv_mempool::State;
use malachite::part_store::{plan_insert, select_for_pruning, IndexEntry, PartKeys, index_key, from_index_key};
use malachite::proposal::Transaction;
use malachite::height::StarknetHeight;
use malachite::round::Round;

#[test]
fn encode_prefixes_varint_length() {
    let mut dst = vec![9u8];
    encode(&[1, 2, 3], &mut dst);
    assert_eq!(dst, vec![9, 3, 1, 2, 3]);

    let body = vec![7u8; 300];
    let mut dst = Vec::new();
    Encode::new().encode(&body, &mut dst);
    assert_eq!(&dst[..2], &[0xac, 0x02]);
    assert_eq!(dst.len(), 302);
}

#[test]
fn decode_round_trip_with_tail() {
    let mut buf = Vec::new();
    encode(&[10, 20, 30], &mut buf);
    buf.extend_from_slice(&[99, 98]);
    let mut d = Decode::new();
    let body = d.decode(&mut buf).unwrap();
    assert_eq!(body, vec![10, 20, 30]);
    assert_eq!(buf, vec![99, 98]);
    assert_eq!(d.state, DecodeState::Body { len: 3 });
    d.body_accepted();
    assert_eq!(d.state, DecodeState::Head);
}

#[test]
fn decode_waits_for_whole_body() {
    let mut d = Decode::new();
    let mut buf = vec![4u8, 1, 2];
    assert!(d.decode(&mut buf).is_none());
    assert_eq!(d.state, DecodeState::Body { len: 4 });
    assert_eq!(buf, vec![1, 2]);
    buf.extend_from_slice(&[3, 4, 5]);
    assert_eq!(d.decode(&mut buf).unwrap(), vec![1, 2, 3, 4]);
    assert_eq!(buf, vec![5]);
}

#[test]
fn decode_waits_for_whole_prefix() {
    let mut d = Decode::new();
    let mut buf = vec![0x80u8];
    assert!(d.decode(&mut buf).is_none());
    assert_eq!(d.state, DecodeState::Head);
    assert_eq!(buf, vec![0x80]);
    let mut empty: Vec<u8> = Vec::new();
    assert!(d.decode(&mut empty).is_none());
}

#[test]
fn entry_parsing() {
    let e = Entry::from_str("alpha beta").unwrap();
    assert_eq!(e.key, "alpha");
    assert_eq!(e.value, "beta");
    assert!(Entry::from_str("nospace").is_err());
    assert!(Entry::from_str("a b c").is_err());
    let e = Entry::from_str(" v").unwrap();
    assert_eq!(e.key, "");
    assert_eq!(e.value, "v");
    let e = Entry::new("k", "v");
    assert_eq!(e.key, "k");
    assert_eq!(e.value, "v");
}

#[test]
fn request_replies() {
    let (reply, tx) = handle_request(b"key value");
    assert_eq!(reply, Reply::Accepted);
    assert_eq!(tx.unwrap().0, b"key value".to_vec());
    let (reply, tx) = handle_request(&[0xff, 0xfe]);
    assert_eq!(reply, Reply::NotText);
    assert!(tx.is_none());
    let (reply, tx) = handle_request(b"novalue");
    assert_eq!(reply, Reply::NotAnEntry);
    assert!(tx.is_none());
}

#[test]
fn mempool_input_respects_limit() {
    let mut s = State::new();
    assert!(s.input(&Transaction::new(vec![1]), 2));
    assert!(s.input(&Transaction::new(vec![2]), 2));
    assert!(!s.input(&Transaction::new(vec![3]), 2));
    assert_eq!(s.len(), 2);
    // the same bytes hash to the same key
    s.add_tx(&Transaction::new(vec![1]));
    assert_eq!(s.len(), 2);
}

#[test]
fn mempool_reap_takes_ten_smallest_keys_in_order() {
    let mut s = State::new();
    for k in (0u64..15).rev() {
        s.add_tx_with_key(k * 3, &Transaction::new(vec![k as u8]));
    }
    let out = s.reap();
    assert_eq!(out.len(), 10);
    for (i, t) in out.iter().enumerate() {
        assert_eq!(t.0, vec![i as u8]);
    }
    assert_eq!(s.len(), 5);
    let rest = s.reap();
    assert_eq!(rest.len(), 5);
    assert_eq!(rest[0].0, vec![10]);
    assert_eq!(s.len(), 0);
    assert!(s.reap().is_empty());
}

#[test]
fn mempool_remove() {
    let mut s = State::new();
    s.add_tx_with_key(5, &Transaction::new(vec![1]));
    s.remove_tx(&6);
    assert_eq!(s.len(), 1);
    s.remove_tx(&5);
    assert_eq!(s.len(), 0);
}

#[test]
fn part_keys_next_key() {
    let mut keys = PartKeys::new();
    assert_eq!(keys.next_key(), 1);
    keys.push(1);
    keys.push(7);
    keys.push(3);
    assert_eq!(keys.next_key(), 8);
    assert_eq!(keys.iter(), &vec![1, 7, 3]);
}

#[test]
fn part_keys_bincode_bytes() {
    let keys = PartKeys(vec![1, 2]);
    let bytes = keys.to_bytes();
    let mut expected = vec![2u8, 0, 0, 0, 0, 0, 0, 0];
    expected.extend_from_slice(&[1, 0, 0, 0, 0, 0, 0, 0]);
    expected.extend_from_slice(&[2, 0, 0, 0, 0, 0, 0, 0]);
    assert_eq!(bytes, expected);
    let back = PartKeys::from_bytes(&bytes).unwrap();
    assert_eq!(back.0, vec![1, 2]);
    assert!(PartKeys::from_bytes(&[1, 2, 3]).is_none());
}

#[test]
fn plan_insert_appends_next_key() {
    let (keys, k) = plan_insert(None);
    assert_eq!(k, 1);
    assert_eq!(keys.0, vec![1]);
    let (keys, k) = plan_insert(Some(PartKeys(vec![4, 2])));
    assert_eq!(k, 5);
    assert_eq!(keys.0, vec![4, 2, 5]);
}

#[test]
fn index_key_round_trip() {
    let h = StarknetHeight::new(3, 9);
    let key = index_key(h, Round::new(2));
    let (h2, r2) = from_index_key(key);
    assert_eq!(h2.fork_id, 3);
    assert_eq!(h2.block_number, 9);
    assert_eq!(r2, Round::Defined(2));
    let (_, r3) = from_index_key(index_key(h, Round::Nil));
    assert_eq!(r3, Round::Nil);
}

#[test]
fn pruning_selects_entries_below_retain_height() {
    let entries = vec![
        IndexEntry { height: StarknetHeight::new(0, 1), round: Round::new(0), keys: PartKeys(vec![1, 2]) },
        IndexEntry { height: StarknetHeight::new(0, 5), round: Round::new(0), keys: PartKeys(vec![3]) },
        IndexEntry { height: StarknetHeight::new(0, 2), round: Round::new(1), keys: PartKeys(vec![4]) },
    ];
    let (keys, index) = select_for_pruning(&entries, StarknetHeight::new(0, 3));
    assert_eq!(keys.len(), 2);
    assert_eq!(keys[0].0, vec![1, 2]);
    assert_eq!(keys[1].0, vec![4]);
    assert_eq!(index.len(), 2);
    assert_eq!(index[1].0.block_number, 2);
}

#[test]
fn decode_keeps_partial_body_after_prefix() {
    let mut d = Decode::new();
    let mut buf = vec![5u8, 8];
    assert!(d.decode(&mut buf).is_none());
    assert_eq!(buf, vec![8]);
    assert_eq!(d.state, DecodeState::Body { len: 5 });
}

#[test]
fn decode_rejects_overlong_prefix() {
    let mut d = Decode::new();
    let mut buf = vec![0xffu8; 9];
    buf.push(0x02);
    buf.push(7);
    let before = buf.clone();
    assert!(d.decode(&mut buf).is_none());
    assert_eq!(buf, before);
    assert_eq!(d.state, DecodeState::Head);
    // the largest value still fits: nine continuation bytes and a final 1
    let mut buf = vec![0xffu8; 9];
    buf.push(0x01);
    let mut d = Decode::new();
    assert!(d.decode(&mut buf).is_none());
    assert_eq!(d.state, DecodeState::Body { len: u64::MAX });
    assert!(buf.is_empty());
}
