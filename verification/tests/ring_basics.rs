use chord_dht::hash::{hash, hash_of_digest, ring_size};
use chord_dht::retry::{after_failure, Retry, DEFAULT_ATTEMPTS, MAX_ATTEMPTS};
use chord_dht::ring::is_between;
use chord_dht::store::{to_rows, KeyRange, Row};
use chord_dht::command::{nothing, only, Command};
use chord_dht::data::{clone_records, Data, NewData};
use chord_dht::msg::{clone_optional_records, Message};
use chord_dht::node::pending::Pending;
use chord_dht::strings::names;

#[test]
fn arc_without_wrap_is_open_closed() {
    assert!(!is_between(10, 10, 20));
    assert!(is_between(10, 11, 20));
    assert!(is_between(10, 20, 20));
    assert!(!is_between(10, 21, 20));
    assert!(!is_between(10, 5, 20));
}

#[test]
fn arc_wraps_around_the_top_of_the_ring() {
    assert!(is_between(255, 0, 1));
    assert!(is_between(255, 1, 1));
    assert!(!is_between(255, 2, 1));
    assert!(!is_between(255, 255, 1));
    assert!(is_between(200, 250, 100));
    assert!(is_between(200, 100, 100));
    assert!(!is_between(200, 150, 100));
    assert!(!is_between(200, 200, 100));
}

#[test]
fn arc_from_a_point_to_itself_is_the_whole_ring() {
    assert!(is_between(5, 5, 5));
    assert!(is_between(5, 6, 5));
    assert!(is_between(5, 4, 5));
    assert!(is_between(0, 0, 0));
    assert!(is_between(u32::MAX, 0, u32::MAX));
}

#[test]
fn ring_size_is_two_to_the_m() {
    assert_eq!(ring_size(0), 1);
    assert_eq!(ring_size(1), 2);
    assert_eq!(ring_size(8), 256);
    assert_eq!(ring_size(16), 65536);
    assert_eq!(ring_size(32), 4294967296);
}

#[test]
fn hash_is_the_digest_prefix_modulo_the_ring_size() {
    assert_eq!(hash("foo", 8), 143);
    assert_eq!(hash("foo", 16), 50831);
    assert_eq!(hash("foo", 4), 15);
    assert_eq!(hash("foo", 1), 1);
    assert_eq!(hash("foo", 31), 1761592975);
    assert_eq!(hash("foo", 32), 1761592975);
    assert_eq!(hash("hello", 16), 41742);
    assert_eq!(hash("hello", 32), 1605411598);
    assert_eq!(hash("", 8), 20);
    assert_eq!(hash("", 31), 419175444);
    assert_eq!(hash("", 32), 2566659092);
    assert_eq!(hash("ring:8000", 8), 226);
}

#[test]
fn hash_in_a_ring_of_one_point_is_zero() {
    assert_eq!(hash("foo", 0), 0);
    assert_eq!(hash("anything", 0), 0);
}

#[test]
fn hash_differs_from_its_input_and_between_inputs() {
    assert_ne!(hash("node1833:3000", 8), hash("node225:3000", 8));
    assert_eq!(hash("node1833:3000", 8), 100);
    assert_eq!(hash("node225:3000", 8), 200);
    assert_eq!(hash("node1833:3000", 8), hash("node2023:3000", 8));
}

#[test]
fn digest_prefix_is_read_big_endian() {
    let mut digest = [0u8; 32];
    digest[0] = 0x2c;
    digest[1] = 0x26;
    digest[2] = 0xb4;
    digest[3] = 0x6b;
    digest[4] = 0x68;
    digest[5] = 0xff;
    digest[6] = 0xc6;
    digest[7] = 0x8f;
    digest[8] = 0xff;
    assert_eq!(hash_of_digest(&digest, 8), 0x8f);
    assert_eq!(hash_of_digest(&digest, 16), 0xc68f);
    assert_eq!(hash_of_digest(&digest, 32), 0x68ffc68f);
    assert_eq!(hash_of_digest(&digest, 31), 0x68ffc68f);
    assert_eq!(hash_of_digest(&digest, 0), 0);
    let ones = [0xffu8; 32];
    assert_eq!(hash_of_digest(&ones, 32), u32::MAX);
    assert_eq!(hash_of_digest(&ones, 5), 31);
}

#[test]
fn key_range_between_bounds() {
    assert_eq!(KeyRange::of(Some(10), Some(20)), KeyRange::Span { start: 10, end: 20 });
    assert_eq!(KeyRange::of(Some(20), Some(20)), KeyRange::Span { start: 20, end: 20 });
    assert_eq!(KeyRange::of(Some(20), Some(10)), KeyRange::Wrap { start: 20, end: 10 });
    assert_eq!(KeyRange::of(None, Some(10)), KeyRange::All);
    assert_eq!(KeyRange::of(Some(10), None), KeyRange::All);
    assert_eq!(KeyRange::of(None, None), KeyRange::All);
}

#[test]
fn key_range_selects_its_hashes() {
    let span = KeyRange::of(Some(10), Some(20));
    assert!(!span.selects(10));
    assert!(span.selects(11));
    assert!(span.selects(20));
    assert!(!span.selects(21));
    let wrap = KeyRange::of(Some(20), Some(10));
    assert!(wrap.selects(21));
    assert!(wrap.selects(0));
    assert!(wrap.selects(10));
    assert!(!wrap.selects(11));
    assert!(!wrap.selects(20));
    let point = KeyRange::of(Some(7), Some(7));
    assert!(!point.selects(7));
    assert!(!point.selects(8));
    assert!(!point.selects(0));
    assert!(KeyRange::All.selects(0));
    assert!(KeyRange::All.selects(u32::MAX));
}

#[test]
fn rows_carry_the_hash_of_their_key() {
    let records = vec![Data::new("foo", "bar"), Data::new("key3", "v")];
    let rows = to_rows(&records, 8);
    assert_eq!(
        rows,
        vec![
            Row { key: "foo".to_string(), value: "bar".to_string(), keyhash: 143 },
            Row { key: "key3".to_string(), value: "v".to_string(), keyhash: 150 },
        ]
    );
    assert_eq!(to_rows(&Vec::new(), 8), Vec::<Row>::new());
}

#[test]
fn new_data_keeps_key_and_value() {
    let record = Data::new("k", "v");
    assert_eq!(record.key, "k");
    assert_eq!(record.value, "v");
    assert_eq!(record.clone(), record);
}

#[test]
fn backoff_doubles_until_the_attempts_are_used_up() {
    assert_eq!(after_failure(1, DEFAULT_ATTEMPTS), Retry::Wait { millis: 200 });
    assert_eq!(after_failure(2, DEFAULT_ATTEMPTS), Retry::Wait { millis: 400 });
    assert_eq!(after_failure(3, DEFAULT_ATTEMPTS), Retry::GiveUp);
    assert_eq!(after_failure(4, DEFAULT_ATTEMPTS), Retry::GiveUp);
    assert_eq!(after_failure(0, 1), Retry::Wait { millis: 100 });
    assert_eq!(after_failure(1, 1), Retry::GiveUp);
    assert_eq!(after_failure(0, 0), Retry::GiveUp);
    assert_eq!(after_failure(10, MAX_ATTEMPTS), Retry::Wait { millis: 102400 });
    assert_eq!(
        after_failure(56, MAX_ATTEMPTS),
        Retry::Wait { millis: 100 * (1u64 << 56) }
    );
    assert_eq!(after_failure(57, MAX_ATTEMPTS), Retry::GiveUp);
}

#[test]
fn an_entry_names_an_endpoint_only_if_it_holds_it() {
    assert!(names(&Some("a:1".to_string()), "a:1"));
    assert!(!names(&Some("a:1".to_string()), "a:2"));
    assert!(!names(&Some("a:1".to_string()), ""));
    assert!(!names(&None, "a:1"));
    assert!(!names(&None, ""));
    assert!(names(&Some(String::new()), ""));
}

#[test]
fn copies_hold_what_their_model_holds() {
    let batch = vec![Data::new("a", "1"), Data::new("b", "2")];
    assert_eq!(clone_records(&batch), batch);
    assert_eq!(clone_optional_records(&Some(batch.clone())), Some(batch.clone()));
    assert_eq!(clone_optional_records(&None), None);
    let messages = vec![
        Message::Data { from: "x".to_string(), data: batch.clone() },
        Message::LookupRes { key: "k".to_string(), hops: 3, data: Some(batch.clone()) },
        Message::LookupRes { key: "k".to_string(), hops: 0, data: None },
        Message::ResJoin { node_id: "a".to_string(), sender_id: "b".to_string() },
        Message::ReqFinger { from: "a".to_string(), index: 7 },
        Message::ResSuccessor { from: "a".to_string(), successor: "b".to_string() },
        Message::Ping,
        Message::Kys,
    ];
    for message in messages {
        assert_eq!(message.clone(), message);
    }
}

#[test]
fn answers_of_no_and_of_one_command() {
    assert_eq!(nothing::<Pending>(), vec![]);
    assert_eq!(
        only(Command::<Pending>::Sleep { millis: 5 }),
        vec![Command::Sleep { millis: 5 }]
    );
}
