use chord_dht::command::{ChordError, Command, Outcome};
use chord_dht::coordinator::{upload_report, ChordRing, RingEvent, RingPending, UploadReport};
use chord_dht::data::{Data, NewData};
use chord_dht::hash::hash;
use chord_dht::msg::Message;

const N50: &str = "node333:3000";
const N100: &str = "node1833:3000";
const N100B: &str = "node2023:3000";
const N200: &str = "node225:3000";

fn s(text: &str) -> String {
    text.to_string()
}

fn reply(to: &str, message: Message) -> Vec<Command<RingPending>> {
    vec![Command::Send { to: s(to), message, pending: None }]
}

fn registered(ring: &mut ChordRing, node: &str) {
    assert_eq!(ring.receive(Message::ResKnownNode { node_id: s(node) }), vec![]);
}

fn distinct_hashes(ring: &ChordRing, m: u32) -> bool {
    let members = ring.members();
    (0..members.len()).all(|i| (0..i).all(|j| hash(&members[i], m) != hash(&members[j], m)))
}

#[test]
fn the_first_joiner_becomes_a_member_and_its_own_contact() {
    let mut ring = ChordRing::new(8);
    assert_eq!(ring.len(), 0);
    assert_eq!(
        ring.handle_known_node_req(s(N100)),
        reply(N100, Message::ResKnownNode { node_id: s(N100) })
    );
    assert_eq!(ring.members(), vec![s(N100)]);
}

#[test]
fn later_joiners_are_named_the_members_in_turn_and_are_not_yet_members() {
    let mut ring = ChordRing::new(8);
    ring.handle_known_node_req(s("a"));
    registered(&mut ring, "b");
    registered(&mut ring, "c");
    assert_eq!(ring.members(), vec![s("a"), s("b"), s("c")]);
    assert_eq!(ring.handle_known_node_req(s("x")), reply("x", Message::ResKnownNode { node_id: s("b") }));
    assert_eq!(ring.handle_known_node_req(s("y")), reply("y", Message::ResKnownNode { node_id: s("c") }));
    assert_eq!(ring.handle_known_node_req(s("z")), reply("z", Message::ResKnownNode { node_id: s("a") }));
    assert_eq!(ring.handle_known_node_req(s("x")), reply("x", Message::ResKnownNode { node_id: s("b") }));
    assert_eq!(ring.members(), vec![s("a"), s("b"), s("c")]);
}

#[test]
fn a_known_name_or_identifier_is_refused() {
    let mut ring = ChordRing::new(8);
    ring.handle_known_node_req(s(N100));
    registered(&mut ring, N200);
    assert_eq!(ring.handle_known_node_req(s(N100)), reply(N100, Message::NodeExists));
    assert_eq!(ring.handle_known_node_req(s(N200)), reply(N200, Message::NodeExists));
    assert_eq!(hash(N100B, 8), hash(N100, 8));
    assert_eq!(ring.handle_known_node_req(s(N100B)), reply(N100B, Message::NodeExists));
    assert_eq!(ring.members(), vec![s(N100), s(N200)]);
}

#[test]
fn a_full_ring_admits_nobody() {
    // a ring of one bit has two identifiers
    let mut ring = ChordRing::new(1);
    ring.handle_known_node_req(s("foo"));
    registered(&mut ring, "hello");
    assert_eq!(hash("foo", 1), 1);
    assert_eq!(hash("hello", 1), 0);
    assert_eq!(ring.handle_known_node_req(s("bar")), reply("bar", Message::RingIsFull));
    assert_eq!(ring.handle_known_node_req(s("foo")), reply("foo", Message::RingIsFull));
    assert_eq!(ring.members(), vec![s("foo"), s("hello")]);
    let mut tiny = ChordRing::new(0);
    assert_eq!(
        tiny.handle_known_node_req(s("a")),
        reply("a", Message::ResKnownNode { node_id: s("a") })
    );
    assert_eq!(tiny.handle_known_node_req(s("b")), reply("b", Message::RingIsFull));
}

#[test]
fn the_cursor_survives_departures() {
    let mut ring = ChordRing::new(8);
    ring.handle_known_node_req(s("a"));
    registered(&mut ring, "b");
    registered(&mut ring, "c");
    ring.handle_known_node_req(s("x"));
    ring.handle_known_node_req(s("y"));
    // the cursor is at 2; with two members left the next contact is at
    // (2 + 1) % 2
    assert_eq!(ring.receive(Message::Leave { node_id: s("c") }), vec![]);
    assert_eq!(ring.handle_known_node_req(s("z")), reply("z", Message::ResKnownNode { node_id: s("b") }));
}

#[test]
fn leave_forgets_the_leaver_and_keeps_the_order_of_the_rest() {
    let mut ring = ChordRing::new(8);
    registered(&mut ring, "a");
    registered(&mut ring, "b");
    registered(&mut ring, "c");
    registered(&mut ring, "a");
    assert_eq!(ring.members(), vec![s("a"), s("b"), s("c")]);
    assert_eq!(ring.receive(Message::Leave { node_id: s("b") }), vec![]);
    assert_eq!(ring.members(), vec![s("a"), s("c")]);
    assert_eq!(ring.receive(Message::Leave { node_id: s("nobody") }), vec![]);
    assert_eq!(ring.members(), vec![s("a"), s("c")]);
    assert_eq!(ring.receive(Message::Leave { node_id: s("a") }), vec![]);
    assert_eq!(ring.members(), vec![s("c")]);
}

#[test]
fn members_are_tested_and_forgotten_when_silent() {
    let mut ring = ChordRing::new(8);
    registered(&mut ring, "a");
    registered(&mut ring, "b");
    assert_eq!(
        ring.liveness_check(),
        vec![
            Command::Enqueue { message: Message::CheckNode { node_id: s("a") } },
            Command::Enqueue { message: Message::CheckNode { node_id: s("b") } },
        ]
    );
    assert_eq!(
        ring.receive(Message::CheckNode { node_id: s("a") }),
        vec![Command::Send {
            to: s("a"),
            message: Message::Ping,
            pending: Some(RingPending::Probe { node: s("a") })
        }]
    );
    assert_eq!(ring.receive(Message::CheckNode { node_id: s("stranger") }), vec![]);
    assert_eq!(ring.complete(RingPending::Probe { node: s("a") }, Outcome::Done), Ok(vec![]));
    assert_eq!(ring.members(), vec![s("a"), s("b")]);
    assert_eq!(ring.complete(RingPending::Probe { node: s("a") }, Outcome::Failed), Ok(vec![]));
    assert_eq!(ring.members(), vec![s("b")]);
    assert_eq!(
        ring.complete(RingPending::Probe { node: s("b") }, Outcome::Records { records: vec![] }),
        Err(ChordError::ProtocolError)
    );
    assert_eq!(ring.members(), vec![s("b")]);
}

#[test]
fn lookups_go_to_the_members_in_turn() {
    let mut ring = ChordRing::new(8);
    assert_eq!(ring.handle_lookup(s("k")), Err(ChordError::EmptyRing));
    registered(&mut ring, "a");
    registered(&mut ring, "b");
    registered(&mut ring, "c");
    let lookup = |to: &str| {
        Ok(vec![Command::Send {
            to: s(to),
            message: Message::LookupReq { key: s("k"), hops: 0 },
            pending: Some(RingPending::Lookup { node: s(to) }),
        }])
    };
    assert_eq!(ring.handle_lookup(s("k")), lookup("a"));
    assert_eq!(ring.members(), vec![s("b"), s("c"), s("a")]);
    assert_eq!(ring.handle_lookup(s("k")), lookup("b"));
    assert_eq!(ring.handle_lookup(s("k")), lookup("c"));
    assert_eq!(ring.handle_lookup(s("k")), lookup("a"));
    assert_eq!(
        ring.complete(RingPending::Lookup { node: s("a") }, Outcome::Failed),
        Ok(vec![Command::Enqueue { message: Message::CheckNode { node_id: s("a") } }])
    );
    assert_eq!(ring.complete(RingPending::Lookup { node: s("a") }, Outcome::Done), Ok(vec![]));
    assert_eq!(
        ring.complete(
            RingPending::Lookup { node: s("a") },
            Outcome::Successors { list: vec![] }
        ),
        Err(ChordError::ProtocolError)
    );
}

#[test]
fn a_lookup_in_a_ring_of_one_keeps_its_member_in_front() {
    let mut ring = ChordRing::new(8);
    registered(&mut ring, "a");
    assert!(ring.handle_lookup(s("k")).is_ok());
    assert_eq!(ring.members(), vec![s("a")]);
}

#[test]
fn uploads_go_to_every_member() {
    let mut ring = ChordRing::new(8);
    let batch = vec![Data::new("k1", "v1"), Data::new("k2", "v2")];
    assert_eq!(ring.handle_upload(batch.clone()), Err(ChordError::EmptyRing));
    registered(&mut ring, "a");
    registered(&mut ring, "b");
    assert_eq!(
        ring.handle_upload(batch.clone()),
        Ok(vec![
            Command::Insert { to: s("a"), records: batch.clone(), pending: None },
            Command::Insert { to: s("b"), records: batch.clone(), pending: None },
        ])
    );
    assert_eq!(
        ring.handle(RingEvent::UploadRequested { records: vec![] }),
        Ok(vec![
            Command::Insert { to: s("a"), records: vec![], pending: None },
            Command::Insert { to: s("b"), records: vec![], pending: None },
        ])
    );
}

#[test]
fn upload_outcomes_are_counted() {
    assert_eq!(upload_report(&vec![]), UploadReport { success_count: 0, error_count: 0 });
    assert_eq!(
        upload_report(&vec![true, false, true, true]),
        UploadReport { success_count: 3, error_count: 1 }
    );
    assert_eq!(
        upload_report(&vec![false, false]),
        UploadReport { success_count: 0, error_count: 2 }
    );
}

#[test]
fn unexpected_messages_are_dropped() {
    let mut ring = ChordRing::new(8);
    registered(&mut ring, "a");
    for message in [
        Message::Ping,
        Message::LookupRes { key: s("k"), hops: 2, data: None },
        Message::Notify { node_id: s("a") },
        Message::Kys,
    ] {
        assert_eq!(ring.handle(RingEvent::Received { message }), Ok(vec![]));
    }
    assert_eq!(ring.members(), vec![s("a")]);
}

#[test]
fn members_keep_distinct_identifiers() {
    let mut ring = ChordRing::new(8);
    ring.handle_known_node_req(s(N100));
    ring.handle_known_node_req(s(N100B));
    registered(&mut ring, N200);
    registered(&mut ring, N50);
    assert!(distinct_hashes(&ring, 8));
    ring.handle_lookup(s("k")).unwrap();
    assert!(distinct_hashes(&ring, 8));
    ring.handle_known_node_req(s(N100B));
    ring.receive(Message::Leave { node_id: s(N200) });
    assert!(distinct_hashes(&ring, 8));
    ring.complete(RingPending::Probe { node: s(N50) }, Outcome::Failed).unwrap();
    assert!(distinct_hashes(&ring, 8));
    assert_eq!(ring.members(), vec![s(N100)]);
}

#[test]
fn a_repeated_or_colliding_registration_changes_nothing() {
    let mut ring = ChordRing::new(8);
    registered(&mut ring, N100);
    registered(&mut ring, N100);
    assert_eq!(ring.members(), vec![s(N100)]);
    assert_eq!(hash(N100B, 8), hash(N100, 8));
    registered(&mut ring, N100B);
    assert_eq!(ring.members(), vec![s(N100)]);
    registered(&mut ring, N200);
    registered(&mut ring, N100B);
    registered(&mut ring, N200);
    assert_eq!(ring.members(), vec![s(N100), s(N200)]);
    assert!(distinct_hashes(&ring, 8));
    assert_eq!(
        ring.handle(RingEvent::Received { message: Message::ResKnownNode { node_id: s(N100) } }),
        Ok(vec![])
    );
    assert_eq!(ring.members(), vec![s(N100), s(N200)]);
}
