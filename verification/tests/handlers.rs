use chord_dht::command::{ChordError, Command, Outcome};
use chord_dht::data::{Data, NewData};
use chord_dht::msg::Message;
use chord_dht::node::fingers::{finger_req_handler, finger_res_handler, refresh_fingers};
use chord_dht::node::ingress::{
    acknowledge, handle_join, handle_message, handle_predecessor, handle_successors, Ingress,
};
use chord_dht::node::insert::handle_insert;
use chord_dht::node::join::{
    join_check_delivered, join_registered, join_reply_delivered, join_request_failed,
    join_successors_fetched, known_node_handler, req_join_handler, res_join_handler,
};
use chord_dht::node::leave::{leave, leave_cleared, leave_handler, leave_records_read};
use chord_dht::node::lookup::{lookup_forward_failed, lookup_records_read, lookup_req_handler};
use chord_dht::node::notify::{notify_handler, notify_records_read, notify_transfer_delivered};
use chord_dht::node::pending::Pending;
use chord_dht::node::stabilize::{
    stabilize, stabilize_admitted, stabilize_probed, stabilize_successors_fetched,
};
use chord_dht::node::{needs_success, Event, Node};
use chord_dht::node_state::NodeState;
use chord_dht::store::{KeyRange, Row, StoreOp};

// In an 8-bit ring: node333:3000 is 50, node1833:3000 is 100, node33:3000 is
// 120, node225:3000 is 200, node67:3000 is 10, node195:3000 is 250.
const N10: &str = "node67:3000";
const N50: &str = "node333:3000";
const N100: &str = "node1833:3000";
const N120: &str = "node33:3000";
const N200: &str = "node225:3000";
const N250: &str = "node195:3000";
const RING: &str = "ring:8000";

fn s(text: &str) -> String {
    text.to_string()
}

fn slots(entries: &[Option<&str>]) -> Vec<Option<String>> {
    entries.iter().map(|e| e.map(|x| x.to_string())).collect()
}

/// The node at 100 with predecessor 50 and successor 200.
fn middle() -> NodeState {
    let mut ns = NodeState::new(s(N100), 8, 3);
    ns.predecessor = Some(s(N50));
    ns.successor.insert_first(s(N200));
    ns
}

fn send(to: &str, message: Message, pending: Option<Pending>) -> Command<Pending> {
    Command::Send { to: s(to), message, pending }
}

#[test]
fn known_node_asks_the_contact_for_a_place() {
    let ns = NodeState::new(s(N100), 8, 3);
    assert_eq!(
        known_node_handler(&ns, s(N200)),
        vec![send(
            N200,
            Message::ReqJoin { node_id: s(N100) },
            Some(Pending::JoinRequest { contact: s(N200) })
        )]
    );
}

#[test]
fn known_node_that_is_the_node_itself_means_it_is_alone() {
    let ns = NodeState::new(s(N100), 8, 3);
    assert_eq!(known_node_handler(&ns, s(N100)), vec![]);
}

#[test]
fn unreachable_contact_is_reported_and_another_is_asked_for() {
    assert_eq!(
        join_request_failed(s(N200), RING),
        vec![send(RING, Message::CheckNode { node_id: s(N200) }, Some(Pending::JoinCheck))]
    );
    let ns = NodeState::new(s(N100), 8, 3);
    assert_eq!(
        join_check_delivered(&ns, RING),
        vec![
            Command::Sleep { millis: 500 },
            send(RING, Message::ReqKnownNode { node_id: s(N100) }, Some(Pending::Delivery)),
        ]
    );
}

#[test]
fn join_request_on_the_arc_to_the_successor_is_admitted() {
    let mut ns = middle();
    let reply = req_join_handler(&mut ns, s(N120), 8);
    assert_eq!(
        reply,
        Ok(vec![send(
            N120,
            Message::ResJoin { node_id: s(N200), sender_id: s(N100) },
            Some(Pending::JoinReply { joiner: s(N120), old_successor: s(N200) })
        )])
    );
    assert_eq!(ns.successor.entries, slots(&[Some(N120), None, None]));
    assert_eq!(ns.predecessor, Some(s(N50)));
    assert_eq!(
        join_reply_delivered(s(N120), s(N200)),
        vec![send(N200, Message::Notify { node_id: s(N120) }, Some(Pending::Delivery))]
    );
}

#[test]
fn join_request_off_the_arc_goes_on_to_the_successor() {
    let mut ns = middle();
    let before = ns.clone();
    assert_eq!(
        req_join_handler(&mut ns, s(N50), 8),
        Ok(vec![send(N200, Message::ReqJoin { node_id: s(N50) }, Some(Pending::Delivery))])
    );
    assert_eq!(ns, before);
    assert_eq!(
        req_join_handler(&mut ns, s(N250), 8),
        Ok(vec![send(N200, Message::ReqJoin { node_id: s(N250) }, Some(Pending::Delivery))])
    );
}

#[test]
fn join_request_with_a_taken_identifier_is_refused() {
    let mut ns = middle();
    let before = ns.clone();
    // node2023:3000 is 100, node283:3000 is 200
    assert_eq!(
        req_join_handler(&mut ns, s("node2023:3000"), 8),
        Ok(vec![send("node2023:3000", Message::NodeExists, None)])
    );
    assert_eq!(
        req_join_handler(&mut ns, s("node283:3000"), 8),
        Ok(vec![send("node283:3000", Message::NodeExists, None)])
    );
    assert_eq!(
        req_join_handler(&mut ns, s(N100), 8),
        Ok(vec![send(N100, Message::NodeExists, None)])
    );
    assert_eq!(ns, before);
}

#[test]
fn join_request_without_a_successor_is_an_error() {
    let mut ns = middle();
    ns.successor.clear();
    assert_eq!(req_join_handler(&mut ns, s(N120), 8), Err(ChordError::NotInRing));
}

#[test]
fn a_lone_node_admits_every_other_identifier() {
    let mut ns = NodeState::new(s(N100), 8, 3);
    assert_eq!(
        req_join_handler(&mut ns, s(N50), 8),
        Ok(vec![send(
            N50,
            Message::ResJoin { node_id: s(N100), sender_id: s(N100) },
            Some(Pending::JoinReply { joiner: s(N50), old_successor: s(N100) })
        )])
    );
    assert_eq!(ns.successor.entries, slots(&[Some(N50), None, None]));
}

#[test]
fn a_joiner_takes_its_place() {
    let mut ns = NodeState::new(s(N120), 8, 3);
    ns.successor.insert(2, Some(s("stale")));
    assert_eq!(
        res_join_handler(&mut ns, s(N200), s(N100), 8),
        vec![Command::FetchSuccessors {
            from: s(N200),
            pending: Pending::JoinSuccessors { sender: s(N100) }
        }]
    );
    assert_eq!(ns.successor.entries, slots(&[Some(N200), None, None]));
    assert_eq!(ns.predecessor, Some(s(N120)));
    assert_eq!(
        join_successors_fetched(
            &mut ns,
            Some(vec![s(N250), s(N10), s(N50), s(N100)]),
            s(N100),
            RING,
            8
        ),
        vec![send(RING, Message::ResKnownNode { node_id: s(N120) }, Some(Pending::JoinRegistered))]
    );
    assert_eq!(ns.successor.entries, slots(&[Some(N200), Some(N250), Some(N10)]));
    assert_eq!(ns.predecessor, Some(s(N100)));
    // hash(N120) + 1
    assert_eq!(
        join_registered(&ns, 8),
        vec![send(
            N120,
            Message::ReqFinger { from: s(N120), index: 121 },
            Some(Pending::Delivery)
        )]
    );
}

#[test]
fn a_joiner_whose_successor_does_not_answer_registers_all_the_same() {
    let mut ns = NodeState::new(s(N120), 8, 3);
    res_join_handler(&mut ns, s(N200), s(N100), 8);
    assert_eq!(
        join_successors_fetched(&mut ns, None, s(N100), RING, 8),
        vec![send(RING, Message::ResKnownNode { node_id: s(N120) }, Some(Pending::JoinRegistered))]
    );
    assert_eq!(ns.successor.entries, slots(&[Some(N200), None, None]));
    assert_eq!(ns.predecessor, Some(s(N100)));
    let mut short = NodeState::new(s(N120), 8, 3);
    res_join_handler(&mut short, s(N200), s(N100), 8);
    join_successors_fetched(&mut short, Some(vec![s(N250)]), s(N100), RING, 8);
    assert_eq!(short.successor.entries, slots(&[Some(N200), Some(N250), None]));
}

#[test]
fn lookup_of_an_own_key_reads_the_store() {
    let ns = middle();
    // hash("key69") is 100, hash("key560") is 60
    for key in ["key69", "key560"] {
        assert_eq!(
            lookup_req_handler(&ns, s(key), 3, RING, 8),
            Ok(vec![Command::Store {
                op: StoreOp::SelectKey { key: s(key) },
                pending: Some(Pending::LookupRecords { key: s(key), hops: 3 })
            }])
        );
    }
    assert_eq!(
        lookup_records_read(s("key69"), 3, vec![Data::new("key69", "v")], RING),
        vec![send(
            RING,
            Message::LookupRes { key: s("key69"), hops: 3, data: Some(vec![Data::new("key69", "v")]) },
            Some(Pending::Delivery)
        )]
    );
}

#[test]
fn lookup_on_the_arc_to_the_successor_goes_to_the_successor() {
    let ns = middle();
    // hash("key3") is 150, hash("key271") is 200
    for key in ["key3", "key271"] {
        assert_eq!(
            lookup_req_handler(&ns, s(key), 3, RING, 8),
            Ok(vec![send(
                N200,
                Message::LookupReq { key: s(key), hops: 4 },
                Some(Pending::LookupForward {
                    key: s(key),
                    hops: 3,
                    candidates: vec![s(N200)],
                    tried: 0
                })
            )])
        );
    }
    assert_eq!(
        lookup_forward_failed(s("key3"), 3, vec![s(N200)], 0, RING),
        Ok(vec![send(
            RING,
            Message::LookupRes { key: s("key3"), hops: 3, data: None },
            Some(Pending::Delivery)
        )])
    );
}

#[test]
fn lookup_elsewhere_goes_along_the_fingers() {
    let mut ns = middle();
    // the fingers of the node at 100 start at 101, 102, 104, 108, 116, 132,
    // 164 and 228
    ns.finger_table.update_entry(132, s(N200));
    ns.finger_table.update_entry(164, s(N250));
    ns.finger_table.update_entry(228, s(N10));
    ns.finger_table.update_entry(101, s(N120));
    // hash("key371") is 220: between the starts 164 and 228
    assert_eq!(
        lookup_req_handler(&ns, s("key371"), 0, RING, 8),
        Ok(vec![send(
            N250,
            Message::LookupReq { key: s("key371"), hops: 1 },
            Some(Pending::LookupForward {
                key: s("key371"),
                hops: 0,
                candidates: vec![s(N250), s(N10), s(N250), s(N200), s(N120)],
                tried: 0
            })
        )])
    );
    // hash("key266") is 30: between no two starts
    let candidates = vec![s(N10), s(N250), s(N200), s(N120)];
    assert_eq!(
        lookup_req_handler(&ns, s("key266"), 0, RING, 8),
        Ok(vec![send(
            N10,
            Message::LookupReq { key: s("key266"), hops: 1 },
            Some(Pending::LookupForward {
                key: s("key266"),
                hops: 0,
                candidates: candidates.clone(),
                tried: 0
            })
        )])
    );
    assert_eq!(
        lookup_forward_failed(s("key266"), 0, candidates.clone(), 0, RING),
        Ok(vec![send(
            N250,
            Message::LookupReq { key: s("key266"), hops: 1 },
            Some(Pending::LookupForward {
                key: s("key266"),
                hops: 0,
                candidates: candidates.clone(),
                tried: 1
            })
        )])
    );
    assert_eq!(
        lookup_forward_failed(s("key266"), 0, candidates.clone(), 3, RING),
        Ok(vec![send(
            RING,
            Message::LookupRes { key: s("key266"), hops: 0, data: None },
            Some(Pending::Delivery)
        )])
    );
    assert_eq!(
        lookup_forward_failed(s("key266"), 0, candidates, 9, RING),
        Ok(vec![send(
            RING,
            Message::LookupRes { key: s("key266"), hops: 0, data: None },
            Some(Pending::Delivery)
        )])
    );
}

#[test]
fn lookup_with_no_known_finger_fails_at_once() {
    let ns = middle();
    assert_eq!(
        lookup_req_handler(&ns, s("key266"), 7, RING, 8),
        Ok(vec![send(
            RING,
            Message::LookupRes { key: s("key266"), hops: 7, data: None },
            Some(Pending::Delivery)
        )])
    );
}

#[test]
fn lookup_errors() {
    let mut ns = middle();
    assert_eq!(
        lookup_req_handler(&ns, s("key3"), usize::MAX, RING, 8),
        Err(ChordError::ProtocolError)
    );
    assert_eq!(
        lookup_forward_failed(s("key3"), usize::MAX, vec![s(N200)], 0, RING),
        Err(ChordError::ProtocolError)
    );
    // an own key needs no further hop
    assert!(lookup_req_handler(&ns, s("key69"), usize::MAX, RING, 8).is_ok());
    ns.predecessor = None;
    assert_eq!(lookup_req_handler(&ns, s("key69"), 0, RING, 8), Err(ChordError::NotInRing));
    let mut ns = middle();
    ns.successor.clear();
    assert_eq!(lookup_req_handler(&ns, s("key69"), 0, RING, 8), Err(ChordError::NotInRing));
}

#[test]
fn finger_question_is_answered_or_passed_on() {
    let ns = middle();
    assert_eq!(
        finger_req_handler(&ns, s(N50), 150, 8),
        vec![send(N50, Message::ResFinger { node_id: s(N200), index: 150 }, None)]
    );
    assert_eq!(
        finger_req_handler(&ns, s(N50), 200, 8),
        vec![send(N50, Message::ResFinger { node_id: s(N200), index: 200 }, None)]
    );
    assert_eq!(
        finger_req_handler(&ns, s(N50), 100, 8),
        vec![send(N200, Message::ReqFinger { from: s(N50), index: 100 }, None)]
    );
    assert_eq!(
        finger_req_handler(&ns, s(N50), 30, 8),
        vec![send(N200, Message::ReqFinger { from: s(N50), index: 30 }, None)]
    );
    let mut lost = middle();
    lost.successor.clear();
    assert_eq!(finger_req_handler(&lost, s(N50), 150, 8), vec![]);
}

#[test]
fn finger_answer_fills_the_table_and_asks_for_the_next() {
    let mut ns = middle();
    assert_eq!(
        finger_res_handler(&mut ns, s(N200), 101, 8),
        Ok(vec![send(
            N100,
            Message::ReqFinger { from: s(N100), index: 102 },
            Some(Pending::Delivery)
        )])
    );
    assert_eq!(ns.finger_table.entries[0].id, Some(s(N200)));
    assert_eq!(finger_res_handler(&mut ns, s(N10), 228, 8), Ok(vec![]));
    assert_eq!(ns.finger_table.entries[7].id, Some(s(N10)));
    let before = ns.clone();
    assert_eq!(finger_res_handler(&mut ns, s(N10), 5, 8), Ok(vec![]));
    assert_eq!(ns, before);
}

#[test]
fn finger_answer_with_an_index_that_is_no_identifier_is_refused() {
    if usize::BITS > 32 {
        let mut ns = middle();
        let before = ns.clone();
        let index = (u32::MAX as usize) + 102;
        assert_eq!(finger_res_handler(&mut ns, s(N200), index, 8), Err(ChordError::ProtocolError));
        assert_eq!(ns, before);
    }
}

#[test]
fn finger_refresh_starts_at_the_first_finger() {
    let ns = middle();
    assert_eq!(
        refresh_fingers(&ns, 8),
        vec![Command::Enqueue { message: Message::ReqFinger { from: s(N100), index: 101 } }]
    );
    assert_eq!(
        refresh_fingers(&NodeState::new(s(N100), 8, 3), 8),
        vec![Command::Enqueue { message: Message::ReqFinger { from: s(N100), index: 101 } }]
    );
    let mut lost = middle();
    lost.successor.clear();
    assert_eq!(refresh_fingers(&lost, 8), vec![]);
}

#[test]
fn notify_from_the_own_arc_is_accepted() {
    let mut ns = middle();
    // hash("key560") is 60; any text can name a node
    assert_eq!(
        notify_handler(&mut ns, s("key560"), 8),
        vec![Command::Store {
            op: StoreOp::Select { range: KeyRange::Span { start: 50, end: 60 } },
            pending: Some(Pending::NotifyRecords {
                sender: s("key560"),
                range: KeyRange::Span { start: 50, end: 60 }
            })
        }]
    );
    assert_eq!(ns.predecessor, Some(s("key560")));
}

#[test]
fn notify_from_elsewhere_is_ignored() {
    let mut ns = middle();
    let before = ns.clone();
    assert_eq!(notify_handler(&mut ns, s(N120), 8), vec![]);
    assert_eq!(notify_handler(&mut ns, s(N50), 8), vec![]);
    assert_eq!(notify_handler(&mut ns, s(N10), 8), vec![]);
    assert_eq!(ns, before);
}

#[test]
fn notify_over_the_top_of_the_ring_hands_over_a_wrapped_range() {
    // the node at 50 with predecessor 200 hears of 250 and of 10
    let mut ns = NodeState::new(s(N50), 8, 3);
    ns.predecessor = Some(s(N200));
    assert_eq!(
        notify_handler(&mut ns, s(N250), 8),
        vec![Command::Store {
            op: StoreOp::Select { range: KeyRange::Span { start: 200, end: 250 } },
            pending: Some(Pending::NotifyRecords {
                sender: s(N250),
                range: KeyRange::Span { start: 200, end: 250 }
            })
        }]
    );
    let mut ns = NodeState::new(s(N50), 8, 3);
    ns.predecessor = Some(s(N200));
    assert_eq!(
        notify_handler(&mut ns, s(N10), 8),
        vec![Command::Store {
            op: StoreOp::Select { range: KeyRange::Wrap { start: 200, end: 10 } },
            pending: Some(Pending::NotifyRecords {
                sender: s(N10),
                range: KeyRange::Wrap { start: 200, end: 10 }
            })
        }]
    );
    assert_eq!(ns.predecessor, Some(s(N10)));
}

#[test]
fn notify_without_a_predecessor_counts_from_the_node_itself() {
    let mut ns = middle();
    ns.predecessor = None;
    assert_eq!(
        notify_handler(&mut ns, s(N200), 8),
        vec![Command::Store {
            op: StoreOp::Select { range: KeyRange::Span { start: 100, end: 200 } },
            pending: Some(Pending::NotifyRecords {
                sender: s(N200),
                range: KeyRange::Span { start: 100, end: 200 }
            })
        }]
    );
}

#[test]
fn notify_transfer_sends_then_drops() {
    let ns = middle();
    let range = KeyRange::Span { start: 50, end: 60 };
    assert_eq!(notify_records_read(&ns, s(N50), range, vec![]), vec![]);
    assert_eq!(
        notify_records_read(&ns, s("x"), range, vec![Data::new("key560", "v")]),
        vec![send(
            "x",
            Message::Data { from: s(N100), data: vec![Data::new("key560", "v")] },
            Some(Pending::NotifyTransfer { range })
        )]
    );
    assert_eq!(
        notify_transfer_delivered(range),
        vec![Command::Store { op: StoreOp::Delete { range }, pending: Some(Pending::Write) }]
    );
}

#[test]
fn news_of_a_departure_is_passed_on_once() {
    let ns = middle();
    assert_eq!(
        leave_handler(&ns, s(N50), 8),
        vec![send(N200, Message::Leave { node_id: s(N50) }, Some(Pending::Delivery))]
    );
    assert_eq!(leave_handler(&ns, s(N200), 8), vec![]);
    let mut lost = middle();
    lost.successor.clear();
    assert_eq!(leave_handler(&lost, s(N50), 8), vec![]);
}

#[test]
fn leaving_hands_everything_over() {
    let mut ns = middle();
    ns.finger_table.update_entry(101, s(N200));
    assert_eq!(
        leave(&ns, 8),
        Ok(vec![Command::Store {
            op: StoreOp::Select { range: KeyRange::All },
            pending: Some(Pending::LeaveRecords { successor: s(N200), predecessor: s(N50) })
        }])
    );
    assert_eq!(
        leave_records_read(&ns, s(N200), s(N50), vec![Data::new("k", "v")], RING),
        vec![
            send(N200, Message::Data { from: s(N100), data: vec![Data::new("k", "v")] }, None),
            send(N200, Message::IAmYourPredecessor { node_id: s(N50) }, None),
            send(N50, Message::IAmYourSuccessor { node_id: s(N200) }, None),
            send(RING, Message::Leave { node_id: s(N100) }, None),
            Command::Store {
                op: StoreOp::Delete { range: KeyRange::All },
                pending: Some(Pending::LeaveClear)
            },
        ]
    );
    leave_cleared(&mut ns, 8);
    assert_eq!(ns, NodeState::new(s(N100), 8, 3));
}

#[test]
fn a_node_that_is_only_its_own_predecessor_leaves() {
    let mut ns = middle();
    ns.predecessor = Some(s(N100));
    assert_eq!(
        leave(&ns, 8),
        Ok(vec![Command::Store {
            op: StoreOp::Select { range: KeyRange::All },
            pending: Some(Pending::LeaveRecords { successor: s(N200), predecessor: s(N100) })
        }])
    );
    let mut node = Node::new(s(N100), 8, 3);
    node.node_state = ns;
    node.node_state.finger_table.update_entry(101, s(N200));
    assert!(node.leave().is_ok());
    assert_eq!(
        node.handle(Event::Completed { pending: Pending::LeaveClear, outcome: Outcome::Done }),
        Ok(vec![])
    );
    assert_eq!(node.node_state, NodeState::new(s(N100), 8, 3));
}

#[test]
fn leaving_alone_or_lost() {
    assert_eq!(leave(&NodeState::new(s(N100), 8, 3), 8), Ok(vec![]));
    let mut own_successor = middle();
    own_successor.successor.insert_first(s(N100));
    assert_eq!(leave(&own_successor, 8), Ok(vec![]));
    let mut lost = middle();
    lost.predecessor = None;
    assert_eq!(leave(&lost, 8), Err(ChordError::NotInRing));
    let mut lost = middle();
    lost.successor.clear();
    assert_eq!(leave(&lost, 8), Err(ChordError::NotInRing));
}

#[test]
fn insert_keeps_own_records_and_passes_the_others_on() {
    let ns = middle();
    // 60 and 100 lie on (50, 100]; 150 and 30 do not
    let batch = vec![
        Data::new("key3", "a"),
        Data::new("key560", "b"),
        Data::new("key266", "c"),
        Data::new("key69", "d"),
    ];
    assert_eq!(
        handle_insert(&ns, batch, 8),
        Ok(vec![
            Command::Store {
                op: StoreOp::Insert {
                    rows: vec![
                        Row { key: s("key560"), value: s("b"), keyhash: 60 },
                        Row { key: s("key69"), value: s("d"), keyhash: 100 },
                    ]
                },
                pending: Some(Pending::Write)
            },
            Command::Insert {
                to: s(N200),
                records: vec![Data::new("key3", "a"), Data::new("key266", "c")],
                pending: None
            },
        ])
    );
}

#[test]
fn insert_of_only_own_or_only_foreign_records() {
    let ns = middle();
    assert_eq!(
        handle_insert(&ns, vec![Data::new("key560", "b")], 8),
        Ok(vec![Command::Store {
            op: StoreOp::Insert { rows: vec![Row { key: s("key560"), value: s("b"), keyhash: 60 }] },
            pending: Some(Pending::Write)
        }])
    );
    assert_eq!(
        handle_insert(&ns, vec![Data::new("key3", "a")], 8),
        Ok(vec![Command::Insert {
            to: s(N200),
            records: vec![Data::new("key3", "a")],
            pending: None
        }])
    );
    assert_eq!(handle_insert(&ns, vec![], 8), Ok(vec![]));
}

#[test]
fn insert_for_others_without_a_successor_is_an_error() {
    let mut ns = middle();
    ns.successor.clear();
    assert_eq!(handle_insert(&ns, vec![Data::new("key3", "a")], 8), Err(ChordError::NotInRing));
    assert!(handle_insert(&ns, vec![Data::new("key560", "b")], 8).is_ok());
}

#[test]
fn a_node_without_a_successor_keeps_its_share_of_a_mixed_batch() {
    let mut ns = middle();
    ns.successor.clear();
    assert_eq!(
        handle_insert(&ns, vec![Data::new("key3", "a"), Data::new("key560", "b")], 8),
        Ok(vec![Command::Store {
            op: StoreOp::Insert { rows: vec![Row { key: s("key560"), value: s("b"), keyhash: 60 }] },
            pending: Some(Pending::Write)
        }])
    );
}

#[test]
fn stabilization_pings_the_successors_in_turn() {
    let mut ns = middle();
    ns.successor.insert(2, Some(s(N250)));
    assert_eq!(
        stabilize(&mut ns, 8),
        vec![send(
            N200,
            Message::Ping,
            Some(Pending::StabilizeProbe { index: 0, node: s(N200) })
        )]
    );
    assert_eq!(
        stabilize_probed(&mut ns, 0, s(N200), true, 8),
        vec![send(
            N250,
            Message::Ping,
            Some(Pending::StabilizeProbe { index: 2, node: s(N250) })
        )]
    );
    assert_eq!(
        stabilize_probed(&mut ns, 2, s(N250), true, 8),
        vec![Command::FetchSuccessors {
            from: s(N200),
            pending: Pending::StabilizeSuccessors { immediate: s(N200) }
        }]
    );
    assert_eq!(ns.successor.entries, slots(&[Some(N200), None, Some(N250)]));
}

#[test]
fn stabilization_drops_a_dead_successor_and_promotes_the_next() {
    let mut ns = middle();
    ns.successor.insert(1, Some(s(N250)));
    ns.successor.insert(2, Some(s(N10)));
    assert_eq!(
        stabilize_probed(&mut ns, 0, s(N200), false, 8),
        vec![send(
            N250,
            Message::Ping,
            Some(Pending::StabilizeProbe { index: 0, node: s(N250) })
        )]
    );
    assert_eq!(ns.successor.entries, slots(&[Some(N250), Some(N10), None]));
    assert_eq!(
        stabilize_probed(&mut ns, 0, s(N250), false, 8),
        vec![send(N10, Message::Ping, Some(Pending::StabilizeProbe { index: 0, node: s(N10) }))]
    );
    assert_eq!(stabilize_probed(&mut ns, 0, s(N10), false, 8), vec![]);
    assert_eq!(ns.successor.entries, slots(&[None, None, None]));
}

#[test]
fn stabilization_promotes_over_a_hole() {
    let mut ns = middle();
    ns.successor.clear();
    ns.successor.insert(2, Some(s(N250)));
    assert_eq!(
        stabilize(&mut ns, 8),
        vec![send(
            N250,
            Message::Ping,
            Some(Pending::StabilizeProbe { index: 2, node: s(N250) })
        )]
    );
    assert_eq!(
        stabilize_probed(&mut ns, 2, s(N250), true, 8),
        vec![Command::FetchSuccessors {
            from: s(N250),
            pending: Pending::StabilizeSuccessors { immediate: s(N250) }
        }]
    );
    assert_eq!(ns.successor.entries, slots(&[Some(N250), None, None]));
}

#[test]
fn stabilization_renews_the_list_from_the_successor() {
    let mut ns = middle();
    assert_eq!(
        stabilize_successors_fetched(&mut ns, s(N200), Some(vec![s(N250), s(N10), s(N50)]), 8),
        vec![send(
            N250,
            Message::Ping,
            Some(Pending::StabilizeAdmit {
                immediate: s(N200),
                candidates: vec![s(N250), s(N10)],
                probed: 0,
                admitted: vec![]
            })
        )]
    );
    assert_eq!(
        stabilize_admitted(&mut ns, s(N200), vec![s(N250), s(N10)], 0, vec![], false, 8),
        vec![send(
            N10,
            Message::Ping,
            Some(Pending::StabilizeAdmit {
                immediate: s(N200),
                candidates: vec![s(N250), s(N10)],
                probed: 1,
                admitted: vec![]
            })
        )]
    );
    assert_eq!(
        stabilize_admitted(&mut ns, s(N200), vec![s(N250), s(N10)], 1, vec![], true, 8),
        vec![send(N200, Message::Notify { node_id: s(N100) }, None)]
    );
    assert_eq!(ns.successor.entries, slots(&[Some(N200), Some(N10), None]));
}

#[test]
fn stabilization_without_an_answer_only_notifies() {
    let mut ns = middle();
    ns.successor.insert(1, Some(s(N250)));
    assert_eq!(
        stabilize_successors_fetched(&mut ns, s(N200), None, 8),
        vec![send(N200, Message::Notify { node_id: s(N100) }, None)]
    );
    assert_eq!(ns.successor.entries, slots(&[Some(N200), Some(N250), None]));
    assert_eq!(
        stabilize_successors_fetched(&mut ns, s(N200), Some(vec![]), 8),
        vec![send(N200, Message::Notify { node_id: s(N100) }, None)]
    );
    assert_eq!(ns.successor.entries, slots(&[Some(N200), None, None]));
}

#[test]
fn ingress_answers_pings_and_queues_the_rest() {
    assert_eq!(handle_message(Message::Ping), Ingress::Reply { message: Message::Pong });
    assert_eq!(handle_message(Message::Pong), Ingress::Accept { message: Message::Pong });
    assert_eq!(
        handle_message(Message::Notify { node_id: s("a") }),
        Ingress::Accept { message: Message::Notify { node_id: s("a") } }
    );
}

#[test]
fn only_the_first_request_and_the_first_pings_need_success() {
    assert!(needs_success(&Some(Pending::Announce { retries: 5 })));
    assert!(needs_success(&Some(Pending::StabilizeProbe { index: 0, node: s(N200) })));
    assert!(!needs_success(&None));
    assert!(!needs_success(&Some(Pending::Delivery)));
    assert!(!needs_success(&Some(Pending::JoinCheck)));
    assert!(!needs_success(&Some(Pending::StabilizeAdmit {
        immediate: s(N200),
        candidates: vec![s(N250)],
        probed: 0,
        admitted: vec![]
    })));
}

#[test]
fn queued_messages_are_acknowledged() {
    assert_eq!(acknowledge(None), Message::Success { message: s("Message sent successfully") });
    assert_eq!(acknowledge(Some(s("channel closed"))), Message::ErrorMessage { error: s("channel closed") });
}

#[test]
fn a_node_reports_its_neighbours() {
    let mut ns = middle();
    ns.successor.insert(2, Some(s(N250)));
    assert_eq!(handle_successors(&ns), vec![s(N200), s(N250)]);
    assert_eq!(handle_predecessor(&ns), Some(s(N50)));
    ns.successor.clear();
    ns.predecessor = None;
    assert_eq!(handle_successors(&ns), Vec::<String>::new());
    assert_eq!(handle_predecessor(&ns), None);
    assert_eq!(
        handle_join(&ns, RING),
        vec![send(RING, Message::ReqKnownNode { node_id: s(N100) }, None)]
    );
}

#[test]
fn a_node_starts_to_join_through_the_coordinator() {
    let mut node = Node::new(s(N100), 8, 3);
    assert_eq!(node.chord_ring, "");
    assert_eq!(
        node.req_known_node(s(RING)),
        vec![send(
            RING,
            Message::ReqKnownNode { node_id: s(N100) },
            Some(Pending::Announce { retries: 5 })
        )]
    );
    assert_eq!(node.chord_ring, RING);
    assert_eq!(
        node.handle(Event::Completed {
            pending: Pending::Announce { retries: 5 },
            outcome: Outcome::Failed
        }),
        Ok(vec![
            Command::Sleep { millis: 1000 },
            send(
                RING,
                Message::ReqKnownNode { node_id: s(N100) },
                Some(Pending::Announce { retries: 4 })
            ),
        ])
    );
    assert_eq!(
        node.handle(Event::Completed {
            pending: Pending::Announce { retries: 1 },
            outcome: Outcome::Failed
        }),
        Ok(vec![Command::Exit { code: 1 }])
    );
    assert_eq!(
        node.handle(Event::Completed {
            pending: Pending::Announce { retries: 3 },
            outcome: Outcome::Done
        }),
        Ok(vec![])
    );
}

#[test]
fn a_node_dispatches_its_messages() {
    let mut node = Node::new(s(N100), 8, 3);
    node.req_known_node(s(RING));
    assert_eq!(
        node.handle(Event::Received { message: Message::IAmYourPredecessor { node_id: s(N50) } }),
        Ok(vec![])
    );
    assert_eq!(node.node_state.predecessor, Some(s(N50)));
    node.node_state.successor.insert(1, Some(s("old")));
    assert_eq!(
        node.handle(Event::Received { message: Message::IAmYourSuccessor { node_id: s(N200) } }),
        Ok(vec![])
    );
    assert_eq!(node.node_state.successor.entries, slots(&[Some(N200), None, None]));
    assert_eq!(
        node.handle(Event::Received {
            message: Message::Data { from: s(N50), data: vec![Data::new("foo", "bar")] }
        }),
        Ok(vec![Command::Store {
            op: StoreOp::Insert { rows: vec![Row { key: s("foo"), value: s("bar"), keyhash: 143 }] },
            pending: None
        }])
    );
    assert_eq!(
        node.handle(Event::Received { message: Message::NodeExists }),
        Ok(vec![Command::Exit { code: 1 }])
    );
    assert_eq!(
        node.handle(Event::Received { message: Message::RingIsFull }),
        Ok(vec![Command::Exit { code: 1 }])
    );
    assert_eq!(
        node.handle(Event::Received { message: Message::Kys }),
        Ok(vec![Command::Sleep { millis: 1000 }, Command::Exit { code: 1 }])
    );
    for unexpected in [
        Message::Pong,
        Message::Success { message: s("ok") },
        Message::Joined { node_id: s("x") },
        Message::CheckNode { node_id: s("x") },
        Message::LookupRes { key: s("k"), hops: 0, data: None },
    ] {
        let before = node.node_state.clone();
        assert_eq!(node.handle(Event::Received { message: unexpected }), Ok(vec![]));
        assert_eq!(node.node_state, before);
    }
    assert_eq!(
        node.handle(Event::Received { message: Message::LookupReq { key: s("key3"), hops: 0 } }),
        lookup_req_handler(&node.node_state.clone(), s("key3"), 0, RING, 8)
    );
    assert_eq!(
        node.handle(Event::JoinRequested),
        Ok(vec![send(RING, Message::ReqKnownNode { node_id: s(N100) }, None)])
    );
}

#[test]
fn a_node_turns_failures_into_errors() {
    let mut node = Node::new(s(N100), 8, 3);
    node.req_known_node(s(RING));
    let failed = |node: &mut Node, pending: Pending| {
        node.handle(Event::Completed { pending, outcome: Outcome::Failed })
    };
    assert_eq!(failed(&mut node, Pending::Delivery), Err(ChordError::TransportError));
    assert_eq!(failed(&mut node, Pending::Write), Err(ChordError::StoreError));
    assert_eq!(failed(&mut node, Pending::JoinCheck), Err(ChordError::TransportError));
    assert_eq!(failed(&mut node, Pending::JoinRegistered), Err(ChordError::TransportError));
    assert_eq!(failed(&mut node, Pending::LeaveClear), Err(ChordError::StoreError));
    assert_eq!(
        failed(&mut node, Pending::JoinReply { joiner: s("a"), old_successor: s("b") }),
        Err(ChordError::TransportError)
    );
    assert_eq!(
        failed(&mut node, Pending::LookupRecords { key: s("k"), hops: 0 }),
        Err(ChordError::StoreError)
    );
    assert_eq!(
        failed(&mut node, Pending::NotifyRecords { sender: s("a"), range: KeyRange::All }),
        Err(ChordError::StoreError)
    );
    assert_eq!(
        failed(&mut node, Pending::NotifyTransfer { range: KeyRange::All }),
        Err(ChordError::TransportError)
    );
    assert_eq!(
        failed(&mut node, Pending::LeaveRecords { successor: s("a"), predecessor: s("b") }),
        Err(ChordError::StoreError)
    );
    assert_eq!(
        failed(&mut node, Pending::JoinRequest { contact: s(N200) }),
        Ok(vec![send(RING, Message::CheckNode { node_id: s(N200) }, Some(Pending::JoinCheck))])
    );
    assert_eq!(
        node.handle(Event::Completed { pending: Pending::Delivery, outcome: Outcome::Done }),
        Ok(vec![])
    );
}

#[test]
fn a_report_that_does_not_fit_is_refused() {
    let mut node = Node::new(s(N100), 8, 3);
    let before = node.node_state.clone();
    assert_eq!(
        node.handle(Event::Completed {
            pending: Pending::Delivery,
            outcome: Outcome::Records { records: vec![] }
        }),
        Err(ChordError::ProtocolError)
    );
    assert_eq!(
        node.handle(Event::Completed {
            pending: Pending::LeaveClear,
            outcome: Outcome::Successors { list: vec![] }
        }),
        Err(ChordError::ProtocolError)
    );
    assert_eq!(
        node.handle(Event::Completed {
            pending: Pending::LookupRecords { key: s("k"), hops: 0 },
            outcome: Outcome::Done
        }),
        Err(ChordError::ProtocolError)
    );
    assert_eq!(
        node.handle(Event::Completed {
            pending: Pending::StabilizeSuccessors { immediate: s("a") },
            outcome: Outcome::Done
        }),
        Err(ChordError::ProtocolError)
    );
    assert_eq!(node.node_state, before);
}

#[test]
fn store_requests_of_a_node() {
    let node = Node::new(s(N100), 8, 3);
    assert_eq!(node.select_specific_data(s("k")), StoreOp::SelectKey { key: s("k") });
    assert_eq!(
        node.select_data(Some(1), Some(2)),
        StoreOp::Select { range: KeyRange::Span { start: 1, end: 2 } }
    );
    assert_eq!(
        node.select_data(Some(2), Some(1)),
        StoreOp::Select { range: KeyRange::Wrap { start: 2, end: 1 } }
    );
    assert_eq!(node.select_data(None, None), StoreOp::Select { range: KeyRange::All });
    assert_eq!(
        node.remove_data(Some(1), Some(2)),
        StoreOp::Delete { range: KeyRange::Span { start: 1, end: 2 } }
    );
    assert_eq!(node.remove_data(None, Some(2)), StoreOp::Delete { range: KeyRange::All });
    assert_eq!(
        node.insert_batch_data(vec![Data::new("foo", "bar")]),
        StoreOp::Insert { rows: vec![Row { key: s("foo"), value: s("bar"), keyhash: 143 }] }
    );
    assert_eq!(node.leave(), Ok(vec![]));
}
