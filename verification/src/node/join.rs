//! Joining: a node learns of a contact from the coordinator, asks the ring
//! for its place through that contact, and takes the place it is given.

use crate::command::{nothing, only, ChordError, Command, CommandView};
use crate::hash::{hash, spec_hash};
use crate::msg::{Message, MessageView};
use crate::node::pending::{Pending, PendingView};
use crate::node::{shown, Commands, Script, Step};
use crate::node_state::{NodeState, NodeStateView};
use crate::ring::{between, is_between};
use crate::succ_table::empty_slots;
use vstd::prelude::*;

verus! {

/// How long a joiner waits before it asks the coordinator for another
/// contact, in milliseconds.
pub const JOIN_RETRY_DELAY_MS: u64 = 500;

/// The answer of a joiner to the contact that the coordinator named: it
/// asks the contact for its place, unless the contact is the joiner itself,
/// which then is the only node of the ring.
pub open spec fn known_node_reply(ns: NodeStateView, contact: Seq<char>) -> Script {
    if contact != ns.id {
        seq![
            CommandView::Send {
                to: contact,
                message: MessageView::ReqJoin { node_id: ns.id },
                pending: Some(PendingView::JoinRequest { contact }),
            },
        ]
    } else {
        Seq::empty()
    }
}

/// Answers the contact that the coordinator named to a joiner.
pub fn known_node_handler(ns: &NodeState, node_id: String) -> (commands: Commands)
    ensures
        commands.deep_view() == known_node_reply(ns@, node_id@),
{
    if node_id != ns.id {
        only(
            Command::Send {
                to: node_id.clone(),
                message: Message::ReqJoin { node_id: ns.id.clone() },
                pending: Some(Pending::JoinRequest { contact: node_id }),
            },
        )
    } else {
        nothing()
    }
}

/// The contact could not be reached: the joiner asks the coordinator to
/// test it.
pub fn join_request_failed(contact: String, chord_ring: &str) -> (commands: Commands)
    ensures
        commands.deep_view() == seq![
            CommandView::Send {
                to: chord_ring@,
                message: MessageView::CheckNode { node_id: contact@ },
                pending: Some(PendingView::JoinCheck),
            },
        ],
{
    only(
        Command::Send {
            to: chord_ring.to_owned(),
            message: Message::CheckNode { node_id: contact },
            pending: Some(Pending::JoinCheck),
        },
    )
}

/// The coordinator has heard of the unreachable contact: the joiner waits
/// and then asks it for a contact again.
pub fn join_check_delivered(ns: &NodeState, chord_ring: &str) -> (commands: Commands)
    ensures
        commands.deep_view() == seq![
            CommandView::Sleep { millis: JOIN_RETRY_DELAY_MS },
            CommandView::Send {
                to: chord_ring@,
                message: MessageView::ReqKnownNode { node_id: ns@.id },
                pending: Some(PendingView::Delivery),
            },
        ],
{
    let mut commands: Commands = Vec::new();
    commands.push(Command::Sleep { millis: JOIN_RETRY_DELAY_MS });
    commands.push(
        Command::Send {
            to: chord_ring.to_owned(),
            message: Message::ReqKnownNode { node_id: ns.id.clone() },
            pending: Some(Pending::Delivery),
        },
    );
    assert(commands.deep_view() =~= seq![
        CommandView::Sleep { millis: JOIN_RETRY_DELAY_MS },
        CommandView::Send {
            to: chord_ring@,
            message: MessageView::ReqKnownNode { node_id: ns@.id },
            pending: Some(PendingView::Delivery),
        },
    ]);
    commands
}

/// What a node does with a join request. Without an immediate successor it
/// gives up. A joiner whose identifier is the node's or its successor's is
/// told that it exists already. A joiner whose identifier lies on the arc
/// from the node to its successor becomes the node's immediate successor
/// and is sent its place. Any other request goes on to the successor.
pub open spec fn req_join_step(ns: NodeStateView, joiner: Seq<char>, m: u32) -> Step {
    match ns.successor[0] {
        None => Step { state: ns, reply: Err(ChordError::NotInRing) },
        Some(successor) => {
            let own = spec_hash(ns.id, m as nat) as int;
            let next = spec_hash(successor, m as nat) as int;
            let new = spec_hash(joiner, m as nat) as int;
            if own == new || next == new {
                Step {
                    state: ns,
                    reply: Ok(
                        seq![
                            CommandView::Send {
                                to: joiner,
                                message: MessageView::NodeExists,
                                pending: None,
                            },
                        ],
                    ),
                }
            } else if between(own, new, next) {
                Step {
                    state: NodeStateView {
                        successor: ns.successor.update(0, Some(joiner)),
                        ..ns
                    },
                    reply: Ok(
                        seq![
                            CommandView::Send {
                                to: joiner,
                                message: MessageView::ResJoin {
                                    node_id: successor,
                                    sender_id: ns.id,
                                },
                                pending: Some(
                                    PendingView::JoinReply { joiner, old_successor: successor },
                                ),
                            },
                        ],
                    ),
                }
            } else {
                Step {
                    state: ns,
                    reply: Ok(
                        seq![
                            CommandView::Send {
                                to: successor,
                                message: MessageView::ReqJoin { node_id: joiner },
                                pending: Some(PendingView::Delivery),
                            },
                        ],
                    ),
                }
            }
        },
    }
}

/// Answers a join request: refuses it, admits the joiner, or passes it on.
pub fn req_join_handler(ns: &mut NodeState, node_id: String, m: u32) -> (reply: Result<
    Commands,
    ChordError,
>)
    requires
        old(ns).wf(m),
    ensures
        final(ns).wf(m),
        final(ns)@ == req_join_step(old(ns)@, node_id@, m).state,
        shown(reply) == req_join_step(old(ns)@, node_id@, m).reply,
{
    let successor = match ns.successor.get_first() {
        Some(s) => s.clone(),
        None => {
            return Err(ChordError::NotInRing);
        },
    };
    let hash_node_id = hash(ns.id.as_str(), m);
    let hash_successor_id = hash(successor.as_str(), m);
    let hash_joining_node = hash(node_id.as_str(), m);
    if hash_node_id == hash_joining_node || hash_successor_id == hash_joining_node {
        Ok(only(Command::Send { to: node_id, message: Message::NodeExists, pending: None }))
    } else if is_between(hash_node_id, hash_joining_node, hash_successor_id) {
        ns.successor.insert_first(node_id.clone());
        Ok(
            only(
                Command::Send {
                    to: node_id.clone(),
                    message: Message::ResJoin {
                        node_id: successor.clone(),
                        sender_id: ns.id.clone(),
                    },
                    pending: Some(
                        Pending::JoinReply { joiner: node_id, old_successor: successor },
                    ),
                },
            ),
        )
    } else {
        Ok(
            only(
                Command::Send {
                    to: successor,
                    message: Message::ReqJoin { node_id },
                    pending: Some(Pending::Delivery),
                },
            ),
        )
    }
}

/// The joiner has its place: its old successor hears of its new
/// predecessor.
pub fn join_reply_delivered(joiner: String, old_successor: String) -> (commands: Commands)
    ensures
        commands.deep_view() == seq![
            CommandView::Send {
                to: old_successor@,
                message: MessageView::Notify { node_id: joiner@ },
                pending: Some(PendingView::Delivery),
            },
        ],
{
    only(
        Command::Send {
            to: old_successor,
            message: Message::Notify { node_id: joiner },
            pending: Some(Pending::Delivery),
        },
    )
}

/// What a joiner does with its place: it forgets its successors, makes the
/// given node its immediate successor, and asks that node for its own
/// successors.
pub open spec fn res_join_step(ns: NodeStateView, successor: Seq<char>, sender: Seq<char>) -> Step {
    Step {
        state: NodeStateView {
            successor: empty_slots(ns.successor.len()).update(0, Some(successor)),
            ..ns
        },
        reply: Ok(
            seq![
                CommandView::FetchSuccessors {
                    from: successor,
                    pending: PendingView::JoinSuccessors { sender },
                },
            ],
        ),
    }
}

/// Takes the place that a joiner is given.
pub fn res_join_handler(ns: &mut NodeState, node_id: String, sender_id: String, m: u32) -> (commands:
    Commands)
    requires
        old(ns).wf(m),
    ensures
        final(ns).wf(m),
        final(ns)@ == res_join_step(old(ns)@, node_id@, sender_id@).state,
        res_join_step(
            old(ns)@,
            node_id@,
            sender_id@,
        ).reply == shown(Ok(commands)),
{
    ns.successor.clear();
    ns.successor.insert_first(node_id.clone());
    only(
        Command::FetchSuccessors {
            from: node_id,
            pending: Pending::JoinSuccessors { sender: sender_id },
        },
    )
}

/// The successor list after the followers that the new successor named are
/// put behind it: follower `i` goes to slot `i + 1`, as far as there are
/// slots.
pub open spec fn with_followers(
    slots: Seq<Option<Seq<char>>>,
    followers: Seq<Seq<char>>,
) -> Seq<Option<Seq<char>>> {
    Seq::new(
        slots.len(),
        |j: int|
            if 1 <= j <= followers.len() {
                Some(followers[j - 1])
            } else {
                slots[j]
            },
    )
}

/// What a joiner does once its new successor has answered, or has failed
/// to: it takes over the followers that were named, makes the node that
/// admitted it its predecessor, and registers with the coordinator.
pub open spec fn join_successors_step(
    ns: NodeStateView,
    followers: Option<Seq<Seq<char>>>,
    sender: Seq<char>,
    chord_ring: Seq<char>,
) -> Step {
    Step {
        state: NodeStateView {
            successor: match followers {
                Some(list) => with_followers(ns.successor, list),
                None => ns.successor,
            },
            predecessor: Some(sender),
            ..ns
        },
        reply: Ok(
            seq![
                CommandView::Send {
                    to: chord_ring,
                    message: MessageView::ResKnownNode { node_id: ns.id },
                    pending: Some(PendingView::JoinRegistered),
                },
            ],
        ),
    }
}

/// Goes on with a join after the new successor was asked for its
/// successors.
pub fn join_successors_fetched(
    ns: &mut NodeState,
    followers: Option<Vec<String>>,
    sender: String,
    chord_ring: &str,
    m: u32,
) -> (commands: Commands)
    requires
        old(ns).wf(m),
    ensures
        final(ns).wf(m),
        final(ns)@ == join_successors_step(
            old(ns)@,
            followers.deep_view(),
            sender@,
            chord_ring@,
        ).state,
        join_successors_step(
            old(ns)@,
            followers.deep_view(),
            sender@,
            chord_ring@,
        ).reply == shown(Ok(commands)),
{
    match followers {
        Some(list) => {
            let slots = ns.successor.entries.len();
            let ghost before = ns.successor@;
            let mut i: usize = 0;
            while i < list.len() && i + 1 < slots
                invariant
                    slots == before.len(),
                    ns.successor@.len() == slots,
                    ns.id == old(ns).id,
                    ns.predecessor == old(ns).predecessor,
                    ns.finger_table == old(ns).finger_table,
                    i <= list@.len(),
                    i + 1 <= slots || i == 0,
                    forall|j: int|
                        0 <= j < slots ==> #[trigger] ns.successor@[j] == if 1 <= j <= i {
                            Some(list@[j - 1]@)
                        } else {
                            before[j]
                        },
                decreases list@.len() - i,
            {
                ns.successor.insert(i + 1, Some(list[i].clone()));
                i += 1;
            }
            assert(ns.successor@ =~= with_followers(before, list.deep_view()));
        },
        None => {},
    }
    ns.predecessor = Some(sender);
    only(
        Command::Send {
            to: chord_ring.to_owned(),
            message: Message::ResKnownNode { node_id: ns.id.clone() },
            pending: Some(Pending::JoinRegistered),
        },
    )
}

/// The joined node is registered: it starts to fill its finger table, with
/// a question to itself about its first finger.
pub fn join_registered(ns: &NodeState, m: u32) -> (commands: Commands)
    requires
        ns.wf(m),
    ensures
        commands.deep_view() == seq![
            CommandView::Send {
                to: ns@.id,
                message: MessageView::ReqFinger {
                    from: ns@.id,
                    index: ns@.finger_table[0].start as usize,
                },
                pending: Some(PendingView::Delivery),
            },
        ],
{
    only(
        Command::Send {
            to: ns.id.clone(),
            message: Message::ReqFinger {
                from: ns.id.clone(),
                index: ns.finger_table.get_first_entry() as usize,
            },
            pending: Some(Pending::Delivery),
        },
    )
}

} // verus!
