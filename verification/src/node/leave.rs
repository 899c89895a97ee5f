//! Leaving: a node hands its records to its successor, joins its two
//! neighbours to each other, tells the coordinator, and forgets the ring.
//! Other nodes pass the news of a departure along the ring.

use crate::command::{nothing, only, ChordError, Command, CommandView};
use crate::data::Data;
use crate::finger_table::{lemma_fingers_keep_starts, without_owners};
use crate::msg::{Message, MessageView};
use crate::node::pending::{Pending, PendingView};
use crate::node::{shown, Commands, Script};
use crate::node_state::{NodeState, NodeStateView};
use crate::store::{KeyRange, StoreOp, StoreOpView};
use crate::succ_table::empty_slots;
use vstd::prelude::*;

verus! {

/// What a node does with the news that `node` has left: it passes the news
/// to its immediate successor, unless that is the node that left.
pub open spec fn leave_reply(ns: NodeStateView, node: Seq<char>) -> Script {
    match ns.successor[0] {
        Some(successor) => if successor != node {
            seq![
                CommandView::Send {
                    to: successor,
                    message: MessageView::Leave { node_id: node },
                    pending: Some(PendingView::Delivery),
                },
            ]
        } else {
            Seq::empty()
        },
        None => Seq::empty(),
    }
}

/// Passes the news of a departure on.
pub fn leave_handler(ns: &NodeState, node_id: String, m: u32) -> (commands: Commands)
    requires
        ns.wf(m),
    ensures
        commands.deep_view() == leave_reply(ns@, node_id@),
{
    match ns.successor.get_first() {
        Some(successor) => {
            if *successor != node_id {
                only(
                    Command::Send {
                        to: successor.clone(),
                        message: Message::Leave { node_id },
                        pending: Some(Pending::Delivery),
                    },
                )
            } else {
                nothing()
            }
        },
        None => nothing(),
    }
}

/// How a node starts to leave. It needs both its immediate successor and
/// its predecessor. A node that is its own immediate successor is alone and
/// has nothing to do. Any other node reads all its records, to hand them
/// over.
pub open spec fn leave_start(ns: NodeStateView) -> Result<Script, ChordError> {
    match (ns.successor[0], ns.predecessor) {
        (Some(successor), Some(predecessor)) => if successor != ns.id {
            Ok(
                seq![
                    CommandView::Store {
                        op: StoreOpView::Select { range: KeyRange::All },
                        pending: Some(PendingView::LeaveRecords { successor, predecessor }),
                    },
                ],
            )
        } else {
            Ok(Seq::empty())
        },
        _ => Err(ChordError::NotInRing),
    }
}

/// Starts to leave the ring.
pub fn leave(ns: &NodeState, m: u32) -> (reply: Result<Commands, ChordError>)
    requires
        ns.wf(m),
    ensures
        shown(reply) == leave_start(ns@),
{
    let successor = match ns.successor.get_first() {
        Some(s) => s.clone(),
        None => {
            return Err(ChordError::NotInRing);
        },
    };
    let predecessor = match &ns.predecessor {
        Some(p) => p.clone(),
        None => {
            return Err(ChordError::NotInRing);
        },
    };
    if successor != ns.id {
        Ok(
            only(
                Command::Store {
                    op: StoreOp::Select { range: KeyRange::All },
                    pending: Some(Pending::LeaveRecords { successor, predecessor }),
                },
            ),
        )
    } else {
        Ok(nothing())
    }
}

/// The farewell of a leaving node, once its records are read: the records
/// go to the successor, the successor learns its new predecessor, the
/// predecessor its new successor, the coordinator hears of the departure,
/// and the store is emptied. Only the last has to succeed.
pub open spec fn farewell(
    ns: NodeStateView,
    successor: Seq<char>,
    predecessor: Seq<char>,
    records: Seq<crate::data::DataView>,
    chord_ring: Seq<char>,
) -> Script {
    seq![
        CommandView::Send {
            to: successor,
            message: MessageView::Data { from: ns.id, data: records },
            pending: None,
        },
        CommandView::Send {
            to: successor,
            message: MessageView::IAmYourPredecessor { node_id: predecessor },
            pending: None,
        },
        CommandView::Send {
            to: predecessor,
            message: MessageView::IAmYourSuccessor { node_id: successor },
            pending: None,
        },
        CommandView::Send {
            to: chord_ring,
            message: MessageView::Leave { node_id: ns.id },
            pending: None,
        },
        CommandView::Store {
            op: StoreOpView::Delete { range: KeyRange::All },
            pending: Some(PendingView::LeaveClear),
        },
    ]
}

/// Says farewell, with the records that were read.
pub fn leave_records_read(
    ns: &NodeState,
    successor: String,
    predecessor: String,
    records: Vec<Data>,
    chord_ring: &str,
) -> (commands: Commands)
    ensures
        commands.deep_view() == farewell(
            ns@,
            successor@,
            predecessor@,
            records.deep_view(),
            chord_ring@,
        ),
{
    let ghost shown_records = records.deep_view();
    let mut commands: Commands = Vec::new();
    commands.push(
        Command::Send {
            to: successor.clone(),
            message: Message::Data { from: ns.id.clone(), data: records },
            pending: None,
        },
    );
    commands.push(
        Command::Send {
            to: successor.clone(),
            message: Message::IAmYourPredecessor { node_id: predecessor.clone() },
            pending: None,
        },
    );
    commands.push(
        Command::Send {
            to: predecessor,
            message: Message::IAmYourSuccessor { node_id: successor },
            pending: None,
        },
    );
    commands.push(
        Command::Send {
            to: chord_ring.to_owned(),
            message: Message::Leave { node_id: ns.id.clone() },
            pending: None,
        },
    );
    commands.push(
        Command::Store {
            op: StoreOp::Delete { range: KeyRange::All },
            pending: Some(Pending::LeaveClear),
        },
    );
    assert(commands.deep_view() =~= farewell(
        ns@,
        successor@,
        predecessor@,
        shown_records,
        chord_ring@,
    ));
    commands
}

/// The state of a node that has left: it is its own successor and
/// predecessor again, and its fingers have no owners.
pub open spec fn departed(ns: NodeStateView) -> NodeStateView {
    NodeStateView {
        id: ns.id,
        predecessor: Some(ns.id),
        successor: empty_slots(ns.successor.len()).update(0, Some(ns.id)),
        finger_table: without_owners(ns.finger_table),
    }
}

/// The store of the leaving node is empty: the node forgets the ring.
pub fn leave_cleared(ns: &mut NodeState, m: u32)
    requires
        old(ns).wf(m),
    ensures
        final(ns).wf(m),
        final(ns)@ == departed(old(ns)@),
{
    proof {
        lemma_fingers_keep_starts(ns.finger_table@, ns.id@, m as nat, 0, ns.id@);
    }
    ns.successor.clear();
    ns.successor.insert_first(ns.id.clone());
    ns.predecessor = Some(ns.id.clone());
    ns.finger_table.clear();
}

} // verus!
