//! Predecessor notification: a node that hears of a closer predecessor
//! adopts it and hands over the records that now belong to it.

use crate::command::{nothing, only, Command, CommandView};
use crate::data::Data;
use crate::hash::{hash, spec_hash};
use crate::msg::{Message, MessageView};
use crate::node::pending::{Pending, PendingView};
use crate::node::{shown, Commands, Script, Step};
use crate::node_state::{NodeState, NodeStateView};
use crate::ring::{between, is_between};
use crate::store::{KeyRange, StoreOp, StoreOpView};
use vstd::prelude::*;

verus! {

/// The identifier from which a node's own arc runs: that of its
/// predecessor, or its own where it has none.
pub open spec fn arc_start(ns: NodeStateView, m: u32) -> int {
    match ns.predecessor {
        Some(predecessor) => spec_hash(predecessor, m as nat) as int,
        None => spec_hash(ns.id, m as nat) as int,
    }
}

/// Whether a node adopts `sender` as its predecessor: the sender's
/// identifier lies on the node's own arc.
pub open spec fn accepts(ns: NodeStateView, sender: Seq<char>, m: u32) -> bool {
    between(arc_start(ns, m), spec_hash(sender, m as nat) as int, spec_hash(ns.id, m as nat) as int)
}

/// The key hashes that pass to a predecessor adopted by [`notify_step`]:
/// those from the old start of the node's arc up to the new predecessor.
pub open spec fn handed_over(ns: NodeStateView, sender: Seq<char>, m: u32) -> KeyRange {
    KeyRange::between_bounds(
        Some(arc_start(ns, m) as u32),
        Some(spec_hash(sender, m as nat) as u32),
    )
}

/// What a node does when `sender` proposes itself as predecessor. A sender
/// off the node's arc is ignored. Any other becomes the predecessor, and
/// the node reads the records that pass to it.
pub open spec fn notify_step(ns: NodeStateView, sender: Seq<char>, m: u32) -> Step {
    if accepts(ns, sender, m) {
        Step {
            state: NodeStateView { predecessor: Some(sender), ..ns },
            reply: Ok(
                seq![
                    CommandView::Store {
                        op: StoreOpView::Select { range: handed_over(ns, sender, m) },
                        pending: Some(
                            PendingView::NotifyRecords {
                                sender,
                                range: handed_over(ns, sender, m),
                            },
                        ),
                    },
                ],
            ),
        }
    } else {
        Step { state: ns, reply: Ok(Seq::empty()) }
    }
}

/// Answers a node that proposes itself as predecessor.
pub fn notify_handler(ns: &mut NodeState, node_id: String, m: u32) -> (commands: Commands)
    requires
        old(ns).wf(m),
    ensures
        final(ns).wf(m),
        final(ns)@ == notify_step(old(ns)@, node_id@, m).state,
        notify_step(
            old(ns)@,
            node_id@,
            m,
        ).reply == shown(Ok(commands)),
{
    let hash_node_id = hash(ns.id.as_str(), m);
    let hash_predecessor_id = match &ns.predecessor {
        Some(id) => hash(id.as_str(), m),
        None => hash_node_id,
    };
    let hash_sender = hash(node_id.as_str(), m);
    if !is_between(hash_predecessor_id, hash_sender, hash_node_id) {
        return nothing();
    }
    ns.predecessor = Some(node_id.clone());
    let range = KeyRange::of(Some(hash_predecessor_id), Some(hash_sender));
    only(
        Command::Store {
            op: StoreOp::Select { range },
            pending: Some(Pending::NotifyRecords { sender: node_id, range }),
        },
    )
}

/// The records for a new predecessor are read: they are sent to it, unless
/// there are none.
pub open spec fn transfer_script(
    ns: NodeStateView,
    sender: Seq<char>,
    range: KeyRange,
    records: Seq<crate::data::DataView>,
) -> Script {
    if records.len() == 0 {
        Seq::empty()
    } else {
        seq![
            CommandView::Send {
                to: sender,
                message: MessageView::Data { from: ns.id, data: records },
                pending: Some(PendingView::NotifyTransfer { range }),
            },
        ]
    }
}

/// Sends the records that were read for a new predecessor.
pub fn notify_records_read(ns: &NodeState, sender: String, range: KeyRange, records: Vec<Data>) -> (commands:
    Commands)
    ensures
        commands.deep_view() == transfer_script(ns@, sender@, range, records.deep_view()),
{
    if records.len() == 0 {
        nothing()
    } else {
        only(
            Command::Send {
                to: sender,
                message: Message::Data { from: ns.id.clone(), data: records },
                pending: Some(Pending::NotifyTransfer { range }),
            },
        )
    }
}

/// The records have reached the new predecessor: the node drops them.
pub fn notify_transfer_delivered(range: KeyRange) -> (commands: Commands)
    ensures
        commands.deep_view() == seq![
            CommandView::Store {
                op: StoreOpView::Delete { range },
                pending: Some(PendingView::Write),
            },
        ],
{
    only(Command::Store { op: StoreOp::Delete { range }, pending: Some(Pending::Write) })
}

} // verus!
