//! Finger maintenance: a question about the owner of a point travels along
//! the ring until a node finds the point on the arc to its successor; the
//! answer fills one finger and triggers the question for the next.

use crate::command::{nothing, only, ChordError, Command, CommandView};
use crate::finger_table::{lemma_fingers_keep_starts, next_start, with_owner};
use crate::hash::{hash, spec_hash};
use crate::msg::{Message, MessageView};
use crate::node::pending::{Pending, PendingView};
use crate::node::{shown, Commands, Script, Step};
use crate::node_state::{NodeState, NodeStateView};
use crate::ring::{between, is_between};
use vstd::prelude::*;

verus! {

/// The point of the ring that a finger question names: its index, cut to
/// the 32 bits of an identifier.
pub open spec fn asked_point(index: usize) -> int {
    index as int % 0x1_0000_0000
}

/// What a node does with a question about the owner of a point. Without an
/// immediate successor it does nothing. Where the point lies on the arc
/// from the node to its successor, the successor owns it and the asker is
/// told so. Any other question goes on to the successor.
pub open spec fn finger_req_reply(ns: NodeStateView, from: Seq<char>, index: usize, m: u32) -> Script {
    match ns.successor[0] {
        None => Seq::empty(),
        Some(successor) => {
            let own = spec_hash(ns.id, m as nat) as int;
            let next = spec_hash(successor, m as nat) as int;
            if between(own, asked_point(index), next) {
                seq![
                    CommandView::Send {
                        to: from,
                        message: MessageView::ResFinger { node_id: successor, index },
                        pending: None,
                    },
                ]
            } else {
                seq![
                    CommandView::Send {
                        to: successor,
                        message: MessageView::ReqFinger { from, index },
                        pending: None,
                    },
                ]
            }
        },
    }
}

/// Answers a question about the owner of a point, or passes it on.
pub fn finger_req_handler(ns: &NodeState, from: String, index: usize, m: u32) -> (commands: Commands)
    requires
        ns.wf(m),
    ensures
        commands.deep_view() == finger_req_reply(ns@, from@, index, m),
{
    let successor_id = match ns.successor.get_first() {
        Some(id) => id.clone(),
        None => {
            return nothing();
        },
    };
    let point = (index as u64 % 0x1_0000_0000) as u32;
    if is_between(hash(ns.id.as_str(), m), point, hash(successor_id.as_str(), m)) {
        only(
            Command::Send {
                to: from,
                message: Message::ResFinger { node_id: successor_id, index },
                pending: None,
            },
        )
    } else {
        only(
            Command::Send {
                to: successor_id,
                message: Message::ReqFinger { from, index },
                pending: None,
            },
        )
    }
}

/// What a node does with the owner of a point. An index that is no
/// identifier is refused. The owner is recorded for the finger that starts
/// at the point; where a finger follows that one and starts elsewhere, the
/// node asks itself for its owner.
pub open spec fn finger_res_step(ns: NodeStateView, owner: Seq<char>, index: usize) -> Step {
    if index > u32::MAX {
        Step { state: ns, reply: Err(ChordError::ProtocolError) }
    } else {
        let fingers = with_owner(ns.finger_table, index as u32, owner);
        Step {
            state: NodeStateView { finger_table: fingers, ..ns },
            reply: Ok(
                match next_start(fingers, index as u32) {
                    Some(next) => if next != index {
                        seq![
                            CommandView::Send {
                                to: ns.id,
                                message: MessageView::ReqFinger {
                                    from: ns.id,
                                    index: next as usize,
                                },
                                pending: Some(PendingView::Delivery),
                            },
                        ]
                    } else {
                        Seq::empty()
                    },
                    None => Seq::empty(),
                },
            ),
        }
    }
}

/// Records the owner of a point and asks for the next finger.
pub fn finger_res_handler(ns: &mut NodeState, node_id: String, index: usize, m: u32) -> (reply:
    Result<Commands, ChordError>)
    requires
        old(ns).wf(m),
    ensures
        final(ns).wf(m),
        final(ns)@ == finger_res_step(old(ns)@, node_id@, index).state,
        shown(reply) == finger_res_step(old(ns)@, node_id@, index).reply,
{
    if index > u32::MAX as usize {
        return Err(ChordError::ProtocolError);
    }
    let start = index as u32;
    proof {
        lemma_fingers_keep_starts(ns.finger_table@, ns.id@, m as nat, start, node_id@);
    }
    ns.finger_table.update_entry(start, node_id);
    match ns.finger_table.get_next_entry(start) {
        Some(next_index) => {
            if next_index != start {
                Ok(
                    only(
                        Command::Send {
                            to: ns.id.clone(),
                            message: Message::ReqFinger {
                                from: ns.id.clone(),
                                index: next_index as usize,
                            },
                            pending: Some(Pending::Delivery),
                        },
                    ),
                )
            } else {
                Ok(nothing())
            }
        },
        None => Ok(nothing()),
    }
}

/// The periodic refresh of the fingers: a node that has an immediate
/// successor, be it the node itself, puts the question for its first
/// finger into its own mailbox.
pub open spec fn refresh_reply(ns: NodeStateView) -> Script {
    match ns.successor[0] {
        Some(successor) => seq![
            CommandView::Enqueue {
                message: MessageView::ReqFinger {
                    from: ns.id,
                    index: ns.finger_table[0].start as usize,
                },
            },
        ],
        None => Seq::empty(),
    }
}

/// Starts a refresh of the finger table.
pub fn refresh_fingers(ns: &NodeState, m: u32) -> (commands: Commands)
    requires
        ns.wf(m),
    ensures
        commands.deep_view() == refresh_reply(ns@),
{
    match ns.successor.get_first() {
        Some(_) => only(
            Command::Enqueue {
                message: Message::ReqFinger {
                    from: ns.id.clone(),
                    index: ns.finger_table.get_first_entry() as usize,
                },
            },
        ),
        None => nothing(),
    }
}

} // verus!
