//! What a node answers at once when it is asked from outside: whether a
//! message is answered or queued, and what it reports of its neighbours.

use crate::command::{only, Command, CommandView};
use crate::msg::{Message, MessageView};
use crate::node::pending::PendingView;
use crate::node::Commands;
use crate::node_state::NodeState;
use crate::succ_table::SuccView;
use vstd::prelude::*;

verus! {

/// What becomes of a message that arrives at a node.
#[derive(Debug, PartialEq, Eq)]
pub enum Ingress {
    /// It is answered at once with `message`.
    Reply { message: Message },
    /// It goes into the node's mailbox.
    Accept { message: Message },
}

/// What becomes of an arriving message, as text.
pub enum IngressView {
    Reply { message: MessageView },
    Accept { message: MessageView },
}

impl DeepView for Ingress {
    type V = IngressView;

    open spec fn deep_view(&self) -> IngressView {
        match self {
            Ingress::Reply { message } => IngressView::Reply { message: message@ },
            Ingress::Accept { message } => IngressView::Accept { message: message@ },
        }
    }
}

impl View for Ingress {
    type V = IngressView;

    open spec fn view(&self) -> IngressView {
        self.deep_view()
    }
}

/// A ping is answered at once with a pong; every other message is queued
/// for the node's handler.
pub fn handle_message(message: Message) -> (ingress: Ingress)
    ensures
        ingress@ == if message@ == MessageView::Ping {
            IngressView::Reply { message: MessageView::Pong }
        } else {
            IngressView::Accept { message: message@ }
        },
{
    match message {
        Message::Ping => Ingress::Reply { message: Message::Pong },
        other => Ingress::Accept { message: other },
    }
}

/// The answer to the sender of a message that was queued, or that could
/// not be queued for the reason given.
pub fn acknowledge(failure: Option<String>) -> (answer: Message)
    ensures
        answer@ == match failure {
            None => MessageView::Success { message: "Message sent successfully"@ },
            Some(error) => MessageView::ErrorMessage { error: error@ },
        },
{
    match failure {
        None => Message::Success { message: "Message sent successfully".to_owned() },
        Some(error) => Message::ErrorMessage { error },
    }
}

/// The successors that the list holds, in slot order: the first `n` slots
/// with the empty ones left out.
pub open spec fn occupied(slots: SuccView, n: nat) -> Seq<Seq<char>>
    decreases n,
{
    if n == 0 {
        Seq::empty()
    } else {
        match slots[n - 1] {
            Some(successor) => occupied(slots, (n - 1) as nat).push(successor),
            None => occupied(slots, (n - 1) as nat),
        }
    }
}

/// The successors of the node, nearest first.
pub fn handle_successors(ns: &NodeState) -> (successors: Vec<String>)
    ensures
        successors.deep_view() == occupied(ns@.successor, ns@.successor.len()),
{
    let entries = &ns.successor.entries;
    let mut successors: Vec<String> = Vec::new();
    assert(successors.deep_view() =~= Seq::<Seq<char>>::empty());
    let mut i: usize = 0;
    while i < entries.len()
        invariant
            entries == &ns.successor.entries,
            i <= entries@.len(),
            successors.deep_view() == occupied(ns@.successor, i as nat),
        decreases entries@.len() - i,
    {
        assert(ns@.successor[i as int] == entries@[i as int].deep_view());
        let ghost before = successors.deep_view();
        match &entries[i] {
            Some(successor) => {
                successors.push(successor.clone());
                assert(successors.deep_view() =~= before.push(successor@));
            },
            None => {},
        }
        i += 1;
    }
    successors
}

/// The predecessor of the node.
pub fn handle_predecessor(ns: &NodeState) -> (predecessor: Option<String>)
    ensures
        predecessor.deep_view() == ns@.predecessor,
{
    ns.predecessor.clone()
}

/// Asks the coordinator at `chord_ring` for a contact to join through.
/// Failure is of no consequence.
pub fn handle_join(ns: &NodeState, chord_ring: &str) -> (commands: Commands)
    ensures
        commands.deep_view() == seq![
            CommandView::Send {
                to: chord_ring@,
                message: MessageView::ReqKnownNode { node_id: ns@.id },
                pending: None::<PendingView>,
            },
        ],
{
    only(
        Command::Send {
            to: chord_ring.to_owned(),
            message: Message::ReqKnownNode { node_id: ns.id.clone() },
            pending: None,
        },
    )
}

} // verus!
