//! The messages that nodes and the coordinator exchange.

use crate::data::{clone_records, Data, DataView};
use vstd::prelude::*;

verus! {

/// A message between nodes, or between a node and the coordinator.
#[derive(Debug, PartialEq, Eq)]
#[allow(inconsistent_fields)]
pub enum Message {
    /// A leaving node tells its predecessor who follows it now.
    IAmYourSuccessor { node_id: String },
    /// A leaving node tells its successor who precedes it now.
    IAmYourPredecessor { node_id: String },
    /// A joiner asks the coordinator for a node to join through.
    ReqKnownNode { node_id: String },
    /// The coordinator names a contact to a joiner; a joined node sends
    /// it back to the coordinator, with its own name, to be registered.
    ResKnownNode { node_id: String },
    /// Records handed from one node to another.
    Data { from: String, data: Vec<Data> },
    /// A joiner asks the ring for its place; passed along until it is found.
    ReqJoin { node_id: String },
    /// The place of a joiner: its successor and the node that admitted it.
    ResJoin { node_id: String, sender_id: String },
    /// The ring has as many members as identifiers.
    RingIsFull,
    /// A request was accepted.
    Success { message: String },
    /// A request was not accepted.
    ErrorMessage { error: String },
    /// A lookup on its way to the owner of the key.
    LookupReq { key: String, hops: usize },
    /// The outcome of a lookup, sent to the coordinator.
    LookupRes { key: String, hops: usize, data: Option<Vec<Data>> },
    /// The joiner's name or identifier is taken.
    NodeExists,
    /// A node proposes itself as predecessor.
    Notify { node_id: String },
    /// A node has left the ring.
    Leave { node_id: String },
    /// A node has joined the ring.
    Joined { node_id: String },
    /// Asks who owns a point of the ring; passed along until it is known.
    ReqFinger { from: String, index: usize },
    /// Names the owner of a point of the ring.
    ResFinger { node_id: String, index: usize },
    /// Asks the coordinator to test whether a member can be reached.
    CheckNode { node_id: String },
    /// Asks a node for its successor.
    ReqSuccessor { from: String },
    /// Names a node's successor.
    ResSuccessor { from: String, successor: String },
    /// Asks whether the receiver is alive.
    Ping,
    /// The answer to a ping.
    Pong,
    /// Tells the receiver to shut down.
    Kys,
}

/// What a message says, as text.
#[allow(inconsistent_fields)]
pub enum MessageView {
    IAmYourSuccessor { node_id: Seq<char> },
    IAmYourPredecessor { node_id: Seq<char> },
    ReqKnownNode { node_id: Seq<char> },
    ResKnownNode { node_id: Seq<char> },
    Data { from: Seq<char>, data: Seq<DataView> },
    ReqJoin { node_id: Seq<char> },
    ResJoin { node_id: Seq<char>, sender_id: Seq<char> },
    RingIsFull,
    Success { message: Seq<char> },
    ErrorMessage { error: Seq<char> },
    LookupReq { key: Seq<char>, hops: usize },
    LookupRes { key: Seq<char>, hops: usize, data: Option<Seq<DataView>> },
    NodeExists,
    Notify { node_id: Seq<char> },
    Leave { node_id: Seq<char> },
    Joined { node_id: Seq<char> },
    ReqFinger { from: Seq<char>, index: usize },
    ResFinger { node_id: Seq<char>, index: usize },
    CheckNode { node_id: Seq<char> },
    ReqSuccessor { from: Seq<char> },
    ResSuccessor { from: Seq<char>, successor: Seq<char> },
    Ping,
    Pong,
    Kys,
}

impl DeepView for Message {
    type V = MessageView;

    open spec fn deep_view(&self) -> MessageView {
        match self {
            Message::IAmYourSuccessor { node_id } => MessageView::IAmYourSuccessor { node_id: node_id@ },
            Message::IAmYourPredecessor { node_id } => MessageView::IAmYourPredecessor { node_id: node_id@ },
            Message::ReqKnownNode { node_id } => MessageView::ReqKnownNode { node_id: node_id@ },
            Message::ResKnownNode { node_id } => MessageView::ResKnownNode { node_id: node_id@ },
            Message::Data { from, data } => MessageView::Data { from: from@, data: data.deep_view() },
            Message::ReqJoin { node_id } => MessageView::ReqJoin { node_id: node_id@ },
            Message::ResJoin { node_id, sender_id } => MessageView::ResJoin { node_id: node_id@, sender_id: sender_id@ },
            Message::RingIsFull => MessageView::RingIsFull,
            Message::Success { message } => MessageView::Success { message: message@ },
            Message::ErrorMessage { error } => MessageView::ErrorMessage { error: error@ },
            Message::LookupReq { key, hops } => MessageView::LookupReq { key: key@, hops: *hops },
            Message::LookupRes { key, hops, data } => MessageView::LookupRes { key: key@, hops: *hops, data: data.deep_view() },
            Message::NodeExists => MessageView::NodeExists,
            Message::Notify { node_id } => MessageView::Notify { node_id: node_id@ },
            Message::Leave { node_id } => MessageView::Leave { node_id: node_id@ },
            Message::Joined { node_id } => MessageView::Joined { node_id: node_id@ },
            Message::ReqFinger { from, index } => MessageView::ReqFinger { from: from@, index: *index },
            Message::ResFinger { node_id, index } => MessageView::ResFinger { node_id: node_id@, index: *index },
            Message::CheckNode { node_id } => MessageView::CheckNode { node_id: node_id@ },
            Message::ReqSuccessor { from } => MessageView::ReqSuccessor { from: from@ },
            Message::ResSuccessor { from, successor } => MessageView::ResSuccessor { from: from@, successor: successor@ },
            Message::Ping => MessageView::Ping,
            Message::Pong => MessageView::Pong,
            Message::Kys => MessageView::Kys,
        }
    }
}

impl View for Message {
    type V = MessageView;

    open spec fn view(&self) -> MessageView {
        self.deep_view()
    }
}

/// A copy of an optional batch of records.
pub fn clone_optional_records(records: &Option<Vec<Data>>) -> (r: Option<Vec<Data>>)
    ensures
        r.deep_view() == records.deep_view(),
{
    match records {
        Some(batch) => Some(clone_records(batch)),
        None => None,
    }
}

impl Clone for Message {
    fn clone(&self) -> (r: Self)
        ensures
            r@ == self@,
    {
        match self {
            Message::IAmYourSuccessor { node_id } => Message::IAmYourSuccessor { node_id: node_id.clone() },
            Message::IAmYourPredecessor { node_id } => Message::IAmYourPredecessor { node_id: node_id.clone() },
            Message::ReqKnownNode { node_id } => Message::ReqKnownNode { node_id: node_id.clone() },
            Message::ResKnownNode { node_id } => Message::ResKnownNode { node_id: node_id.clone() },
            Message::Data { from, data } => Message::Data { from: from.clone(), data: clone_records(data) },
            Message::ReqJoin { node_id } => Message::ReqJoin { node_id: node_id.clone() },
            Message::ResJoin { node_id, sender_id } => Message::ResJoin { node_id: node_id.clone(), sender_id: sender_id.clone() },
            Message::RingIsFull => Message::RingIsFull,
            Message::Success { message } => Message::Success { message: message.clone() },
            Message::ErrorMessage { error } => Message::ErrorMessage { error: error.clone() },
            Message::LookupReq { key, hops } => Message::LookupReq { key: key.clone(), hops: *hops },
            Message::LookupRes { key, hops, data } => Message::LookupRes { key: key.clone(), hops: *hops, data: clone_optional_records(data) },
            Message::NodeExists => Message::NodeExists,
            Message::Notify { node_id } => Message::Notify { node_id: node_id.clone() },
            Message::Leave { node_id } => Message::Leave { node_id: node_id.clone() },
            Message::Joined { node_id } => Message::Joined { node_id: node_id.clone() },
            Message::ReqFinger { from, index } => Message::ReqFinger { from: from.clone(), index: *index },
            Message::ResFinger { node_id, index } => Message::ResFinger { node_id: node_id.clone(), index: *index },
            Message::CheckNode { node_id } => Message::CheckNode { node_id: node_id.clone() },
            Message::ReqSuccessor { from } => Message::ReqSuccessor { from: from.clone() },
            Message::ResSuccessor { from, successor } => Message::ResSuccessor { from: from.clone(), successor: successor.clone() },
            Message::Ping => Message::Ping,
            Message::Pong => Message::Pong,
            Message::Kys => Message::Kys,
        }
    }
}

} // verus!
