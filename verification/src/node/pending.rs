//! The commands in flight that a node has to hear of again.

use crate::store::KeyRange;
use vstd::prelude::*;

verus! {

/// What a node is waiting for: one value for each command whose end the
/// node has to learn. It holds what the node needs to go on.
#[derive(Debug, PartialEq, Eq)]
pub enum Pending {
    /// A message that has to arrive; nothing follows it.
    Delivery,
    /// A store request that has to succeed; nothing follows it.
    Write,
    /// The request to the coordinator with which a node starts to join;
    /// `retries` attempts are left, this one included.
    Announce { retries: u32 },
    /// The join request sent to the contact that the coordinator named.
    JoinRequest { contact: String },
    /// The request to the coordinator to test an unreachable contact.
    JoinCheck,
    /// The place sent to a joiner; its old successor is told next.
    JoinReply { joiner: String, old_successor: String },
    /// The successor list asked of the new successor of a joiner.
    JoinSuccessors { sender: String },
    /// The registration of a joined node with the coordinator.
    JoinRegistered,
    /// The records read for a lookup that ends at this node.
    LookupRecords { key: String, hops: usize },
    /// A lookup passed on to `candidates[tried]`; the candidates behind
    /// it are tried if it cannot be reached.
    LookupForward { key: String, hops: usize, candidates: Vec<String>, tried: usize },
    /// The records read for a new predecessor.
    NotifyRecords { sender: String, range: KeyRange },
    /// The records sent to a new predecessor; they are dropped next.
    NotifyTransfer { range: KeyRange },
    /// All records, read to hand them over before leaving.
    LeaveRecords { successor: String, predecessor: String },
    /// The emptying of the store of a leaving node.
    LeaveClear,
    /// A ping of the successor in slot `index`.
    StabilizeProbe { index: usize, node: String },
    /// The successor list asked of the immediate successor.
    StabilizeSuccessors { immediate: String },
    /// A ping of `candidates[probed]`, a follower named by the
    /// immediate successor; `admitted` are those that answered so far.
    StabilizeAdmit { immediate: String, candidates: Vec<String>, probed: usize, admitted: Vec<String> },
}

/// What a node is waiting for, as text.
pub enum PendingView {
    Delivery,
    Write,
    Announce { retries: u32 },
    JoinRequest { contact: Seq<char> },
    JoinCheck,
    JoinReply { joiner: Seq<char>, old_successor: Seq<char> },
    JoinSuccessors { sender: Seq<char> },
    JoinRegistered,
    LookupRecords { key: Seq<char>, hops: usize },
    LookupForward { key: Seq<char>, hops: usize, candidates: Seq<Seq<char>>, tried: usize },
    NotifyRecords { sender: Seq<char>, range: KeyRange },
    NotifyTransfer { range: KeyRange },
    LeaveRecords { successor: Seq<char>, predecessor: Seq<char> },
    LeaveClear,
    StabilizeProbe { index: usize, node: Seq<char> },
    StabilizeSuccessors { immediate: Seq<char> },
    StabilizeAdmit { immediate: Seq<char>, candidates: Seq<Seq<char>>, probed: usize, admitted: Seq<Seq<char>> },
}

impl DeepView for Pending {
    type V = PendingView;

    open spec fn deep_view(&self) -> PendingView {
        match self {
            Pending::Delivery => PendingView::Delivery,
            Pending::Write => PendingView::Write,
            Pending::Announce { retries } => PendingView::Announce { retries: *retries },
            Pending::JoinRequest { contact } => PendingView::JoinRequest { contact: contact@ },
            Pending::JoinCheck => PendingView::JoinCheck,
            Pending::JoinReply { joiner, old_successor } => PendingView::JoinReply { joiner: joiner@, old_successor: old_successor@ },
            Pending::JoinSuccessors { sender } => PendingView::JoinSuccessors { sender: sender@ },
            Pending::JoinRegistered => PendingView::JoinRegistered,
            Pending::LookupRecords { key, hops } => PendingView::LookupRecords { key: key@, hops: *hops },
            Pending::LookupForward { key, hops, candidates, tried } => PendingView::LookupForward { key: key@, hops: *hops, candidates: candidates.deep_view(), tried: *tried },
            Pending::NotifyRecords { sender, range } => PendingView::NotifyRecords { sender: sender@, range: *range },
            Pending::NotifyTransfer { range } => PendingView::NotifyTransfer { range: *range },
            Pending::LeaveRecords { successor, predecessor } => PendingView::LeaveRecords { successor: successor@, predecessor: predecessor@ },
            Pending::LeaveClear => PendingView::LeaveClear,
            Pending::StabilizeProbe { index, node } => PendingView::StabilizeProbe { index: *index, node: node@ },
            Pending::StabilizeSuccessors { immediate } => PendingView::StabilizeSuccessors { immediate: immediate@ },
            Pending::StabilizeAdmit { immediate, candidates, probed, admitted } => PendingView::StabilizeAdmit { immediate: immediate@, candidates: candidates.deep_view(), probed: *probed, admitted: admitted.deep_view() },
        }
    }
}

impl View for Pending {
    type V = PendingView;

    open spec fn view(&self) -> PendingView {
        self.deep_view()
    }
}

} // verus!
