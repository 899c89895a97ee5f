//! The routing state of one node.

use crate::finger_table::{fingers_of, fresh_fingers, FingerTable, FingerView};
use crate::hash::MAX_BITS;
use crate::succ_table::{empty_slots, SuccTable, SuccView};
use vstd::prelude::*;

verus! {

/// What a node knows of the ring: itself, its neighbours and its fingers.
#[derive(Debug, PartialEq, Eq)]
pub struct NodeState {
    /// The node's own endpoint.
    pub id: String,
    /// The node believed to precede this one on the ring.
    pub predecessor: Option<String>,
    /// The nodes believed to follow this one, nearest first.
    pub successor: SuccTable,
    pub finger_table: FingerTable,
}

/// What a node's routing state holds, as text.
pub struct NodeStateView {
    pub id: Seq<char>,
    pub predecessor: Option<Seq<char>>,
    pub successor: SuccView,
    pub finger_table: FingerView,
}

impl DeepView for NodeState {
    type V = NodeStateView;

    open spec fn deep_view(&self) -> NodeStateView {
        NodeStateView {
            id: self.id@,
            predecessor: self.predecessor.deep_view(),
            successor: self.successor@,
            finger_table: self.finger_table@,
        }
    }
}

impl View for NodeState {
    type V = NodeStateView;

    open spec fn view(&self) -> NodeStateView {
        self.deep_view()
    }
}

/// The state of a node that knows only itself: it is its own predecessor
/// and its own immediate successor, and no finger has an owner.
pub open spec fn alone(id: Seq<char>, m: nat, r: nat) -> NodeStateView {
    NodeStateView {
        id,
        predecessor: Some(id),
        successor: empty_slots(r).update(0, Some(id)),
        finger_table: fresh_fingers(id, m),
    }
}

/// The state is that of a node of an `m`-bit ring: its fingers are its own
/// and its successor list has a first slot.
pub open spec fn valid_state(ns: NodeStateView, m: u32) -> bool {
    &&& 1 <= m <= MAX_BITS
    &&& fingers_of(ns.finger_table, ns.id, m as nat)
    &&& ns.successor.len() >= 1
}

impl Clone for NodeState {
    fn clone(&self) -> (r: Self)
        ensures
            r@ == self@,
    {
        NodeState {
            id: self.id.clone(),
            predecessor: self.predecessor.clone(),
            successor: self.successor.clone(),
            finger_table: self.finger_table.clone(),
        }
    }
}

impl NodeState {
    /// The state is that of a node of a ring of `m` bits.
    pub open spec fn wf(&self, m: u32) -> bool {
        valid_state(self@, m)
    }

    /// The state of the node `id` before it has joined a ring of `m` bits,
    /// with `r` successor slots.
    pub fn new(id: String, m: u32, r: usize) -> (ns: Self)
        requires
            1 <= m <= MAX_BITS,
            r >= 1,
        ensures
            ns@ == alone(id@, m as nat, r as nat),
            ns.wf(m),
    {
        let finger_table = FingerTable::new(id.clone(), m);
        let mut successor = SuccTable::new(r);
        successor.insert_first(id.clone());
        NodeState { id: id.clone(), predecessor: Some(id), successor, finger_table }
    }
}

} // verus!
