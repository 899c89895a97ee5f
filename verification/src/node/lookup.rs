//! Lookup routing: a lookup ends at the node on whose arc the key lies;
//! every other node passes it on, to its successor or along a finger.

use crate::command::{only, ChordError, Command, CommandView};
use crate::data::Data;
use crate::finger_table::{FingerTable, FingerView};
use crate::hash::{hash, spec_hash};
use crate::msg::{Message, MessageView};
use crate::node::pending::{Pending, PendingView};
use crate::node::{shown, Commands, Script};
use crate::node_state::{NodeState, NodeStateView};
use crate::ring::{between, is_between};
use crate::store::{StoreOp, StoreOpView};
use vstd::prelude::*;

verus! {

/// The owner of the first finger, at index `from` or behind it, that is
/// known and whose start and the next finger's start enclose `key`.
pub open spec fn covering_owner(fingers: FingerView, key: int, from: int) -> Option<Seq<char>>
    decreases fingers.len() - from,
{
    if from < 0 || from + 1 >= fingers.len() {
        None
    } else if between(fingers[from].start as int, key, fingers[from + 1].start as int)
        && fingers[from].id is Some {
        fingers[from].id
    } else {
        covering_owner(fingers, key, from + 1)
    }
}

/// The known owners of the first `n` fingers, last finger first.
pub open spec fn owners_reversed(fingers: FingerView, n: nat) -> Seq<Seq<char>>
    decreases n,
{
    if n == 0 {
        Seq::empty()
    } else {
        match fingers[n - 1].id {
            Some(owner) => seq![owner] + owners_reversed(fingers, (n - 1) as nat),
            None => owners_reversed(fingers, (n - 1) as nat),
        }
    }
}

/// The nodes to which a lookup is passed along the fingers, in the order in
/// which they are tried: the owner of the finger that covers the key, if
/// there is one, and then every known owner from the last finger down.
pub open spec fn finger_candidates(fingers: FingerView, key: int) -> Seq<Seq<char>> {
    match covering_owner(fingers, key, 0) {
        Some(owner) => seq![owner] + owners_reversed(fingers, fingers.len()),
        None => owners_reversed(fingers, fingers.len()),
    }
}

/// The next step of a lookup that is being passed on, after `tried` of the
/// candidates could not be reached: it goes to the next candidate, one hop
/// further; when none is left, the coordinator is told that the lookup
/// failed here.
pub open spec fn forward_script(
    key: Seq<char>,
    hops: usize,
    candidates: Seq<Seq<char>>,
    tried: int,
    chord_ring: Seq<char>,
) -> Script {
    if 0 <= tried < candidates.len() {
        seq![
            CommandView::Send {
                to: candidates[tried],
                message: MessageView::LookupReq { key, hops: (hops + 1) as usize },
                pending: Some(
                    PendingView::LookupForward { key, hops, candidates, tried: tried as usize },
                ),
            },
        ]
    } else {
        seq![
            CommandView::Send {
                to: chord_ring,
                message: MessageView::LookupRes { key, hops, data: None },
                pending: Some(PendingView::Delivery),
            },
        ]
    }
}

/// What a node does with a lookup. It needs both its immediate successor
/// and its predecessor. A key on the arc from the predecessor to the node
/// is the node's own: the node reads its records. Any other lookup is
/// passed on, which takes a hop count that can still grow: to the successor
/// where the key lies on the arc from the node to it, else along the
/// fingers.
pub open spec fn lookup_reply(
    ns: NodeStateView,
    key: Seq<char>,
    hops: usize,
    chord_ring: Seq<char>,
    m: u32,
) -> Result<Script, ChordError> {
    match (ns.successor[0], ns.predecessor) {
        (Some(successor), Some(predecessor)) => {
            let target = spec_hash(key, m as nat) as int;
            let own = spec_hash(ns.id, m as nat) as int;
            let next = spec_hash(successor, m as nat) as int;
            let prev = spec_hash(predecessor, m as nat) as int;
            if between(prev, target, own) {
                Ok(
                    seq![
                        CommandView::Store {
                            op: StoreOpView::SelectKey { key },
                            pending: Some(PendingView::LookupRecords { key, hops }),
                        },
                    ],
                )
            } else if hops == usize::MAX {
                Err(ChordError::ProtocolError)
            } else if between(own, target, next) {
                Ok(forward_script(key, hops, seq![successor], 0, chord_ring))
            } else {
                Ok(
                    forward_script(
                        key,
                        hops,
                        finger_candidates(ns.finger_table, target),
                        0,
                        chord_ring,
                    ),
                )
            }
        },
        _ => Err(ChordError::NotInRing),
    }
}

/// Passes a lookup to the candidate at `tried`, or reports its failure to
/// the coordinator when no candidate is left.
fn forward(key: String, hops: usize, candidates: Vec<String>, tried: usize, chord_ring: &str) -> (commands:
    Commands)
    requires
        hops < usize::MAX,
    ensures
        commands.deep_view() == forward_script(
            key@,
            hops,
            candidates.deep_view(),
            tried as int,
            chord_ring@,
        ),
{
    if tried < candidates.len() {
        let to = candidates[tried].clone();
        assert(candidates.deep_view()[tried as int] == candidates@[tried as int]@);
        only(
            Command::Send {
                to,
                message: Message::LookupReq { key: key.clone(), hops: hops + 1 },
                pending: Some(Pending::LookupForward { key, hops, candidates, tried }),
            },
        )
    } else {
        only(
            Command::Send {
                to: chord_ring.to_owned(),
                message: Message::LookupRes { key, hops, data: None },
                pending: Some(Pending::Delivery),
            },
        )
    }
}

/// The candidates for a lookup of `key` along the fingers.
fn candidates_along(fingers: &FingerTable, key: u32) -> (candidates: Vec<String>)
    requires
        fingers@.len() >= 1,
    ensures
        candidates.deep_view() == finger_candidates(fingers@, key as int),
{
    let entries = &fingers.entries;
    let len = entries.len();
    let mut candidates: Vec<String> = Vec::new();
    let mut i: usize = 0;
    while i < len - 1
        invariant_except_break
            candidates@.len() == 0,
            covering_owner(fingers@, key as int, 0) == covering_owner(
                fingers@,
                key as int,
                i as int,
            ),
        invariant
            len == entries@.len(),
            len >= 1,
            entries == &fingers.entries,
            i <= len - 1,
        ensures
            i <= len - 1,
            candidates@.len() <= 1,
            candidates.deep_view() == match covering_owner(fingers@, key as int, 0) {
                Some(owner) => seq![owner],
                None => Seq::<Seq<char>>::empty(),
            },
        decreases len - 1 - i,
    {
        assert(fingers@[i as int] == entries@[i as int].deep_view());
        assert(fingers@[i + 1] == entries@[i + 1].deep_view());
        if is_between(entries[i].start, key, entries[i + 1].start) {
            match &entries[i].id {
                Some(owner) => {
                    candidates.push(owner.clone());
                    assert(candidates.deep_view() =~= seq![owner@]);
                    break ;
                },
                None => {},
            }
        }
        i += 1;
    }
    proof {
        if candidates@.len() == 0 {
            assert(candidates.deep_view() =~= Seq::<Seq<char>>::empty());
        }
    }
    let ghost primary = candidates.deep_view();
    let mut j: usize = len;
    while j > 0
        invariant
            len == entries@.len(),
            entries == &fingers.entries,
            j <= len,
            primary + owners_reversed(fingers@, len as nat) == candidates.deep_view()
                + owners_reversed(fingers@, j as nat),
        decreases j,
    {
        j -= 1;
        assert(fingers@[j as int] == entries@[j as int].deep_view());
        let ghost before = candidates.deep_view();
        match &entries[j].id {
            Some(owner) => {
                candidates.push(owner.clone());
                assert(candidates.deep_view() =~= before + seq![owner@]);
                assert(before + (seq![owner@] + owners_reversed(fingers@, j as nat)) =~= (before
                    + seq![owner@]) + owners_reversed(fingers@, j as nat));
            },
            None => {},
        }
    }
    assert(candidates.deep_view() + owners_reversed(fingers@, 0) =~= candidates.deep_view());
    candidates
}

/// Answers a lookup: reads the store for an own key, else passes the lookup
/// on.
pub fn lookup_req_handler(ns: &NodeState, key: String, hops: usize, chord_ring: &str, m: u32) -> (reply:
    Result<Commands, ChordError>)
    requires
        ns.wf(m),
    ensures
        shown(reply) == lookup_reply(ns@, key@, hops, chord_ring@, m),
{
    let successor = match ns.successor.get_first() {
        Some(s) => s.clone(),
        None => {
            return Err(ChordError::NotInRing);
        },
    };
    let predecessor = match &ns.predecessor {
        Some(p) => p,
        None => {
            return Err(ChordError::NotInRing);
        },
    };
    let hash_key = hash(key.as_str(), m);
    let hash_node_id = hash(ns.id.as_str(), m);
    let hash_successor_id = hash(successor.as_str(), m);
    let hash_predecessor_id = hash(predecessor.as_str(), m);
    if is_between(hash_predecessor_id, hash_key, hash_node_id) {
        Ok(
            only(
                Command::Store {
                    op: StoreOp::SelectKey { key: key.clone() },
                    pending: Some(Pending::LookupRecords { key, hops }),
                },
            ),
        )
    } else if hops == usize::MAX {
        Err(ChordError::ProtocolError)
    } else if is_between(hash_node_id, hash_key, hash_successor_id) {
        let mut candidates: Vec<String> = Vec::new();
        candidates.push(successor);
        assert(candidates.deep_view() =~= seq![successor@]);
        Ok(forward(key, hops, candidates, 0, chord_ring))
    } else {
        let candidates = candidates_along(&ns.finger_table, hash_key);
        Ok(forward(key, hops, candidates, 0, chord_ring))
    }
}

/// The records of a lookup that ends here go to the coordinator.
pub fn lookup_records_read(key: String, hops: usize, records: Vec<Data>, chord_ring: &str) -> (commands:
    Commands)
    ensures
        commands.deep_view() == seq![
            CommandView::Send {
                to: chord_ring@,
                message: MessageView::LookupRes {
                    key: key@,
                    hops,
                    data: Some(records.deep_view()),
                },
                pending: Some(PendingView::Delivery),
            },
        ],
{
    only(
        Command::Send {
            to: chord_ring.to_owned(),
            message: Message::LookupRes { key, hops, data: Some(records) },
            pending: Some(Pending::Delivery),
        },
    )
}

/// The candidate at `tried` could not be reached: the lookup goes to the
/// next one, or its failure is reported. A hop count that cannot grow is
/// refused.
pub fn lookup_forward_failed(
    key: String,
    hops: usize,
    candidates: Vec<String>,
    tried: usize,
    chord_ring: &str,
) -> (reply: Result<Commands, ChordError>)
    ensures
        shown(reply) == if hops == usize::MAX {
            Err::<Script, ChordError>(ChordError::ProtocolError)
        } else {
            Ok(forward_script(key@, hops, candidates.deep_view(), tried + 1, chord_ring@))
        },
{
    if hops == usize::MAX {
        Err(ChordError::ProtocolError)
    } else if tried < candidates.len() {
        Ok(forward(key, hops, candidates, tried + 1, chord_ring))
    } else {
        let end = candidates.len();
        Ok(forward(key, hops, candidates, end, chord_ring))
    }
}

} // verus!
