//! Laws of the protocol: what holds of every state and every event.

use crate::circular_buffer::rotated;
use crate::command::{ChordError, CommandView};
use crate::coordinator::{
    distinct_hashes, ring_step, with_member, without_member, RingEventView, RingPendingView,
    RingView,
};
use crate::data::DataView;
use crate::finger_table::{fingers_of, lemma_fingers_keep_starts, starts, FingerEntryView};
use crate::hash::{lemma_hash_in_ring, spec_hash, MAX_BITS};
use crate::msg::MessageView;
use crate::node::fingers::{finger_req_reply, finger_res_step};
use crate::node::insert::{belongs, kept, passed_on};
use crate::node::join::{join_successors_step, req_join_step, res_join_step};
use crate::node::leave::farewell;
use crate::node::lookup::lookup_reply;
use crate::node::notify::{accepts, arc_start, handed_over, notify_step};
use crate::node::pending::PendingView;
use crate::node::stabilize::{next_occupied, probe_step, scan, stabilize_step};
use crate::node::{node_step, received, EventView, NodeView, Script, Step};
use crate::node_state::{alone, valid_state, NodeStateView};
use crate::ring::between;
use crate::store::StoreOpView;
use crate::succ_table::without_successor;
use vstd::arithmetic::power2::{lemma2_to64, lemma_pow2_strictly_increases};
use vstd::multiset::Multiset;
use vstd::prelude::*;
use vstd::seq_lib::to_multiset_build;

verus! {

/// Every identifier of a ring of at most 32 bits fits in 32 bits.
pub proof fn lemma_hash_fits(text: Seq<char>, m: u32)
    requires
        m <= MAX_BITS,
    ensures
        spec_hash(text, m as nat) <= u32::MAX,
{
    lemma_hash_in_ring(text, m as nat);
    lemma2_to64();
    if m < 32 {
        lemma_pow2_strictly_increases(m as nat, 32);
    }
}

/// Arc ownership at insertion: every record that a node keeps of a batch
/// has its key on the node's own arc, the arc from its predecessor to
/// itself.
pub proof fn lemma_kept_records_belong(ns: NodeStateView, records: Seq<DataView>, m: u32)
    ensures
        forall|i: int|
            0 <= i < kept(ns, records, m).len() ==> belongs(
                ns,
                #[trigger] kept(ns, records, m)[i],
                m,
            ),
{
    let stays = |record: DataView| belongs(ns, record, m);
    assert forall|i: int| 0 <= i < kept(ns, records, m).len() implies belongs(
        ns,
        #[trigger] kept(ns, records, m)[i],
        m,
    ) by {
        records.lemma_filter_pred(stays, i);
    }
}

/// Nothing is lost and nothing is doubled at insertion: the records that a
/// node keeps of a batch and those that it passes on are, taken together,
/// the records of the batch.
pub proof fn lemma_batch_is_split(ns: NodeStateView, records: Seq<DataView>, m: u32)
    ensures
        kept(ns, records, m).to_multiset().add(passed_on(ns, records, m).to_multiset())
            == records.to_multiset(),
    decreases records.len(),
{
    let stays = |record: DataView| belongs(ns, record, m);
    let goes = |record: DataView| !belongs(ns, record, m);
    broadcast use vstd::multiset::group_multiset_axioms;

    reveal(Seq::filter);
    if records.len() == 0 {
        assert(records.filter(stays) =~= Seq::<DataView>::empty());
        assert(records.filter(goes) =~= Seq::<DataView>::empty());
        records.to_multiset_ensures();
        assert(records.to_multiset().len() == 0);
        assert(records.to_multiset() =~= Multiset::<DataView>::empty());
        assert(records.to_multiset().add(records.to_multiset()) =~= records.to_multiset());
    } else {
        let init = records.drop_last();
        let last = records.last();
        lemma_batch_is_split(ns, init, m);
        assert(records =~= init.push(last));
        to_multiset_build(init, last);
        to_multiset_build(init.filter(stays), last);
        to_multiset_build(init.filter(goes), last);
        if belongs(ns, last, m) {
            assert(records.filter(stays) == init.filter(stays).push(last));
            assert(records.filter(goes) == init.filter(goes));
            assert(init.filter(stays).to_multiset().insert(last).add(
                init.filter(goes).to_multiset(),
            ) =~= init.filter(stays).to_multiset().add(init.filter(goes).to_multiset()).insert(
                last,
            ));
        } else {
            assert(records.filter(stays) == init.filter(stays));
            assert(records.filter(goes) == init.filter(goes).push(last));
            assert(init.filter(stays).to_multiset().add(
                init.filter(goes).to_multiset().insert(last),
            ) =~= init.filter(stays).to_multiset().add(init.filter(goes).to_multiset()).insert(
                last,
            ));
        }
    }
}

/// Arc ownership at a change of predecessor: when a node adopts `sender`
/// as predecessor, every key hash on its old arc either passes to the
/// sender, and then lies on the arc from the old predecessor to the sender,
/// or stays, and then lies on the node's new arc, from the sender to the
/// node.
pub proof fn lemma_handover_splits_arc(ns: NodeStateView, sender: Seq<char>, m: u32, keyhash: u32)
    requires
        1 <= m <= MAX_BITS,
        accepts(ns, sender, m),
        between(arc_start(ns, m), keyhash as int, spec_hash(ns.id, m as nat) as int),
    ensures
        !handed_over(ns, sender, m).covers(keyhash as int) ==> between(
            spec_hash(sender, m as nat) as int,
            keyhash as int,
            spec_hash(ns.id, m as nat) as int,
        ),
        handed_over(ns, sender, m).covers(keyhash as int) ==> between(
            arc_start(ns, m),
            keyhash as int,
            spec_hash(sender, m as nat) as int,
        ),
        notify_step(ns, sender, m).state.predecessor == Some(sender),
{
    lemma_hash_fits(sender, m);
    lemma_hash_fits(ns.id, m);
    if ns.predecessor is Some {
        lemma_hash_fits(ns.predecessor->0, m);
    }
}

/// The test of the successors keeps a node's state valid.
proof fn lemma_scan_keeps_valid(ns: NodeStateView, from: int, m: u32)
    requires
        valid_state(ns, m),
    ensures
        valid_state(scan(ns, from).state, m),
        scan(ns, from).state.id == ns.id,
{
}

/// Taking a successor out keeps the number of slots.
proof fn lemma_without_successor_len(ns: NodeStateView, node: Seq<char>)
    ensures
        without_successor(ns.successor, node).len() == ns.successor.len(),
{
    ns.successor.index_of_first_ensures(Some(node));
}

/// Finger starts are invariant: whatever happens to a node, it keeps its
/// name, it has one finger for each bit of the identifier space, and finger
/// `i` starts `2^i` past the node's own identifier. Its successor list
/// keeps a first slot.
pub proof fn lemma_steps_keep_fingers(node: NodeView, event: EventView)
    requires
        valid_state(node.node_state, node.m),
    ensures
        valid_state(node_step(node, event).state, node.m),
        fingers_of(
            node_step(node, event).state.finger_table,
            node.node_state.id,
            node.m as nat,
        ),
        node_step(node, event).state.id == node.node_state.id,
{
    let ns = node.node_state;
    let m = node.m;
    match event {
        EventView::Received { message } => {
            match message {
                MessageView::ResFinger { node_id, index } => {
                    lemma_fingers_keep_starts(
                        ns.finger_table,
                        ns.id,
                        m as nat,
                        index as u32,
                        node_id,
                    );
                },
                _ => {},
            }
        },
        EventView::Completed { pending, outcome } => {
            match pending {
                PendingView::LeaveClear => {
                    lemma_fingers_keep_starts(ns.finger_table, ns.id, m as nat, 0, ns.id);
                },
                PendingView::StabilizeProbe { index, node: probed } => {
                    lemma_without_successor_len(ns, probed);
                    lemma_scan_keeps_valid(ns, index + 1, m);
                    lemma_scan_keeps_valid(
                        NodeStateView { successor: without_successor(ns.successor, probed), ..ns },
                        index as int,
                        m,
                    );
                },
                _ => {},
            }
        },
        EventView::Stabilize => {
            lemma_scan_keeps_valid(ns, 0, m);
        },
        _ => {},
    }
}

/// Joining splices the joiner into the successor chain. Let `a` be a node
/// whose immediate successor `s` has `a` as predecessor, and let the
/// identifier of a joiner lie on the arc from `a` to `s` without being
/// that of `s`. Then `a` admits the joiner and follows it from then on;
/// the joiner, with the place it is sent, follows `s` and is preceded by
/// `a`; and `s`, which is told of the joiner, is preceded by it. Where `a`
/// is alone, `s` is `a` itself, in its state after admitting the joiner.
pub proof fn lemma_join_splices_chain(
    a: NodeStateView,
    s: NodeStateView,
    joiner: NodeStateView,
    followers: Option<Seq<Seq<char>>>,
    chord_ring: Seq<char>,
    m: u32,
)
    requires
        1 <= m <= MAX_BITS,
        valid_state(a, m),
        valid_state(joiner, m),
        a.successor[0] == Some(s.id),
        s.predecessor == Some(a.id),
        spec_hash(joiner.id, m as nat) != spec_hash(s.id, m as nat),
        between(
            spec_hash(a.id, m as nat) as int,
            spec_hash(joiner.id, m as nat) as int,
            spec_hash(s.id, m as nat) as int,
        ),
    ensures
        req_join_step(a, joiner.id, m).state.successor[0] == Some(joiner.id),
        req_join_step(a, joiner.id, m).reply == Ok::<Script, ChordError>(
            seq![
                CommandView::Send {
                    to: joiner.id,
                    message: MessageView::ResJoin { node_id: s.id, sender_id: a.id },
                    pending: Some(
                        PendingView::JoinReply { joiner: joiner.id, old_successor: s.id },
                    ),
                },
            ],
        ),
        join_successors_step(
            res_join_step(joiner, s.id, a.id).state,
            followers,
            a.id,
            chord_ring,
        ).state.successor[0] == Some(s.id),
        join_successors_step(
            res_join_step(joiner, s.id, a.id).state,
            followers,
            a.id,
            chord_ring,
        ).state.predecessor == Some(a.id),
        notify_step(s, joiner.id, m).state.predecessor == Some(joiner.id),
{
    lemma_hash_fits(joiner.id, m);
    lemma_hash_fits(a.id, m);
    lemma_hash_fits(s.id, m);
}

/// Leaving closes the successor chain. The farewell of a node with
/// successor `c` and predecessor `a` tells `a` to follow `c` and `c` that
/// `a` precedes it; once both have heard, `a` follows `c` and `c` is
/// preceded by `a`.
pub proof fn lemma_leave_closes_chain(
    leaving: NodeStateView,
    a: NodeView,
    c: NodeView,
    records: Seq<DataView>,
    chord_ring: Seq<char>,
)
    requires
        a.node_state.successor.len() >= 1,
    ensures
        farewell(leaving, c.node_state.id, a.node_state.id, records, chord_ring)[1] == (
        CommandView::Send {
            to: c.node_state.id,
            message: MessageView::IAmYourPredecessor { node_id: a.node_state.id },
            pending: None::<PendingView>,
        }),
        farewell(leaving, c.node_state.id, a.node_state.id, records, chord_ring)[2] == (
        CommandView::Send {
            to: a.node_state.id,
            message: MessageView::IAmYourSuccessor { node_id: c.node_state.id },
            pending: None::<PendingView>,
        }),
        received(
            a,
            MessageView::IAmYourSuccessor { node_id: c.node_state.id },
        ).state.successor[0] == Some(c.node_state.id),
        received(
            c,
            MessageView::IAmYourPredecessor { node_id: a.node_state.id },
        ).state.predecessor == Some(a.node_state.id),
{
}

/// A dead successor is replaced by its follower: when the immediate
/// successor does not answer a ping and the node behind it in the list is
/// another node, that node is the immediate successor afterwards.
pub proof fn lemma_dead_successor_is_replaced(
    ns: NodeStateView,
    dead: Seq<char>,
    next: Seq<char>,
)
    requires
        ns.successor.len() >= 2,
        ns.successor[0] == Some(dead),
        ns.successor[1] == Some(next),
    ensures
        probe_step(ns, 0, dead, false).state.successor[0] == Some(next),
        probe_step(ns, 0, dead, false).state.successor.len() == ns.successor.len(),
{
    let slots = ns.successor;
    slots.index_of_first_ensures(Some(dead));
    assert(slots.contains(Some(dead)));
    assert(slots.index_of_first(Some(dead)) == Some(0int));
    let after = without_successor(slots, dead);
    assert(after[0] == Some(next));
    reveal_with_fuel(next_occupied, 2);
}

/// A finger is filled with the owner of its start: a node answers a
/// question about a point on the arc from itself to its successor by
/// naming the successor to the asker, and the asker records that name for
/// the finger that starts at the point.
pub proof fn lemma_finger_answer_names_the_owner(
    ns: NodeStateView,
    asker: NodeStateView,
    finger: int,
    m: u32,
)
    requires
        1 <= m <= MAX_BITS,
        valid_state(asker, m),
        0 <= finger < m,
        ns.successor[0] is Some,
        between(
            spec_hash(ns.id, m as nat) as int,
            asker.finger_table[finger].start as int,
            spec_hash(ns.successor[0]->0, m as nat) as int,
        ),
    ensures
        finger_req_reply(ns, asker.id, asker.finger_table[finger].start as usize, m) == seq![
            CommandView::Send {
                to: asker.id,
                message: MessageView::ResFinger {
                    node_id: ns.successor[0]->0,
                    index: asker.finger_table[finger].start as usize,
                },
                pending: None::<PendingView>,
            },
        ],
        exists|i: int|
            0 <= i < m && (#[trigger] finger_res_step(
                asker,
                ns.successor[0]->0,
                asker.finger_table[finger].start as usize,
            ).state.finger_table[i]) == (FingerEntryView {
                start: asker.finger_table[finger].start,
                id: ns.successor[0],
            }),
{
    let start = asker.finger_table[finger].start;
    let points = starts(asker.finger_table);
    assert(points[finger] == start);
    assert(points.contains(start));
    points.index_of_first_ensures(start);
    let first = points.index_of_first(start)->0;
    assert(points[first] == asker.finger_table[first].start);
    let after = finger_res_step(asker, ns.successor[0]->0, start as usize).state.finger_table;
    assert(after[first] == (FingerEntryView { start, id: ns.successor[0] }));
}

/// The owner of a point is recorded for the finger that starts there. An
/// index that is no identifier leaves the node as it is and is refused.
/// Any other index changes at most one finger: the first that starts at
/// the point gets the owner, every other finger and every start stay. The
/// node then asks itself about the start of the finger behind that one,
/// unless there is none or it starts at the same point.
pub proof fn lemma_finger_owner_is_recorded(ns: NodeStateView, owner: Seq<char>, index: usize)
    ensures
        index > u32::MAX ==> finger_res_step(ns, owner, index) == (Step {
            state: ns,
            reply: Err(ChordError::ProtocolError),
        }),
        index <= u32::MAX ==> {
            let first = starts(ns.finger_table).index_of_first(index as u32);
            let after = finger_res_step(ns, owner, index).state;
            &&& after.id == ns.id
            &&& after.predecessor == ns.predecessor
            &&& after.successor == ns.successor
            &&& after.finger_table.len() == ns.finger_table.len()
            &&& forall|i: int|
                0 <= i < ns.finger_table.len() ==> #[trigger] after.finger_table[i] == if first
                    == Some(i) {
                    FingerEntryView { start: index as u32, id: Some(owner) }
                } else {
                    ns.finger_table[i]
                }
            &&& finger_res_step(ns, owner, index).reply == Ok::<Script, ChordError>(
                match first {
                    Some(p) => if p + 1 < ns.finger_table.len() && ns.finger_table[p + 1].start
                        != index {
                        seq![
                            CommandView::Send {
                                to: ns.id,
                                message: MessageView::ReqFinger {
                                    from: ns.id,
                                    index: ns.finger_table[p + 1].start as usize,
                                },
                                pending: Some(PendingView::Delivery),
                            },
                        ]
                    } else {
                        Seq::empty()
                    },
                    None => Seq::empty(),
                },
            )
        },
{
    if index <= u32::MAX {
        let points = starts(ns.finger_table);
        points.index_of_first_ensures(index as u32);
        let after = finger_res_step(ns, owner, index).state.finger_table;
        assert(starts(after) =~= points);
        match points.index_of_first(index as u32) {
            Some(p) => {
                assert(points[p] == ns.finger_table[p].start);
            },
            None => {},
        }
    }
}

/// The coordinator forgets a leaver: the member of that name is taken out
/// and the others stay in their order; a name that no member has changes
/// nothing. As no two members have the same identifier, the leaver is no
/// member afterwards.
pub proof fn lemma_leaver_is_forgotten(ring: RingView, node: Seq<char>)
    requires
        distinct_hashes(ring.members, ring.m),
    ensures
        ring_step(
            ring,
            RingEventView::Received { message: MessageView::Leave { node_id: node } },
        ).ring == without_member(ring, node),
        match ring.members.index_of_first(node) {
            Some(i) => 0 <= i < ring.members.len() && ring.members[i] == node
                && without_member(ring, node).members == ring.members.remove(i),
            None => !ring.members.contains(node) && without_member(ring, node) == ring,
        },
        !without_member(ring, node).members.contains(node),
{
    let members = ring.members;
    members.index_of_first_ensures(node);
    match members.index_of_first(node) {
        Some(i) => {
            let rest = members.remove(i);
            if rest.contains(node) {
                let j = choose|j: int| 0 <= j < rest.len() && rest[j] == node;
                let k = if j < i {
                    j
                } else {
                    j + 1
                };
                assert(members[k] == node);
                assert(k != i);
            }
        },
        None => {},
    }
}

/// A notification is idempotent: a node that has dealt with `sender`
/// proposing itself is in the same state after the same proposal arrives
/// again, and the second proposal moves no record: it is ignored, or the
/// range of key hashes that it hands over is empty.
pub proof fn lemma_notify_idempotent(ns: NodeStateView, sender: Seq<char>, m: u32)
    requires
        1 <= m <= MAX_BITS,
    ensures
        notify_step(notify_step(ns, sender, m).state, sender, m).state == notify_step(
            ns,
            sender,
            m,
        ).state,
        accepts(notify_step(ns, sender, m).state, sender, m) ==> forall|keyhash: int|
            !handed_over(notify_step(ns, sender, m).state, sender, m).covers(keyhash),
{
    lemma_hash_fits(sender, m);
    lemma_hash_fits(ns.id, m);
    if ns.predecessor is Some {
        lemma_hash_fits(ns.predecessor->0, m);
    }
}

/// A node that knows only itself owns the whole ring: it answers every
/// lookup from its own store, it names itself as the owner of every point
/// that it is asked about, and a round of stabilization leaves it as it is
/// and asks for nothing.
pub proof fn lemma_single_node(
    id: Seq<char>,
    m: u32,
    r: nat,
    key: Seq<char>,
    hops: usize,
    chord_ring: Seq<char>,
)
    requires
        1 <= m <= MAX_BITS,
        r >= 1,
    ensures
        lookup_reply(alone(id, m as nat, r), key, hops, chord_ring, m) == Ok::<Script, ChordError>(
            seq![
                CommandView::Store {
                    op: StoreOpView::SelectKey { key },
                    pending: Some(PendingView::LookupRecords { key, hops }),
                },
            ],
        ),
        forall|asker: Seq<char>, index: usize|
            #[trigger] finger_req_reply(alone(id, m as nat, r), asker, index, m) == seq![
                CommandView::Send {
                    to: asker,
                    message: MessageView::ResFinger { node_id: id, index },
                    pending: None::<PendingView>,
                },
            ],
        stabilize_step(alone(id, m as nat, r)).state == alone(id, m as nat, r),
        stabilize_step(alone(id, m as nat, r)).reply == Ok::<Script, ChordError>(Seq::empty()),
{
}

/// Taking a member out keeps the identifiers distinct.
proof fn lemma_remove_keeps_distinct(members: Seq<Seq<char>>, index: int, m: u32)
    requires
        distinct_hashes(members, m),
        0 <= index < members.len(),
    ensures
        distinct_hashes(members.remove(index), m),
{
    let rest = members.remove(index);
    assert forall|i: int, j: int| 0 <= i < j < rest.len() implies spec_hash(
        #[trigger] rest[i],
        m as nat,
    ) != spec_hash(#[trigger] rest[j], m as nat) by {
        let a = if i < index {
            i
        } else {
            i + 1
        };
        let b = if j < index {
            j
        } else {
            j + 1
        };
        assert(rest[i] == members[a]);
        assert(rest[j] == members[b]);
    }
}

/// Forgetting a member keeps the identifiers distinct.
proof fn lemma_forget_keeps_distinct(ring: RingView, node: Seq<char>)
    requires
        distinct_hashes(ring.members, ring.m),
    ensures
        distinct_hashes(without_member(ring, node).members, ring.m),
{
    ring.members.index_of_first_ensures(node);
    match ring.members.index_of_first(node) {
        Some(index) => {
            lemma_remove_keeps_distinct(ring.members, index, ring.m);
        },
        None => {},
    }
}

/// Coordinator uniqueness: no step of the coordinator gives two members
/// the same identifier.
pub proof fn lemma_members_stay_distinct(ring: RingView, event: RingEventView)
    requires
        distinct_hashes(ring.members, ring.m),
    ensures
        distinct_hashes(ring_step(ring, event).ring.members, ring.m),
        ring_step(ring, event).ring.m == ring.m,
{
    let m = ring.m;
    match event {
        RingEventView::Received { message } => {
            match message {
                MessageView::ReqKnownNode { node_id } => {},
                MessageView::ResKnownNode { node_id } => {
                    let grown = with_member(ring, node_id).members;
                    assert forall|i: int, j: int| 0 <= i < j < grown.len() implies spec_hash(
                        #[trigger] grown[i],
                        m as nat,
                    ) != spec_hash(#[trigger] grown[j], m as nat) by {
                        if j == ring.members.len() {
                            assert(grown[i] == ring.members[i]);
                        } else {
                            assert(grown[i] == ring.members[i]);
                            assert(grown[j] == ring.members[j]);
                        }
                    }
                },
                MessageView::Leave { node_id } => {
                    lemma_forget_keeps_distinct(ring, node_id);
                },
                _ => {},
            }
        },
        RingEventView::Completed { pending, outcome } => {
            match pending {
                RingPendingView::Probe { node } => {
                    lemma_forget_keeps_distinct(ring, node);
                },
                _ => {},
            }
        },
        RingEventView::LookupRequested { key } => {
            let turned = rotated(ring.members);
            if ring.members.len() > 1 {
                assert forall|i: int, j: int| 0 <= i < j < turned.len() implies spec_hash(
                    #[trigger] turned[i],
                    m as nat,
                ) != spec_hash(#[trigger] turned[j], m as nat) by {
                    assert(turned[i] == ring.members[i + 1]);
                    if j == turned.len() - 1 {
                        assert(turned[j] == ring.members[0]);
                    } else {
                        assert(turned[j] == ring.members[j + 1]);
                    }
                }
            }
        },
        _ => {},
    }
}

} // verus!
