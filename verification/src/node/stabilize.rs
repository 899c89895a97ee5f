//! Stabilization: periodically a node tests its successors, drops those
//! that do not answer, renews its successor list from its immediate
//! successor, and proposes itself to that successor as predecessor.

use crate::command::{nothing, only, Command, CommandView};
use crate::msg::{Message, MessageView};
use crate::node::pending::{Pending, PendingView};
use crate::node::{shown, Commands, Script, Step};
use crate::node_state::{NodeState, NodeStateView};
use crate::strings::names;
use crate::succ_table::{empty_slots, without_successor, SuccView};
use vstd::prelude::*;

verus! {

/// The first slot at `from` or behind it that holds a successor.
pub open spec fn next_occupied(slots: SuccView, from: int) -> Option<int>
    decreases slots.len() - from,
{
    if from < 0 || from >= slots.len() {
        None
    } else if slots[from] is Some {
        Some(from)
    } else {
        next_occupied(slots, from + 1)
    }
}

/// A node proposes itself as predecessor to its immediate successor, if it
/// has one. Failure is of no consequence.
pub open spec fn notify_script(ns: NodeStateView) -> Script {
    match ns.successor[0] {
        Some(successor) => seq![
            CommandView::Send {
                to: successor,
                message: MessageView::Notify { node_id: ns.id },
                pending: None,
            },
        ],
        None => Seq::empty(),
    }
}

/// The successor list after the immediate successor, where it is missing,
/// is replaced by the first successor behind it: the list then holds that
/// successor alone.
pub open spec fn promoted(slots: SuccView) -> SuccView {
    if slots[0] is None {
        match next_occupied(slots, 1) {
            Some(j) => empty_slots(slots.len()).update(0, slots[j]),
            None => slots,
        }
    } else {
        slots
    }
}

/// What a node does once every successor has been tested: it promotes a
/// follower if it lost its immediate successor, and asks the immediate
/// successor, if it has one now, for its successor list.
pub open spec fn settle(ns: NodeStateView) -> Step {
    let state = NodeStateView { successor: promoted(ns.successor), ..ns };
    Step {
        state,
        reply: Ok(
            match state.successor[0] {
                Some(immediate) => seq![
                    CommandView::FetchSuccessors {
                        from: immediate,
                        pending: PendingView::StabilizeSuccessors { immediate },
                    },
                ],
                None => Seq::empty(),
            },
        ),
    }
}

/// The test of the successors, continued at slot `from`: the next
/// successor in the list is pinged; when none is left, the node settles.
pub open spec fn scan(ns: NodeStateView, from: int) -> Step {
    match next_occupied(ns.successor, from) {
        Some(j) => Step {
            state: ns,
            reply: Ok(
                seq![
                    CommandView::Send {
                        to: ns.successor[j]->0,
                        message: MessageView::Ping,
                        pending: Some(
                            PendingView::StabilizeProbe {
                                index: j as usize,
                                node: ns.successor[j]->0,
                            },
                        ),
                    },
                ],
            ),
        },
        None => settle(ns),
    }
}

/// One round of stabilization starts. A node that is its own immediate
/// successor is alone and does nothing.
pub open spec fn stabilize_step(ns: NodeStateView) -> Step {
    if ns.successor[0] == Some(ns.id) {
        Step { state: ns, reply: Ok(Seq::empty()) }
    } else {
        scan(ns, 0)
    }
}

/// The successor `node` in slot `index` has answered a ping, or has not. A
/// successor that answered stays and the test goes on behind it. One that
/// did not is taken out of the list, and the test goes on at the same
/// slot, which now holds its follower.
pub open spec fn probe_step(ns: NodeStateView, index: usize, node: Seq<char>, alive: bool) -> Step {
    if alive {
        scan(ns, index + 1)
    } else {
        scan(
            NodeStateView { successor: without_successor(ns.successor, node), ..ns },
            index as int,
        )
    }
}

/// The successor list made of the immediate successor and the followers
/// that answered, in their order, as far as there are slots.
pub open spec fn merged(len: nat, immediate: Seq<char>, admitted: Seq<Seq<char>>) -> SuccView {
    Seq::new(
        len,
        |j: int|
            if j == 0 {
                Some(immediate)
            } else if j - 1 < admitted.len() {
                Some(admitted[j - 1])
            } else {
                None
            },
    )
}

/// The test of the followers that the immediate successor named, continued
/// at candidate `probed`: the next candidate is pinged; when none is left,
/// the successor list is renewed and the node proposes itself to its
/// immediate successor.
pub open spec fn admit_scan(
    ns: NodeStateView,
    immediate: Seq<char>,
    candidates: Seq<Seq<char>>,
    probed: int,
    admitted: Seq<Seq<char>>,
) -> Step {
    if 0 <= probed < candidates.len() {
        Step {
            state: ns,
            reply: Ok(
                seq![
                    CommandView::Send {
                        to: candidates[probed],
                        message: MessageView::Ping,
                        pending: Some(
                            PendingView::StabilizeAdmit {
                                immediate,
                                candidates,
                                probed: probed as usize,
                                admitted,
                            },
                        ),
                    },
                ],
            ),
        }
    } else {
        let state = NodeStateView {
            successor: merged(ns.successor.len(), immediate, admitted),
            ..ns
        };
        Step { state, reply: Ok(notify_script(state)) }
    }
}

/// The immediate successor has named its successors, or has failed to.
/// Without an answer the list stays and the node only proposes itself.
/// With one, the first of the named nodes, one fewer than there are slots,
/// are tested in turn.
pub open spec fn successors_step(
    ns: NodeStateView,
    immediate: Seq<char>,
    list: Option<Seq<Seq<char>>>,
) -> Step {
    match list {
        None => Step { state: ns, reply: Ok(notify_script(ns)) },
        Some(list) => admit_scan(
            ns,
            immediate,
            if list.len() > ns.successor.len() - 1 {
                list.take(ns.successor.len() - 1)
            } else {
                list
            },
            0,
            Seq::empty(),
        ),
    }
}

/// The candidate at `probed` has answered a ping, or has not: one that
/// answered is admitted, and the test goes on behind it.
pub open spec fn admit_step(
    ns: NodeStateView,
    immediate: Seq<char>,
    candidates: Seq<Seq<char>>,
    probed: usize,
    admitted: Seq<Seq<char>>,
    alive: bool,
) -> Step {
    admit_scan(
        ns,
        immediate,
        candidates,
        probed + 1,
        if alive && probed < candidates.len() {
            admitted.push(candidates[probed as int])
        } else {
            admitted
        },
    )
}

fn propose(ns: &NodeState) -> (commands: Commands)
    requires
        ns@.successor.len() >= 1,
    ensures
        commands.deep_view() == notify_script(ns@),
{
    match ns.successor.get_first() {
        Some(successor) => only(
            Command::Send {
                to: successor.clone(),
                message: Message::Notify { node_id: ns.id.clone() },
                pending: None,
            },
        ),
        None => nothing(),
    }
}

/// The first slot at `from` or behind it that holds a successor.
fn first_occupied(ns: &NodeState, from: usize) -> (found: Option<usize>)
    ensures
        match found {
            Some(j) => next_occupied(ns@.successor, from as int) == Some(j as int) && j
                < ns.successor.entries@.len() && ns.successor.entries@[j as int] is Some,
            None => next_occupied(ns@.successor, from as int) is None,
        },
{
    let len = ns.successor.entries.len();
    let mut i: usize = from;
    while i < len
        invariant
            from <= i,
            len == ns.successor.entries@.len(),
            next_occupied(ns@.successor, from as int) == next_occupied(ns@.successor, i as int),
        decreases len - i,
    {
        assert(ns@.successor[i as int] == ns.successor.entries@[i as int].deep_view());
        if ns.successor.entries[i].is_some() {
            return Some(i);
        }
        i += 1;
    }
    None
}

fn settle_down(ns: &mut NodeState, m: u32) -> (commands: Commands)
    requires
        old(ns).wf(m),
    ensures
        final(ns).wf(m),
        final(ns)@ == settle(old(ns)@).state,
        settle(old(ns)@).reply == shown(Ok(commands)),
{
    if ns.successor.get_first().is_none() {
        match first_occupied(ns, 1) {
            Some(j) => {
                assert(ns@.successor[j as int] == ns.successor.entries@[j as int].deep_view());
                match &ns.successor.entries[j] {
                    Some(follower) => {
                        let follower = follower.clone();
                        ns.successor.clear();
                        ns.successor.insert_first(follower);
                    },
                    None => {},
                }
            },
            None => {},
        }
    }
    match ns.successor.get_first() {
        Some(immediate) => only(
            Command::FetchSuccessors {
                from: immediate.clone(),
                pending: Pending::StabilizeSuccessors { immediate: immediate.clone() },
            },
        ),
        None => nothing(),
    }
}

fn scan_from(ns: &mut NodeState, from: usize, m: u32) -> (commands: Commands)
    requires
        old(ns).wf(m),
    ensures
        final(ns).wf(m),
        final(ns)@ == scan(old(ns)@, from as int).state,
        scan(
            old(ns)@,
            from as int,
        ).reply == shown(Ok(commands)),
{
    match first_occupied(ns, from) {
        Some(j) => {
            assert(ns@.successor[j as int] == ns.successor.entries@[j as int].deep_view());
            match &ns.successor.entries[j] {
                Some(successor) => only(
                    Command::Send {
                        to: successor.clone(),
                        message: Message::Ping,
                        pending: Some(
                            Pending::StabilizeProbe { index: j, node: successor.clone() },
                        ),
                    },
                ),
                None => nothing(),
            }
        },
        None => settle_down(ns, m),
    }
}

/// Starts one round of stabilization.
pub fn stabilize(ns: &mut NodeState, m: u32) -> (commands: Commands)
    requires
        old(ns).wf(m),
    ensures
        final(ns).wf(m),
        final(ns)@ == stabilize_step(old(ns)@).state,
        stabilize_step(
            old(ns)@,
        ).reply == shown(Ok(commands)),
{
    if names(&ns.successor.entries[0], ns.id.as_str()) {
        assert(ns.successor@[0] == ns.successor.entries@[0].deep_view());
        nothing()
    } else {
        assert(ns.successor@[0] == ns.successor.entries@[0].deep_view());
        scan_from(ns, 0, m)
    }
}

/// Goes on with the round after the ping of the successor `node` in slot
/// `index` has ended.
pub fn stabilize_probed(ns: &mut NodeState, index: usize, node: String, alive: bool, m: u32) -> (commands:
    Commands)
    requires
        old(ns).wf(m),
    ensures
        final(ns).wf(m),
        final(ns)@ == probe_step(old(ns)@, index, node@, alive).state,
        probe_step(
            old(ns)@,
            index,
            node@,
            alive,
        ).reply == shown(Ok(commands)),
{
    if alive {
        let len = ns.successor.entries.len();
        let from = if index < len {
            index + 1
        } else {
            len
        };
        scan_from(ns, from, m)
    } else {
        proof {
            ns.successor@.index_of_first_ensures(Some(node@));
        }
        ns.successor.remove_successor(node.as_str());
        scan_from(ns, index, m)
    }
}

/// Renews the successor list and proposes the node to its immediate
/// successor.
fn renew(ns: &mut NodeState, immediate: String, admitted: Vec<String>, m: u32) -> (commands: Commands)
    requires
        old(ns).wf(m),
    ensures
        final(ns).wf(m),
        final(ns)@ == (NodeStateView {
            successor: merged(old(ns)@.successor.len(), immediate@, admitted.deep_view()),
            ..old(ns)@
        }),
        commands.deep_view() == notify_script(final(ns)@),
{
    let len = ns.successor.entries.len();
    let mut j: usize = 0;
    while j < len
        invariant
            j <= len,
            len == ns.successor@.len(),
            ns.id == old(ns).id,
            ns.predecessor == old(ns).predecessor,
            ns.finger_table == old(ns).finger_table,
            forall|k: int|
                0 <= k < j ==> #[trigger] ns.successor@[k] == merged(
                    len as nat,
                    immediate@,
                    admitted.deep_view(),
                )[k],
        decreases len - j,
    {
        let entry = if j == 0 {
            Some(immediate.clone())
        } else if j - 1 < admitted.len() {
            assert(admitted.deep_view()[j - 1] == admitted@[j - 1]@);
            Some(admitted[j - 1].clone())
        } else {
            None
        };
        ns.successor.insert(j, entry);
        j += 1;
    }
    assert(ns.successor@ =~= merged(len as nat, immediate@, admitted.deep_view()));
    propose(ns)
}

fn admit_from(
    ns: &mut NodeState,
    immediate: String,
    candidates: Vec<String>,
    probed: usize,
    admitted: Vec<String>,
    m: u32,
) -> (commands: Commands)
    requires
        old(ns).wf(m),
    ensures
        final(ns).wf(m),
        final(ns)@ == admit_scan(
            old(ns)@,
            immediate@,
            candidates.deep_view(),
            probed as int,
            admitted.deep_view(),
        ).state,
        admit_scan(
            old(ns)@,
            immediate@,
            candidates.deep_view(),
            probed as int,
            admitted.deep_view(),
        ).reply == shown(Ok(commands)),
{
    if probed < candidates.len() {
        assert(candidates.deep_view()[probed as int] == candidates@[probed as int]@);
        only(
            Command::Send {
                to: candidates[probed].clone(),
                message: Message::Ping,
                pending: Some(
                    Pending::StabilizeAdmit { immediate, candidates, probed, admitted },
                ),
            },
        )
    } else {
        renew(ns, immediate, admitted, m)
    }
}

/// Goes on with the round after the immediate successor has been asked for
/// its successor list.
pub fn stabilize_successors_fetched(
    ns: &mut NodeState,
    immediate: String,
    list: Option<Vec<String>>,
    m: u32,
) -> (commands: Commands)
    requires
        old(ns).wf(m),
    ensures
        final(ns).wf(m),
        final(ns)@ == successors_step(old(ns)@, immediate@, list.deep_view()).state,
        successors_step(
            old(ns)@,
            immediate@,
            list.deep_view(),
        ).reply == shown(Ok(commands)),
{
    match list {
        None => propose(ns),
        Some(list) => {
            let mut candidates = list;
            let ghost named = candidates.deep_view();
            let room = ns.successor.entries.len() - 1;
            if candidates.len() > room {
                candidates.truncate(room);
                assert(candidates.deep_view() =~= named.take(room as int));
            }
            let admitted: Vec<String> = Vec::new();
            assert(admitted.deep_view() =~= Seq::<Seq<char>>::empty());
            admit_from(ns, immediate, candidates, 0, admitted, m)
        },
    }
}

/// Goes on with the round after the ping of the candidate at `probed` has
/// ended.
pub fn stabilize_admitted(
    ns: &mut NodeState,
    immediate: String,
    candidates: Vec<String>,
    probed: usize,
    admitted: Vec<String>,
    alive: bool,
    m: u32,
) -> (commands: Commands)
    requires
        old(ns).wf(m),
    ensures
        final(ns).wf(m),
        final(ns)@ == admit_step(
            old(ns)@,
            immediate@,
            candidates.deep_view(),
            probed,
            admitted.deep_view(),
            alive,
        ).state,
        admit_step(
            old(ns)@,
            immediate@,
            candidates.deep_view(),
            probed,
            admitted.deep_view(),
            alive,
        ).reply == shown(Ok(commands)),
{
    let mut admitted = admitted;
    let len = candidates.len();
    if alive && probed < len {
        let ghost before = admitted.deep_view();
        assert(candidates.deep_view()[probed as int] == candidates@[probed as int]@);
        admitted.push(candidates[probed].clone());
        assert(admitted.deep_view() =~= before.push(candidates@[probed as int]@));
    }
    let next = if probed < len {
        probed + 1
    } else {
        len
    };
    admit_from(ns, immediate, candidates, next, admitted, m)
}

} // verus!
