//! A whole round of stabilization: the steps of a node from the tick to
//! the proposal to its successor, taken against a world that says which
//! endpoints answer and what the immediate successor names.

use crate::command::{ChordError, CommandView, OutcomeView};
use crate::node::pending::PendingView;
use crate::node::stabilize::{
    admit_scan, merged, next_occupied, notify_script, promoted, scan, settle, stabilize_step,
};
use crate::node::{completed, NodeView, Script, Step};
use crate::node_state::{valid_state, NodeStateView};
use crate::succ_table::{without_successor, SuccView};
use vstd::prelude::*;

verus! {

/// The end of a command that a node waits for: what the node was waiting
/// for, and how the command ended.
pub struct Ending {
    pub pending: PendingView,
    pub outcome: OutcomeView,
}

/// How a command ends in a world where the endpoints in `alive` answer
/// and the immediate successor, asked for its successors, names `named`
/// or fails to. Commands whose end the node does not wait for have none.
pub open spec fn report(
    command: CommandView<PendingView>,
    alive: spec_fn(Seq<char>) -> bool,
    named: Option<Seq<Seq<char>>>,
) -> Option<Ending> {
    match command {
        CommandView::Send { to, message, pending: Some(pending) } => Some(
            Ending {
                pending,
                outcome: if alive(to) {
                    OutcomeView::Done
                } else {
                    OutcomeView::Failed
                },
            },
        ),
        CommandView::FetchSuccessors { from, pending } => Some(
            Ending {
                pending,
                outcome: match named {
                    Some(list) => OutcomeView::Successors { list },
                    None => OutcomeView::Failed,
                },
            },
        ),
        _ => None,
    }
}

/// Where a node stands after it has gone on from `step` for at most `fuel`
/// reports: as long as its answer is one command whose end it waits for,
/// the world's report on that command is handed to it.
pub open spec fn carried_on(
    node: NodeView,
    step: Step,
    alive: spec_fn(Seq<char>) -> bool,
    named: Option<Seq<Seq<char>>>,
    fuel: nat,
) -> Step
    decreases fuel,
{
    match step.reply {
        Ok(script) => if fuel > 0 && script.len() == 1 && report(script[0], alive, named)
            is Some {
            carried_on(
                node,
                completed(
                    NodeView { node_state: step.state, ..node },
                    report(script[0], alive, named)->0.pending,
                    report(script[0], alive, named)->0.outcome,
                ),
                alive,
                named,
                (fuel - 1) as nat,
            )
        } else {
            step
        },
        Err(e) => step,
    }
}

/// One round of stabilization of at most `fuel` reports.
pub open spec fn round(
    node: NodeView,
    alive: spec_fn(Seq<char>) -> bool,
    named: Option<Seq<Seq<char>>>,
    fuel: nat,
) -> Step {
    carried_on(node, stabilize_step(node.node_state), alive, named, fuel)
}

/// Every successor in the first `upto` slots answers.
pub open spec fn answering(slots: SuccView, alive: spec_fn(Seq<char>) -> bool, upto: int) -> bool {
    forall|j: int| 0 <= j < upto && j < slots.len() && slots[j] is Some ==> alive(slots[j]->0)
}

/// No empty slot stands before a slot that holds a successor.
pub open spec fn packed(slots: SuccView) -> bool {
    forall|i: int, j: int| 0 <= i < j < slots.len() && slots[j] is Some ==> slots[i] is Some
}

/// The number of slots at `from` or behind it that hold a successor.
pub open spec fn occupied_behind(slots: SuccView, from: int) -> nat
    decreases slots.len() - from,
{
    if from < 0 || from >= slots.len() {
        0
    } else if slots[from] is Some {
        1 + occupied_behind(slots, from + 1)
    } else {
        occupied_behind(slots, from + 1)
    }
}

/// What holds at the end of a round that began in the state `before`: the
/// node has kept its name, its predecessor, its fingers and the number of
/// its slots; every successor it lists has answered; it proposes itself to
/// its immediate successor, if it has one; and the list has no gap, where
/// it had none before or the immediate successor has named its successors.
pub open spec fn settled(
    before: NodeStateView,
    end: Step,
    alive: spec_fn(Seq<char>) -> bool,
    named: Option<Seq<Seq<char>>>,
) -> bool {
    &&& end.state.id == before.id
    &&& end.state.predecessor == before.predecessor
    &&& end.state.finger_table == before.finger_table
    &&& end.state.successor.len() == before.successor.len()
    &&& answering(end.state.successor, alive, end.state.successor.len() as int)
    &&& end.reply == Ok::<Script, ChordError>(notify_script(end.state))
    &&& named is Some || packed(before.successor) ==> packed(end.state.successor)
}

/// The next successor stands at or behind the place where the search
/// starts, and only empty slots stand between.
proof fn lemma_next_occupied(slots: SuccView, from: int)
    requires
        0 <= from,
    ensures
        match next_occupied(slots, from) {
            Some(j) => from <= j < slots.len() && slots[j] is Some && occupied_behind(slots, from)
                == 1 + occupied_behind(slots, j + 1) && forall|i: int|
                from <= i < j ==> slots[i] is None,
            None => occupied_behind(slots, from) == 0 && forall|i: int|
                from <= i < slots.len() ==> slots[i] is None,
        },
    decreases slots.len() - from,
{
    if from < slots.len() && slots[from] is None {
        lemma_next_occupied(slots, from + 1);
    }
}

/// Taking the slot at `at` out moves the slots behind it one place
/// forward and leaves as many successors behind `at` as stood behind
/// `at + 1`.
proof fn lemma_shift(slots: SuccView, at: int, from: int)
    requires
        0 <= at <= from,
        at < slots.len(),
    ensures
        occupied_behind(slots.remove(at).push(None), from) == occupied_behind(slots, from + 1),
    decreases slots.len() - from,
{
    let after = slots.remove(at).push(None);
    if from < slots.len() {
        lemma_shift(slots, at, from + 1);
        if from + 1 < slots.len() {
            assert(after[from] == slots[from + 1]);
        } else {
            assert(after[from] is None);
        }
    }
}

/// The test of the followers ends with the renewed list.
proof fn lemma_admit(
    node: NodeView,
    before: NodeStateView,
    ns: NodeStateView,
    immediate: Seq<char>,
    candidates: Seq<Seq<char>>,
    probed: int,
    admitted: Seq<Seq<char>>,
    alive: spec_fn(Seq<char>) -> bool,
    named: Option<Seq<Seq<char>>>,
    fuel: nat,
)
    requires
        named is Some,
        ns.id == before.id,
        ns.predecessor == before.predecessor,
        ns.finger_table == before.finger_table,
        ns.successor.len() == before.successor.len(),
        1 <= ns.successor.len() <= usize::MAX,
        candidates.len() < ns.successor.len(),
        0 <= probed <= candidates.len(),
        alive(immediate),
        forall|i: int| 0 <= i < admitted.len() ==> alive(#[trigger] admitted[i]),
        fuel >= candidates.len() - probed + 1,
    ensures
        settled(
            before,
            carried_on(
                node,
                admit_scan(ns, immediate, candidates, probed, admitted),
                alive,
                named,
                fuel,
            ),
            alive,
            named,
        ),
        carried_on(
            node,
            admit_scan(ns, immediate, candidates, probed, admitted),
            alive,
            named,
            fuel,
        ).state.successor[0] == Some(immediate),
    decreases candidates.len() - probed,
{
    let step = admit_scan(ns, immediate, candidates, probed, admitted);
    if probed < candidates.len() {
        let answers = alive(candidates[probed]);
        let more = if answers {
            admitted.push(candidates[probed])
        } else {
            admitted
        };
        assert(step.reply->Ok_0.len() == 1);
        assert(completed(
            NodeView { node_state: ns, ..node },
            report(step.reply->Ok_0[0], alive, named)->0.pending,
            report(step.reply->Ok_0[0], alive, named)->0.outcome,
        ) == admit_scan(ns, immediate, candidates, probed + 1, more));
        lemma_admit(
            node,
            before,
            ns,
            immediate,
            candidates,
            probed + 1,
            more,
            alive,
            named,
            (fuel - 1) as nat,
        );
    } else {
        let end = step.state.successor;
        assert(end == merged(ns.successor.len(), immediate, admitted));
        assert(answering(end, alive, end.len() as int));
        assert(packed(end));
    }
}

/// What is left of a round once every successor has been tested.
proof fn lemma_settle(
    node: NodeView,
    before: NodeStateView,
    ns: NodeStateView,
    alive: spec_fn(Seq<char>) -> bool,
    named: Option<Seq<Seq<char>>>,
    fuel: nat,
)
    requires
        ns.id == before.id,
        ns.predecessor == before.predecessor,
        ns.finger_table == before.finger_table,
        ns.successor.len() == before.successor.len(),
        1 <= ns.successor.len() <= usize::MAX,
        answering(ns.successor, alive, ns.successor.len() as int),
        packed(before.successor) ==> packed(ns.successor),
        fuel >= ns.successor.len() + 1,
    ensures
        settled(before, carried_on(node, settle(ns), alive, named, fuel), alive, named),
        ns.successor[0] is Some ==> carried_on(
            node,
            settle(ns),
            alive,
            named,
            fuel,
        ).state.successor[0] == ns.successor[0],
{
    let slots = ns.successor;
    lemma_next_occupied(slots, 1);
    let kept = promoted(slots);
    let state = settle(ns).state;
    assert(state.successor == kept);
    assert(answering(kept, alive, kept.len() as int));
    assert(packed(slots) ==> packed(kept)) by {
        if packed(slots) && slots[0] is None {
            assert forall|i: int| 1 <= i < slots.len() implies slots[i] is None by {}
            assert(next_occupied(slots, 1) is None);
        }
    }
    match kept[0] {
        Some(immediate) => {
            let step = settle(ns);
            assert(step.reply->Ok_0.len() == 1);
            match named {
                Some(list) => {
                    let room = slots.len() - 1;
                    let candidates = if list.len() > room {
                        list.take(room)
                    } else {
                        list
                    };
                    assert(completed(
                        NodeView { node_state: state, ..node },
                        report(step.reply->Ok_0[0], alive, named)->0.pending,
                        report(step.reply->Ok_0[0], alive, named)->0.outcome,
                    ) == admit_scan(state, immediate, candidates, 0, Seq::empty()));
                    lemma_admit(
                        node,
                        before,
                        state,
                        immediate,
                        candidates,
                        0,
                        Seq::empty(),
                        alive,
                        named,
                        (fuel - 1) as nat,
                    );
                },
                None => {
                    let next = completed(
                        NodeView { node_state: state, ..node },
                        report(step.reply->Ok_0[0], alive, named)->0.pending,
                        report(step.reply->Ok_0[0], alive, named)->0.outcome,
                    );
                    assert(next == Step { state, reply: Ok(notify_script(state)) });
                    assert(carried_on(node, next, alive, named, (fuel - 1) as nat) == next);
                },
            }
        },
        None => {
            assert forall|i: int| 0 <= i < kept.len() implies kept[i] is None by {}
            assert(packed(kept));
        },
    }
}

/// The test of the successors, and all that follows it, ends well: from a
/// state in which the successors before slot `from` have answered, the
/// round ends as [`settled`] says, and a successor in the first slot that
/// has been tested stays there.
proof fn lemma_scan(
    node: NodeView,
    before: NodeStateView,
    ns: NodeStateView,
    from: int,
    alive: spec_fn(Seq<char>) -> bool,
    named: Option<Seq<Seq<char>>>,
    fuel: nat,
)
    requires
        ns.id == before.id,
        ns.predecessor == before.predecessor,
        ns.finger_table == before.finger_table,
        ns.successor.len() == before.successor.len(),
        1 <= ns.successor.len() <= usize::MAX,
        0 <= from,
        answering(ns.successor, alive, from),
        packed(before.successor) ==> packed(ns.successor),
        fuel >= occupied_behind(ns.successor, from) + ns.successor.len() + 1,
    ensures
        settled(before, carried_on(node, scan(ns, from), alive, named, fuel), alive, named),
        from >= 1 && ns.successor[0] is Some ==> carried_on(
            node,
            scan(ns, from),
            alive,
            named,
            fuel,
        ).state.successor[0] == ns.successor[0],
    decreases occupied_behind(ns.successor, from),
{
    let slots = ns.successor;
    lemma_next_occupied(slots, from);
    match next_occupied(slots, from) {
        Some(j) => {
            let probed = slots[j]->0;
            let step = scan(ns, from);
            assert(step.reply->Ok_0.len() == 1);
            assert(j as usize == j);
            if alive(probed) {
                assert(completed(
                    NodeView { node_state: ns, ..node },
                    report(step.reply->Ok_0[0], alive, named)->0.pending,
                    report(step.reply->Ok_0[0], alive, named)->0.outcome,
                ) == scan(ns, j + 1));
                assert(answering(slots, alive, j + 1));
                lemma_scan(node, before, ns, j + 1, alive, named, (fuel - 1) as nat);
            } else {
                let rest = without_successor(slots, probed);
                slots.index_of_first_ensures(Some(probed));
                assert(slots.contains(Some(probed)));
                let first = slots.index_of_first(Some(probed))->0;
                assert(first == j) by {
                    if first < j {
                        if first < from {
                            assert(alive(slots[first]->0));
                        } else {
                            assert(slots[first] is None);
                        }
                    }
                }
                assert(rest == slots.remove(j).push(None));
                lemma_shift(slots, j, j);
                let cut = NodeStateView { successor: rest, ..ns };
                assert(completed(
                    NodeView { node_state: ns, ..node },
                    report(step.reply->Ok_0[0], alive, named)->0.pending,
                    report(step.reply->Ok_0[0], alive, named)->0.outcome,
                ) == scan(cut, j));
                assert(answering(rest, alive, j)) by {
                    assert forall|i: int| 0 <= i < j && i < rest.len() && rest[i]
                        is Some implies alive(rest[i]->0) by {
                        assert(rest[i] == slots[i]);
                    }
                }
                if j >= 1 {
                    assert(rest[0] == slots[0]);
                }
                assert(packed(slots) ==> packed(rest)) by {
                    if packed(slots) {
                        assert forall|i: int, k: int|
                            0 <= i < k < rest.len() && rest[k] is Some implies rest[i]
                            is Some by {
                            let a = if i < j {
                                i
                            } else {
                                i + 1
                            };
                            let b = if k < j {
                                k
                            } else {
                                k + 1
                            };
                            assert(rest[k] == slots[b]);
                            assert(rest[i] == slots[a]);
                        }
                    }
                }
                lemma_scan(node, before, cut, j, alive, named, (fuel - 1) as nat);
            }
        },
        None => {
            assert(scan(ns, from) == settle(ns));
            assert(answering(slots, alive, slots.len() as int));
            lemma_settle(node, before, ns, alive, named, fuel);
        },
    }
}

/// A round of stabilization ends well, whatever the length of the
/// successor list: given enough reports, twice the number of slots and
/// one more, the node ends the round with its name, predecessor and
/// fingers as they were and with as many slots; every successor that it
/// lists has answered a ping in this round; it proposes itself to its
/// immediate successor if it has one; and no empty slot stands before a
/// set one, where none did before or the immediate successor has named
/// its successors.
pub proof fn lemma_round_settles(
    node: NodeView,
    alive: spec_fn(Seq<char>) -> bool,
    named: Option<Seq<Seq<char>>>,
    fuel: nat,
)
    requires
        valid_state(node.node_state, node.m),
        node.node_state.successor.len() <= usize::MAX,
        node.node_state.successor[0] != Some(node.node_state.id),
        fuel >= 2 * node.node_state.successor.len() + 1,
    ensures
        settled(node.node_state, round(node, alive, named, fuel), alive, named),
{
    let ns = node.node_state;
    lemma_occupied_bound(ns.successor, 0);
    lemma_scan(node, ns, ns, 0, alive, named, fuel);
}

/// A dead immediate successor is replaced within one round, whatever the
/// length of the successor list: where the first slot holds a node that
/// does not answer and the second a node that does, the round ends with
/// the second node as immediate successor, with the proposal sent to it,
/// and with the dead node in no slot. A list without a gap ends without
/// one, whether or not the new successor names its successors.
pub proof fn lemma_round_replaces_dead_successor(
    node: NodeView,
    dead: Seq<char>,
    next: Seq<char>,
    alive: spec_fn(Seq<char>) -> bool,
    named: Option<Seq<Seq<char>>>,
    fuel: nat,
)
    requires
        valid_state(node.node_state, node.m),
        2 <= node.node_state.successor.len() <= usize::MAX,
        node.node_state.successor[0] == Some(dead),
        node.node_state.successor[1] == Some(next),
        dead != node.node_state.id,
        !alive(dead),
        alive(next),
        fuel >= 2 * node.node_state.successor.len() + 1,
    ensures
        settled(node.node_state, round(node, alive, named, fuel), alive, named),
        round(node, alive, named, fuel).state.successor[0] == Some(next),
        round(node, alive, named, fuel).reply == Ok::<Script, ChordError>(
            seq![
                CommandView::Send {
                    to: next,
                    message: crate::msg::MessageView::Notify { node_id: node.node_state.id },
                    pending: None,
                },
            ],
        ),
        !round(node, alive, named, fuel).state.successor.contains(Some(dead)),
        packed(node.node_state.successor) ==> packed(round(node, alive, named, fuel).state.successor),
{
    let ns = node.node_state;
    let slots = ns.successor;
    lemma_round_settles(node, alive, named, fuel);
    lemma_occupied_bound(slots, 0);
    // the first report: the dead successor does not answer
    let start = scan(ns, 0);
    assert(next_occupied(slots, 0) == Some(0int));
    slots.index_of_first_ensures(Some(dead));
    assert(slots.contains(Some(dead)));
    assert(slots.index_of_first(Some(dead)) == Some(0int));
    let rest = without_successor(slots, dead);
    let cut = NodeStateView { successor: rest, ..ns };
    assert(rest[0] == Some(next));
    assert(start.reply->Ok_0.len() == 1);
    assert(completed(
        NodeView { node_state: ns, ..node },
        report(start.reply->Ok_0[0], alive, named)->0.pending,
        report(start.reply->Ok_0[0], alive, named)->0.outcome,
    ) == scan(cut, 0));
    // the second report: its follower, now in the first slot, answers
    let second = scan(cut, 0);
    assert(next_occupied(rest, 0) == Some(0int));
    assert(second.reply->Ok_0.len() == 1);
    assert(completed(
        NodeView { node_state: cut, ..node },
        report(second.reply->Ok_0[0], alive, named)->0.pending,
        report(second.reply->Ok_0[0], alive, named)->0.outcome,
    ) == scan(cut, 1));
    lemma_shift(slots, 0, 0);
    lemma_next_occupied(slots, 0);
    lemma_next_occupied(rest, 0);
    lemma_occupied_bound(rest, 1);
    assert(answering(rest, alive, 1));
    lemma_scan(node, ns, cut, 1, alive, named, (fuel - 2) as nat);
    let end = round(node, alive, named, fuel);
    assert(end == carried_on(node, scan(cut, 1), alive, named, (fuel - 2) as nat)) by {
        reveal_with_fuel(carried_on, 3);
    }
    assert(!end.state.successor.contains(Some(dead))) by {
        if end.state.successor.contains(Some(dead)) {
            let i = choose|i: int|
                0 <= i < end.state.successor.len() && end.state.successor[i] == Some(dead);
            assert(alive(end.state.successor[i]->0));
        }
    }
}

/// There are no more successors behind a slot than slots.
proof fn lemma_occupied_bound(slots: SuccView, from: int)
    requires
        0 <= from,
    ensures
        occupied_behind(slots, from) <= slots.len() - from || occupied_behind(slots, from) == 0,
    decreases slots.len() - from,
{
    if from < slots.len() {
        lemma_occupied_bound(slots, from + 1);
    }
}

} // verus!
