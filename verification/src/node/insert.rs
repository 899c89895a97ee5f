//! Insertion: a node keeps the records whose keys lie on its own arc and
//! hands the others to its successor.

use crate::command::{ChordError, Command, CommandView};
use crate::data::{Data, DataView};
use crate::hash::{hash, spec_hash};
use crate::node::notify::arc_start;
use crate::node::pending::{Pending, PendingView};
use crate::node::{shown, Commands, Script};
use crate::node_state::{NodeState, NodeStateView};
use crate::ring::{between, is_between};
use crate::store::{rows_of, to_rows, StoreOp, StoreOpView};
use vstd::prelude::*;

verus! {

/// Whether the key of `record` lies on the node's own arc.
pub open spec fn belongs(ns: NodeStateView, record: DataView, m: u32) -> bool {
    between(
        arc_start(ns, m),
        spec_hash(record.key, m as nat) as int,
        spec_hash(ns.id, m as nat) as int,
    )
}

/// The records of a batch that belong to the node, in the order of the
/// batch.
pub open spec fn kept(ns: NodeStateView, records: Seq<DataView>, m: u32) -> Seq<DataView> {
    records.filter(|record: DataView| belongs(ns, record, m))
}

/// The records of a batch that belong elsewhere, in the order of the batch.
pub open spec fn passed_on(ns: NodeStateView, records: Seq<DataView>, m: u32) -> Seq<DataView> {
    records.filter(|record: DataView| !belongs(ns, record, m))
}

/// The store request for the records that stay, if there are any.
pub open spec fn keep_script(ns: NodeStateView, records: Seq<DataView>, m: u32) -> Script {
    if kept(ns, records, m).len() > 0 {
        seq![
            CommandView::Store {
                op: StoreOpView::Insert { rows: rows_of(kept(ns, records, m), m as nat) },
                pending: Some(PendingView::Write),
            },
        ]
    } else {
        Seq::empty()
    }
}

/// What a node does with a batch of records. The records that belong to it
/// go to its store, which has to succeed; the others go to its immediate
/// successor. A node without a successor keeps what belongs to it all the
/// same, and refuses a batch of which nothing belongs to it.
pub open spec fn insert_reply(ns: NodeStateView, records: Seq<DataView>, m: u32) -> Result<
    Script,
    ChordError,
> {
    if passed_on(ns, records, m).len() == 0 {
        Ok(keep_script(ns, records, m))
    } else {
        match ns.successor[0] {
            Some(successor) => Ok(
                keep_script(ns, records, m) + seq![
                    CommandView::Insert {
                        to: successor,
                        records: passed_on(ns, records, m),
                        pending: None,
                    },
                ],
            ),
            None => if kept(ns, records, m).len() > 0 {
                Ok(keep_script(ns, records, m))
            } else {
                Err(ChordError::NotInRing)
            },
        }
    }
}

/// Splits a batch of records between the node's store and its successor.
pub fn handle_insert(ns: &NodeState, data_to_ins: Vec<Data>, m: u32) -> (reply: Result<
    Commands,
    ChordError,
>)
    requires
        ns.wf(m),
    ensures
        shown(reply) == insert_reply(ns@, data_to_ins.deep_view(), m),
{
    let node_hash = hash(ns.id.as_str(), m);
    let prev_hash = match &ns.predecessor {
        Some(id) => hash(id.as_str(), m),
        None => node_hash,
    };
    let ghost state = ns@;
    let ghost batch = data_to_ins.deep_view();
    let ghost stays = |record: DataView| belongs(state, record, m);
    let ghost goes = |record: DataView| !belongs(state, record, m);
    let mut local_data: Vec<Data> = Vec::new();
    let mut forward_data: Vec<Data> = Vec::new();
    assert(batch.take(0).filter(stays) =~= Seq::<DataView>::empty());
    assert(batch.take(0).filter(goes) =~= Seq::<DataView>::empty());
    assert(local_data.deep_view() =~= Seq::<DataView>::empty());
    assert(forward_data.deep_view() =~= Seq::<DataView>::empty());
    let mut i: usize = 0;
    while i < data_to_ins.len()
        invariant
            i <= data_to_ins@.len(),
            1 <= m <= crate::hash::MAX_BITS,
            batch == data_to_ins.deep_view(),
            state == ns@,
            stays == |record: DataView| belongs(state, record, m),
            goes == |record: DataView| !belongs(state, record, m),
            node_hash == spec_hash(state.id, m as nat),
            prev_hash == arc_start(state, m),
            local_data.deep_view() == batch.take(i as int).filter(stays),
            forward_data.deep_view() == batch.take(i as int).filter(goes),
        decreases data_to_ins@.len() - i,
    {
        let item = &data_to_ins[i];
        let data_hash = hash(item.key.as_str(), m);
        let ghost locals = local_data.deep_view();
        let ghost others = forward_data.deep_view();
        proof {
            assert(batch[i as int] == item@);
            assert(batch.take(i + 1).drop_last() =~= batch.take(i as int));
            assert(batch.take(i + 1).last() == item@);
            reveal(Seq::filter);
        }
        if is_between(prev_hash, data_hash, node_hash) {
            local_data.push(item.clone());
            assert(local_data.deep_view() =~= locals.push(item@));
        } else {
            forward_data.push(item.clone());
            assert(forward_data.deep_view() =~= others.push(item@));
        }
        i += 1;
    }
    assert(batch.take(i as int) =~= batch);
    let mut commands: Commands = Vec::new();
    assert(commands.deep_view() =~= Seq::empty());
    if local_data.len() > 0 {
        let rows = to_rows(&local_data, m);
        commands.push(Command::Store { op: StoreOp::Insert { rows }, pending: Some(Pending::Write) });
        assert(commands.deep_view() =~= keep_script(state, batch, m));
    }
    if forward_data.len() > 0 {
        match ns.successor.get_first() {
            Some(successor) => {
                let ghost before = commands.deep_view();
                let ghost sent = forward_data.deep_view();
                commands.push(
                    Command::Insert { to: successor.clone(), records: forward_data, pending: None },
                );
                assert(commands.deep_view() =~= before + seq![
                    CommandView::Insert { to: successor@, records: sent, pending: None },
                ]);
            },
            None => {
                if commands.len() == 0 {
                    return Err(ChordError::NotInRing);
                }
            },
        }
    }
    Ok(commands)
}

} // verus!
