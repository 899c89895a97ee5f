//! What the routing logic asks of the node's local store. The store keeps
//! each record with the ring identifier of its key, so that the records of
//! an arc of the ring can be read and dropped together.

use crate::data::{Data, DataView};
use crate::hash::{hash, spec_hash, MAX_BITS};
use vstd::prelude::*;

verus! {

/// A set of key hashes: all of them, or an arc of the ring.
#[derive(Clone, Copy, Debug, PartialEq, Eq, Structural)]
pub enum KeyRange {
    /// Every key hash.
    All,
    /// The hashes above `start` and up to `end`.
    Span { start: u32, end: u32 },
    /// The hashes above `start` together with those up to `end`: an arc
    /// that runs over the top of the ring.
    Wrap { start: u32, end: u32 },
}

impl KeyRange {
    /// Whether the range holds `keyhash`.
    pub open spec fn covers(self, keyhash: int) -> bool {
        match self {
            KeyRange::All => true,
            KeyRange::Span { start, end } => start < keyhash && keyhash <= end,
            KeyRange::Wrap { start, end } => keyhash > start || keyhash <= end,
        }
    }

    /// The range between two optional bounds: with both bounds and `start`
    /// not above `end`, the hashes in `(start, end]`; with both bounds and
    /// `start` above `end`, the hashes above `start` or up to `end`; with a
    /// bound missing, every hash.
    pub open spec fn between_bounds(start: Option<u32>, end: Option<u32>) -> KeyRange {
        match (start, end) {
            (Some(start), Some(end)) => if start <= end {
                KeyRange::Span { start, end }
            } else {
                KeyRange::Wrap { start, end }
            },
            _ => KeyRange::All,
        }
    }

    /// The range between two optional bounds.
    pub fn of(start_hash: Option<u32>, end_hash: Option<u32>) -> (range: KeyRange)
        ensures
            range == KeyRange::between_bounds(start_hash, end_hash),
    {
        match (start_hash, end_hash) {
            (Some(start), Some(end)) => {
                if start <= end {
                    KeyRange::Span { start, end }
                } else {
                    KeyRange::Wrap { start, end }
                }
            },
            _ => KeyRange::All,
        }
    }

    /// Whether the range holds `keyhash`.
    pub fn selects(&self, keyhash: u32) -> (r: bool)
        ensures
            r == self.covers(keyhash as int),
    {
        match self {
            KeyRange::All => true,
            KeyRange::Span { start, end } => keyhash > *start && keyhash <= *end,
            KeyRange::Wrap { start, end } => keyhash > *start || keyhash <= *end,
        }
    }
}

/// A record as the store keeps it: with the ring identifier of its key.
#[derive(Debug, PartialEq, Eq)]
pub struct Row {
    pub key: String,
    pub value: String,
    pub keyhash: u32,
}

/// What a stored record holds, as text.
pub struct RowView {
    pub key: Seq<char>,
    pub value: Seq<char>,
    pub keyhash: u32,
}

impl DeepView for Row {
    type V = RowView;

    open spec fn deep_view(&self) -> RowView {
        RowView { key: self.key@, value: self.value@, keyhash: self.keyhash }
    }
}

impl View for Row {
    type V = RowView;

    open spec fn view(&self) -> RowView {
        self.deep_view()
    }
}

/// The row that a record becomes in the store of an `m`-bit ring.
pub open spec fn row_of(record: DataView, m: nat) -> RowView {
    RowView { key: record.key, value: record.value, keyhash: spec_hash(record.key, m) as u32 }
}

/// The rows that a batch of records becomes, in the order of the batch.
pub open spec fn rows_of(records: Seq<DataView>, m: nat) -> Seq<RowView> {
    Seq::new(records.len(), |i: int| row_of(records[i], m))
}

/// Gives each record of a batch the ring identifier of its key.
pub fn to_rows(records: &Vec<Data>, m: u32) -> (rows: Vec<Row>)
    requires
        m <= MAX_BITS,
    ensures
        rows.deep_view() == rows_of(records.deep_view(), m as nat),
{
    let mut rows: Vec<Row> = Vec::new();
    let mut i: usize = 0;
    while i < records.len()
        invariant
            i <= records@.len(),
            m <= MAX_BITS,
            rows@.len() == i,
            forall|j: int|
                0 <= j < i ==> (#[trigger] rows@[j]).deep_view() == row_of(
                    records@[j].deep_view(),
                    m as nat,
                ),
        decreases records@.len() - i,
    {
        let record = &records[i];
        let keyhash = hash(record.key.as_str(), m);
        rows.push(Row { key: record.key.clone(), value: record.value.clone(), keyhash });
        i += 1;
    }
    assert(rows.deep_view() =~= rows_of(records.deep_view(), m as nat));
    rows
}

/// One request to the local store.
#[derive(Debug, PartialEq, Eq)]
pub enum StoreOp {
    /// Add the rows.
    Insert { rows: Vec<Row> },
    /// Read the records stored under exactly this key.
    SelectKey { key: String },
    /// Read the records whose key hashes lie in the range, ordered by
    /// key hash.
    Select { range: KeyRange },
    /// Drop the records whose key hashes lie in the range.
    Delete { range: KeyRange },
}

/// What a store request says, as text.
pub enum StoreOpView {
    Insert { rows: Seq<RowView> },
    SelectKey { key: Seq<char> },
    Select { range: KeyRange },
    Delete { range: KeyRange },
}

impl DeepView for StoreOp {
    type V = StoreOpView;

    open spec fn deep_view(&self) -> StoreOpView {
        match self {
            StoreOp::Insert { rows } => StoreOpView::Insert { rows: rows.deep_view() },
            StoreOp::SelectKey { key } => StoreOpView::SelectKey { key: key@ },
            StoreOp::Select { range } => StoreOpView::Select { range: *range },
            StoreOp::Delete { range } => StoreOpView::Delete { range: *range },
        }
    }
}

impl View for StoreOp {
    type V = StoreOpView;

    open spec fn view(&self) -> StoreOpView {
        self.deep_view()
    }
}

} // verus!
