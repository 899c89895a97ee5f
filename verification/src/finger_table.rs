//! The finger table of a node: for each bit `i` of the identifier space the
//! point `2^i` past the node, and the node believed to own that point.

use crate::hash::{hash, ring_size, spec_hash, MAX_BITS};
use crate::strings::names;
use vstd::arithmetic::power2::pow2;
use vstd::prelude::*;

verus! {

/// One finger: the point at which it starts and, once known, the node that
/// owns that point.
#[derive(Debug, PartialEq, Eq)]
pub struct FingerEntry {
    pub start: u32,
    pub id: Option<String>,
}

/// A finger: the point it starts at and the endpoint believed to own it.
pub struct FingerEntryView {
    pub start: u32,
    pub id: Option<Seq<char>>,
}

impl DeepView for FingerEntry {
    type V = FingerEntryView;

    open spec fn deep_view(&self) -> FingerEntryView {
        FingerEntryView { start: self.start, id: self.id.deep_view() }
    }
}

impl View for FingerEntry {
    type V = FingerEntryView;

    open spec fn view(&self) -> FingerEntryView {
        self.deep_view()
    }
}

impl Clone for FingerEntry {
    fn clone(&self) -> (r: Self)
        ensures
            r@ == self@,
    {
        FingerEntry { start: self.start, id: self.id.clone() }
    }
}

/// What a finger table holds, in index order.
pub type FingerView = Seq<FingerEntryView>;

/// The point at which finger `i` of the node with identifier `h` starts.
pub open spec fn finger_start(h: nat, i: nat, m: nat) -> nat {
    (h + pow2(i)) % pow2(m)
}

/// The starts of the fingers, in index order.
pub open spec fn starts(fingers: FingerView) -> Seq<u32> {
    Seq::new(fingers.len(), |i: int| fingers[i].start)
}

/// The fingers are those of the node `id` in an `m`-bit space: there are `m`
/// of them and finger `i` starts `2^i` past the node.
pub open spec fn fingers_of(fingers: FingerView, id: Seq<char>, m: nat) -> bool {
    &&& fingers.len() == m
    &&& forall|i: int|
        0 <= i < m ==> (#[trigger] fingers[i]).start == finger_start(
            spec_hash(id, m),
            i as nat,
            m,
        )
}

/// The fingers of the node `id` before any owner is known.
pub open spec fn fresh_fingers(id: Seq<char>, m: nat) -> FingerView {
    Seq::new(
        m,
        |i: int|
            FingerEntryView {
                start: finger_start(spec_hash(id, m), i as nat, m) as u32,
                id: None,
            },
    )
}

/// The fingers with every owner forgotten.
pub open spec fn without_owners(fingers: FingerView) -> FingerView {
    Seq::new(fingers.len(), |i: int| FingerEntryView { start: fingers[i].start, id: None })
}

/// The start of the finger behind the first one that starts at `start`.
pub open spec fn next_start(fingers: FingerView, start: u32) -> Option<u32> {
    match starts(fingers).index_of_first(start) {
        Some(p) => if p + 1 < fingers.len() {
            Some(fingers[p + 1].start)
        } else {
            None
        },
        None => None,
    }
}

/// The fingers after `owner` is recorded for the first one that starts at
/// `start`.
pub open spec fn with_owner(fingers: FingerView, start: u32, owner: Seq<char>) -> FingerView {
    match starts(fingers).index_of_first(start) {
        Some(p) => fingers.update(p, FingerEntryView { start: fingers[p].start, id: Some(owner) }),
        None => fingers,
    }
}

/// Whether recording `owner` for `start` changes the table.
pub open spec fn owner_changes(fingers: FingerView, start: u32, owner: Seq<char>) -> bool {
    match starts(fingers).index_of_first(start) {
        Some(p) => fingers[p].id != Some(owner),
        None => false,
    }
}

/// The fingers of a node, in index order.
#[derive(Debug, PartialEq, Eq)]
pub struct FingerTable {
    pub entries: Vec<FingerEntry>,
}

impl DeepView for FingerTable {
    type V = FingerView;

    open spec fn deep_view(&self) -> FingerView {
        self.entries.deep_view()
    }
}

impl View for FingerTable {
    type V = FingerView;

    open spec fn view(&self) -> FingerView {
        self.deep_view()
    }
}

impl Clone for FingerTable {
    fn clone(&self) -> (r: Self)
        ensures
            r@ == self@,
    {
        let entries = self.entries.clone();
        assert(entries.deep_view() =~= self.entries.deep_view());
        FingerTable { entries }
    }
}

impl FingerTable {
    /// The finger table of the node `id` in an `m`-bit space, with no owner
    /// known yet.
    pub fn new(id: String, m: u32) -> (t: Self)
        requires
            m <= MAX_BITS,
        ensures
            t@ == fresh_fingers(id@, m as nat),
            fingers_of(t@, id@, m as nat),
    {
        let own = hash(id.as_str(), m);
        let size = ring_size(m);
        let mut entries: Vec<FingerEntry> = Vec::new();
        let mut i: u32 = 0;
        while i < m
            invariant
                i <= m <= MAX_BITS,
                size == pow2(m as nat),
                0 < size <= 0x1_0000_0000,
                own == spec_hash(id@, m as nat),
                entries@.len() == i,
                forall|j: int|
                    0 <= j < i ==> (#[trigger] entries@[j]).start == finger_start(
                        own as nat,
                        j as nat,
                        m as nat,
                    ),
                forall|j: int| 0 <= j < i ==> (#[trigger] entries@[j]).id is None,
            decreases m - i,
        {
            let step = ring_size(i);
            let start = ((own as u64 + step) % size) as u32;
            entries.push(FingerEntry { start, id: None });
            i += 1;
        }
        let t = FingerTable { entries };
        proof {
            assert forall|j: int| 0 <= j < m implies (#[trigger] t@[j]).start == finger_start(
                spec_hash(id@, m as nat),
                j as nat,
                m as nat,
            ) by {
                assert(t@[j] == t.entries@[j].deep_view());
            }
            assert(t@ =~= fresh_fingers(id@, m as nat));
        }
        t
    }

    /// Forgets every owner; the starts stay.
    pub fn clear(&mut self)
        ensures
            final(self)@ == without_owners(old(self)@),
    {
        let ghost before = self@;
        let len = self.entries.len();
        let mut i: usize = 0;
        while i < len
            invariant
                i <= len,
                self.entries@.len() == len,
                before.len() == len,
                forall|j: int|
                    0 <= j < len ==> (#[trigger] self.entries@[j]).start == before[j].start,
                forall|j: int| 0 <= j < i ==> (#[trigger] self.entries@[j]).id is None,
                forall|j: int|
                    i <= j < len ==> (#[trigger] self.entries@[j]).deep_view() == before[j],
            decreases len - i,
        {
            let start = self.entries[i].start;
            self.entries[i] = FingerEntry { start, id: None };
            i += 1;
        }
        assert(self@ =~= without_owners(before));
    }

    /// The start of the first finger.
    pub fn get_first_entry(&self) -> (start: u32)
        requires
            self@.len() > 0,
        ensures
            start == self@[0].start,
    {
        self.entries[0].start
    }

    /// The first finger that starts at `start`.
    fn position(&self, start: u32) -> (r: Option<usize>)
        ensures
            match r {
                Some(p) => p < self.entries@.len() && starts(self@).index_of_first(start) == Some(
                    p as int,
                ),
                None => starts(self@).index_of_first(start) is None,
            },
    {
        let mut i: usize = 0;
        while i < self.entries.len()
            invariant
                i <= self.entries@.len(),
                forall|j: int| 0 <= j < i ==> starts(self@)[j] != start,
            decreases self.entries@.len() - i,
        {
            assert(starts(self@)[i as int] == self.entries@[i as int].start);
            if self.entries[i].start == start {
                proof {
                    starts(self@).index_of_first_ensures(start);
                    assert(starts(self@).contains(start));
                }
                return Some(i);
            }
            i += 1;
        }
        proof {
            starts(self@).index_of_first_ensures(start);
        }
        None
    }

    /// The start of the finger that follows the one starting at `index`, if
    /// there is such a finger and it is not the last.
    pub fn get_next_entry(&self, index: u32) -> (r: Option<u32>)
        ensures
            r == next_start(self@, index),
    {
        match self.position(index) {
            Some(current_pos) => {
                let len = self.entries.len();
                let next_pos = current_pos + 1;
                if next_pos >= len {
                    None
                } else {
                    Some(self.entries[next_pos].start)
                }
            },
            None => None,
        }
    }

    /// Records `id` as the owner of the finger that starts at `index`, and
    /// says whether that changed the table.
    pub fn update_entry(&mut self, index: u32, id: String) -> (changed: bool)
        ensures
            final(self)@ == with_owner(old(self)@, index, id@),
            changed == owner_changes(old(self)@, index, id@),
    {
        match self.position(index) {
            Some(p) => {
                assert(self@[p as int] == self.entries@[p as int].deep_view());
                let changed = !names(&self.entries[p].id, id.as_str());
                let start = self.entries[p].start;
                self.entries[p] = FingerEntry { start, id: Some(id) };
                assert(self@ =~= with_owner(old(self)@, index, id@));
                changed
            },
            None => false,
        }
    }
}

/// Fingers keep their starts when owners are recorded or forgotten.
pub proof fn lemma_fingers_keep_starts(fingers: FingerView, id: Seq<char>, m: nat, start: u32, owner: Seq<char>)
    requires
        fingers_of(fingers, id, m),
    ensures
        fingers_of(with_owner(fingers, start, owner), id, m),
        fingers_of(without_owners(fingers), id, m),
{
    starts(fingers).index_of_first_ensures(start);
}

} // verus!
