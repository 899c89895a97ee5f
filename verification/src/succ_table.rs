//! The successor list of a node: a fixed number of slots, the first of which
//! is the immediate successor and the others its followers, kept for
//! failover. Unused slots are empty.

use crate::strings::names;
use vstd::prelude::*;

verus! {

/// What a successor list holds: one optional endpoint per slot.
pub type SuccView = Seq<Option<Seq<char>>>;

/// A list of `n` empty slots.
pub open spec fn empty_slots(n: nat) -> SuccView {
    Seq::new(n, |i: int| None::<Seq<char>>)
}

/// The list after its first slot that names `id` is taken out: the slots
/// behind it move one place forward and the last slot becomes empty. A list
/// that does not name `id` stays as it is.
pub open spec fn without_successor(slots: SuccView, id: Seq<char>) -> SuccView {
    if slots.contains(Some(id)) {
        slots.remove_value(Some(id)).push(None)
    } else {
        slots
    }
}

/// The successor list of a node.
#[derive(Debug, PartialEq, Eq)]
pub struct SuccTable {
    pub entries: Vec<Option<String>>,
}

impl DeepView for SuccTable {
    type V = SuccView;

    open spec fn deep_view(&self) -> SuccView {
        self.entries.deep_view()
    }
}

impl View for SuccTable {
    type V = SuccView;

    open spec fn view(&self) -> SuccView {
        self.deep_view()
    }
}

impl Clone for SuccTable {
    fn clone(&self) -> (r: Self)
        ensures
            r@ == self@,
    {
        let entries = self.entries.clone();
        assert(entries.deep_view() =~= self.entries.deep_view());
        SuccTable { entries }
    }
}

impl SuccTable {
    /// A successor list of `n` empty slots.
    pub fn new(n: usize) -> (t: Self)
        ensures
            t@ == empty_slots(n as nat),
    {
        let mut entries: Vec<Option<String>> = Vec::new();
        let mut i: usize = 0;
        while i < n
            invariant
                i <= n,
                entries@.len() == i,
                forall|j: int| 0 <= j < i ==> entries@[j] is None,
            decreases n - i,
        {
            entries.push(None);
            i += 1;
        }
        assert(entries.deep_view() =~= empty_slots(n as nat));
        SuccTable { entries }
    }

    /// Takes the first slot that names `id` out of the list.
    pub fn remove_successor(&mut self, id: &str)
        ensures
            final(self)@ == without_successor(old(self)@, id@),
    {
        let ghost before = self@;
        proof {
            before.index_of_first_ensures(Some(id@));
        }
        match self.get_index(id) {
            Some(index) => {
                let len = self.entries.len();
                let mut i: usize = index;
                while i < len - 1
                    invariant
                        index <= i <= len - 1,
                        len == before.len(),
                        self.entries@.len() == len,
                        forall|j: int|
                            0 <= j < index ==> (#[trigger] self.entries@[j]).deep_view()
                                == before[j],
                        forall|j: int|
                            index <= j < i ==> (#[trigger] self.entries@[j]).deep_view()
                                == before[j + 1],
                        forall|j: int|
                            i <= j < len ==> (#[trigger] self.entries@[j]).deep_view()
                                == before[j],
                    decreases len - 1 - i,
                {
                    let next = self.entries[i + 1].clone();
                    self.entries[i] = next;
                    i += 1;
                }
                self.entries[len - 1] = None;
                assert(self@ =~= before.remove(index as int).push(None));
            },
            None => {},
        }
    }

    /// Empties every slot.
    pub fn clear(&mut self)
        ensures
            final(self)@ == empty_slots(old(self)@.len()),
    {
        let len = self.entries.len();
        let mut i: usize = 0;
        while i < len
            invariant
                i <= len,
                self.entries@.len() == len,
                forall|j: int| 0 <= j < i ==> self.entries@[j] is None,
            decreases len - i,
        {
            self.entries[i] = None;
            i += 1;
        }
        assert(self@ =~= empty_slots(len as nat));
    }

    /// Makes `id` the immediate successor.
    pub fn insert_first(&mut self, id: String)
        requires
            old(self)@.len() > 0,
        ensures
            final(self)@ == old(self)@.update(0, Some(id@)),
    {
        self.entries[0] = Some(id);
        assert(self@ =~= old(self)@.update(0, Some(id@)));
    }

    /// The immediate successor, if the first slot holds one.
    pub fn get_first(&self) -> (r: Option<&String>)
        requires
            self@.len() > 0,
        ensures
            r.deep_view() == self@[0],
    {
        self.entries[0].as_ref()
    }

    /// The first slot that names `id`.
    pub fn get_index(&self, id: &str) -> (r: Option<usize>)
        ensures
            match r {
                Some(i) => self@.index_of_first(Some(id@)) == Some(i as int),
                None => self@.index_of_first(Some(id@)) is None,
            },
    {
        let mut i: usize = 0;
        while i < self.entries.len()
            invariant
                i <= self.entries@.len(),
                forall|j: int| 0 <= j < i ==> self@[j] != Some(id@),
            decreases self.entries@.len() - i,
        {
            assert(self@[i as int] == self.entries@[i as int].deep_view());
            if names(&self.entries[i], id) {
                proof {
                    self@.index_of_first_ensures(Some(id@));
                    assert(self@.contains(Some(id@)));
                }
                return Some(i);
            }
            i += 1;
        }
        proof {
            self@.index_of_first_ensures(Some(id@));
        }
        None
    }

    /// Puts `id`, or nothing, into the slot at `index`.
    pub fn insert(&mut self, index: usize, id: Option<String>)
        requires
            index < old(self)@.len(),
        ensures
            final(self)@ == old(self)@.update(index as int, id.deep_view()),
    {
        let ghost shown = id.deep_view();
        self.entries[index] = id;
        assert(self@ =~= old(self)@.update(index as int, shown));
    }
}

} // verus!
