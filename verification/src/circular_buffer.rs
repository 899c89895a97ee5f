//! An ordered buffer whose front can be moved to its back, so that its items
//! are handed out in turn.

use vstd::prelude::*;
use vstd::std_specs::slice::into_iter_elts;

verus! {

/// An ordered buffer of items.
#[derive(Debug, PartialEq, Eq)]
pub struct CircularBuffer<T> {
    items: Vec<T>,
}

impl<T> View for CircularBuffer<T> {
    type V = Seq<T>;

    closed spec fn view(&self) -> Seq<T> {
        self.items@
    }
}

/// The sequence after its front item has moved to its back. A sequence of
/// fewer than two items stays as it is.
pub open spec fn rotated<T>(items: Seq<T>) -> Seq<T> {
    if items.len() <= 1 {
        items
    } else {
        items.drop_first().push(items[0])
    }
}

impl<T> CircularBuffer<T> {
    /// An empty buffer.
    pub fn new() -> (b: Self)
        ensures
            b@ == Seq::<T>::empty(),
    {
        CircularBuffer { items: Vec::new() }
    }

    /// The number of items.
    pub fn len(&self) -> (n: usize)
        ensures
            n == self@.len(),
    {
        self.items.len()
    }

    /// Whether the buffer holds no item.
    pub fn is_empty(&self) -> (r: bool)
        ensures
            r == (self@.len() == 0),
    {
        self.items.len() == 0
    }

    /// Whether some item equals `data`, by the item type's own `==`. The
    /// items are compared front to back; the answer is `true` exactly when
    /// one comparison says so.
    pub fn contains(&self, data: &T) -> (r: bool) where T: PartialEq
        ensures
            r ==> exists|i: int|
                0 <= i < self@.len() && call_ensures(T::eq, (&#[trigger] self@[i], data), true),
            !r ==> forall|i: int|
                0 <= i < self@.len() ==> call_ensures(T::eq, (&#[trigger] self@[i], data), false),
    {
        let mut i: usize = 0;
        while i < self.items.len()
            invariant
                i <= self.items@.len(),
                forall|j: int|
                    0 <= j < i ==> call_ensures(T::eq, (&#[trigger] self.items@[j], data), false),
            decreases self.items@.len() - i,
        {
            if self.items[i] == *data {
                return true;
            }
            i += 1;
        }
        false
    }

    /// Puts `data` behind the last item.
    pub fn push_back(&mut self, data: T)
        ensures
            final(self)@ == old(self)@.push(data),
    {
        self.items.push(data);
    }

    /// Puts `data` before the first item.
    pub fn push_front(&mut self, data: T)
        ensures
            final(self)@ == seq![data] + old(self)@,
    {
        self.items.insert(0, data);
        assert(self.items@ =~= seq![data] + old(self).items@);
    }

    /// Takes the first item out, if there is one.
    pub fn pop_front(&mut self) -> (r: Option<T>)
        ensures
            old(self)@.len() == 0 ==> r is None && final(self)@ == old(self)@,
            old(self)@.len() > 0 ==> r == Some(old(self)@[0]) && final(self)@ == old(
                self,
            )@.drop_first(),
    {
        if self.is_empty() {
            None
        } else {
            let front = self.items.remove(0);
            assert(self.items@ =~= old(self).items@.drop_first());
            Some(front)
        }
    }

    /// Takes the last item out, if there is one.
    pub fn pop_back(&mut self) -> (r: Option<T>)
        ensures
            old(self)@.len() == 0 ==> r is None && final(self)@ == old(self)@,
            old(self)@.len() > 0 ==> r == Some(old(self)@.last()) && final(self)@ == old(
                self,
            )@.drop_last(),
    {
        self.items.pop()
    }

    /// The first item, if there is one.
    pub fn front(&self) -> (r: Option<&T>)
        ensures
            self@.len() == 0 ==> r is None,
            self@.len() > 0 ==> r == Some(&self@[0]),
    {
        self.items.first()
    }

    /// The last item, if there is one.
    pub fn back(&self) -> (r: Option<&T>)
        ensures
            self@.len() == 0 ==> r is None,
            self@.len() > 0 ==> r == Some(&self@.last()),
    {
        self.items.last()
    }

    /// An iterator over the items, front to back.
    pub fn iter(&self) -> (it: core::slice::Iter<'_, T>)
        ensures
            into_iter_elts(it) == self@,
    {
        self.items.iter()
    }

    /// The item at `index`, if there is one.
    pub fn get(&self, index: usize) -> (r: Option<&T>)
        ensures
            index >= self@.len() ==> r is None,
            index < self@.len() ==> r == Some(&self@[index as int]),
    {
        if index < self.items.len() {
            Some(&self.items[index])
        } else {
            None
        }
    }

    /// Takes the item at `index` out of the buffer, if there is one.
    pub fn remove(&mut self, index: usize) -> (r: Option<T>)
        ensures
            index >= old(self)@.len() ==> r is None && final(self)@ == old(self)@,
            index < old(self)@.len() ==> r == Some(old(self)@[index as int]) && final(self)@
                == old(self)@.remove(index as int),
    {
        if index >= self.len() {
            None
        } else {
            Some(self.items.remove(index))
        }
    }

    /// Moves the front item to the back.
    pub fn rotate(&mut self)
        ensures
            final(self)@ == rotated(old(self)@),
    {
        if self.len() <= 1 {
            return ;
        }
        let item = self.items.remove(0);
        self.items.push(item);
        assert(self.items@ =~= rotated(old(self).items@));
    }
}

} // verus!
