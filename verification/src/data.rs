//! The records that the table stores.

use vstd::prelude::*;

verus! {

/// One record: a key and the value stored under it.
#[derive(Debug, PartialEq, Eq)]
pub struct Data {
    pub key: String,
    pub value: String,
}

/// What a record holds, as text.
pub struct DataView {
    pub key: Seq<char>,
    pub value: Seq<char>,
}

impl DeepView for Data {
    type V = DataView;

    open spec fn deep_view(&self) -> DataView {
        DataView { key: self.key@, value: self.value@ }
    }
}

impl View for Data {
    type V = DataView;

    open spec fn view(&self) -> DataView {
        self.deep_view()
    }
}

impl Clone for Data {
    fn clone(&self) -> (r: Self)
        ensures
            r@ == self@,
    {
        Data { key: self.key.clone(), value: self.value.clone() }
    }
}

/// Types that can be made from a key and a value.
pub trait NewData: Sized {
    /// The key that a value of the type holds.
    spec fn held_key(&self) -> Seq<char>;

    /// The value that a value of the type holds.
    spec fn held_value(&self) -> Seq<char>;

    fn new(key: &str, value: &str) -> (r: Self)
        ensures
            r.held_key() == key@,
            r.held_value() == value@,
    ;
}

impl NewData for Data {
    open spec fn held_key(&self) -> Seq<char> {
        self.key@
    }

    open spec fn held_value(&self) -> Seq<char> {
        self.value@
    }

    fn new(key: &str, value: &str) -> (r: Self) {
        Data { key: key.to_owned(), value: value.to_owned() }
    }
}

/// A copy of a batch of records.
pub fn clone_records(records: &Vec<Data>) -> (r: Vec<Data>)
    ensures
        r.deep_view() == records.deep_view(),
{
    let r = records.clone();
    assert(r.deep_view() =~= records.deep_view());
    r
}

} // verus!
