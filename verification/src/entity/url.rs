//! The record of a destination URL.
use vstd::prelude::*;

verus! {

/// A destination URL as the durable tier holds it: the identifier of the key it
/// belongs to, and the URL.
#[derive(Debug, PartialEq, Eq)]
pub struct Model {
    pub id: i32,
    pub url: String,
}

/// What a [`Model`] is to a contract.
pub struct Row {
    pub id: i32,
    pub url: Seq<char>,
}

impl View for Model {
    type V = Row;

    open spec fn view(&self) -> Row {
        Row { id: self.id, url: self.url@ }
    }
}

impl Clone for Model {
    fn clone(&self) -> (copy: Self)
        ensures
            copy == *self,
    {
        Model { id: self.id, url: self.url.clone() }
    }
}

/// The views of a list of records.
pub open spec fn rows(list: Seq<Model>) -> Seq<Row> {
    list.map_values(|m: Model| m@)
}

/// The URLs of a list of records, in order.
pub open spec fn addresses(list: Seq<Row>) -> Seq<Seq<char>> {
    list.map_values(|r: Row| r.url)
}

} // verus!
