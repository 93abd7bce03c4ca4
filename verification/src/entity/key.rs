//! The record of an access key.
use vstd::prelude::*;

verus! {

/// An access key as the durable tier holds it: the identifier the tier assigned,
/// the user who owns the key, and the key's token.
#[derive(Debug, PartialEq, Eq)]
pub struct Model {
    pub id: i32,
    pub user_id: i64,
    pub key: String,
}

/// What a [`Model`] is to a contract.
pub struct Row {
    pub id: i32,
    pub user_id: i64,
    pub key: Seq<char>,
}

impl View for Model {
    type V = Row;

    open spec fn view(&self) -> Row {
        Row { id: self.id, user_id: self.user_id, key: self.key@ }
    }
}

impl Clone for Model {
    fn clone(&self) -> (copy: Self)
        ensures
            copy == *self,
    {
        Model { id: self.id, user_id: self.user_id, key: self.key.clone() }
    }
}

/// The views of a list of records.
pub open spec fn rows(list: Seq<Model>) -> Seq<Row> {
    list.map_values(|m: Model| m@)
}

/// The tokens of a list of records, in order.
pub open spec fn tokens(list: Seq<Row>) -> Seq<Seq<char>> {
    list.map_values(|r: Row| r.key)
}

} // verus!
