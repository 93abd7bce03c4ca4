//! What a store answers and what an operation returns.
use crate::entity::key;
use crate::entity::url;
use crate::error::{AppError, AppErrorKind, Fault};
use crate::text::strs;
use vstd::prelude::*;

verus! {

/// An answer of a store, or the result of an operation.
#[derive(Debug, PartialEq, Eq)]
pub enum Value {
    /// Nothing beyond the fact that the work was done.
    Unit,
    /// A yes or a no.
    Flag(bool),
    /// A number of members.
    Count(u64),
    /// One member, or none.
    Member(Option<String>),
    /// A list of members.
    Members(Vec<String>),
    /// The rank of a member of an ordered set, or none where it is no member.
    Rank(Option<u64>),
    /// The record of a key.
    Key(key::Model),
    /// The record of a key, or none where there is no such key.
    MaybeKey(Option<key::Model>),
    /// The records of some keys.
    Keys(Vec<key::Model>),
    /// The records of some URLs.
    Urls(Vec<url::Model>),
}

/// What a [`Value`] is to a contract.
pub enum ValueView {
    Unit,
    Flag(bool),
    Count(u64),
    Member(Option<Seq<char>>),
    Members(Seq<Seq<char>>),
    Rank(Option<u64>),
    Key(key::Row),
    MaybeKey(Option<key::Row>),
    Keys(Seq<key::Row>),
    Urls(Seq<url::Row>),
}

impl View for Value {
    type V = ValueView;

    open spec fn view(&self) -> ValueView {
        match self {
            Value::Unit => ValueView::Unit,
            Value::Flag(b) => ValueView::Flag(*b),
            Value::Count(n) => ValueView::Count(*n),
            Value::Member(m) => ValueView::Member(
                match m {
                    Some(s) => Some(s@),
                    None => None,
                },
            ),
            Value::Members(list) => ValueView::Members(strs(list@)),
            Value::Rank(r) => ValueView::Rank(*r),
            Value::Key(m) => ValueView::Key(m@),
            Value::MaybeKey(m) => ValueView::MaybeKey(
                match m {
                    Some(k) => Some(k@),
                    None => None,
                },
            ),
            Value::Keys(list) => ValueView::Keys(key::rows(list@)),
            Value::Urls(list) => ValueView::Urls(url::rows(list@)),
        }
    }
}

/// The form of a [`Value`], without what it holds.
#[derive(Clone, Copy, Debug, PartialEq, Eq, Structural)]
pub enum Form {
    Unit,
    Flag,
    Count,
    Member,
    Members,
    Rank,
    Key,
    MaybeKey,
    Keys,
    Urls,
}

/// What the result of an operation is to a contract.
pub open spec fn seen(result: Result<Value, AppError>) -> Result<ValueView, Fault> {
    match result {
        Ok(v) => Ok(v@),
        Err(e) => Err(e@),
    }
}

/// The fault of an answer that is not of the form that was asked for.
pub open spec fn invalid() -> Fault {
    Fault::bare(AppErrorKind::Invalid)
}

impl ValueView {
    /// The form of the value.
    pub open spec fn form(self) -> Form {
        match self {
            ValueView::Unit => Form::Unit,
            ValueView::Flag(_) => Form::Flag,
            ValueView::Count(_) => Form::Count,
            ValueView::Member(_) => Form::Member,
            ValueView::Members(_) => Form::Members,
            ValueView::Rank(_) => Form::Rank,
            ValueView::Key(_) => Form::Key,
            ValueView::MaybeKey(_) => Form::MaybeKey,
            ValueView::Keys(_) => Form::Keys,
            ValueView::Urls(_) => Form::Urls,
        }
    }

    /// Read as nothing: a fault where the value is of another form.
    pub open spec fn as_unit(self) -> Result<(), Fault> {
        match self {
            ValueView::Unit => Ok(()),
            _ => Err(invalid()),
        }
    }

    /// Read as a flag: a fault where the value is of another form.
    pub open spec fn as_flag(self) -> Result<bool, Fault> {
        match self {
            ValueView::Flag(b) => Ok(b),
            _ => Err(invalid()),
        }
    }

    /// Read as one member or none: a fault where the value is of another form.
    pub open spec fn as_member(self) -> Result<Option<Seq<char>>, Fault> {
        match self {
            ValueView::Member(m) => Ok(m),
            _ => Err(invalid()),
        }
    }

    /// Read as a list of members: a fault where the value is of another form.
    pub open spec fn as_members(self) -> Result<Seq<Seq<char>>, Fault> {
        match self {
            ValueView::Members(list) => Ok(list),
            _ => Err(invalid()),
        }
    }

    /// Read as the record of a key: a fault where the value is of another form.
    pub open spec fn as_key(self) -> Result<key::Row, Fault> {
        match self {
            ValueView::Key(m) => Ok(m),
            _ => Err(invalid()),
        }
    }

    /// Read as the record of a key or none: a fault where the value is of
    /// another form.
    pub open spec fn as_maybe_key(self) -> Result<Option<key::Row>, Fault> {
        match self {
            ValueView::MaybeKey(m) => Ok(m),
            _ => Err(invalid()),
        }
    }

    /// Read as the records of some keys: a fault where the value is of another
    /// form.
    pub open spec fn as_keys(self) -> Result<Seq<key::Row>, Fault> {
        match self {
            ValueView::Keys(list) => Ok(list),
            _ => Err(invalid()),
        }
    }
}

impl Value {
    /// The form of the value.
    pub fn form(&self) -> (form: Form)
        ensures
            form == self@.form(),
    {
        match self {
            Value::Unit => Form::Unit,
            Value::Flag(_) => Form::Flag,
            Value::Count(_) => Form::Count,
            Value::Member(_) => Form::Member,
            Value::Members(_) => Form::Members,
            Value::Rank(_) => Form::Rank,
            Value::Key(_) => Form::Key,
            Value::MaybeKey(_) => Form::MaybeKey,
            Value::Keys(_) => Form::Keys,
            Value::Urls(_) => Form::Urls,
        }
    }

    /// Nothing, where the value is [`Value::Unit`]; else the error of an invalid
    /// answer.
    pub fn into_unit(self) -> (r: Result<(), AppError>)
        ensures
            match r {
                Ok(u) => self@.as_unit() == Ok::<(), Fault>(u),
                Err(e) => self@.as_unit() == Err::<(), Fault>(e@),
            },
    {
        match self {
            Value::Unit => Ok(()),
            _ => Err(AppError::Invalid),
        }
    }

    /// The flag, where the value is a [`Value::Flag`]; else the error of an
    /// invalid answer.
    pub fn into_flag(self) -> (r: Result<bool, AppError>)
        ensures
            match r {
                Ok(b) => self@.as_flag() == Ok::<bool, Fault>(b),
                Err(e) => self@.as_flag() == Err::<bool, Fault>(e@),
            },
    {
        match self {
            Value::Flag(b) => Ok(b),
            _ => Err(AppError::Invalid),
        }
    }

    /// The member or none, where the value is a [`Value::Member`]; else the error
    /// of an invalid answer.
    pub fn into_member(self) -> (r: Result<Option<String>, AppError>)
        ensures
            match r {
                Ok(Some(s)) => self@.as_member() == Ok::<Option<Seq<char>>, Fault>(Some(s@)),
                Ok(None) => self@.as_member() == Ok::<Option<Seq<char>>, Fault>(None),
                Err(e) => self@.as_member() == Err::<Option<Seq<char>>, Fault>(e@),
            },
    {
        match self {
            Value::Member(m) => Ok(m),
            _ => Err(AppError::Invalid),
        }
    }

    /// The list, where the value is a [`Value::Members`]; else the error of an
    /// invalid answer.
    pub fn into_members(self) -> (r: Result<Vec<String>, AppError>)
        ensures
            match r {
                Ok(list) => self@.as_members() == Ok::<Seq<Seq<char>>, Fault>(strs(list@)),
                Err(e) => self@.as_members() == Err::<Seq<Seq<char>>, Fault>(e@),
            },
    {
        match self {
            Value::Members(list) => Ok(list),
            _ => Err(AppError::Invalid),
        }
    }

    /// The record, where the value is a [`Value::Key`]; else the error of an
    /// invalid answer.
    pub fn into_key(self) -> (r: Result<key::Model, AppError>)
        ensures
            match r {
                Ok(m) => self@.as_key() == Ok::<key::Row, Fault>(m@),
                Err(e) => self@.as_key() == Err::<key::Row, Fault>(e@),
            },
    {
        match self {
            Value::Key(m) => Ok(m),
            _ => Err(AppError::Invalid),
        }
    }

    /// The record or none, where the value is a [`Value::MaybeKey`]; else the
    /// error of an invalid answer.
    pub fn into_maybe_key(self) -> (r: Result<Option<key::Model>, AppError>)
        ensures
            match r {
                Ok(Some(m)) => self@.as_maybe_key() == Ok::<Option<key::Row>, Fault>(Some(m@)),
                Ok(None) => self@.as_maybe_key() == Ok::<Option<key::Row>, Fault>(None),
                Err(e) => self@.as_maybe_key() == Err::<Option<key::Row>, Fault>(e@),
            },
    {
        match self {
            Value::MaybeKey(m) => Ok(m),
            _ => Err(AppError::Invalid),
        }
    }

    /// The records, where the value is a [`Value::Keys`]; else the error of an
    /// invalid answer.
    pub fn into_keys(self) -> (r: Result<Vec<key::Model>, AppError>)
        ensures
            match r {
                Ok(list) => self@.as_keys() == Ok::<Seq<key::Row>, Fault>(key::rows(list@)),
                Err(e) => self@.as_keys() == Err::<Seq<key::Row>, Fault>(e@),
            },
    {
        match self {
            Value::Keys(list) => Ok(list),
            _ => Err(AppError::Invalid),
        }
    }
}

} // verus!
