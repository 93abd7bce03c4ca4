//! The operations on the durable tier, each as a short script of orders with a
//! decision after every answer.
use crate::dao::mysql::command::{DbCommand, DbCommandView};
use crate::dao::mysql::disk::{lemma_apply_keeps_wf, Durable};
use crate::entity::url;
use crate::error::{AppError, AppErrorKind, Fault};
use crate::text::strs;
use crate::value::{invalid, seen, Form, Value, ValueView};
use vstd::prelude::*;

verus! {

/// An operation on the durable tier.
#[derive(Debug, PartialEq, Eq)]
pub enum DbCall {
    /// Record a new key for a user.
    AddKey { user_id: i64, key: String },
    /// Look a key up by its token.
    CheckKey { key: String },
    /// List the keys of a user.
    GetUserKeys { user_id: i64 },
    /// Record a URL under a key.
    AddUrl { key: String, url: String },
    /// List the URLs of a key.
    GetUrls { key: String },
    /// Delete a URL of a key.
    DeleteUrl { key: String, url: String },
    /// Delete the record of a key.
    DeleteKey { key: String },
    /// Look a key up by its token.
    GetKey { key: String },
}

/// What a [`DbCall`] is to a contract.
pub enum DbCallView {
    AddKey { user_id: i64, key: Seq<char> },
    CheckKey { key: Seq<char> },
    GetUserKeys { user_id: i64 },
    AddUrl { key: Seq<char>, url: Seq<char> },
    GetUrls { key: Seq<char> },
    DeleteUrl { key: Seq<char>, url: Seq<char> },
    DeleteKey { key: Seq<char> },
    GetKey { key: Seq<char> },
}

impl View for DbCall {
    type V = DbCallView;

    open spec fn view(&self) -> DbCallView {
        match self {
            DbCall::AddKey { user_id, key } => DbCallView::AddKey { user_id: *user_id, key: key@ },
            DbCall::CheckKey { key } => DbCallView::CheckKey { key: key@ },
            DbCall::GetUserKeys { user_id } => DbCallView::GetUserKeys { user_id: *user_id },
            DbCall::AddUrl { key, url } => DbCallView::AddUrl { key: key@, url: url@ },
            DbCall::GetUrls { key } => DbCallView::GetUrls { key: key@ },
            DbCall::DeleteUrl { key, url } => DbCallView::DeleteUrl { key: key@, url: url@ },
            DbCall::DeleteKey { key } => DbCallView::DeleteKey { key: key@ },
            DbCall::GetKey { key } => DbCallView::GetKey { key: key@ },
        }
    }
}

/// What follows an answer: the next order of the script, for the key with the
/// identifier that was found, or the end of the operation with its result.
pub enum DbVerdict {
    Proceed(i32),
    Finish(Result<ValueView, Fault>),
}

impl DbCallView {
    /// The token of the key that the operation is about, where it is about one
    /// that has to be on record.
    pub open spec fn subject(self) -> Option<Seq<char>> {
        match self {
            DbCallView::AddUrl { key, .. } => Some(key),
            DbCallView::GetUrls { key } => Some(key),
            DbCallView::DeleteUrl { key, .. } => Some(key),
            DbCallView::DeleteKey { key } => Some(key),
            _ => None,
        }
    }

    /// The number of orders in the script of the operation.
    pub open spec fn steps(self) -> nat {
        if self.subject() is Some {
            2
        } else {
            1
        }
    }

    /// The order at a place of the script; `id` is the identifier of the key
    /// that the order before it found.
    pub open spec fn command(self, step: nat, id: i32) -> DbCommandView {
        match self {
            DbCallView::AddKey { user_id, key } => DbCommandView::InsertKey { user_id, key },
            DbCallView::CheckKey { key } => DbCommandView::FindKey { key },
            DbCallView::GetKey { key } => DbCommandView::FindKey { key },
            DbCallView::GetUserKeys { user_id } => DbCommandView::FindKeysOfUser { user_id },
            DbCallView::AddUrl { key, url } => if step == 0 {
                DbCommandView::FindKey { key }
            } else {
                DbCommandView::InsertUrl { id, url }
            },
            DbCallView::GetUrls { key } => if step == 0 {
                DbCommandView::FindKey { key }
            } else {
                DbCommandView::FindUrls { id }
            },
            DbCallView::DeleteUrl { key, url } => if step == 0 {
                DbCommandView::FindKey { key }
            } else {
                DbCommandView::DeleteUrl { id, url }
            },
            DbCallView::DeleteKey { key } => if step == 0 {
                DbCommandView::FindKey { key }
            } else {
                DbCommandView::DeleteKey { id }
            },
        }
    }

    /// The form of the answer that the order at a place of the script asks for.
    pub open spec fn expects(self, step: nat) -> Form {
        if step + 1 < self.steps() {
            Form::MaybeKey
        } else {
            match self {
                DbCallView::AddKey { .. } => Form::Key,
                DbCallView::CheckKey { .. } => Form::MaybeKey,
                DbCallView::GetKey { .. } => Form::MaybeKey,
                DbCallView::GetUserKeys { .. } => Form::Keys,
                DbCallView::GetUrls { .. } => Form::Urls,
                _ => Form::Unit,
            }
        }
    }

    /// What follows the answer to the order at a place of the script. A failure
    /// of the tier ends the operation with that failure, an answer of another
    /// form than was asked for ends it as invalid. Otherwise: where the key
    /// that the operation is about is not on record the operation ends with
    /// the key not found, else it goes on under the key's identifier; the last
    /// answer of a script is the result, records of URLs read as the URLs.
    pub open spec fn judge(self, step: nat, reply: Result<ValueView, Fault>) -> DbVerdict {
        match reply {
            Err(fault) => DbVerdict::Finish(Err(fault)),
            Ok(answer) => if answer.form() != self.expects(step) {
                DbVerdict::Finish(Err(invalid()))
            } else if step + 1 < self.steps() {
                match answer {
                    ValueView::MaybeKey(Some(row)) => DbVerdict::Proceed(row.id),
                    _ => DbVerdict::Finish(Err(Fault::bare(AppErrorKind::KeyNotFound))),
                }
            } else {
                match answer {
                    ValueView::Urls(rows) => DbVerdict::Finish(
                        Ok(ValueView::Members(url::addresses(rows))),
                    ),
                    _ => DbVerdict::Finish(Ok(answer)),
                }
            },
        }
    }
}

/// The tier after an operation, and the result of the operation, said
/// directly.
pub open spec fn db_answer(tier: Durable, call: DbCallView) -> (Durable, Result<ValueView, Fault>) {
    match call {
        DbCallView::AddKey { user_id, key } => tier.insert_key(user_id, key),
        DbCallView::CheckKey { key } => (tier, Ok(ValueView::MaybeKey(tier.find(key)))),
        DbCallView::GetKey { key } => (tier, Ok(ValueView::MaybeKey(tier.find(key)))),
        DbCallView::GetUserKeys { user_id } => tier.apply(
            DbCommandView::FindKeysOfUser { user_id },
        ),
        DbCallView::AddUrl { key, url } => match tier.find(key) {
            Some(row) => (tier.with_url(row.id, url), Ok(ValueView::Unit)),
            None => (tier, Err(Fault::bare(AppErrorKind::KeyNotFound))),
        },
        DbCallView::GetUrls { key } => match tier.find(key) {
            Some(row) => (tier, Ok(ValueView::Members(tier.addresses(row.id)))),
            None => (tier, Err(Fault::bare(AppErrorKind::KeyNotFound))),
        },
        DbCallView::DeleteUrl { key, url } => match tier.find(key) {
            Some(row) => (tier.without_url(row.id, url), Ok(ValueView::Unit)),
            None => (tier, Err(Fault::bare(AppErrorKind::KeyNotFound))),
        },
        DbCallView::DeleteKey { key } => match tier.find(key) {
            Some(row) => (tier.without_key(row.id), Ok(ValueView::Unit)),
            None => (tier, Err(Fault::bare(AppErrorKind::KeyNotFound))),
        },
    }
}

/// The tier and the result when the script of an operation is carried out from
/// a place on: each order is given to the tier, and the answer is judged.
pub open spec fn db_run(tier: Durable, call: DbCallView, step: nat, id: i32) -> (
    Durable,
    Result<ValueView, Fault>,
)
    decreases call.steps() - step,
{
    let (next, reply) = tier.apply(call.command(step, id));
    match call.judge(step, reply) {
        DbVerdict::Finish(result) => (next, result),
        DbVerdict::Proceed(found) => if step + 1 < call.steps() {
            db_run(next, call, step + 1, found)
        } else {
            (next, Err(invalid()))
        },
    }
}

/// Carrying out the script of an operation order by order gives what the
/// operation is said to give.
pub proof fn lemma_db_run_is_answer(tier: Durable, call: DbCallView)
    ensures
        db_run(tier, call, 0, 0) == db_answer(tier, call),
{
    reveal_with_fuel(db_run, 3);
}

/// A script never asks to go on after its last order.
pub proof fn lemma_db_script_ends(call: DbCallView, step: nat, reply: Result<ValueView, Fault>)
    ensures
        call.judge(step, reply) is Proceed ==> step + 1 < call.steps(),
{
}

/// An operation on the durable tier that waits for the answer to one of its
/// orders.
#[derive(Debug, PartialEq, Eq)]
pub struct DbOp {
    call: DbCall,
    step: u8,
    id: i32,
}

/// What a [`DbOp`] is to a contract: the operation, the place in its script of
/// the order that it waits on, and the identifier of the key that it found.
pub struct DbOpView {
    pub call: DbCallView,
    pub step: nat,
    pub id: i32,
}

impl View for DbOp {
    type V = DbOpView;

    closed spec fn view(&self) -> DbOpView {
        DbOpView { call: self.call@, step: self.step as nat, id: self.id }
    }
}

/// The state of an operation on the durable tier between two answers: it asks
/// for an order to be carried out, or it is done.
#[derive(Debug, PartialEq, Eq)]
pub enum DbTurn {
    Ask(DbOp, DbCommand),
    Done(Result<Value, AppError>),
}

/// What a [`DbTurn`] is to a contract.
pub enum DbTurnView {
    Ask(DbOpView, DbCommandView),
    Done(Result<ValueView, Fault>),
}

impl View for DbTurn {
    type V = DbTurnView;

    open spec fn view(&self) -> DbTurnView {
        match self {
            DbTurn::Ask(op, command) => DbTurnView::Ask(op@, command@),
            DbTurn::Done(result) => DbTurnView::Done(seen(*result)),
        }
    }
}

/// The first turn of an operation: the first order of its script.
pub open spec fn db_begin(call: DbCallView) -> DbTurnView {
    DbTurnView::Ask(DbOpView { call, step: 0, id: 0 }, call.command(0, 0))
}

/// The turn after an answer: the next order of the script, or the result.
pub open spec fn db_resume(op: DbOpView, reply: Result<ValueView, Fault>) -> DbTurnView {
    match op.call.judge(op.step, reply) {
        DbVerdict::Finish(result) => DbTurnView::Done(result),
        DbVerdict::Proceed(found) => DbTurnView::Ask(
            DbOpView { call: op.call, step: op.step + 1, id: found },
            op.call.command(op.step + 1, found),
        ),
    }
}

/// The URLs of a list of records, in order.
pub fn addresses_of(list: Vec<url::Model>) -> (urls: Vec<String>)
    ensures
        strs(urls@) == url::addresses(url::rows(list@)),
{
    let mut urls: Vec<String> = Vec::new();
    let mut i: usize = 0;
    while i < list.len()
        invariant
            i <= list.len(),
            urls.len() == i,
            forall|j: int| 0 <= j < i ==> urls[j]@ == list[j].url@,
        decreases list.len() - i,
    {
        urls.push(list[i].url.clone());
        i += 1;
    }
    assert(strs(urls@) =~= url::addresses(url::rows(list@)));
    urls
}

impl DbCall {
    fn steps(&self) -> (count: u8)
        ensures
            count == self@.steps(),
            1 <= count <= 2,
    {
        match self {
            DbCall::AddUrl { .. } => 2,
            DbCall::GetUrls { .. } => 2,
            DbCall::DeleteUrl { .. } => 2,
            DbCall::DeleteKey { .. } => 2,
            _ => 1,
        }
    }

    fn command(&self, step: u8, id: i32) -> (command: DbCommand)
        ensures
            command@ == self@.command(step as nat, id),
    {
        match self {
            DbCall::AddKey { user_id, key } => DbCommand::InsertKey {
                user_id: *user_id,
                key: key.clone(),
            },
            DbCall::CheckKey { key } => DbCommand::FindKey { key: key.clone() },
            DbCall::GetKey { key } => DbCommand::FindKey { key: key.clone() },
            DbCall::GetUserKeys { user_id } => DbCommand::FindKeysOfUser { user_id: *user_id },
            DbCall::AddUrl { key, url } => if step == 0 {
                DbCommand::FindKey { key: key.clone() }
            } else {
                DbCommand::InsertUrl { id, url: url.clone() }
            },
            DbCall::GetUrls { key } => if step == 0 {
                DbCommand::FindKey { key: key.clone() }
            } else {
                DbCommand::FindUrls { id }
            },
            DbCall::DeleteUrl { key, url } => if step == 0 {
                DbCommand::FindKey { key: key.clone() }
            } else {
                DbCommand::DeleteUrl { id, url: url.clone() }
            },
            DbCall::DeleteKey { key } => if step == 0 {
                DbCommand::FindKey { key: key.clone() }
            } else {
                DbCommand::DeleteKey { id }
            },
        }
    }

    fn expects(&self, step: u8) -> (form: Form)
        ensures
            form == self@.expects(step as nat),
    {
        if step < self.steps() - 1 {
            Form::MaybeKey
        } else {
            match self {
                DbCall::AddKey { .. } => Form::Key,
                DbCall::CheckKey { .. } => Form::MaybeKey,
                DbCall::GetKey { .. } => Form::MaybeKey,
                DbCall::GetUserKeys { .. } => Form::Keys,
                DbCall::GetUrls { .. } => Form::Urls,
                _ => Form::Unit,
            }
        }
    }
}

impl DbOp {
    /// Begins an operation: the first turn asks for the first order of its
    /// script.
    pub fn begin(call: DbCall) -> (turn: DbTurn)
        ensures
            turn@ == db_begin(call@),
    {
        let command = call.command(0, 0);
        DbTurn::Ask(DbOp { call, step: 0, id: 0 }, command)
    }

    /// Takes the answer to the order that the operation waits on, and gives the
    /// next turn.
    pub fn resume(self, reply: Result<Value, AppError>) -> (turn: DbTurn)
        ensures
            turn@ == db_resume(self@, seen(reply)),
    {
        let steps = self.call.steps();
        match reply {
            Err(fault) => DbTurn::Done(Err(fault)),
            Ok(answer) => {
                if answer.form() != self.call.expects(self.step) {
                    DbTurn::Done(Err(AppError::Invalid))
                } else if self.step < steps - 1 {
                    match answer {
                        Value::MaybeKey(Some(row)) => {
                            let step = self.step + 1;
                            let command = self.call.command(step, row.id);
                            DbTurn::Ask(DbOp { call: self.call, step, id: row.id }, command)
                        },
                        _ => DbTurn::Done(Err(AppError::KeyNotFound)),
                    }
                } else {
                    match answer {
                        Value::Urls(rows) => DbTurn::Done(Ok(Value::Members(addresses_of(rows)))),
                        other => DbTurn::Done(Ok(other)),
                    }
                }
            },
        }
    }
}

/// Carrying out a script from a place on leaves a well-formed tier
/// well-formed.
pub proof fn lemma_db_run_keeps_wf(tier: Durable, call: DbCallView, step: nat, id: i32)
    requires
        tier.wf(),
    ensures
        db_run(tier, call, step, id).0.wf(),
    decreases call.steps() - step,
{
    let (next, reply) = tier.apply(call.command(step, id));
    lemma_apply_keeps_wf(tier, call.command(step, id));
    match call.judge(step, reply) {
        DbVerdict::Finish(result) => {},
        DbVerdict::Proceed(found) => {
            if step + 1 < call.steps() {
                lemma_db_run_keeps_wf(next, call, step + 1, found);
            }
        },
    }
}

/// An operation leaves a well-formed tier well-formed.
pub proof fn lemma_db_answer_keeps_wf(tier: Durable, call: DbCallView)
    requires
        tier.wf(),
    ensures
        db_answer(tier, call).0.wf(),
{
    lemma_db_run_is_answer(tier, call);
    lemma_db_run_keeps_wf(tier, call, 0, 0);
}

} // verus!
