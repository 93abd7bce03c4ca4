//! The operations of the service over both tiers, each as a procedure that asks
//! one tier for one operation at a time and decides on the answer.
use crate::dao::mysql::ops::{DbCall, DbCallView};
use crate::dao::redis::ops::{RdCall, RdCallView, TOKEN_TTL};
use crate::entity::key;
use crate::error::{AppError, AppErrorKind, Fault};
use crate::text::strs;
use crate::value::{invalid, seen, Form, Value, ValueView};
use vstd::prelude::*;

verus! {

/// The limit under which a key that is found on record is admitted to the
/// ephemeral tier again.
pub const BACKFILL_LIMIT: i16 = 100;

/// An operation of the service.
#[derive(Debug, PartialEq, Eq)]
#[allow(inconsistent_fields)]
pub enum Call {
    /// Create `key` for user `uid` under the quota `limitation`.
    AddKey { uid: i64, key: String, limitation: i16 },
    /// Ask whether `key` exists, and where a user is given, as theirs.
    CheckKey { uid: Option<i64>, key: String },
    /// Resolve `key` to one of its URLs, drawn at random.
    GetUrl { key: String },
    /// Register `url` under `key`.
    AddUrl { key: String, url: String },
    /// Remove `url` from `key`.
    DeleteUrl { key: String, url: String },
    /// List the URLs of `key`.
    GetUrls { key: String },
    /// Issue the token `csrf` at the time `now`, in seconds.
    SetCsrf { csrf: String, now: u64 },
    /// Ask at the time `now`, in seconds, whether the token `csrf` is valid.
    CheckCsrf { csrf: String, now: u64 },
    /// List the keys of user `uid`.
    GetUserKeys { uid: i64 },
    /// Delete `key` from the record.
    DeleteKey { key: String },
    /// Make the ephemeral tier forget `key` where the record no longer holds
    /// it.
    ReconcileDeletedKey { uid: Option<i64>, key: String },
}

/// What a [`Call`] is to a contract.
#[allow(inconsistent_fields)]
pub enum CallView {
    AddKey { uid: i64, key: Seq<char>, limitation: i16 },
    CheckKey { uid: Option<i64>, key: Seq<char> },
    GetUrl { key: Seq<char> },
    AddUrl { key: Seq<char>, url: Seq<char> },
    DeleteUrl { key: Seq<char>, url: Seq<char> },
    GetUrls { key: Seq<char> },
    SetCsrf { csrf: Seq<char>, now: u64 },
    CheckCsrf { csrf: Seq<char>, now: u64 },
    GetUserKeys { uid: i64 },
    DeleteKey { key: Seq<char> },
    ReconcileDeletedKey { uid: Option<i64>, key: Seq<char> },
}

impl View for Call {
    type V = CallView;

    open spec fn view(&self) -> CallView {
        match self {
            Call::AddKey { uid, key, limitation } => CallView::AddKey {
                uid: *uid,
                key: key@,
                limitation: *limitation,
            },
            Call::CheckKey { uid, key } => CallView::CheckKey { uid: *uid, key: key@ },
            Call::GetUrl { key } => CallView::GetUrl { key: key@ },
            Call::AddUrl { key, url } => CallView::AddUrl { key: key@, url: url@ },
            Call::DeleteUrl { key, url } => CallView::DeleteUrl { key: key@, url: url@ },
            Call::GetUrls { key } => CallView::GetUrls { key: key@ },
            Call::SetCsrf { csrf, now } => CallView::SetCsrf { csrf: csrf@, now: *now },
            Call::CheckCsrf { csrf, now } => CallView::CheckCsrf { csrf: csrf@, now: *now },
            Call::GetUserKeys { uid } => CallView::GetUserKeys { uid: *uid },
            Call::DeleteKey { key } => CallView::DeleteKey { key: key@ },
            Call::ReconcileDeletedKey { uid, key } => CallView::ReconcileDeletedKey {
                uid: *uid,
                key: key@,
            },
        }
    }
}

/// What an operation asks for: an operation of one of the tiers.
#[derive(Debug, PartialEq, Eq)]
pub enum Request {
    /// An operation of the ephemeral tier.
    Cache(RdCall),
    /// An operation of the durable tier.
    Record(DbCall),
}

/// What a [`Request`] is to a contract.
pub enum RequestView {
    Cache(RdCallView),
    Record(DbCallView),
}

impl View for Request {
    type V = RequestView;

    open spec fn view(&self) -> RequestView {
        match self {
            Request::Cache(call) => RequestView::Cache(call@),
            Request::Record(call) => RequestView::Record(call@),
        }
    }
}

/// Where an operation stands: the name says what it has asked and waits for.
#[derive(Clone, Copy, Debug, PartialEq, Eq, Structural)]
pub enum Stage {
    /// The ephemeral tier is asked to admit a new key.
    Admit,
    /// The durable tier is asked to record a new key.
    Record,
    /// The ephemeral tier is asked whether it knows a key.
    Known,
    /// The durable tier is asked for the record of a key.
    Lookup,
    /// The ephemeral tier is asked to admit a key that was found on record.
    Repair,
    /// The ephemeral tier is asked to add a URL.
    CacheAdd,
    /// The durable tier is asked to add a URL.
    RecordAdd,
    /// The durable tier is asked to delete a URL.
    RecordDelete,
    /// The ephemeral tier is asked to remove a URL.
    CacheDelete,
    /// The ephemeral tier is asked to draw a URL.
    Pick,
    /// The ephemeral tier is asked for its list.
    List,
    /// The durable tier is asked for its list.
    Source,
    /// The ephemeral tier is asked to take one item of the durable tier's list.
    Fill,
    /// The ephemeral tier is asked to draw a URL once more.
    Repick,
    /// The ephemeral tier is asked to issue or to validate a token.
    Token,
    /// The durable tier is asked to delete the record of a key.
    Remove,
    /// The durable tier is asked whether a key is still on record.
    Probe,
    /// The ephemeral tier is asked to forget a key.
    Forget,
}

impl Stage {
    /// How far a stage is from the end of any operation that passes through
    /// it: every step but one from item to item of a list leads to a stage of
    /// a lower rank.
    pub open spec fn rank(self) -> nat {
        match self {
            Stage::Known => 7,
            Stage::Pick => 7,
            Stage::Lookup => 6,
            Stage::List => 6,
            Stage::Repair => 5,
            Stage::Source => 5,
            Stage::Admit => 4,
            Stage::CacheAdd => 4,
            Stage::RecordDelete => 4,
            Stage::Fill => 4,
            Stage::Probe => 4,
            _ => 3,
        }
    }
}

impl CallView {
    /// The expiry of a token to issue can be represented.
    pub open spec fn wf(self) -> bool {
        match self {
            CallView::SetCsrf { now, .. } => now + TOKEN_TTL <= u64::MAX,
            _ => true,
        }
    }

    /// The key or the token that the operation is about.
    pub open spec fn key(self) -> Seq<char> {
        match self {
            CallView::AddKey { key, .. } => key,
            CallView::CheckKey { key, .. } => key,
            CallView::GetUrl { key } => key,
            CallView::AddUrl { key, .. } => key,
            CallView::DeleteUrl { key, .. } => key,
            CallView::GetUrls { key } => key,
            CallView::SetCsrf { csrf, .. } => csrf,
            CallView::CheckCsrf { csrf, .. } => csrf,
            CallView::GetUserKeys { .. } => Seq::empty(),
            CallView::DeleteKey { key } => key,
            CallView::ReconcileDeletedKey { key, .. } => key,
        }
    }

    /// The URL that the operation is about.
    pub open spec fn url(self) -> Seq<char> {
        match self {
            CallView::AddUrl { url, .. } => url,
            CallView::DeleteUrl { url, .. } => url,
            _ => Seq::empty(),
        }
    }

    /// The user that the operation names.
    pub open spec fn owner(self) -> Option<i64> {
        match self {
            CallView::AddKey { uid, .. } => Some(uid),
            CallView::CheckKey { uid, .. } => uid,
            CallView::GetUserKeys { uid } => Some(uid),
            CallView::ReconcileDeletedKey { uid, .. } => uid,
            _ => None,
        }
    }

    /// The user that the operation names, or user 0.
    pub open spec fn user(self) -> i64 {
        match self.owner() {
            Some(uid) => uid,
            None => 0,
        }
    }

    /// The quota that the operation names.
    pub open spec fn limitation(self) -> i16 {
        match self {
            CallView::AddKey { limitation, .. } => limitation,
            _ => BACKFILL_LIMIT,
        }
    }

    /// The time that the operation names.
    pub open spec fn now(self) -> u64 {
        match self {
            CallView::SetCsrf { now, .. } => now,
            CallView::CheckCsrf { now, .. } => now,
            _ => 0,
        }
    }

    /// The stage at which the operation begins.
    pub open spec fn entry(self) -> Stage {
        match self {
            CallView::AddKey { .. } => Stage::Admit,
            CallView::CheckKey { .. } => Stage::Known,
            CallView::GetUrl { .. } => Stage::Pick,
            CallView::AddUrl { .. } => Stage::Known,
            CallView::DeleteUrl { .. } => Stage::Known,
            CallView::GetUrls { .. } => Stage::List,
            CallView::SetCsrf { .. } => Stage::Token,
            CallView::CheckCsrf { .. } => Stage::Token,
            CallView::GetUserKeys { .. } => Stage::List,
            CallView::DeleteKey { .. } => Stage::Remove,
            CallView::ReconcileDeletedKey { .. } => Stage::Probe,
        }
    }
}

/// What an [`Op`] is to a contract: the operation, the stage at which it
/// stands, the list that it takes from the durable tier to the ephemeral one,
/// how many items of the list are taken, and the user for whom a key is
/// admitted again.
pub struct OpView {
    pub call: CallView,
    pub stage: Stage,
    pub found: Seq<Seq<char>>,
    pub filled: nat,
    pub owner: i64,
}

/// What follows an answer: the operation at its next stage, or the end of the
/// operation with its result.
pub enum Next {
    Goto(OpView),
    Finish(Result<ValueView, Fault>),
}

impl OpView {
    /// The operation at another stage.
    pub open spec fn at(self, stage: Stage) -> OpView {
        OpView { stage, ..self }
    }

    /// The item of the list that is taken next.
    pub open spec fn item(self) -> Seq<char> {
        if self.filled < self.found.len() {
            self.found[self.filled as int]
        } else {
            Seq::empty()
        }
    }

    /// The number of items of the list that are yet to be taken.
    pub open spec fn remaining(self) -> nat {
        if self.filled < self.found.len() {
            (self.found.len() - self.filled) as nat
        } else {
            0
        }
    }

    /// Whether this state is nearer to the end of the operation than `other`.
    pub open spec fn before(self, other: OpView) -> bool {
        self.stage.rank() < other.stage.rank() || (self.stage.rank() == other.stage.rank()
            && self.remaining() < other.remaining())
    }

    /// What the operation asks for at its stage.
    pub open spec fn request(self) -> RequestView {
        let call = self.call;
        match self.stage {
            Stage::Admit => RequestView::Cache(
                RdCallView::AddKey { uid: call.user(), key: call.key(), limitation: call.limitation() },
            ),
            Stage::Record => RequestView::Record(
                DbCallView::AddKey { user_id: call.user(), key: call.key() },
            ),
            Stage::Known => RequestView::Cache(
                RdCallView::CheckKey { uid: call.owner(), key: call.key() },
            ),
            Stage::Lookup => RequestView::Record(DbCallView::CheckKey { key: call.key() }),
            Stage::Repair => RequestView::Cache(
                RdCallView::AddKey { uid: self.owner, key: call.key(), limitation: BACKFILL_LIMIT },
            ),
            Stage::CacheAdd => RequestView::Cache(
                RdCallView::AddUrl { key: call.key(), url: call.url() },
            ),
            Stage::RecordAdd => RequestView::Record(
                DbCallView::AddUrl { key: call.key(), url: call.url() },
            ),
            Stage::RecordDelete => RequestView::Record(
                DbCallView::DeleteUrl { key: call.key(), url: call.url() },
            ),
            Stage::CacheDelete => RequestView::Cache(
                RdCallView::DeleteUrl { key: call.key(), url: call.url() },
            ),
            Stage::Pick => RequestView::Cache(RdCallView::GetUrl { key: call.key() }),
            Stage::Repick => RequestView::Cache(RdCallView::GetUrl { key: call.key() }),
            Stage::List => if call is GetUserKeys {
                RequestView::Cache(RdCallView::GetUserKeys { uid: call.user() })
            } else {
                RequestView::Cache(RdCallView::GetUrls { key: call.key() })
            },
            Stage::Source => if call is GetUserKeys {
                RequestView::Record(DbCallView::GetUserKeys { user_id: call.user() })
            } else {
                RequestView::Record(DbCallView::GetUrls { key: call.key() })
            },
            Stage::Fill => if call is GetUserKeys {
                RequestView::Cache(
                    RdCallView::AddKey {
                        uid: call.user(),
                        key: self.item(),
                        limitation: BACKFILL_LIMIT,
                    },
                )
            } else {
                RequestView::Cache(RdCallView::AddUrl { key: call.key(), url: self.item() })
            },
            Stage::Token => if call is CheckCsrf {
                RequestView::Cache(RdCallView::CheckCsrf { csrf: call.key(), now: call.now() })
            } else {
                RequestView::Cache(RdCallView::SetCsrf { csrf: call.key(), now: call.now() })
            },
            Stage::Remove => RequestView::Record(DbCallView::DeleteKey { key: call.key() }),
            Stage::Probe => RequestView::Record(DbCallView::CheckKey { key: call.key() }),
            Stage::Forget => RequestView::Cache(
                RdCallView::RemoveKey { uid: call.owner(), key: call.key() },
            ),
        }
    }

    /// The form of the answer that the operation asks for at its stage.
    pub open spec fn expects(self) -> Form {
        match self.stage {
            Stage::Record => Form::Key,
            Stage::Known => Form::Flag,
            Stage::Lookup => Form::MaybeKey,
            Stage::Probe => Form::MaybeKey,
            Stage::Pick => Form::Member,
            Stage::Repick => Form::Member,
            Stage::List => Form::Members,
            Stage::Source => if self.call is GetUserKeys {
                Form::Keys
            } else {
                Form::Members
            },
            Stage::Token => if self.call is CheckCsrf {
                Form::Flag
            } else {
                Form::Unit
            },
            _ => Form::Unit,
        }
    }

    /// What follows once the key is known to exist.
    pub open spec fn present(self) -> Next {
        match self.call {
            CallView::CheckKey { .. } => Next::Finish(Ok(ValueView::Flag(true))),
            CallView::AddUrl { .. } => Next::Goto(self.at(Stage::CacheAdd)),
            CallView::DeleteUrl { .. } => Next::Goto(self.at(Stage::RecordDelete)),
            _ => Next::Finish(Err(invalid())),
        }
    }

    /// What follows once the key is known not to exist.
    pub open spec fn absent(self) -> Next {
        match self.call {
            CallView::CheckKey { .. } => Next::Finish(Ok(ValueView::Flag(false))),
            _ => Next::Finish(Err(Fault::bare(AppErrorKind::KeyNotFound))),
        }
    }

    /// What follows once there is a list to return: a draw after a miss is
    /// tried once more, a listing returns the list.
    pub open spec fn listed(self, list: Seq<Seq<char>>) -> Next {
        match self.call {
            CallView::GetUrl { .. } => Next::Goto(self.at(Stage::Repick)),
            _ => Next::Finish(Ok(ValueView::Members(list))),
        }
    }

    /// What follows once neither tier has anything to list.
    pub open spec fn nothing(self) -> Next {
        match self.call {
            CallView::GetUrl { .. } => Next::Finish(Ok(ValueView::Member(None))),
            _ => Next::Finish(Ok(ValueView::Members(Seq::empty()))),
        }
    }

    /// What follows the list of the durable tier: nothing where it is empty,
    /// else its items are taken to the ephemeral tier one by one.
    pub open spec fn sourced(self, list: Seq<Seq<char>>) -> Next {
        if list.len() == 0 {
            self.nothing()
        } else {
            Next::Goto(OpView { stage: Stage::Fill, found: list, filled: 0, ..self })
        }
    }

    /// What follows an answer of the expected form at a stage other than
    /// [`Stage::Source`] and [`Stage::Fill`].
    pub open spec fn decide(self, answer: ValueView) -> Next {
        match self.stage {
            Stage::Admit => Next::Goto(self.at(Stage::Record)),
            Stage::Known => match answer {
                ValueView::Flag(true) => self.present(),
                _ => Next::Goto(self.at(Stage::Lookup)),
            },
            Stage::Lookup => match answer {
                ValueView::MaybeKey(Some(row)) => Next::Goto(
                    OpView {
                        stage: Stage::Repair,
                        owner: match self.call.owner() {
                            Some(uid) => uid,
                            None => row.user_id,
                        },
                        ..self
                    },
                ),
                _ => self.absent(),
            },
            Stage::Repair => self.present(),
            Stage::CacheAdd => Next::Goto(self.at(Stage::RecordAdd)),
            Stage::RecordDelete => Next::Goto(self.at(Stage::CacheDelete)),
            Stage::Pick => match answer {
                ValueView::Member(None) => Next::Goto(self.at(Stage::List)),
                _ => Next::Finish(Ok(answer)),
            },
            Stage::List => match answer {
                ValueView::Members(list) => if list.len() > 0 {
                    self.listed(list)
                } else {
                    Next::Goto(self.at(Stage::Source))
                },
                _ => Next::Finish(Err(invalid())),
            },
            Stage::Probe => match answer {
                ValueView::MaybeKey(None) => Next::Goto(self.at(Stage::Forget)),
                _ => Next::Finish(Ok(ValueView::Flag(false))),
            },
            Stage::Forget => Next::Finish(Ok(ValueView::Flag(true))),
            _ => Next::Finish(Ok(answer)),
        }
    }

    /// What follows an answer.
    ///
    /// While the list of the durable tier is taken to the ephemeral tier, an
    /// answer that reports the item as taken leads to the next item, and after
    /// the last item the procedure goes on with the list. Where the items are
    /// URLs, it does so after any other answer too, as if the whole list were
    /// taken. Where the durable tier is asked for the URLs of a key and does
    /// not find the key, that is an empty list. Any other failure of a tier
    /// ends the operation with that failure, and any other answer of another
    /// form than was asked for ends it as invalid.
    pub open spec fn advance(self, reply: Result<ValueView, Fault>) -> Next {
        match self.stage {
            Stage::Fill => match reply {
                Ok(ValueView::Unit) => if self.filled + 1 < self.found.len() {
                    Next::Goto(OpView { filled: self.filled + 1, ..self })
                } else {
                    self.listed(self.found)
                },
                Err(fault) if self.call is GetUserKeys => Next::Finish(Err(fault)),
                Ok(_) if self.call is GetUserKeys => Next::Finish(Err(invalid())),
                _ => self.listed(self.found),
            },
            Stage::Source => match reply {
                Err(fault) => if fault.kind == AppErrorKind::KeyNotFound && !(self.call
                    is GetUserKeys) {
                    self.nothing()
                } else {
                    Next::Finish(Err(fault))
                },
                Ok(ValueView::Members(list)) if !(self.call is GetUserKeys) => self.sourced(list),
                Ok(ValueView::Keys(rows)) if self.call is GetUserKeys => self.sourced(
                    key::tokens(rows),
                ),
                Ok(_) => Next::Finish(Err(invalid())),
            },
            _ => match reply {
                Err(fault) => Next::Finish(Err(fault)),
                Ok(answer) => if answer.form() != self.expects() {
                    Next::Finish(Err(invalid()))
                } else {
                    self.decide(answer)
                },
            },
        }
    }
}

/// What a [`Turn`] is to a contract.
pub enum TurnView {
    Ask(OpView, RequestView),
    Done(Result<ValueView, Fault>),
}

/// The first turn of an operation.
pub open spec fn begin(call: CallView) -> TurnView {
    let op = OpView { call, stage: call.entry(), found: Seq::empty(), filled: 0, owner: 0 };
    TurnView::Ask(op, op.request())
}

/// The turn that a step leads to.
pub open spec fn turn_of(next: Next) -> TurnView {
    match next {
        Next::Finish(result) => TurnView::Done(result),
        Next::Goto(op) => TurnView::Ask(op, op.request()),
    }
}

/// The turn after an answer.
pub open spec fn resume(op: OpView, reply: Result<ValueView, Fault>) -> TurnView {
    turn_of(op.advance(reply))
}

/// Every step of an operation leads nearer to its end.
pub proof fn lemma_advance_nears_end(op: OpView, reply: Result<ValueView, Fault>)
    ensures
        op.advance(reply) matches Next::Goto(next) ==> next.before(op) && next.call == op.call,
{
}

/// What an operation asks of the ephemeral tier can be carried out wherever
/// the operation can.
pub proof fn lemma_request_wf(op: OpView)
    requires
        op.call.wf(),
    ensures
        op.request() matches RequestView::Cache(call) ==> call.wf(),
{
}

/// An operation of the service that waits for the answer to what it asked.
#[derive(Debug, PartialEq, Eq)]
pub struct Op {
    call: Call,
    stage: Stage,
    found: Vec<String>,
    filled: usize,
    owner: i64,
}

impl View for Op {
    type V = OpView;

    closed spec fn view(&self) -> OpView {
        OpView {
            call: self.call@,
            stage: self.stage,
            found: strs(self.found@),
            filled: self.filled as nat,
            owner: self.owner,
        }
    }
}

/// The state of an operation of the service between two answers: it asks a
/// tier for an operation, or it is done.
#[derive(Debug, PartialEq, Eq)]
pub enum Turn {
    Ask(Op, Request),
    Done(Result<Value, AppError>),
}

impl View for Turn {
    type V = TurnView;

    open spec fn view(&self) -> TurnView {
        match self {
            Turn::Ask(op, request) => TurnView::Ask(op@, request@),
            Turn::Done(result) => TurnView::Done(seen(*result)),
        }
    }
}

/// The tokens of a list of records, in order.
pub fn tokens_of(list: Vec<key::Model>) -> (tokens: Vec<String>)
    ensures
        strs(tokens@) == key::tokens(key::rows(list@)),
{
    let mut tokens: Vec<String> = Vec::new();
    let mut i: usize = 0;
    while i < list.len()
        invariant
            i <= list.len(),
            tokens.len() == i,
            forall|j: int| 0 <= j < i ==> tokens[j]@ == list[j].key@,
        decreases list.len() - i,
    {
        tokens.push(list[i].key.clone());
        i += 1;
    }
    assert(strs(tokens@) =~= key::tokens(key::rows(list@)));
    tokens
}

impl Call {
    /// Whether the operation can be carried out: the expiry of a token to issue
    /// can be represented.
    pub fn valid(&self) -> (ok: bool)
        ensures
            ok == self@.wf(),
    {
        match self {
            Call::SetCsrf { now, .. } => *now <= u64::MAX - TOKEN_TTL,
            _ => true,
        }
    }

    fn key(&self) -> (key: String)
        ensures
            key@ == self@.key(),
    {
        match self {
            Call::AddKey { key, .. } => key.clone(),
            Call::CheckKey { key, .. } => key.clone(),
            Call::GetUrl { key } => key.clone(),
            Call::AddUrl { key, .. } => key.clone(),
            Call::DeleteUrl { key, .. } => key.clone(),
            Call::GetUrls { key } => key.clone(),
            Call::SetCsrf { csrf, .. } => csrf.clone(),
            Call::CheckCsrf { csrf, .. } => csrf.clone(),
            Call::GetUserKeys { .. } => String::new(),
            Call::DeleteKey { key } => key.clone(),
            Call::ReconcileDeletedKey { key, .. } => key.clone(),
        }
    }

    fn url(&self) -> (url: String)
        ensures
            url@ == self@.url(),
    {
        match self {
            Call::AddUrl { url, .. } => url.clone(),
            Call::DeleteUrl { url, .. } => url.clone(),
            _ => String::new(),
        }
    }

    fn owner(&self) -> (owner: Option<i64>)
        ensures
            owner == self@.owner(),
    {
        match self {
            Call::AddKey { uid, .. } => Some(*uid),
            Call::CheckKey { uid, .. } => *uid,
            Call::GetUserKeys { uid } => Some(*uid),
            Call::ReconcileDeletedKey { uid, .. } => *uid,
            _ => None,
        }
    }

    fn user(&self) -> (user: i64)
        ensures
            user == self@.user(),
    {
        match self.owner() {
            Some(uid) => uid,
            None => 0,
        }
    }

    fn limitation(&self) -> (limitation: i16)
        ensures
            limitation == self@.limitation(),
    {
        match self {
            Call::AddKey { limitation, .. } => *limitation,
            _ => BACKFILL_LIMIT,
        }
    }

    fn now(&self) -> (now: u64)
        ensures
            now == self@.now(),
    {
        match self {
            Call::SetCsrf { now, .. } => *now,
            Call::CheckCsrf { now, .. } => *now,
            _ => 0,
        }
    }

    fn entry(&self) -> (stage: Stage)
        ensures
            stage == self@.entry(),
    {
        match self {
            Call::AddKey { .. } => Stage::Admit,
            Call::CheckKey { .. } => Stage::Known,
            Call::GetUrl { .. } => Stage::Pick,
            Call::AddUrl { .. } => Stage::Known,
            Call::DeleteUrl { .. } => Stage::Known,
            Call::GetUrls { .. } => Stage::List,
            Call::SetCsrf { .. } => Stage::Token,
            Call::CheckCsrf { .. } => Stage::Token,
            Call::GetUserKeys { .. } => Stage::List,
            Call::DeleteKey { .. } => Stage::Remove,
            Call::ReconcileDeletedKey { .. } => Stage::Probe,
        }
    }

    fn lists_keys(&self) -> (yes: bool)
        ensures
            yes == (self@ is GetUserKeys),
    {
        match self {
            Call::GetUserKeys { .. } => true,
            _ => false,
        }
    }

    fn draws(&self) -> (yes: bool)
        ensures
            yes == (self@ is GetUrl),
    {
        match self {
            Call::GetUrl { .. } => true,
            _ => false,
        }
    }

    fn validates(&self) -> (yes: bool)
        ensures
            yes == (self@ is CheckCsrf),
    {
        match self {
            Call::CheckCsrf { .. } => true,
            _ => false,
        }
    }
}

impl Op {
    fn item(&self) -> (item: String)
        ensures
            item@ == self@.item(),
    {
        if self.filled < self.found.len() {
            self.found[self.filled].clone()
        } else {
            String::new()
        }
    }

    fn request(&self) -> (request: Request)
        ensures
            request@ == self@.request(),
    {
        let call = &self.call;
        match self.stage {
            Stage::Admit => Request::Cache(
                RdCall::AddKey { uid: call.user(), key: call.key(), limitation: call.limitation() },
            ),
            Stage::Record => Request::Record(DbCall::AddKey { user_id: call.user(), key: call.key() }),
            Stage::Known => Request::Cache(RdCall::CheckKey { uid: call.owner(), key: call.key() }),
            Stage::Lookup => Request::Record(DbCall::CheckKey { key: call.key() }),
            Stage::Repair => Request::Cache(
                RdCall::AddKey { uid: self.owner, key: call.key(), limitation: BACKFILL_LIMIT },
            ),
            Stage::CacheAdd => Request::Cache(RdCall::AddUrl { key: call.key(), url: call.url() }),
            Stage::RecordAdd => Request::Record(DbCall::AddUrl { key: call.key(), url: call.url() }),
            Stage::RecordDelete => Request::Record(
                DbCall::DeleteUrl { key: call.key(), url: call.url() },
            ),
            Stage::CacheDelete => Request::Cache(
                RdCall::DeleteUrl { key: call.key(), url: call.url() },
            ),
            Stage::Pick => Request::Cache(RdCall::GetUrl { key: call.key() }),
            Stage::Repick => Request::Cache(RdCall::GetUrl { key: call.key() }),
            Stage::List => if call.lists_keys() {
                Request::Cache(RdCall::GetUserKeys { uid: call.user() })
            } else {
                Request::Cache(RdCall::GetUrls { key: call.key() })
            },
            Stage::Source => if call.lists_keys() {
                Request::Record(DbCall::GetUserKeys { user_id: call.user() })
            } else {
                Request::Record(DbCall::GetUrls { key: call.key() })
            },
            Stage::Fill => if call.lists_keys() {
                Request::Cache(
                    RdCall::AddKey { uid: call.user(), key: self.item(), limitation: BACKFILL_LIMIT },
                )
            } else {
                Request::Cache(RdCall::AddUrl { key: call.key(), url: self.item() })
            },
            Stage::Token => if call.validates() {
                Request::Cache(RdCall::CheckCsrf { csrf: call.key(), now: call.now() })
            } else {
                Request::Cache(RdCall::SetCsrf { csrf: call.key(), now: call.now() })
            },
            Stage::Remove => Request::Record(DbCall::DeleteKey { key: call.key() }),
            Stage::Probe => Request::Record(DbCall::CheckKey { key: call.key() }),
            Stage::Forget => Request::Cache(RdCall::RemoveKey { uid: call.owner(), key: call.key() }),
        }
    }

    fn expects(&self) -> (form: Form)
        ensures
            form == self@.expects(),
    {
        match self.stage {
            Stage::Record => Form::Key,
            Stage::Known => Form::Flag,
            Stage::Lookup => Form::MaybeKey,
            Stage::Probe => Form::MaybeKey,
            Stage::Pick => Form::Member,
            Stage::Repick => Form::Member,
            Stage::List => Form::Members,
            Stage::Source => if self.call.lists_keys() {
                Form::Keys
            } else {
                Form::Members
            },
            Stage::Token => if self.call.validates() {
                Form::Flag
            } else {
                Form::Unit
            },
            _ => Form::Unit,
        }
    }

    fn ask(self) -> (turn: Turn)
        ensures
            turn@ == TurnView::Ask(self@, self@.request()),
    {
        let request = self.request();
        Turn::Ask(self, request)
    }

    fn at(self, stage: Stage) -> (turn: Turn)
        ensures
            turn@ == turn_of(Next::Goto(self@.at(stage))),
    {
        let mut next = self;
        next.stage = stage;
        next.ask()
    }

    fn present(self) -> (turn: Turn)
        ensures
            turn@ == turn_of(self@.present()),
    {
        match &self.call {
            Call::CheckKey { .. } => Turn::Done(Ok(Value::Flag(true))),
            Call::AddUrl { .. } => self.at(Stage::CacheAdd),
            Call::DeleteUrl { .. } => self.at(Stage::RecordDelete),
            _ => Turn::Done(Err(AppError::Invalid)),
        }
    }

    fn absent(self) -> (turn: Turn)
        ensures
            turn@ == turn_of(self@.absent()),
    {
        match &self.call {
            Call::CheckKey { .. } => Turn::Done(Ok(Value::Flag(false))),
            _ => Turn::Done(Err(AppError::KeyNotFound)),
        }
    }

    fn listed(self, list: Vec<String>) -> (turn: Turn)
        ensures
            turn@ == turn_of(self@.listed(strs(list@))),
    {
        if self.call.draws() {
            self.at(Stage::Repick)
        } else {
            Turn::Done(Ok(Value::Members(list)))
        }
    }

    fn taken(self) -> (turn: Turn)
        ensures
            turn@ == turn_of(self@.listed(self@.found)),
    {
        if self.call.draws() {
            self.at(Stage::Repick)
        } else {
            Turn::Done(Ok(Value::Members(self.found)))
        }
    }

    fn nothing(self) -> (turn: Turn)
        ensures
            turn@ == turn_of(self@.nothing()),
    {
        if self.call.draws() {
            Turn::Done(Ok(Value::Member(None)))
        } else {
            let list: Vec<String> = Vec::new();
            assert(strs(list@) =~= Seq::<Seq<char>>::empty());
            Turn::Done(Ok(Value::Members(list)))
        }
    }

    fn sourced(self, list: Vec<String>) -> (turn: Turn)
        ensures
            turn@ == turn_of(self@.sourced(strs(list@))),
    {
        if list.len() == 0 {
            self.nothing()
        } else {
            let mut next = self;
            next.stage = Stage::Fill;
            next.found = list;
            next.filled = 0;
            next.ask()
        }
    }

    fn decide(self, answer: Value) -> (turn: Turn)
        ensures
            turn@ == turn_of(self@.decide(answer@)),
    {
        match self.stage {
            Stage::Admit => self.at(Stage::Record),
            Stage::Known => match answer {
                Value::Flag(true) => self.present(),
                _ => self.at(Stage::Lookup),
            },
            Stage::Lookup => match answer {
                Value::MaybeKey(Some(row)) => {
                    let owner = match self.call.owner() {
                        Some(uid) => uid,
                        None => row.user_id,
                    };
                    let mut next = self;
                    next.stage = Stage::Repair;
                    next.owner = owner;
                    next.ask()
                },
                _ => self.absent(),
            },
            Stage::Repair => self.present(),
            Stage::CacheAdd => self.at(Stage::RecordAdd),
            Stage::RecordDelete => self.at(Stage::CacheDelete),
            Stage::Pick => match answer {
                Value::Member(None) => self.at(Stage::List),
                other => Turn::Done(Ok(other)),
            },
            Stage::List => match answer {
                Value::Members(list) => if list.len() > 0 {
                    self.listed(list)
                } else {
                    self.at(Stage::Source)
                },
                _ => Turn::Done(Err(AppError::Invalid)),
            },
            Stage::Probe => match answer {
                Value::MaybeKey(None) => self.at(Stage::Forget),
                _ => Turn::Done(Ok(Value::Flag(false))),
            },
            Stage::Forget => Turn::Done(Ok(Value::Flag(true))),
            _ => Turn::Done(Ok(answer)),
        }
    }

    /// Begins an operation: the first turn asks for what the operation needs
    /// first.
    pub fn begin(call: Call) -> (turn: Turn)
        ensures
            turn@ == begin(call@),
    {
        let stage = call.entry();
        let found: Vec<String> = Vec::new();
        assert(strs(found@) =~= Seq::<Seq<char>>::empty());
        let op = Op { call, stage, found, filled: 0, owner: 0 };
        op.ask()
    }

    /// Takes the answer to what the operation asked, and gives the next turn.
    pub fn resume(self, reply: Result<Value, AppError>) -> (turn: Turn)
        ensures
            turn@ == resume(self@, seen(reply)),
    {
        match self.stage {
            Stage::Fill => {
                let ghost before = self@;
                assert(before.found.len() == self.found.len());
                let keys = self.call.lists_keys();
                match reply {
                    Ok(Value::Unit) => {
                        if self.filled < usize::MAX && self.filled + 1 < self.found.len() {
                            let mut next = self;
                            next.filled = next.filled + 1;
                            assert(next@ == OpView { filled: before.filled + 1, ..before });
                            next.ask()
                        } else {
                            self.taken()
                        }
                    },
                    Err(fault) => if keys {
                        Turn::Done(Err(fault))
                    } else {
                        self.taken()
                    },
                    Ok(_) => if keys {
                        Turn::Done(Err(AppError::Invalid))
                    } else {
                        self.taken()
                    },
                }
            },
            Stage::Source => {
                let keys = self.call.lists_keys();
                match reply {
                    Err(fault) => {
                        let missing = match &fault {
                            AppError::KeyNotFound => true,
                            _ => false,
                        };
                        if missing && !keys {
                            self.nothing()
                        } else {
                            Turn::Done(Err(fault))
                        }
                    },
                    Ok(Value::Members(list)) => if !keys {
                        self.sourced(list)
                    } else {
                        Turn::Done(Err(AppError::Invalid))
                    },
                    Ok(Value::Keys(rows)) => if keys {
                        self.sourced(tokens_of(rows))
                    } else {
                        Turn::Done(Err(AppError::Invalid))
                    },
                    Ok(_) => Turn::Done(Err(AppError::Invalid)),
                }
            },
            _ => match reply {
                Err(fault) => Turn::Done(Err(fault)),
                Ok(answer) => if answer.form() != self.expects() {
                    Turn::Done(Err(AppError::Invalid))
                } else {
                    self.decide(answer)
                },
            },
        }
    }
}

} // verus!
