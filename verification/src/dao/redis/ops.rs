//! The operations on the ephemeral tier, each as a short script of orders with
//! a decision after every answer.
use crate::dao::redis::cache::{drawn, lemma_apply_keeps_wf, members_of, unexpired, Ephemeral};
use crate::dao::redis::command::{RdCommand, RdCommandView};
use crate::dao::redis::naming::{
    csrf_key, csrf_name, key_set, key_set_name, list_key, list_name, user_key, user_key_name,
};
use crate::error::{AppError, AppErrorKind, Fault};
use crate::value::{invalid, seen, Form, Value, ValueView};
use vstd::prelude::*;

verus! {

/// The number of seconds for which an anti-forgery token is valid.
pub const TOKEN_TTL: u64 = 600;

/// Whether a count of members is above a limit.
pub open spec fn exceeds(count: u64, limitation: i16) -> bool {
    count as int > limitation as int
}

/// Whether the tier refuses a new key of user `uid` under a limit: the user
/// holds more keys than the limit, or the tier as a whole does.
pub open spec fn quota_full(tier: Ephemeral, uid: i64, limitation: i16) -> bool {
    exceeds(tier.members(user_key_name(uid)).len() as u64, limitation) || exceeds(
        tier.members(key_set_name()).len() as u64,
        limitation,
    )
}

/// Whether the tier knows `key`, and where a user is given, knows it as theirs.
pub open spec fn key_known(tier: Ephemeral, uid: Option<i64>, key: Seq<char>) -> bool {
    tier.members(key_set_name()).contains(key) && match uid {
        Some(owner) => tier.members(user_key_name(owner)).contains(key),
        None => true,
    }
}

/// The tier without `key`, and where a user is given, without it among theirs.
pub open spec fn key_forgotten(tier: Ephemeral, uid: Option<i64>, key: Seq<char>) -> Ephemeral {
    match uid {
        Some(owner) => tier.srem(key_set_name(), key).srem(user_key_name(owner), key),
        None => tier.srem(key_set_name(), key),
    }
}

/// The tier after the token `csrf` was issued at the time `now`: the token
/// expires [`TOKEN_TTL`] seconds later, and what had expired by `now` is gone.
pub open spec fn token_issued(tier: Ephemeral, csrf: Seq<char>, now: u64) -> Ephemeral {
    tier.zadd(csrf_name(), csrf, (now + TOKEN_TTL) as u64).purge(csrf_name(), now)
}

/// Whether the token `csrf` is valid at the time `now`: it is held with an
/// expiry after `now`.
pub open spec fn token_valid(tier: Ephemeral, csrf: Seq<char>, now: u64) -> bool {
    members_of(unexpired(tier.entries(csrf_name()), now)).contains(csrf)
}

/// An operation on the ephemeral tier.
#[derive(Debug, PartialEq, Eq)]
#[allow(inconsistent_fields)]
pub enum RdCall {
    /// Admit `key` for user `uid`, unless the user or the tier as a whole holds
    /// more than `limitation` keys.
    AddKey { uid: i64, key: String, limitation: i16 },
    /// Ask whether `key` is known, and where a user is given, known as theirs.
    CheckKey { uid: Option<i64>, key: String },
    /// Forget `key`, and where a user is given, that it is theirs.
    RemoveKey { uid: Option<i64>, key: String },
    /// Draw one of the URLs of `key` at random.
    GetUrl { key: String },
    /// Add `url` to the URLs of `key`.
    AddUrl { key: String, url: String },
    /// Remove `url` from the URLs of `key`.
    DeleteUrl { key: String, url: String },
    /// List the URLs of `key`.
    GetUrls { key: String },
    /// Issue the token `csrf` at the time `now`, in seconds.
    SetCsrf { csrf: String, now: u64 },
    /// Ask at the time `now`, in seconds, whether the token `csrf` is valid.
    CheckCsrf { csrf: String, now: u64 },
    /// List the keys of user `uid`.
    GetUserKeys { uid: i64 },
}

/// What an [`RdCall`] is to a contract.
#[allow(inconsistent_fields)]
pub enum RdCallView {
    AddKey { uid: i64, key: Seq<char>, limitation: i16 },
    CheckKey { uid: Option<i64>, key: Seq<char> },
    RemoveKey { uid: Option<i64>, key: Seq<char> },
    GetUrl { key: Seq<char> },
    AddUrl { key: Seq<char>, url: Seq<char> },
    DeleteUrl { key: Seq<char>, url: Seq<char> },
    GetUrls { key: Seq<char> },
    SetCsrf { csrf: Seq<char>, now: u64 },
    CheckCsrf { csrf: Seq<char>, now: u64 },
    GetUserKeys { uid: i64 },
}

impl View for RdCall {
    type V = RdCallView;

    open spec fn view(&self) -> RdCallView {
        match self {
            RdCall::AddKey { uid, key, limitation } => RdCallView::AddKey {
                uid: *uid,
                key: key@,
                limitation: *limitation,
            },
            RdCall::CheckKey { uid, key } => RdCallView::CheckKey { uid: *uid, key: key@ },
            RdCall::RemoveKey { uid, key } => RdCallView::RemoveKey { uid: *uid, key: key@ },
            RdCall::GetUrl { key } => RdCallView::GetUrl { key: key@ },
            RdCall::AddUrl { key, url } => RdCallView::AddUrl { key: key@, url: url@ },
            RdCall::DeleteUrl { key, url } => RdCallView::DeleteUrl { key: key@, url: url@ },
            RdCall::GetUrls { key } => RdCallView::GetUrls { key: key@ },
            RdCall::SetCsrf { csrf, now } => RdCallView::SetCsrf { csrf: csrf@, now: *now },
            RdCall::CheckCsrf { csrf, now } => RdCallView::CheckCsrf { csrf: csrf@, now: *now },
            RdCall::GetUserKeys { uid } => RdCallView::GetUserKeys { uid: *uid },
        }
    }
}

/// What follows an answer: the next order of the script, or the end of the
/// operation with its result.
pub enum Verdict {
    Proceed,
    Finish(Result<ValueView, Fault>),
}

impl RdCallView {
    /// The expiry of a token can be represented.
    pub open spec fn wf(self) -> bool {
        match self {
            RdCallView::SetCsrf { now, .. } => now + TOKEN_TTL <= u64::MAX,
            _ => true,
        }
    }

    /// The number of orders in the script of the operation.
    pub open spec fn steps(self) -> nat {
        match self {
            RdCallView::AddKey { .. } => 4,
            RdCallView::CheckKey { uid, .. } => if uid is Some {
                2
            } else {
                1
            },
            RdCallView::RemoveKey { uid, .. } => if uid is Some {
                2
            } else {
                1
            },
            RdCallView::SetCsrf { .. } => 2,
            RdCallView::CheckCsrf { .. } => 2,
            _ => 1,
        }
    }

    /// The order at a place of the script.
    pub open spec fn command(self, step: nat) -> RdCommandView {
        match self {
            RdCallView::AddKey { uid, key, limitation } => if step == 0 {
                RdCommandView::Scard { set: user_key_name(uid) }
            } else if step == 1 {
                RdCommandView::Scard { set: key_set_name() }
            } else if step == 2 {
                RdCommandView::Sadd { set: user_key_name(uid), member: key }
            } else {
                RdCommandView::Sadd { set: key_set_name(), member: key }
            },
            RdCallView::CheckKey { uid, key } => match uid {
                Some(owner) if step != 0 => RdCommandView::Sismember {
                    set: user_key_name(owner),
                    member: key,
                },
                _ => RdCommandView::Sismember { set: key_set_name(), member: key },
            },
            RdCallView::RemoveKey { uid, key } => match uid {
                Some(owner) if step != 0 => RdCommandView::Srem {
                    set: user_key_name(owner),
                    member: key,
                },
                _ => RdCommandView::Srem { set: key_set_name(), member: key },
            },
            RdCallView::GetUrl { key } => RdCommandView::Srandmember { set: list_name(key) },
            RdCallView::AddUrl { key, url } => RdCommandView::Sadd {
                set: list_name(key),
                member: url,
            },
            RdCallView::DeleteUrl { key, url } => RdCommandView::Srem {
                set: list_name(key),
                member: url,
            },
            RdCallView::GetUrls { key } => RdCommandView::Smembers { set: list_name(key) },
            RdCallView::SetCsrf { csrf, now } => if step == 0 {
                RdCommandView::Zadd {
                    zset: csrf_name(),
                    member: csrf,
                    score: (now + TOKEN_TTL) as u64,
                }
            } else {
                RdCommandView::Zrembyscore { zset: csrf_name(), max: now }
            },
            RdCallView::CheckCsrf { csrf, now } => if step == 0 {
                RdCommandView::Zrembyscore { zset: csrf_name(), max: now }
            } else {
                RdCommandView::Zrank { zset: csrf_name(), member: csrf }
            },
            RdCallView::GetUserKeys { uid } => RdCommandView::Smembers { set: user_key_name(uid) },
        }
    }

    /// The form of the answer that the order at a place of the script asks for.
    pub open spec fn expects(self, step: nat) -> Form {
        match self {
            RdCallView::AddKey { .. } => if step <= 1 {
                Form::Count
            } else {
                Form::Unit
            },
            RdCallView::CheckKey { .. } => Form::Flag,
            RdCallView::RemoveKey { .. } => Form::Unit,
            RdCallView::GetUrl { .. } => Form::Member,
            RdCallView::AddUrl { .. } => Form::Unit,
            RdCallView::DeleteUrl { .. } => Form::Unit,
            RdCallView::GetUrls { .. } => Form::Members,
            RdCallView::SetCsrf { .. } => Form::Unit,
            RdCallView::CheckCsrf { .. } => if step == 0 {
                Form::Unit
            } else {
                Form::Rank
            },
            RdCallView::GetUserKeys { .. } => Form::Members,
        }
    }

    /// What follows the answer to the order at a place of the script. A failure
    /// of the tier ends the operation with that failure, an answer of another
    /// form than was asked for ends it as invalid. Otherwise: a count above the
    /// limit ends an admission as refused; a key unknown to the tier as a whole
    /// is not looked up under its user; the last answer of a script is the
    /// result, a rank read as the fact that there is one.
    pub open spec fn judge(self, step: nat, reply: Result<ValueView, Fault>) -> Verdict {
        match reply {
            Err(fault) => Verdict::Finish(Err(fault)),
            Ok(answer) => if answer.form() != self.expects(step) {
                Verdict::Finish(Err(invalid()))
            } else if step + 1 < self.steps() {
                match (self, answer) {
                    (RdCallView::AddKey { limitation, .. }, ValueView::Count(count)) => if exceeds(
                        count,
                        limitation,
                    ) {
                        Verdict::Finish(Err(Fault::bare(AppErrorKind::Limit)))
                    } else {
                        Verdict::Proceed
                    },
                    (RdCallView::CheckKey { .. }, ValueView::Flag(false)) => Verdict::Finish(
                        Ok(answer),
                    ),
                    _ => Verdict::Proceed,
                }
            } else {
                match answer {
                    ValueView::Rank(rank) => Verdict::Finish(Ok(ValueView::Flag(rank is Some))),
                    _ => Verdict::Finish(Ok(answer)),
                }
            },
        }
    }
}

/// The tier after an operation, and the result of the operation, said
/// directly.
pub open spec fn rd_answer(tier: Ephemeral, call: RdCallView, chance: int) -> (
    Ephemeral,
    Result<ValueView, Fault>,
) {
    match call {
        RdCallView::AddKey { uid, key, limitation } => if quota_full(tier, uid, limitation) {
            (tier, Err(Fault::bare(AppErrorKind::Limit)))
        } else {
            (tier.sadd(user_key_name(uid), key).sadd(key_set_name(), key), Ok(ValueView::Unit))
        },
        RdCallView::CheckKey { uid, key } => (tier, Ok(ValueView::Flag(key_known(tier, uid, key)))),
        RdCallView::RemoveKey { uid, key } => (key_forgotten(tier, uid, key), Ok(ValueView::Unit)),
        RdCallView::GetUrl { key } => (
            tier,
            Ok(ValueView::Member(drawn(tier.members(list_name(key)), chance))),
        ),
        RdCallView::AddUrl { key, url } => (tier.sadd(list_name(key), url), Ok(ValueView::Unit)),
        RdCallView::DeleteUrl { key, url } => (
            tier.srem(list_name(key), url),
            Ok(ValueView::Unit),
        ),
        RdCallView::GetUrls { key } => (tier, Ok(ValueView::Members(tier.members(list_name(key))))),
        RdCallView::SetCsrf { csrf, now } => (token_issued(tier, csrf, now), Ok(ValueView::Unit)),
        RdCallView::CheckCsrf { csrf, now } => (
            tier.purge(csrf_name(), now),
            Ok(ValueView::Flag(token_valid(tier, csrf, now))),
        ),
        RdCallView::GetUserKeys { uid } => (
            tier,
            Ok(ValueView::Members(tier.members(user_key_name(uid)))),
        ),
    }
}

/// The tier and the result when the script of an operation is carried out from
/// a place on: each order is given to the tier, and the answer is judged.
pub open spec fn rd_run(tier: Ephemeral, call: RdCallView, step: nat, chance: int) -> (
    Ephemeral,
    Result<ValueView, Fault>,
)
    decreases call.steps() - step,
{
    let (next, answer) = tier.apply(call.command(step), chance);
    match call.judge(step, Ok(answer)) {
        Verdict::Finish(result) => (next, result),
        Verdict::Proceed => if step + 1 < call.steps() {
            rd_run(next, call, step + 1, chance)
        } else {
            (next, Err(invalid()))
        },
    }
}

/// An operation on the ephemeral tier that waits for the answer to one of its
/// orders.
#[derive(Debug, PartialEq, Eq)]
pub struct RdOp {
    call: RdCall,
    step: u8,
}

/// What an [`RdOp`] is to a contract: the operation, and the place in its
/// script of the order that it waits on.
pub struct RdOpView {
    pub call: RdCallView,
    pub step: nat,
}

impl View for RdOp {
    type V = RdOpView;

    closed spec fn view(&self) -> RdOpView {
        RdOpView { call: self.call@, step: self.step as nat }
    }
}

/// The state of an operation on the ephemeral tier between two answers: it
/// asks for an order to be carried out, or it is done.
#[derive(Debug, PartialEq, Eq)]
pub enum RdTurn {
    Ask(RdOp, RdCommand),
    Done(Result<Value, AppError>),
}

/// What an [`RdTurn`] is to a contract.
pub enum RdTurnView {
    Ask(RdOpView, RdCommandView),
    Done(Result<ValueView, Fault>),
}

impl View for RdTurn {
    type V = RdTurnView;

    open spec fn view(&self) -> RdTurnView {
        match self {
            RdTurn::Ask(op, command) => RdTurnView::Ask(op@, command@),
            RdTurn::Done(result) => RdTurnView::Done(seen(*result)),
        }
    }
}

/// The first turn of an operation: the first order of its script.
pub open spec fn rd_begin(call: RdCallView) -> RdTurnView {
    RdTurnView::Ask(RdOpView { call, step: 0 }, call.command(0))
}

/// The turn after an answer: the next order of the script, or the result.
pub open spec fn rd_resume(op: RdOpView, reply: Result<ValueView, Fault>) -> RdTurnView {
    match op.call.judge(op.step, reply) {
        Verdict::Finish(result) => RdTurnView::Done(result),
        Verdict::Proceed => RdTurnView::Ask(
            RdOpView { call: op.call, step: op.step + 1 },
            op.call.command(op.step + 1),
        ),
    }
}

/// Whether a count of members is above a limit.
pub fn over(count: u64, limitation: i16) -> (above: bool)
    ensures
        above == exceeds(count, limitation),
{
    limitation < 0 || count > limitation as u64
}

impl RdCall {
    /// Whether the operation can be carried out: the expiry of a token to issue
    /// can be represented.
    pub fn valid(&self) -> (ok: bool)
        ensures
            ok == self@.wf(),
    {
        match self {
            RdCall::SetCsrf { now, .. } => *now <= u64::MAX - TOKEN_TTL,
            _ => true,
        }
    }

    fn steps(&self) -> (count: u8)
        ensures
            count == self@.steps(),
            1 <= count <= 4,
    {
        match self {
            RdCall::AddKey { .. } => 4,
            RdCall::CheckKey { uid, .. } => if uid.is_some() {
                2
            } else {
                1
            },
            RdCall::RemoveKey { uid, .. } => if uid.is_some() {
                2
            } else {
                1
            },
            RdCall::SetCsrf { .. } => 2,
            RdCall::CheckCsrf { .. } => 2,
            _ => 1,
        }
    }

    fn command(&self, step: u8) -> (command: RdCommand)
        requires
            self@.wf() || step > 0,
        ensures
            command@ == self@.command(step as nat),
    {
        match self {
            RdCall::AddKey { uid, key, limitation } => if step == 0 {
                RdCommand::Scard { set: user_key(*uid) }
            } else if step == 1 {
                RdCommand::Scard { set: key_set() }
            } else if step == 2 {
                RdCommand::Sadd { set: user_key(*uid), member: key.clone() }
            } else {
                RdCommand::Sadd { set: key_set(), member: key.clone() }
            },
            RdCall::CheckKey { uid, key } => match uid {
                Some(owner) if step != 0 => RdCommand::Sismember {
                    set: user_key(*owner),
                    member: key.clone(),
                },
                _ => RdCommand::Sismember { set: key_set(), member: key.clone() },
            },
            RdCall::RemoveKey { uid, key } => match uid {
                Some(owner) if step != 0 => RdCommand::Srem {
                    set: user_key(*owner),
                    member: key.clone(),
                },
                _ => RdCommand::Srem { set: key_set(), member: key.clone() },
            },
            RdCall::GetUrl { key } => RdCommand::Srandmember { set: list_key(key.as_str()) },
            RdCall::AddUrl { key, url } => RdCommand::Sadd {
                set: list_key(key.as_str()),
                member: url.clone(),
            },
            RdCall::DeleteUrl { key, url } => RdCommand::Srem {
                set: list_key(key.as_str()),
                member: url.clone(),
            },
            RdCall::GetUrls { key } => RdCommand::Smembers { set: list_key(key.as_str()) },
            RdCall::SetCsrf { csrf, now } => if step == 0 {
                RdCommand::Zadd { zset: csrf_key(), member: csrf.clone(), score: *now + TOKEN_TTL }
            } else {
                RdCommand::Zrembyscore { zset: csrf_key(), max: *now }
            },
            RdCall::CheckCsrf { csrf, now } => if step == 0 {
                RdCommand::Zrembyscore { zset: csrf_key(), max: *now }
            } else {
                RdCommand::Zrank { zset: csrf_key(), member: csrf.clone() }
            },
            RdCall::GetUserKeys { uid } => RdCommand::Smembers { set: user_key(*uid) },
        }
    }

    fn expects(&self, step: u8) -> (form: Form)
        ensures
            form == self@.expects(step as nat),
    {
        match self {
            RdCall::AddKey { .. } => if step <= 1 {
                Form::Count
            } else {
                Form::Unit
            },
            RdCall::CheckKey { .. } => Form::Flag,
            RdCall::RemoveKey { .. } => Form::Unit,
            RdCall::GetUrl { .. } => Form::Member,
            RdCall::AddUrl { .. } => Form::Unit,
            RdCall::DeleteUrl { .. } => Form::Unit,
            RdCall::GetUrls { .. } => Form::Members,
            RdCall::SetCsrf { .. } => Form::Unit,
            RdCall::CheckCsrf { .. } => if step == 0 {
                Form::Unit
            } else {
                Form::Rank
            },
            RdCall::GetUserKeys { .. } => Form::Members,
        }
    }
}

impl RdOp {
    /// Begins an operation: the first turn asks for the first order of its
    /// script.
    pub fn begin(call: RdCall) -> (turn: RdTurn)
        requires
            call@.wf(),
        ensures
            turn@ == rd_begin(call@),
    {
        let command = call.command(0);
        RdTurn::Ask(RdOp { call, step: 0 }, command)
    }

    /// Takes the answer to the order that the operation waits on, and gives the
    /// next turn.
    pub fn resume(self, reply: Result<Value, AppError>) -> (turn: RdTurn)
        ensures
            turn@ == rd_resume(self@, seen(reply)),
    {
        let steps = self.call.steps();
        match reply {
            Err(fault) => RdTurn::Done(Err(fault)),
            Ok(answer) => {
                if answer.form() != self.call.expects(self.step) {
                    RdTurn::Done(Err(AppError::Invalid))
                } else if self.step < steps - 1 {
                    let refused = match (&self.call, &answer) {
                        (RdCall::AddKey { limitation, .. }, Value::Count(count)) => over(
                            *count,
                            *limitation,
                        ),
                        _ => false,
                    };
                    let unknown = match (&self.call, &answer) {
                        (RdCall::CheckKey { .. }, Value::Flag(false)) => true,
                        _ => false,
                    };
                    if refused {
                        RdTurn::Done(Err(AppError::Limit))
                    } else if unknown {
                        RdTurn::Done(Ok(answer))
                    } else {
                        let step = self.step + 1;
                        let command = self.call.command(step);
                        RdTurn::Ask(RdOp { call: self.call, step }, command)
                    }
                } else {
                    match answer {
                        Value::Rank(rank) => RdTurn::Done(Ok(Value::Flag(rank.is_some()))),
                        other => RdTurn::Done(Ok(other)),
                    }
                }
            },
        }
    }
}

/// A script never asks to go on after its last order.
pub proof fn lemma_rd_script_ends(call: RdCallView, step: nat, reply: Result<ValueView, Fault>)
    ensures
        call.judge(step, reply) is Proceed ==> step + 1 < call.steps(),
{
}

/// Carrying out the script of an operation order by order gives what the
/// operation is said to give.
pub proof fn lemma_rd_run_is_answer(tier: Ephemeral, call: RdCallView, chance: int)
    ensures
        rd_run(tier, call, 0, chance) == rd_answer(tier, call, chance),
{
    reveal_with_fuel(rd_run, 5);
    match call {
        RdCallView::AddKey { uid, key, limitation } => {
            let user = user_key_name(uid);
            let all = key_set_name();
            let first = tier.sadd(user, key);
            assert(tier.apply(call.command(2), chance).0 == first);
        },
        RdCallView::CheckCsrf { csrf, now } => {
            let names = members_of(unexpired(tier.entries(csrf_name()), now));
            names.index_of_first_ensures(csrf);
            assert(tier.purge(csrf_name(), now).entries(csrf_name()) == unexpired(
                tier.entries(csrf_name()),
                now,
            ));
        },
        _ => {},
    }
}

/// Carrying out a script from a place on leaves a well-formed tier
/// well-formed.
pub proof fn lemma_rd_run_keeps_wf(tier: Ephemeral, call: RdCallView, step: nat, chance: int)
    requires
        tier.wf(),
    ensures
        rd_run(tier, call, step, chance).0.wf(),
    decreases call.steps() - step,
{
    let (next, answer) = tier.apply(call.command(step), chance);
    lemma_apply_keeps_wf(tier, call.command(step), chance);
    match call.judge(step, Ok(answer)) {
        Verdict::Finish(result) => {},
        Verdict::Proceed => {
            if step + 1 < call.steps() {
                lemma_rd_run_keeps_wf(next, call, step + 1, chance);
            }
        },
    }
}

/// An operation leaves a well-formed tier well-formed.
pub proof fn lemma_rd_answer_keeps_wf(tier: Ephemeral, call: RdCallView, chance: int)
    requires
        tier.wf(),
    ensures
        rd_answer(tier, call, chance).0.wf(),
{
    lemma_rd_run_is_answer(tier, call, chance);
    lemma_rd_run_keeps_wf(tier, call, 0, chance);
}

} // verus!
