//! The service over both tiers held in memory.
use crate::dao::mysql::db::DbSrv;
use crate::dao::redis::db::RdSrv;
use crate::dao::redis::naming::csrf_name;
use crate::dao::redis::ops::{token_issued, token_valid, TOKEN_TTL};
use crate::engine::{
    lemma_advance_nears_end, lemma_request_wf, Call, Op, Request, Turn, TurnView,
};
use crate::entity::key;
use crate::error::{AppError, AppErrorKind, Fault};
use crate::text::strs;
use crate::value::{seen, Value, ValueView};
use crate::world::{entry, lemma_run_is_answer, lemma_step, run, World};
use vstd::prelude::*;
use vstd::string::*;

verus! {

/// The service: a durable tier and an ephemeral tier, and the operations that
/// keep the two coherent.
pub struct AppState {
    pub mdb: DbSrv,
    pub rdb: RdSrv,
}

impl View for AppState {
    type V = World;

    open spec fn view(&self) -> World {
        World { cache: self.rdb@, disk: self.mdb@ }
    }
}

impl AppState {
    /// The service over two tiers.
    pub fn new(mdb: DbSrv, rdb: RdSrv) -> (state: Self)
        ensures
            state.mdb == mdb,
            state.rdb == rdb,
    {
        AppState { mdb, rdb }
    }

    /// Carries out an operation of the service: whatever it asks of a tier is
    /// carried out on that tier and the answer handed back, until it is done.
    /// The number `chance` decides a random draw.
    pub fn run(&mut self, call: Call, chance: usize) -> (result: Result<Value, AppError>)
        requires
            call@.wf(),
        ensures
            (final(self)@, seen(result)) == old(self)@.answer(call@, chance as int),
            old(self)@.wf() ==> final(self)@.wf(),
    {
        let ghost script = call@;
        let ghost goal = run(self@, entry(script), chance as int);
        proof {
            lemma_run_is_answer(self@, script, chance as int);
        }
        let mut turn = Op::begin(call);
        loop
            invariant
                script == call@,
                script.wf(),
                goal == old(self)@.answer(script, chance as int),
                old(self)@.wf() ==> self@.wf(),
                match turn@ {
                    TurnView::Ask(op, request) => {
                        &&& op.call == script
                        &&& request == op.request()
                        &&& run(self@, op, chance as int) == goal
                    },
                    TurnView::Done(result) => (self@, result) == goal,
                },
            decreases
                    (match turn@ {
                        TurnView::Ask(op, _) => op.stage.rank(),
                        TurnView::Done(_) => 0,
                    }),
                    (match turn@ {
                        TurnView::Ask(op, _) => op.remaining(),
                        TurnView::Done(_) => 0,
                    }),
        {
            match turn {
                Turn::Done(result) => {
                    return result;
                },
                Turn::Ask(op, request) => {
                    proof {
                        lemma_request_wf(op@);
                        lemma_step(self@, op@, chance as int);
                    }
                    let reply = match request {
                        Request::Cache(call) => self.rdb.run(call, chance),
                        Request::Record(call) => self.mdb.run(call),
                    };
                    proof {
                        lemma_advance_nears_end(op@, seen(reply));
                    }
                    turn = op.resume(reply);
                },
            }
        }
    }

    /// Creates `key` for user `uid` under the quota `limitation`, and returns
    /// its record.
    pub fn add_key(&mut self, uid: i64, key: &str, limitation: i16) -> (result: Result<
        key::Model,
        AppError,
    >)
        ensures
            match result {
                Ok(record) => old(self)@.add_key(uid, key@, limitation) == (
                    final(self)@,
                    Ok::<ValueView, Fault>(ValueView::Key(record@)),
                ),
                Err(e) => old(self)@.add_key(uid, key@, limitation) == (
                    final(self)@,
                    Err::<ValueView, Fault>(e@),
                ),
            },
            old(self)@.wf() ==> final(self)@.wf(),
    {
        match self.run(Call::AddKey { uid, key: String::from_str(key), limitation }, 0) {
            Ok(answer) => answer.into_key(),
            Err(e) => Err(e),
        }
    }

    /// Whether `key` exists, and where a user is given, as theirs.
    pub fn check_key(&mut self, uid: Option<i64>, key: &str) -> (result: Result<bool, AppError>)
        ensures
            match result {
                Ok(found) => old(self)@.presence(uid, key@) == (
                    final(self)@,
                    Ok::<bool, Fault>(found),
                ),
                Err(e) => old(self)@.presence(uid, key@) == (
                    final(self)@,
                    Err::<bool, Fault>(e@),
                ),
            },
            old(self)@.wf() ==> final(self)@.wf(),
    {
        match self.run(Call::CheckKey { uid, key: String::from_str(key) }, 0) {
            Ok(answer) => answer.into_flag(),
            Err(e) => Err(e),
        }
    }

    /// Resolves `key` to one of its URLs, drawn by the number `chance`: none
    /// where the key has no URL in either tier.
    pub fn get_url(&mut self, key: &str, chance: usize) -> (result: Result<
        Option<String>,
        AppError,
    >)
        ensures
            match result {
                Ok(Some(url)) => old(self)@.get_url(key@, chance as int) == (
                    final(self)@,
                    Ok::<ValueView, Fault>(ValueView::Member(Some(url@))),
                ),
                Ok(None) => old(self)@.get_url(key@, chance as int) == (
                    final(self)@,
                    Ok::<ValueView, Fault>(ValueView::Member(None)),
                ),
                Err(_) => false,
            },
            old(self)@.wf() ==> final(self)@.wf(),
    {
        match self.run(Call::GetUrl { key: String::from_str(key) }, chance) {
            Ok(answer) => answer.into_member(),
            Err(e) => Err(e),
        }
    }

    /// Registers `url` under `key`: the key not found where it does not exist.
    pub fn add_url(&mut self, key: &str, url: &str) -> (result: Result<(), AppError>)
        ensures
            match result {
                Ok(_) => old(self)@.add_url(key@, url@) == (
                    final(self)@,
                    Ok::<ValueView, Fault>(ValueView::Unit),
                ),
                Err(e) => old(self)@.add_url(key@, url@) == (
                    final(self)@,
                    Err::<ValueView, Fault>(e@),
                ),
            },
            old(self)@.wf() ==> final(self)@.wf(),
    {
        let call = Call::AddUrl { key: String::from_str(key), url: String::from_str(url) };
        match self.run(call, 0) {
            Ok(answer) => answer.into_unit(),
            Err(e) => Err(e),
        }
    }

    /// Removes `url` from `key`: the key not found where it does not exist.
    pub fn delete_url(&mut self, key: &str, url: &str) -> (result: Result<(), AppError>)
        ensures
            match result {
                Ok(_) => old(self)@.delete_url(key@, url@) == (
                    final(self)@,
                    Ok::<ValueView, Fault>(ValueView::Unit),
                ),
                Err(e) => old(self)@.delete_url(key@, url@) == (
                    final(self)@,
                    Err::<ValueView, Fault>(e@),
                ),
            },
            old(self)@.wf() ==> final(self)@.wf(),
    {
        let call = Call::DeleteUrl { key: String::from_str(key), url: String::from_str(url) };
        match self.run(call, 0) {
            Ok(answer) => answer.into_unit(),
            Err(e) => Err(e),
        }
    }

    /// Lists the URLs of `key`.
    pub fn get_urls(&mut self, key: &str) -> (result: Result<Vec<String>, AppError>)
        ensures
            match result {
                Ok(urls) => old(self)@.get_urls(key@) == (
                    final(self)@,
                    Ok::<ValueView, Fault>(ValueView::Members(strs(urls@))),
                ),
                Err(_) => false,
            },
            old(self)@.wf() ==> final(self)@.wf(),
    {
        match self.run(Call::GetUrls { key: String::from_str(key) }, 0) {
            Ok(answer) => answer.into_members(),
            Err(e) => Err(e),
        }
    }

    /// Issues the anti-forgery token `csrf` at the time `now`, in seconds.
    pub fn set_csrf(&mut self, csrf: &str, now: u64) -> (result: Result<(), AppError>)
        requires
            now + TOKEN_TTL <= u64::MAX,
        ensures
            result is Ok,
            final(self).rdb@ == token_issued(old(self).rdb@, csrf@, now),
            final(self).mdb@ == old(self).mdb@,
            old(self)@.wf() ==> final(self)@.wf(),
    {
        match self.run(Call::SetCsrf { csrf: String::from_str(csrf), now }, 0) {
            Ok(answer) => answer.into_unit(),
            Err(e) => Err(e),
        }
    }

    /// Whether the anti-forgery token `csrf` is valid at the time `now`, in
    /// seconds. What has expired by `now` is removed.
    pub fn check_csrf(&mut self, csrf: &str, now: u64) -> (result: Result<bool, AppError>)
        ensures
            result == Ok::<bool, AppError>(
                token_valid(old(self).rdb@, csrf@, now),
            ),
            final(self).rdb@ == old(self).rdb@.purge(csrf_name(), now),
            final(self).mdb@ == old(self).mdb@,
            old(self)@.wf() ==> final(self)@.wf(),
    {
        match self.run(Call::CheckCsrf { csrf: String::from_str(csrf), now }, 0) {
            Ok(answer) => answer.into_flag(),
            Err(e) => Err(e),
        }
    }

    /// Lists the keys of user `uid`: refused where the keys on record have to
    /// be admitted to the ephemeral tier and one of them is not.
    pub fn get_user_keys(&mut self, uid: i64) -> (result: Result<Vec<String>, AppError>)
        ensures
            match result {
                Ok(keys) => old(self)@.get_user_keys(uid) == (
                    final(self)@,
                    Ok::<ValueView, Fault>(ValueView::Members(strs(keys@))),
                ),
                Err(e) => old(self)@.get_user_keys(uid) == (
                    final(self)@,
                    Err::<ValueView, Fault>(e@),
                ),
            },
            old(self)@.wf() ==> final(self)@.wf(),
    {
        match self.run(Call::GetUserKeys { uid }, 0) {
            Ok(answer) => answer.into_members(),
            Err(e) => Err(e),
        }
    }

    /// Deletes `key` from the record: the key not found where it is not on
    /// record. The ephemeral tier is left as it is.
    pub fn delete_key(&mut self, key: &str) -> (result: Result<(), AppError>)
        ensures
            match old(self).mdb@.find(key@) {
                Some(row) => result is Ok && final(self).mdb@ == old(self).mdb@.without_key(row.id),
                None => result matches Err(e) && e@ == Fault::bare(
                    AppErrorKind::KeyNotFound,
                ) && final(self).mdb@ == old(self).mdb@,
            },
            final(self).rdb@ == old(self).rdb@,
            old(self)@.wf() ==> final(self)@.wf(),
    {
        match self.run(Call::DeleteKey { key: String::from_str(key) }, 0) {
            Ok(answer) => answer.into_unit(),
            Err(e) => Err(e),
        }
    }

    /// Makes the ephemeral tier forget `key`, and where a user is given, that
    /// it is theirs, unless the key is on record. Returns whether there was
    /// anything to forget.
    pub fn reconcile_deleted_key(&mut self, uid: Option<i64>, key: &str) -> (result: Result<
        bool,
        AppError,
    >)
        ensures
            match result {
                Ok(repaired) => old(self)@.reconcile_deleted_key(uid, key@) == (
                    final(self)@,
                    Ok::<ValueView, Fault>(ValueView::Flag(repaired)),
                ),
                Err(_) => false,
            },
            old(self)@.wf() ==> final(self)@.wf(),
    {
        match self.run(Call::ReconcileDeletedKey { uid, key: String::from_str(key) }, 0) {
            Ok(answer) => answer.into_flag(),
            Err(e) => Err(e),
        }
    }
}

} // verus!
