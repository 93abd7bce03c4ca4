//! Both tiers as one mathematical value, and what each operation of the
//! service does to it and returns.
use crate::dao::mysql::disk::{owned_by, Durable};
use crate::dao::mysql::ops::{db_answer, lemma_db_answer_keeps_wf, DbCallView};
use crate::dao::redis::cache::{drawn, Ephemeral};
use crate::dao::redis::naming::{csrf_name, key_set_name, list_name, user_key_name};
use crate::dao::redis::ops::{
    key_forgotten, key_known, lemma_rd_answer_keeps_wf, quota_full, rd_answer, token_issued,
    token_valid,
};
use crate::engine::{
    lemma_advance_nears_end, CallView, Next, OpView, RequestView, Stage, BACKFILL_LIMIT,
};
use crate::entity::key;
use crate::error::{AppErrorKind, Fault};
use crate::value::{invalid, ValueView};
use vstd::prelude::*;

verus! {

/// The ephemeral tier with `key` among the keys of user `uid` and among the
/// keys of the tier.
pub open spec fn admitted(cache: Ephemeral, uid: i64, key: Seq<char>) -> Ephemeral {
    cache.sadd(user_key_name(uid), key).sadd(key_set_name(), key)
}

/// The ephemeral tier with the items of a list, from a place on, in the set
/// named `name`.
pub open spec fn filled_cache(
    cache: Ephemeral,
    name: Seq<char>,
    items: Seq<Seq<char>>,
    from: nat,
) -> Ephemeral
    decreases items.len() - from,
{
    if from >= items.len() {
        cache
    } else {
        filled_cache(cache.sadd(name, items[from as int]), name, items, from + 1)
    }
}

/// Whether the ephemeral tier admits every key of a list, from a place on,
/// for user `uid` under [`BACKFILL_LIMIT`], one after the other.
pub open spec fn admits_all(cache: Ephemeral, uid: i64, keys: Seq<Seq<char>>, from: nat) -> bool
    decreases keys.len() - from,
{
    if from >= keys.len() {
        true
    } else if quota_full(cache, uid, BACKFILL_LIMIT) {
        false
    } else {
        admits_all(admitted(cache, uid, keys[from as int]), uid, keys, from + 1)
    }
}

/// The ephemeral tier with the keys of a list, from a place on, admitted for
/// user `uid` under [`BACKFILL_LIMIT`]: the first key that is refused ends it.
pub open spec fn admitted_all(
    cache: Ephemeral,
    uid: i64,
    keys: Seq<Seq<char>>,
    from: nat,
) -> Ephemeral
    decreases keys.len() - from,
{
    if from >= keys.len() || quota_full(cache, uid, BACKFILL_LIMIT) {
        cache
    } else {
        admitted_all(admitted(cache, uid, keys[from as int]), uid, keys, from + 1)
    }
}

/// Both tiers.
pub struct World {
    pub cache: Ephemeral,
    pub disk: Durable,
}

impl World {
    /// Both tiers with nothing in them.
    pub open spec fn empty() -> World {
        World { cache: Ephemeral::empty(), disk: Durable::empty() }
    }

    /// Both tiers are well-formed.
    pub open spec fn wf(self) -> bool {
        self.cache.wf() && self.disk.wf()
    }

    /// The tiers with another ephemeral tier.
    pub open spec fn with_cache(self, cache: Ephemeral) -> World {
        World { cache, disk: self.disk }
    }

    /// The tiers with another durable tier.
    pub open spec fn with_disk(self, disk: Durable) -> World {
        World { cache: self.cache, disk }
    }

    /// The tiers after one of them has carried out what it was asked, and its
    /// answer.
    pub open spec fn serve(self, request: RequestView, chance: int) -> (
        World,
        Result<ValueView, Fault>,
    ) {
        match request {
            RequestView::Cache(call) => {
                let (cache, reply) = rd_answer(self.cache, call, chance);
                (self.with_cache(cache), reply)
            },
            RequestView::Record(call) => {
                let (disk, reply) = db_answer(self.disk, call);
                (self.with_disk(disk), reply)
            },
        }
    }

    /// Creating `key` for user `uid` under the quota `limitation`.
    ///
    /// Refused where the ephemeral tier holds more than `limitation` keys of
    /// the user, or more than `limitation` keys in all. Else the key is
    /// admitted to the ephemeral tier and then recorded, and the record is
    /// returned; where recording fails the key stays admitted.
    pub open spec fn add_key(self, uid: i64, key: Seq<char>, limitation: i16) -> (
        World,
        Result<ValueView, Fault>,
    ) {
        if quota_full(self.cache, uid, limitation) {
            (self, Err(Fault::bare(AppErrorKind::Limit)))
        } else {
            let (disk, result) = self.disk.insert_key(uid, key);
            (World { cache: admitted(self.cache, uid, key), disk }, result)
        }
    }

    /// Whether `key` exists, and where a user is given, as theirs.
    ///
    /// It does where the ephemeral tier knows it so. Else the durable tier
    /// decides, by the token alone: where the key is on record, it is admitted
    /// to the ephemeral tier again under [`BACKFILL_LIMIT`], for the user that
    /// was given or else for the user on record, and a refusal there is the
    /// result.
    pub open spec fn presence(self, uid: Option<i64>, key: Seq<char>) -> (
        World,
        Result<bool, Fault>,
    ) {
        if key_known(self.cache, uid, key) {
            (self, Ok(true))
        } else {
            match self.disk.find(key) {
                None => (self, Ok(false)),
                Some(row) => {
                    let owner = match uid {
                        Some(given) => given,
                        None => row.user_id,
                    };
                    if quota_full(self.cache, owner, BACKFILL_LIMIT) {
                        (self, Err(Fault::bare(AppErrorKind::Limit)))
                    } else {
                        (self.with_cache(admitted(self.cache, owner, key)), Ok(true))
                    }
                },
            }
        }
    }

    /// Asking whether `key` exists.
    pub open spec fn check_key(self, uid: Option<i64>, key: Seq<char>) -> (
        World,
        Result<ValueView, Fault>,
    ) {
        let (after, found) = self.presence(uid, key);
        (
            after,
            match found {
                Ok(yes) => Ok(ValueView::Flag(yes)),
                Err(fault) => Err(fault),
            },
        )
    }

    /// Registering `url` under `key`.
    ///
    /// The key must exist, whoever owns it. Then the URL is added in the
    /// ephemeral tier, and after that in the durable tier, which fails with the
    /// key not found where the key is not on record.
    pub open spec fn add_url(self, key: Seq<char>, url: Seq<char>) -> (
        World,
        Result<ValueView, Fault>,
    ) {
        let (after, found) = self.presence(None, key);
        match found {
            Err(fault) => (after, Err(fault)),
            Ok(false) => (after, Err(Fault::bare(AppErrorKind::KeyNotFound))),
            Ok(true) => {
                let cache = after.cache.sadd(list_name(key), url);
                match after.disk.find(key) {
                    Some(row) => (
                        World { cache, disk: after.disk.with_url(row.id, url) },
                        Ok(ValueView::Unit),
                    ),
                    None => (
                        after.with_cache(cache),
                        Err(Fault::bare(AppErrorKind::KeyNotFound)),
                    ),
                }
            },
        }
    }

    /// Removing `url` from `key`.
    ///
    /// The key must exist, whoever owns it. Then the URL is deleted in the
    /// durable tier, which fails with the key not found where the key is not
    /// on record, and after that removed in the ephemeral tier.
    pub open spec fn delete_url(self, key: Seq<char>, url: Seq<char>) -> (
        World,
        Result<ValueView, Fault>,
    ) {
        let (after, found) = self.presence(None, key);
        match found {
            Err(fault) => (after, Err(fault)),
            Ok(false) => (after, Err(Fault::bare(AppErrorKind::KeyNotFound))),
            Ok(true) => match after.disk.find(key) {
                Some(row) => (
                    World {
                        cache: after.cache.srem(list_name(key), url),
                        disk: after.disk.without_url(row.id, url),
                    },
                    Ok(ValueView::Unit),
                ),
                None => (after, Err(Fault::bare(AppErrorKind::KeyNotFound))),
            },
        }
    }

    /// Listing the URLs of `key`.
    ///
    /// What the ephemeral tier holds, where it holds any. Else what the
    /// durable tier holds, nothing for a key that is not on record, and these
    /// URLs are then in the ephemeral tier.
    pub open spec fn get_urls(self, key: Seq<char>) -> (World, Result<ValueView, Fault>) {
        let cached = self.cache.members(list_name(key));
        if cached.len() > 0 {
            (self, Ok(ValueView::Members(cached)))
        } else {
            let stored = self.disk.urls_of(key);
            (
                self.with_cache(filled_cache(self.cache, list_name(key), stored, 0)),
                Ok(ValueView::Members(stored)),
            )
        }
    }

    /// Resolving `key` to one of its URLs.
    ///
    /// A draw from what the ephemeral tier holds, where it holds any. Else,
    /// where the durable tier holds any, these URLs are then in the ephemeral
    /// tier and the draw is from them. Else none.
    pub open spec fn get_url(self, key: Seq<char>, chance: int) -> (
        World,
        Result<ValueView, Fault>,
    ) {
        let cached = self.cache.members(list_name(key));
        let stored = self.disk.urls_of(key);
        if cached.len() > 0 {
            (self, Ok(ValueView::Member(drawn(cached, chance))))
        } else if stored.len() == 0 {
            (self, Ok(ValueView::Member(None)))
        } else {
            let cache = filled_cache(self.cache, list_name(key), stored, 0);
            (
                self.with_cache(cache),
                Ok(ValueView::Member(drawn(cache.members(list_name(key)), chance))),
            )
        }
    }

    /// Listing the keys of user `uid`.
    ///
    /// What the ephemeral tier holds, where it holds any. Else what the
    /// durable tier holds, and these keys are then admitted to the ephemeral
    /// tier under [`BACKFILL_LIMIT`], one after the other: a refusal ends the
    /// listing as refused, with the keys before it admitted.
    pub open spec fn get_user_keys(self, uid: i64) -> (World, Result<ValueView, Fault>) {
        let cached = self.cache.members(user_key_name(uid));
        if cached.len() > 0 {
            (self, Ok(ValueView::Members(cached)))
        } else {
            let stored = key::tokens(owned_by(self.disk.keys, uid));
            (
                self.with_cache(admitted_all(self.cache, uid, stored, 0)),
                if admits_all(self.cache, uid, stored, 0) {
                    Ok(ValueView::Members(stored))
                } else {
                    Err(Fault::bare(AppErrorKind::Limit))
                },
            )
        }
    }

    /// Making the ephemeral tier forget `key`, and where a user is given, that
    /// it is theirs, unless the key is on record: the result says whether
    /// there was anything to forget.
    pub open spec fn reconcile_deleted_key(self, uid: Option<i64>, key: Seq<char>) -> (
        World,
        Result<ValueView, Fault>,
    ) {
        match self.disk.find(key) {
            Some(_) => (self, Ok(ValueView::Flag(false))),
            None => (
                self.with_cache(key_forgotten(self.cache, uid, key)),
                Ok(ValueView::Flag(true)),
            ),
        }
    }

    /// The tiers after an operation of the service, and the result of the
    /// operation, said directly. The number `chance` decides a random draw.
    pub open spec fn answer(self, call: CallView, chance: int) -> (
        World,
        Result<ValueView, Fault>,
    ) {
        match call {
            CallView::AddKey { uid, key, limitation } => self.add_key(uid, key, limitation),
            CallView::CheckKey { uid, key } => self.check_key(uid, key),
            CallView::GetUrl { key } => self.get_url(key, chance),
            CallView::AddUrl { key, url } => self.add_url(key, url),
            CallView::DeleteUrl { key, url } => self.delete_url(key, url),
            CallView::GetUrls { key } => self.get_urls(key),
            CallView::SetCsrf { csrf, now } => (
                self.with_cache(token_issued(self.cache, csrf, now)),
                Ok(ValueView::Unit),
            ),
            CallView::CheckCsrf { csrf, now } => (
                self.with_cache(self.cache.purge(csrf_name(), now)),
                Ok(ValueView::Flag(token_valid(self.cache, csrf, now))),
            ),
            CallView::GetUserKeys { uid } => self.get_user_keys(uid),
            CallView::DeleteKey { key } => {
                let (disk, result) = db_answer(self.disk, DbCallView::DeleteKey { key });
                (self.with_disk(disk), result)
            },
            CallView::ReconcileDeletedKey { uid, key } => self.reconcile_deleted_key(uid, key),
        }
    }
}

/// The tiers and the result when an operation is carried out from a state on:
/// what it asks for is served, and the answer decides how it goes on.
pub open spec fn run(world: World, op: OpView, chance: int) -> (World, Result<ValueView, Fault>)
    decreases op.stage.rank(), op.remaining(),
{
    let (next, reply) = world.serve(op.request(), chance);
    match op.advance(reply) {
        Next::Finish(result) => (next, result),
        Next::Goto(then) => if then.before(op) {
            run(next, then, chance)
        } else {
            (next, Err(invalid()))
        },
    }
}

/// The state in which an operation begins.
pub open spec fn entry(call: CallView) -> OpView {
    OpView { call, stage: call.entry(), found: Seq::empty(), filled: 0, owner: 0 }
}

/// Taking the URLs of the durable tier to the ephemeral tier, from an item on,
/// puts them all there; a listing then returns them, and a draw is from what
/// the ephemeral tier then holds.
pub proof fn lemma_fill_urls(world: World, op: OpView, chance: int)
    requires
        op.stage == Stage::Fill,
        op.filled < op.found.len(),
        op.call is GetUrls || op.call is GetUrl,
    ensures
        run(world, op, chance) == ({
            let name = list_name(op.call.key());
            let cache = filled_cache(world.cache, name, op.found, op.filled);
            (
                world.with_cache(cache),
                if op.call is GetUrl {
                    Ok::<ValueView, Fault>(ValueView::Member(drawn(cache.members(name), chance)))
                } else {
                    Ok::<ValueView, Fault>(ValueView::Members(op.found))
                },
            )
        }),
    decreases op.found.len() - op.filled,
{
    reveal_with_fuel(run, 2);
    reveal_with_fuel(filled_cache, 2);
    let name = list_name(op.call.key());
    let (next, reply) = world.serve(op.request(), chance);
    assert(next.cache == world.cache.sadd(name, op.found[op.filled as int]));
    assert(reply == Ok::<ValueView, Fault>(ValueView::Unit));
    if op.filled + 1 < op.found.len() {
        let then = OpView { filled: op.filled + 1, ..op };
        assert(then.before(op));
        lemma_fill_urls(next, then, chance);
    }
}

/// Taking the keys of the durable tier to the ephemeral tier, from an item on,
/// admits them up to the first that is refused; the listing returns them all
/// where none is.
pub proof fn lemma_fill_keys(world: World, op: OpView, chance: int)
    requires
        op.stage == Stage::Fill,
        op.filled < op.found.len(),
        op.call is GetUserKeys,
    ensures
        run(world, op, chance) == (
            world.with_cache(admitted_all(world.cache, op.call.user(), op.found, op.filled)),
            if admits_all(world.cache, op.call.user(), op.found, op.filled) {
                Ok::<ValueView, Fault>(ValueView::Members(op.found))
            } else {
                Err::<ValueView, Fault>(Fault::bare(AppErrorKind::Limit))
            },
        ),
    decreases op.found.len() - op.filled,
{
    reveal_with_fuel(run, 2);
    reveal_with_fuel(admitted_all, 2);
    reveal_with_fuel(admits_all, 2);
    let uid = op.call.user();
    let (next, reply) = world.serve(op.request(), chance);
    if quota_full(world.cache, uid, BACKFILL_LIMIT) {
        assert(next == world);
    } else {
        assert(next.cache == admitted(world.cache, uid, op.found[op.filled as int]));
        assert(reply == Ok::<ValueView, Fault>(ValueView::Unit));
        if op.filled + 1 < op.found.len() {
            let then = OpView { filled: op.filled + 1, ..op };
            assert(then.before(op));
            lemma_fill_keys(next, then, chance);
        }
    }
}

/// The tiers and the result after a step: the result where the step ends the
/// operation, else what carrying the operation on gives.
pub open spec fn follow(world: World, next: Next, chance: int) -> (
    World,
    Result<ValueView, Fault>,
) {
    match next {
        Next::Finish(result) => (world, result),
        Next::Goto(then) => run(world, then, chance),
    }
}

/// The state of an operation once its key is known to exist: where the record
/// had to tell, the user for whom the key was admitted again is noted.
pub open spec fn settled(world: World, op: OpView) -> OpView {
    if key_known(world.cache, op.call.owner(), op.call.key()) {
        op
    } else {
        match world.disk.find(op.call.key()) {
            Some(row) => OpView {
                owner: match op.call.owner() {
                    Some(given) => given,
                    None => row.user_id,
                },
                ..op
            },
            None => op,
        }
    }
}

/// One step of an operation, spelled out.
pub proof fn lemma_step(world: World, op: OpView, chance: int)
    ensures
        run(world, op, chance) == ({
            let (next, reply) = world.serve(op.request(), chance);
            follow(next, op.advance(reply), chance)
        }),
{
    let (next, reply) = world.serve(op.request(), chance);
    lemma_advance_nears_end(op, reply);
}

/// From the question whether the key is known, an operation goes on as the
/// existence of the key says.
pub proof fn lemma_known(world: World, op: OpView, chance: int)
    requires
        op.stage == Stage::Known,
        op.call is CheckKey || op.call is AddUrl || op.call is DeleteUrl,
    ensures
        run(world, op, chance) == ({
            let (after, found) = world.presence(op.call.owner(), op.call.key());
            match found {
                Err(fault) => (after, Err::<ValueView, Fault>(fault)),
                Ok(false) => follow(after, op.absent(), chance),
                Ok(true) => follow(after, settled(world, op).present(), chance),
            }
        }),
{
    let uid = op.call.owner();
    let key = op.call.key();
    lemma_step(world, op, chance);
    if !key_known(world.cache, uid, key) {
        let lookup = op.at(Stage::Lookup);
        lemma_step(world, lookup, chance);
        match world.disk.find(key) {
            Some(row) => {
                let repair = OpView { stage: Stage::Repair, ..settled(world, op) };
                lemma_step(world, repair, chance);
            },
            None => {},
        }
    }
}

proof fn lemma_run_get_urls(world: World, key: Seq<char>, chance: int)
    ensures
        run(world, entry(CallView::GetUrls { key }), chance) == world.get_urls(key),
{
    let op = entry(CallView::GetUrls { key });
    lemma_step(world, op, chance);
    reveal_with_fuel(filled_cache, 1);
    let cached = world.cache.members(list_name(key));
    let stored = world.disk.urls_of(key);
    if cached.len() == 0 {
        lemma_step(world, op.at(Stage::Source), chance);
        if stored.len() > 0 {
            let fill = OpView { stage: Stage::Fill, found: stored, filled: 0, ..op };
            lemma_fill_urls(world, fill, chance);
        } else {
            assert(stored =~= Seq::<Seq<char>>::empty());
        }
    }
}

proof fn lemma_run_get_url(world: World, key: Seq<char>, chance: int)
    ensures
        run(world, entry(CallView::GetUrl { key }), chance) == world.get_url(key, chance),
{
    let op = entry(CallView::GetUrl { key });
    lemma_step(world, op, chance);
    reveal_with_fuel(filled_cache, 1);
    let cached = world.cache.members(list_name(key));
    let stored = world.disk.urls_of(key);
    if cached.len() == 0 {
        lemma_step(world, op.at(Stage::List), chance);
        lemma_step(world, op.at(Stage::Source), chance);
        if stored.len() > 0 {
            let fill = OpView { stage: Stage::Fill, found: stored, filled: 0, ..op };
            lemma_fill_urls(world, fill, chance);
        }
    }
}

proof fn lemma_run_get_user_keys(world: World, uid: i64, chance: int)
    ensures
        run(world, entry(CallView::GetUserKeys { uid }), chance) == world.get_user_keys(uid),
{
    let op = entry(CallView::GetUserKeys { uid });
    lemma_step(world, op, chance);
    reveal_with_fuel(admitted_all, 1);
    reveal_with_fuel(admits_all, 1);
    let cached = world.cache.members(user_key_name(uid));
    let stored = key::tokens(owned_by(world.disk.keys, uid));
    if cached.len() == 0 {
        lemma_step(world, op.at(Stage::Source), chance);
        if stored.len() > 0 {
            let fill = OpView { stage: Stage::Fill, found: stored, filled: 0, ..op };
            lemma_fill_keys(world, fill, chance);
        } else {
            assert(stored =~= Seq::<Seq<char>>::empty());
        }
    }
}

proof fn lemma_run_add_url(world: World, key: Seq<char>, url: Seq<char>, chance: int)
    ensures
        run(world, entry(CallView::AddUrl { key, url }), chance) == world.add_url(key, url),
{
    let op = entry(CallView::AddUrl { key, url });
    lemma_known(world, op, chance);
    let (after, found) = world.presence(None, key);
    if found == Ok::<bool, Fault>(true) {
        let add = settled(world, op).at(Stage::CacheAdd);
        lemma_step(after, add, chance);
        let next = after.with_cache(after.cache.sadd(list_name(key), url));
        lemma_step(next, add.at(Stage::RecordAdd), chance);
    }
}

proof fn lemma_run_delete_url(world: World, key: Seq<char>, url: Seq<char>, chance: int)
    ensures
        run(world, entry(CallView::DeleteUrl { key, url }), chance) == world.delete_url(key, url),
{
    let op = entry(CallView::DeleteUrl { key, url });
    lemma_known(world, op, chance);
    let (after, found) = world.presence(None, key);
    if found == Ok::<bool, Fault>(true) {
        let delete = settled(world, op).at(Stage::RecordDelete);
        lemma_step(after, delete, chance);
        match after.disk.find(key) {
            Some(row) => {
                let next = after.with_disk(after.disk.without_url(row.id, url));
                lemma_step(next, delete.at(Stage::CacheDelete), chance);
            },
            None => {},
        }
    }
}

proof fn lemma_run_check_key(world: World, uid: Option<i64>, key: Seq<char>, chance: int)
    ensures
        run(world, entry(CallView::CheckKey { uid, key }), chance) == world.check_key(uid, key),
{
    lemma_known(world, entry(CallView::CheckKey { uid, key }), chance);
}

proof fn lemma_run_add_key(world: World, uid: i64, key: Seq<char>, limitation: i16, chance: int)
    ensures
        run(world, entry(CallView::AddKey { uid, key, limitation }), chance) == world.add_key(
            uid,
            key,
            limitation,
        ),
{
    let op = entry(CallView::AddKey { uid, key, limitation });
    lemma_step(world, op, chance);
    if !quota_full(world.cache, uid, limitation) {
        let next = world.with_cache(admitted(world.cache, uid, key));
        lemma_step(next, op.at(Stage::Record), chance);
    }
}

proof fn lemma_run_reconcile(world: World, uid: Option<i64>, key: Seq<char>, chance: int)
    ensures
        run(world, entry(CallView::ReconcileDeletedKey { uid, key }), chance)
            == world.reconcile_deleted_key(uid, key),
{
    let op = entry(CallView::ReconcileDeletedKey { uid, key });
    lemma_step(world, op, chance);
    if world.disk.find(key) is None {
        lemma_step(world, op.at(Stage::Forget), chance);
    }
}

proof fn lemma_run_single(world: World, call: CallView, chance: int)
    requires
        call is SetCsrf || call is CheckCsrf || call is DeleteKey,
    ensures
        run(world, entry(call), chance) == world.answer(call, chance),
{
    lemma_step(world, entry(call), chance);
}

/// Carrying out an operation of the service step by step, each request served
/// by the tier it is for, gives what the operation is said to give.
pub proof fn lemma_run_is_answer(world: World, call: CallView, chance: int)
    ensures
        run(world, entry(call), chance) == world.answer(call, chance),
{
    match call {
        CallView::GetUrls { key } => lemma_run_get_urls(world, key, chance),
        CallView::GetUrl { key } => lemma_run_get_url(world, key, chance),
        CallView::GetUserKeys { uid } => lemma_run_get_user_keys(world, uid, chance),
        CallView::AddUrl { key, url } => lemma_run_add_url(world, key, url, chance),
        CallView::DeleteUrl { key, url } => lemma_run_delete_url(world, key, url, chance),
        CallView::CheckKey { uid, key } => lemma_run_check_key(world, uid, key, chance),
        CallView::AddKey { uid, key, limitation } => lemma_run_add_key(
            world,
            uid,
            key,
            limitation,
            chance,
        ),
        CallView::ReconcileDeletedKey { uid, key } => lemma_run_reconcile(world, uid, key, chance),
        _ => lemma_run_single(world, call, chance),
    }
}

/// An operation of the service leaves well-formed tiers well-formed.
pub proof fn lemma_answer_keeps_wf(world: World, call: CallView, chance: int)
    requires
        world.wf(),
        call.wf(),
    ensures
        world.answer(call, chance).0.wf(),
{
    lemma_run_is_answer(world, call, chance);
    lemma_run_keeps_wf(world, entry(call), chance);
}

/// Serving a request leaves well-formed tiers well-formed.
pub proof fn lemma_serve_keeps_wf(world: World, request: RequestView, chance: int)
    requires
        world.wf(),
    ensures
        world.serve(request, chance).0.wf(),
{
    match request {
        RequestView::Cache(call) => {
            lemma_rd_answer_keeps_wf(world.cache, call, chance);
        },
        RequestView::Record(call) => {
            lemma_db_answer_keeps_wf(world.disk, call);
        },
    }
}

/// Carrying out an operation from a state on leaves well-formed tiers
/// well-formed.
pub proof fn lemma_run_keeps_wf(world: World, op: OpView, chance: int)
    requires
        world.wf(),
    ensures
        run(world, op, chance).0.wf(),
    decreases op.stage.rank(), op.remaining(),
{
    let (next, reply) = world.serve(op.request(), chance);
    lemma_serve_keeps_wf(world, op.request(), chance);
    match op.advance(reply) {
        Next::Finish(result) => {},
        Next::Goto(then) => {
            if then.before(op) {
                lemma_run_keeps_wf(next, then, chance);
            }
        },
    }
}

} // verus!
