//! The ephemeral tier held in memory.
use crate::dao::redis::cache::{
    ahead, lemma_apply_keeps_wf, members_of, precedes, unexpired, Entry, Ephemeral,
};
use crate::dao::redis::command::RdCommand;
use crate::dao::redis::cache::drawn;
use crate::dao::redis::naming::{csrf_name, key_set_name, list_name, user_key_name};
use crate::dao::redis::ops::{
    key_forgotten, key_known, lemma_rd_run_is_answer, lemma_rd_script_ends, quota_full, rd_answer,
    rd_run, token_issued, token_valid, RdCall, RdOp, RdTurn, RdTurnView, TOKEN_TTL,
};
use crate::error::{AppError, AppErrorKind, Fault};
use crate::value::seen;
use crate::text::{clone_strings, lemma_first_index, position, strs};
use crate::value::Value;
use vstd::hash_map::StringHashMap;
use vstd::prelude::*;
use vstd::string::*;

verus! {

/// A member of an ordered set with its score.
#[derive(Debug, PartialEq, Eq)]
pub struct Scored {
    pub member: String,
    pub score: u64,
}

impl View for Scored {
    type V = Entry;

    open spec fn view(&self) -> Entry {
        Entry { member: self.member@, score: self.score }
    }
}

impl Clone for Scored {
    fn clone(&self) -> (copy: Self)
        ensures
            copy == *self,
    {
        Scored { member: self.member.clone(), score: self.score }
    }
}

/// The views of a list of scored members.
pub open spec fn entries_of(list: Seq<Scored>) -> Seq<Entry> {
    list.map_values(|s: Scored| s@)
}

/// The ephemeral tier, held in memory: named sets of strings and named ordered
/// sets of scored strings.
pub struct RdSrv {
    sets: StringHashMap<Vec<String>>,
    ranked: StringHashMap<Vec<Scored>>,
}

impl View for RdSrv {
    type V = Ephemeral;

    closed spec fn view(&self) -> Ephemeral {
        Ephemeral {
            sets: Map::total(
                |name: Seq<char>|
                    if self.sets@.contains_key(name) {
                        strs(self.sets@[name]@)
                    } else {
                        Seq::empty()
                    },
            ),
            ranked: Map::total(
                |name: Seq<char>|
                    if self.ranked@.contains_key(name) {
                        entries_of(self.ranked@[name]@)
                    } else {
                        Seq::empty()
                    },
            ),
        }
    }
}

fn position_of_member(list: &Vec<Scored>, member: &String) -> (at: Option<usize>)
    ensures
        match at {
            Some(i) => i < list.len() && list[i as int].member@ == member@,
            None => true,
        },
        members_of(entries_of(list@)).index_of_first(member@) == match at {
            Some(i) => Some(i as int),
            None => None::<int>,
        },
{
    let ghost names = members_of(entries_of(list@));
    let mut i: usize = 0;
    while i < list.len()
        invariant
            i <= list.len(),
            names == members_of(entries_of(list@)),
            forall|j: int| 0 <= j < i ==> names[j] != member@,
        decreases list.len() - i,
    {
        if list[i].member == *member {
            proof {
                lemma_first_index(names, member@, i as int);
            }
            return Some(i);
        }
        i += 1;
    }
    proof {
        names.index_of_first_ensures(member@);
        if names.contains(member@) {
            let j = choose|j: int| 0 <= j < names.len() && names[j] == member@;
            assert(names[j] != member@);
        }
    }
    None
}

fn clone_entries(list: &Vec<Scored>) -> (copy: Vec<Scored>)
    ensures
        copy@ == list@,
{
    let copy = list.clone();
    assert(copy@ =~= list@);
    copy
}

fn count_ahead(list: &Vec<Scored>, at: usize) -> (count: u64)
    requires
        at < list.len(),
    ensures
        count == ahead(entries_of(list@), at as int, list.len() as int),
{
    let ghost entries = entries_of(list@);
    let mut count: u64 = 0;
    let mut j: usize = 0;
    while j < list.len()
        invariant
            j <= list.len(),
            at < list.len(),
            entries == entries_of(list@),
            count == ahead(entries, at as int, j as int),
            count <= j,
        decreases list.len() - j,
    {
        let before = list[j].score < list[at].score || (list[j].score == list[at].score && j
            < at);
        assert(before == precedes(entries, j as int, at as int));
        if before {
            count += 1;
        }
        j += 1;
    }
    count
}

fn keep_unexpired(list: &Vec<Scored>, max: u64) -> (kept: Vec<Scored>)
    ensures
        entries_of(kept@) == unexpired(entries_of(list@), max),
{
    let ghost entries = entries_of(list@);
    let mut kept: Vec<Scored> = Vec::new();
    let mut i: usize = 0;
    assert(entries.take(0) =~= Seq::<Entry>::empty());
    assert(entries_of(kept@) =~= Seq::<Entry>::empty());
    while i < list.len()
        invariant
            i <= list.len(),
            entries == entries_of(list@),
            entries_of(kept@) == unexpired(entries.take(i as int), max),
        decreases list.len() - i,
    {
        let ghost before = entries_of(kept@);
        assert(entries.take(i as int + 1).drop_last() =~= entries.take(i as int));
        assert(entries.take(i as int + 1).last() == entries[i as int]);
        if list[i].score > max {
            kept.push(list[i].clone());
            assert(entries_of(kept@) =~= before.push(entries[i as int]));
        }
        i += 1;
    }
    assert(entries.take(list.len() as int) =~= entries);
    kept
}

impl RdSrv {
    /// An ephemeral tier with nothing in it.
    pub fn new() -> (tier: Self)
        ensures
            tier@ == Ephemeral::empty(),
            tier@.wf(),
    {
        let tier = RdSrv { sets: StringHashMap::new(), ranked: StringHashMap::new() };
        assert(tier@.sets =~= Ephemeral::empty().sets);
        assert(tier@.ranked =~= Ephemeral::empty().ranked);
        tier
    }

    fn set_named(&self, name: &str) -> (list: Vec<String>)
        ensures
            strs(list@) == self@.members(name@),
    {
        match self.sets.get(name) {
            Some(held) => clone_strings(held),
            None => {
                let list: Vec<String> = Vec::new();
                assert(strs(list@) =~= Seq::<Seq<char>>::empty());
                list
            },
        }
    }

    fn ranked_named(&self, name: &str) -> (list: Vec<Scored>)
        ensures
            entries_of(list@) == self@.entries(name@),
    {
        match self.ranked.get(name) {
            Some(held) => clone_entries(held),
            None => {
                let list: Vec<Scored> = Vec::new();
                assert(entries_of(list@) =~= Seq::<Entry>::empty());
                list
            },
        }
    }

    fn put_set(&mut self, name: String, list: Vec<String>)
        ensures
            final(self)@ == old(self)@.with_set(name@, strs(list@)),
    {
        self.sets.insert(name, list);
        assert(self@.sets =~= old(self)@.with_set(name@, strs(list@)).sets);
        assert(self@.ranked =~= old(self)@.ranked);
    }

    fn put_ranked(&mut self, name: String, list: Vec<Scored>)
        ensures
            final(self)@ == old(self)@.with_ranked(name@, entries_of(list@)),
    {
        self.ranked.insert(name, list);
        assert(self@.ranked =~= old(self)@.with_ranked(name@, entries_of(list@)).ranked);
        assert(self@.sets =~= old(self)@.sets);
    }

    /// Carries out one order and answers it. The number `chance` decides a
    /// random draw.
    pub fn perform(&mut self, command: RdCommand, chance: usize) -> (answer: Value)
        ensures
            (final(self)@, answer@) == old(self)@.apply(command@, chance as int),
            old(self)@.wf() ==> final(self)@.wf(),
    {
        proof {
            if self@.wf() {
                lemma_apply_keeps_wf(self@, command@, chance as int);
            }
        }
        match command {
            RdCommand::Scard { set } => {
                let list = self.set_named(set.as_str());
                Value::Count(list.len() as u64)
            },
            RdCommand::Sadd { set, member } => {
                let mut list = self.set_named(set.as_str());
                let ghost before = strs(list@);
                match position(&list, &member) {
                    Some(i) => {
                        assert(before[i as int] == member@);
                    },
                    None => {
                        list.push(member);
                        assert(strs(list@) =~= before.push(member@));
                    },
                }
                self.put_set(set, list);
                Value::Unit
            },
            RdCommand::Srem { set, member } => {
                let mut list = self.set_named(set.as_str());
                let ghost before = strs(list@);
                match position(&list, &member) {
                    Some(i) => {
                        list.remove(i);
                        assert(strs(list@) =~= before.remove(i as int));
                    },
                    None => {},
                }
                self.put_set(set, list);
                Value::Unit
            },
            RdCommand::Sismember { set, member } => {
                let list = self.set_named(set.as_str());
                match position(&list, &member) {
                    Some(i) => {
                        assert(strs(list@)[i as int] == member@);
                        Value::Flag(true)
                    },
                    None => Value::Flag(false),
                }
            },
            RdCommand::Smembers { set } => Value::Members(self.set_named(set.as_str())),
            RdCommand::Srandmember { set } => {
                let list = self.set_named(set.as_str());
                if list.len() == 0 {
                    Value::Member(None)
                } else {
                    Value::Member(Some(list[chance % list.len()].clone()))
                }
            },
            RdCommand::Zadd { zset, member, score } => {
                let mut list = self.ranked_named(zset.as_str());
                let ghost before = entries_of(list@);
                match position_of_member(&list, &member) {
                    Some(i) => {
                        list[i].score = score;
                        assert(entries_of(list@) =~= before.update(
                            i as int,
                            Entry { member: member@, score },
                        ));
                    },
                    None => {
                        list.push(Scored { member, score });
                        assert(entries_of(list@) =~= before.push(Entry { member: member@, score }));
                    },
                }
                self.put_ranked(zset, list);
                Value::Unit
            },
            RdCommand::Zrembyscore { zset, max } => {
                let list = self.ranked_named(zset.as_str());
                let kept = keep_unexpired(&list, max);
                self.put_ranked(zset, kept);
                Value::Unit
            },
            RdCommand::Zrank { zset, member } => {
                let list = self.ranked_named(zset.as_str());
                match position_of_member(&list, &member) {
                    Some(i) => Value::Rank(Some(count_ahead(&list, i))),
                    None => Value::Rank(None),
                }
            },
        }
    }

    /// Carries out an operation: every order that it asks for is performed on
    /// this tier and the answer handed back, until it is done. The number
    /// `chance` decides a random draw.
    pub fn run(&mut self, call: RdCall, chance: usize) -> (result: Result<Value, AppError>)
        requires
            call@.wf(),
        ensures
            (final(self)@, seen(result)) == rd_answer(old(self)@, call@, chance as int),
            old(self)@.wf() ==> final(self)@.wf(),
    {
        let ghost script = call@;
        let ghost goal = rd_run(self@, script, 0, chance as int);
        proof {
            lemma_rd_run_is_answer(self@, script, chance as int);
        }
        let mut turn = RdOp::begin(call);
        loop
            invariant
                script == call@,
                script.wf(),
                goal == rd_answer(old(self)@, script, chance as int),
                old(self)@.wf() ==> self@.wf(),
                match turn@ {
                    RdTurnView::Ask(op, command) => {
                        &&& op.call == script
                        &&& op.step < script.steps()
                        &&& command == script.command(op.step)
                        &&& rd_run(self@, script, op.step, chance as int) == goal
                    },
                    RdTurnView::Done(result) => (self@, result) == goal,
                },
            decreases
                    match turn@ {
                        RdTurnView::Ask(op, _) => script.steps() - op.step,
                        RdTurnView::Done(_) => 0,
                    },
        {
            match turn {
                RdTurn::Done(result) => {
                    return result;
                },
                RdTurn::Ask(op, command) => {
                    let answer = self.perform(command, chance);
                    proof {
                        lemma_rd_script_ends(script, op@.step, Ok(answer@));
                    }
                    turn = op.resume(Ok(answer));
                },
            }
        }
    }

    /// Admits `key` for user `uid`: refused where the user holds more than
    /// `limitation` keys or the tier as a whole does, else the key joins the
    /// keys of the user and the keys of the tier.
    pub fn add_key(&mut self, uid: i64, key: &str, limitation: i16) -> (result: Result<
        (),
        AppError,
    >)
        ensures
            match result {
                Ok(_) => !quota_full(old(self)@, uid, limitation) && final(self)@ == old(
                    self,
                )@.sadd(user_key_name(uid), key@).sadd(key_set_name(), key@),
                Err(e) => quota_full(old(self)@, uid, limitation) && e@ == Fault::bare(
                    AppErrorKind::Limit,
                ) && final(self)@ == old(self)@,
            },
            old(self)@.wf() ==> final(self)@.wf(),
    {
        let call = RdCall::AddKey { uid, key: String::from_str(key), limitation };
        match self.run(call, 0) {
            Ok(answer) => answer.into_unit(),
            Err(e) => Err(e),
        }
    }

    /// Whether the tier knows `key`, and where a user is given, knows it as
    /// theirs.
    pub fn check_key(&mut self, uid: Option<i64>, key: &str) -> (result: Result<bool, AppError>)
        ensures
            result == Ok::<bool, AppError>(key_known(old(self)@, uid, key@)),
            final(self)@ == old(self)@,
    {
        let call = RdCall::CheckKey { uid, key: String::from_str(key) };
        match self.run(call, 0) {
            Ok(answer) => answer.into_flag(),
            Err(e) => Err(e),
        }
    }

    /// Forgets `key`, and where a user is given, that it is theirs.
    pub fn remove_key(&mut self, uid: Option<i64>, key: &str) -> (result: Result<(), AppError>)
        ensures
            result is Ok,
            final(self)@ == key_forgotten(old(self)@, uid, key@),
            old(self)@.wf() ==> final(self)@.wf(),
    {
        let call = RdCall::RemoveKey { uid, key: String::from_str(key) };
        match self.run(call, 0) {
            Ok(answer) => answer.into_unit(),
            Err(e) => Err(e),
        }
    }

    /// One of the URLs of `key`, drawn by the number `chance`: none where the
    /// tier holds no URL of the key.
    pub fn get_url(&mut self, key: &str, chance: usize) -> (result: Result<
        Option<String>,
        AppError,
    >)
        ensures
            match result {
                Ok(Some(url)) => drawn(old(self)@.members(list_name(key@)), chance as int) == Some(
                    url@,
                ),
                Ok(None) => drawn(old(self)@.members(list_name(key@)), chance as int) is None,
                Err(_) => false,
            },
            final(self)@ == old(self)@,
    {
        let call = RdCall::GetUrl { key: String::from_str(key) };
        match self.run(call, chance) {
            Ok(answer) => answer.into_member(),
            Err(e) => Err(e),
        }
    }

    /// Adds `url` to the URLs of `key`.
    pub fn add_url(&mut self, key: &str, url: &str) -> (result: Result<(), AppError>)
        ensures
            result is Ok,
            final(self)@ == old(self)@.sadd(list_name(key@), url@),
            old(self)@.wf() ==> final(self)@.wf(),
    {
        let call = RdCall::AddUrl { key: String::from_str(key), url: String::from_str(url) };
        match self.run(call, 0) {
            Ok(answer) => answer.into_unit(),
            Err(e) => Err(e),
        }
    }

    /// Removes `url` from the URLs of `key`.
    pub fn delete_url(&mut self, key: &str, url: &str) -> (result: Result<(), AppError>)
        ensures
            result is Ok,
            final(self)@ == old(self)@.srem(list_name(key@), url@),
            old(self)@.wf() ==> final(self)@.wf(),
    {
        let call = RdCall::DeleteUrl { key: String::from_str(key), url: String::from_str(url) };
        match self.run(call, 0) {
            Ok(answer) => answer.into_unit(),
            Err(e) => Err(e),
        }
    }

    /// The URLs of `key` that the tier holds.
    pub fn get_urls(&mut self, key: &str) -> (result: Result<Vec<String>, AppError>)
        ensures
            match result {
                Ok(urls) => strs(urls@) == old(self)@.members(list_name(key@)),
                Err(_) => false,
            },
            final(self)@ == old(self)@,
    {
        let call = RdCall::GetUrls { key: String::from_str(key) };
        match self.run(call, 0) {
            Ok(answer) => answer.into_members(),
            Err(e) => Err(e),
        }
    }

    /// Issues the token `csrf` at the time `now`, in seconds: it expires
    /// [`TOKEN_TTL`] seconds later, and what had expired by `now` is removed.
    pub fn set_csrf(&mut self, csrf: &str, now: u64) -> (result: Result<(), AppError>)
        requires
            now + TOKEN_TTL <= u64::MAX,
        ensures
            result is Ok,
            final(self)@ == token_issued(old(self)@, csrf@, now),
            old(self)@.wf() ==> final(self)@.wf(),
    {
        let call = RdCall::SetCsrf { csrf: String::from_str(csrf), now };
        match self.run(call, 0) {
            Ok(answer) => answer.into_unit(),
            Err(e) => Err(e),
        }
    }

    /// Whether the token `csrf` is valid at the time `now`, in seconds. What
    /// has expired by `now` is removed.
    pub fn check_csrf(&mut self, csrf: &str, now: u64) -> (result: Result<bool, AppError>)
        ensures
            result == Ok::<bool, AppError>(token_valid(old(self)@, csrf@, now)),
            final(self)@ == old(self)@.purge(csrf_name(), now),
            old(self)@.wf() ==> final(self)@.wf(),
    {
        let call = RdCall::CheckCsrf { csrf: String::from_str(csrf), now };
        match self.run(call, 0) {
            Ok(answer) => answer.into_flag(),
            Err(e) => Err(e),
        }
    }

    /// The keys of user `uid` that the tier holds.
    pub fn get_user_keys(&mut self, uid: i64) -> (result: Result<Vec<String>, AppError>)
        ensures
            match result {
                Ok(keys) => strs(keys@) == old(self)@.members(user_key_name(uid)),
                Err(_) => false,
            },
            final(self)@ == old(self)@,
    {
        let call = RdCall::GetUserKeys { uid };
        match self.run(call, 0) {
            Ok(answer) => answer.into_members(),
            Err(e) => Err(e),
        }
    }
}

} // verus!
