//! The durable tier held in memory.
use crate::dao::mysql::command::DbCommand;
use crate::dao::mysql::disk::{ids, lemma_apply_keeps_wf, owned_by, urls_under, Durable};
use crate::dao::mysql::ops::{
    db_answer, db_run, lemma_db_run_is_answer, lemma_db_script_ends, DbCall, DbOp, DbTurn,
    DbTurnView,
};
use crate::entity::key;
use crate::entity::url;
use crate::error::{AppError, AppErrorKind, Fault};
use crate::text::{lemma_first_index, strs};
use crate::value::{seen, Value, ValueView};
use vstd::prelude::*;
use vstd::string::*;

verus! {

/// The durable tier, held in memory: the records of the keys and of the URLs.
pub struct DbSrv {
    keys: Vec<key::Model>,
    urls: Vec<url::Model>,
    issued: i32,
}

impl View for DbSrv {
    type V = Durable;

    closed spec fn view(&self) -> Durable {
        Durable { keys: key::rows(self.keys@), urls: url::rows(self.urls@), issued: self.issued }
    }
}

fn find_token(keys: &Vec<key::Model>, token: &String) -> (at: Option<usize>)
    ensures
        match at {
            Some(i) => i < keys.len(),
            None => true,
        },
        key::tokens(key::rows(keys@)).index_of_first(token@) == match at {
            Some(i) => Some(i as int),
            None => None::<int>,
        },
{
    let ghost names = key::tokens(key::rows(keys@));
    let mut i: usize = 0;
    while i < keys.len()
        invariant
            i <= keys.len(),
            names == key::tokens(key::rows(keys@)),
            forall|j: int| 0 <= j < i ==> names[j] != token@,
        decreases keys.len() - i,
    {
        if keys[i].key == *token {
            proof {
                lemma_first_index(names, token@, i as int);
            }
            return Some(i);
        }
        i += 1;
    }
    proof {
        names.index_of_first_ensures(token@);
        if names.contains(token@) {
            let j = choose|j: int| 0 <= j < names.len() && names[j] == token@;
            assert(names[j] != token@);
        }
    }
    None
}

fn find_id(keys: &Vec<key::Model>, id: i32) -> (at: Option<usize>)
    ensures
        match at {
            Some(i) => i < keys.len(),
            None => true,
        },
        ids(key::rows(keys@)).index_of_first(id) == match at {
            Some(i) => Some(i as int),
            None => None::<int>,
        },
{
    let ghost numbers = ids(key::rows(keys@));
    let mut i: usize = 0;
    while i < keys.len()
        invariant
            i <= keys.len(),
            numbers == ids(key::rows(keys@)),
            forall|j: int| 0 <= j < i ==> numbers[j] != id,
        decreases keys.len() - i,
    {
        if keys[i].id == id {
            proof {
                lemma_first_index(numbers, id, i as int);
            }
            return Some(i);
        }
        i += 1;
    }
    proof {
        numbers.index_of_first_ensures(id);
        if numbers.contains(id) {
            let j = choose|j: int| 0 <= j < numbers.len() && numbers[j] == id;
            assert(numbers[j] != id);
        }
    }
    None
}

fn find_url(urls: &Vec<url::Model>, id: i32, address: &String) -> (at: Option<usize>)
    ensures
        match at {
            Some(i) => i < urls.len(),
            None => true,
        },
        url::rows(urls@).index_of_first(url::Row { id, url: address@ }) == match at {
            Some(i) => Some(i as int),
            None => None::<int>,
        },
{
    let ghost rows = url::rows(urls@);
    let ghost wanted = url::Row { id, url: address@ };
    let mut i: usize = 0;
    while i < urls.len()
        invariant
            i <= urls.len(),
            rows == url::rows(urls@),
            wanted == (url::Row { id, url: address@ }),
            forall|j: int| 0 <= j < i ==> rows[j] != wanted,
        decreases urls.len() - i,
    {
        if urls[i].id == id && urls[i].url == *address {
            proof {
                assert(rows[i as int] == wanted);
                lemma_first_index(rows, wanted, i as int);
            }
            return Some(i);
        }
        i += 1;
    }
    proof {
        rows.index_of_first_ensures(wanted);
        if rows.contains(wanted) {
            let j = choose|j: int| 0 <= j < rows.len() && rows[j] == wanted;
            assert(rows[j] != wanted);
        }
    }
    None
}

fn keys_of(keys: &Vec<key::Model>, user_id: i64) -> (owned: Vec<key::Model>)
    ensures
        key::rows(owned@) == owned_by(key::rows(keys@), user_id),
{
    let ghost rows = key::rows(keys@);
    let mut owned: Vec<key::Model> = Vec::new();
    let mut i: usize = 0;
    assert(rows.take(0) =~= Seq::<key::Row>::empty());
    assert(key::rows(owned@) =~= Seq::<key::Row>::empty());
    while i < keys.len()
        invariant
            i <= keys.len(),
            rows == key::rows(keys@),
            key::rows(owned@) == owned_by(rows.take(i as int), user_id),
        decreases keys.len() - i,
    {
        let ghost before = key::rows(owned@);
        assert(rows.take(i as int + 1).drop_last() =~= rows.take(i as int));
        assert(rows.take(i as int + 1).last() == rows[i as int]);
        if keys[i].user_id == user_id {
            owned.push(keys[i].clone());
            assert(key::rows(owned@) =~= before.push(rows[i as int]));
        }
        i += 1;
    }
    assert(rows.take(keys.len() as int) =~= rows);
    owned
}

fn urls_with(urls: &Vec<url::Model>, id: i32) -> (under: Vec<url::Model>)
    ensures
        url::rows(under@) == urls_under(url::rows(urls@), id),
{
    let ghost rows = url::rows(urls@);
    let mut under: Vec<url::Model> = Vec::new();
    let mut i: usize = 0;
    assert(rows.take(0) =~= Seq::<url::Row>::empty());
    assert(url::rows(under@) =~= Seq::<url::Row>::empty());
    while i < urls.len()
        invariant
            i <= urls.len(),
            rows == url::rows(urls@),
            url::rows(under@) == urls_under(rows.take(i as int), id),
        decreases urls.len() - i,
    {
        let ghost before = url::rows(under@);
        assert(rows.take(i as int + 1).drop_last() =~= rows.take(i as int));
        assert(rows.take(i as int + 1).last() == rows[i as int]);
        if urls[i].id == id {
            under.push(urls[i].clone());
            assert(url::rows(under@) =~= before.push(rows[i as int]));
        }
        i += 1;
    }
    assert(rows.take(urls.len() as int) =~= rows);
    under
}

impl DbSrv {
    /// A durable tier with nothing in it.
    pub fn new() -> (tier: Self)
        ensures
            tier@ == Durable::empty(),
            tier@.wf(),
    {
        let tier = DbSrv { keys: Vec::new(), urls: Vec::new(), issued: 0 };
        assert(tier@.keys =~= Durable::empty().keys);
        assert(tier@.urls =~= Durable::empty().urls);
        tier
    }

    /// Carries out one order and answers it.
    pub fn perform(&mut self, command: DbCommand) -> (reply: Result<Value, AppError>)
        ensures
            (final(self)@, seen(reply)) == old(self)@.apply(command@),
            old(self)@.wf() ==> final(self)@.wf(),
    {
        proof {
            if self@.wf() {
                lemma_apply_keeps_wf(self@, command@);
            }
        }
        match command {
            DbCommand::InsertKey { user_id, key } => {
                let ghost tokens = key::tokens(key::rows(self.keys@));
                proof {
                    tokens.index_of_first_ensures(key@);
                }
                if find_token(&self.keys, &key).is_some() {
                    Err(AppError::Conflict)
                } else if self.issued >= i32::MAX {
                    Err(AppError::MySQL(String::from_str("out of key identifiers")))
                } else {
                    let id = self.issued + 1;
                    let ghost before = key::rows(self.keys@);
                    let copy = key.clone();
                    self.keys.push(key::Model { id, user_id, key });
                    self.issued = id;
                    assert(key::rows(self.keys@) =~= before.push(
                        key::Row { id, user_id, key: copy@ },
                    ));
                    Ok(Value::Key(key::Model { id, user_id, key: copy }))
                }
            },
            DbCommand::FindKey { key } => {
                match find_token(&self.keys, &key) {
                    Some(i) => Ok(Value::MaybeKey(Some(self.keys[i].clone()))),
                    None => Ok(Value::MaybeKey(None)),
                }
            },
            DbCommand::FindKeysOfUser { user_id } => Ok(Value::Keys(keys_of(&self.keys, user_id))),
            DbCommand::InsertUrl { id, url } => {
                let ghost before = url::rows(self.urls@);
                proof {
                    before.index_of_first_ensures(url::Row { id, url: url@ });
                }
                if find_url(&self.urls, id, &url).is_none() {
                    self.urls.push(url::Model { id, url });
                    assert(url::rows(self.urls@) =~= before.push(url::Row { id, url: url@ }));
                }
                Ok(Value::Unit)
            },
            DbCommand::FindUrls { id } => Ok(Value::Urls(urls_with(&self.urls, id))),
            DbCommand::DeleteUrl { id, url } => {
                let ghost before = url::rows(self.urls@);
                match find_url(&self.urls, id, &url) {
                    Some(i) => {
                        self.urls.remove(i);
                        assert(url::rows(self.urls@) =~= before.remove(i as int));
                    },
                    None => {},
                }
                Ok(Value::Unit)
            },
            DbCommand::DeleteKey { id } => {
                let ghost before = key::rows(self.keys@);
                match find_id(&self.keys, id) {
                    Some(i) => {
                        self.keys.remove(i);
                        assert(key::rows(self.keys@) =~= before.remove(i as int));
                    },
                    None => {},
                }
                Ok(Value::Unit)
            },
        }
    }

    /// Carries out an operation: every order that it asks for is performed on
    /// this tier and the answer handed back, until it is done.
    pub fn run(&mut self, call: DbCall) -> (result: Result<Value, AppError>)
        ensures
            (final(self)@, seen(result)) == db_answer(old(self)@, call@),
            old(self)@.wf() ==> final(self)@.wf(),
    {
        let ghost script = call@;
        let ghost goal = db_run(self@, script, 0, 0);
        proof {
            lemma_db_run_is_answer(self@, script);
        }
        let mut turn = DbOp::begin(call);
        loop
            invariant
                script == call@,
                goal == db_answer(old(self)@, script),
                old(self)@.wf() ==> self@.wf(),
                match turn@ {
                    DbTurnView::Ask(op, command) => {
                        &&& op.call == script
                        &&& op.step < script.steps()
                        &&& command == script.command(op.step, op.id)
                        &&& db_run(self@, script, op.step, op.id) == goal
                    },
                    DbTurnView::Done(result) => (self@, result) == goal,
                },
            decreases
                    match turn@ {
                        DbTurnView::Ask(op, _) => script.steps() - op.step,
                        DbTurnView::Done(_) => 0,
                    },
        {
            match turn {
                DbTurn::Done(result) => {
                    return result;
                },
                DbTurn::Ask(op, command) => {
                    let reply = self.perform(command);
                    proof {
                        lemma_db_script_ends(script, op@.step, seen(reply));
                    }
                    turn = op.resume(reply);
                },
            }
        }
    }

    /// Records `key` for user `user_id` and returns the record with the
    /// identifier that was assigned: refused as a conflict where the token is
    /// on record.
    pub fn add_key(&mut self, user_id: i64, key: &str) -> (result: Result<key::Model, AppError>)
        ensures
            match result {
                Ok(record) => old(self)@.insert_key(user_id, key@) == (
                    final(self)@,
                    Ok::<ValueView, Fault>(ValueView::Key(record@)),
                ),
                Err(e) => old(self)@.insert_key(user_id, key@) == (
                    final(self)@,
                    Err::<ValueView, Fault>(e@),
                ),
            },
            old(self)@.wf() ==> final(self)@.wf(),
    {
        match self.run(DbCall::AddKey { user_id, key: String::from_str(key) }) {
            Ok(answer) => answer.into_key(),
            Err(e) => Err(e),
        }
    }

    /// The record of `key`, if it is on record.
    pub fn check_key(&mut self, key: &str) -> (result: Result<Option<key::Model>, AppError>)
        ensures
            match result {
                Ok(Some(record)) => old(self)@.find(key@) == Some(record@),
                Ok(None) => old(self)@.find(key@) is None,
                Err(_) => false,
            },
            final(self)@ == old(self)@,
    {
        match self.run(DbCall::CheckKey { key: String::from_str(key) }) {
            Ok(answer) => answer.into_maybe_key(),
            Err(e) => Err(e),
        }
    }

    /// The records of the keys of user `user_id`.
    pub fn get_user_keys(&mut self, user_id: i64) -> (result: Result<Vec<key::Model>, AppError>)
        ensures
            match result {
                Ok(records) => key::rows(records@) == owned_by(old(self)@.keys, user_id),
                Err(_) => false,
            },
            final(self)@ == old(self)@,
    {
        match self.run(DbCall::GetUserKeys { user_id }) {
            Ok(answer) => answer.into_keys(),
            Err(e) => Err(e),
        }
    }

    /// Records `url` under `key`: the key not found where it is not on record.
    /// A URL that is on record under the key is not recorded again.
    pub fn add_url(&mut self, key: &str, url: &str) -> (result: Result<(), AppError>)
        ensures
            match old(self)@.find(key@) {
                Some(row) => result is Ok && final(self)@ == old(self)@.with_url(row.id, url@),
                None => result matches Err(e) && e@ == Fault::bare(AppErrorKind::KeyNotFound)
                    && final(self)@ == old(self)@,
            },
            old(self)@.wf() ==> final(self)@.wf(),
    {
        let call = DbCall::AddUrl { key: String::from_str(key), url: String::from_str(url) };
        match self.run(call) {
            Ok(answer) => answer.into_unit(),
            Err(e) => Err(e),
        }
    }

    /// The URLs on record under `key`: the key not found where it is not on
    /// record.
    pub fn get_urls(&mut self, key: &str) -> (result: Result<Vec<String>, AppError>)
        ensures
            match old(self)@.find(key@) {
                Some(row) => result matches Ok(urls) && strs(urls@) == old(self)@.addresses(row.id),
                None => result matches Err(e) && e@ == Fault::bare(AppErrorKind::KeyNotFound),
            },
            final(self)@ == old(self)@,
    {
        match self.run(DbCall::GetUrls { key: String::from_str(key) }) {
            Ok(answer) => answer.into_members(),
            Err(e) => Err(e),
        }
    }

    /// Deletes `url` from the record of `key`: the key not found where it is
    /// not on record.
    pub fn delete_url(&mut self, key: &str, url: &str) -> (result: Result<(), AppError>)
        ensures
            match old(self)@.find(key@) {
                Some(row) => result is Ok && final(self)@ == old(self)@.without_url(row.id, url@),
                None => result matches Err(e) && e@ == Fault::bare(AppErrorKind::KeyNotFound)
                    && final(self)@ == old(self)@,
            },
            old(self)@.wf() ==> final(self)@.wf(),
    {
        let call = DbCall::DeleteUrl { key: String::from_str(key), url: String::from_str(url) };
        match self.run(call) {
            Ok(answer) => answer.into_unit(),
            Err(e) => Err(e),
        }
    }

    /// Deletes the record of `key`: the key not found where it is not on
    /// record. The URLs recorded under the key stay on record.
    pub fn delete_key(&mut self, key: &str) -> (result: Result<(), AppError>)
        ensures
            match old(self)@.find(key@) {
                Some(row) => result is Ok && final(self)@ == old(self)@.without_key(row.id),
                None => result matches Err(e) && e@ == Fault::bare(AppErrorKind::KeyNotFound)
                    && final(self)@ == old(self)@,
            },
            old(self)@.wf() ==> final(self)@.wf(),
    {
        match self.run(DbCall::DeleteKey { key: String::from_str(key) }) {
            Ok(answer) => answer.into_unit(),
            Err(e) => Err(e),
        }
    }

    /// The record of `key`, if it is on record.
    pub fn get_key(&mut self, key: &str) -> (result: Result<Option<key::Model>, AppError>)
        ensures
            match result {
                Ok(Some(record)) => old(self)@.find(key@) == Some(record@),
                Ok(None) => old(self)@.find(key@) is None,
                Err(_) => false,
            },
            final(self)@ == old(self)@,
    {
        match self.run(DbCall::GetKey { key: String::from_str(key) }) {
            Ok(answer) => answer.into_maybe_key(),
            Err(e) => Err(e),
        }
    }
}

} // verus!
