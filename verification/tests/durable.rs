use url_balancing::dao::mysql::command::DbCommand;
use url_balancing::dao::mysql::db::DbSrv;
use url_balancing::dao::mysql::ops::{DbCall, DbOp, DbTurn};
use url_balancing::entity::key;
use url_balancing::error::AppError;
use url_balancing::value::Value;

#[test]
fn test_add_key() {
    let mut db_srv = DbSrv::new();
    let key = db_srv.add_key(114514, "test").unwrap();
    assert_eq!(key.user_id, 114514);
    assert_eq!(key.key, "test");
    println!("{:?}", key);
}

#[test]
fn add_key_assigns_identifiers_from_one() {
    let mut db = DbSrv::new();
    assert_eq!(db.add_key(7, "a").unwrap().id, 1);
    assert_eq!(db.add_key(7, "b").unwrap().id, 2);
    assert_eq!(db.add_key(8, "c").unwrap().id, 3);
}

#[test]
fn add_key_twice_is_a_conflict() {
    let mut db = DbSrv::new();
    db.add_key(7, "a").unwrap();
    assert_eq!(db.add_key(9, "a"), Err(AppError::Conflict));
    assert_eq!(db.get_user_keys(9).unwrap().len(), 0);
}

#[test]
fn check_key_and_get_key_find_by_token() {
    let mut db = DbSrv::new();
    db.add_key(7, "a").unwrap();
    db.add_key(8, "b").unwrap();
    let found = db.check_key("b").unwrap().unwrap();
    assert_eq!(found, key::Model { id: 2, user_id: 8, key: "b".to_string() });
    assert_eq!(db.get_key("a").unwrap().unwrap().id, 1);
    assert_eq!(db.check_key("c").unwrap(), None);
    assert_eq!(db.get_key("").unwrap(), None);
}

#[test]
fn get_user_keys_lists_in_order_of_creation() {
    let mut db = DbSrv::new();
    db.add_key(7, "a").unwrap();
    db.add_key(8, "b").unwrap();
    db.add_key(7, "c").unwrap();
    let tokens: Vec<String> = db.get_user_keys(7).unwrap().into_iter().map(|k| k.key).collect();
    assert_eq!(tokens, vec!["a".to_string(), "c".to_string()]);
    assert!(db.get_user_keys(1).unwrap().is_empty());
}

#[test]
fn urls_need_their_key_on_record() {
    let mut db = DbSrv::new();
    assert_eq!(db.add_url("k", "http://a"), Err(AppError::KeyNotFound));
    assert_eq!(db.get_urls("k"), Err(AppError::KeyNotFound));
    assert_eq!(db.delete_url("k", "http://a"), Err(AppError::KeyNotFound));
    assert_eq!(db.delete_key("k"), Err(AppError::KeyNotFound));
}

#[test]
fn urls_are_kept_per_key_without_repeats() {
    let mut db = DbSrv::new();
    db.add_key(7, "k").unwrap();
    db.add_key(7, "other").unwrap();
    assert_eq!(db.add_url("k", "http://a"), Ok(()));
    assert_eq!(db.add_url("k", "http://b"), Ok(()));
    assert_eq!(db.add_url("k", "http://a"), Ok(()));
    assert_eq!(db.add_url("other", "http://a"), Ok(()));
    assert_eq!(db.get_urls("k").unwrap(), vec!["http://a".to_string(), "http://b".to_string()]);
    assert_eq!(db.get_urls("other").unwrap(), vec!["http://a".to_string()]);
    assert_eq!(db.delete_url("k", "http://a"), Ok(()));
    assert_eq!(db.delete_url("k", "http://zzz"), Ok(()));
    assert_eq!(db.get_urls("k").unwrap(), vec!["http://b".to_string()]);
    assert_eq!(db.get_urls("other").unwrap(), vec!["http://a".to_string()]);
}

#[test]
fn delete_key_leaves_other_keys_and_never_reuses_an_identifier() {
    let mut db = DbSrv::new();
    db.add_key(7, "a").unwrap();
    db.add_key(7, "b").unwrap();
    assert_eq!(db.delete_key("a"), Ok(()));
    assert_eq!(db.check_key("a").unwrap(), None);
    assert_eq!(db.check_key("b").unwrap().unwrap().id, 2);
    assert_eq!(db.add_key(7, "a").unwrap().id, 3);
}

#[test]
fn perform_answers_each_order() {
    let mut db = DbSrv::new();
    let made = db.perform(DbCommand::InsertKey { user_id: 3, key: "k".to_string() });
    assert_eq!(made, Ok(Value::Key(key::Model { id: 1, user_id: 3, key: "k".to_string() })));
    assert_eq!(db.perform(DbCommand::InsertUrl { id: 1, url: "u".to_string() }), Ok(Value::Unit));
    match db.perform(DbCommand::FindUrls { id: 1 }) {
        Ok(Value::Urls(rows)) => {
            assert_eq!(rows.len(), 1);
            assert_eq!(rows[0].id, 1);
            assert_eq!(rows[0].url, "u");
        }
        other => panic!("{:?}", other),
    }
    assert_eq!(db.perform(DbCommand::DeleteKey { id: 1 }), Ok(Value::Unit));
    assert_eq!(db.perform(DbCommand::FindKey { key: "k".to_string() }), Ok(Value::MaybeKey(None)));
    match db.perform(DbCommand::FindUrls { id: 1 }) {
        Ok(Value::Urls(rows)) => assert_eq!(rows.len(), 1),
        other => panic!("{:?}", other),
    }
}

#[test]
fn script_of_add_url_looks_the_key_up_first() {
    let call = DbCall::AddUrl { key: "k".to_string(), url: "u".to_string() };
    let op = match DbOp::begin(call) {
        DbTurn::Ask(op, command) => {
            assert_eq!(command, DbCommand::FindKey { key: "k".to_string() });
            op
        }
        other => panic!("{:?}", other),
    };
    let found = key::Model { id: 41, user_id: 3, key: "k".to_string() };
    let op = match op.resume(Ok(Value::MaybeKey(Some(found)))) {
        DbTurn::Ask(op, command) => {
            assert_eq!(command, DbCommand::InsertUrl { id: 41, url: "u".to_string() });
            op
        }
        other => panic!("{:?}", other),
    };
    assert_eq!(op.resume(Ok(Value::Unit)), DbTurn::Done(Ok(Value::Unit)));
}

#[test]
fn script_ends_on_a_missing_key_a_failure_or_a_wrong_answer() {
    let call = || DbCall::DeleteKey { key: "k".to_string() };
    let begin = |call: DbCall| match DbOp::begin(call) {
        DbTurn::Ask(op, _) => op,
        other => panic!("{:?}", other),
    };
    assert_eq!(
        begin(call()).resume(Ok(Value::MaybeKey(None))),
        DbTurn::Done(Err(AppError::KeyNotFound))
    );
    assert_eq!(
        begin(call()).resume(Err(AppError::MySQL("gone away".to_string()))),
        DbTurn::Done(Err(AppError::MySQL("gone away".to_string())))
    );
    assert_eq!(begin(call()).resume(Ok(Value::Unit)), DbTurn::Done(Err(AppError::Invalid)));
}

#[test]
fn script_of_get_urls_returns_the_urls_of_the_records() {
    let call = DbCall::GetUrls { key: "k".to_string() };
    let op = match DbOp::begin(call) {
        DbTurn::Ask(op, _) => op,
        other => panic!("{:?}", other),
    };
    let found = key::Model { id: 5, user_id: 3, key: "k".to_string() };
    let op = match op.resume(Ok(Value::MaybeKey(Some(found)))) {
        DbTurn::Ask(op, command) => {
            assert_eq!(command, DbCommand::FindUrls { id: 5 });
            op
        }
        other => panic!("{:?}", other),
    };
    let rows = vec![
        url_balancing::entity::url::Model { id: 5, url: "a".to_string() },
        url_balancing::entity::url::Model { id: 5, url: "b".to_string() },
    ];
    assert_eq!(
        op.resume(Ok(Value::Urls(rows))),
        DbTurn::Done(Ok(Value::Members(vec!["a".to_string(), "b".to_string()])))
    );
}
