use url_balancing::dao::mysql::ops::DbCall;
use url_balancing::dao::redis::ops::RdCall;
use url_balancing::engine::{Call, Op, Request, Turn};
use url_balancing::entity::key;
use url_balancing::error::AppError;
use url_balancing::value::Value;

fn s(text: &str) -> String {
    text.to_string()
}

fn asked(turn: Turn) -> (Op, Request) {
    match turn {
        Turn::Ask(op, request) => (op, request),
        Turn::Done(result) => panic!("done with {:?}", result),
    }
}

fn record(id: i32, user_id: i64, token: &str) -> key::Model {
    key::Model { id, user_id, key: s(token) }
}

#[test]
fn add_key_writes_the_ephemeral_tier_then_the_durable_one() {
    let (op, request) = asked(Op::begin(Call::AddKey { uid: 7, key: s("k"), limitation: 3 }));
    assert_eq!(request, Request::Cache(RdCall::AddKey { uid: 7, key: s("k"), limitation: 3 }));
    let (op, request) = asked(op.resume(Ok(Value::Unit)));
    assert_eq!(request, Request::Record(DbCall::AddKey { user_id: 7, key: s("k") }));
    assert_eq!(
        op.resume(Ok(Value::Key(record(9, 7, "k")))),
        Turn::Done(Ok(Value::Key(record(9, 7, "k"))))
    );
}

#[test]
fn add_key_stops_at_a_refusal_and_fails_where_the_record_fails() {
    let begin = || asked(Op::begin(Call::AddKey { uid: 7, key: s("k"), limitation: 3 })).0;
    assert_eq!(begin().resume(Err(AppError::Limit)), Turn::Done(Err(AppError::Limit)));
    let (op, _) = asked(begin().resume(Ok(Value::Unit)));
    assert_eq!(
        op.resume(Err(AppError::MySQL(s("down")))),
        Turn::Done(Err(AppError::MySQL(s("down"))))
    );
    let (op, _) = asked(begin().resume(Ok(Value::Unit)));
    assert_eq!(op.resume(Err(AppError::Conflict)), Turn::Done(Err(AppError::Conflict)));
    let (op, _) = asked(begin().resume(Ok(Value::Unit)));
    assert_eq!(op.resume(Ok(Value::Unit)), Turn::Done(Err(AppError::Invalid)));
}

#[test]
fn check_key_asks_the_record_after_a_miss_and_repairs_with_the_given_owner() {
    let (op, request) = asked(Op::begin(Call::CheckKey { uid: Some(5), key: s("k") }));
    assert_eq!(request, Request::Cache(RdCall::CheckKey { uid: Some(5), key: s("k") }));
    let (op, request) = asked(op.resume(Ok(Value::Flag(false))));
    assert_eq!(request, Request::Record(DbCall::CheckKey { key: s("k") }));
    let (op, request) = asked(op.resume(Ok(Value::MaybeKey(Some(record(1, 7, "k"))))));
    assert_eq!(request, Request::Cache(RdCall::AddKey { uid: 5, key: s("k"), limitation: 100 }));
    assert_eq!(op.resume(Ok(Value::Unit)), Turn::Done(Ok(Value::Flag(true))));
}

#[test]
fn check_key_without_an_owner_repairs_with_the_owner_on_record() {
    let (op, _) = asked(Op::begin(Call::CheckKey { uid: None, key: s("k") }));
    let (op, _) = asked(op.resume(Ok(Value::Flag(false))));
    let (op, request) = asked(op.resume(Ok(Value::MaybeKey(Some(record(1, 7, "k"))))));
    assert_eq!(request, Request::Cache(RdCall::AddKey { uid: 7, key: s("k"), limitation: 100 }));
    assert_eq!(op.resume(Err(AppError::Limit)), Turn::Done(Err(AppError::Limit)));
}

#[test]
fn check_key_ends_on_a_hit_and_on_a_key_off_the_record() {
    let begin = || asked(Op::begin(Call::CheckKey { uid: Some(5), key: s("k") })).0;
    assert_eq!(begin().resume(Ok(Value::Flag(true))), Turn::Done(Ok(Value::Flag(true))));
    let (op, _) = asked(begin().resume(Ok(Value::Flag(false))));
    assert_eq!(op.resume(Ok(Value::MaybeKey(None))), Turn::Done(Ok(Value::Flag(false))));
    assert_eq!(
        begin().resume(Err(AppError::Redis(s("down")))),
        Turn::Done(Err(AppError::Redis(s("down"))))
    );
}

#[test]
fn add_url_checks_the_key_then_writes_through() {
    let (op, request) = asked(Op::begin(Call::AddUrl { key: s("k"), url: s("u") }));
    assert_eq!(request, Request::Cache(RdCall::CheckKey { uid: None, key: s("k") }));
    let (op, request) = asked(op.resume(Ok(Value::Flag(true))));
    assert_eq!(request, Request::Cache(RdCall::AddUrl { key: s("k"), url: s("u") }));
    let (op, request) = asked(op.resume(Ok(Value::Unit)));
    assert_eq!(request, Request::Record(DbCall::AddUrl { key: s("k"), url: s("u") }));
    assert_eq!(op.resume(Ok(Value::Unit)), Turn::Done(Ok(Value::Unit)));
}

#[test]
fn add_url_fails_where_the_durable_write_fails() {
    let (op, _) = asked(Op::begin(Call::AddUrl { key: s("k"), url: s("u") }));
    let (op, _) = asked(op.resume(Ok(Value::Flag(true))));
    let (op, _) = asked(op.resume(Ok(Value::Unit)));
    assert_eq!(
        op.resume(Err(AppError::MySQL(s("down")))),
        Turn::Done(Err(AppError::MySQL(s("down"))))
    );
}

#[test]
fn add_url_to_an_unknown_key_is_key_not_found() {
    let (op, _) = asked(Op::begin(Call::AddUrl { key: s("k"), url: s("u") }));
    let (op, request) = asked(op.resume(Ok(Value::Flag(false))));
    assert_eq!(request, Request::Record(DbCall::CheckKey { key: s("k") }));
    assert_eq!(op.resume(Ok(Value::MaybeKey(None))), Turn::Done(Err(AppError::KeyNotFound)));
}

#[test]
fn delete_url_goes_to_the_durable_tier_first() {
    let (op, _) = asked(Op::begin(Call::DeleteUrl { key: s("k"), url: s("u") }));
    let (op, request) = asked(op.resume(Ok(Value::Flag(true))));
    assert_eq!(request, Request::Record(DbCall::DeleteUrl { key: s("k"), url: s("u") }));
    let (op, request) = asked(op.resume(Ok(Value::Unit)));
    assert_eq!(request, Request::Cache(RdCall::DeleteUrl { key: s("k"), url: s("u") }));
    assert_eq!(op.resume(Ok(Value::Unit)), Turn::Done(Ok(Value::Unit)));
}

#[test]
fn get_urls_returns_the_ephemeral_list_where_there_is_one() {
    let (op, request) = asked(Op::begin(Call::GetUrls { key: s("k") }));
    assert_eq!(request, Request::Cache(RdCall::GetUrls { key: s("k") }));
    assert_eq!(
        op.resume(Ok(Value::Members(vec![s("a")]))),
        Turn::Done(Ok(Value::Members(vec![s("a")])))
    );
}

#[test]
fn get_urls_fills_the_ephemeral_tier_item_by_item() {
    let (op, _) = asked(Op::begin(Call::GetUrls { key: s("k") }));
    let (op, request) = asked(op.resume(Ok(Value::Members(vec![]))));
    assert_eq!(request, Request::Record(DbCall::GetUrls { key: s("k") }));
    let (op, request) = asked(op.resume(Ok(Value::Members(vec![s("a"), s("b")]))));
    assert_eq!(request, Request::Cache(RdCall::AddUrl { key: s("k"), url: s("a") }));
    let (op, request) = asked(op.resume(Ok(Value::Unit)));
    assert_eq!(request, Request::Cache(RdCall::AddUrl { key: s("k"), url: s("b") }));
    assert_eq!(op.resume(Ok(Value::Unit)), Turn::Done(Ok(Value::Members(vec![s("a"), s("b")]))));
}

#[test]
fn get_urls_returns_the_durable_list_where_the_fill_fails() {
    let (op, _) = asked(Op::begin(Call::GetUrls { key: s("k") }));
    let (op, _) = asked(op.resume(Ok(Value::Members(vec![]))));
    let (op, _) = asked(op.resume(Ok(Value::Members(vec![s("a"), s("b")]))));
    assert_eq!(
        op.resume(Err(AppError::Redis(s("down")))),
        Turn::Done(Ok(Value::Members(vec![s("a"), s("b")])))
    );
}

#[test]
fn get_urls_is_empty_without_a_fill_where_both_tiers_are_empty() {
    let begin = || {
        let (op, _) = asked(Op::begin(Call::GetUrls { key: s("k") }));
        asked(op.resume(Ok(Value::Members(vec![])))).0
    };
    assert_eq!(begin().resume(Ok(Value::Members(vec![]))), Turn::Done(Ok(Value::Members(vec![]))));
    assert_eq!(
        begin().resume(Err(AppError::KeyNotFound)),
        Turn::Done(Ok(Value::Members(vec![])))
    );
    assert_eq!(
        begin().resume(Err(AppError::MySQL(s("down")))),
        Turn::Done(Err(AppError::MySQL(s("down"))))
    );
}

#[test]
fn get_url_returns_a_first_draw() {
    let (op, request) = asked(Op::begin(Call::GetUrl { key: s("k") }));
    assert_eq!(request, Request::Cache(RdCall::GetUrl { key: s("k") }));
    assert_eq!(
        op.resume(Ok(Value::Member(Some(s("a"))))),
        Turn::Done(Ok(Value::Member(Some(s("a")))))
    );
}

#[test]
fn get_url_reads_through_and_draws_once_more() {
    let (op, _) = asked(Op::begin(Call::GetUrl { key: s("k") }));
    let (op, request) = asked(op.resume(Ok(Value::Member(None))));
    assert_eq!(request, Request::Cache(RdCall::GetUrls { key: s("k") }));
    let (op, request) = asked(op.resume(Ok(Value::Members(vec![]))));
    assert_eq!(request, Request::Record(DbCall::GetUrls { key: s("k") }));
    let (op, request) = asked(op.resume(Ok(Value::Members(vec![s("a")]))));
    assert_eq!(request, Request::Cache(RdCall::AddUrl { key: s("k"), url: s("a") }));
    let (op, request) = asked(op.resume(Ok(Value::Unit)));
    assert_eq!(request, Request::Cache(RdCall::GetUrl { key: s("k") }));
    assert_eq!(op.resume(Ok(Value::Member(None))), Turn::Done(Ok(Value::Member(None))));
}

#[test]
fn get_url_is_none_where_both_tiers_are_empty() {
    let (op, _) = asked(Op::begin(Call::GetUrl { key: s("k") }));
    let (op, _) = asked(op.resume(Ok(Value::Member(None))));
    let (op, _) = asked(op.resume(Ok(Value::Members(vec![]))));
    assert_eq!(op.resume(Ok(Value::Members(vec![]))), Turn::Done(Ok(Value::Member(None))));
}

#[test]
fn get_url_draws_again_where_the_ephemeral_tier_filled_meanwhile() {
    let (op, _) = asked(Op::begin(Call::GetUrl { key: s("k") }));
    let (op, _) = asked(op.resume(Ok(Value::Member(None))));
    let (op, request) = asked(op.resume(Ok(Value::Members(vec![s("late")]))));
    assert_eq!(request, Request::Cache(RdCall::GetUrl { key: s("k") }));
    assert_eq!(
        op.resume(Ok(Value::Member(Some(s("late"))))),
        Turn::Done(Ok(Value::Member(Some(s("late")))))
    );
}

#[test]
fn get_user_keys_fills_with_admissions() {
    let (op, request) = asked(Op::begin(Call::GetUserKeys { uid: 7 }));
    assert_eq!(request, Request::Cache(RdCall::GetUserKeys { uid: 7 }));
    let (op, request) = asked(op.resume(Ok(Value::Members(vec![]))));
    assert_eq!(request, Request::Record(DbCall::GetUserKeys { user_id: 7 }));
    let rows = vec![record(1, 7, "a"), record(4, 7, "b")];
    let (op, request) = asked(op.resume(Ok(Value::Keys(rows))));
    assert_eq!(request, Request::Cache(RdCall::AddKey { uid: 7, key: s("a"), limitation: 100 }));
    let (op, request) = asked(op.resume(Ok(Value::Unit)));
    assert_eq!(request, Request::Cache(RdCall::AddKey { uid: 7, key: s("b"), limitation: 100 }));
    assert_eq!(
        op.resume(Ok(Value::Unit)),
        Turn::Done(Ok(Value::Members(vec![s("a"), s("b")])))
    );
}

#[test]
fn get_user_keys_fails_where_an_admission_fails() {
    let fill = || {
        let (op, _) = asked(Op::begin(Call::GetUserKeys { uid: 7 }));
        let (op, _) = asked(op.resume(Ok(Value::Members(vec![]))));
        asked(op.resume(Ok(Value::Keys(vec![record(1, 7, "a"), record(4, 7, "b")])))).0
    };
    assert_eq!(fill().resume(Err(AppError::Limit)), Turn::Done(Err(AppError::Limit)));
    assert_eq!(
        fill().resume(Err(AppError::Redis(s("down")))),
        Turn::Done(Err(AppError::Redis(s("down"))))
    );
    assert_eq!(fill().resume(Ok(Value::Flag(true))), Turn::Done(Err(AppError::Invalid)));
}

#[test]
fn get_user_keys_fails_where_the_record_fails() {
    let (op, _) = asked(Op::begin(Call::GetUserKeys { uid: 7 }));
    let (op, _) = asked(op.resume(Ok(Value::Members(vec![]))));
    assert_eq!(op.resume(Err(AppError::KeyNotFound)), Turn::Done(Err(AppError::KeyNotFound)));
}

#[test]
fn tokens_go_to_the_ephemeral_tier() {
    let (op, request) = asked(Op::begin(Call::SetCsrf { csrf: s("t"), now: 9 }));
    assert_eq!(request, Request::Cache(RdCall::SetCsrf { csrf: s("t"), now: 9 }));
    assert_eq!(op.resume(Ok(Value::Unit)), Turn::Done(Ok(Value::Unit)));
    let (op, request) = asked(Op::begin(Call::CheckCsrf { csrf: s("t"), now: 9 }));
    assert_eq!(request, Request::Cache(RdCall::CheckCsrf { csrf: s("t"), now: 9 }));
    assert_eq!(op.resume(Ok(Value::Flag(false))), Turn::Done(Ok(Value::Flag(false))));
    assert!(Call::SetCsrf { csrf: s("t"), now: 9 }.valid());
    assert!(!Call::SetCsrf { csrf: s("t"), now: u64::MAX }.valid());
}

#[test]
fn delete_key_touches_the_durable_tier_only() {
    let (op, request) = asked(Op::begin(Call::DeleteKey { key: s("k") }));
    assert_eq!(request, Request::Record(DbCall::DeleteKey { key: s("k") }));
    assert_eq!(op.resume(Ok(Value::Unit)), Turn::Done(Ok(Value::Unit)));
}

#[test]
fn reconcile_forgets_only_a_key_off_the_record() {
    let begin = || asked(Op::begin(Call::ReconcileDeletedKey { uid: Some(7), key: s("k") }));
    let (op, request) = begin();
    assert_eq!(request, Request::Record(DbCall::CheckKey { key: s("k") }));
    assert_eq!(
        op.resume(Ok(Value::MaybeKey(Some(record(1, 7, "k"))))),
        Turn::Done(Ok(Value::Flag(false)))
    );
    let (op, request) = asked(begin().0.resume(Ok(Value::MaybeKey(None))));
    assert_eq!(request, Request::Cache(RdCall::RemoveKey { uid: Some(7), key: s("k") }));
    assert_eq!(op.resume(Ok(Value::Unit)), Turn::Done(Ok(Value::Flag(true))));
}
