use url_balancing::dao::mysql::db::DbSrv;
use url_balancing::dao::redis::db::RdSrv;
use url_balancing::engine::{Call, BACKFILL_LIMIT};
use url_balancing::error::AppError;
use url_balancing::state::AppState;
use url_balancing::value::Value;

fn s(text: &str) -> String {
    text.to_string()
}

fn fresh() -> AppState {
    AppState::new(DbSrv::new(), RdSrv::new())
}

/// A service whose record holds `key` of user 7 with `urls`, and whose
/// ephemeral tier holds nothing.
fn cold(key: &str, urls: &[&str]) -> AppState {
    let mut mdb = DbSrv::new();
    mdb.add_key(7, key).unwrap();
    for url in urls {
        mdb.add_url(key, url).unwrap();
    }
    AppState::new(mdb, RdSrv::new())
}

#[test]
fn add_key_admits_then_records() {
    let mut state = fresh();
    let record = state.add_key(7, "k", 5).unwrap();
    assert_eq!((record.id, record.user_id, record.key.as_str()), (1, 7, "k"));
    assert_eq!(state.rdb.check_key(Some(7), "k"), Ok(true));
    assert_eq!(state.mdb.check_key("k").unwrap().unwrap().user_id, 7);
}

#[test]
fn add_key_twice_conflicts_on_record_and_stays_admitted() {
    let mut state = fresh();
    state.add_key(7, "k", 5).unwrap();
    assert_eq!(state.add_key(8, "k", 5), Err(AppError::Conflict));
    assert_eq!(state.rdb.check_key(Some(8), "k"), Ok(true));
    assert_eq!(state.mdb.check_key("k").unwrap().unwrap().user_id, 7);
}

#[test]
fn quota_refuses_once_the_count_is_above_the_limit() {
    let mut state = fresh();
    assert!(state.add_key(7, "k1", 2).is_ok());
    assert!(state.add_key(7, "k2", 2).is_ok());
    assert!(state.add_key(7, "k3", 2).is_ok());
    assert_eq!(state.add_key(7, "k4", 2), Err(AppError::Limit));
    assert_eq!(state.mdb.check_key("k4").unwrap(), None);
    assert_eq!(state.rdb.check_key(None, "k4"), Ok(false));
    assert_eq!(state.get_user_keys(7).unwrap(), vec![s("k1"), s("k2"), s("k3")]);
}

#[test]
fn quota_refuses_another_owner_once_all_keys_are_above_the_limit() {
    let mut state = fresh();
    assert!(state.add_key(1, "a", 2).is_ok());
    assert!(state.add_key(2, "b", 2).is_ok());
    assert!(state.add_key(3, "c", 2).is_ok());
    assert_eq!(state.add_key(4, "d", 2), Err(AppError::Limit));
    assert!(state.add_key(4, "d", 3).is_ok());
}

#[test]
fn idempotent_add() {
    let mut state = fresh();
    state.add_key(7, "k", 5).unwrap();
    assert_eq!(state.add_url("k", "http://a"), Ok(()));
    let once_cache = state.rdb.get_urls("k").unwrap();
    let once_record = state.mdb.get_urls("k").unwrap();
    assert_eq!(state.add_url("k", "http://a"), Ok(()));
    assert_eq!(state.rdb.get_urls("k").unwrap(), once_cache);
    assert_eq!(state.mdb.get_urls("k").unwrap(), once_record);
    assert_eq!(state.get_urls("k").unwrap(), vec![s("http://a")]);
}

#[test]
fn add_url_needs_the_key() {
    let mut state = fresh();
    assert_eq!(state.add_url("k", "http://a"), Err(AppError::KeyNotFound));
    assert_eq!(state.rdb.get_urls("k").unwrap(), Vec::<String>::new());
    assert_eq!(state.delete_url("k", "http://a"), Err(AppError::KeyNotFound));
}

#[test]
fn add_url_finds_the_key_on_record_and_admits_it_again() {
    let mut state = cold("k", &[]);
    assert_eq!(state.rdb.check_key(None, "k"), Ok(false));
    assert_eq!(state.add_url("k", "http://a"), Ok(()));
    assert_eq!(state.rdb.check_key(Some(7), "k"), Ok(true));
    assert_eq!(state.rdb.get_urls("k").unwrap(), vec![s("http://a")]);
    assert_eq!(state.mdb.get_urls("k").unwrap(), vec![s("http://a")]);
}

#[test]
fn add_url_to_a_key_off_the_record_fails_after_the_ephemeral_write() {
    let mut state = fresh();
    state.add_key(7, "k", 5).unwrap();
    state.delete_key("k").unwrap();
    assert_eq!(state.add_url("k", "http://a"), Err(AppError::KeyNotFound));
    assert_eq!(state.rdb.get_urls("k").unwrap(), vec![s("http://a")]);
}

#[test]
fn delete_url_removes_from_both_tiers() {
    let mut state = fresh();
    state.add_key(7, "k", 5).unwrap();
    state.add_url("k", "http://a").unwrap();
    state.add_url("k", "http://b").unwrap();
    assert_eq!(state.delete_url("k", "http://a"), Ok(()));
    assert_eq!(state.rdb.get_urls("k").unwrap(), vec![s("http://b")]);
    assert_eq!(state.mdb.get_urls("k").unwrap(), vec![s("http://b")]);
    assert_eq!(state.delete_url("k", "http://a"), Ok(()));
}

#[test]
fn delete_url_of_a_key_off_the_record_leaves_the_ephemeral_tier() {
    let mut state = fresh();
    state.add_key(7, "k", 5).unwrap();
    state.add_url("k", "http://a").unwrap();
    state.delete_key("k").unwrap();
    assert_eq!(state.delete_url("k", "http://a"), Err(AppError::KeyNotFound));
    assert_eq!(state.rdb.get_urls("k").unwrap(), vec![s("http://a")]);
}

#[test]
fn read_through_backfill() {
    let mut state = cold("k", &["a", "b"]);
    assert_eq!(state.rdb.get_urls("k").unwrap(), Vec::<String>::new());
    assert_eq!(state.get_urls("k").unwrap(), vec![s("a"), s("b")]);
    assert_eq!(state.rdb.get_urls("k").unwrap(), vec![s("a"), s("b")]);
    assert_eq!(state.get_urls("k").unwrap(), vec![s("a"), s("b")]);
    assert_eq!(state.mdb.get_urls("k").unwrap(), vec![s("a"), s("b")]);
}

#[test]
fn listing_prefers_the_ephemeral_tier() {
    let mut state = cold("k", &["a", "b"]);
    state.rdb.add_url("k", "stale").unwrap();
    assert_eq!(state.get_urls("k").unwrap(), vec![s("stale")]);
}

#[test]
fn listing_an_unknown_key_is_empty() {
    let mut state = fresh();
    assert_eq!(state.get_urls("nobody").unwrap(), Vec::<String>::new());
    let mut state = cold("k", &[]);
    assert_eq!(state.get_urls("k").unwrap(), Vec::<String>::new());
}

#[test]
fn random_selection_coverage() {
    let mut state = cold("k", &["a", "b", "c"]);
    let mut counts = [0usize; 3];
    for draw in 0..10_000usize {
        let url = state.get_url("k", draw).unwrap().unwrap();
        match url.as_str() {
            "a" => counts[0] += 1,
            "b" => counts[1] += 1,
            "c" => counts[2] += 1,
            other => panic!("{}", other),
        }
    }
    assert!(counts.iter().all(|&n| n > 0));
    assert_eq!(counts.iter().sum::<usize>(), 10_000);
    assert_eq!(counts, [3334, 3333, 3333]);
}

#[test]
fn a_draw_after_a_miss_fills_the_ephemeral_tier_first() {
    let mut state = cold("k", &["a", "b"]);
    assert_eq!(state.get_url("k", 1).unwrap(), Some(s("b")));
    assert_eq!(state.rdb.get_urls("k").unwrap(), vec![s("a"), s("b")]);
}

#[test]
fn empty_key_termination() {
    let mut state = fresh();
    assert_eq!(state.get_url("k", 0), Ok(None));
    let mut state = cold("k", &[]);
    assert_eq!(state.get_url("k", 12345), Ok(None));
    assert_eq!(state.rdb.get_urls("k").unwrap(), Vec::<String>::new());
}

#[test]
fn check_key_falls_back_to_the_record_by_token_alone() {
    let mut state = cold("k", &[]);
    assert_eq!(state.check_key(Some(99), "k"), Ok(true));
    assert_eq!(state.rdb.check_key(Some(99), "k"), Ok(true));
    assert_eq!(state.rdb.check_key(Some(7), "k"), Ok(false));
    assert_eq!(state.check_key(Some(99), "nobody"), Ok(false));
}

#[test]
fn check_key_without_an_owner_admits_for_the_owner_on_record() {
    let mut state = cold("k", &[]);
    assert_eq!(state.check_key(None, "k"), Ok(true));
    assert_eq!(state.rdb.check_key(Some(7), "k"), Ok(true));
    assert_eq!(state.check_key(None, "nobody"), Ok(false));
}

#[test]
fn check_key_with_an_owner_needs_both_sets() {
    let mut state = fresh();
    state.add_key(7, "k", 5).unwrap();
    assert_eq!(state.check_key(Some(7), "k"), Ok(true));
    assert_eq!(state.check_key(None, "k"), Ok(true));
    assert_eq!(state.rdb.check_key(Some(8), "k"), Ok(false));
}

#[test]
fn check_key_fails_where_the_fallback_is_refused() {
    assert_eq!(BACKFILL_LIMIT, 100);
    let mut mdb = DbSrv::new();
    mdb.add_key(7, "k").unwrap();
    let mut rdb = RdSrv::new();
    for i in 0..101 {
        rdb.add_key(1, &format!("filler{}", i), 1000).unwrap();
    }
    let mut state = AppState::new(mdb, rdb);
    assert_eq!(state.check_key(Some(7), "k"), Err(AppError::Limit));
    assert_eq!(state.rdb.check_key(None, "k"), Ok(false));
}

#[test]
fn deletion_gap() {
    let mut state = fresh();
    state.add_key(7, "k", 5).unwrap();
    assert_eq!(state.delete_key("k"), Ok(()));
    assert_eq!(state.mdb.check_key("k").unwrap(), None);
    assert_eq!(state.check_key(Some(7), "k"), Ok(true));
    assert_eq!(state.check_key(None, "k"), Ok(true));
    assert_eq!(state.delete_key("k"), Err(AppError::KeyNotFound));
}

#[test]
fn reconcile_closes_the_deletion_gap() {
    let mut state = fresh();
    state.add_key(7, "k", 5).unwrap();
    assert_eq!(state.reconcile_deleted_key(Some(7), "k"), Ok(false));
    assert_eq!(state.check_key(Some(7), "k"), Ok(true));
    state.delete_key("k").unwrap();
    assert_eq!(state.reconcile_deleted_key(Some(7), "k"), Ok(true));
    assert_eq!(state.check_key(Some(7), "k"), Ok(false));
    assert_eq!(state.check_key(None, "k"), Ok(false));
    assert_eq!(state.get_user_keys(7).unwrap(), Vec::<String>::new());
}

#[test]
fn get_user_keys_reads_through() {
    let mut mdb = DbSrv::new();
    mdb.add_key(7, "a").unwrap();
    mdb.add_key(8, "b").unwrap();
    mdb.add_key(7, "c").unwrap();
    let mut state = AppState::new(mdb, RdSrv::new());
    assert_eq!(state.get_user_keys(7).unwrap(), vec![s("a"), s("c")]);
    assert_eq!(state.rdb.get_user_keys(7).unwrap(), vec![s("a"), s("c")]);
    assert_eq!(state.rdb.check_key(Some(7), "c"), Ok(true));
    assert_eq!(state.rdb.check_key(None, "b"), Ok(false));
    assert_eq!(state.get_user_keys(9).unwrap(), Vec::<String>::new());
}

#[test]
fn get_user_keys_is_refused_where_the_fill_is() {
    let mut mdb = DbSrv::new();
    mdb.add_key(7, "a").unwrap();
    mdb.add_key(7, "b").unwrap();
    let mut rdb = RdSrv::new();
    for i in 0..100 {
        rdb.add_key(1, &format!("filler{}", i), 1000).unwrap();
    }
    let mut state = AppState::new(mdb, rdb);
    assert_eq!(state.get_user_keys(7), Err(AppError::Limit));
    assert_eq!(state.rdb.get_user_keys(7).unwrap(), vec![s("a")]);
    assert_eq!(state.get_user_keys(7).unwrap(), vec![s("a")]);
}

#[test]
fn token_expiry() {
    let mut state = fresh();
    assert_eq!(state.set_csrf("first", 1_000), Ok(()));
    assert_eq!(state.check_csrf("first", 1_000), Ok(true));
    assert_eq!(state.set_csrf("second", 1_300), Ok(()));
    assert_eq!(state.check_csrf("first", 1_599), Ok(true));
    assert_eq!(state.check_csrf("first", 1_600), Ok(false));
    assert_eq!(state.check_csrf("second", 1_600), Ok(true));
    assert_eq!(state.set_csrf("third", 1_700), Ok(()));
    assert_eq!(state.check_csrf("first", 1_700), Ok(false));
    assert_eq!(state.check_csrf("second", 1_899), Ok(true));
    assert_eq!(state.check_csrf("second", 1_900), Ok(false));
}

#[test]
fn issuing_a_token_again_renews_it() {
    let mut state = fresh();
    state.set_csrf("t", 1_000).unwrap();
    state.set_csrf("t", 1_500).unwrap();
    assert_eq!(state.check_csrf("t", 1_700), Ok(true));
    assert_eq!(state.check_csrf("t", 2_100), Ok(false));
}

#[test]
fn run_returns_the_result_of_each_operation() {
    let mut state = fresh();
    let made = state.run(Call::AddKey { uid: 7, key: s("k"), limitation: 5 }, 0);
    match made {
        Ok(Value::Key(record)) => assert_eq!(record.key, "k"),
        other => panic!("{:?}", other),
    }
    assert_eq!(state.run(Call::AddUrl { key: s("k"), url: s("u") }, 0), Ok(Value::Unit));
    assert_eq!(state.run(Call::GetUrl { key: s("k") }, 9), Ok(Value::Member(Some(s("u")))));
    assert_eq!(state.run(Call::GetUrls { key: s("k") }, 0), Ok(Value::Members(vec![s("u")])));
    assert_eq!(state.run(Call::CheckKey { uid: None, key: s("k") }, 0), Ok(Value::Flag(true)));
    assert_eq!(state.run(Call::GetUserKeys { uid: 7 }, 0), Ok(Value::Members(vec![s("k")])));
    assert_eq!(state.run(Call::DeleteUrl { key: s("k"), url: s("u") }, 0), Ok(Value::Unit));
    assert_eq!(state.run(Call::DeleteKey { key: s("k") }, 0), Ok(Value::Unit));
    assert_eq!(
        state.run(Call::ReconcileDeletedKey { uid: Some(7), key: s("k") }, 0),
        Ok(Value::Flag(true))
    );
    assert_eq!(state.run(Call::SetCsrf { csrf: s("t"), now: 5 }, 0), Ok(Value::Unit));
    assert_eq!(state.run(Call::CheckCsrf { csrf: s("t"), now: 6 }, 0), Ok(Value::Flag(true)));
}
