//! The names under which the ephemeral tier holds its sets.
use crate::text::{
    concat_string, decimal, joined, lemma_decimal_is_injective, lemma_digits_shape,
    lemma_joined_is_injective, spec_decimal,
};
use vstd::prelude::*;

verus! {

/// The first part of every name.
pub const REDIS_PREFIX: &'static str = "URL_BALANCING";

/// The part of a name that marks a set of keys.
pub const REDIS_KEY: &'static str = "KEY";

/// The part of a name that marks the set of the URLs of a key.
pub const REDIS_LIST_PREFIX: &'static str = "LIST";

/// The part of a name that marks the ordered set of the tokens.
pub const REDIS_CSRF: &'static str = "CSRF";

/// The name of the set of all keys.
pub open spec fn key_set_name() -> Seq<char> {
    joined("URL_BALANCING"@, "KEY"@)
}

/// The name of the set of the keys that user `uid` owns.
pub open spec fn user_key_name(uid: i64) -> Seq<char> {
    joined(key_set_name(), spec_decimal(uid as int))
}

/// The name of the set of the URLs registered under `key`.
pub open spec fn list_name(key: Seq<char>) -> Seq<char> {
    joined(joined("URL_BALANCING"@, "LIST"@), key)
}

/// The name of the ordered set of anti-forgery tokens.
pub open spec fn csrf_name() -> Seq<char> {
    joined("URL_BALANCING"@, "CSRF"@)
}

/// The name of the set of all keys.
pub fn key_set() -> (name: String)
    ensures
        name@ == key_set_name(),
{
    concat_string(REDIS_PREFIX, REDIS_KEY)
}

/// The name of the set of the keys that user `uid` owns.
pub fn user_key(uid: i64) -> (name: String)
    ensures
        name@ == user_key_name(uid),
{
    let all = key_set();
    let id = decimal(uid);
    concat_string(all.as_str(), id.as_str())
}

/// The name of the set of the URLs registered under `key`.
pub fn list_key(key: &str) -> (name: String)
    ensures
        name@ == list_name(key@),
{
    let lists = concat_string(REDIS_PREFIX, REDIS_LIST_PREFIX);
    concat_string(lists.as_str(), key)
}

/// The name of the ordered set of anti-forgery tokens.
pub fn csrf_key() -> (name: String)
    ensures
        name@ == csrf_name(),
{
    concat_string(REDIS_PREFIX, REDIS_CSRF)
}

/// Two keys whose URL sets have the same name are the same key.
pub proof fn lemma_list_name_is_injective(a: Seq<char>, b: Seq<char>)
    requires
        list_name(a) == list_name(b),
    ensures
        a == b,
{
    lemma_joined_is_injective(joined("URL_BALANCING"@, "LIST"@), a, b);
}

/// Two users whose key sets have the same name are the same user.
pub proof fn lemma_user_key_name_is_injective(a: i64, b: i64)
    requires
        user_key_name(a) == user_key_name(b),
    ensures
        a == b,
{
    lemma_joined_is_injective(key_set_name(), spec_decimal(a as int), spec_decimal(b as int));
    lemma_decimal_is_injective(a as int, b as int);
}

/// The set of all keys, the set of the keys of a user, the set of the URLs of
/// a key and the set of the tokens have names of their own.
pub proof fn lemma_names_are_apart(key: Seq<char>, uid: i64)
    ensures
        user_key_name(uid) != key_set_name(),
        list_name(key) != key_set_name(),
        list_name(key) != user_key_name(uid),
        csrf_name() != key_set_name(),
        csrf_name() != user_key_name(uid),
        csrf_name() != list_name(key),
{
    reveal_strlit("URL_BALANCING");
    reveal_strlit("KEY");
    reveal_strlit("LIST");
    reveal_strlit("CSRF");
    lemma_digits_shape((if uid < 0 { -(uid as int) } else { uid as int }) as nat);
    assert(key_set_name().len() == 17);
    assert(user_key_name(uid).len() > 17);
    assert(key_set_name()[14] == 'K');
    assert(user_key_name(uid)[14] == 'K');
    assert(list_name(key)[14] == 'L');
    assert(csrf_name()[14] == 'C');
}

} // verus!
