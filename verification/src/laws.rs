//! What holds of the service whatever the tiers hold.
use crate::dao::mysql::disk::{
    ids, lemma_remove_keeps_distinct, lemma_urls_under, urls_under, Durable,
};
use crate::dao::mysql::ops::{db_answer, DbCallView};
use crate::entity::key;
use crate::dao::redis::cache::{
    drawn, lemma_apply_keeps_wf, lemma_dropped, lemma_placed, lemma_scored, lemma_unexpired,
    members_of, scored, unexpired, Entry, Ephemeral,
};
use crate::dao::redis::command::RdCommandView;
use crate::dao::redis::naming::{
    csrf_name, key_set_name, lemma_list_name_is_injective, lemma_names_are_apart,
    lemma_user_key_name_is_injective, list_name, user_key_name,
};
use crate::dao::redis::ops::{
    exceeds, key_known, lemma_rd_answer_keeps_wf, quota_full, token_issued, token_valid,
    RdCallView, TOKEN_TTL,
};
use crate::engine::{CallView, Next, OpView, Stage, BACKFILL_LIMIT};
use crate::entity::url;
use crate::error::{AppErrorKind, Fault};
use crate::value::ValueView;
use crate::world::{admitted, filled_cache, lemma_answer_keeps_wf, World};
use vstd::prelude::*;

verus! {

/// A key with no URL in either tier resolves to none, and the tiers stay as
/// they are.
pub proof fn law_no_url_resolves_to_none(world: World, key: Seq<char>, chance: int)
    requires
        world.cache.members(list_name(key)).len() == 0,
        world.disk.urls_of(key).len() == 0,
    ensures
        world.get_url(key, chance) == (world, Ok::<ValueView, Fault>(ValueView::Member(None))),
{
}

/// A key with no URL in either tier lists nothing, and the tiers stay as they
/// are.
pub proof fn law_no_url_lists_nothing(world: World, key: Seq<char>)
    requires
        world.cache.members(list_name(key)).len() == 0,
        world.disk.urls_of(key).len() == 0,
    ensures
        world.get_urls(key) == (
            world,
            Ok::<ValueView, Fault>(ValueView::Members(Seq::empty())),
        ),
{
    reveal_with_fuel(filled_cache, 1);
    assert(world.disk.urls_of(key) =~= Seq::<Seq<char>>::empty());
}

/// A failure of a tier ends an operation with that failure, but in two
/// places: while URLs are taken to the ephemeral tier, and where the durable
/// tier does not find the key whose URLs are asked for.
pub proof fn law_failure_ends_the_operation(op: OpView, fault: Fault)
    requires
        !(op.stage == Stage::Fill && !(op.call is GetUserKeys)),
        !(op.stage == Stage::Source && fault.kind == AppErrorKind::KeyNotFound),
    ensures
        op.advance(Err(fault)) == Next::Finish(Err(fault)),
{
}

/// A failure while URLs are taken to the ephemeral tier does not fail a
/// listing: it returns the URLs of the durable tier.
pub proof fn law_failed_fill_returns_the_record(op: OpView, fault: Fault)
    requires
        op.stage == Stage::Fill,
        op.call is GetUrls,
    ensures
        op.advance(Err(fault)) == Next::Finish(Ok(ValueView::Members(op.found))),
{
}

/// A draw from a set that holds something gives one of its members.
pub proof fn law_draw_is_a_member(set: Seq<Seq<char>>, chance: int)
    requires
        set.len() > 0,
        0 <= chance,
    ensures
        drawn(set, chance) matches Some(member) && set.contains(member),
{
    let at = chance % (set.len() as int);
    assert(set[at] == drawn(set, chance)->0);
}

/// Every member of a set is drawn by some number: the one that is returned.
pub proof fn law_every_member_is_drawn(set: Seq<Seq<char>>, member: Seq<char>) -> (chance: int)
    requires
        set.contains(member),
    ensures
        0 <= chance < set.len(),
        drawn(set, chance) == Some(member),
{
    let at = choose|i: int| 0 <= i < set.len() && set[i] == member;
    assert(at % (set.len() as int) == at) by (nonlinear_arith)
        requires
            0 <= at < set.len(),
    ;
    at
}

/// A member of a set is drawn by the numbers of exactly one residue modulo the
/// size of the set: numbers that are spread evenly draw every member equally
/// often.
pub proof fn law_draw_is_even(set: Seq<Seq<char>>, at: int, chance: int)
    requires
        set.no_duplicates(),
        0 <= at < set.len(),
        0 <= chance,
    ensures
        drawn(set, chance) == Some(set[at]) <==> chance % (set.len() as int) == at,
{
    let picked = chance % (set.len() as int);
    assert(0 <= picked < set.len()) by (nonlinear_arith)
        requires
            0 <= chance,
            set.len() > 0,
            picked == chance % (set.len() as int),
    ;
    assert(drawn(set, chance) == Some(set[picked]));
}

/// While the ephemeral tier holds URLs of a key, resolving the key gives one
/// of them and changes nothing; and each of them is what some draw gives.
pub proof fn law_resolution_covers_the_set(world: World, key: Seq<char>, chance: int)
    requires
        world.cache.members(list_name(key)).len() > 0,
        0 <= chance,
    ensures
        world.get_url(key, chance).0 == world,
        world.get_url(key, chance).1 matches Ok(ValueView::Member(Some(url)))
            && world.cache.members(list_name(key)).contains(url),
        forall|url: Seq<char>| #[trigger]
            world.cache.members(list_name(key)).contains(url) ==> exists|draw: int|
                0 <= draw && #[trigger] world.get_url(key, draw).1 == Ok::<ValueView, Fault>(
                    ValueView::Member(Some(url)),
                ),
{
    let set = world.cache.members(list_name(key));
    law_draw_is_a_member(set, chance);
    assert forall|url: Seq<char>| #[trigger] set.contains(url) implies exists|draw: int|
        0 <= draw && #[trigger] world.get_url(key, draw).1 == Ok::<ValueView, Fault>(
            ValueView::Member(Some(url)),
        ) by {
        let draw = law_every_member_is_drawn(set, url);
        assert(world.get_url(key, draw).1 == Ok::<ValueView, Fault>(ValueView::Member(Some(url))));
    }
}

/// A new key is refused, and nothing is changed, exactly where the ephemeral
/// tier holds more keys of the user than the quota allows, or more keys in
/// all: whoever the user is once the tier as a whole is over the quota.
pub proof fn law_quota_is_enforced(world: World, uid: i64, key: Seq<char>, limitation: i16)
    ensures
        (world.add_key(uid, key, limitation).1 matches Err(fault) && fault.kind
            == AppErrorKind::Limit) <==> quota_full(world.cache, uid, limitation),
        quota_full(world.cache, uid, limitation) ==> world.add_key(uid, key, limitation) == (
            world,
            Err::<ValueView, Fault>(Fault::bare(AppErrorKind::Limit)),
        ),
        exceeds(world.cache.members(user_key_name(uid)).len() as u64, limitation) ==> quota_full(
            world.cache,
            uid,
            limitation,
        ),
        exceeds(world.cache.members(key_set_name()).len() as u64, limitation) ==> forall|
            other: i64,
        | #[trigger] quota_full(world.cache, other, limitation),
{
}

/// An ordered set holds a member exactly where it holds an entry of the member.
pub proof fn lemma_member_has_entry(entries: Seq<Entry>, member: Seq<char>)
    ensures
        members_of(entries).contains(member) <==> exists|e: Entry| #[trigger]
            entries.contains(e) && e.member == member,
{
    if members_of(entries).contains(member) {
        let i = choose|i: int|
            0 <= i < members_of(entries).len() && members_of(entries)[i] == member;
        assert(entries.contains(entries[i]) && entries[i].member == member);
    }
    if exists|e: Entry| #[trigger] entries.contains(e) && e.member == member {
        let e = choose|e: Entry| #[trigger] entries.contains(e) && e.member == member;
        let i = choose|i: int| 0 <= i < entries.len() && entries[i] == e;
        assert(members_of(entries)[i] == member);
    }
}

/// A token is valid from the moment it is issued until [`TOKEN_TTL`] seconds
/// later, and from then on it is not.
pub proof fn law_token_lifetime(tier: Ephemeral, csrf: Seq<char>, now: u64, later: u64)
    requires
        tier.wf(),
        now + TOKEN_TTL <= u64::MAX,
    ensures
        token_valid(token_issued(tier, csrf, now), csrf, later) <==> later < now + TOKEN_TTL,
{
    let score = (now + TOKEN_TTL) as u64;
    let held = tier.entries(csrf_name());
    let added = scored(held, csrf, score);
    let swept = unexpired(added, now);
    let left = unexpired(swept, later);
    let fresh = Entry { member: csrf, score };
    assert(token_issued(tier, csrf, now).entries(csrf_name()) == swept);
    lemma_scored(held, csrf, score);
    lemma_unexpired(added, now);
    lemma_unexpired(swept, later);
    lemma_member_has_entry(left, csrf);
    if later < now + TOKEN_TTL {
        assert(added.contains(fresh));
        assert(swept.contains(fresh));
        assert(left.contains(fresh));
    } else {
        if members_of(left).contains(csrf) {
            let e = choose|e: Entry| #[trigger] left.contains(e) && e.member == csrf;
            assert(swept.contains(e));
            assert(added.contains(e));
        }
    }
}

/// Issuing a token makes no other token valid.
pub proof fn law_issue_revives_no_other(
    tier: Ephemeral,
    csrf: Seq<char>,
    other: Seq<char>,
    at: u64,
    later: u64,
)
    requires
        tier.wf(),
        other != csrf,
        at + TOKEN_TTL <= u64::MAX,
    ensures
        token_valid(token_issued(tier, other, at), csrf, later) ==> token_valid(tier, csrf, later),
{
    let score = (at + TOKEN_TTL) as u64;
    let held = tier.entries(csrf_name());
    let added = scored(held, other, score);
    let swept = unexpired(added, at);
    let left = unexpired(swept, later);
    assert(token_issued(tier, other, at).entries(csrf_name()) == swept);
    lemma_scored(held, other, score);
    lemma_unexpired(added, at);
    lemma_unexpired(swept, later);
    lemma_unexpired(held, later);
    lemma_member_has_entry(left, csrf);
    lemma_member_has_entry(unexpired(held, later), csrf);
    if members_of(left).contains(csrf) {
        let e = choose|e: Entry| #[trigger] left.contains(e) && e.member == csrf;
        assert(swept.contains(e));
        assert(added.contains(e));
        assert(held.contains(e));
        assert(unexpired(held, later).contains(e));
    }
}

/// A token that has expired stays invalid when another token is issued in
/// between.
pub proof fn law_expired_token_stays_expired(
    tier: Ephemeral,
    csrf: Seq<char>,
    now: u64,
    other: Seq<char>,
    at: u64,
    later: u64,
)
    requires
        tier.wf(),
        other != csrf,
        now + TOKEN_TTL <= u64::MAX,
        at + TOKEN_TTL <= u64::MAX,
        later >= now + TOKEN_TTL,
    ensures
        !token_valid(token_issued(token_issued(tier, csrf, now), other, at), csrf, later),
{
    let first = token_issued(tier, csrf, now);
    law_token_lifetime(tier, csrf, now, later);
    lemma_token_issued_keeps_wf(tier, csrf, now);
    law_issue_revives_no_other(first, csrf, other, at, later);
}

/// Issuing a token leaves a well-formed tier well-formed.
pub proof fn lemma_token_issued_keeps_wf(tier: Ephemeral, csrf: Seq<char>, now: u64)
    requires
        tier.wf(),
    ensures
        token_issued(tier, csrf, now).wf(),
{
    lemma_rd_answer_keeps_wf(
        tier,
        RdCallView::SetCsrf { csrf, now },
        0,
    );
}

/// Admitting a key makes it known, for the user it is admitted for and for no
/// user in particular.
pub proof fn lemma_admitted_is_known(cache: Ephemeral, owner: i64, key: Seq<char>)
    requires
        cache.wf(),
    ensures
        key_known(admitted(cache, owner, key), Some(owner), key),
        key_known(admitted(cache, owner, key), None, key),
        admitted(cache, owner, key).wf(),
{
    let first = cache.sadd(user_key_name(owner), key);
    lemma_placed(cache.members(user_key_name(owner)), key);
    lemma_apply_keeps_wf(
        cache,
        RdCommandView::Sadd { set: user_key_name(owner), member: key },
        0,
    );
    lemma_placed(first.members(key_set_name()), key);
    lemma_apply_keeps_wf(
        first,
        RdCommandView::Sadd { set: key_set_name(), member: key },
        0,
    );
}

/// Once a key is found to exist, it is found to exist again without a change;
/// where it is not, nothing was changed.
pub proof fn lemma_presence_settles(world: World, uid: Option<i64>, key: Seq<char>)
    requires
        world.wf(),
    ensures
        ({
            let (after, found) = world.presence(uid, key);
            &&& after.wf()
            &&& after.disk == world.disk
            &&& found == Ok::<bool, Fault>(true) ==> key_known(after.cache, uid, key)
            &&& found != Ok::<bool, Fault>(true) ==> after == world
            &&& after.presence(uid, key).0 == after
        }),
{
    if !key_known(world.cache, uid, key) {
        match world.disk.find(key) {
            Some(row) => {
                let owner = match uid {
                    Some(given) => given,
                    None => row.user_id,
                };
                lemma_admitted_is_known(world.cache, owner, key);
            },
            None => {},
        }
    }
}

/// Registering a URL a second time changes nothing and ends as the first time
/// did; the URLs that the ephemeral tier then holds for the key are distinct,
/// and where the URL was registered both tiers hold it.
pub proof fn law_add_url_is_idempotent(world: World, key: Seq<char>, url: Seq<char>)
    requires
        world.wf(),
    ensures
        ({
            let (once, first) = world.add_url(key, url);
            &&& once.add_url(key, url) == (once, first)
            &&& once.wf()
            &&& once.cache.members(list_name(key)).no_duplicates()
            &&& first is Ok ==> once.cache.members(list_name(key)).contains(url)
                && once.disk.urls_of(key).contains(url)
        }),
{
    let (once, first) = world.add_url(key, url);
    let (after, found) = world.presence(None, key);
    let name = list_name(key);
    lemma_presence_settles(world, None, key);
    lemma_answer_keeps_wf(world, CallView::AddUrl { key, url }, 0);
    if found == Ok::<bool, Fault>(true) {
        let cache = after.cache.sadd(name, url);
        lemma_placed(after.cache.members(name), url);
        lemma_placed(after.cache.members(key_set_name()), url);
        assert(key_known(cache, None, key));
        assert(cache.sadd(name, url).sets =~= cache.sets);
        assert(cache.sadd(name, url) == cache);
        match after.disk.find(key) {
            Some(row) => {
                let disk = after.disk.with_url(row.id, url);
                let record = url::Row { id: row.id, url };
                assert(disk.keys == after.disk.keys);
                if !after.disk.urls.contains(record) {
                    assert(disk.urls[after.disk.urls.len() as int] == record);
                }
                assert(disk.urls.contains(record));
                lemma_urls_under(disk.urls, row.id);
                let under = urls_under(disk.urls, row.id);
                assert(under.contains(record));
                let i = choose|i: int| 0 <= i < under.len() && under[i] == record;
                assert(url::addresses(under)[i] == url);
            },
            None => {},
        }
    }
}

/// The URLs that a listing returns are distinct.
pub proof fn law_listing_is_distinct(world: World, key: Seq<char>)
    requires
        world.wf(),
    ensures
        world.get_urls(key).1 matches Ok(ValueView::Members(urls)) && urls.no_duplicates(),
{
    match world.disk.find(key) {
        Some(row) => {
            lemma_urls_under(world.disk.urls, row.id);
        },
        None => {},
    }
}

/// Taking a list of distinct items to a set that holds the items before a
/// place leaves the set holding the list; no other set is touched.
pub proof fn lemma_filled_cache(
    cache: Ephemeral,
    name: Seq<char>,
    items: Seq<Seq<char>>,
    from: nat,
)
    requires
        cache.wf(),
        items.no_duplicates(),
        from <= items.len(),
        cache.members(name) == items.take(from as int),
    ensures
        filled_cache(cache, name, items, from).members(name) == items,
        filled_cache(cache, name, items, from).ranked == cache.ranked,
        forall|other: Seq<char>|
            other != name ==> #[trigger] filled_cache(cache, name, items, from).members(other)
                == cache.members(other),
    decreases items.len() - from,
{
    if from >= items.len() {
        assert(items.take(from as int) =~= items);
    } else {
        let item = items[from as int];
        let next = cache.sadd(name, item);
        if items.take(from as int).contains(item) {
            let j = choose|j: int|
                0 <= j < items.take(from as int).len() && items.take(from as int)[j] == item;
            assert(items[j] == items[from as int]);
        }
        assert(next.members(name) =~= items.take(from as int + 1));
        lemma_apply_keeps_wf(
            cache,
            RdCommandView::Sadd { set: name, member: item },
            0,
        );
        lemma_filled_cache(next, name, items, from + 1);
        assert forall|other: Seq<char>| other != name implies #[trigger] filled_cache(
            cache,
            name,
            items,
            from,
        ).members(other) == cache.members(other) by {
            assert(next.members(other) == cache.members(other));
        }
    }
}

/// Where the ephemeral tier holds no URL of a key, a listing returns the URLs
/// on record, leaves the record as it is, and leaves the ephemeral tier
/// holding exactly these URLs for the key; a second listing returns the same
/// and changes nothing.
pub proof fn law_read_through_backfills(world: World, key: Seq<char>)
    requires
        world.wf(),
        world.cache.members(list_name(key)).len() == 0,
    ensures
        ({
            let (after, listed) = world.get_urls(key);
            &&& listed == Ok::<ValueView, Fault>(ValueView::Members(world.disk.urls_of(key)))
            &&& after.disk == world.disk
            &&& after.cache.members(list_name(key)) == world.disk.urls_of(key)
            &&& after.get_urls(key) == (after, listed)
        }),
{
    let stored = world.disk.urls_of(key);
    let name = list_name(key);
    match world.disk.find(key) {
        Some(row) => {
            lemma_urls_under(world.disk.urls, row.id);
        },
        None => {},
    }
    assert(world.cache.members(name) =~= stored.take(0));
    lemma_filled_cache(world.cache, name, stored, 0);
    if stored.len() == 0 {
        reveal_with_fuel(filled_cache, 1);
        assert(stored =~= Seq::<Seq<char>>::empty());
    }
}

/// Deleting a key from the record leaves the ephemeral tier as it is: a key
/// that the ephemeral tier knows is still found to exist, though the record
/// no longer holds it.
pub proof fn law_deleted_key_stays_known(world: World, uid: Option<i64>, key: Seq<char>)
    requires
        world.wf(),
        key_known(world.cache, uid, key),
    ensures
        ({
            let (after, deleted) = world.answer(CallView::DeleteKey { key }, 0);
            &&& after.cache == world.cache
            &&& after.presence(uid, key) == (after, Ok::<bool, Fault>(true))
            &&& after.disk.find(key) is None
            &&& deleted is Ok <==> world.disk.find(key) is Some
        }),
{
    lemma_deleted_key_is_gone(world.disk, key);
}

/// A key that was deleted from a well-formed record is not on record.
pub proof fn lemma_deleted_key_is_gone(disk: Durable, key: Seq<char>)
    requires
        disk.wf(),
    ensures
        db_answer(disk, DbCallView::DeleteKey { key }).0.find(key) is None,
{
    let tokens = key::tokens(disk.keys);
    tokens.index_of_first_ensures(key);
    match tokens.index_of_first(key) {
        Some(i) => {
            let row = disk.keys[i];
            let numbers = ids(disk.keys);
            numbers.index_of_first_ensures(row.id);
            assert(numbers[i] == row.id);
            let j = numbers.index_of_first(row.id)->0;
            assert(j == i);
            let after = disk.without_key(row.id);
            assert(key::tokens(after.keys) =~= tokens.remove(i));
            lemma_remove_keeps_distinct(tokens, i);
            key::tokens(after.keys).index_of_first_ensures(key);
        },
        None => {},
    }
}

/// Once a key is off the record, the repair makes the ephemeral tier forget
/// it: from then on the key is found not to exist, whoever asks.
pub proof fn law_reconcile_closes_the_gap(world: World, uid: Option<i64>, key: Seq<char>)
    requires
        world.wf(),
        world.disk.find(key) is None,
    ensures
        ({
            let (after, repaired) = world.reconcile_deleted_key(uid, key);
            &&& repaired == Ok::<ValueView, Fault>(ValueView::Flag(true))
            &&& after.disk == world.disk
            &&& forall|who: Option<i64>| #[trigger]
                after.presence(who, key) == (after, Ok::<bool, Fault>(false))
        }),
{
    let first = world.cache.srem(key_set_name(), key);
    lemma_dropped(world.cache.members(key_set_name()), key);
    match uid {
        Some(owner) => {
            lemma_apply_keeps_wf(
                world.cache,
                RdCommandView::Srem { set: key_set_name(), member: key },
                0,
            );
            lemma_dropped(first.members(user_key_name(owner)), key);
        },
        None => {},
    }
}

/// A key that was created is found to exist from then on, as its owner's and
/// as anybody's, and it is on record for its owner.
pub proof fn law_created_key_is_found(world: World, uid: i64, key: Seq<char>, limitation: i16)
    requires
        world.wf(),
    ensures
        ({
            let (after, created) = world.add_key(uid, key, limitation);
            created matches Ok(made) ==> {
                &&& after.presence(Some(uid), key) == (after, Ok::<bool, Fault>(true))
                &&& after.presence(None, key) == (after, Ok::<bool, Fault>(true))
                &&& after.disk.find(key) matches Some(row) && row.user_id == uid
                    && made == ValueView::Key(row)
            }
        }),
{
    let (after, created) = world.add_key(uid, key, limitation);
    if created is Ok {
        lemma_admitted_is_known(world.cache, uid, key);
        let tokens = key::tokens(world.disk.keys);
        let grown = key::tokens(after.disk.keys);
        assert(grown =~= tokens.push(key));
        grown.index_of_first_ensures(key);
        assert(grown[tokens.len() as int] == key);
        let at = grown.index_of_first(key)->0;
        if at < tokens.len() {
            assert(tokens[at] == key);
        }
    }
}

/// A URL is registered only under a key that is on record: under any other
/// key the registration ends with the key not found and the record stays as
/// it is.
pub proof fn law_url_needs_key_on_record(world: World, key: Seq<char>, url: Seq<char>)
    ensures
        world.add_url(key, url).1 is Ok ==> world.disk.find(key) is Some,
        world.disk.find(key) is None ==> world.add_url(key, url).1 == Err::<ValueView, Fault>(
            Fault::bare(AppErrorKind::KeyNotFound),
        ) && world.add_url(key, url).0.disk == world.disk,
{
}

/// A URL is written to the ephemeral tier before the durable tier is asked:
/// where the ephemeral tier knows a key that is not on record, registering a
/// URL fails with the key not found, and the ephemeral tier holds the URL.
pub proof fn law_failed_write_stays_in_the_ephemeral_tier(
    world: World,
    key: Seq<char>,
    url: Seq<char>,
)
    requires
        key_known(world.cache, None, key),
        world.disk.find(key) is None,
    ensures
        world.add_url(key, url) == (
            world.with_cache(world.cache.sadd(list_name(key), url)),
            Err::<ValueView, Fault>(Fault::bare(AppErrorKind::KeyNotFound)),
        ),
{
}

/// A URL is deleted from the durable tier before the ephemeral tier is asked:
/// where the ephemeral tier knows a key that is not on record, removing a URL
/// fails with the key not found, and the ephemeral tier keeps the URL.
pub proof fn law_failed_delete_leaves_the_ephemeral_tier(
    world: World,
    key: Seq<char>,
    url: Seq<char>,
)
    requires
        key_known(world.cache, None, key),
        world.disk.find(key) is None,
    ensures
        world.delete_url(key, url) == (
            world,
            Err::<ValueView, Fault>(Fault::bare(AppErrorKind::KeyNotFound)),
        ),
{
}

/// Where the ephemeral tier does not know a key as a user's, the record
/// decides by the token alone: a key on record is found to exist as the
/// user's, whoever owns it on record, unless the ephemeral tier is over the
/// quota for admitting it again.
pub proof fn law_fallback_asks_for_no_owner(world: World, uid: i64, key: Seq<char>)
    requires
        !key_known(world.cache, Some(uid), key),
        world.disk.find(key) is Some,
        !quota_full(world.cache, uid, BACKFILL_LIMIT),
    ensures
        world.presence(Some(uid), key) == (
            world.with_cache(admitted(world.cache, uid, key)),
            Ok::<bool, Fault>(true),
        ),
{
}

/// Registering a URL under a key leaves the URLs of every other key as they
/// are, in both tiers.
pub proof fn law_keys_do_not_share_urls(
    world: World,
    key: Seq<char>,
    url: Seq<char>,
    other: Seq<char>,
)
    requires
        world.wf(),
        other != key,
    ensures
        ({
            let (after, _) = world.add_url(key, url);
            &&& after.cache.members(list_name(other)) == world.cache.members(list_name(other))
            &&& after.disk.urls_of(other) == world.disk.urls_of(other)
        }),
{
    let (after, _) = world.add_url(key, url);
    let (settled, found) = world.presence(None, key);
    if list_name(other) == list_name(key) {
        lemma_list_name_is_injective(other, key);
    }
    match world.disk.find(key) {
        Some(row) => {
            lemma_names_are_apart(other, row.user_id);
        },
        None => {
            lemma_names_are_apart(other, 0);
        },
    }
    assert(settled.cache.members(list_name(other)) == world.cache.members(list_name(other)));
    assert(after.disk.keys == world.disk.keys);
    if after.disk != world.disk {
        let mine = world.disk.find(key)->0;
        let record = url::Row { id: mine.id, url };
        assert(after.disk.urls == world.disk.urls.push(record));
        assert(after.disk.urls.drop_last() =~= world.disk.urls);
        match world.disk.find(other) {
            Some(theirs) => {
                let tokens = key::tokens(world.disk.keys);
                tokens.index_of_first_ensures(key);
                tokens.index_of_first_ensures(other);
                let i = tokens.index_of_first(key)->0;
                let j = tokens.index_of_first(other)->0;
                assert(ids(world.disk.keys)[i] == mine.id);
                assert(ids(world.disk.keys)[j] == theirs.id);
            },
            None => {},
        }
    }
}

/// Creating a key for a user leaves the keys that the ephemeral tier holds for
/// every other user as they are.
pub proof fn law_users_do_not_share_a_quota(
    world: World,
    uid: i64,
    key: Seq<char>,
    limitation: i16,
    other: i64,
)
    requires
        other != uid,
    ensures
        world.add_key(uid, key, limitation).0.cache.members(user_key_name(other))
            == world.cache.members(user_key_name(other)),
{
    if user_key_name(other) == user_key_name(uid) {
        lemma_user_key_name_is_injective(other, uid);
    }
    lemma_names_are_apart(key, other);
}

} // verus!
