//! The durable tier as a mathematical value, and what each order does to it.
use crate::dao::mysql::command::DbCommandView;
use crate::entity::key;
use crate::entity::url;
use crate::error::{AppErrorKind, Fault};
use crate::value::ValueView;
use vstd::prelude::*;

verus! {

/// The identifiers of a list of key records, in order.
pub open spec fn ids(keys: Seq<key::Row>) -> Seq<i32> {
    keys.map_values(|r: key::Row| r.id)
}

/// The records of the keys of user `user_id`, in their order.
pub open spec fn owned_by(keys: Seq<key::Row>, user_id: i64) -> Seq<key::Row>
    decreases keys.len(),
{
    if keys.len() == 0 {
        Seq::empty()
    } else {
        let rest = owned_by(keys.drop_last(), user_id);
        if keys.last().user_id == user_id {
            rest.push(keys.last())
        } else {
            rest
        }
    }
}

/// The records of the URLs under the identifier `id`, in their order.
pub open spec fn urls_under(urls: Seq<url::Row>, id: i32) -> Seq<url::Row>
    decreases urls.len(),
{
    if urls.len() == 0 {
        Seq::empty()
    } else {
        let rest = urls_under(urls.drop_last(), id);
        if urls.last().id == id {
            rest.push(urls.last())
        } else {
            rest
        }
    }
}

/// The fault of a tier that has no identifier left for a new key.
pub open spec fn exhausted() -> Fault {
    Fault { kind: AppErrorKind::MySQL, detail: "out of key identifiers"@ }
}

/// The durable tier: the records of the keys and of the URLs, each in the
/// order in which they were recorded, and the last identifier that was
/// assigned to a key.
pub struct Durable {
    pub keys: Seq<key::Row>,
    pub urls: Seq<url::Row>,
    pub issued: i32,
}

impl Durable {
    /// The tier with nothing in it.
    pub open spec fn empty() -> Durable {
        Durable { keys: Seq::empty(), urls: Seq::empty(), issued: 0 }
    }

    /// No token and no identifier stands for two keys, every identifier was
    /// assigned, and no URL is recorded twice under one identifier.
    pub open spec fn wf(self) -> bool {
        &&& key::tokens(self.keys).no_duplicates()
        &&& ids(self.keys).no_duplicates()
        &&& forall|i: int| 0 <= i < self.keys.len() ==> 0 < (#[trigger] self.keys[i]).id <= self.issued
        &&& 0 <= self.issued
        &&& self.urls.no_duplicates()
    }

    /// The record of the key with the token `key`, if there is one.
    pub open spec fn find(self, key: Seq<char>) -> Option<key::Row> {
        match key::tokens(self.keys).index_of_first(key) {
            Some(i) => Some(self.keys[i]),
            None => None,
        }
    }

    /// The URLs recorded under the identifier `id`, in their order.
    pub open spec fn addresses(self, id: i32) -> Seq<Seq<char>> {
        url::addresses(urls_under(self.urls, id))
    }

    /// The URLs of the key with the token `key`: none where there is no such
    /// key.
    pub open spec fn urls_of(self, key: Seq<char>) -> Seq<Seq<char>> {
        match self.find(key) {
            Some(row) => self.addresses(row.id),
            None => Seq::empty(),
        }
    }

    /// The tier with a new key: refused as a conflict where the token is
    /// recorded, and as a failure of the tier where no identifier is left.
    pub open spec fn insert_key(self, user_id: i64, key: Seq<char>) -> (
        Durable,
        Result<ValueView, Fault>,
    ) {
        if key::tokens(self.keys).contains(key) {
            (self, Err(Fault::bare(AppErrorKind::Conflict)))
        } else if self.issued >= i32::MAX {
            (self, Err(exhausted()))
        } else {
            let row = key::Row { id: (self.issued + 1) as i32, user_id, key };
            (
                Durable { keys: self.keys.push(row), urls: self.urls, issued: row.id },
                Ok(ValueView::Key(row)),
            )
        }
    }

    /// The tier with `url` recorded under the identifier `id`.
    pub open spec fn with_url(self, id: i32, url: Seq<char>) -> Durable {
        let row = url::Row { id, url };
        if self.urls.contains(row) {
            self
        } else {
            Durable { keys: self.keys, urls: self.urls.push(row), issued: self.issued }
        }
    }

    /// The tier without `url` under the identifier `id`.
    pub open spec fn without_url(self, id: i32, url: Seq<char>) -> Durable {
        Durable {
            keys: self.keys,
            urls: self.urls.remove_value(url::Row { id, url }),
            issued: self.issued,
        }
    }

    /// The tier without the record of the key with the identifier `id`.
    pub open spec fn without_key(self, id: i32) -> Durable {
        match ids(self.keys).index_of_first(id) {
            Some(i) => Durable { keys: self.keys.remove(i), urls: self.urls, issued: self.issued },
            None => self,
        }
    }

    /// The tier after an order, and the answer to the order.
    pub open spec fn apply(self, command: DbCommandView) -> (Durable, Result<ValueView, Fault>) {
        match command {
            DbCommandView::InsertKey { user_id, key } => self.insert_key(user_id, key),
            DbCommandView::FindKey { key } => (self, Ok(ValueView::MaybeKey(self.find(key)))),
            DbCommandView::FindKeysOfUser { user_id } => (
                self,
                Ok(ValueView::Keys(owned_by(self.keys, user_id))),
            ),
            DbCommandView::InsertUrl { id, url } => (self.with_url(id, url), Ok(ValueView::Unit)),
            DbCommandView::FindUrls { id } => (
                self,
                Ok(ValueView::Urls(urls_under(self.urls, id))),
            ),
            DbCommandView::DeleteUrl { id, url } => (
                self.without_url(id, url),
                Ok(ValueView::Unit),
            ),
            DbCommandView::DeleteKey { id } => (self.without_key(id), Ok(ValueView::Unit)),
        }
    }
}

/// A list without one of its items holds no item twice where the list held
/// none twice, and holds what the list held but that item.
pub proof fn lemma_remove_keeps_distinct<A>(list: Seq<A>, at: int)
    requires
        list.no_duplicates(),
        0 <= at < list.len(),
    ensures
        list.remove(at).no_duplicates(),
        !list.remove(at).contains(list[at]),
        forall|item: A|
            item != list[at] ==> (#[trigger] list.remove(at).contains(item) <==> list.contains(
                item,
            )),
{
    let after = list.remove(at);
    assert forall|a: int, b: int| 0 <= a < after.len() && 0 <= b < after.len() && a
        != b implies after[a] != after[b] by {
        let a0 = if a < at { a } else { a + 1 };
        let b0 = if b < at { b } else { b + 1 };
        assert(after[a] == list[a0]);
        assert(after[b] == list[b0]);
    }
    if after.contains(list[at]) {
        let a = choose|a: int| 0 <= a < after.len() && after[a] == list[at];
        let a0 = if a < at { a } else { a + 1 };
        assert(after[a] == list[a0]);
    }
    assert forall|item: A| item != list[at] implies (#[trigger] after.contains(item)
        <==> list.contains(item)) by {
        if after.contains(item) {
            let a = choose|a: int| 0 <= a < after.len() && after[a] == item;
            let a0 = if a < at { a } else { a + 1 };
            assert(list[a0] == item);
        }
        if list.contains(item) {
            let a0 = choose|a: int| 0 <= a < list.len() && list[a] == item;
            let a = if a0 < at { a0 } else { a0 - 1 };
            assert(after[a] == item);
        }
    }
}

/// The records under an identifier are the records that carry it.
pub proof fn lemma_urls_under(urls: Seq<url::Row>, id: i32)
    ensures
        forall|row: url::Row| #[trigger]
            urls_under(urls, id).contains(row) <==> (urls.contains(row) && row.id == id),
        urls.no_duplicates() ==> url::addresses(urls_under(urls, id)).no_duplicates(),
    decreases urls.len(),
{
    let under = urls_under(urls, id);
    if urls.len() > 0 {
        let front = urls.drop_last();
        let rest = urls_under(front, id);
        let last = urls.last();
        lemma_urls_under(front, id);
        assert forall|row: url::Row| #[trigger] under.contains(row) <==> (urls.contains(row)
            && row.id == id) by {
            assert(rest.contains(row) <==> (front.contains(row) && row.id == id));
            if under.contains(row) {
                let i = choose|i: int| 0 <= i < under.len() && under[i] == row;
                if i < rest.len() {
                    assert(rest[i] == row);
                    assert(rest.contains(row));
                    let j = choose|j: int| 0 <= j < front.len() && front[j] == row;
                    assert(urls[j] == row);
                } else {
                    assert(urls[urls.len() - 1] == row);
                }
            }
            if urls.contains(row) && row.id == id {
                let j = choose|j: int| 0 <= j < urls.len() && urls[j] == row;
                if j < front.len() {
                    assert(front[j] == row);
                    assert(front.contains(row));
                    let i = choose|i: int| 0 <= i < rest.len() && rest[i] == row;
                    assert(under[i] == row);
                } else {
                    assert(under[rest.len() as int] == row);
                }
            }
        }
        if urls.no_duplicates() {
            assert forall|a: int, b: int| 0 <= a < front.len() && 0 <= b < front.len() && a
                != b implies front[a] != front[b] by {
                assert(urls[a] != urls[b]);
            }
            if last.id == id {
                let names = url::addresses(under);
                assert forall|a: int, b: int| 0 <= a < names.len() && 0 <= b < names.len() && a
                    != b implies names[a] != names[b] by {
                    if a < rest.len() && b < rest.len() {
                        assert(url::addresses(rest)[a] != url::addresses(rest)[b]);
                    } else {
                        let low = if a < rest.len() { a } else { b };
                        assert(rest.contains(rest[low]));
                        let j = choose|j: int| 0 <= j < front.len() && front[j] == rest[low];
                        assert(urls[j] != urls[urls.len() - 1]);
                    }
                }
            }
        }
    }
}

/// An order leaves a well-formed tier well-formed.
pub proof fn lemma_apply_keeps_wf(tier: Durable, command: DbCommandView)
    requires
        tier.wf(),
    ensures
        tier.apply(command).0.wf(),
{
    let after = tier.apply(command).0;
    match command {
        DbCommandView::InsertKey { user_id, key } => {
            if after != tier {
                let row = key::Row { id: (tier.issued + 1) as i32, user_id, key };
                assert(key::tokens(after.keys) =~= key::tokens(tier.keys).push(key));
                assert(ids(after.keys) =~= ids(tier.keys).push(row.id));
                assert forall|a: int, b: int|
                    0 <= a < after.keys.len() && 0 <= b < after.keys.len() && a
                        != b implies ids(after.keys)[a] != ids(after.keys)[b] by {
                    if a < tier.keys.len() {
                        assert(tier.keys[a].id <= tier.issued);
                        assert(ids(tier.keys)[a] == tier.keys[a].id);
                    }
                    if b < tier.keys.len() {
                        assert(tier.keys[b].id <= tier.issued);
                        assert(ids(tier.keys)[b] == tier.keys[b].id);
                    }
                }
                assert forall|i: int| 0 <= i < after.keys.len() implies 0 < (
                #[trigger] after.keys[i]).id <= after.issued by {
                    if i < tier.keys.len() {
                        assert(after.keys[i] == tier.keys[i]);
                    }
                }
            }
        },
        DbCommandView::InsertUrl { id, url } => {},
        DbCommandView::DeleteUrl { id, url } => {
            let row = url::Row { id, url };
            tier.urls.index_of_first_ensures(row);
            match tier.urls.index_of_first(row) {
                Some(i) => {
                    lemma_remove_keeps_distinct(tier.urls, i);
                },
                None => {},
            }
        },
        DbCommandView::DeleteKey { id } => {
            ids(tier.keys).index_of_first_ensures(id);
            match ids(tier.keys).index_of_first(id) {
                Some(i) => {
                    lemma_remove_keeps_distinct(ids(tier.keys), i);
                    lemma_remove_keeps_distinct(key::tokens(tier.keys), i);
                    assert(ids(after.keys) =~= ids(tier.keys).remove(i));
                    assert(key::tokens(after.keys) =~= key::tokens(tier.keys).remove(i));
                    assert forall|j: int| 0 <= j < after.keys.len() implies 0 < (
                    #[trigger] after.keys[j]).id <= after.issued by {
                        let j0 = if j < i { j } else { j + 1 };
                        assert(after.keys[j] == tier.keys[j0]);
                    }
                },
                None => {},
            }
        },
        _ => {},
    }
}

} // verus!
