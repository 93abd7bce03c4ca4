//! The ephemeral tier as a mathematical value, and what each order does to it.
use crate::dao::redis::command::RdCommandView;
use crate::value::ValueView;
use vstd::prelude::*;

verus! {

/// A member of an ordered set with its score.
pub struct Entry {
    pub member: Seq<char>,
    pub score: u64,
}

/// A set with `member` in it: the set itself where it already holds the member,
/// else the set with the member at its end.
pub open spec fn placed(set: Seq<Seq<char>>, member: Seq<char>) -> Seq<Seq<char>> {
    if set.contains(member) {
        set
    } else {
        set.push(member)
    }
}

/// A set without `member`.
pub open spec fn dropped(set: Seq<Seq<char>>, member: Seq<char>) -> Seq<Seq<char>> {
    set.remove_value(member)
}

/// The member that the number `chance` draws from a set: none from an empty
/// set, else the member at position `chance` modulo the size.
pub open spec fn drawn(set: Seq<Seq<char>>, chance: int) -> Option<Seq<char>> {
    if set.len() == 0 {
        None
    } else {
        Some(set[chance % (set.len() as int)])
    }
}

/// The members of an ordered set, without their scores.
pub open spec fn members_of(entries: Seq<Entry>) -> Seq<Seq<char>> {
    entries.map_values(|e: Entry| e.member)
}

/// An ordered set in which `member` has the score `score`: a member already
/// held keeps its place and gets the new score, a new one goes to the end.
pub open spec fn scored(entries: Seq<Entry>, member: Seq<char>, score: u64) -> Seq<Entry> {
    match members_of(entries).index_of_first(member) {
        Some(i) => entries.update(i, Entry { member, score }),
        None => entries.push(Entry { member, score }),
    }
}

/// The entries whose score is above `max`, in their order.
pub open spec fn unexpired(entries: Seq<Entry>, max: u64) -> Seq<Entry>
    decreases entries.len(),
{
    if entries.len() == 0 {
        Seq::empty()
    } else {
        let rest = unexpired(entries.drop_last(), max);
        if entries.last().score > max {
            rest.push(entries.last())
        } else {
            rest
        }
    }
}

/// Whether the entry at `other` is ranked before the entry at `at`: by a lower
/// score, or by an earlier place at the same score.
pub open spec fn precedes(entries: Seq<Entry>, other: int, at: int) -> bool {
    entries[other].score < entries[at].score || (entries[other].score == entries[at].score
        && other < at)
}

/// The number of entries among the first `upto` that are ranked before the
/// entry at `at`.
pub open spec fn ahead(entries: Seq<Entry>, at: int, upto: int) -> nat
    decreases upto,
{
    if upto <= 0 {
        0
    } else if precedes(entries, upto - 1, at) {
        ahead(entries, at, upto - 1) + 1
    } else {
        ahead(entries, at, upto - 1)
    }
}

/// The rank of `member` in an ordered set, from zero: none where the set does
/// not hold it.
pub open spec fn rank_in(entries: Seq<Entry>, member: Seq<char>) -> Option<u64> {
    match members_of(entries).index_of_first(member) {
        Some(i) => Some(ahead(entries, i, entries.len() as int) as u64),
        None => None,
    }
}

/// The ephemeral tier: under every name a set of strings, held in the order in
/// which its members came, and an ordered set of scored strings. A name that
/// was never written to holds the empty set.
pub struct Ephemeral {
    pub sets: Map<Seq<char>, Seq<Seq<char>>>,
    pub ranked: Map<Seq<char>, Seq<Entry>>,
}

impl Ephemeral {
    /// The tier with nothing in it.
    pub open spec fn empty() -> Ephemeral {
        Ephemeral {
            sets: Map::total(|name: Seq<char>| Seq::<Seq<char>>::empty()),
            ranked: Map::total(|name: Seq<char>| Seq::<Entry>::empty()),
        }
    }

    /// Every name holds something, and nothing holds a member twice.
    pub open spec fn wf(self) -> bool {
        &&& forall|name: Seq<char>| self.sets.contains_key(name)
        &&& forall|name: Seq<char>| self.ranked.contains_key(name)
        &&& forall|name: Seq<char>| (#[trigger] self.sets[name]).no_duplicates()
        &&& forall|name: Seq<char>| members_of(#[trigger] self.ranked[name]).no_duplicates()
    }

    /// The members of the set named `name`.
    pub open spec fn members(self, name: Seq<char>) -> Seq<Seq<char>> {
        self.sets[name]
    }

    /// The entries of the ordered set named `name`.
    pub open spec fn entries(self, name: Seq<char>) -> Seq<Entry> {
        self.ranked[name]
    }

    /// The tier with `set` under `name`.
    pub open spec fn with_set(self, name: Seq<char>, set: Seq<Seq<char>>) -> Ephemeral {
        Ephemeral { sets: self.sets.insert(name, set), ranked: self.ranked }
    }

    /// The tier with `entries` as the ordered set under `name`.
    pub open spec fn with_ranked(self, name: Seq<char>, entries: Seq<Entry>) -> Ephemeral {
        Ephemeral { sets: self.sets, ranked: self.ranked.insert(name, entries) }
    }

    /// The tier with `member` in the set named `name`.
    pub open spec fn sadd(self, name: Seq<char>, member: Seq<char>) -> Ephemeral {
        self.with_set(name, placed(self.members(name), member))
    }

    /// The tier without `member` in the set named `name`.
    pub open spec fn srem(self, name: Seq<char>, member: Seq<char>) -> Ephemeral {
        self.with_set(name, dropped(self.members(name), member))
    }

    /// The tier with `member` scored `score` in the ordered set named `name`.
    pub open spec fn zadd(self, name: Seq<char>, member: Seq<char>, score: u64) -> Ephemeral {
        self.with_ranked(name, scored(self.entries(name), member, score))
    }

    /// The tier without the entries of the ordered set named `name` whose score
    /// is at most `max`.
    pub open spec fn purge(self, name: Seq<char>, max: u64) -> Ephemeral {
        self.with_ranked(name, unexpired(self.entries(name), max))
    }

    /// The tier after an order, and the answer to the order. The number
    /// `chance` decides a random draw.
    pub open spec fn apply(self, command: RdCommandView, chance: int) -> (Ephemeral, ValueView) {
        match command {
            RdCommandView::Scard { set } => (self, ValueView::Count(self.members(set).len() as u64)),
            RdCommandView::Sadd { set, member } => (self.sadd(set, member), ValueView::Unit),
            RdCommandView::Srem { set, member } => (self.srem(set, member), ValueView::Unit),
            RdCommandView::Sismember { set, member } => (
                self,
                ValueView::Flag(self.members(set).contains(member)),
            ),
            RdCommandView::Smembers { set } => (self, ValueView::Members(self.members(set))),
            RdCommandView::Srandmember { set } => (
                self,
                ValueView::Member(drawn(self.members(set), chance)),
            ),
            RdCommandView::Zadd { zset, member, score } => (
                self.zadd(zset, member, score),
                ValueView::Unit,
            ),
            RdCommandView::Zrembyscore { zset, max } => (self.purge(zset, max), ValueView::Unit),
            RdCommandView::Zrank { zset, member } => (
                self,
                ValueView::Rank(rank_in(self.entries(zset), member)),
            ),
        }
    }
}

/// Placing a member keeps the members distinct, and the member is then held.
pub proof fn lemma_placed(set: Seq<Seq<char>>, member: Seq<char>)
    requires
        set.no_duplicates(),
    ensures
        placed(set, member).no_duplicates(),
        placed(set, member).contains(member),
        forall|other: Seq<char>| set.contains(other) ==> placed(set, member).contains(other),
        forall|other: Seq<char>|
            placed(set, member).contains(other) ==> other == member || set.contains(other),
        placed(placed(set, member), member) == placed(set, member),
{
    let after = placed(set, member);
    if !set.contains(member) {
        assert(after[set.len() as int] == member);
        assert forall|other: Seq<char>| set.contains(other) implies after.contains(other) by {
            let i = choose|i: int| 0 <= i < set.len() && set[i] == other;
            assert(after[i] == other);
        }
    }
}

/// Dropping a member keeps the members distinct, and the member is then not
/// held; every other member stays.
pub proof fn lemma_dropped(set: Seq<Seq<char>>, member: Seq<char>)
    requires
        set.no_duplicates(),
    ensures
        dropped(set, member).no_duplicates(),
        !dropped(set, member).contains(member),
        forall|other: Seq<char>|
            other != member ==> (dropped(set, member).contains(other) <==> set.contains(other)),
        !set.contains(member) ==> dropped(set, member) == set,
{
    set.index_of_first_ensures(member);
    let after = dropped(set, member);
    match set.index_of_first(member) {
        Some(i) => {
            assert(after =~= set.remove(i));
            assert forall|a: int, b: int|
                0 <= a < after.len() && 0 <= b < after.len() && a != b implies after[a]
                != after[b] by {
                let a0 = if a < i { a } else { a + 1 };
                let b0 = if b < i { b } else { b + 1 };
                assert(after[a] == set[a0]);
                assert(after[b] == set[b0]);
            }
            if after.contains(member) {
                let a = choose|a: int| 0 <= a < after.len() && after[a] == member;
                let a0 = if a < i { a } else { a + 1 };
                assert(after[a] == set[a0]);
            }
            assert forall|other: Seq<char>| other != member implies (after.contains(other)
                <==> set.contains(other)) by {
                if after.contains(other) {
                    let a = choose|a: int| 0 <= a < after.len() && after[a] == other;
                    let a0 = if a < i { a } else { a + 1 };
                    assert(set[a0] == other);
                }
                if set.contains(other) {
                    let a0 = choose|a: int| 0 <= a < set.len() && set[a] == other;
                    let a = if a0 < i { a0 } else { a0 - 1 };
                    assert(after[a] == other);
                }
            }
        },
        None => {},
    }
}

/// Every entry that is left by a purge was there before, with a score above the
/// bound; every entry with such a score is left.
pub proof fn lemma_unexpired(entries: Seq<Entry>, max: u64)
    ensures
        forall|e: Entry| #[trigger]
            unexpired(entries, max).contains(e) <==> (entries.contains(e) && e.score > max),
        members_of(entries).no_duplicates() ==> members_of(unexpired(entries, max)).no_duplicates(),
        unexpired(entries, max).len() <= entries.len(),
    decreases entries.len(),
{
    let after = unexpired(entries, max);
    if entries.len() > 0 {
        let front = entries.drop_last();
        let rest = unexpired(front, max);
        let last = entries.last();
        lemma_unexpired(front, max);
        assert forall|e: Entry| #[trigger] after.contains(e) <==> (entries.contains(e) && e.score
            > max) by {
            assert(rest.contains(e) <==> (front.contains(e) && e.score > max));
            if after.contains(e) {
                let i = choose|i: int| 0 <= i < after.len() && after[i] == e;
                if i < rest.len() {
                    assert(rest[i] == e);
                    assert(rest.contains(e));
                    let j = choose|j: int| 0 <= j < front.len() && front[j] == e;
                    assert(entries[j] == e);
                } else {
                    assert(e == last);
                    assert(entries[entries.len() - 1] == e);
                }
            }
            if entries.contains(e) && e.score > max {
                let j = choose|j: int| 0 <= j < entries.len() && entries[j] == e;
                if j < front.len() {
                    assert(front[j] == e);
                    assert(front.contains(e));
                    let i = choose|i: int| 0 <= i < rest.len() && rest[i] == e;
                    assert(after[i] == e);
                } else {
                    assert(after[rest.len() as int] == e);
                }
            }
        }
        if members_of(entries).no_duplicates() {
            assert forall|a: int, b: int|
                0 <= a < front.len() && 0 <= b < front.len() && a != b implies members_of(
                front,
            )[a] != members_of(front)[b] by {
                assert(members_of(entries)[a] != members_of(entries)[b]);
            }
            if last.score > max {
                assert forall|a: int, b: int|
                    0 <= a < after.len() && 0 <= b < after.len() && a != b implies members_of(
                    after,
                )[a] != members_of(after)[b] by {
                    if a < rest.len() && b < rest.len() {
                        assert(members_of(rest)[a] != members_of(rest)[b]);
                    } else {
                        let low = if a < rest.len() { a } else { b };
                        assert(rest.contains(rest[low]));
                        let j = choose|j: int| 0 <= j < front.len() && front[j] == rest[low];
                        assert(members_of(entries)[j] != members_of(entries)[entries.len() - 1]);
                    }
                }
            }
        }
    }
}

/// Scoring a member keeps the members distinct; the member then has that
/// score, and where the members were distinct no other score.
pub proof fn lemma_scored(entries: Seq<Entry>, member: Seq<char>, score: u64)
    requires
        members_of(entries).no_duplicates(),
    ensures
        members_of(scored(entries, member, score)).no_duplicates(),
        scored(entries, member, score).contains(Entry { member, score }),
        forall|e: Entry|
            scored(entries, member, score).contains(e) && e.member == member ==> e.score == score,
        forall|e: Entry|
            e.member != member ==> (scored(entries, member, score).contains(e)
                <==> entries.contains(e)),
{
    let names = members_of(entries);
    let after = scored(entries, member, score);
    let fresh = Entry { member, score };
    names.index_of_first_ensures(member);
    match names.index_of_first(member) {
        Some(i) => {
            assert(after[i] == fresh);
            assert forall|a: int, b: int|
                0 <= a < after.len() && 0 <= b < after.len() && a != b implies members_of(
                after,
            )[a] != members_of(after)[b] by {
                assert(members_of(after)[a] == names[a]);
                assert(members_of(after)[b] == names[b]);
            }
            assert forall|e: Entry| after.contains(e) && e.member == member implies e.score
                == score by {
                let a = choose|a: int| 0 <= a < after.len() && after[a] == e;
                if a != i {
                    assert(names[a] == member);
                }
            }
            assert forall|e: Entry| e.member != member implies (after.contains(e)
                <==> entries.contains(e)) by {
                if after.contains(e) {
                    let a = choose|a: int| 0 <= a < after.len() && after[a] == e;
                    assert(entries[a] == e);
                }
                if entries.contains(e) {
                    let a = choose|a: int| 0 <= a < entries.len() && entries[a] == e;
                    assert(names[a] == e.member);
                    assert(after[a] == e);
                }
            }
        },
        None => {
            assert(after[entries.len() as int] == fresh);
            assert forall|a: int, b: int|
                0 <= a < after.len() && 0 <= b < after.len() && a != b implies members_of(
                after,
            )[a] != members_of(after)[b] by {
                if a < entries.len() {
                    assert(members_of(after)[a] == names[a]);
                    assert(names.contains(names[a]));
                }
                if b < entries.len() {
                    assert(members_of(after)[b] == names[b]);
                    assert(names.contains(names[b]));
                }
            }
            assert forall|e: Entry| after.contains(e) && e.member == member implies e.score
                == score by {
                let a = choose|a: int| 0 <= a < after.len() && after[a] == e;
                if a < entries.len() {
                    assert(names[a] == member);
                    assert(names.contains(member));
                }
            }
            assert forall|e: Entry| e.member != member implies (after.contains(e)
                <==> entries.contains(e)) by {
                if after.contains(e) {
                    let a = choose|a: int| 0 <= a < after.len() && after[a] == e;
                    assert(entries[a] == e);
                }
                if entries.contains(e) {
                    let a = choose|a: int| 0 <= a < entries.len() && entries[a] == e;
                    assert(after[a] == e);
                }
            }
        },
    }
}

/// An order leaves a well-formed tier well-formed.
pub proof fn lemma_apply_keeps_wf(tier: Ephemeral, command: RdCommandView, chance: int)
    requires
        tier.wf(),
    ensures
        tier.apply(command, chance).0.wf(),
{
    let after = tier.apply(command, chance).0;
    match command {
        RdCommandView::Sadd { set, member } => {
            lemma_placed(tier.members(set), member);
            assert forall|name: Seq<char>| (#[trigger] after.sets[name]).no_duplicates() by {
                if name != set {
                    assert(after.sets[name] == tier.sets[name]);
                }
            }
        },
        RdCommandView::Srem { set, member } => {
            lemma_dropped(tier.members(set), member);
            assert forall|name: Seq<char>| (#[trigger] after.sets[name]).no_duplicates() by {
                if name != set {
                    assert(after.sets[name] == tier.sets[name]);
                }
            }
        },
        RdCommandView::Zadd { zset, member, score } => {
            lemma_scored(tier.entries(zset), member, score);
            assert forall|name: Seq<char>| members_of(
                #[trigger] after.ranked[name],
            ).no_duplicates() by {
                if name != zset {
                    assert(after.ranked[name] == tier.ranked[name]);
                }
            }
        },
        RdCommandView::Zrembyscore { zset, max } => {
            lemma_unexpired(tier.entries(zset), max);
            assert forall|name: Seq<char>| members_of(
                #[trigger] after.ranked[name],
            ).no_duplicates() by {
                if name != zset {
                    assert(after.ranked[name] == tier.ranked[name]);
                }
            }
        },
        _ => {},
    }
}

} // verus!
