//! Ordered tables keyed by raw identifiers.
use std::collections::BTreeMap;
use vstd::prelude::*;
use vstd::std_specs::cmp::OrdSpec;
use vstd::std_specs::iter::IteratorSpec;

verus! {

/// A push adds one member.
pub proof fn lemma_pushed<T>(items: Seq<T>, item: T)
    ensures
        forall|other: T| #[trigger]
            items.push(item).contains(other) <==> items.contains(other) || other == item,
{
    let grown = items.push(item);
    assert forall|other: T| #[trigger] grown.contains(other) <==> items.contains(other) || other
        == item by {
        if items.contains(other) {
            assert(grown[items.index_of(other)] == other);
        }
        if other == item {
            assert(grown[items.len() as int] == item);
        }
        if grown.contains(other) {
            let at = grown.index_of(other);
            if at < items.len() {
                assert(items[at] == other);
            }
        }
    }
}

/// `keys` names the members of `members`, each once, in ascending order.
pub open spec fn lists(keys: Seq<u64>, members: Set<u64>) -> bool {
    &&& forall|i: int, j: int| 0 <= i < j < keys.len() ==> keys[i] < keys[j]
    &&& forall|key: u64| #[trigger] keys.contains(key) <==> members.contains(key)
}

/// Filtering a prefix that grew by one key keeps that key exactly when it passes.
pub proof fn lemma_filter_step(keys: Seq<u64>, i: int, pass: spec_fn(u64) -> bool)
    requires
        0 <= i < keys.len(),
    ensures
        keys.take(i + 1).filter(pass) == (if pass(keys[i]) {
            keys.take(i).filter(pass).push(keys[i])
        } else {
            keys.take(i).filter(pass)
        }),
{
    reveal(Seq::filter);
    assert(keys.take(i + 1).drop_last() =~= keys.take(i));
}

/// The members that pass are listed by the keys that pass.
pub proof fn lemma_filtered_lists(keys: Seq<u64>, members: Set<u64>, pass: spec_fn(u64) -> bool)
    requires
        lists(keys, members),
    ensures
        lists(keys.filter(pass), members.filter(pass)),
{
    lemma_filter_ascends(keys, pass);
    assert forall|key: u64| #[trigger]
        keys.filter(pass).contains(key) <==> members.filter(pass).contains(key) by {
        broadcast use vstd::seq_lib::group_filter_ensures;

        if keys.filter(pass).contains(key) {
            let at = keys.filter(pass).index_of(key);
            assert(keys.contains(keys.filter(pass)[at]));
        }
        if members.filter(pass).contains(key) {
            assert(keys.contains(key));
            let at = keys.index_of(key);
            assert(keys[at] == key);
        }
    }
}

/// Filtering keeps ascending keys ascending and invents none.
proof fn lemma_filter_ascends(keys: Seq<u64>, pass: spec_fn(u64) -> bool)
    requires
        forall|i: int, j: int| 0 <= i < j < keys.len() ==> keys[i] < keys[j],
    ensures
        forall|i: int, j: int|
            0 <= i < j < keys.filter(pass).len() ==> keys.filter(pass)[i] < keys.filter(pass)[j],
        forall|i: int|
            0 <= i < keys.filter(pass).len() ==> keys.contains(#[trigger] keys.filter(pass)[i]),
    decreases keys.len(),
{
    reveal(Seq::filter);
    if keys.len() > 0 {
        let rest = keys.drop_last();
        lemma_filter_ascends(rest, pass);
        assert forall|i: int| 0 <= i < keys.filter(pass).len() implies keys.contains(
            #[trigger] keys.filter(pass)[i],
        ) && keys.filter(pass)[i] <= keys.last() by {
            if i < rest.filter(pass).len() {
                assert(rest.contains(rest.filter(pass)[i]));
                let at = rest.index_of(rest.filter(pass)[i]);
                assert(keys[at] == rest.filter(pass)[i]);
            } else {
                assert(keys[keys.len() - 1] == keys.last());
            }
        }
        assert forall|i: int, j: int| 0 <= i < j < keys.filter(pass).len() implies keys.filter(
            pass,
        )[i] < keys.filter(pass)[j] by {
            let kept = rest.filter(pass);
            assert(rest.contains(kept[i]));
            let at = rest.index_of(kept[i]);
            assert(keys[at] < keys[keys.len() - 1]);
        }
    }
}

/// Two listings of the same members are the same sequence.
pub proof fn lemma_listing_is_unique(first: Seq<u64>, second: Seq<u64>, members: Set<u64>)
    requires
        lists(first, members),
        lists(second, members),
    ensures
        first == second,
    decreases first.len(),
{
    if first.len() == 0 {
        if second.len() > 0 {
            assert(second.contains(second[0]));
            assert(first.contains(second[0]));
        }
        assert(first =~= second);
    } else {
        assert(first.contains(first.last()));
        assert(second.contains(first.last()));
        let at = second.index_of(first.last());
        assert(second.contains(second.last()));
        assert(first.contains(second.last()));
        let back = first.index_of(second.last());
        assert(first.last() == second.last()) by {
            assert(second[at] <= second.last());
            assert(first[back] <= first.last());
        }
        lemma_listing_without_last(first, members);
        lemma_listing_without_last(second, members);
        lemma_listing_is_unique(
            first.drop_last(),
            second.drop_last(),
            members.remove(first.last()),
        );
        assert(first =~= first.drop_last().push(first.last()));
        assert(second =~= second.drop_last().push(second.last()));
    }
}

/// Dropping the last key of a listing drops the largest member.
proof fn lemma_listing_without_last(keys: Seq<u64>, members: Set<u64>)
    requires
        lists(keys, members),
        keys.len() > 0,
    ensures
        lists(keys.drop_last(), members.remove(keys.last())),
{
    let rest = keys.drop_last();
    assert forall|key: u64| #[trigger] rest.contains(key) <==> members.remove(
        keys.last(),
    ).contains(key) by {
        if rest.contains(key) {
            let at = rest.index_of(key);
            assert(keys[at] == key);
            assert(keys.contains(key));
        }
        if members.remove(keys.last()).contains(key) {
            assert(keys.contains(key));
            let at = keys.index_of(key);
            assert(keys[at] == key);
            assert(rest[at] == key);
        }
    }
}

/// References to raw identifiers are ordered as the identifiers are.
proof fn lemma_references_are_ordered()
    ensures
        vstd::laws_cmp::obeys_cmp::<&u64>(),
{
    broadcast use vstd::laws_cmp::group_laws_cmp;

    reveal(vstd::laws_cmp::obeys_partial_cmp_spec_properties);
    reveal(vstd::laws_cmp::obeys_cmp_partial_ord);
    reveal(vstd::laws_cmp::obeys_cmp_ord);
    reveal(vstd::laws_eq::obeys_eq_spec_properties);
}

/// A map from raw identifiers to values, walked in ascending key order.
#[derive(Debug)]
pub struct Table<V> {
    entries: BTreeMap<u64, V>,
}

impl<V> View for Table<V> {
    type V = Map<u64, V>;

    closed spec fn view(&self) -> Map<u64, V> {
        self.entries@
    }
}

impl<V> Table<V> {
    /// An empty table.
    #[must_use]
    pub fn new() -> (table: Self)
        ensures
            table@ == Map::<u64, V>::empty(),
    {
        Table { entries: BTreeMap::new() }
    }

    /// Borrows the value stored under `key`.
    #[must_use]
    pub fn get(&self, key: u64) -> (value: Option<&V>)
        ensures
            value is Some <==> self@.contains_key(key),
            value matches Some(found) ==> *found == self@[key],
    {
        self.entries.get(&key)
    }

    /// Whether a value is stored under `key`.
    #[must_use]
    pub fn contains(&self, key: u64) -> (present: bool)
        ensures
            present == self@.contains_key(key),
    {
        self.entries.contains_key(&key)
    }

    /// Stores `value` under `key`, handing back what was there.
    pub fn insert(&mut self, key: u64, value: V) -> (previous: Option<V>)
        ensures
            final(self)@ == old(self)@.insert(key, value),
            previous is Some <==> old(self)@.contains_key(key),
            previous matches Some(found) ==> found == old(self)@[key],
    {
        self.entries.insert(key, value)
    }

    /// Takes out the value stored under `key`.
    pub fn remove(&mut self, key: u64) -> (previous: Option<V>)
        ensures
            final(self)@ == old(self)@.remove(key),
            previous is Some <==> old(self)@.contains_key(key),
            previous matches Some(found) ==> found == old(self)@[key],
    {
        self.entries.remove(&key)
    }

    /// How many values the table holds.
    #[must_use]
    pub fn len(&self) -> (count: usize)
        ensures
            count == self@.dom().len(),
            self@.dom().finite(),
    {
        self.entries.len()
    }

    /// The keys in ascending order.
    #[must_use]
    pub fn keys(&self) -> (keys: Vec<u64>)
        ensures
            lists(keys@, self@.dom()),
            keys@.len() == self@.dom().len(),
    {
        let mut keys: Vec<u64> = Vec::new();
        for key in it: self.entries.keys()
            invariant
                it.seq() == IteratorSpec::remaining(&self.entries.keys()),
                keys@.len() == it.index(),
                forall|i: int| 0 <= i < keys@.len() ==> keys@[i] == *it.seq()[i],
        {
            keys.push(*key);
        }
        proof {
            let walked = IteratorSpec::remaining(&self.entries.keys());
            assert(keys@ == walked.unref());
            lemma_references_are_ordered();
            assert(vstd::std_specs::btree::increasing_seq(walked));
            assert forall|i: int, j: int| 0 <= i < j < keys@.len() implies keys@[i] < keys@[j] by {
                assert(OrdSpec::cmp_spec(&walked[i], &walked[j]) is Less);
            }
            assert forall|key: u64| #[trigger] keys@.contains(key) <==> self@.dom().contains(
                key,
            ) by {
                assert(keys@.to_set().contains(key) <==> self@.dom().contains(key));
            }
        }
        keys
    }
}

} // verus!
