//! A map that holds its entries in the order of their keys.

use crate::order::{
    lemma_precedes_irreflexive, lemma_precedes_transitive, precedes, Key, Rank,
};
use vstd::prelude::*;

verus! {

/// A map from keys to values, as the sequence of its entries in strictly ascending key order.
#[derive(Debug)]
pub struct SortedMap<K: Key, T> {
    entries: Vec<(K, T)>,
}

/// The keys of `entries` ascend strictly: they are in order, and none occurs twice.
pub open spec fn ascending<K: Key, T>(entries: Seq<(K::V, T)>) -> bool {
    forall|i: int, j: int|
        #![trigger entries[i], entries[j]]
        0 <= i < j < entries.len() ==> precedes(K::code(entries[i].0), K::code(entries[j].0))
}

/// `key` is the key of one of `entries`.
pub open spec fn has_key<K: Key, T>(entries: Seq<(K::V, T)>, key: K::V) -> bool {
    exists|i: int| 0 <= i < entries.len() && (#[trigger] entries[i]).0 == key
}

/// The map that `entries` stand for.
pub open spec fn as_map<K: Key, T>(entries: Seq<(K::V, T)>) -> Map<K::V, T> {
    Map::new(
        |key: K::V| has_key::<K, T>(entries, key),
        |key: K::V|
            entries[choose|i: int| 0 <= i < entries.len() && (#[trigger] entries[i]).0 == key].1,
    )
}

impl<K: Key, T> View for SortedMap<K, T> {
    type V = Seq<(K::V, T)>;

    /// The entries in key order, each key by its view.
    closed spec fn view(&self) -> Seq<(K::V, T)> {
        Seq::new(self.entries@.len(), |i: int| (self.entries@[i].0@, self.entries@[i].1))
    }
}

/// Ascending entries hold at most one entry for a key.
pub proof fn lemma_ascending_distinct<K: Key, T>(entries: Seq<(K::V, T)>, i: int, j: int)
    requires
        ascending::<K, T>(entries),
        0 <= i < entries.len(),
        0 <= j < entries.len(),
        entries[i].0 == entries[j].0,
    ensures
        i == j,
{
    lemma_precedes_irreflexive(K::code(entries[i].0));
    if i < j {
        assert(precedes(K::code(entries[i].0), K::code(entries[j].0)));
    }
    if j < i {
        assert(precedes(K::code(entries[j].0), K::code(entries[i].0)));
    }
}

/// The map that ascending entries stand for takes the key of each entry to its value.
pub proof fn lemma_as_map_at<K: Key, T>(entries: Seq<(K::V, T)>, i: int)
    requires
        ascending::<K, T>(entries),
        0 <= i < entries.len(),
    ensures
        as_map::<K, T>(entries).contains_key(entries[i].0),
        as_map::<K, T>(entries)[entries[i].0] == entries[i].1,
{
    let key = entries[i].0;
    assert(entries[i].0 == key);
    let j = choose|j: int| 0 <= j < entries.len() && (#[trigger] entries[j]).0 == key;
    lemma_ascending_distinct::<K, T>(entries, i, j);
}

/// `key` stands after the first `at` of `entries` and before the others.
spec fn belongs_at<K: Key, T>(entries: Seq<(K::V, T)>, key: K::V, at: int) -> bool {
    &&& 0 <= at <= entries.len()
    &&& forall|i: int|
        0 <= i < at ==> precedes(K::code((#[trigger] entries[i]).0), K::code(key))
    &&& forall|i: int|
        at <= i < entries.len() ==> precedes(K::code(key), K::code((#[trigger] entries[i]).0))
}

proof fn lemma_absent<K: Key, T>(entries: Seq<(K::V, T)>, key: K::V, at: int)
    requires
        belongs_at::<K, T>(entries, key, at),
    ensures
        !has_key::<K, T>(entries, key),
{
    lemma_precedes_irreflexive(K::code(key));
}

/// An entry put where its key belongs keeps the entries ascending and adds it to the map.
proof fn lemma_insert_at<K: Key, T>(entries: Seq<(K::V, T)>, key: K::V, value: T, at: int)
    requires
        ascending::<K, T>(entries),
        belongs_at::<K, T>(entries, key, at),
    ensures
        ascending::<K, T>(entries.insert(at, (key, value))),
        as_map::<K, T>(entries.insert(at, (key, value))) == as_map::<K, T>(entries).insert(
            key,
            value,
        ),
{
    let after = entries.insert(at, (key, value));
    assert forall|i: int, j: int|
        #![trigger after[i], after[j]]
        0 <= i < j < after.len() implies precedes(K::code(after[i].0), K::code(after[j].0)) by {
        if i < at && j > at {
            assert(entries[i] == after[i] && entries[j - 1] == after[j]);
        } else if i < at && j < at {
            assert(entries[i] == after[i] && entries[j] == after[j]);
        } else if i > at {
            assert(entries[i - 1] == after[i] && entries[j - 1] == after[j]);
        } else if i == at {
            assert(entries[j - 1] == after[j]);
        } else {
            assert(entries[i] == after[i]);
        }
    }
    let before_map = as_map::<K, T>(entries);
    let after_map = as_map::<K, T>(after);
    assert forall|k: K::V| after_map.contains_key(k) <==> before_map.insert(
        key,
        value,
    ).contains_key(k) by {
        if has_key::<K, T>(after, k) {
            let i = choose|i: int| 0 <= i < after.len() && (#[trigger] after[i]).0 == k;
            if i < at {
                assert(entries[i].0 == k);
            } else if i > at {
                assert(entries[i - 1].0 == k);
            }
        }
        if has_key::<K, T>(entries, k) {
            let i = choose|i: int| 0 <= i < entries.len() && (#[trigger] entries[i]).0 == k;
            if i < at {
                assert(after[i].0 == k);
            } else {
                assert(after[i + 1].0 == k);
            }
        }
        assert(after[at].0 == key);
    }
    assert forall|k: K::V| after_map.contains_key(k) implies after_map[k] == before_map.insert(
        key,
        value,
    )[k] by {
        let i = choose|i: int| 0 <= i < after.len() && (#[trigger] after[i]).0 == k;
        lemma_as_map_at::<K, T>(after, i);
        if i < at {
            lemma_absent::<K, T>(entries, key, at);
            assert(entries[i] == after[i]);
            lemma_as_map_at::<K, T>(entries, i);
        } else if i > at {
            lemma_absent::<K, T>(entries, key, at);
            assert(entries[i - 1] == after[i]);
            lemma_as_map_at::<K, T>(entries, i - 1);
        }
    }
    assert(after_map =~= before_map.insert(key, value));
}

/// A new value for an entry keeps the entries ascending and replaces it in the map.
proof fn lemma_replace_at<K: Key, T>(entries: Seq<(K::V, T)>, value: T, at: int)
    requires
        ascending::<K, T>(entries),
        0 <= at < entries.len(),
    ensures
        ascending::<K, T>(entries.update(at, (entries[at].0, value))),
        as_map::<K, T>(entries.update(at, (entries[at].0, value))) == as_map::<K, T>(
            entries,
        ).insert(entries[at].0, value),
{
    let key = entries[at].0;
    let after = entries.update(at, (key, value));
    assert forall|i: int, j: int|
        #![trigger after[i], after[j]]
        0 <= i < j < after.len() implies precedes(K::code(after[i].0), K::code(after[j].0)) by {
        assert(entries[i].0 == after[i].0 && entries[j].0 == after[j].0);
    }
    let before_map = as_map::<K, T>(entries);
    let after_map = as_map::<K, T>(after);
    assert forall|k: K::V| after_map.contains_key(k) <==> before_map.insert(
        key,
        value,
    ).contains_key(k) by {
        if has_key::<K, T>(after, k) {
            let i = choose|i: int| 0 <= i < after.len() && (#[trigger] after[i]).0 == k;
            assert(entries[i].0 == k);
        }
        if has_key::<K, T>(entries, k) {
            let i = choose|i: int| 0 <= i < entries.len() && (#[trigger] entries[i]).0 == k;
            assert(after[i].0 == k);
        }
        assert(after[at].0 == key);
    }
    assert forall|k: K::V| after_map.contains_key(k) implies after_map[k] == before_map.insert(
        key,
        value,
    )[k] by {
        let i = choose|i: int| 0 <= i < after.len() && (#[trigger] after[i]).0 == k;
        lemma_as_map_at::<K, T>(after, i);
        lemma_as_map_at::<K, T>(entries, i);
        if i != at && k == key {
            lemma_ascending_distinct::<K, T>(entries, i, at);
        }
    }
    assert(after_map =~= before_map.insert(key, value));
}

proof fn lemma_first_keys_determined<K: Key, T, U>(
    a: Seq<(K::V, T)>,
    b: Seq<(K::V, U)>,
    n: int,
)
    requires
        ascending::<K, T>(a),
        ascending::<K, U>(b),
        forall|key: K::V| #[trigger] has_key::<K, T>(a, key) <==> has_key::<K, U>(b, key),
        0 <= n <= a.len(),
        n <= b.len(),
    ensures
        forall|i: int| 0 <= i < n ==> (#[trigger] a[i]).0 == b[i].0,
    decreases n,
{
    if n > 0 {
        lemma_first_keys_determined::<K, T, U>(a, b, n - 1);
        let i = n - 1;
        let (x, y) = (a[i].0, b[i].0);
        assert(a[i].0 == x && b[i].0 == y);
        assert(has_key::<K, T>(a, x) && has_key::<K, U>(b, y));
        assert(has_key::<K, T>(a, y) && has_key::<K, U>(b, x));
        let j = choose|j: int| 0 <= j < b.len() && (#[trigger] b[j]).0 == x;
        let k = choose|k: int| 0 <= k < a.len() && (#[trigger] a[k]).0 == y;
        if j < i {
            assert(a[j].0 == x);
            lemma_ascending_distinct::<K, T>(a, i, j);
        }
        if k < i {
            assert(a[k].0 == b[k].0);
            lemma_ascending_distinct::<K, U>(b, i, k);
        }
        if x != y {
            assert(i < j && i < k);
            assert(precedes(K::code(b[i].0), K::code(b[j].0)));
            assert(precedes(K::code(a[i].0), K::code(a[k].0)));
            lemma_precedes_transitive(K::code(x), K::code(y), K::code(x));
            lemma_precedes_irreflexive(K::code(x));
        }
    }
}

/// Two maps with the same keys hold them in the same order, whatever the values.
pub proof fn lemma_keys_determined<K: Key, T, U>(a: Seq<(K::V, T)>, b: Seq<(K::V, U)>)
    requires
        ascending::<K, T>(a),
        ascending::<K, U>(b),
        forall|key: K::V| #[trigger] has_key::<K, T>(a, key) <==> has_key::<K, U>(b, key),
    ensures
        a.len() == b.len(),
        forall|i: int| 0 <= i < a.len() ==> (#[trigger] a[i]).0 == b[i].0,
{
    if a.len() < b.len() {
        let n = a.len() as int;
        lemma_first_keys_determined::<K, T, U>(a, b, n);
        let key = b[n].0;
        assert(has_key::<K, U>(b, key));
        assert(has_key::<K, T>(a, key));
        let k = choose|k: int| 0 <= k < a.len() && (#[trigger] a[k]).0 == key;
        assert(a[k].0 == b[k].0);
        lemma_ascending_distinct::<K, U>(b, n, k);
    } else {
        let n = b.len() as int;
        lemma_first_keys_determined::<K, T, U>(a, b, n);
        if b.len() < a.len() {
            let key = a[n].0;
            assert(has_key::<K, T>(a, key));
            assert(has_key::<K, U>(b, key));
            let k = choose|k: int| 0 <= k < b.len() && (#[trigger] b[k]).0 == key;
            assert(a[k].0 == b[k].0);
            lemma_ascending_distinct::<K, T>(a, n, k);
        }
    }
}

/// The entries of a map follow from what it maps to what: they are the same however the map was
/// filled.
pub proof fn law_entries_follow_from_map<K: Key, T>(a: Seq<(K::V, T)>, b: Seq<(K::V, T)>)
    requires
        ascending::<K, T>(a),
        ascending::<K, T>(b),
        as_map::<K, T>(a) == as_map::<K, T>(b),
    ensures
        a == b,
{
    assert forall|key: K::V| #[trigger] has_key::<K, T>(a, key) <==> has_key::<K, T>(b, key) by {
        assert(as_map::<K, T>(a).contains_key(key) <==> has_key::<K, T>(a, key));
        assert(as_map::<K, T>(b).contains_key(key) <==> has_key::<K, T>(b, key));
    }
    lemma_keys_determined::<K, T, T>(a, b);
    assert forall|i: int| 0 <= i < a.len() implies a[i] == b[i] by {
        assert(a[i].0 == b[i].0);
        lemma_as_map_at::<K, T>(a, i);
        lemma_as_map_at::<K, T>(b, i);
    }
    assert(a =~= b);
}

impl<K: Key, T> SortedMap<K, T> {
    #[verifier::type_invariant]
    pub open spec fn well_formed(self) -> bool {
        ascending::<K, T>(self@)
    }

    /// The map that these entries stand for.
    pub open spec fn map(self) -> Map<K::V, T> {
        as_map::<K, T>(self@)
    }

    /// Each key in the view is the view of a key.
    pub proof fn lemma_keys_are_views(self, index: int)
        requires
            0 <= index < self@.len(),
        ensures
            exists|key: K| #[trigger] key@ == self@[index].0,
    {
        assert(self.entries@[index].0@ == self@[index].0);
    }

    /// An empty map.
    pub fn new() -> (map: Self)
        ensures
            map@ == Seq::<(K::V, T)>::empty(),
    {
        let map = SortedMap { entries: Vec::new() };
        assert(map@ =~= Seq::<(K::V, T)>::empty());
        map
    }

    /// The number of entries.
    pub fn len(&self) -> (len: usize)
        ensures
            len == self@.len(),
    {
        self.entries.len()
    }

    /// The key of the entry at `index` in key order.
    pub fn key_at(&self, index: usize) -> (key: &K)
        requires
            index < self@.len(),
        ensures
            key@ == self@[index as int].0,
    {
        &self.entries[index].0
    }

    /// The value of the entry at `index` in key order.
    pub fn value_at(&self, index: usize) -> (value: &T)
        requires
            index < self@.len(),
        ensures
            *value == self@[index as int].1,
    {
        &self.entries[index].1
    }

    /// Where `key` stands: `Ok` with the index of its entry, or `Err` with the index at which an
    /// entry for it belongs.
    fn find(&self, key: &K) -> (found: Result<usize, usize>)
        ensures
            match found {
                Ok(at) => at < self@.len() && self@[at as int].0 == key@,
                Err(at) => belongs_at::<K, T>(self@, key@, at as int),
            },
    {
        proof {
            use_type_invariant(self);
        }
        let mut low: usize = 0;
        let mut high: usize = self.entries.len();
        while low < high
            invariant
                ascending::<K, T>(self@),
                low <= high <= self@.len(),
                self@.len() == self.entries@.len(),
                forall|i: int|
                    0 <= i < low ==> precedes(
                        K::code((#[trigger] self@[i]).0),
                        K::code(key@),
                    ),
                forall|i: int|
                    high <= i < self@.len() ==> precedes(
                        K::code(key@),
                        K::code((#[trigger] self@[i]).0),
                    ),
            decreases high - low,
        {
            let middle: usize = low + (high - low) / 2;
            let ghost here = self@[middle as int].0;
            match self.entries[middle].0.rank(key) {
                Rank::Before => {
                    assert forall|i: int| 0 <= i <= middle implies precedes(
                        K::code((#[trigger] self@[i]).0),
                        K::code(key@),
                    ) by {
                        if i < middle {
                            assert(self@[middle as int].0 == here);
                            lemma_precedes_transitive(
                                K::code(self@[i].0),
                                K::code(here),
                                K::code(key@),
                            );
                        }
                    }
                    low = middle + 1;
                },
                Rank::Same => {
                    return Ok(middle);
                },
                Rank::After => {
                    assert forall|i: int| middle <= i < self@.len() implies precedes(
                        K::code(key@),
                        K::code((#[trigger] self@[i]).0),
                    ) by {
                        if i > middle {
                            assert(self@[middle as int].0 == here);
                            lemma_precedes_transitive(
                                K::code(key@),
                                K::code(here),
                                K::code(self@[i].0),
                            );
                        }
                    }
                    high = middle;
                },
            }
        }
        Err(low)
    }

    /// The value that `key` is mapped to.
    pub fn get(&self, key: &K) -> (value: Option<&T>)
        ensures
            match value {
                Some(value) => self.map().contains_key(key@) && *value == self.map()[key@],
                None => !self.map().contains_key(key@),
            },
    {
        proof {
            use_type_invariant(self);
        }
        match self.find(key) {
            Ok(at) => {
                proof {
                    lemma_as_map_at::<K, T>(self@, at as int);
                }
                Some(&self.entries[at].1)
            },
            Err(at) => {
                proof {
                    lemma_absent::<K, T>(self@, key@, at as int);
                }
                None
            },
        }
    }

    /// Maps `key` to `value`, in place of what it was mapped to. An entry whose key stands after
    /// all others becomes the last one.
    pub fn insert(&mut self, key: K, value: T)
        ensures
            final(self).map() == old(self).map().insert(key@, value),
            ascending::<K, T>(final(self)@),
            (forall|i: int|
                0 <= i < old(self)@.len() ==> precedes(
                    K::code((#[trigger] old(self)@[i]).0),
                    K::code(key@),
                )) ==> final(self)@ == old(self)@.push((key@, value)),
    {
        proof {
            use_type_invariant(&*self);
        }
        let found = self.find(&key);
        let ghost before = self@;
        let mut entries: Vec<(K, T)> = Vec::new();
        std::mem::swap(&mut entries, &mut self.entries);
        match found {
            Ok(at) => {
                proof {
                    lemma_replace_at::<K, T>(before, value, at as int);
                    lemma_precedes_irreflexive(K::code(key@));
                    assert(before[at as int].0 == key@);
                }
                let ghost k = key@;
                entries.set(at, (key, value));
                assert(Seq::new(entries@.len(), |i: int| (entries@[i].0@, entries@[i].1))
                    =~= before.update(at as int, (k, value)));
            },
            Err(at) => {
                proof {
                    lemma_insert_at::<K, T>(before, key@, value, at as int);
                    if forall|i: int|
                        0 <= i < before.len() ==> precedes(
                            K::code((#[trigger] before[i]).0),
                            K::code(key@),
                        ) {
                        if at < before.len() {
                            let code = K::code(before[at as int].0);
                            lemma_precedes_transitive(code, K::code(key@), code);
                            lemma_precedes_irreflexive(code);
                        }
                        assert(before.insert(at as int, (key@, value)) =~= before.push(
                            (key@, value),
                        ));
                    }
                }
                let ghost k = key@;
                entries.insert(at, (key, value));
                assert(Seq::new(entries@.len(), |i: int| (entries@[i].0@, entries@[i].1))
                    =~= before.insert(at as int, (k, value)));
            },
        }
        self.entries = entries;
    }
}

/// One text comes before another: at the first place where they differ it has the smaller
/// character, or it ends there.
pub open spec fn comes_before(a: Seq<char>, b: Seq<char>) -> bool {
    exists|k: int|
        #![trigger b[k]]
        0 <= k < b.len() && k <= a.len() && (forall|m: int| 0 <= m < k ==> #[trigger] a[m] == b[m])
            && (k == a.len() || (a[k] as int) < (b[k] as int))
}

/// The entries of a map with texts as keys stand in the order of the texts, character by character.
pub proof fn law_texts_are_in_order<T>(map: SortedMap<String, T>, i: int, j: int)
    requires
        map.well_formed(),
        0 <= i < j < map@.len(),
    ensures
        comes_before(map@[i].0, map@[j].0),
{
    let (a, b) = (map@[i].0, map@[j].0);
    let (s, t) = (crate::order::text_code(a), crate::order::text_code(b));
    assert(precedes(s, t));
    let k = choose|k: int| #[trigger] crate::order::precedes_at(s, t, k);
    assert forall|m: int| 0 <= m < k implies #[trigger] a[m] == b[m] by {
        assert(s[m] == t[m]);
        assert(s[m] == a[m] as int && t[m] == b[m] as int);
    }
    if k < a.len() {
        assert(s[k] == a[k] as int);
    }
    assert(t[k] == b[k] as int);
    assert(b[k] == b[k]);
}

/// The entries of a map with bytes as keys stand in the order of the bytes, one by one.
pub proof fn law_bytes_are_in_order<T>(
    map: SortedMap<crate::primitives::Address, T>,
    i: int,
    j: int,
)
    requires
        map.well_formed(),
        0 <= i < j < map@.len(),
    ensures
        exists|k: int|
            #![trigger map@[j].0[k]]
            0 <= k < map@[j].0.len() && k <= map@[i].0.len() && (forall|m: int|
                0 <= m < k ==> #[trigger] map@[i].0[m] == map@[j].0[m]) && (k == map@[i].0.len()
                || map@[i].0[k] < map@[j].0[k]),
{
    let (a, b) = (map@[i].0, map@[j].0);
    let (s, t) = (crate::order::bytes_code(a), crate::order::bytes_code(b));
    assert(precedes(s, t));
    let k = choose|k: int| #[trigger] crate::order::precedes_at(s, t, k);
    assert forall|m: int| 0 <= m < k implies #[trigger] a[m] == b[m] by {
        assert(s[m] == t[m]);
        assert(s[m] == a[m] as int && t[m] == b[m] as int);
    }
    if k < a.len() {
        assert(s[k] == a[k] as int);
    }
    assert(t[k] == b[k] as int);
    assert(map@[j].0[k] == b[k]);
}

} // verus!
