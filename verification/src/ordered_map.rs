//! A map from texts to values that keeps its keys in ascending order.

use vstd::prelude::*;

use crate::text::{text_before, text_less, text_less_asymmetric, text_less_total, text_less_transitive};

verus! {

/// The keys of the entries are in strictly ascending order.
pub open spec fn keys_ascend<T>(entries: Seq<(Seq<char>, T)>) -> bool {
    forall|i: int, j: int|
        0 <= i < j < entries.len() ==> text_less((#[trigger] entries[i]).0, (#[trigger] entries[j]).0)
}

pub open spec fn has_key<T>(entries: Seq<(Seq<char>, T)>, key: Seq<char>) -> bool {
    exists|i: int| 0 <= i < entries.len() && (#[trigger] entries[i]).0 == key
}

pub open spec fn key_position<T>(entries: Seq<(Seq<char>, T)>, key: Seq<char>) -> int {
    choose|i: int| 0 <= i < entries.len() && (#[trigger] entries[i]).0 == key
}

/// The map that a list of entries stands for.
pub open spec fn entries_map<T>(entries: Seq<(Seq<char>, T)>) -> Map<Seq<char>, T> {
    Map::new(
        |key: Seq<char>| has_key(entries, key),
        |key: Seq<char>| entries[key_position(entries, key)].1,
    )
}

/// With ascending keys, every entry is the one that its key finds.
pub proof fn lemma_entry_found<T>(entries: Seq<(Seq<char>, T)>, i: int)
    requires
        keys_ascend(entries),
        0 <= i < entries.len(),
    ensures
        has_key(entries, entries[i].0),
        key_position(entries, entries[i].0) == i,
        entries_map(entries).dom().contains(entries[i].0),
        entries_map(entries)[entries[i].0] == entries[i].1,
{
    let j = key_position(entries, entries[i].0);
    text_less_asymmetric(entries[i].0, entries[i].0);
    assert(0 <= j < entries.len() && entries[j].0 == entries[i].0);
}

pub proof fn lemma_key_found<T>(entries: Seq<(Seq<char>, T)>, key: Seq<char>)
    requires
        keys_ascend(entries),
        entries_map(entries).dom().contains(key),
    ensures
        0 <= key_position(entries, key) < entries.len(),
        entries[key_position(entries, key)] == (key, entries_map(entries)[key]),
{
}

/// Keys stand in the order of texts: of two entries the one that stands first has the key that comes
/// first, and no key stands twice.
pub proof fn keys_stand_in_order<T>(entries: Seq<(Seq<char>, T)>, i: int, j: int)
    requires
        keys_ascend(entries),
        0 <= i < entries.len(),
        0 <= j < entries.len(),
    ensures
        i < j <==> text_less(entries[i].0, entries[j].0),
        i == j <==> entries[i].0 == entries[j].0,
{
    text_less_asymmetric(entries[i].0, entries[j].0);
}

proof fn lemma_insert_entry<T>(entries: Seq<(Seq<char>, T)>, at: int, key: Seq<char>, value: T)
    requires
        keys_ascend(entries),
        0 <= at <= entries.len(),
        forall|i: int| 0 <= i < at ==> text_less((#[trigger] entries[i]).0, key),
        forall|i: int| at <= i < entries.len() ==> text_less(key, (#[trigger] entries[i]).0),
    ensures
        keys_ascend(entries.insert(at, (key, value))),
        entries_map(entries.insert(at, (key, value))) == entries_map(entries).insert(key, value),
        !entries_map(entries).dom().contains(key),
{
    let wider = entries.insert(at, (key, value));
    assert forall|i: int, j: int| 0 <= i < j < wider.len() implies text_less(
        (#[trigger] wider[i]).0,
        (#[trigger] wider[j]).0,
    ) by {
        if i < at && j == at {
            assert(wider[i] == entries[i]);
        } else if i == at {
            assert(wider[j] == entries[j - 1]);
        } else if i < at {
            assert(wider[i] == entries[i]);
            if j < at {
                assert(wider[j] == entries[j]);
            } else {
                assert(wider[j] == entries[j - 1]);
            }
        } else {
            assert(wider[i] == entries[i - 1]);
            assert(wider[j] == entries[j - 1]);
        }
    }
    text_less_asymmetric(key, key);
    if has_key(entries, key) {
        let i = key_position(entries, key);
        assert(entries[i].0 == key);
    }
    assert forall|k: Seq<char>| has_key(wider, k) == (k == key || has_key(entries, k)) by {
        if has_key(entries, k) {
            let i = key_position(entries, k);
            if i < at {
                assert(wider[i].0 == k);
            } else {
                assert(wider[i + 1].0 == k);
            }
        }
        if k == key {
            assert(wider[at].0 == k);
        }
        if has_key(wider, k) {
            let i = key_position(wider, k);
            if i < at {
                assert(entries[i].0 == k);
            } else if i > at {
                assert(entries[i - 1].0 == k);
            }
        }
    }
    assert forall|k: Seq<char>| has_key(wider, k) implies entries_map(wider)[k] == entries_map(
        entries,
    ).insert(key, value)[k] by {
        let i = key_position(wider, k);
        lemma_entry_found(wider, i);
        if i < at {
            assert(wider[i] == entries[i]);
            lemma_entry_found(entries, i);
        } else if i > at {
            assert(wider[i] == entries[i - 1]);
            lemma_entry_found(entries, i - 1);
        }
    }
    assert(entries_map(wider) =~= entries_map(entries).insert(key, value));
}

proof fn lemma_update_entry<T>(entries: Seq<(Seq<char>, T)>, at: int, value: T)
    requires
        keys_ascend(entries),
        0 <= at < entries.len(),
    ensures
        keys_ascend(entries.update(at, (entries[at].0, value))),
        entries_map(entries.update(at, (entries[at].0, value))) == entries_map(entries).insert(
            entries[at].0,
            value,
        ),
{
    let changed = entries.update(at, (entries[at].0, value));
    let key = entries[at].0;
    assert forall|i: int| 0 <= i < changed.len() implies (#[trigger] changed[i]).0 == entries[i].0 by {
    }
    assert forall|i: int, j: int| 0 <= i < j < changed.len() implies text_less(
        (#[trigger] changed[i]).0,
        (#[trigger] changed[j]).0,
    ) by {
        assert(text_less(entries[i].0, entries[j].0));
    }
    assert forall|k: Seq<char>| has_key(changed, k) == has_key(entries, k) by {
        if has_key(entries, k) {
            let i = key_position(entries, k);
            assert(changed[i].0 == k);
        }
        if has_key(changed, k) {
            let i = key_position(changed, k);
            assert(entries[i].0 == k);
        }
    }
    lemma_entry_found(entries, at);
    assert forall|k: Seq<char>| has_key(changed, k) implies entries_map(changed)[k] == entries_map(
        entries,
    ).insert(key, value)[k] by {
        let i = key_position(changed, k);
        lemma_entry_found(changed, i);
        lemma_entry_found(entries, i);
    }
    assert(entries_map(changed) =~= entries_map(entries).insert(key, value));
}

proof fn lemma_remove_entry<T>(entries: Seq<(Seq<char>, T)>, at: int)
    requires
        keys_ascend(entries),
        0 <= at < entries.len(),
    ensures
        keys_ascend(entries.remove(at)),
        entries_map(entries.remove(at)) == entries_map(entries).remove(entries[at].0),
{
    let narrower = entries.remove(at);
    let key = entries[at].0;
    assert forall|i: int, j: int| 0 <= i < j < narrower.len() implies text_less(
        (#[trigger] narrower[i]).0,
        (#[trigger] narrower[j]).0,
    ) by {
        let i0 = if i < at { i } else { i + 1 };
        let j0 = if j < at { j } else { j + 1 };
        assert(text_less(entries[i0].0, entries[j0].0));
    }
    assert forall|k: Seq<char>| has_key(narrower, k) == (k != key && has_key(entries, k)) by {
        if has_key(entries, k) && k != key {
            let i = key_position(entries, k);
            if i < at {
                assert(narrower[i].0 == k);
            } else {
                assert(narrower[i - 1].0 == k);
            }
        }
        if has_key(narrower, k) {
            let i = key_position(narrower, k);
            let i0 = if i < at { i } else { i + 1 };
            assert(entries[i0].0 == k);
            text_less_asymmetric(k, k);
        }
    }
    assert forall|k: Seq<char>| has_key(narrower, k) implies entries_map(narrower)[k]
        == entries_map(entries).remove(key)[k] by {
        let i = key_position(narrower, k);
        lemma_entry_found(narrower, i);
        lemma_entry_found(entries, if i < at { i } else { i + 1 });
    }
    assert(entries_map(narrower) =~= entries_map(entries).remove(key));
}

/// A map has as many keys as its list of entries is long.
pub proof fn lemma_entries_len<T>(entries: Seq<(Seq<char>, T)>)
    requires
        keys_ascend(entries),
    ensures
        entries_map(entries).dom().finite(),
        entries_map(entries).len() == entries.len(),
    decreases entries.len(),
{
    if entries.len() == 0 {
        assert(entries_map(entries).dom() =~= Set::<Seq<char>>::empty());
    } else {
        let at = entries.len() - 1;
        lemma_remove_entry(entries, at);
        lemma_entries_len(entries.remove(at));
        lemma_entry_found(entries, at);
        assert(entries_map(entries).dom() =~= entries_map(entries.remove(at)).dom().insert(
            entries[at].0,
        ));
    }
}

/// Lists of entries with ascending keys that stand for the same map are the same list.
pub proof fn lemma_same_entries<T>(a: Seq<(Seq<char>, T)>, b: Seq<(Seq<char>, T)>)
    requires
        keys_ascend(a),
        keys_ascend(b),
        entries_map(a) == entries_map(b),
    ensures
        a == b,
    decreases a.len(),
{
    lemma_entries_len(a);
    lemma_entries_len(b);
    if a.len() > 0 {
        let last = a.len() - 1;
        let i = key_position(b, a[last].0);
        let j = key_position(a, b[last].0);
        lemma_entry_found(a, last);
        lemma_entry_found(b, last);
        lemma_key_found(b, a[last].0);
        lemma_key_found(a, b[last].0);
        if i < last && j < last {
            text_less_asymmetric(a[last].0, b[last].0);
        }
        assert(a[last] == b[last]);
        lemma_remove_entry(a, last);
        lemma_remove_entry(b, last);
        lemma_same_entries(a.remove(last), b.remove(last));
        assert(a =~= a.remove(last).push(a[last]));
        assert(b =~= b.remove(last).push(b[last]));
    } else {
        assert(a =~= b);
    }
}

/// A map from texts to values that is walked in ascending order of its keys.
#[derive(Debug, PartialEq, Eq)]
pub struct OrderedMap<V> {
    items: Vec<(String, V)>,
}

/// Texts by name, such as the labels and tokens that an agent reports.
pub type MetadataMap = OrderedMap<String>;

pub open spec fn item_entry<V: View>(item: (String, V)) -> (Seq<char>, V::V) {
    (item.0@, item.1@)
}

spec fn item_entries<V: View>(items: Seq<(String, V)>) -> Seq<(Seq<char>, V::V)> {
    Seq::new(items.len(), |i: int| item_entry(items[i]))
}

proof fn lemma_items_ascend<V: View>(items: Seq<(String, V)>)
    requires
        keys_ascend(item_entries(items)),
    ensures
        forall|i: int, j: int|
            0 <= i < j < items.len() ==> text_less(
                (#[trigger] items[i]).0@,
                (#[trigger] items[j]).0@,
            ),
{
    assert forall|i: int, j: int| 0 <= i < j < items.len() implies text_less(
        (#[trigger] items[i]).0@,
        (#[trigger] items[j]).0@,
    ) by {
        assert(text_less(item_entries(items)[i].0, item_entries(items)[j].0));
    }
}

impl<V> OrderedMap<V> {
    #[verifier::type_invariant]
    spec fn ordered(self) -> bool {
        forall|i: int, j: int|
            0 <= i < j < self.items@.len() ==> text_less(
                (#[trigger] self.items@[i]).0@,
                (#[trigger] self.items@[j]).0@,
            )
    }
}

impl<V: View> View for OrderedMap<V> {
    type V = Map<Seq<char>, V::V>;

    open spec fn view(&self) -> Map<Seq<char>, V::V> {
        entries_map(self.entries())
    }
}

impl<V: View> OrderedMap<V> {
    /// The entries in ascending order of their keys.
    pub closed spec fn entries(&self) -> Seq<(Seq<char>, V::V)> {
        item_entries(self.items@)
    }

    pub fn new() -> (map: Self)
        ensures
            map@ == Map::<Seq<char>, V::V>::empty(),
            map.entries() == Seq::<(Seq<char>, V::V)>::empty(),
    {
        let map = OrderedMap { items: Vec::new() };
        proof {
            assert(map.entries() =~= Seq::<(Seq<char>, V::V)>::empty());
            assert(map@ =~= Map::<Seq<char>, V::V>::empty());
        }
        map
    }

    /// The number of keys.
    pub fn len(&self) -> (n: usize)
        ensures
            n == self@.len(),
            n == self.entries().len(),
            self@.dom().finite(),
            keys_ascend(self.entries()),
    {
        proof {
            use_type_invariant(self);
            lemma_entries_len(self.entries());
        }
        self.items.len()
    }

    /// The key at a position of the order.
    pub fn key_at(&self, i: usize) -> (key: &String)
        requires
            i < self.entries().len(),
        ensures
            key@ == self.entries()[i as int].0,
    {
        &self.items[i].0
    }

    /// The value at a position of the order.
    pub fn value_at(&self, i: usize) -> (value: &V)
        requires
            i < self.entries().len(),
        ensures
            value@ == self.entries()[i as int].1,
    {
        &self.items[i].1
    }

    /// The number of keys that come before the given one.
    fn rank(&self, key: &str) -> (at: usize)
        ensures
            at <= self.entries().len(),
            keys_ascend(self.entries()),
            forall|i: int| 0 <= i < at ==> text_less((#[trigger] self.entries()[i]).0, key@),
            forall|i: int|
                at <= i < self.entries().len() ==> !text_less((#[trigger] self.entries()[i]).0, key@),
    {
        proof {
            use_type_invariant(self);
        }
        let mut low: usize = 0;
        let mut high: usize = self.items.len();
        while low < high
            invariant
                low <= high <= self.items.len(),
                keys_ascend(self.entries()),
                forall|i: int| 0 <= i < low ==> text_less((#[trigger] self.entries()[i]).0, key@),
                forall|i: int|
                    high <= i < self.entries().len() ==> !text_less(
                        (#[trigger] self.entries()[i]).0,
                        key@,
                    ),
            decreases high - low,
        {
            let middle = low + (high - low) / 2;
            let before = text_before(self.items[middle].0.as_str(), key);
            proof {
                let entries = self.entries();
                assert(entries[middle as int].0 == self.items@[middle as int].0@);
                if before {
                    assert forall|i: int| 0 <= i <= middle implies text_less(
                        (#[trigger] entries[i]).0,
                        key@,
                    ) by {
                        if i < middle {
                            text_less_transitive(entries[i].0, entries[middle as int].0, key@);
                        }
                    }
                } else {
                    assert forall|i: int| middle <= i < entries.len() implies !text_less(
                        (#[trigger] entries[i]).0,
                        key@,
                    ) by {
                        if middle < i && text_less(entries[i].0, key@) {
                            text_less_transitive(entries[middle as int].0, entries[i].0, key@);
                        }
                    }
                }
            }
            if before {
                low = middle + 1;
            } else {
                high = middle;
            }
        }
        low
    }

    /// The position of a key in the order.
    pub fn find(&self, key: &str) -> (at: Option<usize>)
        ensures
            at is Some <==> self@.dom().contains(key@),
            at matches Some(i) ==> i < self.entries().len() && self.entries()[i as int] == (
                key@,
                self@[key@],
            ),
    {
        let at = self.rank(key);
        if at < self.items.len() && same_key(&self.items[at].0, key) {
            proof {
                assert(self.entries()[at as int].0 == key@);
                lemma_entry_found(self.entries(), at as int);
            }
            Some(at)
        } else {
            proof {
                let entries = self.entries();
                if has_key(entries, key@) {
                    let i = key_position(entries, key@);
                    text_less_asymmetric(key@, key@);
                    assert(!(i < at));
                    assert(at < entries.len());
                    assert(entries[at as int].0 == self.items@[at as int].0@);
                    text_less_total(entries[at as int].0, key@);
                    if i > at {
                        assert(text_less(entries[at as int].0, entries[i].0));
                        text_less_asymmetric(entries[at as int].0, key@);
                    }
                }
            }
            None
        }
    }

    /// The value of a key.
    pub fn get(&self, key: &str) -> (value: Option<&V>)
        ensures
            value is Some <==> self@.dom().contains(key@),
            value matches Some(v) ==> v@ == self@[key@],
    {
        match self.find(key) {
            Some(at) => Some(self.value_at(at)),
            None => None,
        }
    }

    pub fn contains_key(&self, key: &str) -> (r: bool)
        ensures
            r == self@.dom().contains(key@),
    {
        self.find(key).is_some()
    }

    /// Sets the value of a key.
    pub fn insert(&mut self, key: String, value: V)
        ensures
            final(self)@ == old(self)@.insert(key@, value@),
    {
        let ghost before = self.entries();
        let found = self.find(key.as_str());
        let at = self.rank(key.as_str());
        let mut items: Vec<(String, V)> = Vec::new();
        std::mem::swap(&mut items, &mut self.items);
        let ghost given = items@;
        let ghost item = (key, value);
        match found {
            Some(i) => {
                proof {
                    lemma_update_entry(before, i as int, value@);
                    assert(item_entries(given.update(i as int, item)) =~= before.update(
                        i as int,
                        (key@, value@),
                    ));
                }
                items.set(i, (key, value));
            },
            None => {
                proof {
                    assert forall|i: int| at <= i < before.len() implies text_less(
                        key@,
                        (#[trigger] before[i]).0,
                    ) by {
                        text_less_total(before[i].0, key@);
                        lemma_entry_found(before, i);
                    }
                    lemma_insert_entry(before, at as int, key@, value@);
                    assert(item_entries(given.insert(at as int, item)) =~= before.insert(
                        at as int,
                        (key@, value@),
                    ));
                }
                items.insert(at, (key, value));
            },
        }
        proof {
            lemma_items_ascend(items@);
        }
        self.items = items;
    }

    /// Takes a key out of the map.
    pub fn remove(&mut self, key: &str) -> (value: Option<V>)
        ensures
            final(self)@ == old(self)@.remove(key@),
            value is Some <==> old(self)@.dom().contains(key@),
            value matches Some(v) ==> v@ == old(self)@[key@],
    {
        let ghost before = self.entries();
        match self.find(key) {
            Some(at) => {
                proof {
                    use_type_invariant(&*self);
                    lemma_remove_entry(before, at as int);
                }
                let mut items: Vec<(String, V)> = Vec::new();
                std::mem::swap(&mut items, &mut self.items);
                let ghost given = items@;
                proof {
                    assert(item_entries(given.remove(at as int)) =~= before.remove(at as int));
                }
                let (_, value) = items.remove(at);
                self.items = items;
                Some(value)
            },
            None => {
                proof {
                    assert(self@.remove(key@) =~= self@);
                }
                None
            },
        }
    }
}

fn same_key(a: &String, b: &str) -> (r: bool)
    ensures
        r == (a@ == b@),
{
    *a == b.to_owned()
}

impl Clone for OrderedMap<String> {
    fn clone(&self) -> (copy: Self)
        ensures
            copy@ == self@,
            copy.entries() == self.entries(),
    {
        proof {
            use_type_invariant(self);
        }
        let mut items: Vec<(String, String)> = Vec::new();
        let mut i: usize = 0;
        while i < self.items.len()
            invariant
                i <= self.items.len(),
                item_entries(items@) == item_entries(self.items@).take(i as int),
            decreases self.items.len() - i,
        {
            let ghost before = items@;
            items.push((self.items[i].0.clone(), self.items[i].1.clone()));
            proof {
                assert(item_entries(items@) =~= item_entries(before).push(
                    item_entry(self.items@[i as int]),
                ));
            }
            i = i + 1;
        }
        proof {
            assert(item_entries(items@) =~= item_entries(self.items@));
            lemma_items_ascend(items@);
        }
        OrderedMap { items }
    }
}

/// Whether two maps hold the same texts under the same keys.
pub fn same_texts(a: &MetadataMap, b: &MetadataMap) -> (r: bool)
    ensures
        r == (a@ == b@),
{
    let n = a.len();
    if n != b.len() {
        return false;
    }
    let mut i: usize = 0;
    while i < n
        invariant
            i <= n,
            n == a.entries().len(),
            n == b.entries().len(),
            keys_ascend(a.entries()),
            keys_ascend(b.entries()),
            a.entries().take(i as int) =~= b.entries().take(i as int),
        decreases n - i,
    {
        if !(*a.key_at(i) == *b.key_at(i)) || !(*a.value_at(i) == *b.value_at(i)) {
            proof {
                if a@ == b@ {
                    lemma_same_entries(a.entries(), b.entries());
                }
            }
            return false;
        }
        proof {
            assert(a.entries().take(i + 1) =~= a.entries().take(i as int).push(
                a.entries()[i as int],
            ));
            assert(b.entries().take(i + 1) =~= b.entries().take(i as int).push(
                b.entries()[i as int],
            ));
        }
        i = i + 1;
    }
    proof {
        assert(a.entries() =~= a.entries().take(n as int));
        assert(b.entries() =~= b.entries().take(n as int));
    }
    true
}

} // verus!
