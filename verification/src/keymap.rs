//! A map from text keys to values that keeps its keys in ascending order.

use vstd::prelude::*;
use crate::text;

verus! {

/// A map keyed by text. No key occurs twice, and the items are walked in
/// ascending order of their keys.
#[derive(Debug)]
pub struct KeyMap<V> {
    pub(crate) entries: Vec<(String, V)>,
}

/// The keys stand in strictly ascending order, so that none occurs twice.
pub open spec fn ascending(keys: Seq<Seq<char>>) -> bool {
    forall|i: int, j: int|
        #![trigger keys[i], keys[j]]
        0 <= i < j < keys.len() ==> text::text_lt(keys[i], keys[j])
}

impl<V> KeyMap<V> {
    #[verifier::type_invariant]
    pub(crate) closed spec fn inv(self) -> bool {
        ascending(self.keys())
    }

    /// The keys, in the order in which the map is walked.
    pub closed spec fn keys(self) -> Seq<Seq<char>> {
        Seq::new(self.entries@.len(), |i: int| self.entries@[i].0@)
    }

    /// The values, in the order in which the map is walked.
    pub closed spec fn values(self) -> Seq<V> {
        Seq::new(self.entries@.len(), |i: int| self.entries@[i].1)
    }

    /// The place of `k` among the keys.
    pub open spec fn place(self, k: Seq<char>) -> int {
        choose|i: int| 0 <= i < self.keys().len() && self.keys()[i] == k
    }
}

impl<V> View for KeyMap<V> {
    type V = Map<Seq<char>, V>;

    open spec fn view(&self) -> Map<Seq<char>, V> {
        Map::new(|k: Seq<char>| self.keys().contains(k), |k: Seq<char>| self.values()[self.place(k)])
    }
}

/// Two places of an ascending sequence that hold the same key are one place.
pub proof fn lemma_ascending_distinct(keys: Seq<Seq<char>>, i: int, j: int)
    requires
        ascending(keys),
        0 <= i < keys.len(),
        0 <= j < keys.len(),
        keys[i] == keys[j],
    ensures
        i == j,
{
    text::lemma_text_lt_irreflexive(keys[i]);
    if i < j {
        assert(text::text_lt(keys[i], keys[j]));
    } else if j < i {
        assert(text::text_lt(keys[j], keys[i]));
    }
}

/// What the map holds under its `i`-th key is its `i`-th value.
pub proof fn lemma_item<V>(m: KeyMap<V>, i: int)
    requires
        ascending(m.keys()),
        0 <= i < m.keys().len(),
    ensures
        m@.dom().contains(m.keys()[i]),
        m@[m.keys()[i]] == m.values()[i],
        m.place(m.keys()[i]) == i,
{
    assert(m.keys().contains(m.keys()[i]));
    lemma_ascending_distinct(m.keys(), m.place(m.keys()[i]), i);
}

/// The values of a map are smaller than the map, which lets a recursion over
/// nested maps end.
pub proof fn lemma_value_smaller<V>(m: KeyMap<V>, i: int)
    requires
        0 <= i < m.values().len(),
    ensures
        decreases_to!(m => m.values()[i]),
{
    assert(decreases_to!(m => m.entries));
    assert(decreases_to!(m.entries => m.entries@[i]));
    assert(decreases_to!(m.entries@[i] => m.entries@[i].1));
}

/// A map is what its items say.
proof fn lemma_view_is<V>(m: KeyMap<V>, target: Map<Seq<char>, V>)
    requires
        ascending(m.keys()),
        forall|i: int|
            0 <= i < m.keys().len() ==> target.dom().contains(#[trigger] m.keys()[i])
                && target[m.keys()[i]] == m.values()[i],
        forall|k: Seq<char>| target.dom().contains(k) ==> m.keys().contains(k),
    ensures
        m@ == target,
{
    assert forall|k: Seq<char>| m@.dom().contains(k) implies target.dom().contains(k) && m@[k]
        == target[k] by {
        let i = m.keys().index_of(k);
        assert(m.keys()[i] == k);
        lemma_item(m, i);
    }
    assert(m@ =~= target);
}

/// The order in which a list of keys places a new one.
spec fn fits_at(keys: Seq<Seq<char>>, k: Seq<char>, at: int) -> bool {
    &&& 0 <= at <= keys.len()
    &&& forall|i: int| 0 <= i < at ==> text::text_lt(#[trigger] keys[i], k)
    &&& forall|i: int| at <= i < keys.len() ==> text::text_lt(k, #[trigger] keys[i])
}

/// The map that a list of items describes, where a later item replaces an
/// earlier one of the same key.
pub open spec fn items_map<V>(items: Seq<(String, V)>) -> Map<Seq<char>, V>
    decreases items.len(),
{
    if items.len() == 0 {
        Map::empty()
    } else {
        items_map(items.drop_last()).insert(items.last().0@, items.last().1)
    }
}

impl<V> KeyMap<V> {
    /// The map that a list of items describes.
    pub fn from_items(items: Vec<(String, V)>) -> (r: Self)
        ensures
            r@ == items_map(items@),
    {
        let ghost all = items@;
        let mut out: KeyMap<V> = KeyMap::new();
        let mut rest = items;
        let mut turned: Vec<(String, V)> = Vec::new();
        while rest.len() > 0
            invariant
                rest@.len() + turned@.len() == all.len(),
                rest@ == all.take(rest@.len() as int),
                forall|j: int|
                    0 <= j < turned@.len() ==> #[trigger] turned@[j] == all[all.len() - 1 - j],
            decreases rest.len(),
        {
            match rest.pop() {
                Some(item) => turned.push(item),
                None => {},
            }
            assert(rest@ =~= all.take(rest@.len() as int));
        }
        assert(all.take(0) =~= Seq::empty());
        while turned.len() > 0
            invariant
                turned@.len() <= all.len(),
                forall|j: int|
                    0 <= j < turned@.len() ==> #[trigger] turned@[j] == all[all.len() - 1 - j],
                out@ == items_map(all.take(all.len() - turned@.len())),
            decreases turned.len(),
        {
            let ghost n = all.len() - turned@.len();
            assert(all.take(n + 1).drop_last() =~= all.take(n));
            assert(all.take(n + 1).last() == all[n]);
            match turned.pop() {
                Some((k, v)) => {
                    out.insert(k, v);
                },
                None => {},
            }
        }
        assert(all.take(all.len() as int) =~= all);
        out
    }

    pub(crate) proof fn lemma_place(self, k: Seq<char>)
        requires
            self@.dom().contains(k),
        ensures
            0 <= self.place(k) < self.entries@.len(),
            self.entries@[self.place(k)].0@ == k,
            self@[k] == self.entries@[self.place(k)].1,
    {
    }

    /// An empty map.
    pub fn new() -> (r: Self)
        ensures
            r@ == Map::<Seq<char>, V>::empty(),
            r.keys() == Seq::<Seq<char>>::empty(),
    {
        let r = KeyMap { entries: Vec::new() };
        assert(r@ =~= Map::<Seq<char>, V>::empty());
        assert(r.keys() =~= Seq::<Seq<char>>::empty());
        r
    }

    /// The number of items.
    pub fn len(&self) -> (n: usize)
        ensures
            n == self.keys().len(),
            n == self.values().len(),
            ascending(self.keys()),
    {
        proof {
            use_type_invariant(self);
        }
        self.entries.len()
    }

    /// The `i`-th key.
    pub fn key_at(&self, i: usize) -> (k: &str)
        requires
            i < self.keys().len(),
        ensures
            k@ == self.keys()[i as int],
    {
        self.entries[i].0.as_str()
    }

    /// The value under the `i`-th key.
    pub fn value_at(&self, i: usize) -> (v: &V)
        requires
            i < self.keys().len(),
        ensures
            *v == self.values()[i as int],
            *v == self@[self.keys()[i as int]],
    {
        proof {
            use_type_invariant(self);
            lemma_item(*self, i as int);
        }
        &self.entries[i].1
    }

    /// Where `key` stands, or where it would be put.
    fn search(&self, key: &str) -> (r: (bool, usize))
        ensures
            ascending(self.keys()),
            r.0 ==> r.1 < self.keys().len() && self.keys()[r.1 as int] == key@,
            r.0 == self.keys().contains(key@),
            !r.0 ==> fits_at(self.keys(), key@, r.1 as int),
    {
        proof {
            use_type_invariant(self);
        }
        let mut i: usize = 0;
        while i < self.entries.len()
            invariant
                ascending(self.keys()),
                i <= self.entries.len(),
                self.keys().len() == self.entries.len(),
                forall|j: int| 0 <= j < i ==> text::text_lt(#[trigger] self.keys()[j], key@),
            decreases self.entries.len() - i,
        {
            let ghost here = self.keys()[i as int];
            match text::order_texts(self.entries[i].0.as_str(), key) {
                text::TextOrder::Before => {},
                text::TextOrder::Same => {
                    return (true, i);
                },
                text::TextOrder::After => {
                    assert forall|j: int| i <= j < self.keys().len() implies text::text_lt(
                        key@,
                        #[trigger] self.keys()[j],
                    ) by {
                        if j > i {
                            assert(text::text_lt(here, self.keys()[j]));
                            text::lemma_text_lt_transitive(key@, here, self.keys()[j]);
                        }
                    }
                    proof {
                        self.lemma_absent(key@, i as int);
                    }
                    return (false, i);
                },
            }
            i = i + 1;
        }
        proof {
            self.lemma_absent(key@, i as int);
        }
        (false, i)
    }

    proof fn lemma_absent(self, k: Seq<char>, at: int)
        requires
            fits_at(self.keys(), k, at),
        ensures
            !self.keys().contains(k),
    {
        text::lemma_text_lt_irreflexive(k);
    }

    /// The items, in the order in which the map is walked.
    pub fn into_entries(self) -> (r: Vec<(String, V)>)
        ensures
            r@.len() == self.keys().len(),
            r@.len() == self.values().len(),
            ascending(self.keys()),
            forall|i: int|
                #![trigger r@[i]]
                0 <= i < r@.len() ==> r@[i].0@ == self.keys()[i] && r@[i].1 == self.values()[i],
    {
        proof {
            use_type_invariant(&self);
        }
        self.entries
    }

    /// What the map holds under `key`.
    pub fn get(&self, key: &str) -> (r: Option<&V>)
        ensures
            match r {
                Some(v) => self@.dom().contains(key@) && *v == self@[key@],
                None => !self@.dom().contains(key@),
            },
    {
        let (found, i) = self.search(key);
        if found {
            proof {
                lemma_item(*self, i as int);
            }
            Some(&self.entries[i].1)
        } else {
            None
        }
    }

    /// Whether the map holds anything under `key`.
    pub fn contains_key(&self, key: &str) -> (r: bool)
        ensures
            r == self@.dom().contains(key@),
    {
        self.search(key).0
    }

    /// Puts `value` under `key`, in place of what was there.
    pub fn insert(&mut self, key: String, value: V)
        ensures
            final(self)@ == old(self)@.insert(key@, value),
    {
        let (found, i) = self.search(key.as_str());
        let ghost was = *self;
        let mut e: Vec<(String, V)> = Vec::new();
        core::mem::swap(&mut e, &mut self.entries);
        if found {
            let _ = e.remove(i);
        }
        e.insert(i, (key, value));
        let ghost now = KeyMap { entries: e };
        proof {
            assert forall|a: int, b: int|
                #![trigger now.keys()[a], now.keys()[b]]
                0 <= a < b < now.keys().len() implies text::text_lt(now.keys()[a], now.keys()[b]) by {
                let at = i as int;
                if found {
                    assert(now.keys()[a] == was.keys()[a]);
                    assert(now.keys()[b] == was.keys()[b]);
                } else {
                    if a < at {
                        assert(now.keys()[a] == was.keys()[a]);
                    } else if a > at {
                        assert(now.keys()[a] == was.keys()[a - 1]);
                    }
                    if b < at {
                        assert(now.keys()[b] == was.keys()[b]);
                    } else if b > at {
                        assert(now.keys()[b] == was.keys()[b - 1]);
                    }
                }
            }
            let target = was@.insert(key@, value);
            assert forall|j: int| 0 <= j < now.keys().len() implies target.dom().contains(
                #[trigger] now.keys()[j],
            ) && target[now.keys()[j]] == now.values()[j] by {
                if j != i {
                    let o = if found || j < i { j } else { j - 1 };
                    assert(now.keys()[j] == was.keys()[o]);
                    assert(now.values()[j] == was.values()[o]);
                    lemma_item(was, o);
                    if was.keys()[o] == key@ {
                        lemma_ascending_distinct(now.keys(), j, i as int);
                    }
                }
            }
            assert forall|k: Seq<char>| target.dom().contains(k) implies now.keys().contains(k) by {
                if k == key@ {
                    assert(now.keys()[i as int] == k);
                } else {
                    let o = was.keys().index_of(k);
                    assert(was.keys()[o] == k);
                    let j = if found || o < i { o } else { o + 1 };
                    assert(now.keys()[j] == k);
                }
            }
            lemma_view_is(now, target);
        }
        self.entries = e;
    }

    /// Takes out what the map holds under `key`.
    pub fn remove(&mut self, key: &str) -> (r: Option<V>)
        ensures
            final(self)@ == old(self)@.remove(key@),
            match r {
                Some(v) => old(self)@.dom().contains(key@) && v == old(self)@[key@],
                None => !old(self)@.dom().contains(key@),
            },
    {
        let (found, i) = self.search(key);
        if !found {
            assert(self@.remove(key@) =~= self@);
            return None;
        }
        let ghost was = *self;
        let mut e: Vec<(String, V)> = Vec::new();
        core::mem::swap(&mut e, &mut self.entries);
        let (_, value) = e.remove(i);
        let ghost now = KeyMap { entries: e };
        proof {
            lemma_item(was, i as int);
            assert forall|a: int| 0 <= a < now.keys().len() implies #[trigger] now.keys()[a]
                == was.keys()[if a < i { a } else { a + 1 }] && now.values()[a] == was.values()[if a
                < i { a } else { a + 1 }] by {}
            let target = was@.remove(key@);
            assert forall|j: int| 0 <= j < now.keys().len() implies target.dom().contains(
                #[trigger] now.keys()[j],
            ) && target[now.keys()[j]] == now.values()[j] by {
                let o = if j < i { j } else { j + 1 };
                lemma_item(was, o);
                if was.keys()[o] == key@ {
                    lemma_ascending_distinct(was.keys(), o, i as int);
                }
            }
            assert forall|k: Seq<char>| target.dom().contains(k) implies now.keys().contains(k) by {
                let o = was.keys().index_of(k);
                assert(was.keys()[o] == k);
                let j = if o < i { o } else { o - 1 };
                assert(now.keys()[j] == k);
            }
            lemma_view_is(now, target);
        }
        self.entries = e;
        Some(value)
    }
}

/// A list of items describes the map in which every key has the value of its last
/// item, and which has no other keys.
pub proof fn law_last_item_of_a_key_counts<V>(items: Seq<(String, V)>, i: int)
    requires
        0 <= i < items.len(),
        forall|j: int| i < j < items.len() ==> (#[trigger] items[j]).0@ != items[i].0@,
    ensures
        items_map(items).dom().contains(items[i].0@),
        items_map(items)[items[i].0@] == items[i].1,
    decreases items.len(),
{
    if i < items.len() - 1 {
        let front = items.drop_last();
        assert forall|j: int| i < j < front.len() implies (#[trigger] front[j]).0@
            != front[i].0@ by {
            assert(front[j] == items[j]);
        }
        law_last_item_of_a_key_counts(front, i);
        assert(items[items.len() - 1] == items.last());
    }
}

/// A map that a list of items describes has no key that is not an item's.
pub proof fn law_items_are_all_there_is<V>(items: Seq<(String, V)>, k: Seq<char>)
    ensures
        items_map(items).dom().contains(k) <==> exists|i: int|
            0 <= i < items.len() && (#[trigger] items[i]).0@ == k,
    decreases items.len(),
{
    if items.len() > 0 {
        let front = items.drop_last();
        law_items_are_all_there_is(front, k);
        assert(items[items.len() - 1] == items.last());
        if items_map(front).dom().contains(k) {
            let i = choose|i: int| 0 <= i < front.len() && (#[trigger] front[i]).0@ == k;
            assert(items[i] == front[i]);
        } else if exists|i: int| 0 <= i < items.len() && (#[trigger] items[i]).0@ == k {
            let i = choose|i: int| 0 <= i < items.len() && (#[trigger] items[i]).0@ == k;
            if i < front.len() {
                assert(front[i] == items[i]);
            }
        }
    }
}

} // verus!
