//! An ordered map and a set of strings.

use crate::text::chars::same_text;
use crate::text::order::{
    is_le, lemma_le_total, lemma_lt_asymmetric, lemma_lt_transitive, text_le, text_lt,
};
use vstd::prelude::*;

verus! {

/// A key with its value.
pub type Entry = (Seq<char>, Seq<char>);

/// The map that a list of entries builds when they are put in one after the
/// other: of two entries with one key, the later stands.
pub open spec fn map_of(entries: Seq<Entry>) -> Map<Seq<char>, Seq<char>>
    decreases entries.len(),
{
    if entries.len() == 0 {
        Map::empty()
    } else {
        map_of(entries.drop_last()).insert(entries.last().0, entries.last().1)
    }
}

/// Whether the keys strictly ascend.
pub open spec fn ascending(entries: Seq<Entry>) -> bool {
    forall|i: int, j: int|
        0 <= i < j < entries.len() ==> text_lt(#[trigger] entries[i].0, #[trigger] entries[j].0)
}

/// Whether a key is among the entries.
pub open spec fn lists(entries: Seq<Entry>, key: Seq<char>) -> bool {
    exists|i: int| 0 <= i < entries.len() && #[trigger] entries[i].0 == key
}

proof fn lemma_map_of(entries: Seq<Entry>)
    requires
        ascending(entries),
    ensures
        forall|i: int|
            #![trigger entries[i]]
            0 <= i < entries.len() ==> map_of(entries).contains_key(entries[i].0) && map_of(
                entries,
            )[entries[i].0] == entries[i].1,
        forall|k: Seq<char>| #[trigger]
            map_of(entries).contains_key(k) ==> exists|i: int|
                0 <= i < entries.len() && #[trigger] entries[i].0 == k,
        map_of(entries).dom().finite(),
        map_of(entries).dom().len() == entries.len(),
    decreases entries.len(),
{
    if entries.len() > 0 {
        let init = entries.drop_last();
        assert forall|i: int, j: int| 0 <= i < j < init.len() implies text_lt(
            #[trigger] init[i].0,
            #[trigger] init[j].0,
        ) by {
            assert(text_lt(entries[i].0, entries[j].0));
        }
        lemma_map_of(init);
        let last = entries.last();
        assert forall|i: int| #![trigger entries[i]] 0 <= i < entries.len() implies map_of(
            entries,
        ).contains_key(entries[i].0) && map_of(entries)[entries[i].0] == entries[i].1 by {
            if i < init.len() {
                assert(init[i] == entries[i]);
                assert(text_lt(entries[i].0, entries[entries.len() - 1].0));
            }
        }
        assert forall|k: Seq<char>| #[trigger] map_of(entries).contains_key(k) implies exists|
            i: int,
        |
            0 <= i < entries.len() && #[trigger] entries[i].0 == k by {
            if k == last.0 {
                assert(entries[entries.len() - 1].0 == k);
            } else {
                let i = choose|i: int| 0 <= i < init.len() && #[trigger] init[i].0 == k;
                assert(entries[i].0 == k);
            }
        }
        if map_of(init).contains_key(last.0) {
            let i = choose|i: int| 0 <= i < init.len() && #[trigger] init[i].0 == last.0;
            assert(text_lt(entries[i].0, entries[entries.len() - 1].0));
            assert(false);
        }
    }
}

/// A map from strings to strings that lists its entries in ascending order of
/// their keys.
#[derive(Debug)]
pub struct StringMap {
    entries: Vec<(String, String)>,
}

impl StringMap {
    /// The entries in ascending order of their keys.
    pub closed spec fn entries(&self) -> Seq<Entry> {
        self.entries@.map_values(|e: (String, String)| (e.0@, e.1@))
    }

    #[verifier::type_invariant]
    spec fn inv(&self) -> bool {
        ascending(self.entries())
    }
}

impl View for StringMap {
    type V = Map<Seq<char>, Seq<char>>;

    open spec fn view(&self) -> Map<Seq<char>, Seq<char>> {
        map_of(self.entries())
    }
}

impl Clone for StringMap {
    fn clone(&self) -> (r: Self)
        ensures
            r.entries() == self.entries(),
            ascending(r.entries()),
    {
        proof {
            use_type_invariant(self);
        }
        let mut entries: Vec<(String, String)> = Vec::new();
        let n: usize = self.entries.len();
        for i in 0..n
            invariant
                n == self.entries@.len(),
                entries@.len() == i,
                forall|j: int|
                    0 <= j < i ==> (#[trigger] entries@[j]).0@ == self.entries@[j].0@
                        && entries@[j].1@ == self.entries@[j].1@,
        {
            entries.push((self.entries[i].0.clone(), self.entries[i].1.clone()));
        }
        assert(entries@.map_values(|e: (String, String)| (e.0@, e.1@)) =~= self.entries());
        StringMap { entries }
    }
}

impl Default for StringMap {
    fn default() -> (r: Self)
        ensures
            r.entries() == Seq::<Entry>::empty(),
            r@ == Map::<Seq<char>, Seq<char>>::empty(),
    {
        StringMap::new()
    }
}

impl StringMap {
    /// The empty map.
    pub fn new() -> (r: Self)
        ensures
            r.entries() == Seq::<Entry>::empty(),
            r@ == Map::<Seq<char>, Seq<char>>::empty(),
    {
        let entries: Vec<(String, String)> = Vec::new();
        assert(entries@.map_values(|e: (String, String)| (e.0@, e.1@)) =~= Seq::<Entry>::empty());
        StringMap { entries }
    }

    /// The number of keys below `key`.
    fn place_of(&self, key: &str) -> (r: usize)
        ensures
            r <= self.entries().len(),
            forall|j: int| 0 <= j < r ==> text_lt(#[trigger] self.entries()[j].0, key@),
            forall|j: int| r <= j < self.entries().len() ==> text_le(
                key@,
                #[trigger] self.entries()[j].0,
            ),
    {
        proof {
            use_type_invariant(self);
        }
        let n: usize = self.entries.len();
        let mut i: usize = 0;
        while i < n
            invariant
                n == self.entries@.len(),
                i <= n,
                ascending(self.entries()),
                forall|j: int| 0 <= j < i ==> text_lt(#[trigger] self.entries()[j].0, key@),
            decreases n - i,
        {
            if is_le(key, self.entries[i].0.as_str()) {
                assert forall|j: int| i <= j < n implies text_le(
                    key@,
                    #[trigger] self.entries()[j].0,
                ) by {
                    if j > i {
                        let here = self.entries()[i as int].0;
                        let there = self.entries()[j].0;
                        assert(text_lt(here, there));
                        lemma_lt_transitive(key@, here, there);
                    }
                }
                return i;
            }
            proof {
                lemma_lt_asymmetric(self.entries()[i as int].0, key@);
                lemma_le_total(key@, key@);
            }
            i = i + 1;
        }
        n
    }

    /// The value of `key`.
    pub fn get(&self, key: &str) -> (r: Option<&String>)
        ensures
            match r {
                Some(v) => self@.contains_key(key@) && v@ == self@[key@],
                None => !self@.contains_key(key@),
            },
    {
        proof {
            use_type_invariant(self);
            lemma_map_of(self.entries());
        }
        let at = self.place_of(key);
        if at < self.entries.len() && same_text(self.entries[at].0.as_str(), key) {
            assert(self.entries()[at as int].0 == key@);
            Some(&self.entries[at].1)
        } else {
            proof {
                if self@.contains_key(key@) {
                    let i = choose|i: int|
                        0 <= i < self.entries().len() && #[trigger] self.entries()[i].0 == key@;
                    if i > at {
                        let here = self.entries()[at as int].0;
                        assert(text_lt(here, self.entries()[i].0));
                        lemma_lt_asymmetric(here, key@);
                    }
                }
            }
            None
        }
    }

    /// Whether the map has `key`.
    pub fn contains_key(&self, key: &str) -> (r: bool)
        ensures
            r == self@.contains_key(key@),
            r == lists(self.entries(), key@),
    {
        proof {
            use_type_invariant(self);
            lemma_map_of(self.entries());
        }
        self.get(key).is_some()
    }

    /// All entries, in strictly ascending order of their keys.
    pub fn to_entries(&self) -> (r: Vec<(String, String)>)
        ensures
            r.deep_view() == self.entries(),
            ascending(self.entries()),
            map_of(self.entries()) == self@,
    {
        proof {
            use_type_invariant(self);
        }
        let ghost all = self.entries();
        let mut r: Vec<(String, String)> = Vec::new();
        let n: usize = self.entries.len();
        assert(r.deep_view() =~= all.take(0));
        for i in 0..n
            invariant
                n == self.entries@.len(),
                all == self.entries(),
                r.deep_view() == all.take(i as int),
        {
            let ghost done = r.deep_view();
            r.push((self.entries[i].0.clone(), self.entries[i].1.clone()));
            assert(r.deep_view() =~= done.push(all[i as int]));
            assert(r.deep_view() =~= all.take(i + 1));
        }
        assert(all.take(n as int) == all);
        r
    }

    /// The number of entries.
    pub fn len(&self) -> (r: usize)
        ensures
            r == self.entries().len(),
            r == self@.dom().len(),
            ascending(self.entries()),
    {
        proof {
            use_type_invariant(self);
            lemma_map_of(self.entries());
        }
        self.entries.len()
    }

    /// Whether the map has no entry.
    pub fn is_empty(&self) -> (r: bool)
        ensures
            r == (self.entries().len() == 0),
    {
        self.entries.len() == 0
    }

    /// The key of the entry at `i`.
    pub fn key_at(&self, i: usize) -> (r: &str)
        requires
            i < self.entries().len(),
        ensures
            r@ == self.entries()[i as int].0,
    {
        self.entries[i].0.as_str()
    }

    /// The value of the entry at `i`.
    pub fn value_at(&self, i: usize) -> (r: &str)
        requires
            i < self.entries().len(),
        ensures
            r@ == self.entries()[i as int].1,
    {
        self.entries[i].1.as_str()
    }

    /// Takes over every entry of another map.
    pub fn extend(&mut self, other: &StringMap)
        ensures
            final(self)@ == old(self)@.union_prefer_right(other@),
            ascending(final(self).entries()),
    {
        let ghost all = other.entries();
        let ghost before = self@;
        let n: usize = other.entries.len();
        assert(self@ =~= before.union_prefer_right(map_of(all.take(0))));
        for i in 0..n
            invariant
                n == other.entries@.len(),
                all == other.entries(),
                self@ == before.union_prefer_right(map_of(all.take(i as int))),
        {
            let ghost done = map_of(all.take(i as int));
            let ghost e = all[i as int];
            assert(all.take(i + 1).drop_last() == all.take(i as int));
            assert(all.take(i + 1).last() == e);
            self.insert(other.entries[i].0.clone(), other.entries[i].1.clone());
            assert(self@ =~= before.union_prefer_right(done.insert(e.0, e.1)));
        }
        assert(all.take(n as int) == all);
        proof {
            use_type_invariant(&*self);
        }
    }

    /// Sets the value of `key`.
    pub fn insert(&mut self, key: String, value: String)
        ensures
            final(self)@ == old(self)@.insert(key@, value@),
            ascending(final(self).entries()),
    {
        proof {
            use_type_invariant(&*self);
            lemma_map_of(self.entries());
        }
        let at = self.place_of(key.as_str());
        let ghost before = self.entries();
        let mut entries: Vec<(String, String)> = Vec::new();
        std::mem::swap(&mut entries, &mut self.entries);
        let ghost k = key@;
        let ghost v = value@;
        if at < entries.len() && same_text(entries[at].0.as_str(), key.as_str()) {
            entries.set(at, (key, value));
            let ghost after = entries@.map_values(|e: (String, String)| (e.0@, e.1@));
            proof {
                assert(after =~= before.update(at as int, (k, v)));
                assert forall|i: int, j: int| 0 <= i < j < after.len() implies text_lt(
                    #[trigger] after[i].0,
                    #[trigger] after[j].0,
                ) by {
                    assert(text_lt(before[i].0, before[j].0));
                }
                lemma_map_of(after);
                lemma_same_map(before, after, at as int, k, v);
            }
            self.entries = entries;
        } else {
            proof {
                if at < before.len() {
                    lemma_lt_asymmetric(before[at as int].0, k);
                }
            }
            entries.insert(at, (key, value));
            let ghost after = entries@.map_values(|e: (String, String)| (e.0@, e.1@));
            proof {
                assert(after =~= before.insert(at as int, (k, v)));
                assert forall|i: int, j: int| 0 <= i < j < after.len() implies text_lt(
                    #[trigger] after[i].0,
                    #[trigger] after[j].0,
                ) by {
                    if i < at && j > at {
                        assert(text_lt(before[i].0, before[j - 1].0));
                    } else if i < at && j < at {
                        assert(text_lt(before[i].0, before[j].0));
                    } else if i > at {
                        assert(text_lt(before[i - 1].0, before[j - 1].0));
                    } else if i == at {
                        if j > at + 1 {
                            assert(text_lt(before[at as int].0, before[j - 1].0));
                            lemma_lt_transitive(k, before[at as int].0, before[j - 1].0);
                        }
                    }
                }
                lemma_map_of(after);
                lemma_same_map(before, after, at as int, k, v);
            }
            self.entries = entries;
        }
    }
}

proof fn lemma_same_map(
    before: Seq<Entry>,
    after: Seq<Entry>,
    at: int,
    k: Seq<char>,
    v: Seq<char>,
)
    requires
        ascending(before),
        ascending(after),
        0 <= at < after.len(),
        after[at] == (k, v),
        after == before.insert(at, (k, v)) && at <= before.len() || after == before.update(
            at,
            (k, v),
        ) && at < before.len() && before[at].0 == k,
    ensures
        map_of(after) == map_of(before).insert(k, v),
{
    lemma_map_of(before);
    lemma_map_of(after);
    let m = map_of(before).insert(k, v);
    assert forall|x: Seq<char>| map_of(after).contains_key(x) == m.contains_key(x) by {
        if map_of(after).contains_key(x) && x != k {
            let i = choose|i: int| 0 <= i < after.len() && #[trigger] after[i].0 == x;
            if after == before.insert(at, (k, v)) && i > at {
                assert(before[i - 1].0 == x);
            } else {
                assert(before[i].0 == x);
            }
        }
        if map_of(before).contains_key(x) {
            let i = choose|i: int| 0 <= i < before.len() && #[trigger] before[i].0 == x;
            if after == before.insert(at, (k, v)) && i >= at {
                assert(after[i + 1].0 == x);
            } else {
                assert(after[i].0 == x);
            }
        }
    }
    assert forall|x: Seq<char>| map_of(after).contains_key(x) implies map_of(after)[x] == m[x] by {
        let i = choose|i: int| 0 <= i < after.len() && #[trigger] after[i].0 == x;
        if i != at {
            if after == before.insert(at, (k, v)) {
                if i > at {
                    assert(after[i] == before[i - 1]);
                    assert(text_lt(after[at].0, after[i].0));
                } else {
                    assert(after[i] == before[i]);
                    assert(text_lt(after[i].0, after[at].0));
                }
            } else {
                assert(after[i] == before[i]);
                if i < at {
                    assert(text_lt(after[i].0, after[at].0));
                } else {
                    assert(text_lt(after[at].0, after[i].0));
                }
            }
        }
    }
    assert(map_of(after) =~= m);
}

/// What a map lists is fixed by what it holds: two ascending lists that build
/// the same map are the same list, in whatever order the entries were put in.
pub proof fn law_listing_is_canonical(a: Seq<Entry>, b: Seq<Entry>)
    requires
        ascending(a),
        ascending(b),
        map_of(a) == map_of(b),
    ensures
        a == b,
    decreases a.len(),
{
    lemma_map_of(a);
    lemma_map_of(b);
    if a.len() > 0 {
        let x = a.last();
        let y = b.last();
        assert(a[a.len() - 1] == x && b[b.len() - 1] == y);
        let i = choose|i: int| 0 <= i < b.len() && #[trigger] b[i].0 == x.0;
        let j = choose|j: int| 0 <= j < a.len() && #[trigger] a[j].0 == y.0;
        if i < b.len() - 1 {
            assert(text_lt(b[i].0, b[b.len() - 1].0));
        }
        if j < a.len() - 1 {
            assert(text_lt(a[j].0, a[a.len() - 1].0));
        }
        lemma_lt_asymmetric(x.0, y.0);
        assert(x == y);
        assert(map_of(a.drop_last()) =~= map_of(a).remove(x.0)) by {
            lemma_drop_last(a);
        }
        assert(map_of(b.drop_last()) =~= map_of(b).remove(y.0)) by {
            lemma_drop_last(b);
        }
        assert forall|p: int, q: int| 0 <= p < q < a.len() - 1 implies text_lt(
            #[trigger] a.drop_last()[p].0,
            #[trigger] a.drop_last()[q].0,
        ) by {
            assert(text_lt(a[p].0, a[q].0));
        }
        assert forall|p: int, q: int| 0 <= p < q < b.len() - 1 implies text_lt(
            #[trigger] b.drop_last()[p].0,
            #[trigger] b.drop_last()[q].0,
        ) by {
            assert(text_lt(b[p].0, b[q].0));
        }
        law_listing_is_canonical(a.drop_last(), b.drop_last());
        assert(a =~= a.drop_last().push(x));
        assert(b =~= b.drop_last().push(y));
    } else {
        assert(map_of(b).dom().len() == 0);
        assert(a =~= b);
    }
}

/// What a map lists: its entries in ascending order of their keys.
pub open spec fn listing(map: Map<Seq<char>, Seq<char>>) -> Seq<Entry> {
    choose|entries: Seq<Entry>| ascending(entries) && #[trigger] map_of(entries) == map
}

/// The ascending entries of a map are what it lists.
pub proof fn lemma_listing(entries: Seq<Entry>)
    requires
        ascending(entries),
    ensures
        listing(map_of(entries)) == entries,
{
    law_listing_is_canonical(listing(map_of(entries)), entries);
}

proof fn lemma_drop_last(a: Seq<Entry>)
    requires
        ascending(a),
        a.len() > 0,
    ensures
        !map_of(a.drop_last()).contains_key(a.last().0),
{
    let init = a.drop_last();
    assert forall|p: int, q: int| 0 <= p < q < init.len() implies text_lt(
        #[trigger] init[p].0,
        #[trigger] init[q].0,
    ) by {
        assert(text_lt(a[p].0, a[q].0));
    }
    lemma_map_of(init);
    if map_of(init).contains_key(a.last().0) {
        let i = choose|i: int| 0 <= i < init.len() && #[trigger] init[i].0 == a.last().0;
        assert(text_lt(a[i].0, a[a.len() - 1].0));
    }
}

/// Whether a string is among those of a list.
pub fn list_has(list: &Vec<String>, item: &str) -> (r: bool)
    ensures
        r == list.deep_view().contains(item@),
{
    let n: usize = list.len();
    for i in 0..n
        invariant
            n == list@.len(),
            forall|j: int| 0 <= j < i ==> list.deep_view()[j] != item@,
    {
        if same_text(list[i].as_str(), item) {
            assert(list.deep_view()[i as int] == item@);
            return true;
        }
    }
    false
}

/// A copy of an optional string.
pub fn clone_optional(o: &Option<String>) -> (r: Option<String>)
    ensures
        r.deep_view() == o.deep_view(),
{
    match o {
        Some(s) => Some(s.clone()),
        None => None,
    }
}

/// A copy of a list of strings.
pub fn clone_list(v: &Vec<String>) -> (r: Vec<String>)
    ensures
        r.deep_view() == v.deep_view(),
{
    let mut r: Vec<String> = Vec::new();
    let n: usize = v.len();
    for i in 0..n
        invariant
            n == v@.len(),
            r.deep_view() == v.deep_view().take(i as int),
    {
        let ghost done = r.deep_view();
        r.push(v[i].clone());
        assert(r.deep_view() =~= done.push(v.deep_view()[i as int]));
        assert(r.deep_view() =~= v.deep_view().take(i + 1));
    }
    r
}

/// A set of strings.
#[derive(Debug)]
pub struct StringSet {
    items: Vec<String>,
}

impl View for StringSet {
    type V = Set<Seq<char>>;

    closed spec fn view(&self) -> Set<Seq<char>> {
        self.items.deep_view().to_set()
    }
}

impl StringSet {
    #[verifier::type_invariant]
    spec fn inv(&self) -> bool {
        self.items.deep_view().no_duplicates()
    }

    /// The empty set.
    pub fn new() -> (r: Self)
        ensures
            r@ == Set::<Seq<char>>::empty(),
    {
        let items: Vec<String> = Vec::new();
        assert(items.deep_view().to_set() =~= Set::<Seq<char>>::empty());
        StringSet { items }
    }

    /// Whether `item` is in the set.
    pub fn contains(&self, item: &str) -> (r: bool)
        ensures
            r == self@.contains(item@),
    {
        list_has(&self.items, item)
    }

    /// Adds `item`; tells whether it was new.
    pub fn insert(&mut self, item: String) -> (r: bool)
        ensures
            r == !old(self)@.contains(item@),
            final(self)@ == old(self)@.insert(item@),
    {
        proof {
            use_type_invariant(&*self);
        }
        let ghost before = self.items.deep_view();
        if list_has(&self.items, item.as_str()) {
            assert(self@ =~= old(self)@.insert(item@));
            false
        } else {
            let mut items: Vec<String> = Vec::new();
            std::mem::swap(&mut items, &mut self.items);
            items.push(item);
            assert(items.deep_view() =~= before.push(item@));
            assert(before.push(item@).to_set() =~= before.to_set().insert(item@)) by {
                assert forall|x: Seq<char>|
                    before.push(item@).contains(x) == (before.contains(x) || x == item@) by {
                    if before.contains(x) {
                        let i = choose|i: int| 0 <= i < before.len() && before[i] == x;
                        assert(before.push(item@)[i] == x);
                    }
                    assert(before.push(item@)[before.len() as int] == item@);
                }
            }
            self.items = items;
            true
        }
    }

    /// The number of items.
    pub fn len(&self) -> (r: usize)
        ensures
            r == self@.len(),
    {
        proof {
            use_type_invariant(self);
            self.items.deep_view().unique_seq_to_set();
        }
        self.items.len()
    }

    /// Whether the set is empty.
    pub fn is_empty(&self) -> (r: bool)
        ensures
            r == (self@ == Set::<Seq<char>>::empty()),
    {
        proof {
            if self.items@.len() > 0 {
                assert(self.items.deep_view().contains(self.items.deep_view()[0]));
                assert(self@.contains(self.items.deep_view()[0]));
            } else {
                assert(self@ =~= Set::<Seq<char>>::empty());
            }
        }
        self.items.len() == 0
    }
}

} // verus!
