//! The order of strings: lexicographic by character.

use crate::text::chars::chars_of;
use vstd::prelude::*;
use vstd::relations::{sorted_by, total_ordering};

verus! {

/// Whether `a` comes before `b` or equals it.
pub open spec fn text_le(a: Seq<char>, b: Seq<char>) -> bool
    decreases a.len(),
{
    if a.len() == 0 {
        true
    } else if b.len() == 0 {
        false
    } else if a[0] != b[0] {
        a[0] < b[0]
    } else {
        text_le(a.skip(1), b.skip(1))
    }
}

/// Whether `a` comes before `b`.
pub open spec fn text_lt(a: Seq<char>, b: Seq<char>) -> bool {
    text_le(a, b) && a != b
}

/// The order as a relation.
pub open spec fn by_text() -> spec_fn(Seq<char>, Seq<char>) -> bool {
    |a: Seq<char>, b: Seq<char>| text_le(a, b)
}

proof fn lemma_le_antisymmetric(a: Seq<char>, b: Seq<char>)
    requires
        text_le(a, b),
        text_le(b, a),
    ensures
        a == b,
    decreases a.len(),
{
    if a.len() > 0 && b.len() > 0 {
        lemma_le_antisymmetric(a.skip(1), b.skip(1));
        assert(a =~= seq![a[0]] + a.skip(1));
        assert(b =~= seq![b[0]] + b.skip(1));
    } else {
        assert(a =~= b);
    }
}

/// The order is transitive.
pub proof fn lemma_le_transitive(a: Seq<char>, b: Seq<char>, c: Seq<char>)
    requires
        text_le(a, b),
        text_le(b, c),
    ensures
        text_le(a, c),
    decreases a.len(),
{
    if a.len() > 0 && b.len() > 0 && c.len() > 0 {
        if a[0] == b[0] && b[0] == c[0] {
            lemma_le_transitive(a.skip(1), b.skip(1), c.skip(1));
        }
    }
}

/// Any two texts are ordered.
pub proof fn lemma_le_total(a: Seq<char>, b: Seq<char>)
    ensures
        text_le(a, b) || text_le(b, a),
        text_le(a, a),
    decreases a.len(),
{
    if a.len() > 0 {
        if b.len() > 0 && a[0] == b[0] {
            lemma_le_total(a.skip(1), b.skip(1));
        } else if b.len() > 0 {
            assert(text_le(b, a) == (b[0] < a[0]));
        } else {
            assert(text_le(b, a));
        }
        lemma_le_total(a.skip(1), a.skip(1));
    }
}

/// Strictly before, in three ways to compose it.
pub proof fn lemma_lt_transitive(a: Seq<char>, b: Seq<char>, c: Seq<char>)
    requires
        text_le(a, b),
        text_le(b, c),
        a != b || b != c,
    ensures
        text_lt(a, c),
{
    lemma_le_transitive(a, b, c);
    if a == c {
        lemma_le_antisymmetric(a, b);
    }
}

/// No text comes before itself, nor two texts before each other.
pub proof fn lemma_lt_asymmetric(a: Seq<char>, b: Seq<char>)
    ensures
        text_lt(a, b) ==> !text_le(b, a),
        text_lt(a, b) || a == b || text_lt(b, a),
{
    lemma_le_total(a, b);
    if text_le(a, b) && text_le(b, a) {
        lemma_le_antisymmetric(a, b);
    }
}

/// The order is a total order.
pub proof fn lemma_total_ordering()
    ensures
        total_ordering(by_text()),
{
    let r = by_text();
    assert forall|x: Seq<char>| #[trigger] r(x, x) by {
        lemma_le_total(x, x);
    }
    assert forall|x: Seq<char>, y: Seq<char>| #[trigger] r(x, y) && #[trigger] r(y, x) implies x
        == y by {
        lemma_le_antisymmetric(x, y);
    }
    assert forall|x: Seq<char>, y: Seq<char>, z: Seq<char>| #[trigger]
        r(x, y) && #[trigger] r(y, z) implies r(x, z) by {
        lemma_le_transitive(x, y, z);
    }
    assert forall|x: Seq<char>, y: Seq<char>| #[trigger] r(x, y) || #[trigger] r(y, x) by {
        lemma_le_total(x, y);
    }
}

/// Tells whether `a` comes before `b` or equals it.
pub fn is_le(a: &str, b: &str) -> (r: bool)
    ensures
        r == text_le(a@, b@),
{
    let x = chars_of(a);
    let y = chars_of(b);
    let mut i: usize = 0;
    assert(x@.skip(0) == x@);
    assert(y@.skip(0) == y@);
    while i < x.len() && i < y.len()
        invariant
            x@ == a@,
            y@ == b@,
            i <= x@.len(),
            i <= y@.len(),
            text_le(a@, b@) == text_le(x@.skip(i as int), y@.skip(i as int)),
        decreases x@.len() - i,
    {
        if x[i] != y[i] {
            return x[i] < y[i];
        }
        assert(x@.skip(i as int).skip(1) == x@.skip(i + 1));
        assert(y@.skip(i as int).skip(1) == y@.skip(i + 1));
        i = i + 1;
    }
    i == x.len()
}

/// The texts of `s` in ascending order.
pub open spec fn sorted(s: Seq<Seq<char>>) -> Seq<Seq<char>> {
    s.sort_by(by_text())
}

/// The place for `x` in the ascending list `v`: the number of texts before it.
fn place_of(v: &Vec<String>, x: &str) -> (r: usize)
    requires
        sorted_by(v.deep_view(), by_text()),
    ensures
        r <= v@.len(),
        forall|j: int| 0 <= j < r ==> text_le(#[trigger] v.deep_view()[j], x@),
        forall|j: int| r <= j < v@.len() ==> text_le(x@, #[trigger] v.deep_view()[j]),
{
    let n: usize = v.len();
    let mut i: usize = 0;
    while i < n
        invariant
            n == v@.len(),
            i <= n,
            sorted_by(v.deep_view(), by_text()),
            forall|j: int| 0 <= j < i ==> text_le(#[trigger] v.deep_view()[j], x@),
        decreases n - i,
    {
        if is_le(x, v[i].as_str()) {
            assert forall|j: int| i <= j < n implies text_le(x@, #[trigger] v.deep_view()[j]) by {
                if j > i {
                    assert(by_text()(v.deep_view()[i as int], v.deep_view()[j]));
                    lemma_le_transitive(x@, v.deep_view()[i as int], v.deep_view()[j]);
                }
            }
            return i;
        }
        proof {
            lemma_le_total(x@, v@[i as int]@);
        }
        i = i + 1;
    }
    n
}

/// Sorts strings in ascending order.
pub fn sort_texts(v: &Vec<String>) -> (r: Vec<String>)
    ensures
        r.deep_view() == sorted(v.deep_view()),
{
    let mut r: Vec<String> = Vec::new();
    let n: usize = v.len();
    let ghost all = v.deep_view();
    assert(all.take(0) =~= Seq::<Seq<char>>::empty());
    assert(r.deep_view() =~= Seq::<Seq<char>>::empty());
    for i in 0..n
        invariant
            n == v@.len(),
            all == v.deep_view(),
            sorted_by(r.deep_view(), by_text()),
            r.deep_view().to_multiset() =~= all.take(i as int).to_multiset(),
    {
        let ghost before = r.deep_view();
        let at = place_of(&r, v[i].as_str());
        r.insert(at, v[i].clone());
        proof {
            let x = all[i as int];
            assert(r.deep_view() =~= before.insert(at as int, x));
            lemma_insert_sorted(before, at as int, x);
            vstd::seq_lib::to_multiset_insert(before, at as int, x);
            all.take(i as int).to_multiset_ensures();
            assert(all.take(i + 1) =~= all.take(i as int).push(x));
        }
    }
    proof {
        assert(all.take(n as int) =~= all);
        lemma_total_ordering();
        all.lemma_sort_by_ensures(by_text());
        vstd::seq_lib::lemma_sorted_unique(r.deep_view(), sorted(all), by_text());
    }
    r
}

proof fn lemma_insert_sorted(v: Seq<Seq<char>>, at: int, x: Seq<char>)
    requires
        0 <= at <= v.len(),
        sorted_by(v, by_text()),
        forall|j: int| 0 <= j < at ==> text_le(#[trigger] v[j], x),
        forall|j: int| at <= j < v.len() ==> text_le(x, #[trigger] v[j]),
    ensures
        sorted_by(v.insert(at, x), by_text()),
{
    let w = v.insert(at, x);
    assert forall|i: int, j: int| 0 <= i < j < w.len() implies #[trigger] by_text()(w[i], w[j]) by {
        if i < at && j > at {
            assert(by_text()(v[i], v[j - 1]));
        } else if i < at && j < at {
            assert(by_text()(v[i], v[j]));
        } else if i > at {
            assert(by_text()(v[i - 1], v[j - 1]));
        }
    }
}

} // verus!
