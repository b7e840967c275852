//! Lists of keyed values, and what they hold under a key.

use vstd::prelude::*;

verus! {

/// The values that a list has under a key, in order.
pub open spec fn values<V>(list: Seq<(Seq<char>, V)>, key: Seq<char>) -> Seq<V>
    decreases list.len(),
{
    if list.len() == 0 {
        Seq::empty()
    } else {
        let before = values(list.drop_last(), key);
        if list.last().0 == key {
            before.push(list.last().1)
        } else {
            before
        }
    }
}

/// Values, if the key is the one that is asked for.
pub open spec fn pick<V>(name: Seq<char>, vals: Seq<V>, key: Seq<char>) -> Seq<V> {
    if name == key {
        vals
    } else {
        Seq::empty()
    }
}

/// An optional thing as a list.
pub open spec fn listed<T>(o: Option<T>) -> Seq<T> {
    match o {
        Some(v) => seq![v],
        None => seq![],
    }
}

/// What two lists hold together, each holds its part of.
pub proof fn lemma_values_add<V>(
    a: Seq<(Seq<char>, V)>,
    b: Seq<(Seq<char>, V)>,
    key: Seq<char>,
)
    ensures
        values(a + b, key) == values(a, key) + values(b, key),
    decreases b.len(),
{
    if b.len() == 0 {
        assert(a + b =~= a);
        assert(values(a, key) + values(b, key) =~= values(a, key));
    } else {
        assert((a + b).drop_last() =~= a + b.drop_last());
        lemma_values_add(a, b.drop_last(), key);
        assert(values(a + b, key) =~= values(a, key) + values(b, key));
    }
}

/// A list with one key holds all its values under that key.
pub proof fn lemma_piece<V>(
    list: Seq<(Seq<char>, V)>,
    name: Seq<char>,
    vals: Seq<V>,
    key: Seq<char>,
)
    requires
        list.len() == vals.len(),
        forall|i: int| 0 <= i < list.len() ==> (#[trigger] list[i]) == (name, vals[i]),
    ensures
        values(list, key) == pick(name, vals, key),
    decreases list.len(),
{
    if list.len() > 0 {
        let init = list.drop_last();
        assert forall|i: int| 0 <= i < init.len() implies (#[trigger] init[i]) == (
            name,
            vals.drop_last()[i],
        ) by {
            assert(init[i] == list[i]);
        }
        lemma_piece(init, name, vals.drop_last(), key);
        assert(list[list.len() - 1] == (name, vals[vals.len() - 1]));
        assert(vals =~= vals.drop_last().push(vals.last()));
    } else {
        assert(vals =~= Seq::empty());
    }
}

} // verus!
