//! Paths as strings, with `/` between their components.

use crate::text::chars::{chars_of, string_of_range};
use vstd::prelude::*;

verus! {

/// The path `p` seen from the directory `base`.
pub open spec fn under(base: Seq<char>, p: Seq<char>) -> Seq<char> {
    if p.len() > 0 && p[0] == '/' {
        p
    } else if base.len() > 0 && base.last() != '/' {
        base + "/"@ + p
    } else {
        base + p
    }
}

/// Joins a directory and a path.
pub fn join(base: &str, p: &str) -> (r: String)
    ensures
        r@ == under(base@, p@),
{
    let ps = chars_of(p);
    if ps.len() > 0 && ps[0] == '/' {
        return p.to_string();
    }
    let bs = chars_of(base);
    let mut r = base.to_string();
    if bs.len() > 0 && bs[bs.len() - 1] != '/' {
        r.append("/");
    }
    r.append(p);
    r
}

/// The position of the last dot of a text.
pub open spec fn last_dot(name: Seq<char>) -> Option<int>
    decreases name.len(),
{
    if name.len() == 0 {
        None
    } else if name.last() == '.' {
        Some(name.len() - 1)
    } else {
        last_dot(name.drop_last())
    }
}

/// The extension of a file name: what follows its last dot, unless that dot is
/// its first character.
pub open spec fn extension(name: Seq<char>) -> Option<Seq<char>> {
    match last_dot(name) {
        Some(i) => if i > 0 {
            Some(name.skip(i + 1))
        } else {
            None
        },
        None => None,
    }
}

/// The file name without its extension.
pub open spec fn stem(name: Seq<char>) -> Seq<char> {
    match last_dot(name) {
        Some(i) => if i > 0 {
            name.take(i)
        } else {
            name
        },
        None => name,
    }
}

/// What stands where the last dot does, and behind it.
pub proof fn lemma_last_dot(name: Seq<char>)
    ensures
        last_dot(name) matches Some(i) ==> 0 <= i < name.len() && name[i] == '.' && forall|j: int|
            i < j < name.len() ==> name[j] != '.',
        last_dot(name) is None ==> forall|j: int| 0 <= j < name.len() ==> name[j] != '.',
    decreases name.len(),
{
    if name.len() > 0 && name.last() != '.' {
        lemma_last_dot(name.drop_last());
        let init = name.drop_last();
        assert(forall|j: int| 0 <= j < init.len() ==> init[j] == name[j]);
    }
}

/// Finds the last dot that is not the first character.
fn find_dot(cs: &[char]) -> (r: Option<usize>)
    ensures
        r matches Some(i) ==> 0 < i < cs@.len() && last_dot(cs@) == Some(i as int),
        r is None ==> (last_dot(cs@) is None || last_dot(cs@) == Some(0int)),
{
    let mut i: usize = cs.len();
    assert(cs@.take(i as int) == cs@);
    while i > 1
        invariant
            i <= cs@.len(),
            last_dot(cs@) == last_dot(cs@.take(i as int)),
        decreases i,
    {
        assert(cs@.take(i as int).drop_last() == cs@.take(i - 1));
        if cs[i - 1] == '.' {
            return Some(i - 1);
        }
        i = i - 1;
    }
    proof {
        lemma_last_dot(cs@.take(i as int));
    }
    None
}

/// Gives the extension of a file name.
pub fn extension_of(name: &str) -> (r: Option<String>)
    ensures
        r.deep_view() == extension(name@),
{
    let cs = chars_of(name);
    let n: usize = cs.len();
    match find_dot(cs.as_slice()) {
        Some(i) => Some(string_of_range(cs.as_slice(), i + 1, n)),
        None => None,
    }
}

/// Gives a file name without its extension.
pub fn stem_of(name: &str) -> (r: String)
    ensures
        r@ == stem(name@),
{
    let cs = chars_of(name);
    match find_dot(cs.as_slice()) {
        Some(i) => string_of_range(cs.as_slice(), 0, i),
        None => name.to_string(),
    }
}

/// A name with a dotted extension has that extension and that stem.
pub proof fn lemma_with_extension(base: Seq<char>, ext: Seq<char>)
    requires
        base.len() > 0,
        forall|i: int| 0 <= i < ext.len() ==> ext[i] != '.',
    ensures
        extension(base + seq!['.'] + ext) == Some(ext),
        stem(base + seq!['.'] + ext) == base,
{
    let name = base + seq!['.'] + ext;
    lemma_last_dot(name);
    assert(name[base.len() as int] == '.');
    match last_dot(name) {
        Some(i) => {
            if i > base.len() {
                assert(name[i] == ext[i - base.len() - 1]);
            }
            assert(i == base.len());
            assert(name.skip(i + 1) =~= ext);
            assert(name.take(i) =~= base);
        },
        None => {},
    }
}

} // verus!
