//! Searching, trimming and splitting text.

use crate::text::chars::{char_is_whitespace, chars_of, is_whitespace, string_of_range};
use vstd::prelude::*;

verus! {

/// The index of the first `c` in `s`.
pub open spec fn find(s: Seq<char>, c: char) -> Option<int>
    decreases s.len(),
{
    if s.len() == 0 {
        None
    } else if s[0] == c {
        Some(0)
    } else {
        match find(s.skip(1), c) {
            Some(i) => Some(i + 1),
            None => None,
        }
    }
}

/// `find` points at the first occurrence.
pub proof fn lemma_find_first(s: Seq<char>, c: char, i: int)
    requires
        0 <= i < s.len(),
        s[i] == c,
        forall|j: int| 0 <= j < i ==> s[j] != c,
    ensures
        find(s, c) == Some(i),
    decreases s.len(),
{
    if i > 0 {
        lemma_find_first(s.skip(1), c, i - 1);
    }
}

/// `find` gives nothing where the character does not occur.
pub proof fn lemma_find_none(s: Seq<char>, c: char)
    requires
        forall|j: int| 0 <= j < s.len() ==> s[j] != c,
    ensures
        find(s, c) is None,
    decreases s.len(),
{
    if s.len() > 0 {
        lemma_find_none(s.skip(1), c);
    }
}

/// What `find` returns is in range and holds the character.
pub proof fn lemma_find_range(s: Seq<char>, c: char)
    ensures
        find(s, c) matches Some(i) ==> 0 <= i < s.len() && s[i] == c && forall|j: int|
            0 <= j < i ==> s[j] != c,
        find(s, c) is None ==> forall|j: int| 0 <= j < s.len() ==> s[j] != c,
    decreases s.len(),
{
    if s.len() > 0 && s[0] != c {
        lemma_find_range(s.skip(1), c);
        match find(s.skip(1), c) {
            Some(k) => {
                assert forall|j: int| 0 <= j < k + 1 implies s[j] != c by {
                    if j > 0 {
                        assert(s[j] == s.skip(1)[j - 1]);
                    }
                }
            },
            None => {
                assert forall|j: int| 0 <= j < s.len() implies s[j] != c by {
                    if j > 0 {
                        assert(s[j] == s.skip(1)[j - 1]);
                    }
                }
            },
        }
    }
}

/// The position of the first `c` at or after `from`.
pub fn find_from(cs: &[char], c: char, from: usize) -> (r: Option<usize>)
    requires
        from <= cs@.len(),
    ensures
        match r {
            Some(i) => from <= i < cs@.len() && find(cs@.skip(from as int), c) == Some(
                (i - from) as int,
            ),
            None => find(cs@.skip(from as int), c) is None,
        },
{
    let n: usize = cs.len();
    let mut i: usize = from;
    while i < n
        invariant
            n == cs@.len(),
            from <= i <= n,
            forall|j: int| from <= j < i ==> cs@[j] != c,
        decreases n - i,
    {
        if cs[i] == c {
            proof {
                lemma_find_first(cs@.skip(from as int), c, i - from);
            }
            return Some(i);
        }
        i = i + 1;
    }
    proof {
        lemma_find_none(cs@.skip(from as int), c);
    }
    None
}

/// Whether `p` occurs in `s`.
pub open spec fn occurs(p: Seq<char>, s: Seq<char>) -> bool {
    exists|i: int| 0 <= i && i + p.len() <= s.len() && #[trigger] s.subrange(i, i + p.len()) == p
}

/// Whether `cs[at..]` begins with `p`.
fn matches_at(cs: &[char], p: &[char], at: usize) -> (r: bool)
    requires
        at + p@.len() <= cs@.len(),
    ensures
        r == (cs@.subrange(at as int, at + p@.len()) == p@),
{
    let n: usize = p.len();
    let total: usize = cs.len();
    for i in 0..n
        invariant
            n == p@.len(),
            total == cs@.len(),
            at + n <= total,
            forall|j: int| 0 <= j < i ==> cs@[at + j] == p@[j],
    {
        if cs[at + i] != p[i] {
            assert(cs@.subrange(at as int, at + p@.len())[i as int] != p@[i as int]);
            return false;
        }
    }
    assert(cs@.subrange(at as int, at + p@.len()) =~= p@);
    true
}

/// Whether the text begins with `p`.
pub fn starts_with(s: &str, p: &str) -> (r: bool)
    ensures
        r == p@.is_prefix_of(s@),
{
    let cs = chars_of(s);
    let ps = chars_of(p);
    ps.len() <= cs.len() && matches_at(cs.as_slice(), ps.as_slice(), 0)
}

/// Whether the text ends with `p`.
pub fn ends_with(s: &str, p: &str) -> (r: bool)
    ensures
        r == p@.is_suffix_of(s@),
{
    let cs = chars_of(s);
    let ps = chars_of(p);
    ps.len() <= cs.len() && matches_at(cs.as_slice(), ps.as_slice(), cs.len() - ps.len())
}

/// Whether `p` occurs somewhere in the text.
pub fn contains(s: &str, p: &str) -> (r: bool)
    ensures
        r == occurs(p@, s@),
{
    let cs = chars_of(s);
    let ps = chars_of(p);
    if ps.len() > cs.len() {
        return false;
    }
    let last: usize = cs.len() - ps.len();
    let mut i: usize = 0;
    while i <= last
        invariant
            cs@ == s@,
            ps@ == p@,
            last + ps@.len() == cs@.len(),
            i <= last + 1,
            forall|j: int| 0 <= j < i ==> #[trigger] s@.subrange(j, j + p@.len()) != p@,
        decreases last + 1 - i,
    {
        if matches_at(cs.as_slice(), ps.as_slice(), i) {
            assert(s@.subrange(i as int, i + p@.len()) == p@);
            return true;
        }
        if i == last {
            assert(!occurs(p@, s@));
            return false;
        }
        i = i + 1;
    }
    false
}

/// Of two texts that begin another text, one begins the other.
pub proof fn lemma_prefixes_nest(p: Seq<char>, q: Seq<char>, s: Seq<char>)
    requires
        p.is_prefix_of(s),
        q.is_prefix_of(s),
    ensures
        p.is_prefix_of(q) || q.is_prefix_of(p),
{
    if p.len() <= q.len() {
        assert(q.subrange(0, p.len() as int) =~= p);
    } else {
        assert(p.subrange(0, q.len() as int) =~= q);
    }
}

/// The text after the prefix `p`, if it has that prefix.
pub open spec fn without_prefix(s: Seq<char>, p: Seq<char>) -> Option<Seq<char>> {
    if p.is_prefix_of(s) {
        Some(s.skip(p.len() as int))
    } else {
        None
    }
}

/// The text before the suffix `p`, if it has that suffix.
pub open spec fn without_suffix(s: Seq<char>, p: Seq<char>) -> Option<Seq<char>> {
    if p.is_suffix_of(s) {
        Some(s.take(s.len() - p.len()))
    } else {
        None
    }
}

/// Removes the prefix `p`.
pub fn strip_prefix(s: &str, p: &str) -> (r: Option<String>)
    ensures
        r.deep_view() == without_prefix(s@, p@),
{
    let cs = chars_of(s);
    let ps = chars_of(p);
    if ps.len() <= cs.len() && matches_at(cs.as_slice(), ps.as_slice(), 0) {
        Some(string_of_range(cs.as_slice(), ps.len(), cs.len()))
    } else {
        None
    }
}

/// Removes the suffix `p`.
pub fn strip_suffix(s: &str, p: &str) -> (r: Option<String>)
    ensures
        r.deep_view() == without_suffix(s@, p@),
{
    let cs = chars_of(s);
    let ps = chars_of(p);
    if ps.len() <= cs.len() && matches_at(cs.as_slice(), ps.as_slice(), cs.len() - ps.len()) {
        Some(string_of_range(cs.as_slice(), 0, cs.len() - ps.len()))
    } else {
        None
    }
}

/// The text without every trailing repetition of `p`.
pub open spec fn without_suffixes(s: Seq<char>, p: Seq<char>) -> Seq<char>
    decreases s.len(),
{
    if p.len() > 0 && p.is_suffix_of(s) {
        without_suffixes(s.take(s.len() - p.len()), p)
    } else {
        s
    }
}

/// Removes every trailing repetition of the non-empty text `p`.
pub fn trim_end_matches(s: &str, p: &str) -> (r: String)
    requires
        p@.len() > 0,
    ensures
        r@ == without_suffixes(s@, p@),
{
    let cs = chars_of(s);
    let ps = chars_of(p);
    let mut n: usize = cs.len();
    assert(s@.take(n as int) == s@);
    loop
        invariant
            cs@ == s@,
            ps@ == p@,
            p@.len() > 0,
            n <= cs@.len(),
            without_suffixes(s@, p@) == without_suffixes(s@.take(n as int), p@),
        decreases n,
    {
        let ghost before = s@.take(n as int);
        if ps.len() > n {
            return string_of_range(cs.as_slice(), 0, n);
        }
        assert(before.subrange(n - p@.len(), n as int) == s@.subrange(n - p@.len(), n as int));
        if !matches_at(cs.as_slice(), ps.as_slice(), n - ps.len()) {
            return string_of_range(cs.as_slice(), 0, n);
        }
        n = n - ps.len();
        assert(before.take(before.len() - p@.len()) == s@.take(n as int));
    }
}

/// The text without leading white space.
pub open spec fn trim_start(s: Seq<char>) -> Seq<char>
    decreases s.len(),
{
    if s.len() > 0 && is_whitespace(s[0]) {
        trim_start(s.skip(1))
    } else {
        s
    }
}

/// The text without trailing white space.
pub open spec fn trim_end(s: Seq<char>) -> Seq<char>
    decreases s.len(),
{
    if s.len() > 0 && is_whitespace(s.last()) {
        trim_end(s.drop_last())
    } else {
        s
    }
}

/// The text without white space at either end.
pub open spec fn trimmed(s: Seq<char>) -> Seq<char> {
    trim_end(trim_start(s))
}

/// The first position at or after `from` that is not white space.
fn skip_whitespace(cs: &[char], from: usize) -> (r: usize)
    requires
        from <= cs@.len(),
    ensures
        from <= r <= cs@.len(),
        trim_start(cs@.skip(from as int)) == cs@.skip(r as int),
        r < cs@.len() ==> !is_whitespace(cs@[r as int]),
{
    let n: usize = cs.len();
    let mut i: usize = from;
    while i < n && char_is_whitespace(cs[i])
        invariant
            n == cs@.len(),
            from <= i <= n,
            trim_start(cs@.skip(from as int)) == trim_start(cs@.skip(i as int)),
        ensures
            from <= i <= n,
            trim_start(cs@.skip(from as int)) == trim_start(cs@.skip(i as int)),
            i < n ==> !is_whitespace(cs@[i as int]),
        decreases n - i,
    {
        assert(cs@.skip(i as int).skip(1) == cs@.skip(i + 1));
        i = i + 1;
    }
    i
}

/// The end of `cs[from..]` without its trailing white space.
fn drop_whitespace(cs: &[char], from: usize) -> (r: usize)
    requires
        from <= cs@.len(),
    ensures
        from <= r <= cs@.len(),
        trim_end(cs@.skip(from as int)) == cs@.subrange(from as int, r as int),
{
    let mut n: usize = cs.len();
    assert(cs@.skip(from as int) == cs@.subrange(from as int, n as int));
    while from < n && char_is_whitespace(cs[n - 1])
        invariant
            from <= n <= cs@.len(),
            trim_end(cs@.skip(from as int)) == trim_end(cs@.subrange(from as int, n as int)),
        ensures
            from <= n <= cs@.len(),
            trim_end(cs@.skip(from as int)) == trim_end(cs@.subrange(from as int, n as int)),
            from < n ==> !is_whitespace(cs@[n - 1]),
        decreases n - from,
    {
        assert(cs@.subrange(from as int, n as int).drop_last() == cs@.subrange(
            from as int,
            n - 1,
        ));
        n = n - 1;
    }
    n
}

/// Removes white space at either end.
pub fn trim(s: &str) -> (r: String)
    ensures
        r@ == trimmed(s@),
{
    let cs = chars_of(s);
    assert(cs@.skip(0) == cs@);
    let from = skip_whitespace(cs.as_slice(), 0);
    let to = drop_whitespace(cs.as_slice(), from);
    string_of_range(cs.as_slice(), from, to)
}

/// A line without the carriage return that precedes its newline.
pub open spec fn without_return(s: Seq<char>) -> Seq<char> {
    if s.len() > 0 && s.last() == '\r' {
        s.drop_last()
    } else {
        s
    }
}

/// The lines of a text. A line ends at a newline, which is not part of it, nor
/// is a carriage return right before it; what follows the last newline is a
/// line if it is not empty.
pub open spec fn lines(s: Seq<char>) -> Seq<Seq<char>>
    decreases s.len(),
    via lines_decreases
{
    if s.len() == 0 {
        seq![]
    } else {
        match find(s, '\n') {
            Some(i) => seq![without_return(s.take(i))] + lines(s.skip(i + 1)),
            None => seq![s],
        }
    }
}

#[via_fn]
proof fn lines_decreases(s: Seq<char>) {
    lemma_find_range(s, '\n');
}

/// Splits a text into its lines.
pub fn split_lines(s: &str) -> (r: Vec<String>)
    ensures
        r.deep_view() == lines(s@),
{
    let cs = chars_of(s);
    let n: usize = cs.len();
    let mut r: Vec<String> = Vec::new();
    let mut at: usize = 0;
    assert(cs@.skip(0) == cs@);
    assert(r.deep_view() + lines(cs@) =~= lines(cs@));
    while at < n
        invariant
            n == cs@.len(),
            cs@ == s@,
            at <= n,
            r.deep_view() + lines(cs@.skip(at as int)) == lines(s@),
        decreases n - at,
    {
        let ghost rest = cs@.skip(at as int);
        let ghost done = r.deep_view();
        proof {
            lemma_find_range(rest, '\n');
        }
        match find_from(cs.as_slice(), '\n', at) {
            Some(end) => {
                let stop: usize = if end > at && cs[end - 1] == '\r' {
                    end - 1
                } else {
                    end
                };
                let line = string_of_range(cs.as_slice(), at, stop);
                assert(line@ == without_return(rest.take(end - at)));
                r.push(line);
                assert(rest.skip(end - at + 1) == cs@.skip(end + 1));
                assert(r.deep_view() =~= done.push(line@));
                assert(r.deep_view() + lines(cs@.skip(end + 1)) =~= done + lines(rest));
                at = end + 1;
            },
            None => {
                let line = string_of_range(cs.as_slice(), at, n);
                assert(line@ == rest);
                r.push(line);
                assert(r.deep_view() =~= done.push(line@));
                assert(r.deep_view() =~= done + lines(rest));
                assert(cs@.skip(n as int).len() == 0);
                assert(r.deep_view() + lines(cs@.skip(n as int)) =~= r.deep_view());
                at = n;
            },
        }
    }
    assert(cs@.skip(n as int).len() == 0);
    assert(r.deep_view() =~= r.deep_view() + lines(cs@.skip(n as int)));
    r
}

/// The length of the leading run of characters that are not white space.
pub open spec fn word_len(s: Seq<char>) -> nat
    decreases s.len(),
{
    if s.len() == 0 || is_whitespace(s[0]) {
        0
    } else {
        1 + word_len(s.skip(1))
    }
}

/// A word is no longer than the text it begins.
pub proof fn lemma_word_len(s: Seq<char>)
    ensures
        word_len(s) <= s.len(),
        s.len() > 0 && !is_whitespace(s[0]) ==> word_len(s) > 0,
    decreases s.len(),
{
    if s.len() > 0 && !is_whitespace(s[0]) {
        lemma_word_len(s.skip(1));
    }
}

proof fn lemma_trim_start_len(s: Seq<char>)
    ensures
        trim_start(s).len() <= s.len(),
        trim_start(s).len() > 0 ==> !is_whitespace(trim_start(s)[0]),
    decreases s.len(),
{
    if s.len() > 0 && is_whitespace(s[0]) {
        lemma_trim_start_len(s.skip(1));
    }
}

/// The maximal runs of characters that are not white space.
pub open spec fn words(s: Seq<char>) -> Seq<Seq<char>>
    decreases s.len(),
    via words_decreases
{
    let t = trim_start(s);
    if t.len() == 0 {
        seq![]
    } else {
        seq![t.take(word_len(t) as int)] + words(t.skip(word_len(t) as int))
    }
}

#[via_fn]
proof fn words_decreases(s: Seq<char>) {
    lemma_trim_start_len(s);
    lemma_word_len(trim_start(s));
}

/// Splits a text at its white space.
pub fn split_words(s: &str) -> (r: Vec<String>)
    ensures
        r.deep_view() == words(s@),
{
    let cs = chars_of(s);
    let n: usize = cs.len();
    let mut r: Vec<String> = Vec::new();
    assert(cs@.skip(0) == cs@);
    let mut at: usize = skip_whitespace(cs.as_slice(), 0);
    proof {
        lemma_words_trim(s@);
    }
    assert(r.deep_view() + words(cs@.skip(at as int)) =~= words(cs@));
    while at < n
        invariant
            n == cs@.len(),
            cs@ == s@,
            at <= n,
            at < n ==> !is_whitespace(cs@[at as int]),
            r.deep_view() + words(cs@.skip(at as int)) == words(s@),
        decreases n - at,
    {
        let ghost rest = cs@.skip(at as int);
        let ghost done = r.deep_view();
        let mut end: usize = at + 1;
        proof {
            assert(rest.skip(1) == cs@.skip(at + 1));
            assert(word_len(rest) == 1 + word_len(rest.skip(1)));
        }
        while end < n && !char_is_whitespace(cs[end])
            invariant
                n == cs@.len(),
                at < end <= n,
                rest == cs@.skip(at as int),
                word_len(rest) == (end - at) + word_len(cs@.skip(end as int)),
            ensures
                at < end <= n,
                word_len(rest) == (end - at) + word_len(cs@.skip(end as int)),
                end < n ==> is_whitespace(cs@[end as int]),
            decreases n - end,
        {
            assert(cs@.skip(end as int).skip(1) == cs@.skip(end + 1));
            end = end + 1;
        }
        assert(word_len(cs@.skip(end as int)) == 0);
        let word = string_of_range(cs.as_slice(), at, end);
        assert(word@ == rest.take(word_len(rest) as int));
        r.push(word);
        at = skip_whitespace(cs.as_slice(), end);
        proof {
            assert(trim_start(rest) == rest);
            assert(rest.skip(word_len(rest) as int) == cs@.skip(end as int));
            lemma_words_trim(cs@.skip(end as int));
            assert(r.deep_view() =~= done.push(word@));
            assert(r.deep_view() + words(cs@.skip(at as int)) =~= done + words(rest));
        }
    }
    assert(cs@.skip(n as int).len() == 0);
    assert(r.deep_view() =~= r.deep_view() + words(cs@.skip(n as int)));
    r
}

proof fn lemma_trim_start_twice(s: Seq<char>)
    ensures
        trim_start(trim_start(s)) == trim_start(s),
    decreases s.len(),
{
    if s.len() > 0 && is_whitespace(s[0]) {
        lemma_trim_start_twice(s.skip(1));
    }
}

/// Leading white space separates nothing.
pub proof fn lemma_words_trim(s: Seq<char>)
    ensures
        words(trim_start(s)) == words(s),
{
    lemma_trim_start_twice(s);
}

/// The texts of `parts` with `sep` between neighbours.
pub open spec fn joined(parts: Seq<Seq<char>>, sep: Seq<char>) -> Seq<char>
    decreases parts.len(),
{
    if parts.len() == 0 {
        seq![]
    } else if parts.len() == 1 {
        parts[0]
    } else {
        joined(parts.drop_last(), sep) + sep + parts.last()
    }
}

/// Joins strings with a separator.
pub fn join(parts: &Vec<String>, sep: &str) -> (r: String)
    ensures
        r@ == joined(parts.deep_view(), sep@),
{
    let mut r = String::new();
    let n: usize = parts.len();
    let ghost all = parts.deep_view();
    for i in 0..n
        invariant
            n == parts@.len(),
            all == parts.deep_view(),
            r@ == joined(all.take(i as int), sep@),
    {
        assert(all.take(i + 1).drop_last() == all.take(i as int));
        if i > 0 {
            r.append(sep);
            r.append(parts[i].as_str());
        } else {
            r.append(parts[i].as_str());
            assert(r@ =~= parts@[0]@);
        }
    }
    assert(all.take(n as int) == all);
    r
}

} // verus!
