//! JSON: writing texts and lists, and looking values up.

use crate::codec::digest::hex_digit;
use vstd::prelude::*;

verus! {

/// How a character is written in a JSON string.
pub open spec fn json_char(c: char) -> Seq<char> {
    if c == '"' {
        "\\\""@
    } else if c == '\\' {
        "\\\\"@
    } else if c == '\u{8}' {
        "\\b"@
    } else if c == '\u{c}' {
        "\\f"@
    } else if c == '\n' {
        "\\n"@
    } else if c == '\r' {
        "\\r"@
    } else if c == '\t' {
        "\\t"@
    } else if ' ' > c {
        "\\u00"@ + seq![hex_digit(c as int / 16), hex_digit(c as int % 16)]
    } else {
        seq![c]
    }
}

/// The inside of a JSON string.
pub open spec fn json_body(s: Seq<char>) -> Seq<char>
    decreases s.len(),
{
    if s.len() == 0 {
        Seq::empty()
    } else {
        json_body(s.drop_last()) + json_char(s.last())
    }
}

/// A text as a JSON string.
pub open spec fn json_text(s: Seq<char>) -> Seq<char> {
    "\""@ + json_body(s) + "\""@
}

/// `serde_json::to_string` of a string. It is trusted to put the string between
/// quotation marks, to write a quotation mark, a backslash and the control
/// characters below the space as JSON escapes, with the short escape where
/// there is one, and to leave every other character as it is.
#[verifier::external_body]
pub(crate) fn quote(s: &str) -> (r: String)
    ensures
        r@ == json_text(s@),
{
    serde_json::to_string(s).unwrap_or_default()
}

/// JSON strings with commas between them.
pub open spec fn json_items(items: Seq<Seq<char>>) -> Seq<char>
    decreases items.len(),
{
    if items.len() == 0 {
        Seq::empty()
    } else if items.len() == 1 {
        json_text(items[0])
    } else {
        json_items(items.drop_last()) + ","@ + json_text(items.last())
    }
}

/// Texts as a JSON array.
pub open spec fn json_list(items: Seq<Seq<char>>) -> Seq<char> {
    "["@ + json_items(items) + "]"@
}

/// Writes texts as a JSON array.
pub fn push_list(out: &mut String, items: &Vec<String>)
    ensures
        final(out)@ == old(out)@ + json_list(items.deep_view()),
{
    let ghost before = out@;
    let ghost all = items.deep_view();
    out.append("[");
    let ghost head = out@;
    let n: usize = items.len();
    assert(out@ =~= head + json_items(all.take(0)));
    for i in 0..n
        invariant
            n == items@.len(),
            all == items.deep_view(),
            out@ == head + json_items(all.take(i as int)),
    {
        assert(all.take(i + 1).drop_last() == all.take(i as int));
        assert(all.take(i + 1).last() == items@[i as int]@);
        if i > 0 {
            out.append(",");
        }
        out.append(quote(items[i].as_str()).as_str());
        assert(out@ =~= head + json_items(all.take(i + 1)));
    }
    assert(all.take(n as int) == all);
    out.append("]");
    assert(out@ =~= before + json_list(all));
}

proof fn lemma_body_front(s: Seq<char>)
    requires
        s.len() > 0,
    ensures
        json_body(s) == json_char(s[0]) + json_body(s.skip(1)),
    decreases s.len(),
{
    if s.len() == 1 {
        assert(json_body(s.drop_last()) =~= Seq::<char>::empty());
        assert(json_body(s.skip(1)) =~= Seq::<char>::empty());
    } else {
        let init = s.drop_last();
        lemma_body_front(init);
        assert(s.skip(1).drop_last() =~= init.skip(1));
        assert(json_body(s) =~= json_char(s[0]) + (json_body(init.skip(1)) + json_char(s.last())));
    }
}

proof fn lemma_hex_digits_differ(a: int, b: int)
    requires
        0 <= a < 16,
        0 <= b < 16,
        hex_digit(a) == hex_digit(b),
    ensures
        a == b,
{
}

/// What follows one prefix follows it in whatever way it is written.
pub proof fn lemma_same_rest(prefix: Seq<char>, x: Seq<char>, y: Seq<char>)
    requires
        prefix + x == prefix + y,
    ensures
        x == y,
{
    let n = prefix.len() as int;
    assert(x =~= (prefix + x).skip(n));
    assert(y =~= (prefix + y).skip(n));
}

proof fn lemma_json_char(c: char)
    ensures
        json_char(c).len() > 0,
        json_char(c)[0] != '"',
        json_char(c)[0] != '\\' ==> json_char(c) == seq![c],
        json_char(c)[0] == '\\' ==> json_char(c).len() > 1,
        json_char(c)[0] == '\\' ==> match json_char(c)[1] {
            '"' => c == '"',
            '\\' => c == '\\',
            'b' => c == '\u{8}',
            'f' => c == '\u{c}',
            'n' => c == '\n',
            'r' => c == '\r',
            't' => c == '\t',
            'u' => ' ' > c && json_char(c).len() == 6 && json_char(c)[4] == hex_digit(c as int / 16)
                && json_char(c)[5] == hex_digit(c as int % 16),
            _ => false,
        },
{
    reveal_strlit("\\\"");
    reveal_strlit("\\\\");
    reveal_strlit("\\b");
    reveal_strlit("\\f");
    reveal_strlit("\\n");
    reveal_strlit("\\r");
    reveal_strlit("\\t");
    reveal_strlit("\\u00");
}

proof fn lemma_json_chars_differ(c: char, d: char, x: Seq<char>, y: Seq<char>)
    requires
        json_char(c) + x == json_char(d) + y,
    ensures
        c == d,
        x == y,
{
    lemma_json_char(c);
    lemma_json_char(d);
    let s = json_char(c) + x;
    let t = json_char(d) + y;
    assert(s[0] == json_char(c)[0] && t[0] == json_char(d)[0]);
    if json_char(c)[0] == '\\' {
        assert(s[1] == json_char(c)[1] && t[1] == json_char(d)[1]);
        if json_char(c)[1] == 'u' {
            assert(s[4] == json_char(c)[4] && t[4] == json_char(d)[4]);
            assert(s[5] == json_char(c)[5] && t[5] == json_char(d)[5]);
            lemma_hex_digits_differ(c as int / 16, d as int / 16);
            lemma_hex_digits_differ(c as int % 16, d as int % 16);
            assert(c as int == d as int);
        }
    }
    assert(c == d);
    lemma_same_rest(json_char(c), x, y);
}

proof fn lemma_bodies_differ(s: Seq<char>, t: Seq<char>, x: Seq<char>, y: Seq<char>)
    requires
        json_body(s) + ("\""@ + x) == json_body(t) + ("\""@ + y),
    ensures
        s == t,
        x == y,
    decreases s.len(),
{
    reveal_strlit("\"");
    let p = "\""@ + x;
    let q = "\""@ + y;
    if s.len() == 0 || t.len() == 0 {
        if s.len() > 0 {
            lemma_body_front(s);
            lemma_json_char(s[0]);
            assert((json_body(s) + p)[0] == json_char(s[0])[0]);
            assert((json_body(t) + q)[0] == '"');
        }
        if t.len() > 0 {
            lemma_body_front(t);
            lemma_json_char(t[0]);
            assert((json_body(t) + q)[0] == json_char(t[0])[0]);
            assert((json_body(s) + p)[0] == '"');
        }
        assert(json_body(s) + p =~= p);
        assert(json_body(t) + q =~= q);
        assert(s =~= t);
        lemma_same_rest("\""@, x, y);
    } else {
        lemma_body_front(s);
        lemma_body_front(t);
        let a = json_body(s.skip(1)) + p;
        let b = json_body(t.skip(1)) + q;
        assert(json_body(s) + p =~= json_char(s[0]) + a);
        assert(json_body(t) + q =~= json_char(t[0]) + b);
        lemma_json_chars_differ(s[0], t[0], a, b);
        lemma_bodies_differ(s.skip(1), t.skip(1), x, y);
        assert(s =~= seq![s[0]] + s.skip(1));
        assert(t =~= seq![t[0]] + t.skip(1));
    }
}

/// A JSON string tells where it ends and what it stands for, whatever follows it.
pub proof fn law_json_texts_are_told_apart(
    s: Seq<char>,
    t: Seq<char>,
    x: Seq<char>,
    y: Seq<char>,
)
    requires
        json_text(s) + x == json_text(t) + y,
    ensures
        s == t,
        x == y,
{
    let a = json_body(s) + ("\""@ + x);
    let b = json_body(t) + ("\""@ + y);
    assert(json_text(s) + x =~= "\""@ + a);
    assert(json_text(t) + y =~= "\""@ + b);
    lemma_same_rest("\""@, a, b);
    lemma_bodies_differ(s, t, x, y);
}

proof fn lemma_items_front(items: Seq<Seq<char>>)
    requires
        items.len() > 1,
    ensures
        json_items(items) == json_text(items[0]) + ","@ + json_items(items.skip(1)),
    decreases items.len(),
{
    let init = items.drop_last();
    if items.len() == 2 {
        assert(json_items(init) == json_text(items[0]));
        assert(json_items(items.skip(1)) == json_text(items.last()));
    } else {
        lemma_items_front(init);
        assert(items.skip(1).drop_last() =~= init.skip(1));
        assert(json_items(items) =~= json_text(items[0]) + ","@ + (json_items(init.skip(1)) + ","@
            + json_text(items.last())));
    }
}

/// What stands behind the first item of a list.
spec fn rest_of_items(items: Seq<Seq<char>>, x: Seq<char>) -> Seq<char> {
    if items.len() == 1 {
        "]"@ + x
    } else {
        ","@ + (json_items(items.skip(1)) + ("]"@ + x))
    }
}

proof fn lemma_first_item(items: Seq<Seq<char>>, x: Seq<char>)
    requires
        items.len() > 0,
    ensures
        json_items(items) + ("]"@ + x) == json_text(items[0]) + rest_of_items(items, x),
{
    if items.len() > 1 {
        lemma_items_front(items);
    }
    assert(json_items(items) + ("]"@ + x) =~= json_text(items[0]) + rest_of_items(items, x));
}

proof fn lemma_items_differ(
    a: Seq<Seq<char>>,
    b: Seq<Seq<char>>,
    x: Seq<char>,
    y: Seq<char>,
)
    requires
        json_items(a) + ("]"@ + x) == json_items(b) + ("]"@ + y),
    ensures
        a == b,
        x == y,
    decreases a.len(),
{
    reveal_strlit("]");
    reveal_strlit(",");
    reveal_strlit("\"");
    let p = "]"@ + x;
    let q = "]"@ + y;
    if a.len() > 0 {
        lemma_first_item(a, x);
        assert((json_items(a) + p)[0] == '"');
    } else {
        assert(json_items(a) + p =~= p);
        assert((json_items(a) + p)[0] == ']');
    }
    if b.len() > 0 {
        lemma_first_item(b, y);
        assert((json_items(b) + q)[0] == '"');
    } else {
        assert(json_items(b) + q =~= q);
        assert((json_items(b) + q)[0] == ']');
    }
    if a.len() == 0 {
        assert(a =~= b);
        lemma_same_rest("]"@, x, y);
    } else {
        let r = rest_of_items(a, x);
        let t = rest_of_items(b, y);
        law_json_texts_are_told_apart(a[0], b[0], r, t);
        assert(r[0] == t[0]);
        assert(a.len() == 1 <==> r[0] == ']');
        assert(b.len() == 1 <==> t[0] == ']');
        if a.len() == 1 {
            lemma_same_rest("]"@, x, y);
            assert(a =~= b);
        } else {
            lemma_same_rest(
                ","@,
                json_items(a.skip(1)) + p,
                json_items(b.skip(1)) + q,
            );
            lemma_items_differ(a.skip(1), b.skip(1), x, y);
            assert(a =~= seq![a[0]] + a.skip(1));
            assert(b =~= seq![b[0]] + b.skip(1));
        }
    }
}

/// A JSON array of texts tells where it ends and what it holds, whatever follows
/// it.
pub proof fn law_json_lists_are_told_apart(
    a: Seq<Seq<char>>,
    b: Seq<Seq<char>>,
    x: Seq<char>,
    y: Seq<char>,
)
    requires
        json_list(a) + x == json_list(b) + y,
    ensures
        a == b,
        x == y,
{
    let s = json_items(a) + ("]"@ + x);
    let t = json_items(b) + ("]"@ + y);
    assert(json_list(a) + x =~= "["@ + s);
    assert(json_list(b) + y =~= "["@ + t);
    lemma_same_rest("["@, s, t);
    lemma_items_differ(a, b, x, y);
}

/// Why bytes are no JSON document, if they are none.
pub uninterp spec fn json_fault(bytes: Seq<u8>) -> Option<Seq<char>>;

/// Whether a JSON document has a value at a pointer.
pub uninterp spec fn json_has(bytes: Seq<u8>, pointer: Seq<char>) -> bool;

/// The length of the array at a pointer, if there is an array.
pub uninterp spec fn json_len(bytes: Seq<u8>, pointer: Seq<char>) -> Option<nat>;

/// The string at a pointer, if there is a string.
pub uninterp spec fn json_string(bytes: Seq<u8>, pointer: Seq<char>) -> Option<Seq<char>>;

/// `serde_json::from_slice` into a `serde_json::Value`: the error as text, if
/// there is one. It is trusted that the outcome depends on the bytes alone.
#[verifier::external_body]
pub(crate) fn fault(bytes: &Vec<u8>) -> (r: Option<String>)
    ensures
        r.deep_view() == json_fault(bytes@),
{
    match serde_json::from_slice::<serde_json::Value>(bytes) {
        Ok(_) => None,
        Err(e) => Some(e.to_string()),
    }
}

/// `serde_json::Value::pointer` on the document in the bytes: whether there is
/// a value. It is trusted that the outcome depends on the arguments alone.
#[verifier::external_body]
pub(crate) fn has_value(bytes: &Vec<u8>, pointer: &str) -> (r: bool)
    ensures
        r == json_has(bytes@, pointer@),
{
    match serde_json::from_slice::<serde_json::Value>(bytes) {
        Ok(v) => v.pointer(pointer).is_some(),
        Err(_) => false,
    }
}

/// `serde_json::Value::as_array` at a pointer of the document in the bytes: the
/// length of the array. It is trusted that the outcome depends on the arguments
/// alone.
#[verifier::external_body]
pub(crate) fn array_len(bytes: &Vec<u8>, pointer: &str) -> (r: Option<usize>)
    ensures
        match r {
            Some(n) => json_len(bytes@, pointer@) == Some(n as nat),
            None => json_len(bytes@, pointer@) is None,
        },
{
    match serde_json::from_slice::<serde_json::Value>(bytes) {
        Ok(v) => Some(v.pointer(pointer)?.as_array()?.len()),
        Err(_) => None,
    }
}

/// `serde_json::Value::as_str` at a pointer of the document in the bytes. It is
/// trusted that the outcome depends on the arguments alone.
#[verifier::external_body]
pub(crate) fn string_at(bytes: &Vec<u8>, pointer: &str) -> (r: Option<String>)
    ensures
        r.deep_view() == json_string(bytes@, pointer@),
{
    match serde_json::from_slice::<serde_json::Value>(bytes) {
        Ok(v) => Some(v.pointer(pointer)?.as_str()?.to_string()),
        Err(_) => None,
    }
}

} // verus!
