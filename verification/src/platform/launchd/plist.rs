//! Property lists: the part of the format that launchd jobs need.

use crate::text::chars::chars_of;
use crate::text::number::{decimal, push_decimal};
use vstd::prelude::*;

verus! {

/// A value without parts.
#[derive(Debug)]
pub enum Scalar {
    Text(String),
    Number(u64),
    Flag(bool),
}

/// A value of a job's dictionary.
#[derive(Debug)]
pub enum Value {
    Scalar(Scalar),
    Array(Vec<String>),
    Dict(Vec<(String, Scalar)>),
}

#[verifier::ext_equal]
pub enum ScalarView {
    Text(Seq<char>),
    Number(nat),
    Flag(bool),
}

#[verifier::ext_equal]
pub enum ValueView {
    Scalar(ScalarView),
    Array(Seq<Seq<char>>),
    Dict(Seq<(Seq<char>, ScalarView)>),
}

impl View for Scalar {
    type V = ScalarView;

    open spec fn view(&self) -> ScalarView {
        match *self {
            Scalar::Text(s) => ScalarView::Text(s@),
            Scalar::Number(n) => ScalarView::Number(n as nat),
            Scalar::Flag(b) => ScalarView::Flag(b),
        }
    }
}

impl DeepView for Scalar {
    type V = ScalarView;

    open spec fn deep_view(&self) -> ScalarView {
        self@
    }
}

impl View for Value {
    type V = ValueView;

    open spec fn view(&self) -> ValueView {
        match *self {
            Value::Scalar(v) => ValueView::Scalar(v@),
            Value::Array(v) => ValueView::Array(v.deep_view()),
            Value::Dict(v) => ValueView::Dict(v.deep_view()),
        }
    }
}

impl DeepView for Value {
    type V = ValueView;

    open spec fn deep_view(&self) -> ValueView {
        self@
    }
}

/// How a character is written in XML text.
pub open spec fn entity(c: char) -> Seq<char> {
    if c == '&' {
        "&amp;"@
    } else if c == '<' {
        "&lt;"@
    } else if c == '>' {
        "&gt;"@
    } else if c == '"' {
        "&quot;"@
    } else if c == '\'' {
        "&apos;"@
    } else {
        seq![c]
    }
}

/// A text with the characters that XML reserves written as entities.
pub open spec fn escaped(s: Seq<char>) -> Seq<char>
    decreases s.len(),
{
    if s.len() == 0 {
        Seq::empty()
    } else {
        entity(s[0]) + escaped(s.skip(1))
    }
}

/// Escapes a text for XML.
pub fn xml_escape(s: &str) -> (r: String)
    ensures
        r@ == escaped(s@),
{
    let cs = chars_of(s);
    let mut out = String::new();
    let n: usize = cs.len();
    assert(cs@.skip(0) == cs@);
    assert(out@ + escaped(cs@) =~= escaped(cs@));
    for i in 0..n
        invariant
            n == cs@.len(),
            cs@ == s@,
            out@ + escaped(cs@.skip(i as int)) == escaped(s@),
    {
        let ghost before = out@;
        let c = cs[i];
        if c == '&' {
            out.append("&amp;");
        } else if c == '<' {
            out.append("&lt;");
        } else if c == '>' {
            out.append("&gt;");
        } else if c == '"' {
            out.append("&quot;");
        } else if c == '\'' {
            out.append("&apos;");
        } else {
            out.push(c);
        }
        proof {
            let rest = cs@.skip(i as int);
            assert(rest.skip(1) == cs@.skip(i + 1));
            assert(out@ =~= before + entity(rest[0]));
            assert(out@ + escaped(cs@.skip(i + 1)) =~= before + escaped(rest));
        }
    }
    assert(cs@.skip(n as int).len() == 0);
    assert(out@ + escaped(cs@.skip(n as int)) =~= out@);
    out
}

/// A scalar on a line of its own.
pub open spec fn scalar_line(indent: Seq<char>, v: ScalarView) -> Seq<char> {
    match v {
        ScalarView::Text(s) => indent + "<string>"@ + escaped(s) + "</string>\n"@,
        ScalarView::Number(n) => indent + "<integer>"@ + decimal(n) + "</integer>\n"@,
        ScalarView::Flag(b) => if b {
            indent + "<true/>\n"@
        } else {
            indent + "<false/>\n"@
        },
    }
}

/// A key on a line of its own.
pub open spec fn key_line(indent: Seq<char>, key: Seq<char>) -> Seq<char> {
    indent + "<key>"@ + escaped(key) + "</key>\n"@
}

/// The lines of an array's items.
pub open spec fn item_lines(items: Seq<Seq<char>>) -> Seq<char>
    decreases items.len(),
{
    if items.len() == 0 {
        Seq::empty()
    } else {
        item_lines(items.drop_last()) + scalar_line("    "@, ScalarView::Text(items.last()))
    }
}

/// The lines of a dictionary's entries.
pub open spec fn pair_lines(pairs: Seq<(Seq<char>, ScalarView)>) -> Seq<char>
    decreases pairs.len(),
{
    if pairs.len() == 0 {
        Seq::empty()
    } else {
        pair_lines(pairs.drop_last()) + key_line("    "@, pairs.last().0) + scalar_line(
            "    "@,
            pairs.last().1,
        )
    }
}

/// The lines of a value of a job's dictionary.
pub open spec fn value_lines(v: ValueView) -> Seq<char> {
    match v {
        ValueView::Scalar(s) => scalar_line("  "@, s),
        ValueView::Array(items) => "  <array>\n"@ + item_lines(items) + "  </array>\n"@,
        ValueView::Dict(pairs) => "  <dict>\n"@ + pair_lines(pairs) + "  </dict>\n"@,
    }
}

/// The lines of a job's dictionary.
pub open spec fn entry_lines(entries: Seq<(Seq<char>, ValueView)>) -> Seq<char>
    decreases entries.len(),
{
    if entries.len() == 0 {
        Seq::empty()
    } else {
        entry_lines(entries.drop_last()) + key_line("  "@, entries.last().0) + value_lines(
            entries.last().1,
        )
    }
}

/// The property list of a job.
pub open spec fn document(entries: Seq<(Seq<char>, ValueView)>) -> Seq<char> {
    "<?xml version=\"1.0\" encoding=\"UTF-8\"?>\n"@
        + "<!DOCTYPE plist PUBLIC \"-//Apple//DTD PLIST 1.0//EN\" \"http://www.apple.com/DTDs/PropertyList-1.0.dtd\">\n"@
        + "<plist version=\"1.0\">\n"@ + "<dict>\n"@ + entry_lines(entries) + "</dict>\n"@
        + "</plist>\n"@
}

fn put_scalar(out: &mut String, indent: &str, v: &Scalar)
    ensures
        final(out)@ == old(out)@ + scalar_line(indent@, v@),
{
    let ghost before = out@;
    out.append(indent);
    match v {
        Scalar::Text(s) => {
            out.append("<string>");
            out.append(xml_escape(s.as_str()).as_str());
            out.append("</string>\n");
        },
        Scalar::Number(n) => {
            out.append("<integer>");
            push_decimal(out, *n);
            out.append("</integer>\n");
        },
        Scalar::Flag(b) => {
            if *b {
                out.append("<true/>\n");
            } else {
                out.append("<false/>\n");
            }
        },
    }
    assert(out@ =~= before + scalar_line(indent@, v@));
}

fn put_text(out: &mut String, indent: &str, s: &str)
    ensures
        final(out)@ == old(out)@ + scalar_line(indent@, ScalarView::Text(s@)),
{
    let ghost before = out@;
    out.append(indent);
    out.append("<string>");
    out.append(xml_escape(s).as_str());
    out.append("</string>\n");
    assert(out@ =~= before + scalar_line(indent@, ScalarView::Text(s@)));
}

fn put_key(out: &mut String, indent: &str, key: &str)
    ensures
        final(out)@ == old(out)@ + key_line(indent@, key@),
{
    let ghost before = out@;
    out.append(indent);
    out.append("<key>");
    out.append(xml_escape(key).as_str());
    out.append("</key>\n");
    assert(out@ =~= before + key_line(indent@, key@));
}

fn put_value(out: &mut String, v: &Value)
    ensures
        final(out)@ == old(out)@ + value_lines(v@),
{
    let ghost before = out@;
    match v {
        Value::Scalar(s) => {
            put_scalar(out, "  ", s);
        },
        Value::Array(items) => {
            out.append("  <array>\n");
            let ghost opened = out@;
            let n: usize = items.len();
            let ghost all = items.deep_view();
            assert(out@ =~= opened + item_lines(all.take(0)));
            for i in 0..n
                invariant
                    n == items@.len(),
                    all == items.deep_view(),
                    out@ == opened + item_lines(all.take(i as int)),
            {
                assert(all.take(i + 1).drop_last() == all.take(i as int));
                assert(all.take(i + 1).last() == items@[i as int]@);
                put_text(out, "    ", items[i].as_str());
                assert(out@ =~= opened + item_lines(all.take(i + 1)));
            }
            assert(all.take(n as int) == all);
            out.append("  </array>\n");
            assert(out@ =~= before + value_lines(v@));
        },
        Value::Dict(pairs) => {
            out.append("  <dict>\n");
            let ghost opened = out@;
            let n: usize = pairs.len();
            let ghost all = pairs.deep_view();
            assert(out@ =~= opened + pair_lines(all.take(0)));
            for i in 0..n
                invariant
                    n == pairs@.len(),
                    all == pairs.deep_view(),
                    out@ == opened + pair_lines(all.take(i as int)),
            {
                assert(all.take(i + 1).drop_last() == all.take(i as int));
                assert(all.take(i + 1).last() == (pairs@[i as int].0@, pairs@[i as int].1@));
                put_key(out, "    ", pairs[i].0.as_str());
                put_scalar(out, "    ", &pairs[i].1);
                assert(out@ =~= opened + pair_lines(all.take(i + 1)));
            }
            assert(all.take(n as int) == all);
            out.append("  </dict>\n");
            assert(out@ =~= before + value_lines(v@));
        },
    }
}

/// Writes the property list of a job.
pub fn render(entries: &Vec<(String, Value)>) -> (r: String)
    ensures
        r@ == document(entries.deep_view()),
{
    let mut out = "<?xml version=\"1.0\" encoding=\"UTF-8\"?>\n".to_string();
    out.append(
        "<!DOCTYPE plist PUBLIC \"-//Apple//DTD PLIST 1.0//EN\" \"http://www.apple.com/DTDs/PropertyList-1.0.dtd\">\n",
    );
    out.append("<plist version=\"1.0\">\n");
    out.append("<dict>\n");
    let ghost opened = out@;
    let n: usize = entries.len();
    let ghost all = entries.deep_view();
    assert(out@ =~= opened + entry_lines(all.take(0)));
    for i in 0..n
        invariant
            n == entries@.len(),
            all == entries.deep_view(),
            out@ == opened + entry_lines(all.take(i as int)),
    {
        assert(all.take(i + 1).drop_last() == all.take(i as int));
        assert(all.take(i + 1).last() == (entries@[i as int].0@, entries@[i as int].1@));
        put_key(&mut out, "  ", entries[i].0.as_str());
        put_value(&mut out, &entries[i].1);
        assert(out@ =~= opened + entry_lines(all.take(i + 1)));
    }
    assert(all.take(n as int) == all);
    out.append("</dict>\n");
    out.append("</plist>\n");
    out
}

/// Whether a text is free of the characters that end XML text or a quoted
/// value.
pub open spec fn plain(s: Seq<char>) -> bool {
    forall|i: int|
        0 <= i < s.len() ==> s[i] != '<' && s[i] != '>' && s[i] != '"' && s[i] != '\''
}

proof fn lemma_entity(c: char)
    ensures
        entity(c).len() > 0,
        plain(entity(c)),
{
    reveal_strlit("&amp;");
    reveal_strlit("&lt;");
    reveal_strlit("&gt;");
    reveal_strlit("&quot;");
    reveal_strlit("&apos;");
}

/// An escaped text cannot be taken for markup: it holds no angle bracket and no
/// quotation mark.
pub proof fn law_escaped_is_plain(s: Seq<char>)
    ensures
        plain(escaped(s)),
    decreases s.len(),
{
    if s.len() > 0 {
        lemma_entity(s[0]);
        law_escaped_is_plain(s.skip(1));
    }
}

/// Entities tell their characters apart, whatever follows them.
proof fn lemma_entities_differ(a: char, b: char, x: Seq<char>, y: Seq<char>)
    requires
        entity(a) + x == entity(b) + y,
    ensures
        a == b,
{
    reveal_strlit("&amp;");
    reveal_strlit("&lt;");
    reveal_strlit("&gt;");
    reveal_strlit("&quot;");
    reveal_strlit("&apos;");
    let p = entity(a) + x;
    let q = entity(b) + y;
    assert(p[0] == entity(a)[0] && q[0] == entity(b)[0]);
    if entity(a).len() > 1 && entity(b).len() > 1 {
        assert(p[1] == entity(a)[1] && q[1] == entity(b)[1]);
        assert(p[2] == entity(a)[2] && q[2] == entity(b)[2]);
    }
}

/// Escaping loses nothing: two texts that are escaped alike are the same.
pub proof fn law_escaping_keeps_the_text(a: Seq<char>, b: Seq<char>)
    requires
        escaped(a) == escaped(b),
    ensures
        a == b,
    decreases a.len(),
{
    if a.len() == 0 || b.len() == 0 {
        if a.len() > 0 {
            lemma_entity(a[0]);
        }
        if b.len() > 0 {
            lemma_entity(b[0]);
        }
        assert(a =~= b);
    } else {
        lemma_entities_differ(a[0], b[0], escaped(a.skip(1)), escaped(b.skip(1)));
        let n = entity(a[0]).len() as int;
        assert(escaped(a).skip(n) =~= escaped(a.skip(1)));
        assert(escaped(b).skip(n) =~= escaped(b.skip(1)));
        law_escaping_keeps_the_text(a.skip(1), b.skip(1));
        assert(a =~= seq![a[0]] + a.skip(1));
        assert(b =~= seq![b[0]] + b.skip(1));
    }
}

} // verus!
