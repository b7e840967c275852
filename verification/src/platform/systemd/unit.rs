//! Unit files: sections of `key=value` lines.

use crate::collections::Entry;
use crate::text::chars::chars_of;
use crate::text::number::{decimal, decimal_of};
use vstd::prelude::*;

verus! {

/// A section with its lines.
pub open spec fn section(name: Seq<char>, lines: Seq<Entry>) -> Seq<char> {
    "["@ + name + "]\n"@ + settings(lines)
}

/// The lines of a section.
pub open spec fn settings(lines: Seq<Entry>) -> Seq<char>
    decreases lines.len(),
{
    if lines.len() == 0 {
        Seq::empty()
    } else {
        settings(lines.drop_last()) + lines.last().0 + "="@ + lines.last().1 + "\n"@
    }
}

/// An optional line.
pub open spec fn optional(key: Seq<char>, value: Option<Seq<char>>) -> Seq<Entry> {
    match value {
        Some(v) => seq![(key, v)],
        None => seq![],
    }
}

/// An optional line with a number.
pub open spec fn number(key: Seq<char>, value: Option<u64>) -> Seq<Entry> {
    match value {
        Some(n) => seq![(key, decimal(n as nat))],
        None => seq![],
    }
}

/// Writes a section.
pub fn put_section(out: &mut String, name: &str, lines: &Vec<(String, String)>)
    ensures
        final(out)@ == old(out)@ + section(name@, lines.deep_view()),
{
    let ghost before = out@;
    out.append("[");
    out.append(name);
    out.append("]\n");
    let ghost opened = out@;
    let n: usize = lines.len();
    let ghost all = lines.deep_view();
    assert(out@ =~= opened + settings(all.take(0)));
    for i in 0..n
        invariant
            n == lines@.len(),
            all == lines.deep_view(),
            out@ == opened + settings(all.take(i as int)),
    {
        assert(all.take(i + 1).drop_last() == all.take(i as int));
        assert(all.take(i + 1).last() == (lines@[i as int].0@, lines@[i as int].1@));
        out.append(lines[i].0.as_str());
        out.append("=");
        out.append(lines[i].1.as_str());
        out.append("\n");
        assert(out@ =~= opened + settings(all.take(i + 1)));
    }
    assert(all.take(n as int) == all);
    assert(out@ =~= before + section(name@, lines.deep_view()));
}

/// Adds a line.
pub fn put(lines: &mut Vec<(String, String)>, key: &str, value: String)
    ensures
        final(lines).deep_view() == old(lines).deep_view() + seq![(key@, value@)],
{
    let ghost before = lines.deep_view();
    lines.push((key.to_string(), value));
    assert(lines.deep_view() =~= before + seq![(key@, value@)]);
}

/// Adds a line where there is a value.
pub fn put_optional(lines: &mut Vec<(String, String)>, key: &str, value: &Option<String>)
    ensures
        final(lines).deep_view() == old(lines).deep_view() + optional(key@, value.deep_view()),
{
    if let Some(v) = value {
        put(lines, key, v.clone());
    }
    assert(final(lines).deep_view() =~= old(lines).deep_view() + optional(
        key@,
        value.deep_view(),
    ));
}

/// Adds a line where there is a number.
pub fn put_number(lines: &mut Vec<(String, String)>, key: &str, value: Option<u64>)
    ensures
        final(lines).deep_view() == old(lines).deep_view() + number(key@, value),
{
    if let Some(n) = value {
        put(lines, key, decimal_of(n));
    }
    assert(final(lines).deep_view() =~= old(lines).deep_view() + number(key@, value));
}

/// How a character is written inside single quotes of the shell.
pub open spec fn quoted_char(c: char) -> Seq<char> {
    if c == '\'' {
        "'\\''"@
    } else {
        seq![c]
    }
}

/// A text as it is written inside single quotes of the shell.
pub open spec fn quoted(s: Seq<char>) -> Seq<char>
    decreases s.len(),
{
    if s.len() == 0 {
        Seq::empty()
    } else {
        quoted_char(s[0]) + quoted(s.skip(1))
    }
}

/// Escapes a command for use inside single quotes of the shell.
pub fn escape_bash(cmd: &str) -> (r: String)
    ensures
        r@ == quoted(cmd@),
{
    let cs = chars_of(cmd);
    let mut out = String::new();
    let n: usize = cs.len();
    assert(cs@.skip(0) == cs@);
    assert(out@ + quoted(cs@) =~= quoted(cs@));
    for i in 0..n
        invariant
            n == cs@.len(),
            cs@ == cmd@,
            out@ + quoted(cs@.skip(i as int)) == quoted(cmd@),
    {
        let ghost before = out@;
        if cs[i] == '\'' {
            out.append("'\\''");
        } else {
            out.push(cs[i]);
        }
        proof {
            let rest = cs@.skip(i as int);
            assert(rest.skip(1) == cs@.skip(i + 1));
            assert(out@ =~= before + quoted_char(rest[0]));
            assert(out@ + quoted(cs@.skip(i + 1)) =~= before + quoted(rest));
        }
    }
    assert(cs@.skip(n as int).len() == 0);
    assert(out@ + quoted(cs@.skip(n as int)) =~= out@);
    out
}

/// What the shell makes of a word of single-quoted parts and backslash escapes,
/// if the word is made of nothing else and closes its quotes.
pub open spec fn shell_word(t: Seq<char>, inside: bool) -> Option<Seq<char>>
    decreases t.len(),
{
    if t.len() == 0 {
        if inside {
            None
        } else {
            Some(Seq::empty())
        }
    } else if t[0] == '\'' {
        shell_word(t.skip(1), !inside)
    } else if inside {
        match shell_word(t.skip(1), true) {
            Some(rest) => Some(seq![t[0]] + rest),
            None => None,
        }
    } else if t[0] == '\\' && t.len() > 1 {
        match shell_word(t.skip(2), false) {
            Some(rest) => Some(seq![t[1]] + rest),
            None => None,
        }
    } else {
        None
    }
}

proof fn lemma_shell_word(s: Seq<char>)
    ensures
        shell_word(quoted(s) + seq!['\''], true) == Some(s),
    decreases s.len(),
{
    reveal_strlit("'\\''");
    let t = quoted(s) + seq!['\''];
    if s.len() == 0 {
        assert(t =~= seq!['\'']);
        assert(t.skip(1) =~= Seq::<char>::empty());
        assert(shell_word(t.skip(1), false) == Some(Seq::<char>::empty()));
        assert(s =~= Seq::<char>::empty());
    } else {
        let rest = quoted(s.skip(1)) + seq!['\''];
        lemma_shell_word(s.skip(1));
        assert(s =~= seq![s[0]] + s.skip(1));
        if s[0] == '\'' {
            let a = t.skip(1);
            let b = a.skip(2);
            let c = b.skip(1);
            assert(t[0] == '\'' && a[0] == '\\' && a[1] == '\'' && b[0] == '\'');
            assert(c =~= rest);
            assert(shell_word(b, false) == shell_word(c, true));
            assert(shell_word(a, false) == Some(seq!['\''] + s.skip(1)));
            assert(shell_word(t, true) == shell_word(a, false));
        } else {
            assert(t[0] == s[0]);
            assert(t.skip(1) =~= rest);
        }
    }
}

/// Quoting loses nothing: the shell reads the quoted command back as the
/// command itself, whatever characters it holds.
pub proof fn law_shell_reads_back(s: Seq<char>)
    ensures
        shell_word(seq!['\''] + quoted(s) + seq!['\''], false) == Some(s),
{
    let t = seq!['\''] + quoted(s) + seq!['\''];
    assert(t.skip(1) =~= quoted(s) + seq!['\'']);
    lemma_shell_word(s);
}

} // verus!
