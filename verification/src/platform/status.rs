//! The state of services, and how it is shown.

use crate::text::chars::chars_of;
use crate::text::number::{decimal, push_decimal};
use crate::text::order::{
    is_le, lemma_le_total, lemma_le_transitive, text_le,
};
use vstd::prelude::*;

verus! {

/// The state of one service.
#[derive(Debug)]
pub struct ServiceStatus {
    pub name: String,
    pub active_state: String,
    pub sub_state: String,
    pub pid: Option<u32>,
}

#[verifier::ext_equal]
pub struct StatusView {
    pub name: Seq<char>,
    pub active_state: Seq<char>,
    pub sub_state: Seq<char>,
    pub pid: Option<u32>,
}

impl View for ServiceStatus {
    type V = StatusView;

    open spec fn view(&self) -> StatusView {
        StatusView {
            name: self.name@,
            active_state: self.active_state@,
            sub_state: self.sub_state@,
            pid: self.pid,
        }
    }
}

impl DeepView for ServiceStatus {
    type V = StatusView;

    open spec fn deep_view(&self) -> StatusView {
        self@
    }
}

/// The number of leading entries whose names do not come after `name`.
pub open spec fn place(s: Seq<StatusView>, name: Seq<char>) -> int
    decreases s.len(),
{
    if s.len() == 0 {
        0
    } else if text_le(s.last().name, name) {
        s.len() as int
    } else {
        place(s.drop_last(), name)
    }
}

/// The states in ascending order of their names; those of one name keep their
/// order.
pub open spec fn ordered(s: Seq<StatusView>) -> Seq<StatusView>
    decreases s.len(),
{
    if s.len() == 0 {
        Seq::empty()
    } else {
        let before = ordered(s.drop_last());
        before.insert(place(before, s.last().name), s.last())
    }
}

proof fn lemma_place(s: Seq<StatusView>, name: Seq<char>)
    ensures
        0 <= place(s, name) <= s.len(),
        place(s, name) > 0 ==> text_le(s[place(s, name) - 1].name, name),
        forall|i: int| place(s, name) <= i < s.len() ==> !text_le(#[trigger] s[i].name, name),
    decreases s.len(),
{
    if s.len() > 0 && !text_le(s.last().name, name) {
        let init = s.drop_last();
        lemma_place(init, name);
        assert forall|i: int| place(s, name) <= i < s.len() implies !text_le(
            #[trigger] s[i].name,
            name,
        ) by {
            if i < init.len() {
                assert(init[i] == s[i]);
            }
        }
    }
}

/// Sorts the states by name.
pub fn sort_by_name(statuses: Vec<ServiceStatus>) -> (r: Vec<ServiceStatus>)
    ensures
        r.deep_view() == ordered(statuses.deep_view()),
{
    let mut rest = statuses;
    let mut reversed: Vec<ServiceStatus> = Vec::new();
    let ghost all = rest.deep_view();
    let total: usize = rest.len();
    while rest.len() > 0
        invariant
            rest@.len() + reversed@.len() == all.len(),
            rest.deep_view() == all.take(rest@.len() as int),
            forall|i: int|
                0 <= i < reversed@.len() ==> #[trigger] reversed.deep_view()[i] == all[all.len() - 1
                    - i],
        decreases rest@.len(),
    {
        let ghost left = rest.deep_view();
        let ghost done = reversed.deep_view();
        let x = rest.pop();
        if let Some(s) = x {
            assert(s@ == left.last());
            reversed.push(s);
            assert(rest.deep_view() =~= left.drop_last());
            assert(rest.deep_view() =~= all.take(rest@.len() as int));
            assert(reversed.deep_view() =~= done.push(s@));
        }
    }
    let mut r: Vec<ServiceStatus> = Vec::new();
    assert(r.deep_view() =~= Seq::<StatusView>::empty());
    assert(all.take(0) =~= Seq::<StatusView>::empty());
    while reversed.len() > 0
        invariant
            r@.len() + reversed@.len() == all.len(),
            r.deep_view() == ordered(all.take(r@.len() as int)),
            forall|i: int|
                0 <= i < reversed@.len() ==> #[trigger] reversed.deep_view()[i] == all[all.len() - 1
                    - i],
        decreases reversed@.len(),
    {
        let ghost back = reversed.deep_view();
        let ghost k = r@.len() as int;
        let ghost done = r.deep_view();
        assert(back[back.len() - 1] == all[k]);
        if let Some(s) = reversed.pop() {
            assert(reversed.deep_view() =~= back.drop_last());
            assert(s@ == all[k]);
            let at = place_of(&r, s.name.as_str());
            let ghost v = s@;
            r.insert(at, s);
            assert(r.deep_view() =~= done.insert(at as int, v));
            assert(all.take(k + 1).drop_last() == all.take(k));
            assert(all.take(k + 1).last() == v);
        }
    }
    assert(all.take(all.len() as int) == all);
    r
}

fn place_of(v: &Vec<ServiceStatus>, name: &str) -> (r: usize)
    ensures
        r <= v@.len(),
        r == place(v.deep_view(), name@),
{
    let ghost all = v.deep_view();
    let mut i: usize = v.len();
    assert(all.take(i as int) == all);
    while i > 0
        invariant
            i <= v@.len(),
            all == v.deep_view(),
            place(all, name@) == place(all.take(i as int), name@),
        decreases i,
    {
        assert(all.take(i as int).last() == v@[i - 1]@);
        assert(all.take(i as int).drop_last() == all.take(i - 1));
        if is_le(v[i - 1].name.as_str(), name) {
            return i;
        }
        i = i - 1;
    }
    0
}

/// Whether the states ascend by name.
pub open spec fn ascending(s: Seq<StatusView>) -> bool {
    forall|i: int, j: int|
        0 <= i < j < s.len() ==> text_le(#[trigger] s[i].name, #[trigger] s[j].name)
}

/// What is shown ascends by name and shows each state exactly once.
pub proof fn law_ordered(s: Seq<StatusView>)
    ensures
        ascending(ordered(s)),
        ordered(s).to_multiset() == s.to_multiset(),
        ordered(s).len() == s.len(),
    decreases s.len(),
{
    if s.len() > 0 {
        let init = s.drop_last();
        let x = s.last();
        law_ordered(init);
        let before = ordered(init);
        let p = place(before, x.name);
        lemma_place(before, x.name);
        let after = before.insert(p, x);
        assert forall|i: int, j: int| 0 <= i < j < after.len() implies text_le(
            #[trigger] after[i].name,
            #[trigger] after[j].name,
        ) by {
            if i < p && j < p {
                assert(text_le(before[i].name, before[j].name));
            } else if i < p && j == p {
                if i < p - 1 {
                    assert(text_le(before[i].name, before[p - 1].name));
                    lemma_le_transitive(before[i].name, before[p - 1].name, x.name);
                }
            } else if i < p && j > p {
                assert(text_le(before[i].name, before[j - 1].name));
            } else if i == p {
                assert(!text_le(before[j - 1].name, x.name));
                lemma_le_total(before[j - 1].name, x.name);
            } else {
                assert(text_le(before[i - 1].name, before[j - 1].name));
            }
        }
        vstd::seq_lib::to_multiset_insert(before, p, x);
        s.to_multiset_ensures();
        init.to_multiset_ensures();
        assert(s =~= init.push(x));
        assert(s.to_multiset() =~= init.to_multiset().insert(x));
        assert(ordered(s).to_multiset() =~= s.to_multiset());
    } else {
        assert(ordered(s) =~= s);
    }
}

/// A text filled up with spaces to a width.
pub open spec fn padded(s: Seq<char>, width: nat) -> Seq<char> {
    if s.len() < width {
        s + Seq::new((width - s.len()) as nat, |i: int| ' ')
    } else {
        s
    }
}

/// Writes a text and fills it up with spaces to a width.
pub fn push_padded(out: &mut String, s: &str, width: usize)
    ensures
        final(out)@ == old(out)@ + padded(s@, width as nat),
{
    let ghost before = out@;
    let cs = chars_of(s);
    let n: usize = cs.len();
    out.append(s);
    if n < width {
        let mut i: usize = n;
        assert(out@ =~= before + (s@ + Seq::new(0, |i: int| ' ')));
        while i < width
            invariant
                n <= i <= width,
                n == s@.len(),
                out@ == before + (s@ + Seq::new((i - n) as nat, |i: int| ' ')),
            decreases width - i,
        {
            out.push(' ');
            assert(out@ =~= before + (s@ + Seq::new((i + 1 - n) as nat, |i: int| ' ')));
            i = i + 1;
        }
    }
}

/// A process id, or a word where there is none.
pub open spec fn shown_pid(pid: Option<u32>, none: Seq<char>) -> Seq<char> {
    match pid {
        Some(p) => decimal(p as nat),
        None => none,
    }
}

/// A row of the table.
pub open spec fn row(a: Seq<char>, b: Seq<char>, c: Seq<char>, d: Seq<char>) -> Seq<char> {
    padded(a, 24) + " "@ + padded(b, 12) + " "@ + padded(c, 12) + " "@ + d + "\n"@
}

/// The rows of the table.
pub open spec fn rows(statuses: Seq<StatusView>) -> Seq<char>
    decreases statuses.len(),
{
    if statuses.len() == 0 {
        Seq::empty()
    } else {
        let s = statuses.last();
        rows(statuses.drop_last()) + row(
            s.name,
            s.active_state,
            s.sub_state,
            shown_pid(s.pid, "-"@),
        )
    }
}

/// The table of the states.
pub open spec fn table(statuses: Seq<StatusView>) -> Seq<char> {
    row("SERVICE"@, "STATE"@, "SUB"@, "PID"@)
        + "------------------------------------------------------------\n"@ + rows(statuses)
}

fn push_row(out: &mut String, a: &str, b: &str, c: &str, d: &str)
    ensures
        final(out)@ == old(out)@ + row(a@, b@, c@, d@),
{
    let ghost before = out@;
    push_padded(out, a, 24);
    out.append(" ");
    push_padded(out, b, 12);
    out.append(" ");
    push_padded(out, c, 12);
    out.append(" ");
    out.append(d);
    out.append("\n");
    assert(out@ =~= before + row(a@, b@, c@, d@));
}

fn pid_or(pid: Option<u32>, none: &str) -> (r: String)
    ensures
        r@ == shown_pid(pid, none@),
{
    match pid {
        Some(p) => {
            let mut r = String::new();
            push_decimal(&mut r, p as u64);
            assert(r@ =~= decimal(p as nat));
            r
        },
        None => none.to_string(),
    }
}

/// Shows the states as a table.
pub fn status_table(statuses: &Vec<ServiceStatus>) -> (r: String)
    ensures
        r@ == table(statuses.deep_view()),
{
    let mut out = String::new();
    push_row(&mut out, "SERVICE", "STATE", "SUB", "PID");
    assert(out@ =~= row("SERVICE"@, "STATE"@, "SUB"@, "PID"@));
    out.append("------------------------------------------------------------\n");
    let ghost head = out@;
    let ghost all = statuses.deep_view();
    let n: usize = statuses.len();
    assert(out@ =~= head + rows(all.take(0)));
    for i in 0..n
        invariant
            n == statuses@.len(),
            all == statuses.deep_view(),
            out@ == head + rows(all.take(i as int)),
    {
        assert(all.take(i + 1).drop_last() == all.take(i as int));
        assert(all.take(i + 1).last() == statuses@[i as int]@);
        let s = &statuses[i];
        let pid = pid_or(s.pid, "-");
        push_row(
            &mut out,
            s.name.as_str(),
            s.active_state.as_str(),
            s.sub_state.as_str(),
            pid.as_str(),
        );
        assert(out@ =~= head + rows(all.take(i + 1)));
    }
    assert(all.take(n as int) == all);
    out
}

/// A state as a JSON object.
pub open spec fn json_item(s: StatusView) -> Seq<char> {
    "\n  {\"name\":\""@ + s.name + "\",\"state\":\""@ + s.active_state + "\",\"sub\":\""@
        + s.sub_state + "\",\"pid\":"@ + shown_pid(s.pid, "null"@) + "}"@
}

/// States as JSON objects with commas between them.
pub open spec fn json_items(statuses: Seq<StatusView>) -> Seq<char>
    decreases statuses.len(),
{
    if statuses.len() == 0 {
        Seq::empty()
    } else if statuses.len() == 1 {
        json_item(statuses[0])
    } else {
        json_items(statuses.drop_last()) + ","@ + json_item(statuses.last())
    }
}

/// The states as a JSON array.
pub open spec fn json(statuses: Seq<StatusView>) -> Seq<char> {
    "["@ + json_items(statuses) + "\n]\n"@
}

fn push_json_item(out: &mut String, s: &ServiceStatus)
    ensures
        final(out)@ == old(out)@ + json_item(s@),
{
    let ghost before = out@;
    out.append("\n  {\"name\":\"");
    out.append(s.name.as_str());
    out.append("\",\"state\":\"");
    out.append(s.active_state.as_str());
    out.append("\",\"sub\":\"");
    out.append(s.sub_state.as_str());
    out.append("\",\"pid\":");
    out.append(pid_or(s.pid, "null").as_str());
    out.append("}");
    assert(out@ =~= before + json_item(s@));
}

/// Shows the states as JSON.
pub fn status_json(statuses: &Vec<ServiceStatus>) -> (r: String)
    ensures
        r@ == json(statuses.deep_view()),
{
    let mut out = "[".to_string();
    let ghost head = out@;
    let ghost all = statuses.deep_view();
    let n: usize = statuses.len();
    assert(out@ =~= head + json_items(all.take(0)));
    for i in 0..n
        invariant
            n == statuses@.len(),
            all == statuses.deep_view(),
            out@ == head + json_items(all.take(i as int)),
    {
        assert(all.take(i + 1).drop_last() == all.take(i as int));
        assert(all.take(i + 1).last() == statuses@[i as int]@);
        if i > 0 {
            out.append(",");
        }
        push_json_item(&mut out, &statuses[i]);
        assert(out@ =~= head + json_items(all.take(i + 1)));
    }
    assert(all.take(n as int) == all);
    out.append("\n]\n");
    out
}

/// What is shown of the states: sorted by name, as a table or as JSON.
pub open spec fn report(statuses: Seq<StatusView>, as_json: bool) -> Seq<char> {
    if as_json {
        json(ordered(statuses))
    } else {
        table(ordered(statuses))
    }
}

/// Shows the states, sorted by name, as a table or as JSON.
pub fn render_status(statuses: Vec<ServiceStatus>, as_json: bool) -> (r: String)
    ensures
        r@ == report(statuses.deep_view(), as_json),
{
    let sorted = sort_by_name(statuses);
    if as_json {
        status_json(&sorted)
    } else {
        status_table(&sorted)
    }
}

} // verus!
