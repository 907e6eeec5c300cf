//! Runtime permissions of a package, read from `dumpsys package` output.

use vstd::prelude::*;
use crate::model::{PermissionInfo, PermissionInfoView, views};
use crate::text::{chars_of, contains_exec, contains_str, copy_range, ends_with, ends_with_exec, find_str, find_str_exec, lemma_find_str, lemma_text_lt_total, lemma_text_lt_transitive, lines, seqs, split_lines, split_once, split_once_exec, starts_with, starts_with_exec, string_of, text_lt, text_lt_exec, trim, trim_chars};

verus! {

broadcast use vstd::string::group_string_axioms;

/// `s.split(p).nth(1)`: the text between the first and the second `p`, or
/// up to the end when `p` occurs once.
pub open spec fn second_piece(s: Seq<char>, p: Seq<char>) -> Option<Seq<char>> {
    match find_str(s, p) {
        None => None,
        Some(i) => {
            let r = s.skip(i + p.len());
            match find_str(r, p) {
                Some(j) => Some(r.take(j)),
                None => Some(r),
            }
        },
    }
}

/// The flags of a permission line: the trimmed text after `flags=`.
pub open spec fn flags_of(rest: Seq<char>) -> Seq<char> {
    match second_piece(rest, "flags="@) {
        Some(x) => trim(x),
        None => seq![],
    }
}

/// The permission that a line inside a `runtime permissions:` section
/// names, if it is a permission line.
pub open spec fn permission_of_line(t: Seq<char>) -> Option<PermissionInfoView> {
    if !contains_str(t, ".permission."@) || !contains_str(t, "granted="@) {
        None
    } else {
        match split_once(t, ':') {
            None => None,
            Some((name_part, rest)) => Some(
                PermissionInfoView {
                    name: trim(name_part),
                    granted: contains_str(rest, "granted=true"@),
                    flags: flags_of(rest),
                },
            ),
        }
    }
}

/// What reading one more line does: a `runtime permissions:` header opens a
/// section, any other `...permissions:` header or `User ` line closes it,
/// and inside a section a permission line records the permission under its
/// name (a later line for the same name replaces an earlier one).
pub open spec fn permission_step(
    st: (bool, Map<Seq<char>, PermissionInfoView>),
    line: Seq<char>,
) -> (bool, Map<Seq<char>, PermissionInfoView>) {
    let t = trim(line);
    if starts_with(t, "runtime permissions:"@) {
        (true, st.1)
    } else if ends_with(t, "permissions:"@) || starts_with(t, "User "@) {
        (false, st.1)
    } else if !st.0 {
        st
    } else {
        match permission_of_line(t) {
            Some(p) => (st.0, st.1.insert(p.name, p)),
            None => st,
        }
    }
}

/// The reading state after the given lines.
pub open spec fn permission_state(ls: Seq<Seq<char>>) -> (bool, Map<Seq<char>, PermissionInfoView>)
    decreases ls.len(),
{
    if ls.len() == 0 {
        (false, Map::empty())
    } else {
        permission_step(permission_state(ls.drop_last()), ls.last())
    }
}

/// The runtime permissions that `dumpsys package` output records, by name.
pub open spec fn runtime_permissions(output: Seq<char>) -> Map<Seq<char>, PermissionInfoView> {
    permission_state(lines(output)).1
}

/// `list` holds exactly the entries of `m`, ordered by name without repeats.
pub open spec fn sorted_entries_of(
    list: Seq<PermissionInfoView>,
    m: Map<Seq<char>, PermissionInfoView>,
) -> bool {
    &&& forall|i: int, j: int| 0 <= i < j < list.len() ==> text_lt(list[i].name, list[j].name)
    &&& forall|i: int|
        0 <= i < list.len() ==> m.contains_key(#[trigger] list[i].name) && m[list[i].name]
            == list[i]
    &&& forall|k: Seq<char>|
        m.contains_key(k) ==> exists|i: int| 0 <= i < list.len() && #[trigger] list[i].name == k
}

struct Entry {
    name: Vec<char>,
    granted: bool,
    flags: Vec<char>,
}

spec fn entry_view(e: Entry) -> PermissionInfoView {
    PermissionInfoView { name: e.name@, granted: e.granted, flags: e.flags@ }
}

spec fn entry_views(es: Seq<Entry>) -> Seq<PermissionInfoView> {
    Seq::new(es.len(), |i: int| entry_view(es[i]))
}

/// `es` holds exactly the entries of `m`, each name once, in any order.
spec fn holds_map(es: Seq<PermissionInfoView>, m: Map<Seq<char>, PermissionInfoView>) -> bool {
    &&& forall|i: int, j: int| 0 <= i < j < es.len() ==> es[i].name != es[j].name
    &&& forall|i: int|
        0 <= i < es.len() ==> m.contains_key(#[trigger] es[i].name) && m[es[i].name] == es[i]
    &&& forall|k: Seq<char>|
        m.contains_key(k) ==> exists|i: int| 0 <= i < es.len() && #[trigger] es[i].name == k
}

fn second_piece_exec(s: &[char], p: &[char]) -> (res: Option<Vec<char>>)
    ensures
        match res {
            Some(x) => second_piece(s@, p@) == Some(x@),
            None => second_piece(s@, p@) is None,
        },
{
    match find_str_exec(s, p) {
        None => None,
        Some(i) => {
            proof {
                lemma_find_str(s@, p@);
            }
            assert(crate::text::occurs_at(s@, p@, i as int));
            assert(i + p@.len() <= s@.len());
            let plen = p.len();
            let slen = s.len();
            assert(plen == p@.len() && slen == s@.len());
            let r = copy_range(s, i + plen, slen);
            assert(r@ =~= s@.skip(i + p@.len()));
            match find_str_exec(&r, p) {
                Some(j) => {
                    proof {
                        lemma_find_str(r@, p@);
                    }
                    let x = copy_range(&r, 0, j);
                    assert(x@ =~= r@.take(j as int));
                    Some(x)
                },
                None => Some(r),
            }
        },
    }
}

fn permission_of_line_exec(t: &[char]) -> (res: Option<Entry>)
    ensures
        match res {
            Some(e) => permission_of_line(t@) == Some(entry_view(e)),
            None => permission_of_line(t@) is None,
        },
{
    let perm_marker = chars_of(".permission.");
    let granted_marker = chars_of("granted=");
    if !contains_exec(t, &perm_marker) || !contains_exec(t, &granted_marker) {
        return None;
    }
    match split_once_exec(t, ':') {
        None => None,
        Some((name_part, rest)) => {
            let granted_true = chars_of("granted=true");
            let flags_marker = chars_of("flags=");
            let flags = match second_piece_exec(&rest, &flags_marker) {
                Some(x) => trim_chars(&x),
                None => Vec::new(),
            };
            Some(
                Entry {
                    name: trim_chars(&name_part),
                    granted: contains_exec(&rest, &granted_true),
                    flags,
                },
            )
        },
    }
}

proof fn lemma_holds_update(es: Seq<PermissionInfoView>, m: Map<Seq<char>, PermissionInfoView>, i: int, ev: PermissionInfoView)
    requires
        holds_map(es, m),
        0 <= i < es.len(),
        es[i].name == ev.name,
    ensures
        holds_map(es.update(i, ev), m.insert(ev.name, ev)),
{
    let after = es.update(i, ev);
    let m2 = m.insert(ev.name, ev);
    assert forall|k: Seq<char>| m2.contains_key(k) implies exists|j: int|
        0 <= j < after.len() && #[trigger] after[j].name == k by {
        if k == ev.name {
            assert(after[i].name == k);
        } else {
            let j = choose|j: int| 0 <= j < es.len() && #[trigger] es[j].name == k;
            assert(after[j].name == k);
        }
    }
}

proof fn lemma_holds_push(es: Seq<PermissionInfoView>, m: Map<Seq<char>, PermissionInfoView>, ev: PermissionInfoView)
    requires
        holds_map(es, m),
        forall|j: int| 0 <= j < es.len() ==> es[j].name != ev.name,
    ensures
        holds_map(es.push(ev), m.insert(ev.name, ev)),
{
    let after = es.push(ev);
    let m2 = m.insert(ev.name, ev);
    assert forall|k: Seq<char>| m2.contains_key(k) implies exists|j: int|
        0 <= j < after.len() && #[trigger] after[j].name == k by {
        if k == ev.name {
            assert(after[es.len() as int].name == k);
        } else {
            let j = choose|j: int| 0 <= j < es.len() && #[trigger] es[j].name == k;
            assert(after[j].name == k);
        }
    }
}

/// Records `e` in `es`, replacing the entry of the same name if there is one.
fn record(es: &mut Vec<Entry>, e: Entry, Ghost(m): Ghost<Map<Seq<char>, PermissionInfoView>>)
    requires
        holds_map(entry_views(old(es)@), m),
    ensures
        holds_map(entry_views(final(es)@), m.insert(entry_view(e).name, entry_view(e))),
{
    let ghost ev = entry_view(e);
    let mut i: usize = 0;
    while i < es.len()
        invariant
            i <= es.len(),
            es@ == old(es)@,
            holds_map(entry_views(es@), m),
            ev == entry_view(e),
            forall|j: int| 0 <= j < i ==> es@[j].name@ != e.name@,
        decreases es.len() - i,
    {
        if crate::text::chars_eq(&es[i].name, &e.name) {
            let ghost before = entry_views(es@);
            let ghost raw_before = es@;
            es[i] = e;
            assert(es@ =~= raw_before.update(i as int, e));
            assert(entry_views(es@) =~= before.update(i as int, ev));
            proof {
                lemma_holds_update(before, m, i as int, ev);
            }
            return ;
        }
        i = i + 1;
    }
    let ghost before = entry_views(es@);
    es.push(e);
    assert(entry_views(es@) =~= before.push(ev));
    proof {
        lemma_holds_push(before, m, ev);
    }
}

proof fn lemma_holds_pop(es: Seq<PermissionInfoView>, m: Map<Seq<char>, PermissionInfoView>)
    requires
        holds_map(es, m),
        es.len() > 0,
    ensures
        holds_map(es.drop_last(), m.remove(es.last().name)),
        m.contains_key(es.last().name),
        m[es.last().name] == es.last(),
{
    let rest = es.drop_last();
    let m2 = m.remove(es.last().name);
    assert(es.last() == es[es.len() - 1]);
    assert forall|i: int| 0 <= i < rest.len() implies m2.contains_key(#[trigger] rest[i].name)
        && m2[rest[i].name] == rest[i] by {
        assert(rest[i] == es[i]);
        assert(es[i].name != es[es.len() - 1].name);
    }
    assert forall|k: Seq<char>| m2.contains_key(k) implies exists|j: int|
        0 <= j < rest.len() && #[trigger] rest[j].name == k by {
        let j = choose|j: int| 0 <= j < es.len() && #[trigger] es[j].name == k;
        assert(j != es.len() - 1);
        assert(rest[j].name == k);
    }
}

proof fn lemma_sorted_insert(out: Seq<PermissionInfoView>, p: int, ev: PermissionInfoView)
    requires
        0 <= p <= out.len(),
        forall|i: int, j: int| 0 <= i < j < out.len() ==> text_lt(out[i].name, out[j].name),
        forall|q: int| 0 <= q < p ==> text_lt(out[q].name, ev.name),
        p < out.len() ==> text_lt(ev.name, out[p].name),
    ensures
        forall|i: int, j: int|
            0 <= i < j < out.insert(p, ev).len() ==> text_lt(
                out.insert(p, ev)[i].name,
                out.insert(p, ev)[j].name,
            ),
{
    let after = out.insert(p, ev);
    assert forall|i: int, j: int| 0 <= i < j < after.len() implies text_lt(
        after[i].name,
        after[j].name,
    ) by {
        if j < p {
            assert(after[i] == out[i] && after[j] == out[j]);
        } else if j == p {
            assert(after[i] == out[i]);
        } else if i < p {
            assert(after[i] == out[i] && after[j] == out[j - 1]);
            if j - 1 > p {
                lemma_text_lt_transitive(ev.name, out[p].name, out[j - 1].name);
            }
            lemma_text_lt_transitive(out[i].name, ev.name, out[j - 1].name);
        } else if i == p {
            assert(after[j] == out[j - 1]);
            if j - 1 > p {
                lemma_text_lt_transitive(ev.name, out[p].name, out[j - 1].name);
            }
        } else {
            assert(after[i] == out[i - 1] && after[j] == out[j - 1]);
        }
    }
}

proof fn lemma_holds_insert(
    out: Seq<PermissionInfoView>,
    m: Map<Seq<char>, PermissionInfoView>,
    p: int,
    ev: PermissionInfoView,
)
    requires
        holds_map(out, m),
        !m.contains_key(ev.name),
        0 <= p <= out.len(),
    ensures
        holds_map(out.insert(p, ev), m.insert(ev.name, ev)),
{
    let after = out.insert(p, ev);
    let m2 = m.insert(ev.name, ev);
    assert forall|i: int| 0 <= i < out.len() implies out[i].name != ev.name by {
        assert(m.contains_key(out[i].name));
    }
    assert forall|i: int, j: int| 0 <= i < j < after.len() implies after[i].name
        != after[j].name by {
        if j < p {
            assert(after[i] == out[i] && after[j] == out[j]);
        } else if j == p {
            assert(after[i] == out[i]);
        } else if i < p {
            assert(after[i] == out[i] && after[j] == out[j - 1]);
        } else if i == p {
            assert(after[j] == out[j - 1]);
        } else {
            assert(after[i] == out[i - 1] && after[j] == out[j - 1]);
        }
    }
    assert forall|i: int| 0 <= i < after.len() implies m2.contains_key(#[trigger] after[i].name)
        && m2[after[i].name] == after[i] by {
        if i < p {
            assert(after[i] == out[i]);
        } else if i > p {
            assert(after[i] == out[i - 1]);
        }
    }
    assert forall|k: Seq<char>| m2.contains_key(k) implies exists|j: int|
        0 <= j < after.len() && #[trigger] after[j].name == k by {
        if k == ev.name {
            assert(after[p].name == k);
        } else {
            let j = choose|j: int| 0 <= j < out.len() && #[trigger] out[j].name == k;
            if j < p {
                assert(after[j].name == k);
            } else {
                assert(after[j + 1].name == k);
            }
        }
    }
}

/// Puts the entries in name order.
fn sort_by_name(es: Vec<Entry>, Ghost(m): Ghost<Map<Seq<char>, PermissionInfoView>>) -> (res: Vec<
    Entry,
>)
    requires
        holds_map(entry_views(es@), m),
    ensures
        sorted_entries_of(entry_views(res@), m),
{
    let mut src = es;
    let mut out: Vec<Entry> = Vec::new();
    let ghost mut m_src = m;
    let ghost mut m_out = Map::<Seq<char>, PermissionInfoView>::empty();
    assert(m_out.union_prefer_right(m_src) =~= m);
    while src.len() > 0
        invariant
            holds_map(entry_views(src@), m_src),
            holds_map(entry_views(out@), m_out),
            m_out.dom().disjoint(m_src.dom()),
            m_out.union_prefer_right(m_src) == m,
            forall|i: int, j: int|
                0 <= i < j < entry_views(out@).len() ==> text_lt(
                    entry_views(out@)[i].name,
                    entry_views(out@)[j].name,
                ),
        decreases src.len(),
    {
        let ghost src_before = entry_views(src@);
        let ghost out_before = entry_views(out@);
        let e = src.pop().unwrap();
        let ghost ev = entry_view(e);
        assert(entry_views(src@) =~= src_before.drop_last());
        assert(ev == src_before.last());
        proof {
            lemma_holds_pop(src_before, m_src);
        }
        let mut p: usize = 0;
        while p < out.len() && text_lt_exec(&out[p].name, &e.name)
            invariant
                p <= out.len(),
                out_before == entry_views(out@),
                forall|q: int| 0 <= q < p ==> text_lt(out_before[q].name, ev.name),
                ev == entry_view(e),
            decreases out.len() - p,
        {
            p = p + 1;
        }
        proof {
            assert(!m_out.contains_key(ev.name));
            if p < out.len() {
                assert(m_out.contains_key(out_before[p as int].name));
                lemma_text_lt_total(out_before[p as int].name, ev.name);
            }
            lemma_sorted_insert(out_before, p as int, ev);
            lemma_holds_insert(out_before, m_out, p as int, ev);
        }
        out.insert(p, e);
        assert(entry_views(out@) =~= out_before.insert(p as int, ev));
        proof {
            let old_src = m_src;
            let old_out = m_out;
            m_src = m_src.remove(ev.name);
            m_out = m_out.insert(ev.name, ev);
            assert(m_out.union_prefer_right(m_src) =~= old_out.union_prefer_right(old_src));
            assert(m_out.dom().disjoint(m_src.dom()));
        }
    }
    assert(m_src.dom() =~= Set::empty()) by {
        assert forall|k: Seq<char>| !m_src.contains_key(k) by {
            if m_src.contains_key(k) {
                let j = choose|j: int| 0 <= j < entry_views(src@).len() && #[trigger] entry_views(src@)[j].name == k;
            }
        }
    }
    assert(m_out =~= m);
    out
}

/// The runtime permissions of `dumpsys package` output, ordered by name
/// (`list_runtime_permissions`).
pub fn parse_runtime_permissions(output: &str) -> (res: Vec<PermissionInfo>)
    ensures
        sorted_entries_of(views(res@), runtime_permissions(output@)),
{
    let runtime_header = chars_of("runtime permissions:");
    let any_header = chars_of("permissions:");
    let user_prefix = chars_of("User ");
    let text = chars_of(output);
    let ls = split_lines(&text);
    let ghost all = seqs(ls@);
    let mut in_runtime = false;
    let mut es: Vec<Entry> = Vec::new();
    let mut i: usize = 0;
    assert(all.subrange(0, 0) =~= Seq::<Seq<char>>::empty());
    while i < ls.len()
        invariant
            i <= ls.len(),
            all == seqs(ls@),
            all == lines(output@),
            runtime_header@ == "runtime permissions:"@,
            any_header@ == "permissions:"@,
            user_prefix@ == "User "@,
            in_runtime == permission_state(all.subrange(0, i as int)).0,
            holds_map(entry_views(es@), permission_state(all.subrange(0, i as int)).1),
        decreases ls.len() - i,
    {
        let ghost st = permission_state(all.subrange(0, i as int));
        assert(all.subrange(0, i + 1).drop_last() =~= all.subrange(0, i as int));
        assert(all.subrange(0, i + 1).last() == ls@[i as int]@);
        let t = trim_chars(&ls[i]);
        if starts_with_exec(&t, &runtime_header) {
            in_runtime = true;
        } else if ends_with_exec(&t, &any_header) || starts_with_exec(&t, &user_prefix) {
            in_runtime = false;
        } else if in_runtime {
            match permission_of_line_exec(&t) {
                Some(e) => {
                    record(&mut es, e, Ghost(st.1));
                },
                None => {},
            }
        }
        i = i + 1;
    }
    assert(all.subrange(0, all.len() as int) =~= all);
    let sorted = sort_by_name(es, Ghost(runtime_permissions(output@)));
    let mut res: Vec<PermissionInfo> = Vec::new();
    let mut k: usize = 0;
    while k < sorted.len()
        invariant
            k <= sorted.len(),
            views(res@) =~= entry_views(sorted@).take(k as int),
        decreases sorted.len() - k,
    {
        let e = &sorted[k];
        let ghost prev = views(res@);
        let info = PermissionInfo {
            name: string_of(&e.name),
            granted: e.granted,
            flags: string_of(&e.flags),
        };
        assert(info@ == entry_view(sorted@[k as int]));
        res.push(info);
        assert(views(res@) =~= prev.push(info@));
        assert(entry_views(sorted@).take(k + 1) =~= entry_views(sorted@).take(k as int).push(
            entry_view(sorted@[k as int]),
        ));
        k = k + 1;
    }
    assert(entry_views(sorted@).take(sorted.len() as int) =~= entry_views(sorted@));
    res
}

} // verus!
