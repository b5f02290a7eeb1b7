//! Session discovery from wayland-sessions desktop files: each session is
//! a display name and an exec command. This module reads one file's text,
//! recognizes desktop files by name, and orders the list (niri first).

use crate::text::{
    chars_of, line_ranges, lines, range_eq, range_starts_with, starts_with, string_of,
    trim, trim_range,
};
use vstd::prelude::*;

verus! {

#[derive(Debug, Clone, PartialEq)]
pub struct Session {
    pub name: String,
    pub cmd: String,
}

pub struct SpecSession {
    pub name: Seq<char>,
    pub cmd: Seq<char>,
}

impl Session {
    /// A copy with the same value.
    pub fn duplicate(&self) -> (r: Session)
        ensures
            r@ == self@,
    {
        Session { name: self.name.clone(), cmd: self.cmd.clone() }
    }
}

impl View for Session {
    type V = SpecSession;

    open spec fn view(&self) -> SpecSession {
        SpecSession { name: self.name@, cmd: self.cmd@ }
    }
}

/// What the lines of a desktop file have said so far.
pub struct EntryScan {
    pub name: Option<Seq<char>>,
    pub cmd: Option<Seq<char>>,
    pub no_display: bool,
}

/// One desktop-file line: `Name=` and `Exec=` set their value (trimmed,
/// the last one wins), `NoDisplay=true` hides the entry.
pub open spec fn scan_line(st: EntryScan, line: Seq<char>) -> EntryScan {
    if starts_with(line, "Name="@) {
        EntryScan { name: Some(trim(line.skip(5))), ..st }
    } else if starts_with(line, "Exec="@) {
        EntryScan { cmd: Some(trim(line.skip(5))), ..st }
    } else if trim(line) == "NoDisplay=true"@ {
        EntryScan { no_display: true, ..st }
    } else {
        st
    }
}

pub open spec fn scan_lines(ls: Seq<Seq<char>>) -> EntryScan
    decreases ls.len(),
{
    if ls.len() == 0 {
        EntryScan { name: None, cmd: None, no_display: false }
    } else {
        scan_line(scan_lines(ls.drop_last()), ls.last())
    }
}

/// The session a desktop file describes: none when hidden, when a name or
/// command is missing, or when the command is empty.
pub open spec fn spec_parse_entry(text: Seq<char>) -> Option<SpecSession> {
    let st = scan_lines(lines(text));
    if st.no_display {
        None
    } else {
        match (st.name, st.cmd) {
            (Some(n), Some(c)) => if c.len() > 0 {
                Some(SpecSession { name: n, cmd: c })
            } else {
                None
            },
            _ => None,
        }
    }
}

/// The session described by one desktop file's text.
pub fn parse_entry(text: &str) -> (r: Option<Session>)
    ensures
        match (r, spec_parse_entry(text@)) {
            (Some(s), Some(t)) => s@ == t,
            (None, None) => true,
            _ => false,
        },
{
    let s = chars_of(text);
    let ranges = line_ranges(&s);
    let mut name: Option<String> = None;
    let mut cmd: Option<String> = None;
    let mut no_display = false;
    let mut k: usize = 0;
    proof {
        reveal_strlit("Name=");
        reveal_strlit("Exec=");
    }
    while k < ranges.len()
        invariant
            k <= ranges@.len() == lines(s@).len(),
            s@ == text@,
            forall|j: int|
                0 <= j < ranges@.len() ==> {
                    &&& (#[trigger] ranges@[j]).0 <= ranges@[j].1 <= s.len()
                    &&& s@.subrange(ranges@[j].0 as int, ranges@[j].1 as int) == lines(s@)[j]
                },
            scan_lines(lines(s@).take(k as int)) == (EntryScan {
                name: crate::state::opt_view(name),
                cmd: crate::state::opt_view(cmd),
                no_display: no_display,
            }),
            "Name="@.len() == 5,
            "Exec="@.len() == 5,
        decreases ranges@.len() - k,
    {
        let (lo, hi) = ranges[k];
        let ghost line = s@.subrange(lo as int, hi as int);
        if range_starts_with(&s, lo, hi, "Name=") {
            let (a, b) = trim_range(&s, lo + 5, hi);
            assert(line.skip(5) =~= s@.subrange(lo + 5, hi as int));
            name = Some(string_of(&s, a, b));
        } else if range_starts_with(&s, lo, hi, "Exec=") {
            let (a, b) = trim_range(&s, lo + 5, hi);
            assert(line.skip(5) =~= s@.subrange(lo + 5, hi as int));
            cmd = Some(string_of(&s, a, b));
        } else {
            let (a, b) = trim_range(&s, lo, hi);
            if range_eq(&s, a, b, "NoDisplay=true") {
                no_display = true;
            }
        }
        proof {
            let ls = lines(s@).take(k + 1);
            assert(ls.drop_last() =~= lines(s@).take(k as int));
        }
        k += 1;
    }
    assert(lines(s@).take(k as int) =~= lines(s@));
    if no_display {
        return None;
    }
    match (name, cmd) {
        (Some(n), Some(c)) => {
            if c.as_str().unicode_len() > 0 {
                Some(Session { name: n, cmd: c })
            } else {
                None
            }
        },
        _ => None,
    }
}

/// Index of the last `c` in `s`, or -1.
pub open spec fn last_index_of(s: Seq<char>, c: char) -> int
    decreases s.len(),
{
    if s.len() == 0 {
        -1
    } else if s.last() == c {
        s.len() - 1
    } else {
        last_index_of(s.drop_last(), c)
    }
}

/// A file name whose extension (the part after the final dot, for a name
/// that does not only start with that dot) is `desktop`.
pub open spec fn spec_is_desktop_file(name: Seq<char>) -> bool {
    let i = last_index_of(name, '.');
    i > 0 && name.skip(i + 1) == "desktop"@
}

/// `last_index_of` is -1 or the index of a `c`.
pub proof fn lemma_last_index_bounds(s: Seq<char>, c: char)
    ensures
        -1 <= last_index_of(s, c) < s.len(),
        last_index_of(s, c) >= 0 ==> s[last_index_of(s, c)] == c,
    decreases s.len(),
{
    if s.len() > 0 && s.last() != c {
        lemma_last_index_bounds(s.drop_last(), c);
    }
}

/// True for a file name with the extension `desktop`.
pub fn is_desktop_file(name: &str) -> (r: bool)
    ensures
        r == spec_is_desktop_file(name@),
{
    let s = chars_of(name);
    let mut i = s.len();
    assert(s@.take(i as int) =~= s@);
    while i > 0 && s[i - 1] != '.'
        invariant
            i <= s.len(),
            s@ == name@,
            last_index_of(s@, '.') == last_index_of(s@.take(i as int), '.'),
        decreases i,
    {
        assert(s@.take(i as int).drop_last() =~= s@.take(i - 1));
        i -= 1;
    }
    if i <= 1 {
        proof {
            if i == 1 {
                assert(s@.take(1).last() == '.');
            } else {
                assert(s@.take(0) =~= Seq::<char>::empty());
            }
        }
        return false;
    }
    assert(s@.take(i as int).last() == '.');
    let r = range_eq(&s, i, s.len(), "desktop");
    assert(s@.subrange(i as int, s.len() as int) =~= s@.skip(i as int));
    r
}

/// The name `niri`, in any ASCII case.
pub open spec fn is_niri(name: Seq<char>) -> bool {
    name.len() == 4 && ascii_lower(name[0]) == 'n' && ascii_lower(name[1]) == 'i'
        && ascii_lower(name[2]) == 'r' && ascii_lower(name[3]) == 'i'
}

pub open spec fn ascii_lower(c: char) -> char {
    if 'A' <= c && c <= 'Z' {
        ((c as u32) + 32) as char
    } else {
        c
    }
}

/// Strict lexicographic order of code points (`String`'s order).
pub open spec fn lex_lt(a: Seq<char>, b: Seq<char>) -> bool
    decreases a.len(),
{
    if a.len() == 0 {
        b.len() > 0
    } else if b.len() == 0 {
        false
    } else if a[0] != b[0] {
        (a[0] as int) < (b[0] as int)
    } else {
        lex_lt(a.drop_first(), b.drop_first())
    }
}

/// The list order: niri first, then by name.
pub open spec fn sess_lt(a: SpecSession, b: SpecSession) -> bool {
    (is_niri(a.name) && !is_niri(b.name)) || (is_niri(a.name) == is_niri(b.name) && lex_lt(
        a.name,
        b.name,
    ))
}

pub open spec fn sess_le(a: SpecSession, b: SpecSession) -> bool {
    !sess_lt(b, a)
}

pub open spec fn sessions_view(v: Seq<Session>) -> Seq<SpecSession> {
    v.map_values(|s: Session| s@)
}

/// Ordered: no session comes after one it sorts before.
pub open spec fn sorted(s: Seq<SpecSession>) -> bool {
    forall|i: int, j: int| 0 <= i < j < s.len() ==> sess_le(s[i], s[j])
}

/// No name sorts before itself.
pub proof fn lemma_lex_irreflexive(a: Seq<char>)
    ensures
        !lex_lt(a, a),
    decreases a.len(),
{
    if a.len() > 0 {
        lemma_lex_irreflexive(a.drop_first());
    }
}

/// Of two different names one sorts first, never both.
pub proof fn lemma_lex_total(a: Seq<char>, b: Seq<char>)
    ensures
        lex_lt(a, b) || lex_lt(b, a) || a == b,
        !(lex_lt(a, b) && lex_lt(b, a)),
    decreases a.len(),
{
    if a.len() > 0 && b.len() > 0 {
        lemma_lex_total(a.drop_first(), b.drop_first());
        if a[0] != b[0] {
            assert((a[0] as int) != (b[0] as int));
        }
        if a[0] == b[0] && a.drop_first() == b.drop_first() {
            assert forall|i: int| 0 <= i < a.len() implies a[i] == b[i] by {
                if i > 0 {
                    assert(a[i] == a.drop_first()[i - 1]);
                    assert(b[i] == b.drop_first()[i - 1]);
                }
            }
            assert(a =~= b);
        }
    } else if a.len() == 0 && b.len() == 0 {
        assert(a =~= b);
    }
}

/// The name order is transitive.
pub proof fn lemma_lex_transitive(a: Seq<char>, b: Seq<char>, c: Seq<char>)
    requires
        lex_lt(a, b),
        lex_lt(b, c),
    ensures
        lex_lt(a, c),
    decreases a.len(),
{
    if a.len() > 0 && b.len() > 0 && c.len() > 0 {
        if a[0] == b[0] && b[0] == c[0] {
            lemma_lex_transitive(a.drop_first(), b.drop_first(), c.drop_first());
        }
    }
}

proof fn lemma_sess_order(a: SpecSession, b: SpecSession, c: SpecSession)
    ensures
        !sess_lt(a, a),
        !(sess_lt(a, b) && sess_lt(b, a)),
        sess_lt(a, b) && sess_lt(b, c) ==> sess_lt(a, c),
        sess_le(a, b) && sess_le(b, c) ==> sess_le(a, c),
        sess_lt(a, b) && sess_le(b, c) ==> sess_lt(a, c),
        sess_lt(a, b) ==> sess_le(a, b),
{
    lemma_lex_irreflexive(a.name);
    lemma_lex_total(a.name, b.name);
    lemma_lex_total(b.name, c.name);
    lemma_lex_total(a.name, c.name);
    if lex_lt(a.name, b.name) && lex_lt(b.name, c.name) {
        lemma_lex_transitive(a.name, b.name, c.name);
    }
    if lex_lt(c.name, b.name) && lex_lt(b.name, a.name) {
        lemma_lex_transitive(c.name, b.name, a.name);
    }
}

fn ascii_lower_exec(c: char) -> (r: char)
    ensures
        r == ascii_lower(c),
{
    if 'A' <= c && c <= 'Z' {
        let b: u8 = (c as u32 + 32) as u8;
        b as char
    } else {
        c
    }
}

fn niri_name(n: &Vec<char>) -> (r: bool)
    ensures
        r == is_niri(n@),
{
    n.len() == 4 && ascii_lower_exec(n[0]) == 'n' && ascii_lower_exec(n[1]) == 'i'
        && ascii_lower_exec(n[2]) == 'r' && ascii_lower_exec(n[3]) == 'i'
}

/// `a` sorts strictly before `b` in `String` order.
pub fn lex_less(a: &Vec<char>, b: &Vec<char>) -> (r: bool)
    ensures
        r == lex_lt(a@, b@),
{
    let mut i: usize = 0;
    assert(a@.skip(0) =~= a@);
    assert(b@.skip(0) =~= b@);
    while i < a.len() && i < b.len() && a[i] == b[i]
        invariant
            i <= a.len(),
            i <= b.len(),
            lex_lt(a@, b@) == lex_lt(a@.skip(i as int), b@.skip(i as int)),
        decreases a.len() - i,
    {
        assert(a@.skip(i as int).drop_first() =~= a@.skip(i + 1));
        assert(b@.skip(i as int).drop_first() =~= b@.skip(i + 1));
        i += 1;
    }
    if i == a.len() {
        i < b.len()
    } else if i == b.len() {
        false
    } else {
        a[i] < b[i]
    }
}

/// `a` sorts strictly before `b`.
fn sess_less(a: &Session, b: &Session) -> (r: bool)
    ensures
        r == sess_lt(a@, b@),
{
    let an = chars_of(a.name.as_str());
    let bn = chars_of(b.name.as_str());
    let na = niri_name(&an);
    let nb = niri_name(&bn);
    (na && !nb) || (na == nb && lex_less(&an, &bn))
}

/// `r` is `v` reordered as a stable sort does: `idx` names, for each
/// place of `r`, the distinct place of `v` its session came from, and of
/// two sessions that sort alike the earlier one in `v` stays first.
pub open spec fn stable_reorder(v: Seq<SpecSession>, r: Seq<SpecSession>, idx: Seq<int>) -> bool {
    &&& idx.len() == r.len() == v.len()
    &&& forall|m: int| 0 <= m < r.len() ==> 0 <= #[trigger] idx[m] < v.len() && r[m] == v[idx[m]]
    &&& forall|a: int, b: int| 0 <= a < b < r.len() ==> #[trigger] idx[a] != #[trigger] idx[b]
    &&& forall|a: int, b: int|
        0 <= a < b < r.len() ==> sess_lt(#[trigger] r[a], #[trigger] r[b]) || idx[a] < idx[b]
}

/// The session list in display order: a session named niri (any case)
/// first, then by name; sessions that sort alike keep their order (a
/// stable sort). The result is a reordering of the input.
pub fn sort_sessions(v: Vec<Session>) -> (r: Vec<Session>)
    ensures
        sorted(sessions_view(r@)),
        sessions_view(r@).to_multiset() == sessions_view(v@).to_multiset(),
        exists|idx: Seq<int>| stable_reorder(sessions_view(v@), sessions_view(r@), idx),
{
    let mut out: Vec<Session> = Vec::new();
    let mut k: usize = 0;
    let ghost mut idx: Seq<int> = Seq::empty();
    let ghost vv = sessions_view(v@);
    assert(sessions_view(out@) =~= sessions_view(v@.take(0)));
    while k < v.len()
        invariant
            k <= v.len(),
            vv == sessions_view(v@),
            sorted(sessions_view(out@)),
            sessions_view(out@).to_multiset() == sessions_view(v@.take(k as int)).to_multiset(),
            idx.len() == out@.len() == k,
            forall|m: int|
                0 <= m < k ==> 0 <= #[trigger] idx[m] < k && sessions_view(out@)[m] == vv[idx[m]],
            forall|a: int, b: int| 0 <= a < b < k ==> #[trigger] idx[a] != #[trigger] idx[b],
            forall|a: int, b: int|
                0 <= a < b < k ==> sess_lt(
                    #[trigger] sessions_view(out@)[a],
                    #[trigger] sessions_view(out@)[b],
                ) || idx[a] < idx[b],
        decreases v.len() - k,
    {
        let x = v[k].duplicate();
        let ghost xv = v@[k as int]@;
        assert(x@ == xv);
        // stable: insert after every session that does not sort after x
        let mut j: usize = 0;
        while j < out.len() && !sess_less(&x, &out[j])
            invariant
                j <= out.len(),
                x@ == xv,
                forall|i: int| 0 <= i < j ==> sess_le(out@[i]@, xv),
            decreases out.len() - j,
        {
            j += 1;
        }
        let ghost before = sessions_view(out@);
        proof {
            if j < out.len() {
                assert(sess_lt(xv, before[j as int]));
                assert forall|i: int| j <= i < before.len() implies sess_lt(xv, before[i]) by {
                    if i > j {
                        assert(sess_le(before[j as int], before[i]));
                        lemma_sess_order(xv, before[j as int], before[i]);
                    }
                }
            }
        }
        out.insert(j, x);
        proof {
            let after = sessions_view(out@);
            assert(after =~= before.insert(j as int, xv));
            assert forall|a: int, b: int| 0 <= a < b < after.len() implies sess_le(
                after[a],
                after[b],
            ) by {
                if b == j {
                    assert(sess_le(after[a], xv));
                } else if a == j {
                    assert(sess_lt(xv, after[b]));
                    lemma_sess_order(xv, after[b], xv);
                } else {
                    let a0 = if a < j { a } else { a - 1 };
                    let b0 = if b < j { b } else { b - 1 };
                    assert(after[a] == before[a0] && after[b] == before[b0]);
                }
            }
            vstd::seq_lib::to_multiset_insert(before, j as int, xv);
            let vt = sessions_view(v@.take(k + 1));
            assert(vt =~= sessions_view(v@.take(k as int)).push(xv));
            vstd::seq_lib::to_multiset_build(sessions_view(v@.take(k as int)), xv);
            let old_idx = idx;
            idx = idx.insert(j as int, k as int);
            assert(xv == vv[k as int]);
            assert forall|m: int| 0 <= m < k + 1 implies 0 <= #[trigger] idx[m] < k + 1
                && after[m] == vv[idx[m]] by {
                if m < j {
                    assert(idx[m] == old_idx[m] && after[m] == before[m]);
                } else if m > j {
                    assert(idx[m] == old_idx[m - 1] && after[m] == before[m - 1]);
                }
            }
            assert forall|a: int, b: int| 0 <= a < b < k + 1 implies #[trigger] idx[a]
                != #[trigger] idx[b] by {
                let a0 = if a < j { a } else { a - 1 };
                let b0 = if b < j { b } else { b - 1 };
                if a != j && b != j {
                    assert(idx[a] == old_idx[a0] && idx[b] == old_idx[b0]);
                } else if a == j {
                    assert(idx[b] == old_idx[b0]);
                } else {
                    assert(idx[a] == old_idx[a0]);
                }
            }
            assert forall|a: int, b: int| 0 <= a < b < k + 1 implies sess_lt(
                #[trigger] after[a],
                #[trigger] after[b],
            ) || idx[a] < idx[b] by {
                let a0 = if a < j { a } else { a - 1 };
                let b0 = if b < j { b } else { b - 1 };
                if a != j && b != j {
                    assert(idx[a] == old_idx[a0] && idx[b] == old_idx[b0]);
                    assert(after[a] == before[a0] && after[b] == before[b0]);
                } else if b == j {
                    assert(idx[a] == old_idx[a0]);
                } else {
                    assert(after[b] == before[b0]);
                    assert(sess_lt(xv, before[b0]));
                }
            }
        }
        k += 1;
    }
    assert(v@.take(k as int) =~= v@);
    assert(stable_reorder(vv, sessions_view(out@), idx));
    out
}

/// Niri comes first: after sorting, a session named niri (in any ASCII
/// case) heads the list whenever the list holds one.
pub proof fn law_niri_sorts_first(s: Seq<SpecSession>, i: int)
    requires
        sorted(s),
        0 <= i < s.len(),
        is_niri(s[i].name),
    ensures
        is_niri(s[0].name),
{
    if i > 0 {
        assert(sess_le(s[0], s[i]));
    }
}

} // verus!
