//! Last-user / last-session persistence: two `key = value` lines.
//! Also the first-boot prefill: the machine's one human account, read
//! from passwd(5) text.

use crate::text::{
    chars_of, ends_with, lemma_trim_fixed, find_char, index_of, join_lines, lemma_index_of_bounds,
    lemma_lines_join, line_ranges, lines, no_char, plain_line, push_char, push_str, range_eq,
    range_starts_with, starts_with, string_of, trim, trim_range,
};
use crate::config::{all_plain, lemma_all_plain_concat};
use vstd::prelude::*;

verus! {

/// The session started when nothing else is known.
pub const DEFAULT_SESSION: &'static str = "niri-session";

#[derive(Debug, Clone, PartialEq)]
pub struct State {
    pub last_user: Option<String>,
    pub last_session: Option<String>,
}

/// The mathematical value of a [`State`].
pub struct SpecState {
    pub last_user: Option<Seq<char>>,
    pub last_session: Option<Seq<char>>,
}

pub open spec fn opt_view(o: Option<String>) -> Option<Seq<char>> {
    match o {
        Some(s) => Some(s@),
        None => None,
    }
}

impl View for State {
    type V = SpecState;

    open spec fn view(&self) -> SpecState {
        SpecState { last_user: opt_view(self.last_user), last_session: opt_view(self.last_session) }
    }
}

/// The effect of one line of the state file.
pub open spec fn state_line(st: SpecState, line: Seq<char>) -> SpecState {
    if starts_with(line, "user = "@) {
        SpecState { last_user: Some(trim(line.skip("user = "@.len() as int))), ..st }
    } else if starts_with(line, "session = "@) {
        SpecState { last_session: Some(trim(line.skip("session = "@.len() as int))), ..st }
    } else {
        st
    }
}

/// Lines applied in order over the empty state.
pub open spec fn state_lines(ls: Seq<Seq<char>>) -> SpecState
    decreases ls.len(),
{
    if ls.len() == 0 {
        SpecState { last_user: None, last_session: None }
    } else {
        state_line(state_lines(ls.drop_last()), ls.last())
    }
}

pub open spec fn spec_parse_state(text: Seq<char>) -> SpecState {
    state_lines(lines(text))
}

/// The saved lines, user first.
pub open spec fn state_file_lines(st: SpecState) -> Seq<Seq<char>> {
    (match st.last_user {
        Some(u) => seq!["user = "@ + u],
        None => Seq::empty(),
    }) + (match st.last_session {
        Some(s) => seq!["session = "@ + s],
        None => Seq::empty(),
    })
}

pub open spec fn spec_render_state(st: SpecState) -> Seq<char> {
    join_lines(state_file_lines(st))
}

/// The state a file's text describes: the last `user = ` and the last
/// `session = ` line win, values trimmed; other lines are ignored.
pub fn parse_state(text: &str) -> (r: State)
    ensures
        r@ == spec_parse_state(text@),
{
    let s = chars_of(text);
    let ranges = line_ranges(&s);
    let mut st = State { last_user: None, last_session: None };
    let mut k: usize = 0;
    while k < ranges.len()
        invariant
            k <= ranges@.len() == lines(s@).len(),
            s@ == text@,
            forall|j: int|
                0 <= j < ranges@.len() ==> {
                    &&& (#[trigger] ranges@[j]).0 <= ranges@[j].1 <= s.len()
                    &&& s@.subrange(ranges@[j].0 as int, ranges@[j].1 as int) == lines(s@)[j]
                },
            st@ == state_lines(lines(s@).take(k as int)),
        decreases ranges@.len() - k,
    {
        let (lo, hi) = ranges[k];
        let ghost line = s@.subrange(lo as int, hi as int);
        proof {
            reveal_strlit("user = ");
            reveal_strlit("session = ");
        }
        if range_starts_with(&s, lo, hi, "user = ") {
            let (a, b) = trim_range(&s, lo + 7, hi);
            assert(line.skip(7) =~= s@.subrange(lo + 7, hi as int));
            st.last_user = Some(string_of(&s, a, b));
        } else if range_starts_with(&s, lo, hi, "session = ") {
            let (a, b) = trim_range(&s, lo + 10, hi);
            assert(line.skip(10) =~= s@.subrange(lo + 10, hi as int));
            st.last_session = Some(string_of(&s, a, b));
        }
        proof {
            let ls = lines(s@).take(k + 1);
            assert(ls.drop_last() =~= lines(s@).take(k as int));
        }
        k += 1;
    }
    assert(lines(s@).take(k as int) =~= lines(s@));
    st
}

/// The text a state saves as: `user = <u>` and `session = <s>` lines for
/// the values that are set.
pub fn render_state(st: &State) -> (r: String)
    ensures
        r@ == spec_render_state(st@),
{
    let ghost v = st@;
    let mut out = String::new();
    match &st.last_user {
        Some(u) => {
            push_str(&mut out, "user = ");
            push_str(&mut out, u.as_str());
            push_char(&mut out, '\n');
        },
        None => {},
    }
    let ghost first = match v.last_user {
        Some(u) => seq!["user = "@ + u],
        None => Seq::<Seq<char>>::empty(),
    };
    assert(out@ =~= join_lines(first)) by {
        assert(join_lines(Seq::<Seq<char>>::empty()) == Seq::<char>::empty());
        if first.len() > 0 {
            assert(first.drop_first() =~= Seq::<Seq<char>>::empty());
        }
    }
    let ghost mid = out@;
    match &st.last_session {
        Some(x) => {
            push_str(&mut out, "session = ");
            push_str(&mut out, x.as_str());
            push_char(&mut out, '\n');
        },
        None => {},
    }
    let ghost second = match v.last_session {
        Some(x) => seq!["session = "@ + x],
        None => Seq::<Seq<char>>::empty(),
    };
    assert(out@ =~= mid + join_lines(second)) by {
        assert(join_lines(Seq::<Seq<char>>::empty()) == Seq::<char>::empty());
        if second.len() > 0 {
            assert(second.drop_first() =~= Seq::<Seq<char>>::empty());
        }
    }
    proof {
        crate::config::lemma_join_concat(first, second);
    }
    out
}

/// A value that a state file holds back unchanged: trimmed, one line.
pub open spec fn storable(v: Seq<char>) -> bool {
    trim(v) == v && no_char(v, '\n')
}

/// A fixed prefix and a storable value make a line `lines` keeps intact.
proof fn lemma_prefixed_plain(p: Seq<char>, v: Seq<char>)
    requires
        p.len() > 0,
        p.last() == ' ',
        no_char(p, '\n'),
        storable(v),
    ensures
        plain_line(p + v),
{
    let l = p + v;
    assert forall|i: int| 0 <= i < l.len() implies l[i] != '\n' by {
        if i < p.len() {
            assert(l[i] == p[i]);
        } else {
            assert(l[i] == v[i - p.len()]);
        }
    }
    if v.len() > 0 {
        lemma_trim_fixed(v);
        assert(l.last() == v.last());
    }
}

/// Saving a state and reading the saved text gives the state back, for
/// values that are already trimmed and hold no line break.
pub proof fn law_state_roundtrip(st: SpecState)
    requires
        st.last_user matches Some(u) ==> storable(u),
        st.last_session matches Some(s) ==> storable(s),
    ensures
        spec_parse_state(spec_render_state(st)) == st,
{
    reveal_strlit("user = ");
    reveal_strlit("session = ");
    let ls = state_file_lines(st);
    let a0 = match st.last_user {
        Some(u) => seq!["user = "@ + u],
        None => Seq::<Seq<char>>::empty(),
    };
    let b0 = match st.last_session {
        Some(x) => seq!["session = "@ + x],
        None => Seq::<Seq<char>>::empty(),
    };
    if let Some(u) = st.last_user {
        lemma_prefixed_plain("user = "@, u);
    }
    if let Some(x) = st.last_session {
        lemma_prefixed_plain("session = "@, x);
    }
    assert(all_plain(a0));
    assert(all_plain(b0));
    lemma_all_plain_concat(a0, b0);
    lemma_lines_join(ls);
    let empty = SpecState { last_user: None, last_session: None };
    let a = match st.last_user {
        Some(u) => seq!["user = "@ + u],
        None => Seq::<Seq<char>>::empty(),
    };
    let b = match st.last_session {
        Some(s) => seq!["session = "@ + s],
        None => Seq::<Seq<char>>::empty(),
    };
    if let Some(u) = st.last_user {
        let l = "user = "@ + u;
        assert(l.take(7) =~= "user = "@);
        assert(l.skip(7) =~= u);
        assert(a =~= Seq::<Seq<char>>::empty().push(l));
        assert(Seq::<Seq<char>>::empty().push(l).drop_last() =~= Seq::<Seq<char>>::empty());
        assert(starts_with(l, "user = "@));
        assert(a.drop_last() =~= Seq::<Seq<char>>::empty());
        assert(a.last() == l);
        assert(state_lines(a) == state_line(state_lines(a.drop_last()), a.last()));
        assert(state_lines(a) == state_line(empty, l));
        assert(state_lines(a) == SpecState { last_user: Some(u), last_session: None });
    } else {
        assert(a =~= Seq::<Seq<char>>::empty());
    }
    let mid = state_lines(a);
    assert(mid == SpecState { last_user: st.last_user, last_session: None });
    if let Some(x) = st.last_session {
        let l = "session = "@ + x;
        assert(l.take(10) =~= "session = "@);
        assert(l.skip(10) =~= x);
        assert(l[0] != "user = "@[0]);
        assert(!starts_with(l, "user = "@));
        assert((a + b).drop_last() =~= a);
        assert((a + b).last() == l);
    } else {
        assert(a + b =~= a);
    }
}

} // verus!

verus! {

/// `str::split(':')`: the fields between colons (one field when none).
pub open spec fn split_fields(s: Seq<char>) -> Seq<Seq<char>>
    decreases s.len(),
{
    let i = index_of(s, ':');
    proof {
        lemma_index_of_bounds(s, ':');
    }
    if i < 0 {
        seq![s]
    } else {
        seq![s.take(i)] + split_fields(s.skip(i + 1))
    }
}

pub open spec fn is_digit(c: char) -> bool {
    '0' <= c && c <= '9'
}

/// The decimal value of a digit string.
pub open spec fn digits_value(d: Seq<char>) -> nat
    decreases d.len(),
{
    if d.len() == 0 {
        0
    } else {
        digits_value(d.drop_last()) * 10 + (d.last() as nat - '0' as nat) as nat
    }
}

/// The digits of a number with its optional leading `+` removed.
pub open spec fn unsigned_digits(s: Seq<char>) -> Seq<char> {
    if s.len() > 0 && s[0] == '+' {
        s.drop_first()
    } else {
        s
    }
}

/// One or more decimal digits.
pub open spec fn all_digits(d: Seq<char>) -> bool {
    d.len() > 0 && forall|i: int| 0 <= i < d.len() ==> is_digit(#[trigger] d[i])
}

/// `str::parse::<u32>`: an optional `+`, then one or more decimal digits
/// whose value fits in 32 bits.
pub open spec fn spec_parse_u32(s: Seq<char>) -> Option<u32> {
    match spec_parse_uint(s, u32::MAX as nat) {
        Some(v) => Some(v as u32),
        None => None,
    }
}

/// `str::parse` for an unsigned type whose largest value is `max`: an
/// optional `+`, then one or more decimal digits whose value is at most `max`.
pub open spec fn spec_parse_uint(s: Seq<char>, max: nat) -> Option<nat> {
    let d = unsigned_digits(s);
    if all_digits(d) && digits_value(d) <= max {
        Some(digits_value(d))
    } else {
        None
    }
}

/// A passwd(5) line that names a human account: seven fields, uid at
/// least 1000, not `nobody` (65534), and a shell that can log in.
pub open spec fn is_human(line: Seq<char>) -> bool {
    let f = split_fields(line);
    &&& f.len() >= 7
    &&& spec_parse_u32(f[2]) matches Some(uid)
    &&& uid >= 1000
    &&& uid != 65534
    &&& !ends_with(f[6], "nologin"@)
    &&& f[6] != "/bin/false"@
    &&& f[6] != "/usr/bin/false"@
    &&& f[6] != "/bin/sync"@
}

/// The account names of the human lines, in file order.
pub open spec fn humans(ls: Seq<Seq<char>>) -> Seq<Seq<char>>
    decreases ls.len(),
{
    if ls.len() == 0 {
        Seq::empty()
    } else if is_human(ls.last()) {
        humans(ls.drop_last()).push(split_fields(ls.last())[0])
    } else {
        humans(ls.drop_last())
    }
}

/// The ranges of `split_fields(s[lo..hi])` inside `s`.
fn field_ranges(s: &Vec<char>, lo: usize, hi: usize) -> (r: Vec<(usize, usize)>)
    requires
        lo <= hi <= s.len(),
    ensures
        r@.len() == split_fields(s@.subrange(lo as int, hi as int)).len(),
        forall|k: int|
            0 <= k < r@.len() ==> {
                &&& (#[trigger] r@[k]).0 <= r@[k].1 <= s.len()
                &&& s@.subrange(r@[k].0 as int, r@[k].1 as int) == split_fields(
                    s@.subrange(lo as int, hi as int),
                )[k]
            },
{
    let mut out: Vec<(usize, usize)> = Vec::new();
    let mut pos = lo;
    let ghost done: Seq<Seq<char>> = Seq::empty();
    loop
        invariant
            lo <= pos <= hi <= s.len(),
            out@.len() == done.len(),
            split_fields(s@.subrange(lo as int, hi as int)) == done + split_fields(
                s@.subrange(pos as int, hi as int),
            ),
            forall|k: int|
                0 <= k < out@.len() ==> {
                    &&& (#[trigger] out@[k]).0 <= out@[k].1 <= s.len()
                    &&& s@.subrange(out@[k].0 as int, out@[k].1 as int) == done[k]
                },
        ensures
            out@.len() == split_fields(s@.subrange(lo as int, hi as int)).len(),
            forall|k: int|
                0 <= k < out@.len() ==> {
                    &&& (#[trigger] out@[k]).0 <= out@[k].1 <= s.len()
                    &&& s@.subrange(out@[k].0 as int, out@[k].1 as int) == split_fields(
                        s@.subrange(lo as int, hi as int),
                    )[k]
                },
        decreases hi - pos,
    {
        let ghost rest = s@.subrange(pos as int, hi as int);
        let c = find_char(s, pos, hi, ':');
        proof {
            lemma_index_of_bounds(rest, ':');
        }
        if c == hi {
            out.push((pos, hi));
            proof {
                done = done.push(rest);
                assert(split_fields(s@.subrange(lo as int, hi as int)) =~= done);
            }
            return out;
        }
        out.push((pos, c));
        proof {
            let i = c - pos;
            assert(rest.take(i) =~= s@.subrange(pos as int, c as int));
            assert(rest.skip(i + 1) =~= s@.subrange(c + 1, hi as int));
            done = done.push(rest.take(i));
            assert(split_fields(s@.subrange(lo as int, hi as int)) =~= done + split_fields(
                s@.subrange(c + 1, hi as int),
            ));
        }
        pos = c + 1;
    }
}

/// `s[lo..hi]` parsed as an unsigned number of at most `max`.
pub fn parse_uint_range(s: &Vec<char>, lo: usize, hi: usize, max: u64) -> (r: Option<u64>)
    requires
        lo <= hi <= s.len(),
    ensures
        r matches Some(v) ==> spec_parse_uint(s@.subrange(lo as int, hi as int), max as nat)
            == Some(v as nat),
        r is None ==> spec_parse_uint(s@.subrange(lo as int, hi as int), max as nat) is None,
{
    let ghost t = s@.subrange(lo as int, hi as int);
    let start = if lo < hi && s[lo] == '+' {
        lo + 1
    } else {
        lo
    };
    let ghost d = s@.subrange(start as int, hi as int);
    assert(d =~= unsigned_digits(t));
    if start == hi {
        return None;
    }
    let mut v: u64 = 0;
    let mut i = start;
    while i < hi
        invariant
            lo <= start <= i <= hi <= s.len(),
            start < hi,
            d == s@.subrange(start as int, hi as int),
            t == s@.subrange(lo as int, hi as int),
            d == unsigned_digits(t),
            forall|j: int| start <= j < i ==> is_digit(#[trigger] s@[j]),
            v == digits_value(s@.subrange(start as int, i as int)),
            v <= max,
        decreases hi - i,
    {
        let c = s[i];
        if !('0' <= c && c <= '9') {
            assert(!is_digit(d[i - start]));
            assert(!all_digits(d));
            return None;
        }
        let digit = (c as u32 - '0' as u32) as u64;
        proof {
            let p = s@.subrange(start as int, i + 1);
            assert(p.drop_last() =~= s@.subrange(start as int, i as int));
        }
        if digit > max || v > (max - digit) / 10 {
            proof {
                let k = i + 1 - start;
                let p = s@.subrange(start as int, i + 1);
                assert(p =~= d.take(k));
                assert(p.last() == c);
                assert(digits_value(p) == v * 10 + digit);
                assert(v * 10 + digit > max) by (nonlinear_arith)
                    requires
                        digit > max || v > (max - digit) / 10,
                        digit <= 9,
                ;
                if all_digits(d) {
                    lemma_digits_grow(d, k);
                }
            }
            return None;
        }
        assert(v * 10 + digit <= max) by (nonlinear_arith)
            requires
                digit <= max,
                v <= (max - digit) / 10,
        ;
        v = v * 10 + digit;
        i += 1;
    }
    assert(s@.subrange(start as int, i as int) =~= d);
    Some(v)
}

/// `s[lo..hi]` parsed as a `u32`.
pub fn parse_u32_range(s: &Vec<char>, lo: usize, hi: usize) -> (r: Option<u32>)
    requires
        lo <= hi <= s.len(),
    ensures
        r == spec_parse_u32(s@.subrange(lo as int, hi as int)),
{
    match parse_uint_range(s, lo, hi, 4294967295u64) {
        Some(v) => Some(v as u32),
        None => None,
    }
}

/// A digit string's value never shrinks as digits are appended.
proof fn lemma_digits_grow(d: Seq<char>, k: int)
    requires
        0 <= k <= d.len(),
        all_digits(d),
    ensures
        digits_value(d.take(k)) <= digits_value(d),
    decreases d.len() - k,
{
    if k < d.len() {
        lemma_digits_grow(d, k + 1);
        assert(d.take(k + 1).drop_last() =~= d.take(k));
    } else {
        assert(d.take(k) =~= d);
    }
}

} // verus!

verus! {

/// The human-account test of [`is_human`] on the line `s[lo..hi]`.
fn human_line(s: &Vec<char>, lo: usize, hi: usize) -> (r: Option<(usize, usize)>)
    requires
        lo <= hi <= s.len(),
    ensures
        r is Some <==> is_human(s@.subrange(lo as int, hi as int)),
        r matches Some(n) ==> n.0 <= n.1 <= s.len() && s@.subrange(n.0 as int, n.1 as int)
            == split_fields(s@.subrange(lo as int, hi as int))[0],
{
    let f = field_ranges(s, lo, hi);
    let ghost fs = split_fields(s@.subrange(lo as int, hi as int));
    if f.len() < 7 {
        return None;
    }
    let uid = match parse_u32_range(s, f[2].0, f[2].1) {
        Some(u) => u,
        None => return None,
    };
    if uid < 1000 || uid == 65534 {
        return None;
    }
    let (sa, sb) = f[6];
    let n = 7usize;
    proof {
        reveal_strlit("nologin");
    }
    let nologin = sb - sa >= n && range_eq(s, sb - n, sb, "nologin");
    assert(nologin == ends_with(fs[6], "nologin"@)) by {
        if sb - sa >= 7 {
            assert(fs[6].skip(fs[6].len() - 7) =~= s@.subrange(sb - 7, sb as int));
        }
    }
    if nologin || range_eq(s, sa, sb, "/bin/false") || range_eq(s, sa, sb, "/usr/bin/false")
        || range_eq(s, sa, sb, "/bin/sync") {
        return None;
    }
    Some(f[0])
}

/// Human accounts in passwd(5) text, in file order: uid >= 1000, not
/// `nobody`, and a shell that can actually log in.
pub fn human_users(passwd: &str) -> (r: Vec<String>)
    ensures
        r@.map_values(|u: String| u@) == humans(lines(passwd@)),
{
    let s = chars_of(passwd);
    let ranges = line_ranges(&s);
    let mut out: Vec<String> = Vec::new();
    let mut k: usize = 0;
    while k < ranges.len()
        invariant
            k <= ranges@.len() == lines(s@).len(),
            s@ == passwd@,
            forall|j: int|
                0 <= j < ranges@.len() ==> {
                    &&& (#[trigger] ranges@[j]).0 <= ranges@[j].1 <= s.len()
                    &&& s@.subrange(ranges@[j].0 as int, ranges@[j].1 as int) == lines(s@)[j]
                },
            out@.map_values(|u: String| u@) == humans(lines(s@).take(k as int)),
        decreases ranges@.len() - k,
    {
        let (lo, hi) = ranges[k];
        let ghost prev = out@;
        proof {
            let ls = lines(s@).take(k + 1);
            assert(ls.drop_last() =~= lines(s@).take(k as int));
            assert(ls.last() == lines(s@)[k as int]);
        }
        match human_line(&s, lo, hi) {
            Some((a, b)) => {
                out.push(string_of(&s, a, b));
                assert(out@.map_values(|u: String| u@) =~= prev.map_values(|u: String| u@).push(
                    s@.subrange(a as int, b as int),
                ));
            },
            None => {},
        }
        k += 1;
    }
    assert(lines(s@).take(k as int) =~= lines(s@));
    out
}

/// The login prefill on first boot: the one human account, or nothing
/// when there are none or several (no guessing between accounts).
pub fn default_user_from(passwd: &str) -> (r: Option<String>)
    ensures
        humans(lines(passwd@)).len() == 1 ==> (r matches Some(u) && u@ == humans(
            lines(passwd@),
        )[0]),
        humans(lines(passwd@)).len() != 1 ==> r is None,
{
    let users = human_users(passwd);
    if users.len() == 1 {
        let u = users[0].clone();
        assert(users@.map_values(|u: String| u@)[0] == users@[0]@);
        Some(u)
    } else {
        None
    }
}

} // verus!
