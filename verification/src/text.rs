//! Character-level text helpers shared by the line-oriented file formats:
//! whitespace trimming, line splitting, searching and string building.
//! Every helper is specified over the `Seq<char>` view of the text.

use vstd::prelude::*;

verus! {

/// `char::is_whitespace`: the Unicode `White_Space` property.
pub open spec fn is_ws(c: char) -> bool {
    let u = c as u32;
    ||| 0x09 <= u <= 0x0D
    ||| u == 0x20
    ||| u == 0x85
    ||| u == 0xA0
    ||| u == 0x1680
    ||| 0x2000 <= u <= 0x200A
    ||| u == 0x2028
    ||| u == 0x2029
    ||| u == 0x202F
    ||| u == 0x205F
    ||| u == 0x3000
}

/// Leading whitespace removed.
pub open spec fn trim_start(s: Seq<char>) -> Seq<char>
    decreases s.len(),
{
    if s.len() > 0 && is_ws(s[0]) {
        trim_start(s.drop_first())
    } else {
        s
    }
}

/// Trailing whitespace removed.
pub open spec fn trim_end(s: Seq<char>) -> Seq<char>
    decreases s.len(),
{
    if s.len() > 0 && is_ws(s.last()) {
        trim_end(s.drop_last())
    } else {
        s
    }
}

/// `str::trim`: whitespace removed at both ends.
pub open spec fn trim(s: Seq<char>) -> Seq<char> {
    trim_end(trim_start(s))
}

/// Index of the first `c` in `s`, or -1.
pub open spec fn index_of(s: Seq<char>, c: char) -> int
    decreases s.len(),
{
    if s.len() == 0 {
        -1
    } else if s[0] == c {
        0
    } else {
        let r = index_of(s.drop_first(), c);
        if r < 0 {
            -1
        } else {
            r + 1
        }
    }
}

/// Index of the first occurrence of the two-character pattern `a b`, or -1.
pub open spec fn index_of_pair(s: Seq<char>, a: char, b: char) -> int
    decreases s.len(),
{
    if s.len() < 2 {
        -1
    } else if s[0] == a && s[1] == b {
        0
    } else {
        let r = index_of_pair(s.drop_first(), a, b);
        if r < 0 {
            -1
        } else {
            r + 1
        }
    }
}

/// `s` starts with `p`.
pub open spec fn starts_with(s: Seq<char>, p: Seq<char>) -> bool {
    p.len() <= s.len() && s.take(p.len() as int) == p
}

/// `s` ends with `p`.
pub open spec fn ends_with(s: Seq<char>, p: Seq<char>) -> bool {
    p.len() <= s.len() && s.skip(s.len() - p.len()) == p
}

/// A line as `str::lines` yields it: the text before a `\n`, with one
/// `\r` right before that `\n` removed.
pub open spec fn strip_cr(s: Seq<char>) -> Seq<char> {
    if s.len() > 0 && s.last() == '\r' {
        s.drop_last()
    } else {
        s
    }
}

/// `str::lines`: split at `\n` (and `\r\n`); a final line ending is
/// optional and yields no empty last line.
pub open spec fn lines(s: Seq<char>) -> Seq<Seq<char>>
    decreases s.len(),
{
    if s.len() == 0 {
        Seq::empty()
    } else {
        let i = index_of(s, '\n');
        proof {
            lemma_index_of_bounds(s, '\n');
        }
        if i < 0 {
            seq![s]
        } else {
            seq![strip_cr(s.take(i))] + lines(s.skip(i + 1))
        }
    }
}

/// Every character of `s` satisfies the ASCII test used by log/config keys.
pub open spec fn no_char(s: Seq<char>, c: char) -> bool {
    forall|i: int| 0 <= i < s.len() ==> s[i] != c
}

pub proof fn lemma_index_of_bounds(s: Seq<char>, c: char)
    ensures
        -1 <= index_of(s, c) < s.len(),
        index_of(s, c) >= 0 ==> s[index_of(s, c)] == c,
        index_of(s, c) >= 0 ==> no_char(s.take(index_of(s, c)), c),
        index_of(s, c) < 0 <==> no_char(s, c),
    decreases s.len(),
{
    if s.len() > 0 {
        lemma_index_of_bounds(s.drop_first(), c);
        let r = index_of(s.drop_first(), c);
        if s[0] != c && r >= 0 {
            let t = s.take(r + 1);
            assert forall|i: int| 0 <= i < t.len() implies t[i] != c by {
                if i > 0 {
                    assert(t[i] == s.drop_first().take(r)[i - 1]);
                }
            }
        }
        if s[0] != c && r < 0 {
            assert forall|i: int| 0 <= i < s.len() implies s[i] != c by {
                if i > 0 {
                    assert(s[i] == s.drop_first()[i - 1]);
                }
            }
        }
    }
}

pub proof fn lemma_index_of_pair_bounds(s: Seq<char>, a: char, b: char)
    ensures
        -1 <= index_of_pair(s, a, b),
        index_of_pair(s, a, b) >= 0 ==> index_of_pair(s, a, b) + 1 < s.len(),
        index_of_pair(s, a, b) >= 0 ==> s[index_of_pair(s, a, b)] == a && s[index_of_pair(s, a, b) + 1] == b,
        no_char(s, a) ==> index_of_pair(s, a, b) < 0,
    decreases s.len(),
{
    if s.len() >= 2 {
        lemma_index_of_pair_bounds(s.drop_first(), a, b);
        if no_char(s, a) {
            assert(s[0] == a || no_char(s.drop_first(), a)) by {
                assert forall|i: int| 0 <= i < s.drop_first().len() implies s.drop_first()[i] != a by {
                    assert(s.drop_first()[i] == s[i + 1]);
                }
            }
        }
    }
}

/// Trimming whitespace that is not there changes nothing.
pub proof fn lemma_trim_noop(s: Seq<char>)
    requires
        s.len() > 0 ==> !is_ws(s[0]) && !is_ws(s.last()),
    ensures
        trim(s) == s,
{
}

/// Leading whitespace does not survive a trim.
pub proof fn lemma_trim_start_prefix(w: Seq<char>, s: Seq<char>)
    requires
        forall|i: int| 0 <= i < w.len() ==> is_ws(#[trigger] w[i]),
    ensures
        trim_start(w + s) == trim_start(s),
    decreases w.len(),
{
    if w.len() > 0 {
        assert((w + s).drop_first() =~= w.drop_first() + s);
        lemma_trim_start_prefix(w.drop_first(), s);
    } else {
        assert(w + s =~= s);
    }
}

/// Trailing whitespace does not survive a trim.
pub proof fn lemma_trim_end_suffix(s: Seq<char>, w: Seq<char>)
    requires
        forall|i: int| 0 <= i < w.len() ==> is_ws(#[trigger] w[i]),
    ensures
        trim_end(s + w) == trim_end(s),
    decreases w.len(),
{
    if w.len() > 0 {
        assert((s + w).drop_last() =~= s + w.drop_last());
        lemma_trim_end_suffix(s, w.drop_last());
    } else {
        assert(s + w =~= s);
    }
}

/// Trimming never lengthens; it shortens when there is edge whitespace.
pub proof fn lemma_trim_start_len(s: Seq<char>)
    ensures
        trim_start(s).len() <= s.len(),
        s.len() > 0 && is_ws(s[0]) ==> trim_start(s).len() < s.len(),
        trim_start(s) == s.skip(s.len() - trim_start(s).len()),
    decreases s.len(),
{
    if s.len() > 0 && is_ws(s[0]) {
        lemma_trim_start_len(s.drop_first());
        assert(s.drop_first().skip(s.drop_first().len() - trim_start(s).len()) =~= s.skip(
            s.len() - trim_start(s).len(),
        ));
    } else {
        assert(s.skip(0) =~= s);
    }
}

pub proof fn lemma_trim_end_len(s: Seq<char>)
    ensures
        trim_end(s).len() <= s.len(),
        s.len() > 0 && is_ws(s.last()) ==> trim_end(s).len() < s.len(),
        trim_end(s) == s.take(trim_end(s).len() as int),
    decreases s.len(),
{
    if s.len() > 0 && is_ws(s.last()) {
        lemma_trim_end_len(s.drop_last());
        assert(s.drop_last().take(trim_end(s).len() as int) =~= s.take(trim_end(s).len() as int));
    } else {
        assert(s.take(s.len() as int) =~= s);
    }
}

/// A string that trimming leaves alone has no edge whitespace.
pub proof fn lemma_trim_fixed(s: Seq<char>)
    requires
        trim(s) == s,
        s.len() > 0,
    ensures
        !is_ws(s[0]),
        !is_ws(s.last()),
{
    lemma_trim_start_len(s);
    lemma_trim_end_len(trim_start(s));
    if is_ws(s[0]) {
        assert(trim(s).len() < s.len());
    }
    assert(trim_start(s).len() == s.len());
    assert(trim_start(s) =~= s);
}

/// `index_of` over a concatenation whose left part lacks the character.
pub proof fn lemma_index_of_concat(a: Seq<char>, b: Seq<char>, c: char)
    requires
        no_char(a, c),
    ensures
        index_of(a + b, c) == (if index_of(b, c) < 0 { -1 } else { a.len() + index_of(b, c) }),
    decreases a.len(),
{
    if a.len() == 0 {
        assert(a + b =~= b);
    } else {
        assert((a + b).drop_first() =~= a.drop_first() + b);
        lemma_index_of_concat(a.drop_first(), b, c);
    }
}

/// `index_of` finds a character at the position of its first occurrence.
pub proof fn lemma_index_of_at(a: Seq<char>, c: char, b: Seq<char>)
    requires
        no_char(a, c),
    ensures
        index_of(a + seq![c] + b, c) == a.len(),
{
    lemma_index_of_concat(a, seq![c] + b, c);
    assert(a + seq![c] + b =~= a + (seq![c] + b));
    assert((seq![c] + b)[0] == c);
}

/// `index_of_pair` over a concatenation whose left part has no first char.
pub proof fn lemma_index_of_pair_concat(a: Seq<char>, b: Seq<char>, x: char, y: char)
    requires
        no_char(a, x),
    ensures
        index_of_pair(a + b, x, y) == (if index_of_pair(b, x, y) < 0 { -1 } else { a.len()
            + index_of_pair(b, x, y) }),
    decreases a.len(),
{
    if a.len() == 0 {
        assert(a + b =~= b);
    } else {
        assert((a + b).drop_first() =~= a.drop_first() + b);
        lemma_index_of_pair_concat(a.drop_first(), b, x, y);
        if b.len() == 0 {
            lemma_index_of_pair_bounds(a, x, y);
            assert(a + b =~= a);
        }
    }
}

/// `lines` of one line followed by `\n` and more text.
pub proof fn lemma_lines_cons(l: Seq<char>, rest: Seq<char>)
    requires
        no_char(l, '\n'),
    ensures
        lines(l + seq!['\n'] + rest) == seq![strip_cr(l)] + lines(rest),
{
    let s = l + seq!['\n'] + rest;
    lemma_index_of_at(l, '\n', rest);
    assert(s.take(l.len() as int) =~= l);
    assert(s.skip(l.len() as int + 1) =~= rest);
}

/// `lines` of a single unterminated line without line breaks.
pub proof fn lemma_lines_single(l: Seq<char>)
    requires
        no_char(l, '\n'),
        l.len() > 0,
    ensures
        lines(l) == seq![l],
{
    lemma_index_of_bounds(l, '\n');
}

/// Lines joined back with `\n` terminators: each line ends with a newline.
pub open spec fn join_lines(ls: Seq<Seq<char>>) -> Seq<char>
    decreases ls.len(),
{
    if ls.len() == 0 {
        Seq::empty()
    } else {
        ls[0] + seq!['\n'] + join_lines(ls.drop_first())
    }
}

/// A line that `lines` gives back unchanged.
pub open spec fn plain_line(l: Seq<char>) -> bool {
    no_char(l, '\n') && !(l.len() > 0 && l.last() == '\r')
}

/// Splitting newline-terminated lines gives the lines back.
pub proof fn lemma_lines_join(ls: Seq<Seq<char>>)
    requires
        forall|i: int| 0 <= i < ls.len() ==> plain_line(#[trigger] ls[i]),
    ensures
        lines(join_lines(ls)) == ls,
    decreases ls.len(),
{
    if ls.len() > 0 {
        assert(plain_line(ls[0]));
        lemma_lines_join(ls.drop_first());
        lemma_lines_cons(ls[0], join_lines(ls.drop_first()));
        assert(seq![ls[0]] + ls.drop_first() =~= ls);
    }
}

/// `char::is_whitespace`.
pub fn char_is_ws(c: char) -> (r: bool)
    ensures
        r == is_ws(c),
{
    let u = c as u32;
    (0x09 <= u && u <= 0x0D) || u == 0x20 || u == 0x85 || u == 0xA0 || u == 0x1680 || (0x2000
        <= u && u <= 0x200A) || u == 0x2028 || u == 0x2029 || u == 0x202F || u == 0x205F || u
        == 0x3000
}

/// The characters of a string slice.
pub fn chars_of(s: &str) -> (r: Vec<char>)
    ensures
        r@ == s@,
{
    let mut out: Vec<char> = Vec::new();
    for c in it: s.chars()
        invariant
            out@ == it.seq().take(it.index() as int),
    {
        out.push(c);
    }
    out
}

/// Appends one character (`String::push`).
#[verifier::external_body]
pub fn push_char(s: &mut String, c: char)
    ensures
        final(s)@ == old(s)@.push(c),
{
    s.push(c);
}

/// `String::pop`: removes and returns the last character.
#[verifier::external_body]
pub fn pop_char(s: &mut String) -> (r: Option<char>)
    ensures
        old(s)@.len() == 0 ==> r is None && final(s)@ == old(s)@,
        old(s)@.len() > 0 ==> r == Some(old(s)@.last()) && final(s)@ == old(s)@.drop_last(),
{
    s.pop()
}

/// The string made of `s[lo..hi]`.
pub fn string_of(s: &Vec<char>, lo: usize, hi: usize) -> (r: String)
    requires
        lo <= hi <= s.len(),
    ensures
        r@ == s@.subrange(lo as int, hi as int),
{
    let mut out = String::new();
    let mut i = lo;
    while i < hi
        invariant
            lo <= i <= hi <= s.len(),
            out@ == s@.subrange(lo as int, i as int),
        decreases hi - i,
    {
        push_char(&mut out, s[i]);
        assert(s@.subrange(lo as int, i + 1) =~= s@.subrange(lo as int, i as int).push(s@[i as int]));
        i += 1;
    }
    out
}

/// Appends a string slice (`String::push_str`).
pub fn push_str(out: &mut String, s: &str)
    ensures
        final(out)@ == old(out)@ + s@,
{
    let cs = chars_of(s);
    let ghost start = out@;
    let mut i: usize = 0;
    while i < cs.len()
        invariant
            i <= cs.len(),
            cs@ == s@,
            out@ == start + cs@.take(i as int),
        decreases cs.len() - i,
    {
        push_char(out, cs[i]);
        assert(cs@.take(i + 1) =~= cs@.take(i as int).push(cs@[i as int]));
        i += 1;
    }
    assert(cs@.take(cs.len() as int) =~= cs@);
}

/// `s[lo..hi] == lit`.
pub fn range_eq(s: &Vec<char>, lo: usize, hi: usize, lit: &str) -> (r: bool)
    requires
        lo <= hi <= s.len(),
    ensures
        r == (s@.subrange(lo as int, hi as int) == lit@),
{
    let l = chars_of(lit);
    if hi - lo != l.len() {
        assert(s@.subrange(lo as int, hi as int).len() != lit@.len());
        return false;
    }
    let mut i: usize = 0;
    while i < l.len()
        invariant
            i <= l.len() == hi - lo,
            lo <= hi <= s.len(),
            l@ == lit@,
            forall|j: int| 0 <= j < i ==> s@[lo + j] == l@[j],
        decreases l.len() - i,
    {
        if s[lo + i] != l[i] {
            assert(s@.subrange(lo as int, hi as int)[i as int] != lit@[i as int]);
            return false;
        }
        i += 1;
    }
    assert(s@.subrange(lo as int, hi as int) =~= lit@);
    true
}

/// `s == lit` for a whole character vector.
pub fn chars_eq(s: &Vec<char>, lit: &str) -> (r: bool)
    ensures
        r == (s@ == lit@),
{
    let r = range_eq(s, 0, s.len(), lit);
    assert(s@.subrange(0, s.len() as int) =~= s@);
    r
}

/// How many non-whitespace characters `s` starts with.
pub open spec fn token_len(s: Seq<char>) -> nat
    decreases s.len(),
{
    if s.len() == 0 || is_ws(s[0]) {
        0
    } else {
        1 + token_len(s.drop_first())
    }
}

pub proof fn lemma_token_len_bound(s: Seq<char>)
    ensures
        token_len(s) <= s.len(),
    decreases s.len(),
{
    if s.len() > 0 && !is_ws(s[0]) {
        lemma_token_len_bound(s.drop_first());
    }
}

/// `str::split_whitespace`: the maximal runs of non-whitespace.
pub open spec fn words(s: Seq<char>) -> Seq<Seq<char>>
    decreases s.len(),
{
    if s.len() == 0 {
        Seq::empty()
    } else if is_ws(s[0]) {
        words(s.drop_first())
    } else {
        let i = token_len(s);
        proof {
            lemma_token_len_bound(s);
        }
        seq![s.take(i as int)] + words(s.skip(i as int))
    }
}

/// The ranges of `words(s)` inside `s`.
pub fn word_ranges(s: &Vec<char>) -> (r: Vec<(usize, usize)>)
    ensures
        r@.len() == words(s@).len(),
        forall|k: int|
            0 <= k < r@.len() ==> {
                &&& (#[trigger] r@[k]).0 <= r@[k].1 <= s.len()
                &&& s@.subrange(r@[k].0 as int, r@[k].1 as int) == words(s@)[k]
            },
{
    let mut out: Vec<(usize, usize)> = Vec::new();
    let ghost mut done: Seq<Seq<char>> = Seq::empty();
    let mut pos: usize = 0;
    assert(s@.subrange(0, s.len() as int) =~= s@);
    assert(done + words(s@) =~= words(s@));
    while pos < s.len()
        invariant
            pos <= s.len(),
            out@.len() == done.len(),
            words(s@) == done + words(s@.subrange(pos as int, s.len() as int)),
            forall|k: int|
                0 <= k < out@.len() ==> {
                    &&& (#[trigger] out@[k]).0 <= out@[k].1 <= s.len()
                    &&& s@.subrange(out@[k].0 as int, out@[k].1 as int) == done[k]
                },
        decreases s.len() - pos,
    {
        let ghost rest = s@.subrange(pos as int, s.len() as int);
        if char_is_ws(s[pos]) {
            assert(rest.drop_first() =~= s@.subrange(pos + 1, s.len() as int));
            pos += 1;
        } else {
            let start = pos;
            let mut end = pos;
            while end < s.len() && !char_is_ws(s[end])
                invariant
                    start <= end <= s.len(),
                    rest == s@.subrange(start as int, s.len() as int),
                    token_len(rest) == (end - start) + token_len(
                        s@.subrange(end as int, s.len() as int),
                    ),
                decreases s.len() - end,
            {
                assert(s@.subrange(end as int, s.len() as int).drop_first() =~= s@.subrange(
                    end + 1,
                    s.len() as int,
                ));
                end += 1;
            }
            proof {
                let tail = s@.subrange(end as int, s.len() as int);
                assert(token_len(tail) == 0);
                let i = token_len(rest);
                assert(i == end - start);
                assert(rest.take(i as int) =~= s@.subrange(start as int, end as int));
                assert(rest.skip(i as int) =~= tail);
                done = done.push(s@.subrange(start as int, end as int));
                assert(words(s@) =~= done + words(tail));
            }
            out.push((start, end));
            pos = end;
        }
    }
    proof {
        assert(s@.subrange(pos as int, s.len() as int) =~= Seq::<char>::empty());
        assert(words(s@) =~= done);
    }
    out
}

/// The decimal digit for `d < 10`.
pub open spec fn digit_char(d: nat) -> char {
    ((d + 48) as u32) as char
}

/// `n` in decimal, no leading zeros (`format!("{n}")`).
pub open spec fn decimal(n: nat) -> Seq<char>
    decreases n,
{
    if n < 10 {
        seq![digit_char(n)]
    } else {
        decimal(n / 10) + seq![digit_char(n % 10)]
    }
}

/// `n` in decimal, at least two digits (`format!("{n:02}")`).
pub open spec fn decimal2(n: nat) -> Seq<char> {
    if n < 10 {
        seq!['0'] + decimal(n)
    } else {
        decimal(n)
    }
}

fn digit_exec(d: u64) -> (r: char)
    requires
        d < 10,
    ensures
        r == digit_char(d as nat),
{
    let b: u8 = (d + 48) as u8;
    b as char
}

/// Appends `n` in decimal.
pub fn push_decimal(out: &mut String, n: u64)
    ensures
        final(out)@ == old(out)@ + decimal(n as nat),
    decreases n,
{
    if n < 10 {
        push_char(out, digit_exec(n));
        assert(final(out)@ =~= old(out)@ + decimal(n as nat));
    } else {
        push_decimal(out, n / 10);
        push_char(out, digit_exec(n % 10));
        assert(final(out)@ =~= old(out)@ + decimal(n as nat));
    }
}

/// Appends `n` in decimal, at least two digits.
pub fn push_decimal2(out: &mut String, n: u64)
    ensures
        final(out)@ == old(out)@ + decimal2(n as nat),
{
    if n < 10 {
        push_char(out, '0');
    }
    push_decimal(out, n);
    assert(final(out)@ =~= old(out)@ + decimal2(n as nat));
}

/// `a == b` on string slices.
pub fn str_eq(a: &str, b: &str) -> (r: bool)
    ensures
        r == (a@ == b@),
{
    let ca = chars_of(a);
    chars_eq(&ca, b)
}

/// `s[lo..hi]` starts with `lit`.
pub fn range_starts_with(s: &Vec<char>, lo: usize, hi: usize, lit: &str) -> (r: bool)
    requires
        lo <= hi <= s.len(),
    ensures
        r == starts_with(s@.subrange(lo as int, hi as int), lit@),
{
    let n = lit.unicode_len();
    if n > hi - lo {
        return false;
    }
    let r = range_eq(s, lo, lo + n, lit);
    assert(s@.subrange(lo as int, hi as int).take(n as int) =~= s@.subrange(lo as int, lo + n));
    r
}

/// Bounds of `trim(s[lo..hi])` inside `s`.
pub fn trim_range(s: &Vec<char>, lo: usize, hi: usize) -> (r: (usize, usize))
    requires
        lo <= hi <= s.len(),
    ensures
        lo <= r.0 <= r.1 <= hi,
        s@.subrange(r.0 as int, r.1 as int) == trim(s@.subrange(lo as int, hi as int)),
{
    let mut a = lo;
    while a < hi && char_is_ws(s[a])
        invariant
            lo <= a <= hi <= s.len(),
            trim_start(s@.subrange(lo as int, hi as int)) == trim_start(
                s@.subrange(a as int, hi as int),
            ),
        decreases hi - a,
    {
        assert(s@.subrange(a as int, hi as int).drop_first() =~= s@.subrange(a + 1, hi as int));
        a += 1;
    }
    let mut b = hi;
    while b > a && char_is_ws(s[b - 1])
        invariant
            lo <= a <= b <= hi <= s.len(),
            trim_start(s@.subrange(lo as int, hi as int)) == s@.subrange(a as int, hi as int),
            trim_end(s@.subrange(a as int, hi as int)) == trim_end(s@.subrange(a as int, b as int)),
        decreases b - a,
    {
        assert(s@.subrange(a as int, b as int).drop_last() =~= s@.subrange(a as int, b - 1));
        b -= 1;
    }
    (a, b)
}

/// First index of `c` in `s[lo..hi]`, as an absolute index, or `hi`.
pub fn find_char(s: &Vec<char>, lo: usize, hi: usize, c: char) -> (r: usize)
    requires
        lo <= hi <= s.len(),
    ensures
        lo <= r <= hi,
        r == hi <==> index_of(s@.subrange(lo as int, hi as int), c) < 0,
        r < hi ==> index_of(s@.subrange(lo as int, hi as int), c) == r - lo,
{
    let mut i = lo;
    while i < hi
        invariant
            lo <= i <= hi <= s.len(),
            index_of(s@.subrange(lo as int, hi as int), c) == (if index_of(
                s@.subrange(i as int, hi as int),
                c,
            ) < 0 {
                -1
            } else {
                (i - lo) + index_of(s@.subrange(i as int, hi as int), c)
            }),
        decreases hi - i,
    {
        assert(s@.subrange(i as int, hi as int).drop_first() =~= s@.subrange(i + 1, hi as int));
        if s[i] == c {
            return i;
        }
        i += 1;
    }
    i
}

/// First index of the pair `x y` in `s[lo..hi]`, absolute, or `hi`.
pub fn find_pair(s: &Vec<char>, lo: usize, hi: usize, x: char, y: char) -> (r: usize)
    requires
        lo <= hi <= s.len(),
    ensures
        lo <= r <= hi,
        r == hi <==> index_of_pair(s@.subrange(lo as int, hi as int), x, y) < 0,
        r < hi ==> index_of_pair(s@.subrange(lo as int, hi as int), x, y) == r - lo,
{
    let mut i = lo;
    while hi - i > 1
        invariant
            lo <= i <= hi <= s.len(),
            index_of_pair(s@.subrange(lo as int, hi as int), x, y) == (if index_of_pair(
                s@.subrange(i as int, hi as int),
                x,
                y,
            ) < 0 {
                -1
            } else {
                (i - lo) + index_of_pair(s@.subrange(i as int, hi as int), x, y)
            }),
        decreases hi - i,
    {
        assert(s@.subrange(i as int, hi as int).drop_first() =~= s@.subrange(i + 1, hi as int));
        if s[i] == x && s[i + 1] == y {
            return i;
        }
        i += 1;
    }
    proof {
        lemma_index_of_pair_bounds(s@.subrange(i as int, hi as int), x, y);
    }
    hi
}

/// The ranges of `lines(s)` inside `s`.
pub fn line_ranges(s: &Vec<char>) -> (r: Vec<(usize, usize)>)
    ensures
        r@.len() == lines(s@).len(),
        forall|k: int|
            0 <= k < r@.len() ==> {
                &&& (#[trigger] r@[k]).0 <= r@[k].1 <= s.len()
                &&& s@.subrange(r@[k].0 as int, r@[k].1 as int) == lines(s@)[k]
            },
{
    let mut out: Vec<(usize, usize)> = Vec::new();
    let mut pos: usize = 0;
    let ghost done: Seq<Seq<char>> = Seq::empty();
    assert(s@.subrange(0, s.len() as int) =~= s@);
    assert(done + lines(s@) =~= lines(s@));
    while pos < s.len()
        invariant
            pos <= s.len(),
            out@.len() == done.len(),
            lines(s@) == done + lines(s@.subrange(pos as int, s.len() as int)),
            forall|k: int|
                0 <= k < out@.len() ==> {
                    &&& (#[trigger] out@[k]).0 <= out@[k].1 <= s.len()
                    &&& s@.subrange(out@[k].0 as int, out@[k].1 as int) == done[k]
                },
        decreases s.len() - pos,
    {
        let ghost rest = s@.subrange(pos as int, s.len() as int);
        let nl = find_char(s, pos, s.len(), '\n');
        proof {
            lemma_index_of_bounds(rest, '\n');
        }
        if nl == s.len() {
            out.push((pos, s.len()));
            proof {
                done = done.push(rest);
                assert(lines(rest) == seq![rest]);
                assert(s@.subrange(s.len() as int, s.len() as int) =~= Seq::<char>::empty());
                assert(lines(s@) =~= done + lines(s@.subrange(s.len() as int, s.len() as int)));
            }
            pos = s.len();
        } else {
            let end = if nl > pos && s[nl - 1] == '\r' {
                nl - 1
            } else {
                nl
            };
            out.push((pos, end));
            proof {
                let i = nl - pos;
                assert(rest.take(i) =~= s@.subrange(pos as int, nl as int));
                assert(rest.skip(i + 1) =~= s@.subrange(nl + 1, s.len() as int));
                assert(s@.subrange(pos as int, end as int) =~= strip_cr(rest.take(i)));
                done = done.push(strip_cr(rest.take(i)));
                assert(lines(s@) =~= done + lines(s@.subrange(nl + 1, s.len() as int)));
            }
            pos = nl + 1;
        }
    }
    proof {
        assert(s@.subrange(pos as int, s.len() as int) =~= Seq::<char>::empty());
        assert(lines(s@) =~= done);
    }
    out
}

} // verus!
