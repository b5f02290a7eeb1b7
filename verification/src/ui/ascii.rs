//! The ASCII-art stage: where a logo's frames file lives, how a frames
//! file splits into frames, and how large the art may be drawn.
//!
//! Frames file resolution (see [`Logo`]):
//!   - `Legacy`: `/etc/greetd/losker-ascii.txt`
//!   - `Hidden`: no art at all
//!   - `Key(k)`: `<logos_dir>/k.txt`; an unsafe key degrades to the legacy file
//!
//! Format: an optional `# delay: <ms>` header sets the frame cadence
//! (default 100, clamped to 16..=1000); frames are blocks separated by a
//! line holding only `---`; blank blocks are dropped.

use crate::config::{valid_logo_key, Logo, LogoRes, SpecLogo, spec_valid_logo_key};
use crate::state::{parse_uint_range, spec_parse_uint};
use crate::text::{
    chars_of, line_ranges, lines, push_char, push_str, range_eq, range_starts_with, starts_with,
    trim, trim_range,
};
use crate::tui::state::{path_join, spec_path_join};
use vstd::prelude::*;

verus! {

/// The greeting-dir frames file used by `Legacy` and by unsafe keys.
pub const LEGACY_FRAMES_FILE: &'static str = "/etc/greetd/losker-ascii.txt";

/// Frame cadence when the file sets none.
pub const DEFAULT_FRAME_MS: u64 = 100;

/// The reference canvas: about 50 columns fill the art column at 27px.
pub const REFERENCE_COLS: usize = 50;

pub const REFERENCE_PX: i32 = 27;

/// Smallest font size the art is ever drawn at.
pub const MIN_PX: i32 = 9;

/// The logos directory: the environment value when it holds more than
/// whitespace, else `/etc/losker/logos`.
pub open spec fn spec_resolve_logos_dir(env_val: Option<Seq<char>>) -> Seq<char> {
    match env_val {
        Some(v) if trim(v).len() > 0 => v,
        _ => "/etc/losker/logos"@,
    }
}

pub open spec fn opt_str_view(o: Option<&str>) -> Option<Seq<char>> {
    match o {
        Some(v) => Some(v@),
        None => None,
    }
}

/// The logos-dir resolution, given the value of `LOSKER_LOGOS`.
pub fn resolve_logos_dir(env_val: Option<&str>) -> (r: String)
    ensures
        r@ == spec_resolve_logos_dir(opt_str_view(env_val)),
{
    match env_val {
        Some(v) => {
            let c = chars_of(v);
            let (a, b) = trim_range(&c, 0, c.len());
            assert(c@.subrange(0, c.len() as int) =~= c@);
            if a < b {
                return v.to_string();
            }
        },
        None => {},
    }
    "/etc/losker/logos".to_string()
}

/// The plain-capture path of a logo (`None` for `Hidden`).
pub open spec fn frames_base(dir: Seq<char>, logo: SpecLogo) -> Option<Seq<char>> {
    match logo {
        SpecLogo::Legacy => Some(LEGACY_FRAMES_FILE@),
        SpecLogo::Hidden => None,
        SpecLogo::Key(k) => if spec_valid_logo_key(k) {
            Some(spec_path_join(dir, k + ".txt"@))
        } else {
            Some(LEGACY_FRAMES_FILE@)
        },
    }
}

/// A tier's file next to the plain capture: `<stem><sfx>.txt`.
pub open spec fn with_suffix(base: Seq<char>, sfx: Seq<char>) -> Seq<char> {
    if base.len() >= 4 && base.skip(base.len() - 4) == ".txt"@ {
        base.take(base.len() - 4) + sfx + ".txt"@
    } else {
        base
    }
}

/// Frames-file candidates for a logo at a tier, best first: `High` is the
/// plain capture alone; a lower tier tries its suffixed file, then falls
/// back to the plain capture.
pub open spec fn spec_frames_candidates(dir: Seq<char>, logo: SpecLogo, res: LogoRes) -> Seq<
    Seq<char>,
> {
    match frames_base(dir, logo) {
        None => Seq::empty(),
        Some(base) => match res {
            LogoRes::High => seq![with_suffix(base, ""@)],
            LogoRes::Medium => seq![with_suffix(base, "-med"@), with_suffix(base, ""@)],
            LogoRes::Low => seq![with_suffix(base, "-low"@), with_suffix(base, ""@)],
        },
    }
}

pub open spec fn strings_view(v: Seq<String>) -> Seq<Seq<char>> {
    v.map_values(|s: String| s@)
}

fn suffixed(base: &str, sfx: &str) -> (r: String)
    ensures
        r@ == with_suffix(base@, sfx@),
{
    let c = chars_of(base);
    let n = c.len();
    proof {
        reveal_strlit(".txt");
    }
    if n >= 4 && range_eq(&c, n - 4, n, ".txt") {
        let mut out = String::new();
        let mut i: usize = 0;
        while i < n - 4
            invariant
                n == c.len(),
                n >= 4,
                i <= n - 4,
                c@ == base@,
                out@ == c@.take(i as int),
            decreases n - 4 - i,
        {
            push_char(&mut out, c[i]);
            assert(c@.take(i + 1) =~= c@.take(i as int).push(c@[i as int]));
            i += 1;
        }
        push_str(&mut out, sfx);
        push_str(&mut out, ".txt");
        assert(c@.subrange(n - 4, n as int) =~= c@.skip(n - 4));
        assert(out@ =~= with_suffix(base@, sfx@));
        out
    } else {
        assert(n >= 4 ==> c@.subrange(n - 4, n as int) =~= c@.skip(n - 4));
        base.to_string()
    }
}

/// Frames-file candidates for a logo at a tier, best first.
pub fn frames_candidates_in(dir: &str, logo: &Logo, res: LogoRes) -> (r: Vec<String>)
    ensures
        strings_view(r@) == spec_frames_candidates(dir@, logo@, res),
{
    let base: String = match logo {
        Logo::Legacy => LEGACY_FRAMES_FILE.to_string(),
        Logo::Hidden => {
            let v: Vec<String> = Vec::new();
            assert(strings_view(v@) =~= Seq::<Seq<char>>::empty());
            return v;
        },
        Logo::Key(k) => if valid_logo_key(k.as_str()) {
            let mut name = k.clone();
            push_str(&mut name, ".txt");
            path_join(dir, name.as_str())
        } else {
            LEGACY_FRAMES_FILE.to_string()
        },
    };
    assert(frames_base(dir@, logo@) == Some(base@));
    let mut v: Vec<String> = Vec::new();
    match res {
        LogoRes::High => {
            v.push(suffixed(base.as_str(), ""));
        },
        LogoRes::Medium => {
            v.push(suffixed(base.as_str(), "-med"));
            v.push(suffixed(base.as_str(), ""));
        },
        LogoRes::Low => {
            v.push(suffixed(base.as_str(), "-low"));
            v.push(suffixed(base.as_str(), ""));
        },
    }
    assert(strings_view(v@) =~= spec_frames_candidates(dir@, logo@, res));
    v
}

/// Every tier's last candidate is the plain capture, which is `High`'s only
/// candidate; `Hidden` has none at any tier, and an unsafe key resolves as
/// `Legacy` does.
pub proof fn law_tiers_fall_back_to_the_plain_capture(dir: Seq<char>, logo: SpecLogo, res: LogoRes)
    ensures
        logo is Hidden <==> spec_frames_candidates(dir, logo, res).len() == 0,
        logo !is Hidden ==> {
            let c = spec_frames_candidates(dir, logo, res);
            &&& spec_frames_candidates(dir, logo, LogoRes::High).len() == 1
            &&& c.last() == spec_frames_candidates(dir, logo, LogoRes::High)[0]
        },
        logo matches SpecLogo::Key(k) && !spec_valid_logo_key(k) ==> spec_frames_candidates(
            dir,
            logo,
            res,
        ) == spec_frames_candidates(dir, SpecLogo::Legacy, res),
{
}

/// All lines of all frames, frame after frame.
pub open spec fn frames_lines(fs: Seq<Seq<char>>) -> Seq<Seq<char>>
    decreases fs.len(),
{
    if fs.len() == 0 {
        Seq::empty()
    } else {
        frames_lines(fs.drop_last()) + lines(fs.last())
    }
}

/// The longest length among `ls` (0 when empty).
pub open spec fn max_len(ls: Seq<Seq<char>>) -> nat
    decreases ls.len(),
{
    if ls.len() == 0 {
        0
    } else {
        let m = max_len(ls.drop_last());
        if ls.last().len() > m {
            ls.last().len()
        } else {
            m
        }
    }
}

/// The most lines any one frame has (0 when there are no frames).
pub open spec fn max_rows(fs: Seq<Seq<char>>) -> nat
    decreases fs.len(),
{
    if fs.len() == 0 {
        0
    } else {
        let m = max_rows(fs.drop_last());
        if lines(fs.last()).len() > m {
            lines(fs.last()).len()
        } else {
            m
        }
    }
}

/// Canvas (columns, rows) of the widest and tallest frame; columns count
/// characters, not bytes.
pub open spec fn spec_canvas_size(fs: Seq<Seq<char>>) -> (nat, nat) {
    (max_len(frames_lines(fs)), max_rows(fs))
}

/// The longer of `m` and the widest of the lines of `c`, and how many
/// lines `c` has.
fn widest_line(c: &Vec<char>, m: usize) -> (r: (usize, usize))
    ensures
        r.0 == (if max_len(lines(c@)) > m {
            max_len(lines(c@))
        } else {
            m as nat
        }),
        r.1 == lines(c@).len(),
{
    let rs = line_ranges(c);
    let ghost ls = lines(c@);
    let mut best = m;
    let mut wide: usize = 0;
    let mut j: usize = 0;
    while j < rs.len()
        invariant
            j <= rs.len() == ls.len(),
            ls == lines(c@),
            forall|k: int|
                0 <= k < rs@.len() ==> {
                    &&& (#[trigger] rs@[k]).0 <= rs@[k].1 <= c.len()
                    &&& c@.subrange(rs@[k].0 as int, rs@[k].1 as int) == ls[k]
                },
            wide == max_len(ls.take(j as int)),
            best == (if wide > m {
                wide
            } else {
                m
            }),
        decreases rs.len() - j,
    {
        let (lo, hi) = rs[j];
        assert(ls.take(j + 1).drop_last() =~= ls.take(j as int));
        assert(ls[j as int].len() == hi - lo);
        if hi - lo > wide {
            wide = hi - lo;
        }
        if hi - lo > best {
            best = hi - lo;
        }
        j += 1;
    }
    assert(ls.take(j as int) =~= ls);
    (best, rs.len())
}

/// The longest line of a concatenation is the longer of the two maxima.
proof fn lemma_max_len_concat(a: Seq<Seq<char>>, b: Seq<Seq<char>>)
    ensures
        max_len(a + b) == (if max_len(b) > max_len(a) {
            max_len(b)
        } else {
            max_len(a)
        }),
    decreases b.len(),
{
    if b.len() == 0 {
        assert(a + b =~= a);
    } else {
        lemma_max_len_concat(a, b.drop_last());
        assert((a + b).drop_last() =~= a + b.drop_last());
    }
}

/// Canvas (columns, rows) of the widest and tallest frame.
pub fn canvas_size(frames: &[String]) -> (r: (usize, usize))
    ensures
        r.0 == spec_canvas_size(strings_view(frames@)).0,
        r.1 == spec_canvas_size(strings_view(frames@)).1,
        r.1 == 0 <==> frames_lines(strings_view(frames@)).len() == 0,
{
    let ghost fs = strings_view(frames@);
    let mut cols: usize = 0;
    let mut rows: usize = 0;
    let mut i: usize = 0;
    while i < frames.len()
        invariant
            i <= frames.len(),
            fs == strings_view(frames@),
            cols == max_len(frames_lines(fs.take(i as int))),
            rows == max_rows(fs.take(i as int)),
            rows == 0 <==> frames_lines(fs.take(i as int)).len() == 0,
        decreases frames.len() - i,
    {
        let c = chars_of(frames[i].as_str());
        let (w, n) = widest_line(&c, cols);
        proof {
            let p = fs.take(i + 1);
            assert(p.drop_last() =~= fs.take(i as int));
            assert(p.last() == c@);
            lemma_max_len_concat(frames_lines(fs.take(i as int)), lines(c@));
        }
        cols = w;
        if n > rows {
            rows = n;
        }
        i += 1;
    }
    assert(fs.take(i as int) =~= fs);
    (cols, rows)
}

/// The column width the art is measured by: the widest line, or the
/// reference width when the frames hold no line at all.
pub open spec fn art_cols(fs: Seq<Seq<char>>) -> nat {
    if frames_lines(fs).len() == 0 {
        REFERENCE_COLS as nat
    } else {
        max_len(frames_lines(fs))
    }
}

/// Font size so the widest frame fits the column the 50-column reference
/// fills at 27px: `⌊1350 / cols⌋`, never above 27, never below 9; 27 for a
/// canvas whose lines are all empty.
pub open spec fn spec_font_px(fs: Seq<Seq<char>>) -> int {
    let cols = art_cols(fs);
    if cols == 0 {
        REFERENCE_PX as int
    } else {
        let px = (REFERENCE_COLS * REFERENCE_PX) as int / cols as int;
        if px < MIN_PX {
            MIN_PX as int
        } else if px > REFERENCE_PX {
            REFERENCE_PX as int
        } else {
            px
        }
    }
}

/// The art's font size never grows past the 27px reference and never
/// drops under 9px, and a canvas no wider than the reference keeps 27px.
pub proof fn law_font_px_bounds(fs: Seq<Seq<char>>)
    ensures
        MIN_PX <= spec_font_px(fs) <= REFERENCE_PX,
        art_cols(fs) <= REFERENCE_COLS ==> spec_font_px(fs) == REFERENCE_PX,
{
    let cols = art_cols(fs);
    if 0 < cols <= REFERENCE_COLS {
        assert(1350int / (cols as int) >= 27) by (nonlinear_arith)
            requires
                0 < cols <= 50,
        ;
    }
}

/// Per-label font size so the widest frame fits the art column.
pub fn font_px(frames: &[String]) -> (r: i32)
    ensures
        r == spec_font_px(strings_view(frames@)),
{
    let (c, rows) = canvas_size(frames);
    let cols = if rows == 0 {
        REFERENCE_COLS
    } else {
        c
    };
    if cols == 0 {
        return REFERENCE_PX;
    }
    let px = 1350usize / cols;
    if px < 9 {
        MIN_PX
    } else if px > 27 {
        REFERENCE_PX
    } else {
        px as i32
    }
}

/// Lines joined with `\n` between them (`[&str]::join("\n")`).
pub open spec fn join_nl(ls: Seq<Seq<char>>) -> Seq<char>
    decreases ls.len(),
{
    if ls.len() == 0 {
        Seq::empty()
    } else if ls.len() == 1 {
        ls[0]
    } else {
        join_nl(ls.drop_last()) + seq!['\n'] + ls.last()
    }
}

/// Where a frames file scan stands: the cadence, the finished blocks, and
/// the lines of the block being read.
pub struct FramesScan {
    pub delay: u64,
    pub blocks: Seq<Seq<char>>,
    pub cur: Seq<Seq<char>>,
}

/// `d` kept within 16..=1000 ms.
pub open spec fn clamp_delay(d: nat) -> u64 {
    if d < 16 {
        16
    } else if d > 1000 {
        1000
    } else {
        d as u64
    }
}

/// One line of a frames file: a `# delay:` header (its number, when it
/// parses as a `u64`, sets the cadence), a `---` separator (the block being
/// read is finished), or a line of art.
pub open spec fn frames_step(st: FramesScan, line: Seq<char>) -> FramesScan {
    if starts_with(line, "# delay:"@) {
        match spec_parse_uint(trim(line.skip(8)), u64::MAX as nat) {
            Some(d) => FramesScan { delay: clamp_delay(d), ..st },
            None => st,
        }
    } else if trim(line) == "---"@ {
        FramesScan { blocks: st.blocks.push(join_nl(st.cur)), cur: Seq::empty(), ..st }
    } else {
        FramesScan { cur: st.cur.push(line), ..st }
    }
}

pub open spec fn frames_scan(ls: Seq<Seq<char>>) -> FramesScan
    decreases ls.len(),
{
    if ls.len() == 0 {
        FramesScan { delay: DEFAULT_FRAME_MS, blocks: Seq::empty(), cur: Seq::empty() }
    } else {
        frames_step(frames_scan(ls.drop_last()), ls.last())
    }
}

/// The blocks that hold more than whitespace, in order.
pub open spec fn nonblank(fs: Seq<Seq<char>>) -> Seq<Seq<char>>
    decreases fs.len(),
{
    if fs.len() == 0 {
        Seq::empty()
    } else if trim(fs.last()).len() > 0 {
        nonblank(fs.drop_last()).push(fs.last())
    } else {
        nonblank(fs.drop_last())
    }
}

/// The frames of a frames file and its cadence: every block, the one left
/// open at the end included, minus the blank ones.
pub open spec fn spec_parse_frames(text: Seq<char>) -> (Seq<Seq<char>>, u64) {
    let st = frames_scan(lines(text));
    let all = if st.cur.len() > 0 {
        st.blocks.push(join_nl(st.cur))
    } else {
        st.blocks
    };
    (nonblank(all), st.delay)
}

proof fn lemma_scan_delay_in_range(ls: Seq<Seq<char>>)
    ensures
        16 <= frames_scan(ls).delay <= 1000,
    decreases ls.len(),
{
    if ls.len() > 0 {
        lemma_scan_delay_in_range(ls.drop_last());
    }
}

proof fn lemma_nonblank_all(fs: Seq<Seq<char>>)
    ensures
        forall|i: int| 0 <= i < nonblank(fs).len() ==> trim(#[trigger] nonblank(fs)[i]).len() > 0,
    decreases fs.len(),
{
    if fs.len() > 0 {
        let p = fs.drop_last();
        lemma_nonblank_all(p);
        if trim(fs.last()).len() > 0 {
            assert forall|i: int| 0 <= i < nonblank(fs).len() implies trim(
                #[trigger] nonblank(fs)[i],
            ).len() > 0 by {
                if i < nonblank(p).len() {
                    assert(nonblank(fs)[i] == nonblank(p)[i]);
                }
            }
        }
    }
}

/// A frames file's frames are never blank, and its cadence stays within
/// 16..=1000 ms whatever the header says.
pub proof fn law_frames_are_art_and_cadence_is_sane(text: Seq<char>)
    ensures
        forall|i: int|
            0 <= i < spec_parse_frames(text).0.len() ==> trim(
                #[trigger] spec_parse_frames(text).0[i],
            ).len() > 0,
        16 <= spec_parse_frames(text).1 <= 1000,
{
    let st = frames_scan(lines(text));
    let all = if st.cur.len() > 0 {
        st.blocks.push(join_nl(st.cur))
    } else {
        st.blocks
    };
    lemma_nonblank_all(all);
    lemma_scan_delay_in_range(lines(text));
}

/// Appends `line` to the block text `out` holding `cur` joined.
fn push_block_line(
    out: &mut String,
    cur: Ghost<Seq<Seq<char>>>,
    first: bool,
    line: &Vec<char>,
    lo: usize,
    hi: usize,
)
    requires
        old(out)@ == join_nl(cur@),
        first == (cur@.len() == 0),
        lo <= hi <= line.len(),
    ensures
        final(out)@ == join_nl(cur@.push(line@.subrange(lo as int, hi as int))),
{
    let ghost l = line@.subrange(lo as int, hi as int);
    if !first {
        push_char(out, '\n');
    }
    let mut i = lo;
    let ghost start = out@;
    while i < hi
        invariant
            lo <= i <= hi <= line.len(),
            out@ == start + line@.subrange(lo as int, i as int),
        decreases hi - i,
    {
        push_char(out, line[i]);
        assert(line@.subrange(lo as int, i + 1) =~= line@.subrange(lo as int, i as int).push(
            line@[i as int],
        ));
        i += 1;
    }
    assert(cur@.push(l).drop_last() =~= cur@);
    assert(out@ =~= join_nl(cur@.push(l)));
}

/// Parses a frames file: the frames (blank blocks dropped) and the frame
/// cadence in ms.
pub fn parse_frames(text: &str) -> (r: (Vec<String>, u64))
    ensures
        strings_view(r.0@) == spec_parse_frames(text@).0,
        r.1 == spec_parse_frames(text@).1,
{
    let c = chars_of(text);
    let rs = line_ranges(&c);
    let ghost ls = lines(c@);
    let mut delay: u64 = DEFAULT_FRAME_MS;
    let mut blocks: Vec<String> = Vec::new();
    let mut cur = String::new();
    let mut cur_n: usize = 0;
    let ghost mut cur_lines: Seq<Seq<char>> = Seq::empty();
    proof {
        reveal_strlit("# delay:");
        reveal_strlit("---");
    }
    let mut k: usize = 0;
    assert(ls.take(0) =~= Seq::<Seq<char>>::empty());
    assert(strings_view(blocks@) =~= Seq::<Seq<char>>::empty());
    while k < rs.len()
        invariant
            k <= rs.len() == ls.len(),
            ls == lines(c@),
            c@ == text@,
            forall|j: int|
                0 <= j < rs@.len() ==> {
                    &&& (#[trigger] rs@[j]).0 <= rs@[j].1 <= c.len()
                    &&& c@.subrange(rs@[j].0 as int, rs@[j].1 as int) == ls[j]
                },
            frames_scan(ls.take(k as int)) == (FramesScan {
                delay: delay,
                blocks: strings_view(blocks@),
                cur: cur_lines,
            }),
            cur@ == join_nl(cur_lines),
            cur_n == cur_lines.len(),
            cur_n <= k,
        decreases rs.len() - k,
    {
        proof {
            reveal_strlit("# delay:");
            reveal_strlit("---");
        }
        let (lo, hi) = rs[k];
        let ghost line = ls[k as int];
        let ghost before = frames_scan(ls.take(k as int));
        assert(ls.take(k + 1).drop_last() =~= ls.take(k as int));
        assert(ls.take(k + 1).last() == line);
        if range_starts_with(&c, lo, hi, "# delay:") {
            let (a, b) = trim_range(&c, lo + 8, hi);
            assert(c@.subrange(lo + 8, hi as int) =~= line.skip(8));
            match parse_uint_range(&c, a, b, 18446744073709551615u64) {
                Some(d) => {
                    delay = if d < 16 {
                        16
                    } else if d > 1000 {
                        1000
                    } else {
                        d
                    };
                },
                None => {},
            }
        } else {
            let (a, b) = trim_range(&c, lo, hi);
            if range_eq(&c, a, b, "---") {
                blocks.push(cur);
                cur = String::new();
                cur_n = 0;
                proof {
                    cur_lines = Seq::empty();
                    assert(strings_view(blocks@) =~= before.blocks.push(join_nl(before.cur)));
                }
            } else {
                push_block_line(&mut cur, Ghost(cur_lines), cur_n == 0, &c, lo, hi);
                cur_n += 1;
                proof {
                    cur_lines = cur_lines.push(line);
                }
            }
        }
        k += 1;
    }
    assert(ls.take(k as int) =~= ls);
    let ghost st = frames_scan(ls);
    if cur_n > 0 {
        blocks.push(cur);
        assert(strings_view(blocks@) =~= st.blocks.push(join_nl(st.cur)));
    }
    let ghost all = strings_view(blocks@);
    let mut frames: Vec<String> = Vec::new();
    let mut i: usize = 0;
    while i < blocks.len()
        invariant
            i <= blocks.len(),
            all == strings_view(blocks@),
            strings_view(frames@) == nonblank(all.take(i as int)),
        decreases blocks.len() - i,
    {
        let b = chars_of(blocks[i].as_str());
        let (x, y) = trim_range(&b, 0, b.len());
        assert(b@.subrange(0, b.len() as int) =~= b@);
        assert(all.take(i + 1).drop_last() =~= all.take(i as int));
        if x < y {
            frames.push(blocks[i].clone());
            assert(strings_view(frames@) =~= nonblank(all.take(i as int)).push(all[i as int]));
        }
        i += 1;
    }
    assert(all.take(i as int) =~= all);
    (frames, delay)
}

/// The screen-safe area the logo may fill: the status line and dock band
/// (122px) and the side column (528px) kept clear, never under 240px.
pub open spec fn spec_art_safe_area(w: int, h: int) -> (int, int) {
    (if w - 528 > 240 {
        w - 528
    } else {
        240
    }, if h - 122 > 240 {
        h - 122
    } else {
        240
    })
}

/// The screen-safe area of a `(width, height)` screen, before the chosen
/// logo size scales it.
pub fn art_safe_area(screen: (i32, i32)) -> (r: (i32, i32))
    requires
        screen.0 >= i32::MIN + 528,
        screen.1 >= i32::MIN + 122,
    ensures
        r.0 == spec_art_safe_area(screen.0 as int, screen.1 as int).0,
        r.1 == spec_art_safe_area(screen.0 as int, screen.1 as int).1,
{
    let h = screen.1 - 16 - 20 - 42 - 44;
    let w = screen.0 - 68 - 420 - 40;
    (if w > 240 {
        w
    } else {
        240
    }, if h > 240 {
        h
    } else {
        240
    })
}

} // verus!
