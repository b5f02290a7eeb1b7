//! The `--config` TUI: the model's state machine ([`state`]) and the
//! loop's own decisions — which files of the logos directory are logos,
//! and which tier the preview pane shows.

pub mod state;

use crate::config::{
    spec_valid_logo_key, valid_key_range, Crt, HexColor, Logo, LogoRes, LogoSize, SpecLogo,
};
use crate::sessions::{last_index_of, lemma_lex_total, lemma_lex_transitive, lex_less, lex_lt};
use crate::text::{
    chars_of, decimal, ends_with, lines, line_ranges, push_char, push_decimal, push_str, range_eq,
    string_of,
};
use crate::tui::state::{spec_set_preview, Model, SpecModel, logo_position, logos_view};
use crate::ui::ascii::{canvas_size, spec_canvas_size};
use crate::ui::concat;
use vstd::prelude::*;

verus! {

/// `Path::file_stem` of a file name: the part before the final dot; the
/// whole name when it has no dot, when its only dot leads it, or for `..`.
pub open spec fn spec_file_stem(name: Seq<char>) -> Seq<char> {
    let i = last_index_of(name, '.');
    if name == ".."@ || i <= 0 {
        name
    } else {
        name.take(i)
    }
}

/// A stem that names a logo: not a baked tier file (`-med`, `-low`) and a
/// safe logo key.
pub open spec fn keeps_logo(stem: Seq<char>) -> bool {
    !ends_with(stem, "-med"@) && !ends_with(stem, "-low"@) && spec_valid_logo_key(stem)
}

/// A `*.txt` file name: `Path::extension` is `txt` (a final dot that does
/// not lead the name, followed by `txt`).
pub open spec fn is_txt_file(name: Seq<char>) -> bool {
    let i = last_index_of(name, '.');
    name != ".."@ && i > 0 && name.skip(i + 1) == "txt"@
}

/// `k` is the logo key of one of the directory's `*.txt` file names.
pub open spec fn scanned_key(names: Seq<Seq<char>>, k: Seq<char>) -> bool {
    exists|j: int|
        0 <= j < names.len() && is_txt_file(names[j]) && spec_file_stem(names[j]) == k
            && keeps_logo(k)
}

/// Strictly increasing in `String` order (sorted, no duplicates).
pub open spec fn strictly_sorted(ks: Seq<Seq<char>>) -> bool {
    forall|i: int, j: int| 0 <= i < j < ks.len() ==> lex_lt(#[trigger] ks[i], #[trigger] ks[j])
}

pub open spec fn strings_view(v: Seq<String>) -> Seq<Seq<char>> {
    v.map_values(|s: String| s@)
}

/// The stem of `s` as a range `0..end`.
fn stem_end(s: &Vec<char>) -> (end: usize)
    ensures
        end <= s.len(),
        s@.take(end as int) == spec_file_stem(s@),
        end < s.len() <==> (s@ != ".."@ && last_index_of(s@, '.') > 0),
        end < s.len() ==> last_index_of(s@, '.') == end,
{
    let n = s.len();
    let mut i = n;
    assert(s@.take(i as int) =~= s@);
    while i > 0 && s[i - 1] != '.'
        invariant
            i <= n == s.len(),
            last_index_of(s@, '.') == last_index_of(s@.take(i as int), '.'),
        decreases i,
    {
        assert(s@.take(i as int).drop_last() =~= s@.take(i - 1));
        i -= 1;
    }
    proof {
        if i > 0 {
            assert(s@.take(i as int).last() == '.');
            assert(last_index_of(s@, '.') == i - 1);
        } else {
            assert(s@.take(0) =~= Seq::<char>::empty());
        }
        reveal_strlit("..");
    }
    if n == 2 && s[0] == '.' && s[1] == '.' {
        assert(s@ =~= ".."@);
        return n;
    }
    if i <= 1 {
        assert(s@.take(n as int) =~= s@);
        n
    } else {
        proof {
            if s@ == ".."@ {
                assert(s@.len() == 2 && s@[0] == '.' && s@[1] == '.');
            }
        }
        i - 1
    }
}

/// Inserts `k` into the strictly sorted `keys` unless it is there.
fn insert_sorted_unique(keys: &mut Vec<String>, k: String)
    requires
        strictly_sorted(strings_view(old(keys)@)),
    ensures
        strictly_sorted(strings_view(final(keys)@)),
        forall|x: Seq<char>|
            strings_view(final(keys)@).contains(x) <==> (strings_view(old(keys)@).contains(x) || x
                == k@),
{
    let ghost old_v = strings_view(keys@);
    let kc = chars_of(k.as_str());
    let mut p: usize = 0;
    while p < keys.len() && lex_less(&chars_of(keys[p].as_str()), &kc)
        invariant
            p <= keys.len(),
            kc@ == k@,
            old_v == strings_view(keys@),
            forall|i: int| 0 <= i < p ==> lex_lt(#[trigger] old_v[i], k@),
        decreases keys.len() - p,
    {
        p += 1;
    }
    if p < keys.len() && chars_eq_string(&kc, &keys[p]) {
        assert(old_v[p as int] == k@);
        assert forall|x: Seq<char>| old_v.contains(x) || x == k@ implies old_v.contains(x) by {
            if x == k@ {
                assert(old_v[p as int] == x);
            }
        }
        return;
    }
    proof {
        if p < keys.len() {
            lemma_lex_total(old_v[p as int], k@);
        }
    }
    keys.insert(p, k);
    proof {
        let nv = strings_view(keys@);
        assert(nv =~= old_v.insert(p as int, k@));
        assert forall|i: int, j: int| 0 <= i < j < nv.len() implies lex_lt(
            #[trigger] nv[i],
            #[trigger] nv[j],
        ) by {
            if j < p {
                assert(nv[i] == old_v[i] && nv[j] == old_v[j]);
            } else if j == p {
                assert(nv[i] == old_v[i]);
            } else if i < p {
                assert(nv[i] == old_v[i] && nv[j] == old_v[j - 1]);
                assert(lex_lt(old_v[i], k@));
                assert(lex_lt(k@, old_v[p as int]));
                if j - 1 > p {
                    lemma_lex_transitive(k@, old_v[p as int], old_v[j - 1]);
                }
                lemma_lex_transitive(old_v[i], k@, old_v[j - 1]);
            } else if i == p {
                assert(nv[j] == old_v[j - 1]);
                if j - 1 > p {
                    lemma_lex_transitive(k@, old_v[p as int], old_v[j - 1]);
                }
            } else {
                assert(nv[i] == old_v[i - 1] && nv[j] == old_v[j - 1]);
            }
        }
        assert forall|x: Seq<char>| nv.contains(x) <==> (old_v.contains(x) || x == k@) by {
            if nv.contains(x) {
                let i = choose|i: int| 0 <= i < nv.len() && nv[i] == x;
                if i < p {
                    assert(old_v[i] == x);
                } else if i > p {
                    assert(old_v[i - 1] == x);
                }
            }
            if old_v.contains(x) {
                let i = choose|i: int| 0 <= i < old_v.len() && old_v[i] == x;
                if i < p {
                    assert(nv[i] == x);
                } else {
                    assert(nv[i + 1] == x);
                }
            }
            if x == k@ {
                assert(nv[p as int] == x);
            }
        }
    }
}

fn chars_eq_string(a: &Vec<char>, b: &String) -> (r: bool)
    ensures
        r == (a@ == b@),
{
    crate::text::chars_eq(a, b.as_str())
}

/// The logo list from the logos directory's file names: `Legacy`,
/// `Hidden`, then one `Key` per `*.txt` file's stem, sorted, each once. Baked tier
/// files (`<key>-med`, `<key>-low`) attach to their key and are no logos.
pub fn scan_logos(names: &Vec<String>) -> (r: Vec<Logo>)
    ensures
        r@.len() >= 2,
        r@[0]@ == SpecLogo::Legacy,
        r@[1]@ == SpecLogo::Hidden,
        forall|i: int| 2 <= i < r@.len() ==> (#[trigger] r@[i]) is Key,
        strictly_sorted(Seq::new((r@.len() - 2) as nat, |i: int| r@[i + 2]->Key_0@)),
        forall|k: Seq<char>|
            (exists|i: int| 2 <= i < r@.len() && (#[trigger] r@[i])@ == SpecLogo::Key(k))
                <==> scanned_key(strings_view(names@), k),
{
    let ghost nv = strings_view(names@);
    let mut keys: Vec<String> = Vec::new();
    let mut j: usize = 0;
    while j < names.len()
        invariant
            j <= names.len(),
            nv == strings_view(names@),
            strictly_sorted(strings_view(keys@)),
            forall|x: Seq<char>|
                strings_view(keys@).contains(x) <==> exists|q: int|
                    0 <= q < j && is_txt_file(nv[q]) && spec_file_stem(nv[q]) == x && keeps_logo(x),
        decreases names.len() - j,
    {
        let c = chars_of(names[j].as_str());
        let end = stem_end(&c);
        let ghost stem = c@.take(end as int);
        assert(c@.subrange(0, end as int) =~= stem);
        let tier = end >= 4 && (range_eq(&c, end - 4, end, "-med") || range_eq(
            &c,
            end - 4,
            end,
            "-low",
        ));
        proof {
            reveal_strlit("-med");
            reveal_strlit("-low");
            if end >= 4 {
                assert(c@.subrange(end - 4, end as int) =~= stem.skip(stem.len() - 4));
            }
        }
        let n = c.len();
        let txt = end < n && n - end == 4 && range_eq(&c, end + 1, n, "txt");
        proof {
            reveal_strlit("txt");
            assert(nv[j as int] == c@);
            if end < n {
                assert(c@.subrange(end + 1, n as int) =~= c@.skip(end + 1));
                assert(last_index_of(c@, '.') == end);
                assert(c@.skip(end + 1).len() == n - end - 1);
                assert("txt"@.len() == 3);
            }
            assert(txt == is_txt_file(c@));
        }
        let ghost before = strings_view(keys@);
        if txt && !tier && valid_key_range(&c, 0, end) {
            let k = string_of(&c, 0, end);
            insert_sorted_unique(&mut keys, k);
        }
        proof {
            assert(keeps_logo(stem) == (!tier && spec_valid_logo_key(stem)));
            assert forall|x: Seq<char>| strings_view(keys@).contains(x) <==> exists|q: int|
                0 <= q < j + 1 && is_txt_file(nv[q]) && spec_file_stem(nv[q]) == x && keeps_logo(
                    x,
                ) by {
                if exists|q: int|
                    0 <= q < j + 1 && is_txt_file(nv[q]) && spec_file_stem(nv[q]) == x
                        && keeps_logo(x) {
                    let q = choose|q: int|
                        0 <= q < j + 1 && is_txt_file(nv[q]) && spec_file_stem(nv[q]) == x
                            && keeps_logo(x);
                    if q < j {
                        assert(before.contains(x));
                    }
                }
                if before.contains(x) {
                    let q = choose|q: int|
                        0 <= q < j && is_txt_file(nv[q]) && spec_file_stem(nv[q]) == x
                            && keeps_logo(x);
                    assert(0 <= q < j + 1);
                }
                if x == stem && keeps_logo(stem) && txt {
                    assert(spec_file_stem(nv[j as int]) == x);
                }
            }
        }
        j += 1;
    }
    let mut out: Vec<Logo> = Vec::new();
    out.push(Logo::Legacy);
    out.push(Logo::Hidden);
    let ghost kv = strings_view(keys@);
    let mut i: usize = 0;
    while i < keys.len()
        invariant
            i <= keys.len(),
            kv == strings_view(keys@),
            out@.len() == i + 2,
            out@[0]@ == SpecLogo::Legacy,
            out@[1]@ == SpecLogo::Hidden,
            forall|m: int| 0 <= m < i ==> (#[trigger] out@[m + 2])@ == SpecLogo::Key(kv[m]),
        decreases keys.len() - i,
    {
        out.push(Logo::Key(keys[i].clone()));
        i += 1;
    }
    proof {
        assert forall|m: int| 2 <= m < out@.len() implies (#[trigger] out@[m]) is Key by {
            assert(out@[(m - 2) + 2]@ == SpecLogo::Key(kv[m - 2]));
        }
        let ks = Seq::new((out@.len() - 2) as nat, |m: int| out@[m + 2]->Key_0@);
        assert(ks =~= kv);
        assert forall|k: Seq<char>|
            (exists|m: int| 2 <= m < out@.len() && (#[trigger] out@[m])@ == SpecLogo::Key(k))
                <==> scanned_key(nv, k) by {
            if exists|m: int| 2 <= m < out@.len() && (#[trigger] out@[m])@ == SpecLogo::Key(k) {
                let m = choose|m: int| 2 <= m < out@.len() && (#[trigger] out@[m])@ == SpecLogo::Key(k);
                assert(out@[(m - 2) + 2]@ == SpecLogo::Key(kv[m - 2]));
                assert(kv.contains(k));
            }
            if scanned_key(nv, k) {
                assert(kv.contains(k));
                let m = choose|m: int| 0 <= m < kv.len() && kv[m] == k;
                assert(out@[m + 2]@ == SpecLogo::Key(kv[m]));
            }
        }
    }
    out
}

/// The preview's tier order: the configured tier first, then the others
/// from the widest down.
pub open spec fn spec_tier_order(cfg: LogoRes) -> Seq<LogoRes> {
    match cfg {
        LogoRes::High => seq![LogoRes::High, LogoRes::Medium, LogoRes::Low],
        LogoRes::Medium => seq![LogoRes::Medium, LogoRes::High, LogoRes::Low],
        LogoRes::Low => seq![LogoRes::Low, LogoRes::High, LogoRes::Medium],
    }
}

pub fn tier_order(cfg: LogoRes) -> (r: Vec<LogoRes>)
    ensures
        r@ == spec_tier_order(cfg),
{
    let mut v: Vec<LogoRes> = Vec::new();
    v.push(cfg);
    if cfg != LogoRes::High {
        v.push(LogoRes::High);
    }
    if cfg != LogoRes::Medium {
        v.push(LogoRes::Medium);
    }
    if cfg != LogoRes::Low {
        v.push(LogoRes::Low);
    }
    assert(v@ =~= spec_tier_order(cfg));
    v
}

/// One readable frames file, in the order the candidates were tried.
pub struct PreviewSource {
    pub tier: LogoRes,
    pub frames: Vec<String>,
    pub ms: u64,
}

pub struct SpecSource {
    pub tier: LogoRes,
    pub frames: Seq<Seq<char>>,
    pub ms: u64,
}

impl View for PreviewSource {
    type V = SpecSource;

    open spec fn view(&self) -> SpecSource {
        SpecSource { tier: self.tier, frames: self.frames@.map_values(|f: String| f@), ms: self.ms }
    }
}

/// The first source whose widest line fits `max_cols`, or -1.
pub open spec fn first_fit(srcs: Seq<SpecSource>, max_cols: nat) -> int
    decreases srcs.len(),
{
    if srcs.len() == 0 {
        -1
    } else if spec_canvas_size(srcs[0].frames).0 <= max_cols {
        0
    } else {
        let r = first_fit(srcs.drop_first(), max_cols);
        if r < 0 {
            -1
        } else {
            r + 1
        }
    }
}

/// What the preview shows: the first source that fits (with a note when
/// it is not the configured tier); else the last one tried, clipped; else
/// nothing at the default cadence.
pub open spec fn spec_preview_pick(cfg: LogoRes, srcs: Seq<SpecSource>, max_cols: nat) -> (
    Seq<Seq<char>>,
    u64,
    LogoRes,
    Option<Seq<char>>,
) {
    let k = first_fit(srcs, max_cols);
    if k >= 0 {
        let s = srcs[k];
        (
            s.frames,
            s.ms,
            s.tier,
            if s.tier == cfg {
                None
            } else {
                Some(
                    "pane too narrow for "@ + cfg.spec_name() + " — showing "@
                        + s.tier.spec_name(),
                )
            },
        )
    } else if srcs.len() > 0 {
        let s = srcs.last();
        (s.frames, s.ms, s.tier, Some("pane too narrow — "@ + cfg.spec_name() + " clipped"@))
    } else {
        (Seq::empty(), 100, cfg, None)
    }
}

proof fn lemma_first_fit_bounds(srcs: Seq<SpecSource>, max_cols: nat)
    ensures
        -1 <= first_fit(srcs, max_cols) < srcs.len(),
        first_fit(srcs, max_cols) >= 0 ==> spec_canvas_size(srcs[first_fit(srcs, max_cols)].frames).0
            <= max_cols,
    decreases srcs.len(),
{
    if srcs.len() > 0 {
        lemma_first_fit_bounds(srcs.drop_first(), max_cols);
    }
}

/// Loads the preview from the frames files read for it (see
/// [`spec_preview_pick`]).
pub fn reload_preview(model: &mut Model, srcs: Vec<PreviewSource>, max_cols: usize)
    ensures
        ({
            let (frames, ms, tier, note) = spec_preview_pick(
                old(model)@.cfg.logo_res,
                srcs@.map_values(|s: PreviewSource| s@),
                max_cols as nat,
            );
            final(model)@ == (SpecModel {
                preview_tier: tier,
                preview_note: note,
                ..spec_set_preview(old(model)@, frames, ms)
            })
        }),
{
    let cfg_tier = model.cfg.logo_res;
    let ghost sv = srcs@.map_values(|s: PreviewSource| s@);
    let ghost pick = spec_preview_pick(cfg_tier, sv, max_cols as nat);
    let mut k: usize = 0;
    let mut found = false;
    assert(sv.skip(0) =~= sv);
    while k < srcs.len() && !found
        invariant
            k <= srcs.len(),
            sv == srcs@.map_values(|s: PreviewSource| s@),
            first_fit(sv, max_cols as nat) == (if first_fit(sv.skip(k as int), max_cols as nat) < 0 {
                -1
            } else {
                k + first_fit(sv.skip(k as int), max_cols as nat)
            }),
            found ==> k < srcs.len() && first_fit(sv, max_cols as nat) == k,
        decreases srcs.len() - k + (if found {
            0int
        } else {
            1int
        }),
    {
        assert(sv.skip(k as int)[0] == srcs@[k as int]@);
        assert(sv.skip(k as int).drop_first() =~= sv.skip(k + 1));
        let (w, _) = canvas_size(srcs[k].frames.as_slice());
        if w <= max_cols {
            found = true;
        } else {
            k += 1;
        }
    }
    proof {
        if !found {
            assert(sv.skip(k as int) =~= Seq::<SpecSource>::empty());
        }
        lemma_first_fit_bounds(sv, max_cols as nat);
    }
    let mut srcs = srcs;
    if found {
        let s = srcs.swap_remove(k);
        let note = if s.tier == cfg_tier {
            None
        } else {
            let mut n = concat("pane too narrow for ", cfg_tier.name());
            push_str(&mut n, " — showing ");
            push_str(&mut n, s.tier.name());
            Some(n)
        };
        model.set_preview(s.frames, s.ms);
        model.preview_tier = s.tier;
        model.preview_note = note;
    } else if srcs.len() > 0 {
        let s = srcs.pop().unwrap();
        let mut n = concat("pane too narrow — ", cfg_tier.name());
        push_str(&mut n, " clipped");
        model.set_preview(s.frames, s.ms);
        model.preview_tier = s.tier;
        model.preview_note = Some(n);
    } else {
        model.set_preview(Vec::new(), 100);
        model.preview_tier = cfg_tier;
        model.preview_note = None;
    }
}

/// The model after a rescan of the logos directory: the new list, the
/// configured logo re-selected when the list has it, the preview stale.
pub open spec fn spec_refresh_logos(m: SpecModel, logos: Seq<SpecLogo>) -> SpecModel {
    let p = logo_position(logos, m.cfg.logo);
    SpecModel {
        logos: logos,
        logo_pos: if p >= 0 {
            p
        } else {
            m.logo_pos
        },
        preview_stale: true,
        ..m
    }
}

pub fn refresh_logos(model: &mut Model, logos: Vec<Logo>)
    ensures
        final(model)@ == spec_refresh_logos(old(model)@, logos_view(logos@)),
{
    let ghost before = model@;
    let pos = crate::tui::state::find_logo(&logos, &model.cfg.logo);
    model.logos = logos;
    match pos {
        Some(i) => {
            model.logo_pos = i;
        },
        None => {},
    }
    model.preview_stale = true;
    assert(model@ =~= spec_refresh_logos(before, logos_view(model.logos@)));
}

/// What a logo generation reported.
pub enum GenMsg {
    /// finished for this key, with the generator's last stderr line
    Done(String, String),
    /// failed for this key, with the reason
    Failed(String, String),
    /// the generator is not installed
    Missing,
}

/// The status line for a generation report.
pub open spec fn spec_gen_status(key: Seq<char>, note: Seq<char>, done: bool) -> Seq<char> {
    if done {
        "generated "@ + key + " — "@ + note
    } else {
        "generation failed for "@ + key + ": "@ + note
    }
}

/// A generation report: the status line says what happened; a finished
/// generation also rescans the logos (`logos` is the rescan).
pub fn generation_report(model: &mut Model, msg: GenMsg, logos: Vec<Logo>)
    ensures
        match msg {
            GenMsg::Done(k, n) => final(model)@ == spec_refresh_logos(
                SpecModel { status: spec_gen_status(k@, n@, true), ..old(model)@ },
                logos_view(logos@),
            ),
            GenMsg::Failed(k, n) => final(model)@ == (SpecModel {
                status: spec_gen_status(k@, n@, false),
                ..old(model)@
            }),
            GenMsg::Missing => final(model)@ == (SpecModel {
                status: "losker-genart not found — see README (install tools/gen-ascii-art.py)"@,
                ..old(model)@
            }),
        },
{
    match msg {
        GenMsg::Done(k, n) => {
            let mut st = concat("generated ", k.as_str());
            push_str(&mut st, " — ");
            push_str(&mut st, n.as_str());
            model.status = st;
            refresh_logos(model, logos);
        },
        GenMsg::Failed(k, n) => {
            let mut st = concat("generation failed for ", k.as_str());
            push_str(&mut st, ": ");
            push_str(&mut st, n.as_str());
            model.status = st;
        },
        GenMsg::Missing => {
            model.status =
                "losker-genart not found — see README (install tools/gen-ascii-art.py)".to_string();
        },
    }
}

/// How writing the config file went.
pub enum SaveResult {
    Saved,
    PermissionDenied,
    Failed(String),
}

/// The model after a save attempt: a save clears the dirty flag; every
/// outcome sets the status line (naming the config path).
pub fn save_report(model: &mut Model, r: SaveResult)
    ensures
        match r {
            SaveResult::Saved => final(model)@ == (SpecModel {
                dirty: false,
                status: "saved "@ + old(model)@.config_path
                    + " (applies at next greeter/lock start)"@,
                ..old(model)@
            }),
            SaveResult::PermissionDenied => final(model)@ == (SpecModel {
                status: "cannot write "@ + old(model)@.config_path
                    + " — try: sudo losker --config"@,
                ..old(model)@
            }),
            SaveResult::Failed(e) => final(model)@ == (SpecModel {
                status: "save failed: "@ + e@,
                ..old(model)@
            }),
        },
{
    match r {
        SaveResult::Saved => {
            model.dirty = false;
            let mut st = concat("saved ", model.config_path.as_str());
            push_str(&mut st, " (applies at next greeter/lock start)");
            model.status = st;
        },
        SaveResult::PermissionDenied => {
            let mut st = concat("cannot write ", model.config_path.as_str());
            push_str(&mut st, " — try: sudo losker --config");
            model.status = st;
        },
        SaveResult::Failed(e) => {
            model.status = concat("save failed: ", e.as_str());
        },
    }
}

/// The generator's command line after the program name: logo key, capture
/// size of the tier, output path.
pub fn genart_args(key: &str, res: LogoRes, out: &str) -> (r: Vec<String>)
    ensures
        r@.map_values(|a: String| a@) == seq![
            "--logo"@,
            key@,
            "--size"@,
            match res {
                LogoRes::High => "2"@,
                LogoRes::Medium => "1"@,
                LogoRes::Low => "0.5"@,
            },
            "--out"@,
            out@,
        ],
{
    let mut v: Vec<String> = Vec::new();
    v.push("--logo".to_string());
    v.push(key.to_string());
    v.push("--size".to_string());
    v.push(res.capture_size().to_string());
    v.push("--out".to_string());
    v.push(out.to_string());
    assert(v@.map_values(|a: String| a@) =~= seq![
        "--logo"@,
        key@,
        "--size"@,
        match res {
            LogoRes::High => "2"@,
            LogoRes::Medium => "1"@,
            LogoRes::Low => "0.5"@,
        },
        "--out"@,
        out@,
    ]);
    v
}

/// The last line of the generator's output, or `default` when it printed
/// nothing.
pub fn last_line_or(text: &str, default: &str) -> (r: String)
    ensures
        r@ == (if lines(text@).len() > 0 {
            lines(text@).last()
        } else {
            default@
        }),
{
    let c = chars_of(text);
    let rs = line_ranges(&c);
    if rs.len() == 0 {
        default.to_string()
    } else {
        let (lo, hi) = rs[rs.len() - 1];
        string_of(&c, lo, hi)
    }
}

/// A terminal key, as the loop reads it.
#[derive(Debug, Clone, Copy, PartialEq, Eq, Structural)]
pub enum TermKey {
    Up,
    Down,
    Left,
    Right,
    Enter,
    Esc,
    Backspace,
    Char(char),
    Other,
}

/// The model's name for a terminal key (`""` for keys it ignores).
pub open spec fn spec_key_name(k: TermKey) -> Seq<char> {
    match k {
        TermKey::Up => "up"@,
        TermKey::Down => "down"@,
        TermKey::Left => "left"@,
        TermKey::Right => "right"@,
        TermKey::Enter => "enter"@,
        TermKey::Esc => "esc"@,
        TermKey::Backspace => "backspace"@,
        TermKey::Char(c) => seq![c],
        TermKey::Other => Seq::empty(),
    }
}

pub fn key_name(k: TermKey) -> (r: String)
    ensures
        r@ == spec_key_name(k),
{
    match k {
        TermKey::Up => "up".to_string(),
        TermKey::Down => "down".to_string(),
        TermKey::Left => "left".to_string(),
        TermKey::Right => "right".to_string(),
        TermKey::Enter => "enter".to_string(),
        TermKey::Esc => "esc".to_string(),
        TermKey::Backspace => "backspace".to_string(),
        TermKey::Char(c) => {
            let mut s = String::new();
            crate::text::push_char(&mut s, c);
            assert(s@ =~= seq![c]);
            s
        },
        TermKey::Other => String::new(),
    }
}

/// How the TUI names a logo.
pub open spec fn spec_logo_name(l: SpecLogo) -> Seq<char> {
    match l {
        SpecLogo::Legacy => "arch (legacy)"@,
        SpecLogo::Hidden => "none"@,
        SpecLogo::Key(k) => k,
    }
}

pub fn logo_name(l: &Logo) -> (r: String)
    ensures
        r@ == spec_logo_name(l@),
{
    match l {
        Logo::Legacy => "arch (legacy)".to_string(),
        Logo::Hidden => "none".to_string(),
        Logo::Key(k) => k.clone(),
    }
}

/// A signed number in decimal.
pub open spec fn signed_decimal(n: int) -> Seq<char> {
    if n < 0 {
        seq!['-'] + decimal((-n) as nat)
    } else {
        decimal(n as nat)
    }
}

fn push_signed(out: &mut String, n: i32)
    ensures
        final(out)@ == old(out)@ + signed_decimal(n as int),
{
    if n < 0 {
        push_char(out, '-');
        let m: i64 = -(n as i64);
        push_decimal(out, m as u64);
    } else {
        push_decimal(out, n as u64);
    }
    assert(final(out)@ =~= old(out)@ + signed_decimal(n as int));
}

/// The logo-size row: the pixels the views will draw when a display
/// reported its size, else the share of the screen box.
pub open spec fn spec_size_text(size: LogoSize, px: Option<(i32, i32)>) -> Seq<char> {
    match px {
        Some((w, h)) => size.spec_name() + " · ~"@ + signed_decimal(w as int) + seq!['×']
            + signed_decimal(h as int) + " px"@,
        None => size.spec_name() + " · ~"@ + decimal(
            match size {
                LogoSize::Large => 100nat,
                LogoSize::Medium => 65nat,
                LogoSize::Small => 40nat,
            },
        ) + "% of the screen box"@,
    }
}

pub fn size_text(size: LogoSize, px: Option<(i32, i32)>) -> (r: String)
    ensures
        r@ == spec_size_text(size, px),
{
    let mut out = String::new();
    push_str(&mut out, size.name());
    push_str(&mut out, " · ~");
    match px {
        Some((w, h)) => {
            push_signed(&mut out, w);
            push_char(&mut out, '×');
            push_signed(&mut out, h);
            push_str(&mut out, " px");
        },
        None => {
            push_decimal(&mut out, size.percent() as u64);
            push_str(&mut out, "% of the screen box");
        },
    }
    assert(out@ =~= spec_size_text(size, px));
    out
}

/// The accent row's text.
pub fn accent_text(accent: Option<HexColor>) -> (r: String)
    ensures
        r@ == match accent {
            None => " stock phosphor"@,
            Some(c) => seq![' '] + c.spec_to_hex(),
        },
{
    match accent {
        None => " stock phosphor".to_string(),
        Some(c) => {
            let mut out = String::new();
            push_char(&mut out, ' ');
            push_str(&mut out, c.to_hex().as_str());
            out
        },
    }
}

/// The CRT row's text.
pub fn crt_text(c: Crt) -> (r: &'static str)
    ensures
        r@ == match c {
            Crt::Strong => "strong"@,
            Crt::Subtle => "subtle"@,
            Crt::Off => "off"@,
        },
{
    match c {
        Crt::Strong => "strong",
        Crt::Subtle => "subtle",
        Crt::Off => "off",
    }
}

/// The preview's meta line: frame count, cadence, logo, tier, and the
/// fallback note when there is one.
pub open spec fn spec_preview_meta(m: SpecModel, logo: SpecLogo) -> Seq<char> {
    decimal(m.preview.len()) + " frames · "@ + decimal(m.preview_ms as nat) + " ms/frame · "@
        + spec_logo_name(logo) + " · "@ + m.preview_tier.spec_name() + " res"@ + match m.preview_note {
        Some(n) => " — "@ + n,
        None => Seq::empty(),
    }
}

pub fn preview_meta(m: &Model) -> (r: String)
    ensures
        r@ == spec_preview_meta(
            m@,
            if 0 <= m@.logo_pos < m@.logos.len() {
                m@.logos[m@.logo_pos]
            } else {
                SpecLogo::Legacy
            },
        ),
{
    let mut out = String::new();
    push_decimal(&mut out, m.preview.len() as u64);
    push_str(&mut out, " frames · ");
    push_decimal(&mut out, m.preview_ms);
    push_str(&mut out, " ms/frame · ");
    push_str(&mut out, logo_name(m.current_logo()).as_str());
    push_str(&mut out, " · ");
    push_str(&mut out, m.preview_tier.name());
    push_str(&mut out, " res");
    match &m.preview_note {
        Some(n) => {
            push_str(&mut out, " — ");
            push_str(&mut out, n.as_str());
        },
        None => {},
    }
    assert(out@ =~= spec_preview_meta(
        m@,
        if 0 <= m@.logo_pos < m@.logos.len() {
            m@.logos[m@.logo_pos]
        } else {
            SpecLogo::Legacy
        },
    ));
    out
}

} // verus!
