//! The `--config` TUI as a pure state machine: no terminal, no display, no
//! I/O. `Model::key` maps one keystroke to a state change plus the actions
//! the event loop must carry out.

use crate::config::{
    spec_valid_logo_key, valid_logo_key, Config, Crt, HexColor, Logo, LogoRes, LogoSize,
    SpecConfig, SpecLogo,
};
use crate::text::{chars_eq, chars_of, pop_char, push_char, push_str};
use vstd::prelude::*;

verus! {

/// The accent presets, in cycling order: stock green first.
pub open spec fn spec_accent_preset(i: int) -> Option<HexColor> {
    if i == 1 {
        Some(HexColor { r: 0xff, g: 0xb0, b: 0x00 })
    } else if i == 2 {
        Some(HexColor { r: 0x7f, g: 0xd7, b: 0xff })
    } else if i == 3 {
        Some(HexColor { r: 0xff, g: 0x5f, b: 0xd2 })
    } else if i == 4 {
        Some(HexColor { r: 0x22, g: 0xd3, b: 0xee })
    } else {
        None
    }
}

/// How many accent presets there are.
pub const ACCENT_COUNT: usize = 5;

/// Accent preset `i` (amber, ice, magenta, cyan after the stock green);
/// deny-red is deliberately absent.
pub fn accent_preset(i: usize) -> (r: Option<HexColor>)
    requires
        i < ACCENT_COUNT,
    ensures
        r == spec_accent_preset(i as int),
{
    if i == 1 {
        Some(HexColor { r: 0xff, g: 0xb0, b: 0x00 })
    } else if i == 2 {
        Some(HexColor { r: 0x7f, g: 0xd7, b: 0xff })
    } else if i == 3 {
        Some(HexColor { r: 0xff, g: 0x5f, b: 0xd2 })
    } else if i == 4 {
        Some(HexColor { r: 0x22, g: 0xd3, b: 0xee })
    } else {
        None
    }
}

/// Which settings row has focus.
#[derive(Debug, Clone, Copy, PartialEq, Eq, Structural)]
pub enum Focus {
    Osk,
    Logo,
    Res,
    Size,
    Accent,
    Crt,
}

/// Position in the focus order.
pub open spec fn focus_index(f: Focus) -> int {
    match f {
        Focus::Osk => 0,
        Focus::Logo => 1,
        Focus::Res => 2,
        Focus::Size => 3,
        Focus::Accent => 4,
        Focus::Crt => 5,
    }
}

pub open spec fn focus_at(i: int) -> Focus {
    if i == 0 {
        Focus::Osk
    } else if i == 1 {
        Focus::Logo
    } else if i == 2 {
        Focus::Res
    } else if i == 3 {
        Focus::Size
    } else if i == 4 {
        Focus::Accent
    } else {
        Focus::Crt
    }
}

/// Euclidean remainder, as `i32::rem_euclid`.
pub open spec fn wrap(i: int, n: int) -> int {
    i % n
}

/// One step through the focus order, wrapping at both ends.
pub open spec fn spec_focus_step(cur: Focus, dir: int) -> Focus {
    focus_at(wrap(focus_index(cur) + dir, 6))
}

pub fn focus_step(cur: Focus, dir: i32) -> (r: Focus)
    requires
        -1 <= dir <= 1,
    ensures
        r == spec_focus_step(cur, dir as int),
{
    let i: i32 = match cur {
        Focus::Osk => 0,
        Focus::Logo => 1,
        Focus::Res => 2,
        Focus::Size => 3,
        Focus::Accent => 4,
        Focus::Crt => 5,
    };
    let j = (i + dir + 6) % 6;
    match j {
        0 => Focus::Osk,
        1 => Focus::Logo,
        2 => Focus::Res,
        3 => Focus::Size,
        4 => Focus::Accent,
        _ => Focus::Crt,
    }
}

pub open spec fn res_index(r: LogoRes) -> int {
    match r {
        LogoRes::High => 0,
        LogoRes::Medium => 1,
        LogoRes::Low => 2,
    }
}

pub open spec fn res_at(i: int) -> LogoRes {
    if i == 0 {
        LogoRes::High
    } else if i == 1 {
        LogoRes::Medium
    } else {
        LogoRes::Low
    }
}

pub open spec fn size_index(s: LogoSize) -> int {
    match s {
        LogoSize::Large => 0,
        LogoSize::Medium => 1,
        LogoSize::Small => 2,
    }
}

pub open spec fn size_at(i: int) -> LogoSize {
    if i == 0 {
        LogoSize::Large
    } else if i == 1 {
        LogoSize::Medium
    } else {
        LogoSize::Small
    }
}

pub open spec fn crt_index(c: Crt) -> int {
    match c {
        Crt::Strong => 0,
        Crt::Subtle => 1,
        Crt::Off => 2,
    }
}

pub open spec fn crt_at(i: int) -> Crt {
    if i == 0 {
        Crt::Strong
    } else if i == 1 {
        Crt::Subtle
    } else {
        Crt::Off
    }
}

/// What the event loop must do after a keystroke.
#[derive(Debug, Clone, PartialEq)]
pub enum Action {
    Quit,
    Save,
    /// run the logo generator for this key at this tier, writing `out`
    Generate { key: String, out: String, res: LogoRes },
    /// re-scan the logos dir after a generation finished
    RefreshLogos,
}

pub enum SpecAction {
    Quit,
    Save,
    Generate { key: Seq<char>, out: Seq<char>, res: LogoRes },
    RefreshLogos,
}

impl View for Action {
    type V = SpecAction;

    open spec fn view(&self) -> SpecAction {
        match self {
            Action::Quit => SpecAction::Quit,
            Action::Save => SpecAction::Save,
            Action::Generate { key, out, res } => SpecAction::Generate {
                key: key@,
                out: out@,
                res: *res,
            },
            Action::RefreshLogos => SpecAction::RefreshLogos,
        }
    }
}

pub open spec fn actions_view(v: Seq<Action>) -> Seq<SpecAction> {
    v.map_values(|a: Action| a@)
}

/// `Path::join` of a relative file name onto a directory.
pub open spec fn spec_path_join(dir: Seq<char>, name: Seq<char>) -> Seq<char> {
    if dir.len() == 0 {
        name
    } else if dir.last() == '/' {
        dir + name
    } else {
        dir + seq!['/'] + name
    }
}

/// Joins a relative file name onto a directory, as `Path::join` does.
pub fn path_join(dir: &str, name: &str) -> (r: String)
    ensures
        r@ == spec_path_join(dir@, name@),
{
    let d = chars_of(dir);
    let mut out = String::new();
    push_str(&mut out, dir);
    if d.len() > 0 && d[d.len() - 1] != '/' {
        push_char(&mut out, '/');
    }
    push_str(&mut out, name);
    assert(out@ =~= spec_path_join(dir@, name@));
    out
}

pub struct Model {
    pub cfg: Config,
    pub focus: Focus,
    /// [Legacy, Hidden, Key(..)…]; handed in, never scanned here
    pub logos: Vec<Logo>,
    pub logo_pos: usize,
    pub accent_idx: usize,
    /// preview frames + cadence of the selected logo (loaded by the loop)
    pub preview: Vec<String>,
    pub preview_ms: u64,
    pub preview_stale: bool,
    /// tier actually loaded into the preview
    pub preview_tier: LogoRes,
    pub preview_note: Option<String>,
    /// primary monitor geometry (None: no display)
    pub screen: Option<(i32, i32)>,
    /// expected on-screen size (px) of the configured logo+tier+size
    pub size_px: Option<(i32, i32)>,
    pub frame: usize,
    /// paths the footer shows
    pub config_path: String,
    pub logos_dir: String,
    pub status: String,
    /// Some(buffer) = custom-logo entry mode
    pub input: Option<String>,
    pub dirty: bool,
}

/// The mathematical value of a [`Model`].
#[verifier::ext_equal]
pub struct SpecModel {
    pub cfg: SpecConfig,
    pub focus: Focus,
    pub logos: Seq<SpecLogo>,
    pub logo_pos: int,
    pub accent_idx: int,
    pub preview: Seq<Seq<char>>,
    pub preview_ms: u64,
    pub preview_stale: bool,
    pub preview_tier: LogoRes,
    pub preview_note: Option<Seq<char>>,
    pub screen: Option<(i32, i32)>,
    pub size_px: Option<(i32, i32)>,
    pub frame: int,
    pub config_path: Seq<char>,
    pub logos_dir: Seq<char>,
    pub status: Seq<char>,
    pub input: Option<Seq<char>>,
    pub dirty: bool,
}

pub open spec fn str_opt_view(o: Option<String>) -> Option<Seq<char>> {
    match o {
        Some(s) => Some(s@),
        None => None,
    }
}

impl View for Model {
    type V = SpecModel;

    open spec fn view(&self) -> SpecModel {
        SpecModel {
            cfg: self.cfg@,
            focus: self.focus,
            logos: self.logos@.map_values(|l: Logo| l@),
            logo_pos: self.logo_pos as int,
            accent_idx: self.accent_idx as int,
            preview: self.preview@.map_values(|f: String| f@),
            preview_ms: self.preview_ms,
            preview_stale: self.preview_stale,
            preview_tier: self.preview_tier,
            preview_note: str_opt_view(self.preview_note),
            screen: self.screen,
            size_px: self.size_px,
            frame: self.frame as int,
            config_path: self.config_path@,
            logos_dir: self.logos_dir@,
            status: self.status@,
            input: str_opt_view(self.input),
            dirty: self.dirty,
        }
    }
}

/// Index of the first logo equal to `l`, or -1.
pub open spec fn logo_position(ls: Seq<SpecLogo>, l: SpecLogo) -> int
    decreases ls.len(),
{
    if ls.len() == 0 {
        -1
    } else if ls[0] == l {
        0
    } else {
        let r = logo_position(ls.drop_first(), l);
        if r < 0 {
            -1
        } else {
            r + 1
        }
    }
}

/// Index of the first accent preset equal to `a`, or -1.
pub open spec fn accent_position(a: Option<HexColor>) -> int {
    if a == spec_accent_preset(0) {
        0
    } else if a == spec_accent_preset(1) {
        1
    } else if a == spec_accent_preset(2) {
        2
    } else if a == spec_accent_preset(3) {
        3
    } else if a == spec_accent_preset(4) {
        4
    } else {
        -1
    }
}

/// The model a fresh TUI starts from.
pub open spec fn spec_new(
    cfg: SpecConfig,
    logos: Seq<SpecLogo>,
    config_path: Seq<char>,
    logos_dir: Seq<char>,
    screen: Option<(i32, i32)>,
) -> SpecModel {
    SpecModel {
        cfg: cfg,
        focus: Focus::Osk,
        logos: logos,
        logo_pos: if logo_position(logos, cfg.logo) >= 0 {
            logo_position(logos, cfg.logo)
        } else {
            0
        },
        accent_idx: if accent_position(cfg.accent) >= 0 {
            accent_position(cfg.accent)
        } else {
            0
        },
        preview: Seq::empty(),
        preview_ms: 100,
        preview_stale: true,
        preview_tier: LogoRes::High,
        preview_note: None,
        screen: screen,
        size_px: None,
        frame: 0,
        config_path: config_path,
        logos_dir: logos_dir,
        status: "ready — edits apply at next greeter/lock start"@,
        input: None,
        dirty: false,
    }
}

/// The osk row set to `on`; a change marks the config dirty.
pub open spec fn spec_set_osk(m: SpecModel, on: bool) -> SpecModel {
    if m.cfg.osk != on {
        SpecModel {
            cfg: SpecConfig { osk: on, ..m.cfg },
            dirty: true,
            status: if on {
                "osk enabled"@
            } else {
                "osk disabled — needs a physical keyboard at the greeter AND lock"@
            },
            ..m
        }
    } else {
        m
    }
}

pub open spec fn spec_logo_step(m: SpecModel, dir: int) -> SpecModel {
    if m.logos.len() == 0 {
        m
    } else {
        let p = wrap(m.logo_pos + dir, m.logos.len() as int);
        SpecModel {
            logo_pos: p,
            cfg: SpecConfig { logo: m.logos[p], ..m.cfg },
            dirty: true,
            preview_stale: true,
            ..m
        }
    }
}

pub open spec fn spec_res_step(m: SpecModel, dir: int) -> SpecModel {
    SpecModel {
        cfg: SpecConfig { logo_res: res_at(wrap(res_index(m.cfg.logo_res) + dir, 3)), ..m.cfg },
        dirty: true,
        preview_stale: true,
        ..m
    }
}

pub open spec fn spec_size_step(m: SpecModel, dir: int) -> SpecModel {
    SpecModel {
        cfg: SpecConfig {
            logo_size: size_at(wrap(size_index(m.cfg.logo_size) + dir, 3)),
            ..m.cfg
        },
        dirty: true,
        preview_stale: true,
        ..m
    }
}

pub open spec fn spec_accent_step(m: SpecModel, dir: int) -> SpecModel {
    let i = wrap(m.accent_idx + dir, 5);
    SpecModel {
        accent_idx: i,
        cfg: SpecConfig { accent: spec_accent_preset(i), ..m.cfg },
        dirty: true,
        ..m
    }
}

pub open spec fn spec_crt_step(m: SpecModel, dir: int) -> SpecModel {
    SpecModel {
        cfg: SpecConfig { crt: crt_at(wrap(crt_index(m.cfg.crt) + dir, 3)), ..m.cfg },
        dirty: true,
        ..m
    }
}

/// The focused row stepped one value back (left) or forward (right); on
/// the osk row left means on and right means off.
pub open spec fn spec_value_step(m: SpecModel, dir: int) -> SpecModel {
    match m.focus {
        Focus::Osk => spec_set_osk(m, dir < 0),
        Focus::Logo => spec_logo_step(m, dir),
        Focus::Res => spec_res_step(m, dir),
        Focus::Size => spec_size_step(m, dir),
        Focus::Accent => spec_accent_step(m, dir),
        Focus::Crt => spec_crt_step(m, dir),
    }
}

/// ENTER/space on a row: the osk row toggles, the others step forward.
pub open spec fn spec_activate(m: SpecModel) -> SpecModel {
    match m.focus {
        Focus::Osk => spec_set_osk(m, !m.cfg.osk),
        _ => spec_value_step(m, 1),
    }
}

/// ENTER on the custom-logo input: select (or add and select) the key and
/// ask the loop to generate its frames at the configured tier.
pub open spec fn spec_accept_logo(m: SpecModel, key: Seq<char>) -> (SpecModel, Seq<SpecAction>) {
    if !spec_valid_logo_key(key) {
        (SpecModel { status: "invalid logo key: \""@ + key + "\""@, ..m }, Seq::empty())
    } else {
        let found = logo_position(m.logos, SpecLogo::Key(key));
        let logos = if found >= 0 {
            m.logos
        } else {
            m.logos.push(SpecLogo::Key(key))
        };
        let pos = if found >= 0 {
            found
        } else {
            m.logos.len() as int
        };
        (
            SpecModel {
                logos: logos,
                logo_pos: pos,
                cfg: SpecConfig { logo: SpecLogo::Key(key), ..m.cfg },
                dirty: true,
                preview_stale: true,
                status: "generating "@ + key + " at "@ + m.cfg.logo_res.spec_name()
                    + " res (~15 s)…"@,
                ..m
            },
            seq![
                SpecAction::Generate {
                    key: key,
                    out: spec_path_join(
                        m.logos_dir,
                        key + m.cfg.logo_res.spec_suffix() + ".txt"@,
                    ),
                    res: m.cfg.logo_res,
                },
            ],
        )
    }
}

/// A character a logo key may hold.
pub open spec fn input_char_ok(c: char) -> bool {
    crate::config::is_key_char(c)
}

/// One keystroke while the custom-logo input is open.
pub open spec fn spec_key_input(m: SpecModel, buf: Seq<char>, k: Seq<char>) -> (
    SpecModel,
    Seq<SpecAction>,
) {
    if k == "esc"@ {
        (SpecModel { input: None, status: "input cancelled"@, ..m }, Seq::empty())
    } else if k == "backspace"@ {
        (
            SpecModel {
                input: Some(
                    if buf.len() > 0 {
                        buf.drop_last()
                    } else {
                        buf
                    },
                ),
                ..m
            },
            Seq::empty(),
        )
    } else if k == "enter"@ {
        spec_accept_logo(SpecModel { input: None, ..m }, buf)
    } else if k.len() == 1 && input_char_ok(k[0]) && (vstd::utf8::encode_utf8(buf).len() as usize) < 32 {
        (SpecModel { input: Some(buf.push(k[0])), ..m }, Seq::empty())
    } else {
        (m, Seq::empty())
    }
}

/// One keystroke → the next model and the actions for the event loop.
/// `k` is a normalized name: "up" "down" "left" "right" "enter" "esc"
/// "backspace" " " or a single character.
pub open spec fn spec_key(m: SpecModel, k: Seq<char>) -> (SpecModel, Seq<SpecAction>) {
    match m.input {
        Some(buf) => spec_key_input(m, buf, k),
        None => if k == "q"@ || k == "esc"@ {
            (m, seq![SpecAction::Quit])
        } else if k == "up"@ || k == "k"@ {
            (SpecModel { focus: spec_focus_step(m.focus, -1), ..m }, Seq::empty())
        } else if k == "down"@ || k == "j"@ {
            (SpecModel { focus: spec_focus_step(m.focus, 1), ..m }, Seq::empty())
        } else if k == "left"@ || k == "h"@ {
            (spec_value_step(m, -1), Seq::empty())
        } else if k == "right"@ || k == "l"@ {
            (spec_value_step(m, 1), Seq::empty())
        } else if k == " "@ || k == "enter"@ {
            (spec_activate(m), Seq::empty())
        } else if k == "s"@ {
            (m, seq![SpecAction::Save])
        } else if k == "g"@ {
            (
                SpecModel {
                    input: Some(Seq::empty()),
                    status: "logo key (fastfetch --list-logos), ENTER to generate:"@,
                    ..m
                },
                Seq::empty(),
            )
        } else {
            (m, Seq::empty())
        },
    }
}

/// The preview frames replaced; the animation restarts at frame 0.
pub open spec fn spec_set_preview(m: SpecModel, frames: Seq<Seq<char>>, ms: u64) -> SpecModel {
    SpecModel { preview: frames, preview_ms: ms, preview_stale: false, frame: 0, ..m }
}

/// One cadence tick: the next preview frame, wrapping.
pub open spec fn spec_tick(m: SpecModel) -> SpecModel {
    if m.preview.len() == 0 {
        m
    } else {
        SpecModel { frame: (m.frame + 1) % (m.preview.len() as int), ..m }
    }
}

/// Bounds under which the index arithmetic (done in `i32`, as the step
/// keys wrap around) cannot overflow.
pub open spec fn in_bounds(m: SpecModel) -> bool {
    &&& m.logos.len() <= i32::MAX
    &&& 0 <= m.logo_pos < i32::MAX
    &&& 0 <= m.accent_idx < i32::MAX
}

/// `(i + dir).rem_euclid(n)` for a small index.
fn wrap_step(i: usize, dir: i32, n: usize) -> (r: usize)
    requires
        i < i32::MAX,
        0 < n <= i32::MAX,
        -1 <= dir <= 1,
    ensures
        r == wrap(i + dir, n as int),
        r < n,
{
    let shifted: u64 = if dir < 0 {
        i as u64 + n as u64 - 1
    } else {
        i as u64 + n as u64 + dir as u64
    };
    let v = shifted % (n as u64);
    proof {
        vstd::arithmetic::div_mod::lemma_mod_add_multiples_vanish(i + dir, n as int);
        assert(shifted == n + (i + dir));
    }
    v as usize
}

pub open spec fn logos_view(v: Seq<Logo>) -> Seq<SpecLogo> {
    v.map_values(|l: Logo| l@)
}

/// Index of the first logo with the value of `l`.
pub fn find_logo(logos: &Vec<Logo>, l: &Logo) -> (r: Option<usize>)
    ensures
        r matches Some(i) ==> i < logos.len() && i == logo_position(logos_view(logos@), l@),
        r is None ==> logo_position(logos_view(logos@), l@) < 0,
{
    let ghost v = logos_view(logos@);
    let mut i: usize = 0;
    assert(v.skip(0) =~= v);
    while i < logos.len()
        invariant
            i <= logos.len(),
            v == logos_view(logos@),
            logo_position(v, l@) == (if logo_position(v.skip(i as int), l@) < 0 {
                -1
            } else {
                i + logo_position(v.skip(i as int), l@)
            }),
        decreases logos.len() - i,
    {
        assert(v.skip(i as int).drop_first() =~= v.skip(i + 1));
        assert(v.skip(i as int)[0] == logos@[i as int]@);
        if logos[i].same(l) {
            return Some(i);
        }
        i += 1;
    }
    assert(v.skip(i as int) =~= Seq::<SpecLogo>::empty());
    None
}

impl Model {
    pub fn new(
        cfg: Config,
        logos: Vec<Logo>,
        config_path: String,
        logos_dir: String,
        screen: Option<(i32, i32)>,
    ) -> (m: Model)
        ensures
            m@ == spec_new(cfg@, logos_view(logos@), config_path@, logos_dir@, screen),
    {
        let logo_pos = match find_logo(&logos, &cfg.logo) {
            Some(i) => i,
            None => 0,
        };
        let accent_idx = accent_index(cfg.accent);
        let m = Model {
            cfg,
            focus: Focus::Osk,
            logos,
            logo_pos,
            accent_idx,
            preview: Vec::new(),
            preview_ms: 100,
            preview_stale: true,
            preview_tier: LogoRes::High,
            preview_note: None,
            screen,
            size_px: None,
            frame: 0,
            config_path,
            logos_dir,
            status: "ready — edits apply at next greeter/lock start".to_owned(),
            input: None,
            dirty: false,
        };
        assert(m.preview@.map_values(|f: String| f@) =~= Seq::<Seq<char>>::empty());
        assert(m@ =~= spec_new(m.cfg@, logos_view(m.logos@), m.config_path@, m.logos_dir@, screen));
        m
    }

    /// One keystroke → state change + actions. `k` is a normalized name:
    /// "up" "down" "left" "right" "enter" "esc" "backspace" " " or a char.
    pub fn key(&mut self, k: &str) -> (r: Vec<Action>)
        requires
            in_bounds(old(self)@),
        ensures
            final(self)@ == spec_key(old(self)@, k@).0,
            actions_view(r@) == spec_key(old(self)@, k@).1,
    {
        if self.input.is_some() {
            return self.key_input(k);
        }
        let kc = chars_of(k);
        let ghost before = self@;
        if chars_eq(&kc, "q") || chars_eq(&kc, "esc") {
            return quit_actions();
        }
        if chars_eq(&kc, "up") || chars_eq(&kc, "k") {
            self.focus = focus_step(self.focus, -1);
            assert(self@ =~= spec_key(before, k@).0);
            return no_actions();
        }
        if chars_eq(&kc, "down") || chars_eq(&kc, "j") {
            self.focus = focus_step(self.focus, 1);
            assert(self@ =~= spec_key(before, k@).0);
            return no_actions();
        }
        if chars_eq(&kc, "left") || chars_eq(&kc, "h") {
            self.value_step(-1);
            return no_actions();
        }
        if chars_eq(&kc, "right") || chars_eq(&kc, "l") {
            self.value_step(1);
            return no_actions();
        }
        if chars_eq(&kc, " ") || chars_eq(&kc, "enter") {
            self.activate();
            return no_actions();
        }
        if chars_eq(&kc, "s") {
            let mut v = Vec::new();
            v.push(Action::Save);
            assert(actions_view(v@) =~= seq![SpecAction::Save]);
            return v;
        }
        if chars_eq(&kc, "g") {
            self.input = Some(String::new());
            self.status = "logo key (fastfetch --list-logos), ENTER to generate:".to_owned();
            assert(self@ =~= spec_key(before, k@).0);
            return no_actions();
        }
        no_actions()
    }

    fn key_input(&mut self, k: &str) -> (r: Vec<Action>)
        requires
            in_bounds(old(self)@),
            old(self).input is Some,
        ensures
            final(self)@ == spec_key(old(self)@, k@).0,
            actions_view(r@) == spec_key(old(self)@, k@).1,
    {
        let ghost before = self@;
        let kc = chars_of(k);
        let mut buf = match self.input.take() {
            Some(b) => b,
            None => String::new(),
        };
        let ghost b0 = buf@;
        if chars_eq(&kc, "esc") {
            self.status = "input cancelled".to_owned();
            assert(self@ =~= spec_key(before, k@).0);
            return no_actions();
        }
        if chars_eq(&kc, "backspace") {
            let _ = pop_char(&mut buf);
            self.input = Some(buf);
            assert(self@ =~= spec_key(before, k@).0);
            return no_actions();
        }
        if chars_eq(&kc, "enter") {
            assert(self@ =~= (SpecModel { input: None, ..before }));
            return self.accept_logo(buf);
        }
        if kc.len() == 1 && crate::config::key_char(kc[0]) && buf.as_str().len() < 32 {
            push_char(&mut buf, kc[0]);
        }
        self.input = Some(buf);
        assert(self@ =~= spec_key(before, k@).0);
        no_actions()
    }

    /// ENTER on the logo input: select (or add + select) the key and ask
    /// the loop to generate its frames.
    fn accept_logo(&mut self, key: String) -> (r: Vec<Action>)
        requires
            in_bounds(old(self)@),
        ensures
            final(self)@ == spec_accept_logo(old(self)@, key@).0,
            actions_view(r@) == spec_accept_logo(old(self)@, key@).1,
    {
        let ghost before = self@;
        if !valid_logo_key(key.as_str()) {
            let mut st = String::new();
            push_str(&mut st, "invalid logo key: \"");
            push_str(&mut st, key.as_str());
            push_str(&mut st, "\"");
            self.status = st;
            assert(self@ =~= spec_accept_logo(before, key@).0);
            return no_actions();
        }
        let wanted = Logo::Key(key.clone());
        match find_logo(&self.logos, &wanted) {
            Some(i) => {
                self.logo_pos = i;
            },
            None => {
                let ghost lv = self.logos@;
                self.logos.push(Logo::Key(key.clone()));
                self.logo_pos = self.logos.len() - 1;
                assert(logos_view(self.logos@) =~= logos_view(lv).push(SpecLogo::Key(key@)));
            },
        }
        self.cfg.logo = Logo::Key(key.clone());
        self.dirty = true;
        self.preview_stale = true;
        let res = self.cfg.logo_res;
        let mut st = String::new();
        push_str(&mut st, "generating ");
        push_str(&mut st, key.as_str());
        push_str(&mut st, " at ");
        push_str(&mut st, res.name());
        push_str(&mut st, " res (~15 s)…");
        self.status = st;
        let mut file = key.clone();
        push_str(&mut file, res.suffix());
        push_str(&mut file, ".txt");
        let out = path_join(self.logos_dir.as_str(), file.as_str());
        assert(self@ =~= spec_accept_logo(before, key@).0);
        let mut v = Vec::new();
        v.push(Action::Generate { key, out, res });
        assert(actions_view(v@) =~= spec_accept_logo(before, key@).1);
        v
    }

    /// Left/right on the focused row.
    fn value_step(&mut self, dir: i32)
        requires
            in_bounds(old(self)@),
            dir == -1 || dir == 1,
        ensures
            final(self)@ == spec_value_step(old(self)@, dir as int),
    {
        match self.focus {
            Focus::Osk => self.set_osk(dir < 0),
            Focus::Logo => self.logo_step(dir),
            Focus::Res => self.res_step(dir),
            Focus::Size => self.size_step(dir),
            Focus::Accent => self.accent_step(dir),
            Focus::Crt => self.crt_step(dir),
        }
    }

    fn activate(&mut self)
        requires
            in_bounds(old(self)@),
        ensures
            final(self)@ == spec_activate(old(self)@),
    {
        match self.focus {
            Focus::Osk => {
                let on = !self.cfg.osk;
                self.set_osk(on);
            },
            _ => self.value_step(1),
        }
    }

    fn set_osk(&mut self, on: bool)
        ensures
            final(self)@ == spec_set_osk(old(self)@, on),
    {
        let ghost before = self@;
        if self.cfg.osk != on {
            self.cfg.osk = on;
            self.dirty = true;
            if on {
                self.status = "osk enabled".to_owned();
            } else {
                self.status = "osk disabled — needs a physical keyboard at the greeter AND lock".to_owned();
            }
            assert(self@ =~= spec_set_osk(before, on));
        }
    }

    fn logo_step(&mut self, dir: i32)
        requires
            in_bounds(old(self)@),
            dir == -1 || dir == 1,
        ensures
            final(self)@ == spec_logo_step(old(self)@, dir as int),
    {
        let ghost before = self@;
        if self.logos.len() == 0 {
            return ;
        }
        let n = self.logos.len();
        self.logo_pos = wrap_step(self.logo_pos, dir, n);
        self.cfg.logo = self.logos[self.logo_pos].duplicate();
        self.dirty = true;
        self.preview_stale = true;
        assert(self@ =~= spec_logo_step(before, dir as int));
    }

    fn res_step(&mut self, dir: i32)
        requires
            dir == -1 || dir == 1,
        ensures
            final(self)@ == spec_res_step(old(self)@, dir as int),
    {
        let ghost before = self@;
        let cur: usize = match self.cfg.logo_res {
            LogoRes::High => 0,
            LogoRes::Medium => 1,
            LogoRes::Low => 2,
        };
        let i = wrap_step(cur, dir, 3);
        self.cfg.logo_res = if i == 0 {
            LogoRes::High
        } else if i == 1 {
            LogoRes::Medium
        } else {
            LogoRes::Low
        };
        self.dirty = true;
        self.preview_stale = true;
        assert(self@ =~= spec_res_step(before, dir as int));
    }

    fn size_step(&mut self, dir: i32)
        requires
            dir == -1 || dir == 1,
        ensures
            final(self)@ == spec_size_step(old(self)@, dir as int),
    {
        let ghost before = self@;
        let cur: usize = match self.cfg.logo_size {
            LogoSize::Large => 0,
            LogoSize::Medium => 1,
            LogoSize::Small => 2,
        };
        let i = wrap_step(cur, dir, 3);
        self.cfg.logo_size = if i == 0 {
            LogoSize::Large
        } else if i == 1 {
            LogoSize::Medium
        } else {
            LogoSize::Small
        };
        self.dirty = true;
        self.preview_stale = true;
        assert(self@ =~= spec_size_step(before, dir as int));
    }

    fn accent_step(&mut self, dir: i32)
        requires
            in_bounds(old(self)@),
            dir == -1 || dir == 1,
        ensures
            final(self)@ == spec_accent_step(old(self)@, dir as int),
    {
        let ghost before = self@;
        self.accent_idx = wrap_step(self.accent_idx, dir, ACCENT_COUNT);
        self.cfg.accent = accent_preset(self.accent_idx);
        self.dirty = true;
        assert(self@ =~= spec_accent_step(before, dir as int));
    }

    fn crt_step(&mut self, dir: i32)
        requires
            dir == -1 || dir == 1,
        ensures
            final(self)@ == spec_crt_step(old(self)@, dir as int),
    {
        let ghost before = self@;
        let cur: usize = match self.cfg.crt {
            Crt::Strong => 0,
            Crt::Subtle => 1,
            Crt::Off => 2,
        };
        let i = wrap_step(cur, dir, 3);
        self.cfg.crt = if i == 0 {
            Crt::Strong
        } else if i == 1 {
            Crt::Subtle
        } else {
            Crt::Off
        };
        self.dirty = true;
        assert(self@ =~= spec_crt_step(before, dir as int));
    }

    /// The event loop reloads the preview when the logo choice changed.
    pub fn set_preview(&mut self, frames: Vec<String>, ms: u64)
        ensures
            final(self)@ == spec_set_preview(old(self)@, frames@.map_values(|f: String| f@), ms),
    {
        let ghost before = self@;
        self.preview = frames;
        self.preview_ms = ms;
        self.preview_stale = false;
        self.frame = 0;
        assert(self@ =~= spec_set_preview(before, frames@.map_values(|f: String| f@), ms));
    }

    /// Advance the preview by one frame (called at the cadence tick).
    pub fn tick(&mut self)
        requires
            old(self).frame < usize::MAX,
        ensures
            final(self)@ == spec_tick(old(self)@),
    {
        let ghost before = self@;
        if self.preview.len() > 0 {
            self.frame = (self.frame + 1) % self.preview.len();
            assert(self@ =~= spec_tick(before));
        }
    }

    /// The selected logo (Legacy when the position is out of range).
    pub fn current_logo(&self) -> (r: &Logo)
        ensures
            r@ == (if self.logo_pos < self.logos.len() {
                self.logos@[self.logo_pos as int]@
            } else {
                SpecLogo::Legacy
            }),
    {
        if self.logo_pos < self.logos.len() {
            &self.logos[self.logo_pos]
        } else {
            &LEGACY
        }
    }
}

/// The logo shown when the position is out of range.
pub const LEGACY: Logo = Logo::Legacy;

fn no_actions() -> (r: Vec<Action>)
    ensures
        r@.len() == 0,
        actions_view(r@) == Seq::<SpecAction>::empty(),
{
    let v = Vec::new();
    assert(actions_view(v@) =~= Seq::<SpecAction>::empty());
    v
}

fn quit_actions() -> (r: Vec<Action>)
    ensures
        actions_view(r@) == seq![SpecAction::Quit],
{
    let mut v = Vec::new();
    v.push(Action::Quit);
    assert(actions_view(v@) =~= seq![SpecAction::Quit]);
    v
}

/// Position of an accent in the preset list; a custom accent maps to 0.
fn accent_index(a: Option<HexColor>) -> (r: usize)
    ensures
        r == (if accent_position(a) >= 0 {
            accent_position(a)
        } else {
            0
        }),
{
    let mut i: usize = 0;
    while i < ACCENT_COUNT
        invariant
            i <= ACCENT_COUNT,
            forall|j: int| 0 <= j < i ==> spec_accent_preset(j) != a,
        decreases ACCENT_COUNT - i,
    {
        if accent_preset(i) == a {
            return i;
        }
        i += 1;
    }
    0
}

/// Focus wraps in both directions: down then up returns to the same row,
/// and six downs visit every row once and come back.
pub proof fn law_focus_wraps(f: Focus)
    ensures
        spec_focus_step(spec_focus_step(f, 1), -1) == f,
        spec_focus_step(spec_focus_step(f, -1), 1) == f,
        spec_focus_step(
            spec_focus_step(
                spec_focus_step(
                    spec_focus_step(spec_focus_step(spec_focus_step(f, 1), 1), 1),
                    1,
                ),
                1,
            ),
            1,
        ) == f,
{
}

/// The three-valued rows cycle: three steps forward come back, and a step
/// back undoes a step forward.
pub proof fn law_three_way_cycles(m: SpecModel)
    ensures
        spec_res_step(spec_res_step(spec_res_step(m, 1), 1), 1).cfg.logo_res == m.cfg.logo_res,
        spec_res_step(spec_res_step(m, 1), -1).cfg.logo_res == m.cfg.logo_res,
        spec_size_step(spec_size_step(spec_size_step(m, 1), 1), 1).cfg.logo_size
            == m.cfg.logo_size,
        spec_size_step(spec_size_step(m, 1), -1).cfg.logo_size == m.cfg.logo_size,
        spec_crt_step(spec_crt_step(spec_crt_step(m, 1), 1), 1).cfg.crt == m.cfg.crt,
        spec_crt_step(spec_crt_step(m, 1), -1).cfg.crt == m.cfg.crt,
{
}

/// The accent cycles through the five presets: five steps forward come
/// back to the same preset, and a step back undoes a step forward.
pub proof fn law_accent_cycles(m: SpecModel)
    requires
        0 <= m.accent_idx < 5,
    ensures
        spec_accent_step(
            spec_accent_step(
                spec_accent_step(spec_accent_step(spec_accent_step(m, 1), 1), 1),
                1,
            ),
            1,
        ).accent_idx == m.accent_idx,
        spec_accent_step(spec_accent_step(m, 1), -1).accent_idx == m.accent_idx,
        spec_accent_step(spec_accent_step(m, 1), -1).cfg.accent == spec_accent_preset(
            m.accent_idx,
        ),
{
}

/// Stepping the logo forward then back returns to the same entry, and
/// the config's logo is always the entry the position names.
pub proof fn law_logo_step_back_and_forth(m: SpecModel)
    requires
        0 <= m.logo_pos < m.logos.len(),
    ensures
        spec_logo_step(spec_logo_step(m, 1), -1).logo_pos == m.logo_pos,
        spec_logo_step(spec_logo_step(m, 1), -1).cfg.logo == m.logos[m.logo_pos],
        spec_logo_step(m, 1).cfg.logo == m.logos[spec_logo_step(m, 1).logo_pos],
{
    let n = m.logos.len() as int;
    let p = (m.logo_pos + 1) % n;
    assert(0 <= p < n);
    assert((p - 1) % n == m.logo_pos) by {
        if m.logo_pos + 1 < n {
            vstd::arithmetic::div_mod::lemma_small_mod((m.logo_pos + 1) as nat, n as nat);
            vstd::arithmetic::div_mod::lemma_small_mod(m.logo_pos as nat, n as nat);
            assert(p == m.logo_pos + 1);
        } else {
            vstd::arithmetic::div_mod::lemma_mod_self_0(n);
            assert(p == 0);
            assert((0 - 1) % n == n - 1) by {
                vstd::arithmetic::div_mod::lemma_mod_add_multiples_vanish(-1, n);
                vstd::arithmetic::div_mod::lemma_small_mod((n - 1) as nat, n as nat);
            }
        }
    }
}

/// ESC in the custom-logo input cancels the input and nothing else: no
/// action (in particular no Quit), and the selection and config stay.
pub proof fn law_input_escape_only_cancels(m: SpecModel)
    requires
        m.input is Some,
    ensures
        spec_key(m, "esc"@).1 == Seq::<SpecAction>::empty(),
        spec_key(m, "esc"@).0.input is None,
        spec_key(m, "esc"@).0.cfg == m.cfg,
        spec_key(m, "esc"@).0.logos == m.logos,
        spec_key(m, "esc"@).0.logo_pos == m.logo_pos,
{
}

/// Outside the input, `q` and ESC quit and `s` saves — and no keystroke
/// there changes the config without also marking it dirty.
pub proof fn law_keys_quit_save_dirty(m: SpecModel, k: Seq<char>)
    requires
        m.input is None,
    ensures
        spec_key(m, "q"@).1 == seq![SpecAction::Quit],
        spec_key(m, "esc"@).1 == seq![SpecAction::Quit],
        spec_key(m, "s"@).1 == seq![SpecAction::Save],
        spec_key(m, k).0.cfg != m.cfg ==> spec_key(m, k).0.dirty,
{
    reveal_strlit("q");
    reveal_strlit("esc");
    reveal_strlit("s");
    reveal_strlit("up");
    reveal_strlit("k");
    reveal_strlit("down");
    reveal_strlit("j");
    reveal_strlit("left");
    reveal_strlit("h");
    reveal_strlit("right");
    reveal_strlit("l");
    reveal_strlit(" ");
    reveal_strlit("enter");
    reveal_strlit("g");
    assert("s"@[0] != "q"@[0] && "s"@[0] != "k"@[0] && "s"@[0] != "j"@[0]);
    assert("s"@[0] != "h"@[0] && "s"@[0] != "l"@[0] && "s"@[0] != " "@[0]);
}

/// Stepping an index one way and then back, modulo `n`, lands where it
/// started.
proof fn lemma_wrap_back_and_forth(i: int, d: int, n: int)
    requires
        0 <= i < n,
        d == 1 || d == -1,
    ensures
        0 <= wrap(i + d, n) < n,
        wrap(wrap(i + d, n) - d, n) == i,
{
    vstd::arithmetic::div_mod::lemma_small_mod(i as nat, n as nat);
    vstd::arithmetic::div_mod::lemma_mod_self_0(n);
    vstd::arithmetic::div_mod::lemma_mod_add_multiples_vanish(-1, n);
    vstd::arithmetic::div_mod::lemma_small_mod((n - 1) as nat, n as nat);
    if 0 <= i + d < n {
        vstd::arithmetic::div_mod::lemma_small_mod((i + d) as nat, n as nat);
    }
}

/// On every settings row but the osk row (where left means on and right
/// means off), left then right and right then left give back the same
/// config, focus, logo list, logo position and accent position. On the
/// logo row this needs the position to name the configured logo, and on
/// the accent row the configured accent to be the preset at the accent
/// position.
pub proof fn law_left_right_inverse(m: SpecModel)
    requires
        m.input is None,
        m.focus != Focus::Osk,
        m.focus == Focus::Logo && m.logos.len() > 0 ==> 0 <= m.logo_pos < m.logos.len()
            && m.logos[m.logo_pos] == m.cfg.logo,
        m.focus == Focus::Accent ==> 0 <= m.accent_idx < 5 && spec_accent_preset(m.accent_idx)
            == m.cfg.accent,
    ensures
        ({
            let back = spec_key(spec_key(m, "left"@).0, "right"@).0;
            &&& back.cfg == m.cfg
            &&& back.focus == m.focus
            &&& back.logos == m.logos
            &&& back.logo_pos == m.logo_pos
            &&& back.accent_idx == m.accent_idx
        }),
        ({
            let back = spec_key(spec_key(m, "right"@).0, "left"@).0;
            &&& back.cfg == m.cfg
            &&& back.focus == m.focus
            &&& back.logos == m.logos
            &&& back.logo_pos == m.logo_pos
            &&& back.accent_idx == m.accent_idx
        }),
{
    reveal_strlit("q");
    reveal_strlit("esc");
    reveal_strlit("up");
    reveal_strlit("k");
    reveal_strlit("down");
    reveal_strlit("j");
    reveal_strlit("left");
    reveal_strlit("h");
    reveal_strlit("right");
    assert("left"@[0] != "down"@[0]);
    assert("right"@[0] != "left"@[0]);
    assert(spec_key(m, "left"@).0 == spec_value_step(m, -1));
    assert(spec_key(m, "right"@).0 == spec_value_step(m, 1));
    let l = spec_value_step(m, -1);
    let r = spec_value_step(m, 1);
    assert(spec_key(l, "right"@).0 == spec_value_step(l, 1));
    assert(spec_key(r, "left"@).0 == spec_value_step(r, -1));
    match m.focus {
        Focus::Logo => {
            if m.logos.len() > 0 {
                lemma_wrap_back_and_forth(m.logo_pos, -1, m.logos.len() as int);
                lemma_wrap_back_and_forth(m.logo_pos, 1, m.logos.len() as int);
            }
        },
        Focus::Accent => {
            lemma_wrap_back_and_forth(m.accent_idx, -1, 5);
            lemma_wrap_back_and_forth(m.accent_idx, 1, 5);
        },
        Focus::Res => {
            lemma_wrap_back_and_forth(res_index(m.cfg.logo_res), -1, 3);
            lemma_wrap_back_and_forth(res_index(m.cfg.logo_res), 1, 3);
        },
        Focus::Size => {
            lemma_wrap_back_and_forth(size_index(m.cfg.logo_size), -1, 3);
            lemma_wrap_back_and_forth(size_index(m.cfg.logo_size), 1, 3);
        },
        Focus::Crt => {
            lemma_wrap_back_and_forth(crt_index(m.cfg.crt), -1, 3);
            lemma_wrap_back_and_forth(crt_index(m.cfg.crt), 1, 3);
        },
        Focus::Osk => {},
    }
}

/// Every character of `b` is one a logo key may hold.
pub open spec fn all_key_chars(b: Seq<char>) -> bool {
    forall|i: int| 0 <= i < b.len() ==> input_char_ok(#[trigger] b[i])
}

/// Key characters are ASCII, so the buffer's UTF-8 length is its length.
proof fn lemma_key_chars_bytes(b: Seq<char>)
    requires
        all_key_chars(b),
    ensures
        vstd::utf8::encode_utf8(b).len() == b.len(),
{
    assert(vstd::utf8::is_ascii_chars(b));
    vstd::utf8::is_ascii_chars_encode_utf8(b);
}

/// While the custom-logo input is open, every key but ENTER answers no
/// action and leaves the config, the focus, the logo list and the logo
/// position alone; every key but ENTER and ESC keeps the buffer a run of
/// key characters of at most 32 bytes; ESC closes the input.
pub proof fn law_input_buffer_stays_a_key(m: SpecModel, k: Seq<char>)
    requires
        m.input matches Some(b) && b.len() <= 32 && all_key_chars(b),
    ensures
        k != "enter"@ ==> {
            let (m2, acts) = spec_key(m, k);
            &&& acts == Seq::<SpecAction>::empty()
            &&& m2.cfg == m.cfg
            &&& m2.focus == m.focus
            &&& m2.logos == m.logos
            &&& m2.logo_pos == m.logo_pos
        },
        k != "enter"@ && k != "esc"@ ==> (spec_key(m, k).0.input matches Some(b2) && b2.len()
            <= 32 && vstd::utf8::encode_utf8(b2).len() <= 32 && all_key_chars(b2)),
        k == "esc"@ ==> spec_key(m, k).0.input is None,
{
    let b = m.input->0;
    lemma_key_chars_bytes(b);
    if k != "enter"@ && k != "esc"@ {
        let b2 = spec_key(m, k).0.input->0;
        if k == "backspace"@ {
            if b.len() > 0 {
                assert(b2 == b.drop_last());
            }
        } else if k.len() == 1 && input_char_ok(k[0]) && (vstd::utf8::encode_utf8(b).len() as usize) < 32 {
            assert(b2 == b.push(k[0]));
        }
        assert(all_key_chars(b2));
        lemma_key_chars_bytes(b2);
    }
}

/// The preview frame index always names a frame after a tick.
pub proof fn law_tick_stays_in_range(m: SpecModel)
    requires
        m.preview.len() > 0,
        0 <= m.frame,
    ensures
        0 <= spec_tick(m).frame < m.preview.len(),
{
}

} // verus!
