//! Theme tokens: the phosphor palette as `@define-color` lines, and the
//! CRT overlay levels.
//!
//! The token block is generated here and put in front of the rule sheet
//! (which only references `@token`s): one definition per name, emitted in
//! one place. With no accent the block is exactly the stock palette.

use crate::config::{Config, Crt, HexColor, SpecConfig};
use crate::text::{push_char, push_str};
use vstd::prelude::*;

verus! {

/// A channel moved 30% toward white, rounded to the nearest byte value.
/// Exact halves round up, except for the ten channel values listed, where
/// the binary floating-point evaluation of `v/255·0.7 + 0.3` lands just
/// under the half and rounds down.
pub open spec fn spec_mix30(v: u8) -> u8 {
    if v == 20 || v == 80 || v == 130 || v == 150 || v == 160 || v == 170 || v == 200 || v
        == 220 || v == 240 || v == 250 {
        ((70 * v + 7600) / 100) as u8
    } else {
        ((70 * v + 7700) / 100) as u8
    }
}

/// A channel scaled to `pct` percent, rounded to the nearest byte value
/// (halves up).
pub open spec fn spec_scale(v: u8, pct: u8) -> u8 {
    ((v * pct + 50) / 100) as u8
}

pub open spec fn mix30_color(c: HexColor) -> HexColor {
    HexColor { r: spec_mix30(c.r), g: spec_mix30(c.g), b: spec_mix30(c.b) }
}

pub open spec fn scale_color(c: HexColor, pct: u8) -> HexColor {
    HexColor { r: spec_scale(c.r, pct), g: spec_scale(c.g, pct), b: spec_scale(c.b, pct) }
}

fn mix30(v: u8) -> (r: u8)
    ensures
        r == spec_mix30(v),
{
    let w = v as u32;
    if v == 20 || v == 80 || v == 130 || v == 150 || v == 160 || v == 170 || v == 200 || v == 220
        || v == 240 || v == 250 {
        ((70 * w + 7600) / 100) as u8
    } else {
        ((70 * w + 7700) / 100) as u8
    }
}

fn scale(v: u8, pct: u8) -> (r: u8)
    requires
        pct <= 100,
    ensures
        r == spec_scale(v, pct),
{
    let w = v as u32;
    let p = pct as u32;
    assert(w * p <= 255 * 100) by (nonlinear_arith)
        requires
            w <= 255,
            p <= 100,
    ;
    ((w * p + 50) / 100) as u8
}

/// The six accent-derived tokens: phos, phos_hi, phos_dim, phos_label,
/// phos_faint, deep.
pub open spec fn accent_tokens(c: HexColor) -> Seq<Seq<char>> {
    seq![
        c.spec_to_hex(),
        mix30_color(c).spec_to_hex(),
        scale_color(c, 65).spec_to_hex(),
        scale_color(c, 53).spec_to_hex(),
        scale_color(c, 36).spec_to_hex(),
        scale_color(c, 50).spec_to_hex(),
    ]
}

/// The stock phosphor tokens, in the same order.
pub open spec fn stock_tokens() -> Seq<Seq<char>> {
    seq!["#2bd96b"@, "#49ff88"@, "#1a8f4c"@, "#15703f"@, "#0f4d2a"@, "#11633a"@]
}

/// One `@define-color <name> <value>;` line.
pub open spec fn define_line(name: Seq<char>, value: Seq<char>) -> Seq<char> {
    "@define-color "@ + name + seq![' '] + value + ";\n"@
}

/// The token block for a token list: `crt_black` never changes.
pub open spec fn spec_block(t: Seq<Seq<char>>) -> Seq<char> {
    define_line("crt_black"@, "#050a07"@) + define_line("phos"@, t[0]) + define_line(
        "phos_hi"@,
        t[1],
    ) + define_line("phos_dim"@, t[2]) + define_line("phos_label"@, t[3]) + define_line(
        "phos_faint"@,
        t[4],
    ) + define_line("deep"@, t[5])
}

/// The `@define-color` block for an accent (None = the stock palette).
pub open spec fn spec_token_block(accent: Option<HexColor>) -> Seq<char> {
    match accent {
        None => spec_block(stock_tokens()),
        Some(c) => spec_block(accent_tokens(c)),
    }
}

fn push_define(out: &mut String, name: &str, value: &str)
    ensures
        final(out)@ == old(out)@ + define_line(name@, value@),
{
    push_str(out, "@define-color ");
    push_str(out, name);
    push_char(out, ' ');
    push_str(out, value);
    push_str(out, ";\n");
    assert(final(out)@ =~= old(out)@ + define_line(name@, value@));
}

/// `@define-color` block for the accent (None = stock). With an accent the
/// ramp is derived from it: hi toward white, dim/label/faint/deep scaled
/// toward black. The stock path emits the literal hexes unchanged.
pub fn token_block(accent: Option<HexColor>) -> (r: String)
    ensures
        r@ == spec_token_block(accent),
{
    let mut v: Vec<String> = Vec::new();
    match accent {
        None => {
            v.push("#2bd96b".to_owned());
            v.push("#49ff88".to_owned());
            v.push("#1a8f4c".to_owned());
            v.push("#15703f".to_owned());
            v.push("#0f4d2a".to_owned());
            v.push("#11633a".to_owned());
        },
        Some(c) => {
            v.push(c.to_hex());
            v.push(HexColor { r: mix30(c.r), g: mix30(c.g), b: mix30(c.b) }.to_hex());
            v.push(HexColor { r: scale(c.r, 65), g: scale(c.g, 65), b: scale(c.b, 65) }.to_hex());
            v.push(HexColor { r: scale(c.r, 53), g: scale(c.g, 53), b: scale(c.b, 53) }.to_hex());
            v.push(HexColor { r: scale(c.r, 36), g: scale(c.g, 36), b: scale(c.b, 36) }.to_hex());
            v.push(HexColor { r: scale(c.r, 50), g: scale(c.g, 50), b: scale(c.b, 50) }.to_hex());
        },
    }
    let ghost t = match accent {
        None => stock_tokens(),
        Some(c) => accent_tokens(c),
    };
    assert(v@.len() == 6);
    assert(forall|i: int| 0 <= i < 6 ==> (#[trigger] v@[i])@ == t[i]);
    let mut out = String::new();
    push_define(&mut out, "crt_black", "#050a07");
    push_define(&mut out, "phos", v[0].as_str());
    push_define(&mut out, "phos_hi", v[1].as_str());
    push_define(&mut out, "phos_dim", v[2].as_str());
    push_define(&mut out, "phos_label", v[3].as_str());
    push_define(&mut out, "phos_faint", v[4].as_str());
    push_define(&mut out, "deep", v[5].as_str());
    assert(out@ =~= spec_block(t));
    out
}

/// The full stylesheet: the token block, a newline, then the rule sheet.
pub fn css(cfg: &Config, sheet: &str) -> (r: String)
    ensures
        r@ == spec_token_block(cfg.accent) + seq!['\n'] + sheet@,
{
    let mut out = token_block(cfg.accent);
    push_char(&mut out, '\n');
    push_str(&mut out, sheet);
    out
}

/// The denominator of the CRT style numbers: a value `n` means `n/25500`.
pub const CRT_UNIT: u32 = 25500;

/// CRT overlay numbers, as fractions of [`CRT_UNIT`]: scanline darkness,
/// vignette darkness, and the bloom flash color (r, g, b).
#[derive(Debug, Clone, Copy, PartialEq)]
pub struct CrtStyle {
    pub scanlines: u32,
    pub vignette: u32,
    pub bloom: (u32, u32, u32),
}

/// A channel moved 75% toward white, exactly: `(v/255)·0.25 + 0.75`.
pub open spec fn bloom_channel(v: u8) -> u32 {
    (25 * v + 19125) as u32
}

/// The CRT numbers for a config: `strong` is the stock look (0.22 / 0.55,
/// bloom 0.84/1.0/0.90), `subtle` 0.10 / 0.30, `off` none; an accent
/// recolors the bloom only.
pub open spec fn spec_crt_style(cfg: SpecConfig) -> CrtStyle {
    let (scanlines, vignette) = match cfg.crt {
        Crt::Strong => (5610u32, 14025u32),
        Crt::Subtle => (2550u32, 7650u32),
        Crt::Off => (0u32, 0u32),
    };
    CrtStyle {
        scanlines: scanlines,
        vignette: vignette,
        bloom: match cfg.accent {
            None => (21420u32, 25500u32, 22950u32),
            Some(c) => (bloom_channel(c.r), bloom_channel(c.g), bloom_channel(c.b)),
        },
    }
}

fn bloom_of(v: u8) -> (r: u32)
    ensures
        r == bloom_channel(v),
{
    25 * (v as u32) + 19125
}

/// CRT ambience levels for a config.
pub fn crt_style(cfg: &Config) -> (r: CrtStyle)
    ensures
        r == spec_crt_style(cfg@),
{
    let (scanlines, vignette) = match cfg.crt {
        Crt::Strong => (5610u32, 14025u32),
        Crt::Subtle => (2550u32, 7650u32),
        Crt::Off => (0u32, 0u32),
    };
    let bloom = match cfg.accent {
        None => (21420u32, 25500u32, 22950u32),
        Some(c) => (bloom_of(c.r), bloom_of(c.g), bloom_of(c.b)),
    };
    CrtStyle { scanlines, vignette, bloom }
}

/// The derived ramp keeps its direction: phos_hi is at least as bright as
/// the accent in every channel, and dim, label, faint and deep are at most
/// as bright, deep (50%) being at least as bright as faint (36%).
pub proof fn law_ramp_direction(c: HexColor)
    ensures
        mix30_color(c).r >= c.r && mix30_color(c).g >= c.g && mix30_color(c).b >= c.b,
        scale_color(c, 65).r <= c.r && scale_color(c, 65).g <= c.g && scale_color(c, 65).b
            <= c.b,
        scale_color(c, 53).r <= c.r && scale_color(c, 53).g <= c.g && scale_color(c, 53).b
            <= c.b,
        scale_color(c, 36).r <= c.r && scale_color(c, 36).g <= c.g && scale_color(c, 36).b
            <= c.b,
        scale_color(c, 50).r <= c.r && scale_color(c, 50).g <= c.g && scale_color(c, 50).b
            <= c.b,
        scale_color(c, 50).r >= scale_color(c, 36).r && scale_color(c, 50).g >= scale_color(
            c,
            36,
        ).g && scale_color(c, 50).b >= scale_color(c, 36).b,
{
}

/// The accent's token block, line by line: `crt_black` stays, `phos` is
/// the accent itself, `phos_hi` moves each channel of the accent 30% of
/// the way to white (`v + 0.3·(255 − v)`, to the nearest byte, a tie going
/// either way), and `phos_dim`, `phos_label`, `phos_faint` and `deep` scale
/// each channel of the accent to 65%, 53%, 36% and 50% (to the nearest
/// byte). Each derived channel comes from the same channel of the accent.
pub proof fn law_accent_ramp_per_channel(c: HexColor)
    ensures
        spec_token_block(Some(c)) == define_line("crt_black"@, "#050a07"@) + define_line(
            "phos"@,
            c.spec_to_hex(),
        ) + define_line("phos_hi"@, mix30_color(c).spec_to_hex()) + define_line(
            "phos_dim"@,
            scale_color(c, 65).spec_to_hex(),
        ) + define_line("phos_label"@, scale_color(c, 53).spec_to_hex()) + define_line(
            "phos_faint"@,
            scale_color(c, 36).spec_to_hex(),
        ) + define_line("deep"@, scale_color(c, 50).spec_to_hex()),
        70 * c.r + 7600 <= 100 * mix30_color(c).r <= 70 * c.r + 7700,
        70 * c.g + 7600 <= 100 * mix30_color(c).g <= 70 * c.g + 7700,
        70 * c.b + 7600 <= 100 * mix30_color(c).b <= 70 * c.b + 7700,
        forall|pct: u8|
            #![trigger scale_color(c, pct)]
            pct <= 100 ==> {
                &&& pct * c.r - 50 <= 100 * scale_color(c, pct).r <= pct * c.r + 50
                &&& pct * c.g - 50 <= 100 * scale_color(c, pct).g <= pct * c.g + 50
                &&& pct * c.b - 50 <= 100 * scale_color(c, pct).b <= pct * c.b + 50
            },
{
    lemma_mix30_bounds(c.r);
    lemma_mix30_bounds(c.g);
    lemma_mix30_bounds(c.b);
    let t = accent_tokens(c);
    assert(t[0] == c.spec_to_hex() && t[1] == mix30_color(c).spec_to_hex());
    assert(t[2] == scale_color(c, 65).spec_to_hex() && t[3] == scale_color(c, 53).spec_to_hex());
    assert(t[4] == scale_color(c, 36).spec_to_hex() && t[5] == scale_color(c, 50).spec_to_hex());
    assert forall|pct: u8| pct <= 100 implies {
        &&& pct * c.r - 50 <= 100 * #[trigger] scale_color(c, pct).r <= pct * c.r + 50
        &&& pct * c.g - 50 <= 100 * scale_color(c, pct).g <= pct * c.g + 50
        &&& pct * c.b - 50 <= 100 * scale_color(c, pct).b <= pct * c.b + 50
    } by {
        lemma_scale_bounds(c.r, pct);
        lemma_scale_bounds(c.g, pct);
        lemma_scale_bounds(c.b, pct);
    }
}

proof fn lemma_mix30_bounds(v: u8)
    ensures
        70 * v + 7600 <= 100 * spec_mix30(v) <= 70 * v + 7700,
{
}

proof fn lemma_scale_bounds(v: u8, pct: u8)
    requires
        pct <= 100,
    ensures
        pct * v - 50 <= 100 * spec_scale(v, pct) <= pct * v + 50,
{
    assert(v * pct <= 25500) by (nonlinear_arith)
        requires
            v <= 255,
            pct <= 100,
    ;
    assert(v * pct == pct * v) by (nonlinear_arith);
}

/// The accent recolors the bloom only: the scanline and vignette numbers
/// depend on the CRT level alone.
pub proof fn law_accent_recolors_bloom_only(cfg: SpecConfig, accent: Option<HexColor>)
    ensures
        spec_crt_style(SpecConfig { accent: accent, ..cfg }).scanlines == spec_crt_style(
            cfg,
        ).scanlines,
        spec_crt_style(SpecConfig { accent: accent, ..cfg }).vignette == spec_crt_style(
            cfg,
        ).vignette,
{
}

} // verus!
