use losker::config::{Config, Crt, HexColor};
use losker::ui::theme::{crt_style, css, token_block, CRT_UNIT};

fn frac(n: u32) -> f64 {
    n as f64 / CRT_UNIT as f64
}

#[test]
fn parse_hex_happy_and_sad() {
    assert_eq!(
        HexColor::parse("#49FF88"),
        Some(HexColor { r: 0x49, g: 0xff, b: 0x88 })
    );
    assert_eq!(HexColor::parse("49ff88"), None);
    assert_eq!(HexColor::parse("#49f"), None);
    assert_eq!(HexColor::parse("#49ff8z"), None);
}

#[test]
fn stock_token_block_is_the_literal_palette() {
    assert_eq!(
        token_block(None),
        "@define-color crt_black #050a07;\n\
         @define-color phos #2bd96b;\n\
         @define-color phos_hi #49ff88;\n\
         @define-color phos_dim #1a8f4c;\n\
         @define-color phos_label #15703f;\n\
         @define-color phos_faint #0f4d2a;\n\
         @define-color deep #11633a;\n"
    );
}

#[test]
fn accent_block_carries_the_accent_and_a_derived_ramp() {
    let c = HexColor { r: 0xff, g: 0xb0, b: 0x00 };
    let block = token_block(Some(c));
    assert!(block.contains("@define-color phos #ffb000;\n"));
    let hi = HexColor::parse(
        block
            .split("@define-color phos_hi ")
            .nth(1)
            .unwrap()
            .split('\n')
            .next()
            .unwrap()
            .trim_end_matches(';'),
    )
    .unwrap();
    assert!(hi.r >= c.r && hi.g >= c.g && hi.b >= c.b);
    let tok = |name: &str| {
        HexColor::parse(
            block
                .split(name)
                .nth(1)
                .unwrap()
                .split([' ', '\n'])
                .next()
                .unwrap()
                .trim_end_matches(';'),
        )
        .unwrap()
    };
    let dim = tok("phos_dim ");
    let label = tok("phos_label ");
    let faint = tok("phos_faint ");
    let deep = tok("deep ");
    for t in [dim, label, faint, deep] {
        assert!(t.r <= c.r && t.g <= c.g && t.b <= c.b);
    }
    assert!(deep.r >= faint.r && deep.g >= faint.g);
    assert!(block.contains("@define-color crt_black #050a07;\n"));
}

#[test]
fn css_ends_with_the_rule_sheet() {
    // the rule sheet is handed in by the shell (it ships as a file)
    let sheet = ".root { background: @crt_black; }\n.banner { color: @phos_hi; }\n";
    assert!(css(&Config::default(), sheet).ends_with(sheet));
    assert!(css(&Config::default(), sheet).starts_with(&token_block(None)));
}

#[test]
fn crt_style_matrix() {
    let d = crt_style(&Config::default());
    assert_eq!((frac(d.scanlines), frac(d.vignette)), (0.22, 0.55));
    assert_eq!((frac(d.bloom.0), frac(d.bloom.1), frac(d.bloom.2)), (0.84, 1.0, 0.90));

    let s = crt_style(&Config { crt: Crt::Subtle, ..Default::default() });
    assert_eq!((frac(s.scanlines), frac(s.vignette)), (0.10, 0.30));

    let o = crt_style(&Config { crt: Crt::Off, ..Default::default() });
    assert_eq!((frac(o.scanlines), frac(o.vignette)), (0.0, 0.0));
}

#[test]
fn accent_recolors_bloom_only() {
    let c = HexColor { r: 0xff, g: 0x00, b: 0x00 };
    let s = crt_style(&Config { accent: Some(c), ..Default::default() });
    assert_eq!((frac(s.bloom.0), frac(s.bloom.1), frac(s.bloom.2)), (1.0, 0.75, 0.75));
    assert_eq!((frac(s.scanlines), frac(s.vignette)), (0.22, 0.55));
}

/// The float formula the ramp stands for: `round(v/255 · f · 255)` and
/// `round((v/255 · 0.7 + 0.3) · 255)`, clamped to a byte.
fn float_scale(v: u8, f: f64) -> u8 {
    ((v as f64 / 255.0 * f) * 255.0).round().clamp(0.0, 255.0) as u8
}

fn float_mix30(v: u8) -> u8 {
    ((v as f64 / 255.0 * (1.0 - 0.30) + 0.30) * 255.0).round().clamp(0.0, 255.0) as u8
}

fn channel(block: &str, name: &str) -> HexColor {
    let line = block
        .lines()
        .find(|l| l.starts_with(&format!("@define-color {name} ")))
        .unwrap();
    HexColor::parse(line.rsplit(' ').next().unwrap().trim_end_matches(';')).unwrap()
}

#[test]
fn integer_ramp_matches_the_float_formula_for_every_channel_value() {
    for v in 0..=255u8 {
        let c = HexColor { r: v, g: v, b: v };
        let b = token_block(Some(c));
        assert_eq!(channel(&b, "phos_hi").r, float_mix30(v), "hi {v}");
        assert_eq!(channel(&b, "phos_dim").r, float_scale(v, 0.65), "dim {v}");
        assert_eq!(channel(&b, "phos_label").r, float_scale(v, 0.53), "label {v}");
        assert_eq!(channel(&b, "phos_faint").r, float_scale(v, 0.36), "faint {v}");
        assert_eq!(channel(&b, "deep").r, float_scale(v, 0.50), "deep {v}");
    }
}

#[test]
fn bloom_is_the_accent_three_quarters_toward_white() {
    let c = HexColor { r: 0, g: 0x33, b: 0xff };
    let s = crt_style(&Config { accent: Some(c), ..Default::default() });
    assert_eq!(s.bloom, (19125, 19125 + 25 * 0x33, 25500));
}
