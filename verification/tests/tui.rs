use losker::config::{Config, Crt, HexColor, Logo, LogoRes, LogoSize};
use losker::tui::state::{accent_preset, Action, Focus, Model};
use losker::tui::{
    accent_text, crt_text, genart_args, generation_report, key_name, last_line_or, logo_name,
    preview_meta, refresh_logos, reload_preview, save_report, scan_logos, size_text, tier_order,
    GenMsg, PreviewSource, SaveResult, TermKey,
};

fn model() -> Model {
    Model::new(
        Config::default(),
        vec![
            Logo::Legacy,
            Logo::Hidden,
            Logo::Key("arch".into()),
            Logo::Key("cachyos".into()),
        ],
        "/tmp/cfg.toml".to_string(),
        "/tmp/logos".to_string(),
        Some((1920, 1080)),
    )
}

fn logo_key(m: &Model) -> String {
    match m.current_logo() {
        Logo::Key(k) => k.clone(),
        Logo::Legacy => "legacy".into(),
        Logo::Hidden => "none".into(),
    }
}

#[test]
fn focus_wraps_both_directions() {
    let mut m = model();
    assert_eq!(m.focus, Focus::Osk);
    for expected in [
        Focus::Logo,
        Focus::Res,
        Focus::Size,
        Focus::Accent,
        Focus::Crt,
        Focus::Osk,
    ] {
        m.key("down");
        assert_eq!(m.focus, expected);
    }
    m.key("up");
    assert_eq!(m.focus, Focus::Crt);
}

#[test]
fn logo_res_cycles_and_marks_preview_stale() {
    let mut m = model();
    m.key("down");
    m.key("down");
    assert_eq!(m.cfg.logo_res, LogoRes::High);
    m.key("l");
    assert_eq!(m.cfg.logo_res, LogoRes::Medium);
    m.key("l");
    assert_eq!(m.cfg.logo_res, LogoRes::Low);
    m.key("l");
    assert_eq!(m.cfg.logo_res, LogoRes::High);
    m.key("h");
    assert_eq!(m.cfg.logo_res, LogoRes::Low);
    assert!(m.dirty);
    assert!(m.preview_stale);
}

#[test]
fn logo_size_cycles() {
    let mut m = model();
    m.key("down");
    m.key("down");
    m.key("down");
    assert_eq!(m.cfg.logo_size, LogoSize::Large);
    m.key("l");
    assert_eq!(m.cfg.logo_size, LogoSize::Medium);
    m.key("l");
    assert_eq!(m.cfg.logo_size, LogoSize::Small);
    m.key("l");
    assert_eq!(m.cfg.logo_size, LogoSize::Large);
    assert!(m.dirty);
    assert!(m.preview_stale);
}

#[test]
fn osk_toggles_and_sets_dirty() {
    let mut m = model();
    assert!(m.cfg.osk);
    m.key("enter");
    assert!(!m.cfg.osk);
    assert!(m.dirty);
    m.key("left");
    assert!(m.cfg.osk);
}

#[test]
fn logo_cycles_through_all_variants() {
    let mut m = model();
    m.key("down");
    let order = ["legacy", "none", "arch", "cachyos", "legacy"];
    for expected in order {
        assert_eq!(logo_key(&m), expected);
        assert!(m.key("l").is_empty());
    }
    m.key("h");
    m.key("h");
    assert_eq!(logo_key(&m), "cachyos");
    assert!(m.dirty);
    assert!(m.preview_stale);
}

#[test]
fn crt_and_accent_cycle() {
    let mut m = model();
    for _ in 0..5 {
        m.key("down");
    }
    assert_eq!(m.cfg.crt, Crt::Strong);
    m.key(" ");
    assert_eq!(m.cfg.crt, Crt::Subtle);
    m.key(" ");
    assert_eq!(m.cfg.crt, Crt::Off);
    m.key(" ");
    assert_eq!(m.cfg.crt, Crt::Strong);

    m.key("up");
    assert_eq!(m.cfg.accent, None);
    m.key("right");
    assert_eq!(m.cfg.accent, accent_preset(1));
    m.key("left");
    m.key("left");
    assert_eq!(m.cfg.accent, accent_preset(4));
}

#[test]
fn save_and_quit_actions() {
    let mut m = model();
    assert_eq!(m.key("s"), vec![Action::Save]);
    assert_eq!(m.key("q"), vec![Action::Quit]);
    assert_eq!(m.key("esc"), vec![Action::Quit]);
}

#[test]
fn custom_logo_input_flow() {
    let mut m = model();
    m.key("g");
    assert!(m.input.is_some());
    for k in ["v", "o", "i", "d"] {
        m.key(k);
    }
    assert_eq!(m.input.as_deref(), Some("void"));
    m.key("backspace");
    assert_eq!(m.input.as_deref(), Some("voi"));
    m.key("d");
    let actions = m.key("enter");
    assert_eq!(
        actions,
        vec![Action::Generate {
            key: "void".into(),
            out: "/tmp/logos/void.txt".to_string(),
            res: LogoRes::High,
        }]
    );
    assert_eq!(logo_key(&m), "void");
    assert_eq!(m.cfg.logo, Logo::Key("void".into()));
    assert!(m.dirty);
}

#[test]
fn generate_writes_the_selected_tier_and_passes_its_size() {
    let mut m = model();
    m.key("down");
    m.key("down");
    m.key("l");
    m.key("g");
    for k in ["v", "o", "i", "d"] {
        m.key(k);
    }
    let actions = m.key("enter");
    assert_eq!(
        actions,
        vec![Action::Generate {
            key: "void".into(),
            out: "/tmp/logos/void-med.txt".to_string(),
            res: LogoRes::Medium,
        }]
    );
}

#[test]
fn input_mode_rejects_bad_keys_and_cancels() {
    let mut m = model();
    m.key("g");
    m.key("/");
    m.key("x");
    m.key("1");
    assert_eq!(m.input.as_deref(), Some("x1"));
    let actions = m.key("enter");
    assert_eq!(
        actions,
        vec![Action::Generate {
            key: "x1".into(),
            out: "/tmp/logos/x1.txt".to_string(),
            res: LogoRes::High,
        }]
    );
    m.key("g");
    m.key("a");
    assert_eq!(m.key("esc"), vec![]);
    assert!(m.input.is_none());
    assert_eq!(logo_key(&m), "x1");
}

#[test]
fn tick_wraps_preview_frames() {
    let mut m = model();
    m.set_preview(vec!["a".into(), "b".into()], 50);
    assert_eq!(m.frame, 0);
    m.tick();
    assert_eq!(m.frame, 1);
    m.tick();
    assert_eq!(m.frame, 0);
}

#[test]
fn scan_keeps_logo_stems_sorted_once() {
    let names: Vec<String> = [
        "nixos.txt", "arch.txt", "arch-med.txt", "arch-low.txt", "nixos.txt.bak", ".hidden",
        "bad key.txt", "void", "arch.png",
    ]
    .iter()
    .map(|s| s.to_string())
    .collect();
    let logos = scan_logos(&names);
    // only *.txt files count: README.md, nixos.txt.bak, void and arch.png do not
    assert_eq!(
        logos,
        vec![
            Logo::Legacy,
            Logo::Hidden,
            Logo::Key("arch".into()),
            Logo::Key("nixos".into()),
        ]
    );
    let more: Vec<String> = ["README.md", ".txt", "x.TXT", "y.txt"].iter().map(|s| s.to_string()).collect();
    assert_eq!(scan_logos(&more), vec![Logo::Legacy, Logo::Hidden, Logo::Key("y".into())]);
    assert_eq!(scan_logos(&vec![]), vec![Logo::Legacy, Logo::Hidden]);
}

#[test]
fn preview_tier_order_starts_with_the_configured_tier() {
    assert_eq!(tier_order(LogoRes::High), vec![LogoRes::High, LogoRes::Medium, LogoRes::Low]);
    assert_eq!(tier_order(LogoRes::Medium), vec![LogoRes::Medium, LogoRes::High, LogoRes::Low]);
    assert_eq!(tier_order(LogoRes::Low), vec![LogoRes::Low, LogoRes::High, LogoRes::Medium]);
}

fn src(tier: LogoRes, width: usize) -> PreviewSource {
    PreviewSource { tier, frames: vec!["x".repeat(width)], ms: 60 }
}

#[test]
fn preview_prefers_the_configured_tier_when_it_fits() {
    let mut m = model();
    reload_preview(&mut m, vec![src(LogoRes::High, 40), src(LogoRes::Medium, 20)], 50);
    assert_eq!(m.preview, vec!["x".repeat(40)]);
    assert_eq!(m.preview_tier, LogoRes::High);
    assert_eq!(m.preview_note, None);
    assert!(!m.preview_stale);
}

#[test]
fn preview_falls_back_to_a_narrower_tier_with_a_note() {
    let mut m = model();
    reload_preview(&mut m, vec![src(LogoRes::High, 90), src(LogoRes::Medium, 40)], 50);
    assert_eq!(m.preview_tier, LogoRes::Medium);
    assert_eq!(m.preview_note.as_deref(), Some("pane too narrow for high — showing medium"));
}

#[test]
fn preview_clips_the_last_tried_when_nothing_fits() {
    let mut m = model();
    reload_preview(&mut m, vec![src(LogoRes::High, 90), src(LogoRes::Low, 70)], 50);
    assert_eq!(m.preview_tier, LogoRes::Low);
    assert_eq!(m.preview_note.as_deref(), Some("pane too narrow — high clipped"));
    let mut m = model();
    reload_preview(&mut m, vec![], 50);
    assert!(m.preview.is_empty());
    assert_eq!(m.preview_ms, 100);
    assert_eq!(m.preview_tier, LogoRes::High);
    assert_eq!(m.preview_note, None);
}

#[test]
fn rescans_reselect_the_configured_logo() {
    let mut m = model();
    m.cfg.logo = Logo::Key("void".into());
    refresh_logos(&mut m, vec![Logo::Legacy, Logo::Hidden, Logo::Key("void".into())]);
    assert_eq!(m.logo_pos, 2);
    assert!(m.preview_stale);
    generation_report(&mut m, GenMsg::Failed("void".into(), "boom".into()), vec![]);
    assert_eq!(m.status, "generation failed for void: boom");
    generation_report(
        &mut m,
        GenMsg::Done("void".into(), "ok".into()),
        vec![Logo::Legacy, Logo::Hidden, Logo::Key("a".into()), Logo::Key("void".into())],
    );
    assert_eq!(m.status, "generated void — ok");
    assert_eq!(m.logo_pos, 3);
    generation_report(&mut m, GenMsg::Missing, vec![]);
    assert!(m.status.starts_with("losker-genart not found"));
}

#[test]
fn save_reports_name_the_path() {
    let mut m = model();
    m.key("enter");
    assert!(m.dirty);
    save_report(&mut m, SaveResult::PermissionDenied);
    assert_eq!(m.status, "cannot write /tmp/cfg.toml — try: sudo losker --config");
    assert!(m.dirty);
    save_report(&mut m, SaveResult::Failed("disk full".into()));
    assert_eq!(m.status, "save failed: disk full");
    save_report(&mut m, SaveResult::Saved);
    assert_eq!(m.status, "saved /tmp/cfg.toml (applies at next greeter/lock start)");
    assert!(!m.dirty);
}

#[test]
fn generator_command_and_note() {
    assert_eq!(
        genart_args("void", LogoRes::Low, "/tmp/logos/void-low.txt"),
        vec!["--logo", "void", "--size", "0.5", "--out", "/tmp/logos/void-low.txt"]
    );
    assert_eq!(last_line_or("a\nwrote 19 rows\n", "done"), "wrote 19 rows");
    assert_eq!(last_line_or("", "done"), "done");
}

#[test]
fn view_texts() {
    assert_eq!(logo_name(&Logo::Legacy), "arch (legacy)");
    assert_eq!(logo_name(&Logo::Hidden), "none");
    assert_eq!(logo_name(&Logo::Key("void".into())), "void");
    assert_eq!(size_text(LogoSize::Medium, Some((1200, 640))), "medium · ~1200×640 px");
    assert_eq!(size_text(LogoSize::Small, None), "small · ~40% of the screen box");
    assert_eq!(accent_text(None), " stock phosphor");
    assert_eq!(accent_text(Some(HexColor { r: 1, g: 2, b: 3 })), " #010203");
    assert_eq!(crt_text(Crt::Subtle), "subtle");
    let mut m = model();
    m.set_preview(vec!["a".into(), "b".into(), "c".into()], 80);
    assert_eq!(preview_meta(&m), "3 frames · 80 ms/frame · arch (legacy) · high res");
    m.preview_note = Some("clipped".into());
    assert!(preview_meta(&m).ends_with(" — clipped"));
}

#[test]
fn terminal_keys_get_model_names() {
    assert_eq!(key_name(TermKey::Up), "up");
    assert_eq!(key_name(TermKey::Backspace), "backspace");
    assert_eq!(key_name(TermKey::Char(' ')), " ");
    assert_eq!(key_name(TermKey::Char('q')), "q");
    assert_eq!(key_name(TermKey::Other), "");
}

#[test]
fn left_then_right_restores_every_row_but_osk() {
    let mut m = model();
    // move the logo to a key and pick a non-default accent first
    m.key("down");
    m.key("right");
    m.key("right");
    for _ in 0..3 {
        m.key("down");
    }
    m.key("right");
    m.key("up");
    m.key("up");
    m.key("up");
    assert_eq!(m.focus, Focus::Logo);
    for row in [
        Focus::Logo,
        Focus::Res,
        Focus::Size,
        Focus::Accent,
        Focus::Crt,
    ] {
        assert_eq!(m.focus, row);
        for (first, second) in [("left", "right"), ("right", "left"), ("h", "l")] {
            let cfg = m.cfg.clone();
            let (pos, acc) = (m.logo_pos, m.accent_idx);
            assert_eq!(m.key(first), vec![]);
            assert_ne!(m.cfg, cfg);
            assert_eq!(m.key(second), vec![]);
            assert_eq!(m.cfg, cfg);
            assert_eq!(m.focus, row);
            assert_eq!((m.logo_pos, m.accent_idx), (pos, acc));
        }
        m.key("down");
    }
    // the osk row is not an inverse pair: left sets on, right sets off
    assert_eq!(m.focus, Focus::Osk);
    m.key("right");
    assert!(!m.cfg.osk);
    m.key("right");
    m.key("left");
    assert!(m.cfg.osk);
}

#[test]
fn logo_row_wraps_back_at_both_ends() {
    let mut m = model();
    m.key("down");
    assert_eq!(m.logo_pos, 0);
    m.key("left");
    assert_eq!(m.logo_pos, 3);
    assert_eq!(logo_key(&m), "cachyos");
    m.key("right");
    assert_eq!(m.logo_pos, 0);
    assert_eq!(m.cfg.logo, Logo::Legacy);
}

#[test]
fn input_buffer_stays_a_key_of_at_most_32() {
    let mut m = model();
    let before = m.cfg.clone();
    m.key("g");
    for _ in 0..40 {
        assert_eq!(m.key("a"), vec![]);
    }
    assert_eq!(m.input.as_deref().map(str::len), Some(32));
    for k in ["q", "s", "up", "down", "left", "right", " ", "/", "é", "ab", "backspace"] {
        assert_eq!(m.key(k), vec![]);
        let buf = m.input.clone().expect("input stays open");
        assert!(buf.len() <= 32);
        assert!(buf
            .chars()
            .all(|c| c.is_ascii_alphanumeric() || c == '.' || c == '_' || c == '-'));
        assert_eq!(m.cfg, before);
        assert_eq!(m.focus, Focus::Osk);
    }
    assert_eq!(m.input.as_deref().map(str::len), Some(31));
    assert_eq!(m.key("esc"), vec![]);
    assert!(m.input.is_none());
    assert_eq!(m.cfg, before);
}
