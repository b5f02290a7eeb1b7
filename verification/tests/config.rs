use losker::config::{
    ConfigError, parse_config, render_config, resolve_path, valid_logo_key, Config, Crt, HexColor, Logo,
    LogoRes, LogoSize,
};

#[test]
fn parses_all_keys() {
    let cfg = parse_config(
        "# comment line\nosk = disabled\nlogo = cachyos\nlogo_res = low\naccent = #FFB000\ncrt = off\n",
    );
    assert!(!cfg.osk);
    assert_eq!(cfg.logo, Logo::Key("cachyos".into()));
    assert_eq!(cfg.logo_res, LogoRes::Low);
    assert_eq!(cfg.accent, Some(HexColor { r: 0xff, g: 0xb0, b: 0x00 }));
    assert_eq!(cfg.crt, Crt::Off);
}

#[test]
fn logo_res_tiers_parse_and_name_roundtrip() {
    for r in [LogoRes::High, LogoRes::Medium, LogoRes::Low] {
        assert_eq!(LogoRes::parse(r.name()), Some(r));
    }
    assert_eq!(LogoRes::parse("ultra"), None);
    assert_eq!(LogoRes::parse("HIGH"), None);
}

#[test]
fn logo_sizes_parse_factor_and_roundtrip() {
    for s in [LogoSize::Large, LogoSize::Medium, LogoSize::Small] {
        assert_eq!(LogoSize::parse(s.name()), Some(s));
    }
    assert_eq!(LogoSize::parse("huge"), None);
    let factor = |s: LogoSize| s.percent() as f64 / 100.0;
    assert!(factor(LogoSize::Large) > factor(LogoSize::Medium));
    assert!(factor(LogoSize::Medium) > factor(LogoSize::Small));
}

#[test]
fn keywords_none_and_legacy_map_to_logo_variants() {
    assert_eq!(parse_config("logo = none\n").logo, Logo::Hidden);
    assert_eq!(parse_config("logo = legacy\n").logo, Logo::Legacy);
}

#[test]
fn bad_values_fall_back_to_defaults() {
    let cfg = parse_config(
        "osk = maybe\naccent = ff0000\ncrt = loud\nlogo = ../etc/passwd\nlogo_res = ultra\n",
    );
    assert_eq!(cfg, Config::default());
}

#[test]
fn unknown_keys_and_inline_comments_are_ignored() {
    let cfg = parse_config("future = thing\nosk = disabled # trust me\n");
    assert!(!cfg.osk);
    assert_eq!(cfg.logo, Logo::Legacy);
}

#[test]
fn accent_survives_its_hash_prefix() {
    assert_eq!(
        parse_config("accent = #49ff88\n").accent,
        Some(HexColor { r: 0x49, g: 0xff, b: 0x88 })
    );
}

#[test]
fn roundtrip_all_non_default() {
    let cfg = Config {
        osk: false,
        logo: Logo::Key("nixos".into()),
        logo_res: LogoRes::Low,
        logo_size: LogoSize::Small,
        accent: Some(HexColor { r: 0x7f, g: 0xd7, b: 0xff }),
        crt: Crt::Subtle,
    };
    let saved = render_config(&cfg).unwrap();
    assert_eq!(parse_config(&saved), cfg);
    assert!(saved.contains("logo_res = low"), "saved: {saved}");
    assert!(saved.contains("logo_size = small"), "saved: {saved}");
}

#[test]
fn default_config_saves_as_empty_file() {
    assert_eq!(render_config(&Config::default()), Ok(String::new()));
}

#[test]
fn resolve_path_prefers_nonempty_env() {
    assert_eq!(resolve_path(Some("/tmp/x.toml")), "/tmp/x.toml");
    assert_eq!(resolve_path(Some("   ")), "/etc/losker/config.toml");
    assert_eq!(resolve_path(None), "/etc/losker/config.toml");
}

#[test]
fn logo_keys_are_boring_file_names() {
    assert!(valid_logo_key("arch"));
    assert!(valid_logo_key("CachyOS"));
    assert!(valid_logo_key("manjaro-old"));
    assert!(!valid_logo_key(""));
    assert!(!valid_logo_key("../etc"));
    assert!(!valid_logo_key(".hidden"));
    assert!(!valid_logo_key("a/b"));
    assert!(!valid_logo_key(&"x".repeat(33)));
}

#[test]
fn saved_config_parses_back_to_itself() {
    // law: what a save writes, a load reads back (safe keys)
    for cfg in [
        Config::default(),
        Config { logo: Logo::Hidden, ..Config::default() },
        Config { logo: Logo::Key("arch".into()), crt: Crt::Off, ..Config::default() },
        Config { accent: Some(HexColor { r: 0, g: 0, b: 0 }), logo_size: LogoSize::Medium, ..Config::default() },
    ] {
        assert_eq!(parse_config(&render_config(&cfg).unwrap()), cfg);
    }
}

#[test]
fn keys_that_would_not_read_back_are_refused() {
    for k in ["none", "legacy", "../etc", ".hidden", ""] {
        let cfg = Config { logo: Logo::Key(k.into()), ..Config::default() };
        assert_eq!(render_config(&cfg), Err(ConfigError::UnwritableLogoKey(k.into())));
    }
    let ok = Config { logo: Logo::Key("nonex".into()), ..Config::default() };
    assert_eq!(render_config(&ok), Ok("logo = nonex\n".to_string()));
}

#[test]
fn hex_colors_print_lowercase_and_parse_back() {
    let c = HexColor { r: 0xab, g: 0x01, b: 0xff };
    assert_eq!(c.to_hex(), "#ab01ff");
    assert_eq!(HexColor::parse(&c.to_hex()), Some(c));
    assert_eq!(HexColor::parse("#AB01FF"), Some(c));
}

#[test]
fn tier_suffixes_and_capture_sizes() {
    assert_eq!(LogoRes::High.suffix(), "");
    assert_eq!(LogoRes::Medium.suffix(), "-med");
    assert_eq!(LogoRes::Low.suffix(), "-low");
    assert_eq!(LogoRes::High.capture_size(), "2");
    assert_eq!(LogoRes::Medium.capture_size(), "1");
    assert_eq!(LogoRes::Low.capture_size(), "0.5");
    assert_eq!(
        [LogoSize::Large.percent(), LogoSize::Medium.percent(), LogoSize::Small.percent()],
        [100, 65, 40]
    );
}
