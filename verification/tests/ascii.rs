use losker::config::{Logo, LogoRes};
use losker::ui::ascii::{
    art_safe_area, canvas_size, font_px, frames_candidates_in, parse_frames, resolve_logos_dir,
    DEFAULT_FRAME_MS, LEGACY_FRAMES_FILE,
};

#[test]
fn splits_blocks_and_reads_delay_header() {
    let text = "# delay: 50\n AAA \n---\n BBB \n";
    let (frames, delay) = parse_frames(text);
    assert_eq!(frames, vec![" AAA ".to_string(), " BBB ".to_string()]);
    assert_eq!(delay, 50);
}

#[test]
fn frames_candidates_fall_back_to_the_plain_capture() {
    let dir = "/logos";
    let key = Logo::Key("cachyos".into());
    assert_eq!(
        frames_candidates_in(dir, &key, LogoRes::High),
        vec!["/logos/cachyos.txt".to_string()]
    );
    assert_eq!(
        frames_candidates_in(dir, &key, LogoRes::Medium),
        vec!["/logos/cachyos-med.txt".to_string(), "/logos/cachyos.txt".to_string()]
    );
    assert_eq!(
        frames_candidates_in(dir, &key, LogoRes::Low),
        vec!["/logos/cachyos-low.txt".to_string(), "/logos/cachyos.txt".to_string()]
    );
    assert_eq!(
        frames_candidates_in(dir, &Logo::Legacy, LogoRes::Medium),
        vec![
            "/etc/greetd/losker-ascii-med.txt".to_string(),
            "/etc/greetd/losker-ascii.txt".to_string()
        ]
    );
    assert!(frames_candidates_in(dir, &Logo::Hidden, LogoRes::High).is_empty());
    assert_eq!(
        frames_candidates_in(dir, &Logo::Key("../etc".into()), LogoRes::High),
        vec![LEGACY_FRAMES_FILE.to_string()]
    );
}

#[test]
fn logos_dir_env_resolution() {
    assert_eq!(resolve_logos_dir(Some("/tmp/logos")), "/tmp/logos");
    assert_eq!(resolve_logos_dir(Some("")), "/etc/losker/logos");
    assert_eq!(resolve_logos_dir(None), "/etc/losker/logos");
}

#[test]
fn font_px_scales_down_and_never_up() {
    let wide = |cols: usize| vec!["x".repeat(cols)];
    assert_eq!(font_px(&wide(50)), 27);
    assert_eq!(font_px(&wide(60)), 22);
    assert_eq!(font_px(&wide(100)), 13);
    assert_eq!(font_px(&wide(200)), 9);
    assert_eq!(font_px(&wide(30)), 27);
    assert_eq!(font_px(&[]), 27);
    assert_eq!(font_px(&vec!["█".repeat(100)]), 13);
}

#[test]
fn no_header_means_default_delay() {
    let (frames, delay) = parse_frames("only\n");
    assert_eq!(frames, vec!["only".to_string()]);
    assert_eq!(delay, DEFAULT_FRAME_MS);
}

#[test]
fn shading_hash_lines_are_art_not_headers() {
    let (frames, _) = parse_frames("#$@!\n~~\n");
    assert_eq!(frames, vec!["#$@!\n~~".to_string()]);
}

#[test]
fn blank_blocks_are_dropped() {
    let text = "A\n---\n\n \n---\nB\n";
    let (frames, _) = parse_frames(text);
    assert_eq!(frames, vec!["A".to_string(), "B".to_string()]);
}

#[test]
fn delay_is_clamped_to_sane_bounds() {
    let (_, d0) = parse_frames("# delay: 1\nx\n");
    let (_, d1) = parse_frames("# delay: 9999\nx\n");
    assert_eq!((d0, d1), (16, 1000));
}

#[test]
fn unparsable_delay_keeps_the_cadence_and_later_headers_win() {
    assert_eq!(parse_frames("# delay: fast\nx\n").1, 100);
    assert_eq!(parse_frames("# delay: +40\nx\n").1, 40);
    assert_eq!(parse_frames("# delay: 40\nx\n# delay: 70\n").1, 70);
    // a u64 overflow does not parse
    assert_eq!(parse_frames("# delay: 99999999999999999999\nx\n").1, 100);
}

#[test]
fn separator_may_be_padded_and_crlf_lines_are_split() {
    let (frames, _) = parse_frames("A\r\n  ---  \r\nB\r\nC");
    assert_eq!(frames, vec!["A".to_string(), "B\nC".to_string()]);
}

#[test]
fn canvas_counts_columns_and_rows() {
    let frames = vec!["ab\nabcd\n".to_string(), "x\ny\nz".to_string()];
    assert_eq!(canvas_size(&frames), (4, 3));
    assert_eq!(canvas_size(&[]), (0, 0));
    // lines that are all empty: a zero-width canvas keeps the reference size
    assert_eq!(font_px(&vec!["\n".to_string()]), 27);
}

#[test]
fn safe_area_keeps_the_bands_clear_with_a_floor() {
    assert_eq!(art_safe_area((1920, 1080)), (1920 - 528, 1080 - 122));
    assert_eq!(art_safe_area((600, 300)), (240, 240));
}

#[test]
fn key_joins_onto_a_trailing_slash_dir_and_an_empty_dir() {
    let key = Logo::Key("arch".into());
    assert_eq!(frames_candidates_in("/logos/", &key, LogoRes::High), vec!["/logos/arch.txt".to_string()]);
    assert_eq!(frames_candidates_in("", &key, LogoRes::High), vec!["arch.txt".to_string()]);
}
