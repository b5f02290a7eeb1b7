use losker::ui::osk::{
    keycap_style, CapFace, CapFont, CapLegend, KeyKind, layout_rows, shift_led, tab_glyph, DeckState, KeyAction, KeyDef, LedState, OskEvent, ENTER_W,
    GAP, KEY_H, KEY_W, SPACE_W,
};

fn right_edge(rows: &[Vec<KeyDef>]) -> f64 {
    rows.iter().flatten().map(|k| (k.x + k.w) as f64).fold(0.0_f64, f64::max)
}

#[test]
fn layout_is_bounded() {
    for sym in [false, true] {
        let (rows, (tw, th)) = layout_rows(sym);
        let (tw, th) = (tw as f64, th as f64);
        assert_eq!(rows.len(), 5);
        assert!(tw > 0.0 && th > 0.0);
        for row in &rows {
            for k in row {
                assert!(k.x as f64 >= -0.01, "key left of deck: {}", k.x);
                assert!((k.x + k.w) as f64 <= tw + 0.01, "key past right edge");
                assert!((k.y + KEY_H) as f64 <= th + 0.01);
            }
        }
    }
}

#[test]
fn rows_cascade_in_the_typewriter_stagger() {
    let (rows, _) = layout_rows(false);
    assert!(rows[1][0].x > rows[0][0].x, "Q must sit right of the number row");
    assert!(rows[2][0].x > rows[1][0].x, "A must sit right of Q — never under it");
    assert!(rows[3][1].x > rows[2][0].x, "Z must sit right of A");
    assert_eq!(rows[3][0].x, rows[0][0].x, "SHIFT belongs on the left rail");
}

#[test]
fn action_keys_anchor_the_classic_edges() {
    let (rows, _) = layout_rows(false);
    assert_eq!(rows[0].last().unwrap().action, KeyAction::Backspace);
    assert_eq!(rows[2].last().unwrap().label, "↵");
    assert_eq!(rows[2].last().unwrap().action, KeyAction::Enter);
    let right = right_edge(&rows);
    for k in [rows[0].last().unwrap(), rows[2].last().unwrap()] {
        assert!(((k.x + k.w) as f64 - right).abs() < 0.01, "{} not flush right", k.label);
        assert_eq!(k.w, ENTER_W, "{} must be ↵-wide", k.label);
    }
}

#[test]
fn layer_key_under_shift_and_space_centered() {
    let (rows, _) = layout_rows(false);
    assert_eq!(rows[3][0].label, "SHIFT");
    let bottom = &rows[4];
    assert_eq!(bottom[0].x, rows[3][0].x, "layer key belongs under SHIFT");
    assert_eq!(bottom[0].label, "?123");
    let (sym, _) = layout_rows(true);
    assert_eq!(sym[4][0].label, "ABC");
    let right = right_edge(&rows);
    let space = bottom.last().unwrap();
    let air_left = space.x as f64 - (bottom[0].x + bottom[0].w + GAP) as f64;
    let air_right = right - (space.x + space.w) as f64;
    assert!(
        (air_left - air_right).abs() < 0.01,
        "space not centered: {air_left} vs {air_right}"
    );
    assert_eq!(space.w, SPACE_W);
}

#[test]
fn shift_stays_wide_but_pulls_z_into_the_as_gap() {
    let (rows, _) = layout_rows(false);
    assert!(rows[3][0].w >= 72, "SHIFT too narrow: {}", rows[3][0].w);
    let (a, s, z) = (rows[2][0].x, rows[2][1].x, rows[3][1].x);
    assert!(z > a, "Z must sit right of A");
    assert!(z < s, "Z must not reach under S");
    assert!(z - a < KEY_W, "Z drifted a full key from A");
}

#[test]
fn shift_led_reads_the_latch_state() {
    assert_eq!(shift_led(false, false), LedState::Off);
    assert_eq!(shift_led(true, false), LedState::Once);
    assert_eq!(shift_led(false, true), LedState::Latched);
    assert_eq!(shift_led(true, true), LedState::Latched);
}

#[test]
fn symbols_layer_covers_every_ascii_special() {
    let (base, _) = layout_rows(false);
    let (sym, _) = layout_rows(true);
    // same shape as the letter rows, or the geometry drifts
    for r in 0..5 {
        assert_eq!(sym[r].len(), base[r].len());
    }
    let chars = |rows: &Vec<Vec<KeyDef>>| -> Vec<char> {
        rows.iter()
            .flatten()
            .filter_map(|k| match k.action {
                KeyAction::Char(c) if c != ' ' => Some(c),
                _ => None,
            })
            .collect()
    };
    let symc = chars(&sym);
    for c in &symc {
        assert!(c.is_ascii(), "non-ASCII {c} on the symbols layer");
    }
    let base_specials = ",./;";
    let ascii_specials = "!\"#$%&'()*+,-./:;<=>?@[\\]^_`{|}~";
    for c in ascii_specials.chars() {
        if base_specials.contains(c) {
            continue;
        }
        assert!(symc.contains(&c), "'{c}' unreachable on the symbols layer");
    }
}

#[test]
fn shift_legend_is_uppercase_but_action_emits_lowercase() {
    let (rows, _) = layout_rows(false);
    let q = &rows[1][0];
    assert_eq!(q.label, "Q");
    assert_eq!(q.action, KeyAction::Char('q'));
}

#[test]
fn tab_points_up_when_stowed_and_down_when_raised() {
    assert_eq!(tab_glyph(false), "▲");
    assert_eq!(tab_glyph(true), "▼");
}

#[test]
fn shift_taps_go_one_shot_latch_release() {
    let mut st = DeckState::new();
    assert_eq!(st.apply(KeyAction::ToggleShift), (None, false));
    assert!(st.shifted && !st.shift_latched);
    st.apply(KeyAction::ToggleShift);
    assert!(!st.shifted && st.shift_latched);
    st.apply(KeyAction::ToggleShift);
    assert_eq!(st, DeckState::new());
}

#[test]
fn one_shot_uppercases_one_char_and_the_latch_sticks() {
    let mut st = DeckState::new();
    st.apply(KeyAction::ToggleShift);
    assert_eq!(st.apply(KeyAction::Char('q')), (Some(OskEvent::Char('Q')), false));
    assert_eq!(st.apply(KeyAction::Char('q')), (Some(OskEvent::Char('q')), false));
    st.apply(KeyAction::ToggleShift);
    st.apply(KeyAction::ToggleShift);
    assert_eq!(st.apply(KeyAction::Char('a')).0, Some(OskEvent::Char('A')));
    assert_eq!(st.apply(KeyAction::Char('b')).0, Some(OskEvent::Char('B')));
    assert_eq!(st.apply(KeyAction::Char('1')).0, Some(OskEvent::Char('1')));
    assert!(st.shift_latched);
}

#[test]
fn non_ascii_uppercase_follows_unicode() {
    let mut st = DeckState { shifted: true, shift_latched: false, sym_layer: false };
    assert_eq!(st.apply(KeyAction::Char('é')).0, Some(OskEvent::Char('É')));
}

#[test]
fn layer_key_switches_and_asks_for_a_rebuild() {
    let mut st = DeckState::new();
    let (rows, _) = layout_rows(false);
    assert_eq!(st.press(&rows, 4, 0), (None, true));
    assert!(st.sym_layer);
    assert_eq!(st.press(&rows, 0, 10), (Some(OskEvent::Backspace), false));
    assert_eq!(st.press(&rows, 2, 10), (Some(OskEvent::Enter), false));
    assert_eq!(st.press(&rows, 4, 1), (Some(OskEvent::Char(' ')), false));
    // outside the layout: nothing
    assert_eq!(st.press(&rows, 9, 0), (None, false));
    assert_eq!(st.press(&rows, 1, 10), (None, false));
}

#[test]
fn deck_size_is_the_widest_row_plus_padding() {
    assert_eq!(layout_rows(false).1, (916, 354));
    assert_eq!(layout_rows(true).1, (916, 354));
}

#[test]
fn keycap_style_follows_state_then_kind() {
    let a = KeyAction::Char('a');
    assert_eq!(
        keycap_style(false, false, KeyKind::Normal, a),
        (CapFace::Cap, CapLegend::Bright, CapFont::CharBold)
    );
    assert_eq!(
        keycap_style(true, true, KeyKind::Normal, a),
        (CapFace::Pressed, CapLegend::Pressed, CapFont::CharBold)
    );
    assert_eq!(
        keycap_style(false, true, KeyKind::Modifier, KeyAction::ToggleShift),
        (CapFace::Latched, CapLegend::Latched, CapFont::ModSmall)
    );
    assert_eq!(
        keycap_style(false, false, KeyKind::Modifier, KeyAction::Enter),
        (CapFace::Mod, CapLegend::Bright, CapFont::EnterGlyph)
    );
    assert_eq!(
        keycap_style(false, false, KeyKind::Space, KeyAction::Char(' ')),
        (CapFace::Mod, CapLegend::Dim, CapFont::ModSmall)
    );
}
