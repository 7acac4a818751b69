use sysview::visual::glyph::{bitmap, layout, renderable, to_half_blocks, GLYPH_H, GLYPH_W};

#[test]
fn every_glyph_is_exactly_five_by_seven() {
    for c in ('A'..='Z').chain('0'..='9') {
        let g = bitmap(c).unwrap_or_else(|| panic!("{c} has no glyph"));
        assert_eq!(g.len(), GLYPH_H, "{c}: wrong number of rows");
        for (i, row) in g.iter().enumerate() {
            assert_eq!(row.chars().count(), GLYPH_W, "{c} row {i}: wrong number of columns");
            assert!(row.chars().all(|ch| ch == '#' || ch == ' '), "{c} row {i}: stray character in {row:?}");
        }
    }
}

#[test]
fn all_thirty_six_glyphs_exist() {
    let n = ('A'..='Z').chain('0'..='9').filter(|c| bitmap(*c).is_some()).count();
    assert_eq!(n, 36);
}

#[test]
fn every_glyph_has_ink() {
    for c in ('A'..='Z').chain('0'..='9') {
        let g = bitmap(c).unwrap();
        assert!(g.iter().any(|r| r.contains('#')), "{c} is blank");
    }
}

#[test]
fn easily_confused_pairs_are_actually_different() {
    for (a, b) in [('O', '0'), ('I', '1'), ('S', '5'), ('B', '8'), ('Z', '2')] {
        assert_ne!(bitmap(a).unwrap(), bitmap(b).unwrap(), "{a} and {b} look the same");
    }
}

#[test]
fn unsupported_characters_are_reported_not_silently_blanked() {
    for c in ['-', '_', '中', '\n', '\0'] {
        assert!(bitmap(c).is_none(), "{c:?} should have no glyph");
    }
    assert!(!renderable("CTW-LAB"));
    assert!(!renderable(""));
    assert!(renderable("DEVLAB"));
    assert!(renderable("SYSVIEW01"));
}

#[test]
fn lower_case_letters_use_the_capital_glyphs() {
    assert_eq!(bitmap('a'), bitmap('A'));
    assert!(renderable("devlab"));
}

#[test]
fn layout_produces_seven_rows_of_equal_width() {
    let rows = layout("AB", 1).expect("drawable");
    assert_eq!(rows.len(), GLYPH_H);
    let w = GLYPH_W * 2 + 1;
    for r in &rows {
        assert_eq!(r.chars().count(), w, "{r:?}");
    }
    assert!(layout("A-B", 1).is_none());
}

#[test]
fn half_blocks_halve_the_height_and_keep_the_width() {
    let rows = layout("DEVLAB", 1).unwrap();
    let hb = to_half_blocks(&rows);
    assert_eq!(hb.len(), GLYPH_H.div_ceil(2));
    let w = rows[0].chars().count();
    for line in &hb {
        assert_eq!(line.chars().count(), w);
        assert!(line.chars().all(|c| matches!(c, '█' | '▀' | '▄' | ' ')), "only the four block characters: {line:?}");
    }
}
