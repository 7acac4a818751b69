use sysview::format::{ascii_bar, pad, pad_left, reading, reading_padded, truncate, width, Quality};

#[test]
fn cjk_characters_count_as_two_columns() {
    assert_eq!(width("記憶體"), 6, "a Chinese character takes two columns");
    assert_eq!(width("abc"), 3);
    assert_eq!(width("CPU 使用率"), 4 + 6);
    assert_eq!(width("⣿⣿"), 2, "braille is narrow, for charts");
}

#[test]
fn truncate_respects_display_width_not_byte_length() {
    assert_eq!(truncate("記憶體使用率", 6), "記憶…");
    assert!(width(&truncate("記憶體使用率", 6)) <= 6);
    assert_eq!(truncate("abcdefgh", 5), "abcd…");
    assert_eq!(width(&truncate("abcdefgh", 5)), 5, "narrow characters fill the budget exactly");
    assert_eq!(truncate("abc", 10), "abc");
    assert_eq!(truncate("", 5), "");
    assert_eq!(truncate("abcdef", 0), "");
}

#[test]
fn truncate_never_exceeds_budget_for_any_input() {
    for s in ["記憶體", "abc記憶體def", "🎉🎉🎉", "a", ""] {
        for max in 0..12 {
            let t = truncate(s, max);
            assert!(width(&t) <= max, "{s:?} cut to {max} columns became {}", width(&t));
        }
    }
}

#[test]
fn pad_produces_exact_width_with_cjk() {
    for s in ["記憶體", "abc", "GPU 顯示卡", ""] {
        assert_eq!(width(&pad(s, 20)), 20, "{s:?} padded to the wrong width");
        assert_eq!(width(&pad_left(s, 20)), 20);
    }
}

#[test]
fn padding_goes_on_the_right_side_asked_for() {
    assert_eq!(pad("ab", 4), "ab  ");
    assert_eq!(pad_left("ab", 4), "  ab");
    assert_eq!(pad("abcdef", 3), "ab…", "too wide is cut to the width");
    assert_eq!(pad_left("記憶體", 5), "記憶…");
    assert_eq!(pad_left("記憶體", 7), " 記憶體");
}

#[test]
fn snapshot_bars_are_ascii_and_exactly_as_wide_as_asked() {
    assert_eq!(ascii_bar(3, 5), "[###..]");
    assert_eq!(ascii_bar(0, 3), "[...]");
    assert_eq!(ascii_bar(4, 4), "[####]");
    assert_eq!(ascii_bar(0, 0), "[]");
    for n in 0..=20 {
        assert_eq!(ascii_bar(n, 20).len(), 22);
    }
}

#[test]
fn readings_never_pass_a_missing_value_off_as_zero() {
    assert_eq!(reading(&Quality::Measured, Some("42.0%")), "42.0%");
    assert_eq!(reading(&Quality::Estimated, Some("42.0%")), "~42.0%");
    assert_eq!(reading(&Quality::Measured, None), "n/a");
    assert_eq!(reading(&Quality::Unavailable("unsupported".to_string()), Some("0")), "unsupported");
    assert_eq!(reading_padded(&Quality::Estimated, Some("5 W"), 6), "  ~5 W");
}

#[test]
fn estimated_readings_are_visibly_marked() {
    assert_eq!(reading(&Quality::Estimated, Some("75.0%")), "~75.0%", "估計值必須有可見標記");
    assert_eq!(reading(&Quality::Measured, Some("75.0%")), "75.0%");
}
