use sysview::widgets::braille::{braille_char, plot_levels, GraphStyle};
use sysview::widgets::viz::{axis_width, chips_plan, heat_cell_text, heatmap_cells, key_value_columns, strip_text, table_columns};
use sysview::widgets::gauge::{bar_cells, BLOCKS, TRACK};
use sysview::widgets::modal::{hint, hint_start, modal_body, Cap};
use sysview::layout::Rect;

fn words(caps: &[Cap]) -> String {
    hint(caps).iter().map(|(k, d)| format!("{k} {d}")).collect::<Vec<_>>().join(" · ")
}

#[test]
fn braille_chars_are_in_the_correct_unicode_block() {
    assert_eq!(braille_char(0x00), '\u{2800}');
    assert_eq!(braille_char(0xFF), '\u{28FF}');
    for b in 0..=255u8 {
        let c = braille_char(b);
        assert!(('\u{2800}'..='\u{28FF}').contains(&c), "0x{b:02x} gave a character outside braille: {c:?}");
    }
}

#[test]
fn area_lights_a_column_up_from_the_bottom_and_line_only_its_top() {
    // two dot columns, one cell high (four dots): left column level 3, right 1
    let area = plot_levels(&[3, 1], 1, 1, GraphStyle::Area);
    let line = plot_levels(&[3, 1], 1, 1, GraphStyle::Line);
    assert_eq!(area, vec![0x02 | 0x04 | 0x40 | 0x80]);
    assert_eq!(line, vec![0x02 | 0x80]);
    assert!(area[0].count_ones() > line[0].count_ones());
}

#[test]
fn zero_sized_grids_are_empty() {
    assert!(plot_levels(&[4, 4], 0, 3, GraphStyle::Area).is_empty());
    assert!(plot_levels(&[4, 4], 3, 0, GraphStyle::Line).is_empty());
    assert_eq!(plot_levels(&[], 2, 1, GraphStyle::Area), vec![0, 0]);
}

#[test]
fn while_typing_a_name_the_only_hints_are_submit_and_skip() {
    assert_eq!(words(&[Cap::Name]), "Enter 送出 · Esc 不記錄");
}

#[test]
fn a_scrollable_modal_never_claims_that_any_key_closes_it() {
    assert_eq!(words(&[Cap::Scroll, Cap::CloseAny]), "↑↓ 捲動 · 其他任意鍵 關閉");
    assert_eq!(words(&[Cap::CloseAny]), "任意鍵 關閉");
}

#[test]
fn the_escape_word_follows_what_escape_actually_does() {
    assert!(words(&[Cap::Choose, Cap::CloseEsc]).ends_with("Esc 取消"));
    assert!(words(&[Cap::Play, Cap::CloseEsc]).ends_with("Esc 關閉"));
}

#[test]
fn the_way_out_is_always_listed_last() {
    for caps in [vec![Cap::Scroll, Cap::CloseAny], vec![Cap::Choose, Cap::CloseEsc], vec![Cap::Play, Cap::CloseEsc]] {
        let h = hint(&caps);
        let last = h.last().unwrap().1;
        assert!(last == "關閉" || last == "取消" || last == "開始", "the last item should be the way out, got {last}");
    }
}

#[test]
fn the_game_over_hint_does_not_promise_moves_you_cannot_make() {
    let over = words(&[Cap::Restart, Cap::CloseEsc]);
    assert!(!over.contains("跳") && !over.contains("蹲"), "{over}");
    assert!(over.contains("r 重來") && over.contains("Esc 關閉"), "{over}");
}

#[test]
fn every_modal_says_how_to_get_out() {
    for caps in [
        vec![Cap::CloseAny],
        vec![Cap::Scroll, Cap::CloseAny],
        vec![Cap::Choose, Cap::CloseEsc],
        vec![Cap::Play, Cap::CloseEsc],
        vec![Cap::StartAny],
    ] {
        assert!(!hint(&caps).is_empty(), "{caps:?} never says how to leave");
    }
}

#[test]
fn the_hint_sits_right_aligned_on_the_last_row() {
    let line = [("Enter", "ok"), ("Esc", "x")];
    // Enter ok · Esc x = 8 + 3 + 5 columns
    assert_eq!(hint_start(Rect::new(2, 3, 40, 6), &line), Some((2 + 40 - 16, 8)));
    assert_eq!(hint_start(Rect::new(0, 0, 16, 1), &line), Some((0, 0)));
    assert_eq!(hint_start(Rect::new(0, 0, 15, 4), &line), None, "dropped rather than wrapped");
    assert_eq!(hint_start(Rect::new(0, 0, 40, 0), &line), None);
    assert_eq!(hint_start(Rect::new(0, 0, 40, 2), &[]), Some((40, 1)));
}

#[test]
fn the_hint_line_and_its_gap_come_off_the_content() {
    let inner = Rect::new(1, 1, 10, 5);
    assert_eq!(modal_body(inner, true), Rect::new(1, 1, 10, 3));
    assert_eq!(modal_body(inner, false), inner);
    assert_eq!(modal_body(Rect::new(1, 1, 10, 2), true), Rect::new(1, 1, 10, 2), "too low for a hint");
    assert_eq!(modal_body(Rect::new(1, 1, 0, 5), true), Rect::new(1, 1, 0, 5));
}

#[test]
fn a_bar_is_whole_blocks_then_eighths_then_track() {
    assert_eq!(bar_cells(5, 4, 10), ("█████▌".to_string(), 4));
    assert_eq!(bar_cells(10, 0, 10), ("█".repeat(10), 0));
    assert_eq!(bar_cells(0, 0, 10), (String::new(), 10));
    assert_eq!(bar_cells(10, 3, 10), ("█".repeat(10), 0), "no room for the partial block");
    assert_eq!(bar_cells(0, 0, 0), (String::new(), 0));
    assert_eq!(BLOCKS[8], '█');
    assert_eq!(TRACK, '·');
}

#[test]
fn a_chip_row_stops_at_the_first_chip_that_does_not_fit() {
    let (placed, used) = chips_plan(Rect::new(2, 0, 14, 1), &["SSD", "UP", "NVMe"]);
    // [SSD] at 2, [UP] at 8, [NVMe] (6 columns) would need 13..19
    assert_eq!(placed, vec![(2, "[SSD]".to_string()), (8, "[UP]".to_string())]);
    assert_eq!(used, 11);
    let (none, zero) = chips_plan(Rect::new(0, 0, 4, 1), &["SSD"]);
    assert!(none.is_empty());
    assert_eq!(zero, 0);
    let (exact, _) = chips_plan(Rect::new(0, 0, 5, 1), &["SSD"]);
    assert_eq!(exact.len(), 1, "a chip that exactly fits is drawn");
}

#[test]
fn table_cells_are_cut_at_the_edge_and_stop_past_it() {
    assert_eq!(table_columns(Rect::new(1, 0, 20, 1), &[5, 8, 10]), vec![(1, 5), (7, 8), (16, 5)]);
    assert_eq!(table_columns(Rect::new(0, 0, 6, 1), &[5, 8]), vec![(0, 5)]);
    assert!(table_columns(Rect::new(0, 0, 0, 1), &[5]).is_empty());
}

#[test]
fn the_axis_takes_six_columns_only_on_wide_graphs() {
    assert_eq!(axis_width(15, true), 6);
    assert_eq!(axis_width(14, true), 0);
    assert_eq!(axis_width(80, false), 0);
}

#[test]
fn key_values_truncate_the_value_instead_of_overflowing() {
    assert_eq!(key_value_columns(Rect::new(0, 0, 40, 3), 18), (18, Some((19, 21))));
    assert_eq!(key_value_columns(Rect::new(5, 0, 19, 3), 18), (18, None), "no room left for a value");
    assert_eq!(key_value_columns(Rect::new(5, 0, 10, 3), 18), (10, None));
}

#[test]
fn heatmap_cells_fill_rows_and_stop_at_the_height() {
    // 10 values, cells of 4 columns in 10 columns: two to a row, five rows, three fit
    let (cells, rows) = heatmap_cells(Rect::new(1, 2, 10, 3), 10, 4);
    assert_eq!(rows, 3);
    assert_eq!(cells, vec![(1, 2), (5, 2), (1, 3), (5, 3), (1, 4), (5, 4)]);
    let (cells, rows) = heatmap_cells(Rect::new(0, 0, 3, 5), 2, 0);
    assert_eq!((cells, rows), (vec![(0, 0), (1, 0)], 1), "a zero cell width counts as one");
    assert_eq!(heatmap_cells(Rect::new(0, 0, 3, 5), 0, 2).1, 0);
    assert_eq!(heatmap_cells(Rect::new(0, 0, 2, 5), 3, 8), (vec![(0, 0), (0, 1), (0, 2)], 3), "one to a row when none fits");
    assert_eq!(heat_cell_text('▓', 3), "▓▓");
    assert_eq!(heat_cell_text('▓', 1), "▓");
}

#[test]
fn strips_fill_from_the_left() {
    assert_eq!(strip_text(2, 5), "▰▰▱▱▱");
    assert_eq!(strip_text(9, 3), "▰▰▰");
    assert_eq!(strip_text(0, 0), "");
}
