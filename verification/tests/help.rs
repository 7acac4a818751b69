use sysview::help::{
    help_art_column, help_art_window, help_scrolls, help_text, help_window, mascot_room, section_entries, wants_art, wrapped_len,
    KEY_ROWS, SECTION_TITLES,
};
use sysview::layout::Rect;
use sysview::visual::Decoration;

fn sections() -> Vec<(&'static str, Vec<(&'static str, &'static str)>)> {
    SECTION_TITLES.iter().enumerate().map(|(i, t)| (*t, section_entries(i))).collect()
}

#[test]
fn documents_every_important_key() {
    let all: String = sections()
        .iter()
        .flat_map(|(_, e)| e.iter().map(|(k, _)| *k).collect::<Vec<_>>())
        .collect::<Vec<_>>()
        .join(" ");
    for k in ["e", "u", "s", "/", "t", "q", "Esc", "空白", "A", "Enter"] {
        assert!(all.contains(k), "the help lacks the key {k:?}");
    }
}

#[test]
fn explain_key_is_documented_prominently() {
    let text: String = sections()
        .iter()
        .flat_map(|(t, e)| std::iter::once((*t).to_owned()).chain(e.iter().map(|(k, d)| format!("{k} {d}"))).collect::<Vec<_>>())
        .collect::<Vec<_>>()
        .join("\n");
    assert!(text.contains("解釋"), "the help stresses the explain feature");
    assert!(text.contains("原生指令"));
    assert!(text.contains("上一層"), "the help says how to go back up a level");
    assert!(text.contains("層數不設限"), "the help says the depth has no limit");
    assert!(text.contains("不是即時生成"), "the help says the explanations are not generated on the fly");
}

#[test]
fn admin_navigation_is_documented_without_relying_on_brackets() {
    let all = sections();
    let admin = all.iter().find(|(t, _)| *t == "管理員功能").expect("there is an admin section");
    let text: String = admin.1.iter().map(|(k, d)| format!("{k} {d}")).collect::<Vec<_>>().join("\n");
    assert!(text.contains("分頁列"), "Enter first goes to the tab row");
    assert!(text.contains("選取使用者"), "up and down select users");
    assert!(text.contains("捷徑"), "[ ] is described as a shortcut");
}

#[test]
fn every_row_belongs_to_a_section_in_order() {
    let total: usize = (0..SECTION_TITLES.len()).map(|i| section_entries(i).len()).sum();
    assert_eq!(total, KEY_ROWS.len());
    assert!(section_entries(99).is_empty());
    assert_eq!(section_entries(2)[0], ("0", "總覽（` 與 ~ 也可以）"));
}

#[test]
fn wrapped_rows_round_up_and_count_empty_lines() {
    assert_eq!(wrapped_len(&[], 10), 0);
    assert_eq!(wrapped_len(&[0, 10, 11, 25], 10), 1 + 1 + 2 + 3);
    assert_eq!(wrapped_len(&[5], 0), 0);
    assert_eq!(wrapped_len(&[usize::MAX], 1), u16::MAX);
}

#[test]
fn the_mascot_joins_the_help_only_with_room_for_the_whole_key_table() {
    let wide = Rect::new(0, 0, 154, 24);
    assert!(wants_art(Decoration::Standard, true, wide));
    assert!(!wants_art(Decoration::Minimal, true, wide));
    assert!(!wants_art(Decoration::Full, false, wide));
    assert!(!wants_art(Decoration::Full, true, Rect::new(0, 0, 153, 24)));
    assert!(!wants_art(Decoration::Full, true, Rect::new(0, 0, 154, 23)));
}

#[test]
fn the_help_window_is_as_tall_as_its_text() {
    // ten lines of 74 columns or less wrap to ten rows: 14 with the frame
    let short = vec![10usize; 10];
    assert_eq!(help_window(Rect::new(0, 0, 100, 40), &short), Rect::new(11, 13, 78, 14));
    // on a low screen it keeps a row above and below
    assert_eq!(help_window(Rect::new(0, 0, 100, 10), &short), Rect::new(11, 1, 78, 8));
    // a 150-column line wraps to three rows at 74
    assert_eq!(help_window(Rect::new(0, 0, 80, 40), &[150]), Rect::new(1, 16, 78, 7));
}

#[test]
fn the_hint_says_scroll_only_when_the_text_does_not_fit() {
    let win = Rect::new(0, 0, 40, 14);
    // text width 36, 10 rows of room
    assert!(!help_scrolls(win, 0, &vec![36usize; 10]));
    assert!(help_scrolls(win, 0, &vec![36usize; 11]));
    assert!(help_scrolls(win, 0, &vec![37usize; 6]), "wrapped lines count twice");
    // the reserve narrows the text
    assert!(help_scrolls(win, 10, &vec![30usize; 6]));
}

#[test]
fn the_key_table_scrolls_exactly_past_its_area() {
    let inner = Rect::new(2, 2, 60, 5);
    let (text, max) = help_text(inner, 0, &vec![1usize; 8]);
    assert_eq!(text, inner);
    assert_eq!(max, 3);
    let (narrow, none) = help_text(inner, 58, &[2, 1]);
    assert_eq!(narrow, Rect::new(2, 2, 2, 5));
    assert_eq!(none, 0);
    let (zero, _) = help_text(inner, 70, &[1]);
    assert_eq!(zero.width, 0);
}

#[test]
fn the_art_column_sits_flush_right_with_the_mascot_below_the_brand() {
    let inner = Rect::new(2, 3, 150, 30);
    let art = help_art_column(inner);
    assert_eq!(art, Rect::new(2 + 150 - 58, 3, 58, 30));
    let (room, captioned) = mascot_room(art, 9);
    assert_eq!(room, Rect::new(art.x, 9, 58, 24));
    assert!(captioned);
    let (low, cap) = mascot_room(art, 20);
    assert_eq!(low.height, 13);
    assert!(!cap);
    assert_eq!(mascot_room(art, 40).0.height, 0);
    let art_window = help_art_window(Rect::new(0, 0, 200, 60), &[10; 5]);
    assert_eq!((art_window.width, art_window.height), (154, 26), "at least the mascot and its caption");
}
