use sysview::proclist::{fitting_columns, row_cells, scroll_label, subtitle, title, COLUMN_TITLES};

#[test]
fn the_title_names_the_sort_and_any_filter() {
    assert_eq!(title("CPU", ""), "Processes  (sort: CPU)");
    assert_eq!(title("MEM", "firefox"), "Processes  (sort: MEM  filter: firefox)");
}

#[test]
fn columns_stop_at_the_first_that_does_not_fit() {
    assert_eq!(fitting_columns(200), (10, 83));
    assert_eq!(fitting_columns(7), (1, 8));
    assert_eq!(fitting_columns(6), (0, 0));
    assert_eq!(fitting_columns(30), (4, 31));
}

#[test]
fn a_row_is_laid_out_in_its_columns_and_the_command_gets_the_rest() {
    let texts: Vec<String> = ["1234", "1", "alice", "S", "12.5", "3.0", "1.0 MiB", "2.0 GiB", "4", "0:01:02"]
        .iter()
        .map(|s| s.to_string())
        .collect();
    let cells = row_cells(&texts, "/usr/bin/firefox --profile x", 95);
    assert_eq!(cells.len(), 11);
    assert_eq!((cells[0].x, cells[0].text.as_str()), (0, "   1234"));
    assert_eq!((cells[2].x, cells[2].text.as_str()), (16, "alice       "));
    assert_eq!((cells[10].x, cells[10].text.as_str()), (83, "/usr/bin/fi…"));
    let header: Vec<String> = COLUMN_TITLES.iter().map(|s| s.to_string()).collect();
    let cells = row_cells(&header, "COMMAND", 20);
    assert_eq!(cells.len(), 3);
    assert_eq!(cells[1].text, "   PPID");
    assert_eq!((cells[2].x, cells[2].text.as_str()), (16, "COM…"));
}

#[test]
fn the_scroll_indicator_shows_only_when_the_list_is_longer() {
    assert_eq!(scroll_label(0, 20, 15), None);
    assert_eq!(scroll_label(0, 20, 100).as_deref(), Some("1–20 / 100"));
    assert_eq!(scroll_label(90, 20, 100).as_deref(), Some("91–100 / 100"));
}

#[test]
fn the_subtitle_names_the_four_most_common_states() {
    let states = vec![('S', 200), ('R', 3), ('I', 90), ('Z', 1), ('D', 3)];
    assert_eq!(subtitle(120, 312, 1204, &states), "120/312 顯示 · 1204 執行緒 · S200 I90 R3 D3");
    assert_eq!(subtitle(0, 0, 0, &vec![]), "0/0 顯示 · 0 執行緒 · ");
}
