use sysview::layout::{centered, chrome, clamp_scroll, cols, core_grid_rows, reserve_strip, rows, split_top, waffle_and_legend, window, Density, Rect};

#[test]
fn density_classifies_common_terminal_sizes() {
    assert_eq!(Density::of(Rect::new(0, 0, 190, 48)), Density::Wide);
    assert_eq!(Density::of(Rect::new(0, 0, 100, 40)), Density::Tall);
    assert_eq!(Density::of(Rect::new(0, 0, 80, 24)), Density::Compact);
    assert_eq!(Density::of(Rect::new(0, 0, 40, 10)), Density::TooSmall);
    assert_eq!(Density::of(Rect::new(0, 0, 200, 8)), Density::TooSmall, "too short is too small");
}

#[test]
fn centered_fits_inside_small_areas() {
    for (w, h) in [(10u16, 5u16), (80, 24), (200, 60), (3, 3)] {
        let area = Rect::new(0, 0, w, h);
        let c = centered(area, 84, 30);
        assert!(c.x + c.width <= area.x + area.width, "{w}x{h}: the window leaves on the right");
        assert!(c.y + c.height <= area.y + area.height, "{w}x{h}: the window leaves at the bottom");
        assert!(c.width >= 1 && c.height >= 1);
    }
}

#[test]
fn split_top_handles_oversized_request() {
    let area = Rect::new(0, 0, 40, 10);
    let (top, rest) = split_top(area, 100);
    assert_eq!(top.height, 10);
    assert_eq!(rest.height, 0, "asking for more than the height does not underflow");
}

#[test]
fn scroll_is_clamped_to_content() {
    assert_eq!(clamp_scroll(1000, 20, 10), 10);
    assert_eq!(clamp_scroll(5, 20, 10), 5);
    assert_eq!(clamp_scroll(5, 3, 10), 0, "content shorter than the screen does not scroll");
    assert_eq!(clamp_scroll(usize::MAX / 2, 100, 25), 75);
}

#[test]
fn the_window_keeps_the_selection_visible() {
    assert_eq!(window(0, 100, 10), (0, 10));
    let (s, e) = window(50, 100, 10);
    assert!(s <= 50 && 50 < e && e - s == 10);
    assert_eq!(window(3, 2, 10), (0, 2));
}

#[test]
fn chrome_never_exceeds_the_area() {
    for h in 3..60u16 {
        let area = Rect::new(0, 0, 80, h);
        let (a, b, c) = chrome(area);
        assert_eq!(a.height + b.height + c.height, h);
        assert!(c.y + c.height <= area.y + area.height);
    }
}

#[test]
fn rows_and_cols_partition_exactly() {
    let area = Rect::new(0, 0, 100, 40);
    let r = rows(area, &[1, 1, 2]);
    assert_eq!(r.len(), 3);
    assert_eq!(r.iter().map(|x| x.height).sum::<u16>(), 40);
    let c = cols(area, &[1, 1]);
    assert_eq!(c.iter().map(|x| x.width).sum::<u16>(), 100);
}

#[test]
fn empty_weights_return_whole_area() {
    let area = Rect::new(0, 0, 10, 10);
    assert_eq!(rows(area, &[]), vec![area]);
    assert_eq!(cols(area, &[]), vec![area]);
}

#[test]
fn the_highlights_strip_only_takes_a_row_from_tall_areas() {
    let tall = Rect::new(2, 3, 100, 21);
    assert_eq!(reserve_strip(tall), (Rect::new(2, 3, 100, 20), Some(Rect::new(2, 23, 100, 1))));
    let short = Rect::new(2, 3, 100, 20);
    assert_eq!(reserve_strip(short), (short, None));
}

#[test]
fn the_core_grid_takes_at_most_four_rows() {
    assert_eq!(core_grid_rows(0, 80), 0);
    assert_eq!(core_grid_rows(16, 15), 0, "too narrow for a grid");
    assert_eq!(core_grid_rows(3, 80), 1);
    assert_eq!(core_grid_rows(11, 80), 2);
    assert_eq!(core_grid_rows(8, 16), 4);
    assert_eq!(core_grid_rows(100, 80), 4);
}

#[test]
fn the_waffle_and_its_legend_keep_a_row_apart() {
    let (grid, legend) = waffle_and_legend(Rect::new(0, 0, 60, 8)).unwrap();
    assert_eq!(grid, Rect::new(0, 0, 60, 6));
    assert_eq!(legend, Rect::new(0, 7, 60, 1), "a blank row between the waffle and its legend");
    let (g4, l4) = waffle_and_legend(Rect::new(0, 0, 60, 4)).unwrap();
    assert_eq!((g4.height, l4.y, l4.height), (3, 3, 1), "no room for the gap");
    assert!(waffle_and_legend(Rect::new(0, 0, 60, 2)).is_none());
}

#[test]
fn compact_starts_at_sixty_by_sixteen() {
    assert_eq!(Density::of(Rect::new(0, 0, 55, 14)), Density::TooSmall);
    assert_eq!(Density::of(Rect::new(0, 0, 59, 30)), Density::TooSmall);
    assert_eq!(Density::of(Rect::new(0, 0, 80, 15)), Density::TooSmall);
    assert_eq!(Density::of(Rect::new(0, 0, 60, 16)), Density::Compact);
}
