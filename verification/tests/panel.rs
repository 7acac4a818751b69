use sysview::layout::Rect;
use sysview::widgets::panel::{inset, panel_frame};

#[test]
fn the_inner_area_sits_inside_the_border() {
    let f = panel_frame(Rect::new(0, 0, 40, 10), "CPU", None).unwrap();
    assert_eq!(f.inner, Rect::new(1, 1, 38, 8));
    assert_eq!(f.title, "CPU");
    assert_eq!((f.title_at, f.title_end), (2, 7));
    assert!(f.subtitle.is_none());
}

#[test]
fn a_wide_title_and_subtitle_keep_clear_of_the_corner() {
    let f = panel_frame(Rect::new(0, 0, 30, 4), "記憶體", Some("62.5 GB")).unwrap();
    assert_eq!(f.title, "記憶體");
    assert_eq!(f.title_end, 10);
    let (sx, sub) = f.subtitle.unwrap();
    assert_eq!((sx, sub.as_str()), (18, "62.5 GB"));
    // the subtitle's closing bracket ends two columns before the corner
    assert!(sx + 2 + 7 + 2 <= 29);
}

#[test]
fn a_long_title_is_cut_to_its_room() {
    let f = panel_frame(Rect::new(0, 0, 20, 4), "這是一個非常非常長的標題會超出邊框", None).unwrap();
    assert_eq!(f.title, "這是一個非常…");
    assert_eq!(f.title_end, 17);
}

#[test]
fn a_subtitle_without_room_is_dropped() {
    let f = panel_frame(Rect::new(0, 0, 14, 4), "CPU", Some("這個副標題放不下")).unwrap();
    assert!(f.subtitle.is_none());
}

#[test]
fn degenerate_areas_get_no_frame() {
    for (w, h) in [(0, 0), (1, 1), (1, 5), (5, 1)] {
        assert!(panel_frame(Rect::new(0, 0, w, h), "t", None).is_none());
    }
    let f = panel_frame(Rect::new(0, 0, 2, 2), "t", None).unwrap();
    assert_eq!(f.inner, Rect::new(1, 1, 0, 0));
    assert_eq!(f.title, "", "no room for a title between the corners");
}

#[test]
fn inset_never_underflows() {
    let a = inset(Rect::new(0, 0, 3, 3), 5, 5);
    assert_eq!(a.width, 0);
    assert_eq!(a.height, 0);
    assert_eq!(inset(Rect::new(2, 3, 10, 6), 1, 2), Rect::new(3, 5, 8, 2));
}
