use sysview::layout::Rect;
use sysview::visual::watermark::{fits, is_clear, Blocked, CLEARANCE};
use sysview::visual::Decoration;

/// A `w`×`h` screen with text in the given cells.
fn screen(w: u16, h: u16, used: &[(u16, u16)]) -> (Vec<bool>, Rect) {
    let mut free = vec![true; w as usize * h as usize];
    for &(x, y) in used {
        free[y as usize * w as usize + x as usize] = false;
    }
    (free, Rect::new(0, 0, w, h))
}

#[test]
fn the_gate_is_the_decoration_policy_not_the_size() {
    assert!(fits(Rect::new(0, 0, 60, 20), Decoration::Minimal));
    assert!(!fits(Rect::new(0, 0, 200, 60), Decoration::Nothing));
}

#[test]
fn corner_sums_count_any_rectangle() {
    let (free, ba) = screen(10, 6, &[(1, 1), (2, 1), (5, 4), (9, 5)]);
    let b = Blocked::of(&free, ba);
    assert_eq!(b.width(), 10);
    assert_eq!(b.height(), 6);
    assert_eq!(b.count(Rect::new(0, 0, 10, 6)), 4);
    assert_eq!(b.count(Rect::new(0, 0, 3, 2)), 2);
    assert_eq!(b.count(Rect::new(3, 0, 7, 4)), 0);
    assert_eq!(b.count(Rect::new(5, 4, 1, 1)), 1);
    assert_eq!(b.count(Rect::new(8, 5, 3, 1)), u32::MAX, "leaving the grid is never clean");
}

#[test]
fn an_empty_screen_places_the_watermark_in_the_bottom_right() {
    let (free, ba) = screen(80, 24, &[]);
    let b = Blocked::of(&free, ba);
    let r = b.scan(ba, 10, 4).unwrap();
    assert_eq!((r.x, r.y, r.width, r.height), (80 - 10 - 2, 24 - 4 - 1, 10, 4));
}

#[test]
fn the_watermark_steps_around_data() {
    // text in the bottom right corner pushes it left by a whole grid step
    let (free, ba) = screen(80, 24, &[(75, 20)]);
    let b = Blocked::of(&free, ba);
    let r = b.scan(ba, 10, 4).unwrap();
    assert!(r.x + r.width + CLEARANCE <= 75 || r.y + r.height <= 20, "{r:?} covers or touches the text");
    assert_eq!(((80 - 10 - 2) - r.x) % 4, 0, "stays on the placement grid");
}

#[test]
fn a_full_screen_has_no_room() {
    let used: Vec<(u16, u16)> = (0..20).flat_map(|y| (0..40).map(move |x| (x, y))).filter(|(x, y)| (x + y) % 7 == 0).collect();
    let (free, ba) = screen(40, 20, &used);
    let b = Blocked::of(&free, ba);
    assert_eq!(b.scan(ba, 10, 4), None);
    assert_eq!(b.place_reveal(&free, ba, &[(8, 10, 4), (4, 6, 2)], None), None);
}

#[test]
fn a_still_clean_spot_is_kept() {
    let (free, ba) = screen(80, 24, &[]);
    let b = Blocked::of(&free, ba);
    let old = Rect::new(20, 5, 10, 4);
    assert!(is_clear(&free, ba, ba, old));
    assert_eq!(b.place_reveal(&free, ba, &[(8, 10, 4)], Some(old)), Some((8, old)));
    // a different size is placed afresh
    let fresh = b.place_reveal(&free, ba, &[(6, 12, 3)], Some(old)).unwrap();
    assert_eq!(fresh.0, 6);
    assert_ne!(fresh.1, old);
    // text next to the old spot (within the clearance) spoils it
    let (free2, _) = screen(80, 24, &[(31, 6)]);
    assert!(!is_clear(&free2, ba, ba, old));
}

#[test]
fn the_largest_size_that_fits_wins() {
    // a band of text leaves only three clean rows at the bottom
    let used: Vec<(u16, u16)> = (0..20).flat_map(|y| (0..80).map(move |x| (x, y))).collect();
    let (free, ba) = screen(80, 24, &used);
    let b = Blocked::of(&free, ba);
    let got = b.place_reveal(&free, ba, &[(16, 20, 8), (8, 20, 4), (4, 12, 2)], None).unwrap();
    assert_eq!(got.0, 4);
    assert!(got.1.y >= 20);
}
