use sysview::layout::Rect;
use sysview::storage::{storage_rows, storage_split, storage_total, UserUsage};
use sysview::visual::Decoration;

fn user(name: &str, bytes: u64, complete: bool) -> UserUsage {
    UserUsage { user: name.to_string(), home: format!("/home/{name}"), bytes, entries: 10, complete }
}

#[test]
fn the_waffle_goes_under_the_list_when_there_is_room() {
    let area = Rect::new(0, 0, 100, 20);
    let (list, waffle, detail) = storage_split(area, 3, false, Decoration::Minimal);
    assert_eq!(list, Rect::new(0, 0, 100, 15));
    assert_eq!(waffle, Some(Rect::new(0, 15, 100, 5)));
    assert_eq!(detail.height, 0);
    let (_, waffle, _) = storage_split(area, 1, false, Decoration::Full);
    assert_eq!(waffle, None);
    let (_, waffle, _) = storage_split(area, 3, false, Decoration::Nothing);
    assert_eq!(waffle, None);
    let (_, waffle, _) = storage_split(Rect::new(0, 0, 100, 13), 3, false, Decoration::Full);
    assert_eq!(waffle, None);
}

#[test]
fn an_opened_user_takes_the_lower_half() {
    let (list, waffle, detail) = storage_split(Rect::new(0, 0, 100, 20), 3, true, Decoration::Minimal);
    assert_eq!(detail, Rect::new(0, 10, 100, 10));
    assert_eq!(list, Rect::new(0, 0, 100, 5));
    assert_eq!(waffle, Some(Rect::new(0, 5, 100, 5)));
    let (list, waffle, detail) = storage_split(Rect::new(0, 0, 100, 16), 3, true, Decoration::Minimal);
    assert_eq!(list, Rect::new(0, 0, 100, 8));
    assert_eq!(waffle, None);
    assert_eq!(detail, Rect::new(0, 8, 100, 8));
}

#[test]
fn unfinished_scans_are_marked_partial_when_the_word_fits() {
    let users = vec![user("alice", 100, true), user("bob", 200, false), user("carol", 300, false)];
    let rows = storage_rows(&users, 1, Rect::new(2, 3, 100, 10));
    assert_eq!(rows.len(), 3);
    assert_eq!(rows[0].y, 4);
    assert!(rows[1].selected && !rows[0].selected);
    assert_eq!(rows[0].bar_x, Some(62));
    assert_eq!(rows[0].partial_x, None);
    assert_eq!(rows[1].partial_x, Some(81));
    let narrow = storage_rows(&users, 0, Rect::new(0, 0, 80, 10));
    assert_eq!(narrow[1].bar_x, Some(60));
    assert_eq!(narrow[1].partial_x, None);
    let tiny = storage_rows(&users, 0, Rect::new(0, 0, 72, 10));
    assert_eq!(tiny[0].bar_x, None);
}

#[test]
fn the_list_scrolls_to_keep_the_selection_in_view() {
    let users: Vec<UserUsage> = (0..10).map(|i| user(&format!("u{i}"), i, true)).collect();
    let rows = storage_rows(&users, 9, Rect::new(0, 0, 100, 5));
    assert_eq!(rows.iter().map(|r| r.index).collect::<Vec<_>>(), vec![6, 7, 8, 9]);
    assert_eq!(rows[0].user, "u6");
    assert_eq!(rows[0].home, "/home/u6");
    assert_eq!(storage_total(&users), 45);
    assert_eq!(storage_total(&vec![user("a", u64::MAX, true), user("b", u64::MAX, true)]), 2 * u64::MAX as u128);
}
