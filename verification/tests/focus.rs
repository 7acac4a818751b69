use sysview::focus::{nearest, wrap_within, Dir, FocusRegion, FocusRegistry};
use sysview::layout::Rect;

fn panel(x: u16, y: u16, w: u16, h: u16, id: &'static str) -> FocusRegion<&'static str> {
    FocusRegion { rect: Rect::new(x, y, w, h), target: id, label: id.to_owned(), parent: None, scrollable: false, list_index: None }
}

fn item(p: usize, x: u16, y: u16, w: u16, h: u16, id: &'static str) -> FocusRegion<&'static str> {
    FocusRegion { rect: Rect::new(x, y, w, h), target: id, label: id.to_owned(), parent: Some(p), scrollable: false, list_index: None }
}

fn overview() -> (Vec<FocusRegion<&'static str>>, Vec<usize>) {
    let v = vec![
        panel(0, 2, 75, 14, "cpu"),
        panel(75, 2, 75, 9, "mem"),
        panel(0, 16, 75, 11, "gpu"),
        panel(75, 11, 75, 11, "disk"),
        panel(0, 27, 75, 11, "net"),
        panel(75, 22, 75, 16, "proc"),
    ];
    let c = (0..v.len()).collect();
    (v, c)
}

#[test]
fn vertical_moves_stay_in_the_same_column() {
    let (v, c) = overview();
    assert_eq!(nearest(&v, &c, 1, Dir::Down).map(|i| v[i].label.as_str()), Some("disk"), "down from memory stays in the right column");
    assert_eq!(nearest(&v, &c, 0, Dir::Down).map(|i| v[i].label.as_str()), Some("gpu"), "down from the CPU stays in the left column");
    assert_eq!(nearest(&v, &c, 3, Dir::Down).map(|i| v[i].label.as_str()), Some("proc"));
}

#[test]
fn horizontal_moves_reach_every_panel_in_the_other_column() {
    let (v, c) = overview();
    assert_eq!(nearest(&v, &c, 0, Dir::Right).map(|i| v[i].label.as_str()), Some("mem"));
    assert_eq!(nearest(&v, &c, 2, Dir::Right).map(|i| v[i].label.as_str()), Some("disk"));
    assert_eq!(nearest(&v, &c, 4, Dir::Right).map(|i| v[i].label.as_str()), Some("proc"));
}

#[test]
fn every_panel_is_reachable_by_repeated_moves() {
    let (v, c) = overview();
    for start in 0..v.len() {
        let mut seen = std::collections::HashSet::new();
        let mut frontier = vec![start];
        while let Some(cur) = frontier.pop() {
            if !seen.insert(cur) {
                continue;
            }
            for d in [Dir::Up, Dir::Down, Dir::Left, Dir::Right] {
                if let Some(n) = nearest(&v, &c, cur, d) {
                    frontier.push(n);
                }
            }
        }
        assert_eq!(seen.len(), v.len(), "from {} only {} of {} panels are reachable", v[start].label, seen.len(), v.len());
    }
}

#[test]
fn items_navigate_only_among_their_siblings() {
    let v = vec![
        panel(0, 0, 40, 20, "stats"),
        item(0, 1, 1, 38, 1, "a"),
        item(0, 1, 2, 38, 1, "b"),
        item(0, 1, 3, 38, 1, "c"),
        panel(40, 0, 40, 20, "other"),
        item(4, 41, 1, 38, 1, "x"),
    ];
    let siblings = vec![1, 2, 3];
    assert_eq!(nearest(&v, &siblings, 1, Dir::Down), Some(2));
    assert_eq!(nearest(&v, &siblings, 3, Dir::Down), None, "the last row has no sibling below");
    assert_eq!(nearest(&v, &siblings, 2, Dir::Right), None, "rows of one column have no side neighbours");
}

#[test]
fn adjacent_panels_with_zero_gap_are_reachable() {
    let v = vec![panel(0, 0, 40, 10, "a"), panel(0, 10, 40, 10, "b")];
    let c = vec![0, 1];
    assert_eq!(nearest(&v, &c, 0, Dir::Down), Some(1));
    assert_eq!(nearest(&v, &c, 1, Dir::Up), Some(0));
}

#[test]
fn returns_none_at_the_edges() {
    let (v, c) = overview();
    assert_eq!(nearest(&v, &c, 0, Dir::Up), None);
    assert_eq!(nearest(&v, &c, 0, Dir::Left), None);
}

#[test]
fn wrap_cycles_within_the_candidate_set() {
    let c = vec![3, 7, 9];
    assert_eq!(wrap_within(&c, 9, true), Some(3));
    assert_eq!(wrap_within(&c, 3, false), Some(9));
    assert_eq!(wrap_within(&[], 0, true), None);
    assert_eq!(wrap_within(&c, 99, true), None, "a region outside the set gets nothing");
}

#[test]
fn tree_depth_is_not_limited_to_two_levels() {
    let mut reg = FocusRegistry::default();
    let a = reg.add_panel(Rect::new(0, 0, 40, 20), "proc.cpu", "Processes");
    let b = reg.add_child(a, Rect::new(1, 1, 38, 1), "proc.cpu", "pid 1322");
    let c = reg.add_child(b, Rect::new(2, 2, 36, 1), "proc.threads", "threads");
    let d = reg.add_child(c, Rect::new(3, 3, 34, 1), "proc.state", "state");
    assert_eq!(reg.depth_of(a), 0);
    assert_eq!(reg.depth_of(b), 1);
    assert_eq!(reg.depth_of(c), 2);
    assert_eq!(reg.depth_of(d), 3, "depth is not limited to two levels");
    assert_eq!(reg.path_to(d), vec![a, b, c, d], "the breadcrumb reaches the top level");
    assert_eq!(reg.parent_of(d), Some(c));
    assert_eq!(reg.children_of(b), vec![c]);
}

#[test]
fn siblings_are_scoped_to_the_same_parent() {
    let mut reg = FocusRegistry::default();
    let p1 = reg.add_panel(Rect::new(0, 0, 40, 20), "cpu.load", "A");
    let p2 = reg.add_panel(Rect::new(40, 0, 40, 20), "mem.used", "B");
    let a1 = reg.add_child(p1, Rect::new(1, 1, 38, 1), "cpu.usage", "a1");
    let a2 = reg.add_child(p1, Rect::new(1, 2, 38, 1), "cpu.freq", "a2");
    let b1 = reg.add_child(p2, Rect::new(41, 1, 38, 1), "mem.swap", "b1");
    assert_eq!(reg.siblings_of(a1), vec![a1, a2], "moves stay under one parent");
    assert_eq!(reg.siblings_of(b1), vec![b1]);
    assert_eq!(reg.siblings_of(p1), vec![p1, p2], "the top level's siblings are all the roots");
}

#[test]
fn depth_survives_malformed_data_without_hanging() {
    let mut reg = FocusRegistry::default();
    let a = reg.add_panel(Rect::new(0, 0, 10, 10), "x", "x");
    assert_eq!(reg.depth_of(a), 0);
    assert_eq!(reg.depth_of(999), 0, "an index out of range does not panic");
}

#[test]
fn a_cycle_of_parents_still_ends() {
    let mut reg = FocusRegistry::default();
    reg.add_child(1, Rect::new(0, 0, 10, 10), "a", "a");
    reg.add_child(0, Rect::new(0, 0, 10, 10), "b", "b");
    assert_eq!(reg.depth_of(0), 33);
    let path = reg.path_to(0);
    assert_eq!(path.len(), 33);
    assert_eq!(*path.last().unwrap(), 0);
}

#[test]
fn registry_separates_panels_from_items() {
    let mut reg = FocusRegistry::default();
    let p = reg.add_panel(Rect::new(0, 0, 40, 10), "cpu.load", "Core Statistics");
    reg.add_item(p, Rect::new(1, 1, 38, 1), "cpu.usage", "Logical CPUs");
    reg.add_item(p, Rect::new(1, 2, 38, 1), "cpu.freq", "Avg Frequency");
    let p2 = reg.add_panel(Rect::new(40, 0, 40, 10), "proc.cpu", "Processes");
    assert_eq!(reg.panels(), vec![0, 3]);
    assert_eq!(reg.items_of(p), vec![1, 2]);
    assert!(reg.items_of(p2).is_empty());
    assert_eq!(reg.panel_of(1), Some(0), "a row knows its panel");
    assert_eq!(reg.panel_of(0), Some(0), "a panel is its own panel");
}

#[test]
fn zero_sized_regions_are_ignored() {
    let mut reg = FocusRegistry::default();
    assert_eq!(reg.add_panel(Rect::new(0, 0, 0, 5), "x", "x"), usize::MAX);
    assert!(reg.is_empty());
}

#[test]
fn list_panels_are_marked_scrollable() {
    let mut reg = FocusRegistry::default();
    let p = reg.add_list_panel(Rect::new(0, 0, 40, 20), "proc.cpu", "Processes");
    assert!(reg.get(p).unwrap().scrollable);
    let q = reg.add_panel(Rect::new(0, 0, 40, 20), "cpu.load", "Stats");
    assert!(!reg.get(q).unwrap().scrollable);
}

#[test]
fn rows_are_found_again_by_their_list_index() {
    let mut reg = FocusRegistry::default();
    let p = reg.add_list_panel(Rect::new(0, 0, 40, 20), "proc", "Processes");
    reg.add_row(p, Rect::new(1, 1, 38, 1), "proc", "pid 1", 40);
    let r = reg.add_row(p, Rect::new(1, 2, 38, 1), "proc", "pid 2", 41);
    assert_eq!(reg.row_with_index(p, 41), Some(r));
    assert_eq!(reg.row_with_index(p, 7), None);
    assert_eq!(reg.len(), 3);
    reg.clear();
    assert!(reg.is_empty());
}

#[test]
fn wrapping_forward_then_back_returns_home() {
    let cands = [3usize, 7, 9];
    for &from in &cands {
        for forward in [true, false] {
            let to = wrap_within(&cands, from, forward).unwrap();
            assert!(cands.contains(&to));
            assert_eq!(wrap_within(&cands, to, !forward), Some(from));
        }
    }
    assert_eq!(wrap_within(&cands, 9, true), Some(3));
    assert_eq!(wrap_within(&cands, 3, false), Some(9));
    assert_eq!(wrap_within(&cands, 4, true), None);
}
