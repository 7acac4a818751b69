use sysview::scoreboard::{sanitize_name, tag, verify, Board, Entry, Stored, Verdict, TOP, RecordPlan, plan_record, recorded};
use sysview::siphash::siphash24;

fn entry(name: &str, score: u32, at: u64, uid: u32) -> Entry {
    Entry { name: name.into(), score, at, uid }
}

fn stored(uid: u32, name: &str, score: u32, at: u64) -> Stored {
    Stored { name: name.into(), score, at, tag: tag(uid, name, score, at) }
}

#[test]
fn siphash_matches_the_reference_vectors() {
    let key: [u8; 16] = core::array::from_fn(|i| i as u8);
    let msg: Vec<u8> = (0u8..15).collect();
    assert_eq!(siphash24(&key, &[]), 0x726f_db47_dd0e_0e31);
    assert_eq!(siphash24(&key, &msg), 0xa129_ca61_49be_45e5);
}

#[test]
fn the_tag_binds_every_field_including_the_account() {
    let t = tag(1000, "jay", 120, 7);
    assert_eq!(t.len(), 16);
    assert_ne!(t, tag(1001, "jay", 120, 7));
    assert_ne!(t, tag(1000, "Ada", 120, 7));
    assert_ne!(t, tag(1000, "jay", 121, 7));
    assert_ne!(t, tag(1000, "jay", 120, 8));
    assert_eq!(t, tag(1000, "jay", 120, 7));
}

#[test]
fn the_board_keeps_the_highest_score_per_name_and_sorts_by_score() {
    let b = Board::merge(vec![
        entry("jay", 100, 5, 1),
        entry("amy", 300, 1, 2),
        entry("jay", 250, 9, 3),
        entry("bob", 250, 2, 4),
        entry("zero", 0, 1, 5),
    ]);
    let names: Vec<(&str, u32, u32)> = b.top().iter().map(|e| (e.name.as_str(), e.score, e.uid)).collect();
    assert_eq!(names, vec![("amy", 300, 2), ("bob", 250, 4), ("jay", 250, 3)]);
}

#[test]
fn qualifying_is_strictly_above_fifth_place() {
    let empty = Board::default();
    assert!(empty.qualifies(1));
    assert!(!empty.qualifies(0), "a score of zero is never asked for a name");
    let b = Board::merge((0..5).map(|i| entry(&format!("u{i}"), 100 + i, 0, 1)).collect());
    assert!(!b.qualifies(100), "a tie with fifth place does not count");
    assert!(b.qualifies(101));
    let four = Board::merge((0..4).map(|i| entry(&format!("u{i}"), 100 + i, 0, 1)).collect());
    assert!(four.qualifies(1), "below five entries any score gets in");
}

#[test]
fn names_are_sanitized_before_they_reach_the_screen() {
    assert_eq!(sanitize_name("  jay   wu "), "jay wu");
    assert_eq!(sanitize_name("\x1b[31mred\x1b[0m"), "[31mred[0m");
    assert_eq!(sanitize_name("a\u{200b}b\tc"), "abc");
    assert_eq!(sanitize_name("jay\u{3000}wu"), "jay wu", "an ideographic space is a space");
    assert_eq!(sanitize_name("abcdefghijklmnop"), "abcdefghijkl", "too long is cut");
    assert_eq!(sanitize_name("測試測試測試測試"), "測試測試測試", "wide characters count twice");
    assert_eq!(sanitize_name("   "), "");
}

#[test]
fn verified_records_from_other_accounts_merge_and_show_their_account() {
    let mine = verify(1000, &stored(1000, "jay", 120, 5)).unwrap();
    let theirs = verify(1001, &stored(1001, "jay", 50, 2)).unwrap();
    let amy = verify(1001, &stored(1001, "amy", 500, 1)).unwrap();
    assert!(verify(1000, &stored(1001, "amy", 500, 1)).is_none(), "someone else's tag moved into my file does not count");
    let b = Board::merge(vec![theirs, amy, mine]);
    let rows: Vec<(&str, u32, u32)> = b.top().iter().map(|e| (e.name.as_str(), e.score, e.uid)).collect();
    assert_eq!(rows, vec![("amy", 500, 1001), ("jay", 120, 1000)]);
}

#[test]
fn sanitizing_twice_changes_nothing() {
    for raw in ["  jay   wu ", "\x1b[31mred", "測試測試測試測試", "a\u{200b}b\tc", ""] {
        let once = sanitize_name(raw);
        assert_eq!(sanitize_name(&once), once);
    }
}

#[test]
fn merging_keeps_each_names_best_and_never_more_than_the_top() {
    let b = Board::merge((0..9).map(|i| entry(&format!("p{}", i % 3), 10 * (i + 1), i as u64, 7)).collect());
    assert_eq!(b.top().len(), 3);
    assert_eq!(b.best_of("p0"), Some(70));
    assert_eq!(b.best_of("p2"), Some(90));
    assert_eq!(b.rank_of("p2"), Some(1));
    assert_eq!(b.rank_of("nobody"), None);
    let many = Board::merge((0..20).map(|i| entry(&format!("n{i}"), 5 + i, 0, 1)).collect());
    assert_eq!(many.top().len(), TOP);
    assert!(!many.is_empty());
}

#[test]
fn a_tampered_tag_is_rejected() {
    let mut s = stored(1000, "ok", 77, 1);
    assert!(verify(1000, &s).is_some());
    s.tag = "0000000000000000".into();
    assert!(verify(1000, &s).is_none());
    let mut s = stored(1000, "ok", 77, 1);
    s.score = 78;
    assert!(verify(1000, &s).is_none());
}

#[test]
fn recording_plans_only_move_a_name_up() {
    let board = Board::merge(vec![entry("jay", 200, 1, 1000)]);
    let mine = Board::merge(vec![entry("jay", 200, 1, 1000)]);
    match plan_record(&board, &mine, 1000, "jay", 150, 9) {
        RecordPlan::NotHigher { existing } => assert_eq!(existing, 200),
        other => panic!("unexpected plan {other:?}"),
    }
    match plan_record(&board, &mine, 1000, "  ", 150, 9) {
        RecordPlan::Invalid => {}
        other => panic!("unexpected plan {other:?}"),
    }
    match plan_record(&board, &mine, 1000, "jay", 260, 9) {
        RecordPlan::Write { stored } => {
            assert_eq!(stored.len(), 1);
            assert_eq!(stored[0].score, 260);
            assert_eq!(stored[0].tag, tag(1000, "jay", 260, 9));
        }
        other => panic!("unexpected plan {other:?}"),
    }
    let after = Board::merge(vec![entry("jay", 260, 9, 1000)]);
    assert_eq!(recorded(&after, "jay"), Verdict::Recorded { rank: 1 });
}

#[test]
fn an_accounts_file_keeps_one_record_per_name_and_at_most_fifty() {
    let others: Vec<Entry> = (0..49).map(|i| entry(&format!("n{i}"), 1000 + i, 1, 1000)).collect();
    let mine = Board::merge(others.clone());
    let board = mine.clone();
    match plan_record(&board, &mine, 1000, "late", 5, 9) {
        RecordPlan::Write { stored } => {
            assert_eq!(stored.len(), 50);
            assert_eq!(stored.iter().filter(|s| s.name == "late").count(), 1, "kept below fifty other names");
        }
        other => panic!("unexpected plan {other:?}"),
    }
    let mut fifty = others;
    fifty.push(entry("n49", 2000, 1, 1000));
    let mine = Board::merge(fifty);
    match plan_record(&mine.clone(), &mine, 1000, "late", 5, 9) {
        RecordPlan::Write { stored } => {
            assert_eq!(stored.len(), 50, "the file is cut to fifty");
            assert!(stored.iter().all(|s| s.name != "late"), "the lowest record is the one cut");
        }
        other => panic!("unexpected plan {other:?}"),
    }
}
