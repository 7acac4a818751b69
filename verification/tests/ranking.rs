use sysview::ranking::{by_usage, legend_fit, others_label, usage_groups};

#[test]
fn the_storage_legend_shows_the_biggest_users_not_the_first_alphabetically() {
    let users: [(&str, u64); 7] =
        [("alice", 1), ("bob", 20), ("carol", 90), ("dave", 1), ("erin", 20), ("zzz_big", 8000), ("zzz_huge", 9000)];
    let bytes: Vec<u64> = users.iter().map(|u| u.1).collect();
    let ranked = by_usage(&bytes);
    let top: Vec<&str> = ranked.iter().take(2).map(|&i| users[i].0).collect();
    assert_eq!(top, vec!["zzz_huge", "zzz_big"], "the biggest users are not first");
    let shown: u64 = ranked.iter().take(5).map(|&i| bytes[i]).sum();
    let total: u64 = bytes.iter().sum();
    assert!(shown * 100 / total > 95, "the top five cover only {}%", shown * 100 / total);
}

#[test]
fn equal_usage_keeps_the_listed_order() {
    assert_eq!(by_usage(&[5, 7, 5, 7, 1]), vec![1, 3, 0, 2, 4]);
    assert_eq!(by_usage(&[]), Vec::<usize>::new());
    assert_eq!(by_usage(&[3]), vec![0]);
    assert_eq!(by_usage(&[1, 2, 3]), vec![2, 1, 0]);
}

#[test]
fn the_top_five_get_parts_and_the_rest_is_summed() {
    let bytes = [10u64, 90, 8000, 9000, 100, 95, 1, 2];
    let (order, rest) = usage_groups(&bytes);
    assert_eq!(order, vec![3, 2, 4, 5, 1, 0, 7, 6]);
    assert_eq!(rest, 10 + 2 + 1);
    let (order, rest) = usage_groups(&[5, 5]);
    assert_eq!(order, vec![0, 1]);
    assert_eq!(rest, 0);
    let big = [u64::MAX; 7];
    let (_, rest) = usage_groups(&big);
    assert_eq!(rest, 2 * u64::MAX as u128);
}

#[test]
fn everyone_below_the_top_five_shares_one_part() {
    assert_eq!(others_label(5), None);
    assert_eq!(others_label(8).as_deref(), Some("其他 3 人"));
}

#[test]
fn the_legend_stops_at_the_first_entry_that_does_not_fit() {
    assert_eq!(legend_fit(&vec![10, 10, 10], 36), 3);
    assert_eq!(legend_fit(&vec![10, 10, 10], 35), 2);
    assert_eq!(legend_fit(&vec![10, 40, 1], 50), 1);
    assert_eq!(legend_fit(&vec![], 10), 0);
}
