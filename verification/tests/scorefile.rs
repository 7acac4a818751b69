use sysview::scorefile::{file_counts, file_uid};

#[test]
fn only_a_plain_uid_names_a_score_file() {
    assert_eq!(file_uid("1000.json"), Some(1000));
    assert_eq!(file_uid("0042.json"), Some(42));
    assert_eq!(file_uid("4294967295.json"), Some(u32::MAX));
    assert_eq!(file_uid("4294967296.json"), None, "past u32");
    assert_eq!(file_uid(".json"), None);
    assert_eq!(file_uid("+5.json"), None, "no sign");
    assert_eq!(file_uid("5.json.tmp"), None);
    assert_eq!(file_uid("abc.json"), None);
    assert_eq!(file_uid("12.JSON"), None);
    assert_eq!(file_uid("１２.json"), None, "only ASCII digits");
}

#[test]
fn a_score_file_counts_only_as_its_owners_regular_file() {
    assert!(file_counts(1000, true, 100, 1000));
    assert!(!file_counts(1000, true, 100, 1001), "someone else's records");
    assert!(!file_counts(1000, false, 100, 1000), "a link or a directory");
    assert!(!file_counts(1000, true, 65537, 1000), "too large");
    assert!(file_counts(1000, true, 65536, 1000));
}
