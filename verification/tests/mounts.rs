use sysview::mounts::{bar_place, columns, device_name, fs_label};

#[test]
fn the_wide_table_has_eight_columns_and_the_narrow_one_four() {
    let wide = columns(120);
    assert_eq!(wide.len(), 8);
    assert_eq!(wide[1], ("DEVICE", 12, false));
    let narrow = columns(95);
    assert_eq!(narrow.iter().map(|c| c.0).collect::<Vec<_>>(), vec!["MOUNT", "SIZE", "FREE", "USE%"]);
    assert_eq!(columns(96).len(), 8);
}

#[test]
fn devices_lose_their_dev_prefix() {
    assert_eq!(device_name("/dev/nvme0n1p2"), "nvme0n1p2");
    assert_eq!(device_name("/dev//dev/sda"), "sda");
    assert_eq!(device_name("/dev/dev/sda"), "dev/sda");
    assert_eq!(device_name("/dev/"), "");
    assert_eq!(device_name("tmpfs"), "tmpfs");
    assert_eq!(fs_label("ext4"), "[ext4]");
}

#[test]
fn the_usage_bar_sits_after_the_columns_before_it_when_there_is_room() {
    assert_eq!(bar_place(120), Some((77, 12)));
    assert_eq!(bar_place(95), Some((39, 10)));
    assert_eq!(bar_place(55), None);
    assert_eq!(bar_place(56), Some((39, 10)));
}
