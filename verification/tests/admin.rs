use sysview::visual::Decoration;
use sysview::admin::{
    gpu_process_rows, gpu_unavailable, gpu_user_rows, locked_lines, locked_rows, locked_signature, Emphasis, GpuProcessUse, GpuReport,
    GpuUse, GpuUser, Privilege,
};

#[test]
fn the_locked_page_says_it_is_locked_and_how_to_unlock() {
    let lines = locked_lines(&Privilege::Locked);
    assert_eq!(lines.len(), 13);
    assert_eq!(lines[0], ("管理員擴充功能目前是鎖住的。".to_string(), Emphasis::Warning));
    assert!(lines[2].0.contains("[u]"));
    assert!(lines.iter().any(|(t, _)| t.contains("sysview-priv")));
}

#[test]
fn a_refusal_is_not_an_error_and_shows_the_message() {
    let lines = locked_lines(&Privilege::Unauthorized("sudo: a password is required".to_string()));
    assert_eq!(lines[0].1, Emphasis::Critical);
    assert_eq!(lines.last().unwrap(), &("sudo: a password is required".to_string(), Emphasis::Faint));
    let lines = locked_lines(&Privilege::HelperMissing("/usr/local/bin/sysview-priv".to_string()));
    assert_eq!(lines[0].0, "找不到 sysview-priv helper。");
    assert_eq!(lines.len(), 6);
}

#[test]
fn an_unlocked_page_shows_none_of_the_locked_lines() {
    assert!(locked_lines(&Privilege::Available).is_empty());
}

#[test]
fn locked_rows_stop_at_the_bottom_and_cut_to_the_width() {
    let rows = locked_rows(&Privilege::Locked, 5, 10, 3);
    assert_eq!(rows.len(), 3);
    assert_eq!(rows[0].y, 5);
    assert_eq!(rows[2].y, 7);
    assert_eq!(rows[0].text, "管理員擴…");
    assert_eq!(rows[1].text, "");
}

fn user(name: Option<&str>, vram: &str, n: u64) -> GpuUser {
    GpuUser { user: name.map(|s| s.to_string()), vram: vram.to_string(), processes: n }
}

#[test]
fn an_unavailable_gpu_report_says_why() {
    let r = GpuReport { available: false, reason: None, users: vec![], devices: vec![] };
    assert_eq!(gpu_unavailable(&r).as_deref(), Some("NVML 不可用"));
    let r = GpuReport { available: false, reason: Some("no driver".to_string()), users: vec![], devices: vec![] };
    assert_eq!(gpu_unavailable(&r).as_deref(), Some("no driver"));
    let r = GpuReport { available: true, reason: Some("x".to_string()), users: vec![], devices: vec![] };
    assert_eq!(gpu_unavailable(&r), None);
}

#[test]
fn gpu_user_rows_keep_the_selection_in_view() {
    let users: Vec<GpuUser> = (0..10).map(|i| user(Some(&format!("u{i}")), "1 GiB", i)).collect();
    let rows = gpu_user_rows(&users, 9, 4);
    assert_eq!(rows.len(), 4);
    assert_eq!(rows[0], vec!["u6".to_string(), "1 GiB".to_string(), "6".to_string()]);
    assert_eq!(rows[3][0], "u9");
    let rows = gpu_user_rows(&vec![user(None, "0 B", 12)], 0, 4);
    assert_eq!(rows, vec![vec!["?".to_string(), "0 B".to_string(), "12".to_string()]]);
}

#[test]
fn gpu_process_rows_go_device_by_device_and_stop_at_the_bottom() {
    let p = |pid: u64, name: Option<&str>| GpuProcessUse {
        pid,
        user: Some("alice".to_string()),
        used: "512 MiB".to_string(),
        name: name.map(|s| s.to_string()),
    };
    let devs = vec![
        GpuUse { index: 0, processes: vec![p(100, Some("python")), p(101, None)] },
        GpuUse { index: 1, processes: vec![p(200, Some("blender"))] },
    ];
    let rows = gpu_process_rows(&devs, 10);
    assert_eq!(rows.len(), 3);
    assert_eq!(rows[1], vec!["0", "101", "alice", "512 MiB", "?"].iter().map(|s| s.to_string()).collect::<Vec<_>>());
    assert_eq!(rows[2][0], "1");
    assert_eq!(gpu_process_rows(&devs, 2).len(), 2);
}

#[test]
fn the_locked_page_signs_its_bottom_row_when_there_is_room() {
    let sig = locked_signature(&Privilege::Locked, 2, 80, 20, Decoration::Minimal).unwrap();
    assert_eq!(sig.0, 21);
    assert_eq!(sig.1, "// PRIVILEGED EXTENSIONS  ╴╴╴╴");
    assert_eq!(locked_signature(&Privilege::Locked, 2, 80, 20, Decoration::Nothing), None);
    assert_eq!(locked_signature(&Privilege::Locked, 2, 80, 14, Decoration::Full), None);
    assert!(locked_signature(&Privilege::Available, 0, 10, 2, Decoration::Full).is_some());
}
