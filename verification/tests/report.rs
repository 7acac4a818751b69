use sysview::report::{permissions, sections, SCHEMA};

#[test]
fn json_declares_its_permission_boundary_and_no_admin_section() {
    let keys = sections();
    assert!(keys.contains(&"permissions"));
    assert!(!keys.contains(&"admin"));
    assert!(!keys.contains(&"user_storage"));
    let p = permissions(1000);
    assert_eq!(p.euid, 1000);
    assert!(p.note.contains("--json 不會提升權限"));
}

#[test]
fn json_has_a_stable_schema() {
    assert_eq!(SCHEMA, 1);
    assert_eq!(sections()[0], "sysview_version");
    assert_eq!(sections().len(), 11);
}
