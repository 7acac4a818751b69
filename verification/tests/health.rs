use sysview::health::{findings, overall_health, HealthInputs, MountHealth, Percent};
use sysview::theme::Severity;

fn pct(tenths: u32, shown: &str) -> Option<Percent> {
    Some(Percent { tenths, shown: shown.to_string() })
}

fn quiet() -> HealthInputs {
    HealthInputs { cpu: pct(120, "12"), memory: pct(400, "40"), mounts: vec![], nvidia_unavailable: false, blocked: None }
}

#[test]
fn a_quiet_system_is_healthy() {
    let (s, why) = overall_health(&quiet());
    assert_eq!(s, Severity::Normal);
    assert_eq!(why, "system healthy");
}

#[test]
fn the_worst_condition_wins_and_the_first_of_equals() {
    let mut h = quiet();
    h.cpu = pct(950, "95");
    h.memory = pct(850, "85");
    h.nvidia_unavailable = true;
    let (s, why) = overall_health(&h);
    assert_eq!(s, Severity::Warning);
    assert_eq!(why, "CPU 95%");
    h.mounts = vec![
        MountHealth { severity: Severity::Notice, point: "/boot".to_string(), shown: "70".to_string() },
        MountHealth { severity: Severity::Critical, point: "/".to_string(), shown: "97".to_string() },
    ];
    let (s, why) = overall_health(&h);
    assert_eq!(s, Severity::Critical);
    assert_eq!(why, "/ 97%");
}

#[test]
fn thresholds_are_ninety_and_eighty_percent() {
    let mut h = quiet();
    h.memory = pct(900, "90");
    assert_eq!(overall_health(&h), (Severity::Critical, "memory 90%".to_string()));
    h.memory = pct(899, "90");
    assert_eq!(overall_health(&h), (Severity::Warning, "memory 90%".to_string()));
    h.memory = pct(799, "80");
    h.cpu = pct(899, "90");
    h.blocked = Some("3".to_string());
    assert_eq!(overall_health(&h), (Severity::Notice, "3 blocked on I/O".to_string()));
    assert_eq!(findings(&h).len(), 1);
}
