use sysview::explain::{compose, explain_heading, explain_sections, Certainty, Describe, Field, Look};

#[test]
fn the_title_names_what_the_user_framed() {
    let (t, s) = explain_heading(Some("  Logical CPUs "), "CPU Utilization", "Metric", Some("cpu.util"));
    assert_eq!(t, "Logical CPUs");
    assert_eq!(s, "Metric · CPU Utilization · cpu.util");
    let (t, s) = explain_heading(None, "CPU Utilization", "Metric", Some("cpu.util"));
    assert_eq!(t, "CPU Utilization");
    assert_eq!(s, "Metric · cpu.util");
    let (t, s) = explain_heading(Some("   "), "eth0", "Interface", None);
    assert_eq!((t.as_str(), s.as_str()), ("eth0", "Interface"), "a blank label falls back to the title");
    let (t, s) = explain_heading(Some("MAC"), "eth0", "Interface", None);
    assert_eq!((t.as_str(), s.as_str()), ("MAC", "Interface · eth0"));
    let (_, s) = explain_heading(Some("eth0"), "eth0", "Interface", None);
    assert_eq!(s, "Interface", "the label is the title: no repeat");
}

fn describe(title: &str) -> Describe {
    Describe {
        title: title.to_string(),
        kind: "T".to_string(),
        metric_id: None,
        summary: String::new(),
        current: vec![],
        derivation: None,
        source: vec![],
        how_obtained: None,
        pitfalls: vec![],
        commands: vec![],
        related: vec![],
        permission_note: None,
    }
}

fn field(label: &str, value: &str, certainty: Certainty) -> Field {
    Field { label: label.to_string(), value: value.to_string(), certainty }
}

fn text(c: &Describe) -> String {
    compose(c)
        .iter()
        .map(|l| l.iter().map(|p| p.text.as_str()).collect::<String>())
        .collect::<Vec<_>>()
        .join("\n")
}

#[test]
fn sections_that_do_not_apply_are_omitted_entirely() {
    let mut c = describe("x");
    c.summary = "s".to_string();
    let t = text(&c);
    assert!(!t.contains("Formula"), "沒有算式就不該顯示 Formula 區塊");
    assert!(!t.contains("Current"), "沒有當前值就不該顯示 Current 區塊");
    assert!(!t.contains("n/a"));
    assert!(t.contains("What is this?"));
}

#[test]
fn estimated_values_are_visibly_tagged() {
    let mut c = describe("x");
    c.current = vec![
        field("精確", "42", Certainty::Exact),
        field("推估", "43", Certainty::Estimated),
        field("拿不到", "unsupported", Certainty::Unavailable),
    ];
    let t = text(&c);
    assert!(t.contains("(estimated)"), "估計值必須標出來：{t}");
    assert!(t.contains("(unavailable)"));
    let exact_line = t.lines().find(|l| l.contains("精確")).unwrap();
    assert!(!exact_line.contains('('), "精確值不該有註記：{exact_line}");
}

#[test]
fn every_section_comes_in_order_with_one_blank_line_between() {
    let mut c = describe("x");
    c.summary = "what".to_string();
    c.current = vec![field("a", "1", Certainty::Exact), field("longer", "2", Certainty::Derived)];
    c.derivation = Some("a / b".to_string());
    c.source = vec!["/proc/stat".to_string()];
    c.how_obtained = Some("read twice".to_string());
    c.pitfalls = vec!["careful".to_string()];
    c.commands = vec!["top".to_string()];
    c.related = vec!["cpu.load".to_string(), "cpu.iowait".to_string()];
    c.permission_note = Some("root only".to_string());
    let titles: Vec<&str> = explain_sections(&c).iter().map(|s| s.title).collect();
    assert_eq!(
        titles,
        vec![
            "What is this?",
            "Current",
            "Formula",
            "Source",
            "How sysview got it",
            "Things to know",
            "Equivalent commands",
            "Related",
            "Permission"
        ]
    );
    let t = text(&c);
    assert_eq!(
        t,
        "What is this?\nwhat\n\nCurrent\n  a       1\n  longer  2\n\nFormula\na / b\n\nSource\n  /proc/stat\n\n\
         How sysview got it\nread twice\n\nThings to know\n  ! careful\n\nEquivalent commands\n  $ top\n\n\
         Related\ncpu.load  ·  cpu.iowait\n\nPermission\nroot only"
    );
    let lines = compose(&c);
    assert_eq!(lines[0][0].look, Look::Heading);
    assert_eq!(lines[17][0].look, Look::WarningBold);
}

#[test]
fn current_labels_are_padded_to_the_widest_but_not_past_twenty_eight_columns() {
    let mut c = describe("x");
    let long = "L".repeat(40);
    c.current = vec![field("ab", "1", Certainty::Exact), field(&long, "2", Certainty::Exact)];
    let t = text(&c);
    let lines: Vec<&str> = t.lines().collect();
    assert_eq!(lines[1], format!("  ab{}  1", " ".repeat(26)));
    assert_eq!(lines[2], format!("  {}…  2", "L".repeat(27)));
}

#[test]
fn an_empty_description_has_no_sections() {
    assert!(explain_sections(&describe("x")).is_empty());
    assert!(compose(&describe("x")).is_empty());
}
