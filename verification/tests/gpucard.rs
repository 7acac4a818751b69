use sysview::gpucard::{card_facts, card_heading, Fact, GpuCard};

fn card() -> GpuCard {
    GpuCard {
        vendor: "NVIDIA".to_string(),
        name: "RTX 4090".to_string(),
        backend: "nvml".to_string(),
        driver: Some("550.54".to_string()),
        estimated: false,
        temperature: Some(Fact { value: "61 °C".to_string(), metric: Some("gpu.temp".to_string()) }),
        power: Some("310.5".to_string()),
        power_limit: Some("450".to_string()),
        core_clock: None,
        clock_range: None,
        memory_clock: None,
        fan: None,
        pstate: Some("P2".to_string()),
        pcie: Some((4, 16)),
        processes: 3,
        complete: true,
    }
}

#[test]
fn the_heading_names_the_card_and_its_driver() {
    let (t, s) = card_heading(&card());
    assert_eq!(t, "NVIDIA · RTX 4090");
    assert_eq!(s, "driver 550.54  [nvml]");
    let mut c = card();
    c.driver = None;
    c.estimated = true;
    assert_eq!(card_heading(&c).1, "[nvml] [ESTIMATED]");
}

#[test]
fn only_reported_facts_get_a_row() {
    let rows = card_facts(&card());
    let labels: Vec<&str> = rows.iter().map(|r| r.label.as_str()).collect();
    assert_eq!(labels, vec!["Temperature", "Power", "Perf state", "PCIe link", "Compute procs"]);
    assert_eq!(rows[1].value, "310.5 / 450 W");
    assert_eq!(rows[3].value, "gen4 x16");
    assert_eq!(rows[4].value, "3 個");
    assert_eq!(rows[0].metric.as_deref(), Some("gpu.temp"));
}

#[test]
fn an_estimated_card_says_so_and_partial_process_lists_are_marked() {
    let mut c = card();
    c.estimated = true;
    c.power_limit = None;
    c.complete = false;
    let rows = card_facts(&c);
    assert_eq!(rows[1].value, "310.5 W");
    let q = rows.iter().find(|r| r.label == "Data quality").unwrap();
    assert!(q.estimate);
    assert_eq!(rows.last().unwrap().value, "3 個（僅自己的）");
    c.processes = 0;
    assert_eq!(card_facts(&c).last().unwrap().value, "none");
}

use sysview::gpucard::{panel_rows, panel_subtitle, GpuSummary, PanelLine};

fn summary(name: &str, vram: bool) -> GpuSummary {
    GpuSummary {
        name: name.to_string(),
        temperature: Some("61°C".to_string()),
        power: Some("120W".to_string()),
        estimated: false,
        has_vram: vram,
    }
}

#[test]
fn the_overview_panel_counts_its_cards() {
    assert_eq!(panel_subtitle(0), "none");
    assert_eq!(panel_subtitle(2), "2 張");
}

#[test]
fn the_overview_panel_gives_each_card_its_rows_while_they_fit() {
    let cards = vec![summary("RTX 4090", true), summary("Arc A770", false), summary("third", true)];
    let rows = panel_rows(&None, &cards, 40, 6);
    let plan: Vec<(u16, Option<usize>)> = rows.iter().map(|p| (p.y, p.card)).collect();
    assert_eq!(plan, vec![(0, Some(0)), (1, Some(0)), (2, Some(0)), (3, Some(1)), (4, Some(1))]);
    match &rows[0].line {
        PanelLine::Name { name, facts, facts_x } => {
            assert_eq!(name, "RTX 4090");
            assert_eq!(facts, "61°C  120W");
            assert_eq!(*facts_x, 30);
        },
        _ => panic!("the first line names the card"),
    }
    assert!(matches!(rows[2].line, PanelLine::Vram));
}

#[test]
fn an_nvidia_error_comes_first_with_the_hint() {
    let rows = panel_rows(&Some("driver mismatch".to_string()), &vec![], 40, 5);
    assert_eq!(rows.len(), 2);
    match &rows[0].line {
        PanelLine::Error(m) => assert_eq!(m, "✗ NVIDIA: driver mismatch"),
        _ => panic!("the error comes first"),
    }
    assert!(matches!(rows[1].line, PanelLine::Hint));
    assert_eq!(panel_rows(&Some("x".to_string()), &vec![], 40, 1).len(), 1);
}

#[test]
fn an_empty_panel_plans_nothing_and_no_card_gets_the_placeholder() {
    assert!(panel_rows(&Some("x".to_string()), &vec![], 40, 0).is_empty());
    let rows = panel_rows(&None, &vec![], 40, 5);
    assert_eq!(rows.len(), 1);
    assert!(matches!(rows[0].line, PanelLine::NoGpu));
    let mut c = summary("iGPU", false);
    c.estimated = true;
    let rows = panel_rows(&None, &vec![c], 40, 5);
    assert!(matches!(rows[1].line, PanelLine::Utilization { estimated: true }));
    let rows = panel_rows(&Some("a very long driver error message".to_string()), &vec![], 12, 5);
    match &rows[0].line {
        PanelLine::Error(m) => assert_eq!(m, "✗ NVIDIA: a…"),
        _ => panic!("the error comes first"),
    }
}
