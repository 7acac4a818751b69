use sysview::visual::pattern::{compose_cells, Pattern};
use sysview::widgets::viz::waffle_glyph;
use sysview::widgets::viz::waffle_plan;

#[test]
fn every_pattern_survives_a_monochrome_terminal() {
    for p in Pattern::ALL.iter() {
        assert!(p.distinguishable_without_color(), "{} disappears without colour", p.name());
        assert!(p.ramp().len() >= 2, "{}: fewer than two steps", p.name());
    }
}

#[test]
fn patterns_do_not_collide_with_each_other() {
    let mut seen = Vec::new();
    for p in Pattern::ALL.iter() {
        assert!(!seen.contains(&p.glyph()), "{} repeats an earlier glyph", p.name());
        seen.push(p.glyph());
    }
}

#[test]
fn parse_round_trips_every_name() {
    for p in Pattern::ALL.iter() {
        assert_eq!(Pattern::parse(p.name()), Some(*p));
        assert_eq!(Pattern::parse(&p.name().to_uppercase()), Some(*p));
    }
    assert_eq!(Pattern::parse("nonsense"), None);
}

#[test]
fn the_waffle_uses_each_patterns_own_glyph() {
    assert_eq!(waffle_glyph(Pattern::Solid), '▇', "solid cells leave a hairline between rows");
    for p in Pattern::ALL.iter().filter(|p| **p != Pattern::Solid) {
        assert_eq!(waffle_glyph(*p), p.glyph());
    }
    assert_eq!(Pattern::default(), Pattern::Solid);
}

#[test]
fn every_slice_of_a_waffle_gets_a_cell() {
    // one user with almost everything, one with almost nothing: 12 cells,
    // 10 spare after each got one
    let plan = waffle_plan(12, &[10, 10]).unwrap();
    assert_eq!(plan.iter().filter(|o| **o == Some(0)).count(), 11);
    assert_eq!(plan.iter().filter(|o| **o == Some(1)).count(), 1);
    assert_eq!(plan[11], Some(1));
    // rounding short of the end: the last slice takes the rest
    let plan = waffle_plan(10, &[3, 6]).unwrap();
    assert_eq!(plan, vec![Some(0), Some(0), Some(0), Some(0), Some(1), Some(1), Some(1), Some(1), Some(1), Some(1)]);
    assert_eq!(waffle_plan(2, &[0, 0, 0]), None, "more slices than cells draws nothing");
    assert_eq!(waffle_plan(3, &[]), Some(vec![None, None, None]));
}

#[test]
fn composition_cells_go_to_the_first_segment_past_them() {
    assert_eq!(compose_cells(&[3, 4, 6], 6), vec![Some(0), Some(0), Some(0), Some(1), Some(2), Some(2)]);
    // a segment that ends before an earlier one's end gets nothing
    assert_eq!(compose_cells(&[2, 1, 5], 5), vec![Some(0), Some(0), Some(2), Some(2), Some(2)]);
    // a zero share (a negative value counts as zero) takes no cell
    assert_eq!(compose_cells(&[0, 8], 8), vec![Some(1); 8]);
    assert_eq!(compose_cells(&[], 3), vec![None, None, None]);
    assert_eq!(compose_cells(&[2], 4), vec![Some(0), Some(0), None, None]);
    assert!(compose_cells(&[1, 2], 0).is_empty());
}
