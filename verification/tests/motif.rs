use sysview::format::width as dw;
use sysview::visual::motif::{circuit, dashed, rule, rule_plain, ticks, MOTIF_CHARS};

#[test]
fn every_motif_renders_exactly_the_requested_width() {
    for w in [0usize, 1, 3, 7, 8, 20, 79, 200] {
        assert_eq!(dw(&rule(w)), w, "rule({w})");
        assert_eq!(dw(&dashed(w)), w, "dashed({w})");
        assert_eq!(dw(&ticks(w)), w, "ticks({w})");
        assert_eq!(dw(&circuit(w, 3)), w, "circuit({w})");
        assert_eq!(dw(&rule_plain(w)), w, "rule_plain({w})");
    }
}

#[test]
fn motifs_are_single_width_so_they_cannot_break_a_border() {
    for s in [rule(40), dashed(40), ticks(40), circuit(40, 1)] {
        assert_eq!(s.chars().count(), dw(&s), "{s:?} holds a character that is not one column wide");
    }
}

#[test]
fn circuit_is_deterministic() {
    assert_eq!(circuit(30, 42), circuit(30, 42));
    assert_ne!(circuit(30, 42), circuit(30, 43));
}

#[test]
fn rule_degrades_gracefully_when_it_is_too_narrow_for_the_tail() {
    for w in 1..8 {
        let r = rule(w);
        assert_eq!(dw(&r), w);
        assert!(!r.contains('╴'), "no tail when it is too narrow");
    }
    assert!(rule(20).ends_with("╴╴╴"));
    assert!(MOTIF_CHARS.contains(&'▏'));
}
