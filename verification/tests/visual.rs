use sysview::layout::Rect;
use sysview::visual::slot::{
    fit, logo_level, logo_plan, mascot_plan, signature_plan, signature_right_fits, signature_shown, Draw, Fit, Tone, MASCOT_H, MASCOT_W,
    GROUND_SEED,
};
use sysview::visual::logo::{tagline, Brand};
use sysview::visual::mascot::{ground, Species, State};
use sysview::visual::{Decoration, Density};

fn r(w: u16, h: u16) -> Rect {
    Rect::new(0, 0, w, h)
}

#[test]
fn decorations_step_down_as_the_terminal_shrinks() {
    assert_eq!(Decoration::resolve("auto", r(200, 60)), Decoration::Full);
    assert_eq!(Decoration::resolve("auto", r(140, 36)), Decoration::Standard);
    assert_eq!(Decoration::resolve("auto", r(100, 26)), Decoration::Minimal);
    assert_eq!(Decoration::resolve("auto", r(80, 24)), Decoration::Nothing);
    assert_eq!(Decoration::resolve("auto", r(200, 18)), Decoration::Nothing);
}

#[test]
fn off_always_wins() {
    for (w, h) in [(200u16, 60u16), (80, 24), (40, 10)] {
        assert_eq!(Decoration::resolve("off", r(w, h)), Decoration::Nothing);
    }
}

#[test]
fn full_still_backs_off_when_there_is_no_room() {
    assert_eq!(Decoration::resolve("full", r(200, 60)), Decoration::Full);
    assert_eq!(Decoration::resolve("full", r(120, 32)), Decoration::Full);
    assert_eq!(Decoration::resolve("full", r(70, 20)), Decoration::Nothing, "too small even for full");
}

#[test]
fn ordering_lets_call_sites_ask_at_least() {
    assert!(Decoration::Full.at_least(Decoration::Standard));
    assert!(Decoration::Standard.at_least(Decoration::Minimal));
    assert!(!Decoration::Minimal.at_least(Decoration::Standard));
    assert!(!Decoration::Nothing.at_least(Decoration::Minimal));
}

#[test]
fn density_prefers_compact_when_rows_are_scarce() {
    assert_eq!(Density::resolve("auto", r(160, 50)), Density::Comfortable);
    assert_eq!(Density::resolve("auto", r(160, 24)), Density::Compact);
    assert_eq!(Density::resolve("compact", r(200, 60)), Density::Compact);
    assert_eq!(Density::resolve("comfortable", r(60, 16)), Density::Comfortable);
    assert_eq!(Density::Comfortable.gap(), 1);
    assert_eq!(Density::Compact.gap(), 0);
}

#[test]
fn fit_degrades_with_space() {
    assert_eq!(fit(Rect::new(0, 0, 60, 20), Decoration::Full), Fit::Full);
    assert_eq!(fit(Rect::new(0, 0, 200, 60), Decoration::Standard), Fit::Full);
    assert_eq!(fit(Rect::new(0, 0, 40, 12), Decoration::Full), Fit::Nothing);
    assert_eq!(fit(Rect::new(0, 0, 20, 6), Decoration::Full), Fit::Nothing);
    assert_eq!(fit(Rect::new(0, 0, 55, 20), Decoration::Full), Fit::Nothing);
    assert_eq!(fit(Rect::new(0, 0, 200, 60), Decoration::Minimal), Fit::Nothing);
    assert_eq!(fit(Rect::new(0, 0, MASCOT_W, MASCOT_H), Decoration::Full), Fit::Nothing, "a row is kept for the ground");
}

#[test]
fn the_logo_slot_ignores_the_budget_but_not_off() {
    assert_eq!(logo_level(Decoration::Minimal), Decoration::Full);
    assert_eq!(logo_level(Decoration::Nothing), Decoration::Nothing);
    assert!(signature_shown(Decoration::Minimal, r(30, 1)));
    assert!(!signature_shown(Decoration::Minimal, r(29, 1)));
    assert!(!signature_shown(Decoration::Nothing, r(200, 1)));
    assert!(signature_right_fits(Decoration::Standard, 80, 40, 30));
    assert!(!signature_right_fits(Decoration::Standard, 80, 50, 30));
    assert!(!signature_right_fits(Decoration::Minimal, 200, 10, 10));
}

fn lines(v: &[&str]) -> Vec<String> {
    v.iter().map(|s| s.to_string()).collect()
}

fn card(deco: Decoration, captioned: bool) -> Draw {
    Draw { species: Species::Fox, state: State::Observe, frame: 0, deco, captioned }
}

#[test]
fn nothing_is_planned_when_the_mascot_does_not_fit() {
    let art = lines(&["ab", "abcd"]);
    assert_eq!(mascot_plan(r(MASCOT_W - 1, 40), card(Decoration::Full, true), &art).1, 0);
    assert_eq!(mascot_plan(r(200, MASCOT_H), card(Decoration::Full, true), &art).1, 0);
    for deco in [Decoration::Nothing, Decoration::Minimal] {
        let (puts, used) = mascot_plan(r(200, 60), card(deco, true), &art);
        assert!(puts.is_empty() && used == 0, "{deco:?} draws no mascot");
    }
}

#[test]
fn the_mascot_is_centred_with_its_ground_and_caption_below() {
    let art = lines(&["ab", "abcd"]);
    let (puts, used) = mascot_plan(Rect::new(3, 5, 60, 20), card(Decoration::Standard, true), &art);
    assert_eq!(used, 6);
    assert_eq!(puts.len(), 6);
    let x0 = 3 + (60 - 4) / 2;
    assert_eq!((puts[0].x, puts[0].y, puts[0].text.as_str(), puts[0].tone), (x0, 5, "ab", Tone::Ink));
    assert_eq!((puts[1].x, puts[1].y, puts[1].text.as_str()), (x0, 6, "abcd"));
    assert_eq!((puts[2].x, puts[2].y, puts[2].tone), (x0, 7, Tone::Faint));
    assert_eq!(puts[2].text, ground(4, GROUND_SEED));
    assert_eq!((puts[3].x, puts[3].y, puts[3].text.as_str()), (3, 8, "// FOX · OBSERVE"));
    assert_eq!((puts[4].y, puts[4].text.as_str(), puts[4].tone), (9, "QUIET AWARENESS", Tone::Dim));
    assert_eq!((puts[5].y, puts[5].text.as_str(), puts[5].tone), (10, "EVERYTHING LEAVES A TRACE.", Tone::Faint));
    let (plain, rows) = mascot_plan(Rect::new(3, 5, 60, 20), card(Decoration::Full, false), &art);
    assert_eq!((plain.len(), rows), (3, 3), "no caption asked for");
}

#[test]
fn the_mascot_plan_keeps_to_the_rows_of_its_slot() {
    let art: Vec<String> = (0..30).map(|_| "#".to_string()).collect();
    let area = Rect::new(0, 2, 60, MASCOT_H + 1);
    let (puts, used) = mascot_plan(area, card(Decoration::Full, true), &art);
    assert_eq!(used, MASCOT_H + 1);
    assert!(puts.iter().all(|p| p.y >= area.y && p.y < area.y + area.height));
    // a caption is only started when the tag and one line fit
    let short = lines(&["#"; 15]);
    let (p2, u2) = mascot_plan(Rect::new(0, 0, 60, 17), card(Decoration::Full, true), &short);
    assert_eq!((p2.len(), u2), (16, 16));
}

#[test]
fn the_logo_plan_reports_the_rows_it_uses() {
    let b = Brand::new("", "text");
    let (puts, used) = logo_plan(r(40, 4), &b, Decoration::Minimal);
    assert_eq!(used, 1);
    assert_eq!(puts[0].text, "// sysview");
    assert_eq!((puts[0].x, puts[0].y, puts[0].tone), (0, 0, Tone::Accent));
    assert_eq!(logo_plan(r(0, 4), &b, Decoration::Full).1, 0);
    assert_eq!(logo_plan(r(40, 0), &b, Decoration::Full).1, 0);
    let big = Brand::new("DEVLAB", "pixel");
    let (p, u) = logo_plan(r(200, 2), &big, Decoration::Full);
    assert_eq!(u as usize, p.len());
    assert!(u <= 2);
}

#[test]
fn the_signature_keeps_its_right_part_only_with_room() {
    let b = Brand::new("", "auto");
    assert!(signature_plan(r(100, 1), &b, Decoration::Nothing).is_empty());
    assert!(signature_plan(r(29, 1), &b, Decoration::Full).is_empty());
    let wide = signature_plan(r(100, 1), &b, Decoration::Full);
    assert_eq!(wide.len(), 2);
    assert_eq!(wide[0].text, tagline(&b));
    assert_eq!(wide[1].text, "OBSERVE  EXPLAIN  UNDERSTAND ╴╴╴╴");
    assert_eq!(wide[1].x, 100 - 33);
    assert_eq!(signature_plan(r(100, 1), &b, Decoration::Minimal).len(), 1);
    assert_eq!(signature_plan(r(60, 1), &b, Decoration::Full).len(), 1, "not enough air between the two");
}
