use sysview::visual::peek::{crop_reveal, Reveal};
use sysview::visual::mascot::{
    apply_marks, art_bits, choose_pose, ground, median3, morph_top, pose, to_lines, Curve, Mood, Pose, Species, State, QUAD, STATE_NAMES,
};

fn all_poses() -> Vec<(Species, Pose)> {
    let mut v = Vec::new();
    for sp in [Species::Fox, Species::Deer] {
        for st in State::ALL.iter() {
            v.push((sp, pose(sp, *st)));
        }
    }
    v
}

/// The picture of a frame that does not move the tail.
fn still_frame(p: &Pose, i: usize) -> (usize, usize, Vec<bool>) {
    let (w, h, mut bits) = art_bits(&p.art);
    let f = &p.frames[i % p.frames.len()];
    assert_eq!(f.tail, 0);
    if f.breath {
        morph_top(&mut bits, w, h, p.back);
    }
    if f.ears {
        morph_top(&mut bits, w, h, p.ears);
    }
    apply_marks(&mut bits, w, h, &f.clear, &f.set);
    (w, h, bits)
}

#[test]
fn every_species_has_every_state() {
    for sp in [Species::Fox, Species::Deer] {
        for st in State::ALL.iter() {
            let p = pose(sp, *st);
            assert_eq!(p.state, *st, "{} lacks the {} pose", sp.name(), st.name());
        }
    }
}

#[test]
fn state_names_match_the_config_allowlist() {
    assert_eq!(STATE_NAMES.len(), State::ALL.len());
    for n in STATE_NAMES {
        assert!(State::parse(n).is_some(), "{n} is not a valid state");
    }
}

#[test]
fn art_rows_are_all_the_same_width_and_only_use_hash_or_space() {
    for (sp, p) in all_poses() {
        let w = p.art[0].chars().count();
        for (i, row) in p.art.iter().enumerate() {
            assert_eq!(row.chars().count(), w, "{} {} row {i}: uneven width", sp.name(), p.state.name());
            assert!(row.chars().all(|c| c == '#' || c == ' '), "{} {} row {i}: stray character", sp.name(), p.state.name());
        }
    }
}

#[test]
fn every_blink_actually_lands_on_the_face() {
    for (sp, p) in all_poses() {
        let (w, h, base) = still_frame(&p, 0);
        let mut total = 0;
        let mut hits = 0;
        for f in &p.frames {
            for &(x, y) in &f.clear {
                total += 1;
                if (x as usize) < w && (y as usize) < h && base[y as usize * w + x as usize] {
                    hits += 1;
                }
            }
        }
        assert!(total > 0, "{} {} never blinks", sp.name(), p.state.name());
        assert!(hits * 2 >= total, "{} {}: half the blink lands on blank space ({hits}/{total})", sp.name(), p.state.name());
    }
}

#[test]
fn breathing_moves_the_contour_instead_of_thickening_it() {
    for (sp, p) in all_poses() {
        let (_, _, base) = still_frame(&p, 0);
        let ink0 = base.iter().filter(|b| **b).count();
        for (i, f) in p.frames.iter().enumerate() {
            if !f.breath || !f.clear.is_empty() {
                continue;
            }
            let (_, _, bits) = still_frame(&p, i);
            let ink = bits.iter().filter(|b| **b).count();
            assert_eq!(ink, ink0, "{} {} frame {i}: breathing changed the ink", sp.name(), p.state.name());
            assert_ne!(bits, base, "{} {} frame {i}: breathing moved nothing", sp.name(), p.state.name());
        }
    }
}

#[test]
fn only_the_calm_poses_raise_their_tail() {
    for (sp, p) in all_poses() {
        let wags = p.frames.iter().any(|f| f.tail != 0);
        let calm = matches!(p.state, State::Observe | State::Rest);
        if wags {
            assert!(calm, "{} {} wags while not calm", sp.name(), p.state.name());
            assert_eq!(sp, Species::Fox, "only the fox wags");
        }
    }
    for st in [State::Observe, State::Rest] {
        let p = pose(Species::Fox, st);
        assert!(p.frames.iter().any(|f| f.tail != 0), "FOX {} never raises its tail", st.name());
    }
}

#[test]
fn the_curl_has_a_halfway_frame() {
    for (_, p) in all_poses() {
        if p.frames.iter().any(|f| f.tail != 0) {
            assert!(p.frames.iter().any(|f| f.tail == 1));
            assert!(p.frames.iter().any(|f| f.tail == 2));
        }
    }
    assert_eq!(pose(Species::Fox, State::Observe).tail_curve, Curve::Wave);
    assert_eq!(Curve::Wave.floor(), 1);
    assert_eq!(Curve::Arc.sag(), 1);
}

#[test]
fn the_idle_loop_is_not_a_regular_beat() {
    for (sp, p) in all_poses() {
        let n = p.frames.len();
        assert!(n >= 12, "{} {}: only {n} frames", sp.name(), p.state.name());
        let moving: Vec<usize> =
            p.frames.iter().enumerate().filter(|(_, f)| f.breath || f.ears || !f.clear.is_empty()).map(|(i, _)| i).collect();
        assert!(moving.len() * 2 <= n, "{} {}: too busy", sp.name(), p.state.name());
        let gaps: std::collections::HashSet<usize> = moving.windows(2).map(|w| w[1] - w[0]).collect();
        assert!(gaps.len() > 1, "{} {}: a mechanical beat", sp.name(), p.state.name());
    }
}

#[test]
fn every_pose_has_ink_and_at_least_one_frame() {
    for (sp, p) in all_poses() {
        let ink = p.art.iter().flat_map(|r| r.chars()).filter(|c| *c == '#').count();
        assert!(ink > 480, "{} {}: only {ink} pixels", sp.name(), p.state.name());
        assert!(!p.frames.is_empty(), "{} {}: no frames", sp.name(), p.state.name());
    }
}

#[test]
fn frame_deltas_stay_inside_the_bitmap() {
    for (sp, p) in all_poses() {
        let w = p.art[0].chars().count();
        let h = p.art.len();
        for (i, f) in p.frames.iter().enumerate() {
            for &(x, y) in f.clear.iter().chain(f.set.iter()) {
                assert!((x as usize) < w && (y as usize) < h, "{} {} frame {i}: ({x},{y}) outside {w}x{h}", sp.name(), p.state.name());
            }
            for (label, span) in [("back", p.back), ("ears", p.ears)] {
                if span == (0, 0) {
                    continue;
                }
                assert!(span.0 < span.1 && (span.1 as usize) < w, "{} {}: bad {label} span {span:?}", sp.name(), p.state.name());
            }
        }
    }
}

#[test]
fn half_block_output_only_uses_the_four_block_characters() {
    for (_, p) in all_poses() {
        let (w, h, bits) = art_bits(&p.art);
        let lines = to_lines(w, h, &bits);
        assert_eq!(lines.len(), h.div_ceil(2));
        for line in lines {
            assert!(line.chars().all(|c| QUAD.contains(&c)), "a stray character: {line:?}");
            assert!(!line.ends_with(' '), "trailing blanks are dropped");
        }
    }
}

#[test]
fn quadrants_pack_two_by_two_pixels() {
    let bits = vec![true, false, false, true, true, true, false, false, false];
    let lines = to_lines(3, 3, &bits);
    assert_eq!(lines, vec!["\u{2599}\u{2596}".to_string(), "".to_string()]);
}

#[test]
fn the_ground_line_is_stable_for_the_same_seed() {
    let a = ground(40, 7);
    let b = ground(40, 7);
    assert_eq!(a, b, "the same seed draws the same ground");
    assert_eq!(a.chars().count(), 40);
    assert_ne!(ground(40, 7), ground(40, 99));
}

#[test]
fn median_of_three_is_the_middle_value() {
    assert_eq!(median3(1, 5, 3), 3);
    assert_eq!(median3(9, 2, 4), 4);
    assert_eq!(median3(2, 2, 8), 2);
    assert_eq!(median3(7, 7, 7), 7);
}

#[test]
fn captions_are_present_for_every_state() {
    for st in State::ALL.iter() {
        let (a, b) = st.caption();
        assert!(!a.is_empty() && !b.is_empty(), "{} has no caption", st.name());
        assert!(a.is_ascii(), "captions must show on a monochrome terminal");
    }
}

#[test]
fn none_never_draws_anything() {
    for mode in ["reactive", "manual", "idle"] {
        assert_eq!(choose_pose("none", mode, "observe", Mood::Calm, true), None);
    }
}

#[test]
fn manual_pins_the_state_regardless_of_mood() {
    for mood in [Mood::Idle, Mood::Calm, Mood::Busy, Mood::Strained] {
        let (sp, st) = choose_pose("fox", "manual", "rest", mood, false).unwrap();
        assert_eq!(sp, Species::Fox);
        assert_eq!(st, State::Rest, "manual mode is not changed by the machine");
    }
}

#[test]
fn reactive_follows_the_mood() {
    for (mood, want) in [
        (Mood::Idle, State::Rest),
        (Mood::Calm, State::Observe),
        (Mood::Busy, State::Explore),
        (Mood::Strained, State::Proceed),
        (Mood::Recovering, State::Return),
    ] {
        let (_, st) = choose_pose("fox", "reactive", "observe", mood, false).unwrap();
        assert_eq!(st, want, "{mood:?} should give {}", want.name());
    }
}

#[test]
fn idle_mode_stays_out_of_the_way_while_the_machine_is_working() {
    assert_eq!(choose_pose("fox", "idle", "observe", Mood::Busy, false), None);
    assert!(choose_pose("fox", "idle", "observe", Mood::Idle, true).is_some());
}

#[test]
fn auto_always_picks_the_same_species() {
    for mood in [Mood::Idle, Mood::Calm, Mood::Busy, Mood::Strained, Mood::Recovering] {
        let (sp, _) = choose_pose("auto", "reactive", "observe", mood, false).unwrap();
        assert_eq!(sp, Species::Fox, "{mood:?} picked another species");
    }
}

#[test]
fn manual_state_falls_back_instead_of_panicking() {
    let (_, st) = choose_pose("deer", "manual", "nonsense", Mood::Calm, false).unwrap();
    assert_eq!(st, State::Observe);
}

#[test]
fn species_and_states_parse_their_names() {
    assert_eq!(Species::parse(" FOX "), Some(Species::Fox));
    assert_eq!(Species::parse("deer"), Some(Species::Deer));
    assert_eq!(Species::parse("cat"), None);
    for st in State::ALL.iter() {
        assert_eq!(State::parse(st.name()), Some(*st));
    }
}

fn strings(v: &[&str]) -> Vec<String> {
    v.iter().map(|s| s.to_string()).collect()
}

#[test]
fn the_crop_keeps_only_the_inked_columns_of_the_shown_rows() {
    let base = strings(&["  ab ", "   c", "x    "]);
    let r = crop_reveal(&base, &base, 2, false);
    assert_eq!((r.w, r.h), (2, 2));
    assert_eq!(r.lines, strings(&["ab", " c"]));
    // the third row's ink does not count when only two rows show
    let all = crop_reveal(&base, &base, 3, false);
    assert_eq!((all.w, all.h), (4, 3));
    assert_eq!(all.lines, strings(&["  ab", "   c", "x   "]));
}

#[test]
fn a_raised_tail_widens_the_crop_inside_the_canvas() {
    let base = strings(&["  ab ", "   c", "x    "]);
    let r = crop_reveal(&base, &base, 2, true);
    assert_eq!((r.w, r.h), (4, 2));
    assert_eq!(r.lines, strings(&[" ab ", "  c "]));
    let edge = strings(&["ab"]);
    let e = crop_reveal(&edge, &edge, 5, true);
    assert_eq!((e.w, e.h), (2, 1), "the widening stops at the canvas");
}

#[test]
fn the_crop_comes_from_the_base_frame_not_the_drawn_one() {
    let base = strings(&[" a  "]);
    let frame = strings(&["wxyz"]);
    let r = crop_reveal(&base, &frame, 1, false);
    assert_eq!(r.lines, strings(&["x"]));
    assert_eq!(r.w, 1);
}

#[test]
fn nothing_shows_without_rows_or_ink() {
    let base = strings(&["  ab "]);
    let r = crop_reveal(&base, &base, 0, false);
    assert!(r.lines.is_empty() && r.w == 0 && r.h == 0);
    let blank = strings(&["    ", "  "]);
    let b = crop_reveal(&blank, &blank, 2, true);
    assert!(b.lines.is_empty() && b.w == 0 && b.h == 0);
    let e = Reveal::empty();
    assert!(e.lines.is_empty() && e.w == 0 && e.h == 0);
}
