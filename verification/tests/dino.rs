use sysview::dino::Rng;

#[test]
fn production_does_not_use_a_fixed_seed() {
    let a = Rng::from_entropy();
    let b = Rng::from_entropy();
    assert_ne!(a.0, b.0, "two games got the same seed");
}

#[test]
fn the_same_seed_gives_the_same_numbers() {
    let mut a = Rng::from_seed(42);
    let mut b = Rng::from_seed(42);
    assert_eq!(a.0, 43, "the low bit is always set");
    for _ in 0..100 {
        assert_eq!(a.next(), b.next());
    }
    let mut r = Rng::from_seed(0);
    assert_eq!(r.0, 1);
    let x = r.next();
    let s: u64 = 1;
    let a = s ^ (s << 13);
    let b = a ^ (a >> 7);
    let c = b ^ (b << 17);
    assert_eq!(x, c);
    assert_eq!(r.0, c, "the number drawn is the new state");
    assert_ne!(x, 0);
}

#[test]
fn ranges_include_both_ends_and_nothing_else() {
    let mut r = Rng::from_seed(7);
    let mut seen = [false; 3];
    for _ in 0..200 {
        let v = r.range(0, 2);
        assert!((0..=2).contains(&v));
        seen[v as usize] = true;
    }
    assert!(seen.iter().all(|s| *s));
    let before = r.0;
    assert_eq!(r.range(5, 5), 5);
    assert_eq!(r.range(9, 3), 9);
    assert_eq!(r.0, before, "an empty range draws nothing");
}

use sysview::dino::art::{BIRD_DOWN, BIRD_UP, CACTUS_L, CACTUS_S, CRASH, DUCK, RUN_A, RUN_B};
use sysview::dino::field::{
    board_box, dino_art, dino_x, duck_x, field_dots, group_size, is_night, pick_kind, remember, Art, Kind, Stamp, DINO_X,
    FIELD_H, FIELD_W,
};
use sysview::layout::Rect;

#[test]
fn the_field_is_wide_and_short_like_the_real_thing() {
    assert!(FIELD_W >= FIELD_H * 4, "the field is not wide enough");
    let dino_h = RUN_A.len() as u16;
    assert!(dino_h * 2 < FIELD_H * 4, "the dinosaur takes {dino_h}/{} of the height", FIELD_H * 4);
}

#[test]
fn the_proportions_follow_chromiums_sprites() {
    let dino = RUN_A.len() as f32;
    assert!(((CACTUS_S.len() as f32 / dino) - (35.0 / 47.0)).abs() < 0.1, "small cactus height is off");
    assert!(((CACTUS_L.len() as f32 / dino) - (50.0 / 47.0)).abs() < 0.1, "large cactus height is off");
    assert!((DUCK.len() as f32 / dino - 25.0 / 47.0).abs() < 0.1, "ducking height is off");
}

#[test]
fn obstacle_sizes_are_their_sprites_sizes() {
    for (k, art) in [(Kind::CactusSmall, &CACTUS_S[..]), (Kind::CactusLarge, &CACTUS_L[..]), (Kind::Pterodactyl(1), &BIRD_UP[..])] {
        assert_eq!(k.unit_w() as usize, art[0].len());
        assert_eq!(k.height() as usize, art.len());
        assert_eq!(k.art(true).rows().len(), art.len());
    }
    assert_eq!(BIRD_DOWN.len(), BIRD_UP.len());
    assert_eq!(Kind::Pterodactyl(0).hit_range(), (7, 16), "only the body of a pterodactyl hits");
    assert_eq!(Kind::CactusLarge.hit_range(), (0, 25));
    assert_eq!([Kind::Pterodactyl(0).base(), Kind::Pterodactyl(1).base(), Kind::Pterodactyl(2).base()], [0, 13, 26]);
    assert_eq!(Kind::CactusSmall.base(), 0);
    assert_eq!([Kind::CactusSmall.family(), Kind::CactusLarge.family(), Kind::Pterodactyl(2).family()], [0, 1, 2]);
    assert_eq!(Kind::Pterodactyl(0).art(false), Art::BirdDown);
}

#[test]
fn ducking_grows_backwards_and_keeps_the_head_in_place() {
    assert_eq!(duck_x(), DINO_X - (DUCK[0].len() as i32 - RUN_A[0].len() as i32));
    assert_eq!(duck_x() + DUCK[0].len() as i32, DINO_X + RUN_A[0].len() as i32);
    assert_eq!(dino_x(true), duck_x());
    assert_eq!(dino_x(false), DINO_X);
    assert_eq!(dino_art(true, true, true), Art::Crash);
    assert_eq!(dino_art(false, true, false), Art::Duck);
    assert_eq!(dino_art(false, false, true), Art::RunA);
    assert_eq!(dino_art(false, false, false), Art::RunB);
    assert_eq!(Art::Crash.rows().len(), CRASH.len());
    assert_eq!(Art::RunB.rows()[0], RUN_B[0]);
}

#[test]
fn night_follows_every_seven_hundred_points() {
    assert!(!is_night(0));
    assert!(!is_night(699));
    assert!(is_night(700));
    assert!(is_night(1399));
    assert!(!is_night(1400));
}

/// The generator's next kind, written out independently.
fn expected_pick(seed_state: u64, history: &[u8], birds: bool) -> (Kind, u64) {
    let step = |x: u64| {
        let a = x ^ (x << 13);
        let b = a ^ (a >> 7);
        b ^ (b << 17)
    };
    let mut s = seed_state;
    for _ in 0..8 {
        s = step(s);
        let k = match s % 3 {
            0 => Kind::CactusSmall,
            1 => Kind::CactusLarge,
            _ => {
                s = step(s);
                Kind::Pterodactyl((s % 3) as u8)
            }
        };
        let dup = history.len() >= 2 && history.iter().all(|h| *h == k.family());
        if (birds || !matches!(k, Kind::Pterodactyl(_))) && !dup {
            return (k, s);
        }
    }
    (Kind::CactusSmall, s)
}

#[test]
fn the_generator_draws_again_instead_of_weighting() {
    for seed in 0..200u64 {
        for (history, birds) in [(vec![], false), (vec![], true), (vec![0, 0], false), (vec![1, 1], true), (vec![2, 2], true)] {
            let mut rng = Rng::from_seed(seed);
            let (want, state) = expected_pick(rng.0, &history, birds);
            let got = pick_kind(&mut rng, &history, birds);
            assert_eq!(got, want, "seed {seed}");
            assert_eq!(rng.0, state, "seed {seed}: the draws used");
            if !birds {
                assert!(!matches!(got, Kind::Pterodactyl(_)), "no pterodactyl before it is unlocked");
            }
        }
    }
}

#[test]
fn groups_come_only_when_the_speed_allows_them() {
    let mut seen = [false; 4];
    for seed in 0..100u64 {
        let mut a = Rng::from_seed(seed);
        let mut b = Rng::from_seed(seed);
        let n = group_size(&mut a, true);
        assert!((1..=3).contains(&n));
        seen[n as usize] = true;
        assert_eq!(group_size(&mut b, false), 1);
        assert_eq!(a.0, b.0, "a refused group still draws");
    }
    assert!(seen[1] && seen[2] && seen[3]);
}

#[test]
fn the_history_keeps_the_two_latest_families_newest_first() {
    let mut h = Vec::new();
    remember(&mut h, 2);
    assert_eq!(h, vec![2]);
    remember(&mut h, 0);
    assert_eq!(h, vec![0, 2]);
    remember(&mut h, 1);
    assert_eq!(h, vec![1, 0]);
}

#[test]
fn the_board_floats_centred_below_the_game_over_line() {
    assert_eq!(board_box(Rect::new(0, 1, 130, 18)), Some(Rect::new(40, 4, 50, 10)));
    assert_eq!(board_box(Rect::new(0, 1, 40, 12)), Some(Rect::new(0, 4, 40, 8)));
    assert_eq!(board_box(Rect::new(0, 1, 31, 18)), None, "too narrow");
    assert_eq!(board_box(Rect::new(0, 1, 60, 9)), None, "too low");
}

#[test]
fn the_field_picture_has_the_ground_and_every_sprite_clipped() {
    // a 3x2 cell field is 6x8 dots; the ground is the bottom dot row
    let g = field_dots(3, 2, &[]);
    assert_eq!(g, vec![0, 0, 0, 0x40 | 0x80, 0x40 | 0x80, 0x40 | 0x80]);
    // a 2x2 block whose bottom is dot row 2, its left edge on dot column 1
    let bits = [true, true, true, true];
    let s = Stamp { w: 2, h: 2, bits: &bits, x: 1, bottom: 2 };
    let g = field_dots(3, 2, &[s]);
    // dots (1,1),(2,1),(1,2),(2,2): cell 0 right column rows 1-2, cell 1 left column rows 1-2
    assert_eq!(g[0], 0x10 | 0x20);
    assert_eq!(g[1], 0x02 | 0x04);
    assert_eq!(g[2], 0);
    // half off the left edge: only what is inside shows
    let off = Stamp { w: 2, h: 2, bits: &bits, x: -1, bottom: 2 };
    let g = field_dots(3, 2, &[off]);
    assert_eq!(g[0], 0x02 | 0x04);
    assert!(field_dots(0, 5, &[s]).is_empty());
}

use sysview::dino::{key_action, Key, KeyAction};

#[test]
fn a_crashed_game_restarts_only_on_the_keys_the_hint_promises() {
    for key in [Key::Char('t'), Key::Char('m'), Key::Left, Key::Char('1'), Key::Down] {
        assert_eq!(key_action(key, true, true, true), KeyAction::Ignore, "{key:?} must not restart");
    }
    // right after the crash a jump key does not count: it may still be held
    assert_eq!(key_action(Key::Char(' '), true, false, true), KeyAction::Ignore);
    assert_eq!(key_action(Key::Char(' '), true, true, true), KeyAction::Restart);
    assert_eq!(key_action(Key::Char('r'), true, false, true), KeyAction::Restart);
    assert_eq!(key_action(Key::Enter, true, false, false), KeyAction::Restart);
}

#[test]
fn jumping_needs_the_ground_and_down_in_the_air_dives() {
    for key in [Key::Char(' '), Key::Up, Key::Char('w'), Key::Char('k')] {
        assert_eq!(key_action(key, false, false, true), KeyAction::Jump);
        assert_eq!(key_action(key, false, false, false), KeyAction::Ignore);
    }
    for key in [Key::Down, Key::Char('s'), Key::Char('j')] {
        assert_eq!(key_action(key, false, false, true), KeyAction::Duck);
        assert_eq!(key_action(key, false, false, false), KeyAction::Dive);
    }
    assert_eq!(key_action(Key::Char('r'), false, true, true), KeyAction::Ignore);
    assert_eq!(key_action(Key::Esc, false, true, true), KeyAction::Ignore);
}
