use sysview::theme::{downgrade_256, downgrade_basic, contains_str, user_palette, Color, ColorDepth, Rgb, Subsystem, Theme, THEMES};

fn rgb(r: u8, g: u8, b: u8) -> Rgb {
    Rgb { r, g, b }
}

#[test]
fn all_named_themes_resolve() {
    for name in THEMES.iter() {
        let t = Theme::new(name, ColorDepth::TrueColor);
        assert_eq!(t.name, *name, "theme {name} resolves to another name");
    }
}

#[test]
fn unknown_theme_falls_back_to_default() {
    let t = Theme::new("nonexistent-theme", ColorDepth::TrueColor);
    assert_eq!(t.name, "default");
}

#[test]
fn theme_names_ignore_case_and_take_aliases() {
    assert_eq!(Theme::new("HC", ColorDepth::TrueColor).name, "high-contrast");
    assert_eq!(Theme::new("TokyoNight", ColorDepth::TrueColor).name, "tokyo-night");
    assert_eq!(Theme::new("gruvbox-dark", ColorDepth::TrueColor).name, "gruvbox");
}

#[test]
fn monochrome_emits_no_color() {
    let t = Theme::new("catppuccin", ColorDepth::Monochrome);
    assert_eq!(t.c(rgb(255, 0, 0)), Color::Reset, "a terminal without colour gets no colour code");
    assert!(t.depth_is_monochrome());
}

#[test]
fn truecolor_passes_rgb_through_unchanged() {
    let t = Theme::new("default", ColorDepth::TrueColor);
    assert_eq!(t.c(rgb(0x58, 0xa6, 0xff)), Color::Rgb(0x58, 0xa6, 0xff));
}

#[test]
fn downgrades_to_valid_256_indices() {
    for c in [rgb(0, 0, 0), rgb(255, 255, 255), rgb(0x58, 0xa6, 0xff), rgb(128, 128, 128)] {
        let i = downgrade_256(c);
        assert!(i >= 16, "should land in the cube or the grey ramp, got {i}");
    }
    assert_eq!(downgrade_256(rgb(0, 0, 0)), 232);
    assert_eq!(downgrade_256(rgb(255, 255, 255)), 255);
    assert_eq!(downgrade_256(rgb(255, 0, 0)), 196);
    assert_eq!(downgrade_256(rgb(0x58, 0xa6, 0xff)), 16 + 36 + 6 * 3 + 5);
}

#[test]
fn downgrades_to_basic_colors() {
    assert_eq!(downgrade_basic(rgb(255, 0, 0)), Color::LightRed);
    assert_eq!(downgrade_basic(rgb(0, 100, 0)), Color::Green);
    assert_eq!(downgrade_basic(rgb(10, 10, 10)), Color::DarkGray);
    assert_eq!(downgrade_basic(rgb(200, 200, 200)), Color::White);
}

#[test]
fn no_color_env_forces_monochrome() {
    assert_eq!(ColorDepth::from_env(true, "xterm-256color", "truecolor"), ColorDepth::Monochrome);
}

#[test]
fn the_environment_picks_the_depth() {
    assert_eq!(ColorDepth::from_env(false, "", ""), ColorDepth::Monochrome);
    assert_eq!(ColorDepth::from_env(false, "dumb", "truecolor"), ColorDepth::Monochrome);
    assert_eq!(ColorDepth::from_env(false, "xterm", "24bit"), ColorDepth::TrueColor);
    assert_eq!(ColorDepth::from_env(false, "xterm-256color", ""), ColorDepth::Indexed256);
    assert_eq!(ColorDepth::from_env(false, "xterm-kitty", ""), ColorDepth::Indexed256);
    assert_eq!(ColorDepth::from_env(false, "xterm", ""), ColorDepth::Basic);
    assert!(contains_str("wezterm-mux", "wezterm"));
    assert!(!contains_str("wez", "wezterm"));
}

#[test]
fn every_palette_has_distinct_subsystem_colors() {
    for name in THEMES.iter() {
        let t = Theme::new(name, ColorDepth::TrueColor);
        let subs = [Subsystem::Cpu, Subsystem::Memory, Subsystem::Gpu, Subsystem::Disk, Subsystem::Network, Subsystem::Process];
        let colors: Vec<Color> = subs.iter().map(|s| t.subsystem(*s)).collect();
        let uniq: std::collections::HashSet<String> = colors.iter().map(|c| format!("{c:?}")).collect();
        assert!(uniq.len() >= colors.len() - 1, "{name}: subsystem colours too close");
    }
}

#[test]
fn user_colours_never_reuse_the_system_bar_colour() {
    for name in THEMES {
        for depth in [ColorDepth::TrueColor, ColorDepth::Indexed256] {
            let theme = Theme::new(name, depth);
            let colours = user_palette(&theme);
            for &c in &colours {
                assert_ne!(c, theme.palette.accent, "{name}: a user got the accent");
                assert_ne!(c, theme.palette.network, "{name}: a user got the network colour");
            }
            assert_eq!(colours.len(), 5, "{name}: fewer than five colours");
            for (i, a) in colours.iter().enumerate() {
                for b in &colours[i + 1..] {
                    assert_ne!(a, b, "{name}: two users share a colour");
                }
            }
        }
    }
}
