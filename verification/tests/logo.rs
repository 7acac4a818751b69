use sysview::format::width;
use sysview::visual::glyph;
use sysview::visual::logo::{pixel_width, slogan, tagline, Brand, Style};
use sysview::visual::Decoration;

#[test]
fn default_brand_is_sysview() {
    let b = Brand::new("", "auto");
    assert_eq!(b.word(), "sysview");
    assert!(!b.is_custom());
}

#[test]
fn custom_brand_replaces_the_word_but_not_the_product() {
    let b = Brand::new("DEVLAB", "auto");
    assert_eq!(b.word(), "DEVLAB");
    assert!(b.is_custom());
    assert!(tagline(&b).contains("sysview"));
    assert!(!slogan(&b).is_empty());
}

#[test]
fn style_steps_down_as_space_runs_out() {
    let b = Brand::new("DEVLAB", "auto");
    let w = pixel_width("DEVLAB");
    assert_eq!(b.style(w, 6, Decoration::Full), Style::Pixel);
    assert_eq!(b.style(w, 2, Decoration::Full), Style::Small);
    assert_eq!(b.style(w, 6, Decoration::Standard), Style::Small);
    assert_eq!(b.style(w - 1, 6, Decoration::Full), Style::Text);
    assert_eq!(b.style(w, 6, Decoration::Nothing), Style::Text);
}

#[test]
fn explicitly_requested_pixel_still_backs_off_when_it_does_not_fit() {
    let b = Brand::new("DEVLAB", "pixel");
    assert_eq!(b.style(10, 6, Decoration::Full), Style::Text);
    assert_eq!(b.style(pixel_width("DEVLAB"), 6, Decoration::Nothing), Style::Pixel);
}

#[test]
fn off_never_renders_anything() {
    let b = Brand::new("DEVLAB", "off");
    assert!(b.render(200, 20, Decoration::Full).is_empty());
}

#[test]
fn rendered_lines_never_exceed_the_given_width() {
    for word in ["A", "DEVLAB", "SYSVIEW", "X1"] {
        for want in ["auto", "pixel", "small", "text"] {
            let b = Brand::new(if word == "SYSVIEW" { "" } else { word }, want);
            for w in [4usize, 8, 20, 40, 80] {
                for deco in [Decoration::Nothing, Decoration::Minimal, Decoration::Standard, Decoration::Full] {
                    for line in b.render(w, 6, deco) {
                        assert!(width(&line) <= w, "{want}/{word} drew {} columns in {w}: {line:?}", width(&line));
                    }
                }
            }
        }
    }
}

#[test]
fn pixel_width_matches_what_layout_actually_produces() {
    for word in ["A", "AB", "DEVLAB", "SYSVIEW"] {
        let rows = glyph::layout(word, 1).unwrap();
        assert_eq!(rows[0].chars().count(), pixel_width(word), "{word}");
    }
}
