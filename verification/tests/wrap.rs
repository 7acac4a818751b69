use sysview::format::width;
use sysview::wrap::wrap_to_width;

fn wrap(s: &str, w: usize) -> Vec<String> {
    let cs: Vec<char> = s.chars().collect();
    wrap_to_width(&cs, width(s), w).into_iter().map(|(a, b)| cs[a..b].iter().collect()).collect()
}

#[test]
fn wrapping_uses_display_width_not_character_count() {
    let wrapped = wrap("這是一段很長的中文說明文字需要折行處理", 12);
    assert!(wrapped.len() > 1, "a line wider than the window is folded");
    for l in &wrapped {
        assert!(width(l) <= 12, "a row of {} columns is wider than 12: {l:?}", width(l));
    }
}

#[test]
fn wrapping_prefers_to_break_at_spaces() {
    let wrapped = wrap("sysview --explain cpu.model", 18);
    assert_eq!(wrapped[0], "sysview --explain", "break at the space, not inside a word");
    assert_eq!(wrapped[1], "cpu.model");
}

#[test]
fn wrapping_keeps_every_character() {
    let src = "混合 English 與中文的一行 with some words 還有更多內容";
    let joined = wrap(src, 14).join(" ");
    let a: String = src.chars().filter(|c| !c.is_whitespace()).collect();
    let b: String = joined.chars().filter(|c| !c.is_whitespace()).collect();
    assert_eq!(a, b, "folding neither drops nor repeats a character");
}

#[test]
fn short_lines_are_left_alone() {
    assert_eq!(wrap("short", 40), vec!["short".to_string()]);
    assert_eq!(wrap("no width", 0), vec!["no width".to_string()]);
    assert_eq!(wrap("", 5), vec!["".to_string()]);
}

#[test]
fn a_word_longer_than_the_row_is_cut() {
    assert_eq!(wrap("abcdefghij", 4), vec!["abcd", "efgh", "ij"]);
    assert_eq!(wrap("ab  cd", 3), vec!["ab ", "cd"], "the one space at the break is dropped, the one before it kept");
}
