//! What the help window says: the keys, section by section, how many
//! screen rows that takes at a given width, and how the window is laid out
//! (the key table, and the mascot beside it when the screen is wide).

use vstd::prelude::*;
use crate::layout::{centered, centered_spec, on_grid, Rect};
use crate::visual::{level, Decoration};
use crate::visual::slot::{MASCOT_H, MASCOT_W};

verus! {

/// The titles of the help window's sections, in order.
pub const SECTION_TITLES: [&'static str; 6] = [
    "導航：像螢幕選單一樣，一層一層進去",
    "看懂數字（sysview 的重點）",
    "換頁",
    "通用",
    "行程頁面",
    "管理員功能",
];

/// The help window's rows: (section, key, what it does), in order. A key
/// of `""` continues the row above it.
pub const KEY_ROWS: [(usize, &'static str, &'static str); 36] = [
    (0, "← →", "在分頁層時切換分頁"),
    (0, "↓ / Enter", "進入這一頁 / 往下鑽一層"),
    (0, "← ↑ ↓ →", "在同一層的方塊之間移動（依畫面上的實際相對位置）"),
    (0, "Esc", "回到上一層"),
    (0, "", "層數不設限：面板 → 面板裡的每一列 → 更深的細項"),
    (1, "e", "解釋目前框住的那一格：意義、現在的值、來源、算式、陷阱、原生指令"),
    (1, "", "鑽到最裡層可以選到單一數字，例如 Logical CPUs、Core clock"),
    (1, "", "也能解釋這台機器上的具體東西：這張 GPU、這個網路介面、這個行程、"),
    (1, "", "這個掛載點、這顆磁碟、這個使用者、這個路徑"),
    (1, "", "說明都是寫死的結構化定義加上實測值，不是即時生成的猜測"),
    (1, "↑ ↓", "說明太長時捲動它（捲到底就停住）"),
    (1, "其他任意鍵", "關掉說明"),
    (1, "PgUp PgDn", "在清單裡大幅捲動"),
    (1, "v", "（CPU 頁）每核顯示切換：逐條列 ⇄ 熱度圖"),
    (2, "0", "總覽（` 與 ~ 也可以）"),
    (2, "1 – 6", "CPU / 記憶體 / GPU / 儲存 / 網路 / 行程"),
    (2, "A", "管理員擴充功能"),
    (2, "Tab / Shift-Tab", "依序切換（在任何一層都有效）"),
    (3, "空白", "暫停 / 繼續取樣"),
    (3, "+ / -", "加快 / 放慢更新頻率（0.2s – 10s）"),
    (3, "t", "切換主題"),
    (3, "m", "切換吉祥物：狐狸 → 鹿 → 關閉"),
    (3, "? / h", "開關本說明"),
    (3, "g", "恐龍跑酷：看數字看累了就來一場"),
    (3, "q", "離開"),
    (4, "s", "切換排序欄位"),
    (4, "/", "關鍵字篩選（Esc 清除）"),
    (4, "Enter", "鑽進行程表，↑↓ 逐一選取單一行程"),
    (5, "u", "透過 sudo 解鎖（sysview 本身永遠不是 root，也不碰你的密碼）"),
    (5, "Enter", "進入分頁列 → 再 Enter 進入使用者清單"),
    (5, "← →", "在分頁列上切換 User Storage / Memory / GPU / Sockets"),
    (5, "", "分頁排成一列，所以在分頁列上 ↑↓ 不動；↓ 是往裡走一層"),
    (5, "↑ ↓", "在清單上逐一選取使用者"),
    (5, "Enter", "展開游標所在使用者的儲存明細"),
    (5, "[ ]", "不進入分頁列也能直接換分頁（← → 的捷徑）"),
    (5, "r", "重新查詢"),
];

/// The (key, description) pairs of the rows that belong to section `i`,
/// in order.
pub open spec fn rows_in(rows: Seq<(usize, &'static str, &'static str)>, i: int) -> Seq<(&'static str, &'static str)>
    decreases rows.len(),
{
    if rows.len() == 0 {
        Seq::empty()
    } else {
        let before = rows_in(rows.drop_last(), i);
        if rows.last().0 == i {
            before.push((rows.last().1, rows.last().2))
        } else {
            before
        }
    }
}

/// The (key, description) rows of section `i`, in order.
pub fn section_entries(i: usize) -> (v: Vec<(&'static str, &'static str)>)
    ensures
        v@ == rows_in(KEY_ROWS@, i as int),
{
    let mut v: Vec<(&'static str, &'static str)> = Vec::new();
    let mut k: usize = 0;
    while k < 36
        invariant
            k <= 36,
            v@ == rows_in(KEY_ROWS@.subrange(0, k as int), i as int),
        decreases 36 - k,
    {
        let (s, key, d) = KEY_ROWS[k];
        proof {
            assert(KEY_ROWS@.subrange(0, k + 1).drop_last() == KEY_ROWS@.subrange(0, k as int));
        }
        if s == i {
            v.push((key, d));
        }
        k = k + 1;
    }
    assert(KEY_ROWS@.subrange(0, 36) == KEY_ROWS@);
    v
}

/// How many screen rows lines of the given display widths take when wrapped
/// at `width` columns: each takes its width divided by `width`, rounded up,
/// and an empty line still takes one.
pub open spec fn wrapped_rows(widths: Seq<usize>, width: nat) -> nat
    decreases widths.len(),
{
    if widths.len() == 0 {
        0
    } else {
        let w = if widths.last() == 0 { 1nat } else { widths.last() as nat };
        wrapped_rows(widths.drop_last(), width) + w / width + if w % width == 0 { 0nat } else { 1nat }
    }
}

/// The number of screen rows that lines of the given display widths wrap to
/// at `width` columns (none at width 0), saturated to a `u16`.
pub fn wrapped_len(widths: &[usize], width: usize) -> (n: u16)
    ensures
        width == 0 ==> n == 0,
        width > 0 ==> n == (if wrapped_rows(widths@, width as nat) > u16::MAX { u16::MAX as nat } else { wrapped_rows(widths@, width as nat) }),
{
    if width == 0 {
        return 0;
    }
    let mut n: usize = 0;
    let mut i: usize = 0;
    while i < widths.len()
        invariant
            width > 0,
            i <= widths@.len(),
            n == (if wrapped_rows(widths@.subrange(0, i as int), width as nat) > u16::MAX {
                u16::MAX as nat
            } else {
                wrapped_rows(widths@.subrange(0, i as int), width as nat)
            }),
        decreases widths@.len() - i,
    {
        let w = if widths[i] == 0 { 1 } else { widths[i] };
        let q = w / width;
        assert(w % width != 0 ==> q < w) by (nonlinear_arith)
            requires
                width > 0,
                w >= 1,
                q == w / width,
        ;
        let rows = if w % width == 0 { q } else { q + 1 };
        proof {
            let s = widths@.subrange(0, i + 1);
            assert(s.drop_last() == widths@.subrange(0, i as int));
            assert(s.last() == widths@[i as int]);
        }
        n = if rows > 65535 - n { 65535 } else { n + rows };
        i = i + 1;
    }
    assert(widths@.subrange(0, widths@.len() as int) == widths@);
    n as u16
}

/// What [`wrapped_len`] gives.
pub open spec fn wrapped16(widths: Seq<usize>, width: nat) -> int {
    if width == 0 {
        0
    } else if wrapped_rows(widths, width) > u16::MAX {
        u16::MAX as int
    } else {
        wrapped_rows(widths, width) as int
    }
}

/// The key table's width that keeps the descriptions from wrapping.
pub const KEYS_W: u16 = 92;

/// Whether the help window has room for the mascot beside the keys: only at
/// the standard decoration level or above, with a mascot chosen, and with
/// room for the whole key table, the mascot and the margins. The key table
/// comes first; the decoration steps aside.
pub fn wants_art(deco: Decoration, has_mascot: bool, area: Rect) -> (b: bool)
    ensures
        b == (level(deco) >= level(Decoration::Standard) && has_mascot && area.width >= KEYS_W + MASCOT_W + 6
            && area.height >= MASCOT_H + 8),
{
    deco.at_least(Decoration::Standard) && has_mascot && area.width >= KEYS_W + MASCOT_W + 6
        && area.height >= MASCOT_H + 8
}

/// The window of the help without the mascot, for key lines of the given
/// widths: 78 columns, as tall as the lines wrapped at 74 columns plus the
/// frame and hint, at most the screen less a row above and below.
pub fn help_window(area: Rect, widths: &[usize]) -> (r: Rect)
    requires
        on_grid(area),
        wrapped16(widths@, 74) + 4 <= u16::MAX,
    ensures
        ({
            let want = wrapped16(widths@, 74) + 4;
            let room = if area.height >= 2 { area.height - 2 } else { 0 };
            r == centered_spec(area, 78, if want < room { want } else { room })
        }),
{
    let want = wrapped_len(widths, 74) + 4;
    let room = if area.height >= 2 { area.height - 2 } else { 0 };
    centered(area, 78, if want < room { want } else { room })
}

/// The width the key table gets beside the mascot (at least one column).
pub open spec fn art_keys_w(area: Rect) -> nat {
    let total_w = if area.width < KEYS_W + MASCOT_W + 6 { area.width as int } else { KEYS_W + MASCOT_W + 6 };
    let keys_w = if total_w >= 4 + MASCOT_W + 2 { total_w - (4 + MASCOT_W + 2) } else { 0 };
    if keys_w < 1 { 1 } else { keys_w as nat }
}

/// The window of the help with the mascot: the key table, the mascot and the
/// margins (less on a narrower screen), at least tall enough for the mascot
/// and its caption, else as tall as the key lines wrapped at the key
/// table's width.
pub fn help_art_window(area: Rect, widths: &[usize]) -> (r: Rect)
    requires
        on_grid(area),
        wrapped16(widths@, art_keys_w(area)) + 4 <= u16::MAX,
    ensures
        ({
            let total_w = if area.width < KEYS_W + MASCOT_W + 6 { area.width as int } else { KEYS_W + MASCOT_W + 6 };
            let rows = wrapped16(widths@, art_keys_w(area)) + 4;
            let want = if rows > MASCOT_H + 10 { rows } else { MASCOT_H + 10 };
            let room = if area.height >= 2 { area.height - 2 } else { 0 };
            r == centered_spec(area, total_w, if want < room { want } else { room })
        }),
{
    let full: u16 = KEYS_W + MASCOT_W + 6;
    let total_w = if area.width < full { area.width } else { full };
    let keys_w: u16 = if total_w >= 4 + MASCOT_W + 2 { total_w - (4 + MASCOT_W + 2) } else { 0 };
    let rows = wrapped_len(widths, if keys_w < 1 { 1 } else { keys_w as usize }) + 4;
    let want = if rows > MASCOT_H + 10 { rows } else { MASCOT_H + 10 };
    let room = if area.height >= 2 { area.height - 2 } else { 0 };
    centered(area, total_w, if want < room { want } else { room })
}

/// Whether the key table will scroll in window `win`, with `reserve` columns
/// kept on the right: the lines wrapped at the text's width (the window less
/// its border, margins and the reserve; at least one column) against the
/// window's height less the frame and the hint line. The hint says "↑↓
/// scroll" only when this holds.
pub fn help_scrolls(win: Rect, reserve: u16, widths: &[usize]) -> (b: bool)
    requires
        reserve <= u16::MAX - 4,
    ensures
        ({
            let probe_h = if win.height >= 4 { win.height - 4 } else { 0 };
            let text_w = if win.width >= 4 + reserve { win.width - 4 - reserve } else { 0 };
            b == (wrapped16(widths@, if text_w < 1 { 1 } else { text_w as nat }) > probe_h)
        }),
{
    let probe_h = if win.height >= 4 { win.height - 4 } else { 0 };
    let text_w = if win.width >= 4 + reserve { win.width - 4 - reserve } else { 0 };
    wrapped_len(widths, if text_w < 1 { 1 } else { text_w as usize }) > probe_h
}

/// Where the key table goes inside the frame's content area `inner` (all of
/// it but the `reserve` columns on the right) and how far it can scroll: the
/// wrapped rows past the area's height.
pub fn help_text(inner: Rect, reserve: u16, widths: &[usize]) -> (r: (Rect, u16))
    ensures
        ({
            let keys_w = if inner.width >= reserve { inner.width - reserve } else { 0 };
            let rows = wrapped16(widths@, if keys_w < 1 { 1 } else { keys_w as nat });
            &&& r.0 == Rect { width: keys_w as u16, ..inner }
            &&& r.1 == if rows >= inner.height { rows - inner.height } else { 0 }
        }),
{
    let keys_w = if inner.width >= reserve { inner.width - reserve } else { 0 };
    let rows = wrapped_len(widths, if keys_w < 1 { 1 } else { keys_w as usize });
    (Rect { width: keys_w, ..inner }, if rows >= inner.height { rows - inner.height } else { 0 })
}

/// The column on the right of the help's content for the brand and the
/// mascot: the mascot's width and a margin, flush right.
pub fn help_art_column(inner: Rect) -> (r: Rect)
    requires
        on_grid(inner),
    ensures
        r == (Rect {
            x: (inner.x + if inner.width >= MASCOT_W + 2 { inner.width - (MASCOT_W + 2) } else { 0 }) as u16,
            width: (MASCOT_W + 2) as u16,
            ..inner
        }),
{
    let art_w: u16 = MASCOT_W + 2;
    Rect { x: inner.x + if inner.width >= art_w { inner.width - art_w } else { 0 }, width: art_w, ..inner }
}

/// The room for the mascot under the brand in the art column, from row `y`
/// down, and whether it gets its caption (when four rows more than the
/// mascot are left).
pub fn mascot_room(art: Rect, y: u16) -> (r: (Rect, bool))
    requires
        on_grid(art),
    ensures
        ({
            let left = if art.y + art.height >= y { art.y + art.height - y } else { 0 };
            &&& r.0 == (Rect { x: art.x, y, width: art.width, height: left as u16 })
            &&& r.1 == (left >= MASCOT_H + 4)
        }),
{
    let bottom = art.y + art.height;
    let left = if bottom >= y { bottom - y } else { 0 };
    (Rect { x: art.x, y, width: art.width, height: left }, left >= MASCOT_H + 4)
}

} // verus!
