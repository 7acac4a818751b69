//! A GPU's panel: its title and subtitle, and the facts listed beside its
//! graph, only those the card really reports (a column of "unsupported"
//! would be noise that hides what it does report). Readings arrive
//! formatted.

use vstd::prelude::*;
use vstd::string::StringExecFns;
use crate::chars::owned;
use crate::format::{dec, decimal, spec_truncate, truncate, width};
use crate::chars::str_width;

verus! {

/// A reading and the metric it explains, if any.
pub struct Fact {
    pub value: String,
    pub metric: Option<String>,
}

/// What is known of one card.
pub struct GpuCard {
    pub vendor: String,
    pub name: String,
    pub backend: String,
    pub driver: Option<String>,
    /// The utilisation is an estimate (an integrated GPU's idle residency
    /// turned around), not a reading.
    pub estimated: bool,
    pub temperature: Option<Fact>,
    pub power: Option<String>,
    pub power_limit: Option<String>,
    pub core_clock: Option<Fact>,
    pub clock_range: Option<String>,
    pub memory_clock: Option<Fact>,
    pub fan: Option<Fact>,
    pub pstate: Option<String>,
    /// PCIe generation and lane count.
    pub pcie: Option<(u32, u32)>,
    pub processes: usize,
    /// Whether the process list covers every user's processes.
    pub complete: bool,
}

/// One row of the facts: label, value, the metric it explains, and whether
/// it is drawn as an estimate.
pub struct FactRow {
    pub label: String,
    pub value: String,
    pub metric: Option<String>,
    pub estimate: bool,
}

pub open spec fn opt_view(s: Option<String>) -> Option<Seq<char>> {
    match s { Some(x) => Some(x@), None => None }
}

pub type RowView = (Seq<char>, Seq<char>, Option<Seq<char>>, bool);

pub open spec fn row_views(r: Seq<FactRow>) -> Seq<RowView> {
    Seq::new(r.len(), |i: int| (r[i].label@, r[i].value@, opt_view(r[i].metric), r[i].estimate))
}

/// The title: vendor and name.
pub open spec fn spec_card_title(c: GpuCard) -> Seq<char> {
    c.vendor@ + " · "@ + c.name@
}

/// The subtitle: the driver when known, the backend in brackets, and
/// `[ESTIMATED]` when the utilisation is an estimate.
pub open spec fn spec_card_subtitle(c: GpuCard) -> Seq<char> {
    (match c.driver { Some(d) => "driver "@ + d@ + "  "@, None => Seq::empty() })
        + "["@ + c.backend@ + "]"@
        + if c.estimated { " [ESTIMATED]"@ } else { Seq::empty() }
}

pub open spec fn fact_row(label: Seq<char>, f: Option<Fact>) -> Seq<RowView> {
    match f { Some(x) => seq![(label, x.value@, opt_view(x.metric), false)], None => Seq::empty() }
}

pub open spec fn text_row(label: Seq<char>, v: Option<String>, metric: Seq<char>) -> Seq<RowView> {
    match v { Some(x) => seq![(label, x@, Some(metric), false)], None => Seq::empty() }
}

pub open spec fn power_row(p: Option<String>, l: Option<String>) -> Seq<RowView> {
    match (p, l) {
        (Some(p), Some(l)) => seq![("Power"@, p@ + " / "@ + l@ + " W"@, Some("gpu.power"@), false)],
        (Some(p), None) => seq![("Power"@, p@ + " W"@, Some("gpu.power"@), false)],
        _ => Seq::empty(),
    }
}

pub open spec fn pcie_row(p: Option<(u32, u32)>) -> Seq<RowView> {
    match p {
        Some((g, w)) => seq![("PCIe link"@, "gen"@ + dec(g as nat) + " x"@ + dec(w as nat), Some("gpu.pcie"@), false)],
        None => Seq::empty(),
    }
}

pub open spec fn processes_text(n: nat, complete: bool) -> Seq<char> {
    if n == 0 { "none"@ } else if complete { dec(n) + " 個"@ } else { dec(n) + " 個（僅自己的）"@ }
}

/// The facts, in order; a fact the card does not report has no row.
pub open spec fn spec_card_facts(c: GpuCard) -> Seq<RowView> {
    fact_row("Temperature"@, c.temperature)
        + power_row(c.power, c.power_limit)
        + fact_row("Core clock"@, c.core_clock)
        + text_row("Clock range"@, c.clock_range, "gpu.clock"@)
        + fact_row("Memory clock"@, c.memory_clock)
        + fact_row("Fan"@, c.fan)
        + text_row("Perf state"@, c.pstate, "gpu.pstate"@)
        + pcie_row(c.pcie)
        + (if c.estimated {
            seq![("Data quality"@, "estimated · 按 e 看算法"@, Some("gpu.intel_util"@), true)]
        } else {
            Seq::empty()
        })
        + seq![("Compute procs"@, processes_text(c.processes as nat, c.complete), Some("gpu.process"@), false)]
}

/// The panel's title and subtitle.
pub fn card_heading(c: &GpuCard) -> (r: (String, String))
    ensures
        r.0@ == spec_card_title(*c),
        r.1@ == spec_card_subtitle(*c),
{
    let mut t = owned(c.vendor.as_str());
    t.append(" · ");
    t.append(c.name.as_str());
    let mut s = String::new();
    match &c.driver {
        Some(d) => {
            s.append("driver ");
            s.append(d.as_str());
            s.append("  ");
        },
        None => {},
    }
    s.append("[");
    s.append(c.backend.as_str());
    s.append("]");
    if c.estimated {
        s.append(" [ESTIMATED]");
    }
    assert(s@ =~= spec_card_subtitle(*c));
    (t, s)
}

fn opt_copy(s: &Option<String>) -> (r: Option<String>)
    ensures
        opt_view(r) == opt_view(*s),
{
    match s {
        Some(x) => Some(owned(x.as_str())),
        None => None,
    }
}

fn push_row(out: &mut Vec<FactRow>, label: &str, value: String, metric: Option<String>, estimate: bool)
    ensures
        row_views(final(out)@) == row_views(old(out)@).push((label@, value@, opt_view(metric), estimate)),
{
    out.push(FactRow { label: owned(label), value, metric, estimate });
    assert(row_views(out@) =~= row_views(old(out)@).push((label@, value@, opt_view(metric), estimate)));
}

fn add_fact(out: &mut Vec<FactRow>, label: &str, f: &Option<Fact>)
    ensures
        row_views(final(out)@) == row_views(old(out)@) + fact_row(label@, *f),
{
    match f {
        Some(x) => push_row(out, label, owned(x.value.as_str()), opt_copy(&x.metric), false),
        None => {},
    }
    assert(row_views(out@) =~= row_views(old(out)@) + fact_row(label@, *f));
}

fn add_text(out: &mut Vec<FactRow>, label: &str, v: &Option<String>, metric: &str)
    ensures
        row_views(final(out)@) == row_views(old(out)@) + text_row(label@, *v, metric@),
{
    match v {
        Some(x) => push_row(out, label, owned(x.as_str()), Some(owned(metric)), false),
        None => {},
    }
    assert(row_views(out@) =~= row_views(old(out)@) + text_row(label@, *v, metric@));
}

/// The facts beside a card's graph.
#[verifier::spinoff_prover]
#[verifier::rlimit(40)]
pub fn card_facts(c: &GpuCard) -> (r: Vec<FactRow>)
    ensures
        row_views(r@) == spec_card_facts(*c),
{
    let mut out: Vec<FactRow> = Vec::new();
    add_fact(&mut out, "Temperature", &c.temperature);
    let ghost a = row_views(out@);
    match (&c.power, &c.power_limit) {
        (Some(p), Some(l)) => {
            let mut v = owned(p.as_str());
            v.append(" / ");
            v.append(l.as_str());
            v.append(" W");
            push_row(&mut out, "Power", v, Some(owned("gpu.power")), false);
        },
        (Some(p), None) => {
            let mut v = owned(p.as_str());
            v.append(" W");
            push_row(&mut out, "Power", v, Some(owned("gpu.power")), false);
        },
        _ => {},
    }
    assert(row_views(out@) =~= a + power_row(c.power, c.power_limit));
    add_fact(&mut out, "Core clock", &c.core_clock);
    add_text(&mut out, "Clock range", &c.clock_range, "gpu.clock");
    add_fact(&mut out, "Memory clock", &c.memory_clock);
    add_fact(&mut out, "Fan", &c.fan);
    add_text(&mut out, "Perf state", &c.pstate, "gpu.pstate");
    let ghost b = row_views(out@);
    match c.pcie {
        Some((g, w)) => {
            let mut v = owned("gen");
            v.append(decimal(g as usize).as_str());
            v.append(" x");
            v.append(decimal(w as usize).as_str());
            push_row(&mut out, "PCIe link", v, Some(owned("gpu.pcie")), false);
        },
        None => {},
    }
    assert(row_views(out@) =~= b + pcie_row(c.pcie));
    if c.estimated {
        push_row(&mut out, "Data quality", owned("estimated · 按 e 看算法"), Some(owned("gpu.intel_util")), true);
    }
    let procs = if c.processes == 0 {
        owned("none")
    } else if c.complete {
        let mut v = decimal(c.processes);
        v.append(" 個");
        v
    } else {
        let mut v = decimal(c.processes);
        v.append(" 個（僅自己的）");
        v
    };
    push_row(&mut out, "Compute procs", procs, Some(owned("gpu.process")), false);
    assert(row_views(out@) =~= spec_card_facts(*c));
    out
}

/// A card as the overview's GPU panel shows it.
pub struct GpuSummary {
    pub name: String,
    /// The temperature, formatted with its unit, if reported.
    pub temperature: Option<String>,
    /// The power draw, formatted with its unit, if reported.
    pub power: Option<String>,
    pub estimated: bool,
    /// The card has its own video memory (an integrated GPU shares the
    /// system's and gets no VRAM gauge).
    pub has_vram: bool,
}

/// One line of the overview's GPU panel.
pub enum PanelLine {
    /// Why NVIDIA is unavailable.
    Error(String),
    /// Where the full diagnostics are.
    Hint,
    /// A card's name, and its temperature and power right-aligned from
    /// column `facts_x`.
    Name { name: String, facts: String, facts_x: u16 },
    /// The utilisation gauge, marked `util~` when estimated.
    Utilization { estimated: bool },
    /// The video memory gauge.
    Vram,
    /// No card and no error: the "找不到 GPU" placeholder, over the panel.
    NoGpu,
}

/// The panel's subtitle: how many cards.
pub open spec fn spec_panel_subtitle(count: nat) -> Seq<char> {
    if count == 0 { "none"@ } else { dec(count) + " 張"@ }
}

pub fn panel_subtitle(count: usize) -> (r: String)
    ensures
        r@ == spec_panel_subtitle(count as nat),
{
    if count == 0 {
        owned("none")
    } else {
        let mut s = decimal(count);
        s.append(" 張");
        s
    }
}

/// A line's kind, for the panel's plan: 0 error, 1 hint, 2 name, 3 gauge,
/// 4 video memory, 5 the no-card placeholder.
pub open spec fn line_kind(l: PanelLine) -> int {
    match l {
        PanelLine::Error(_) => 0,
        PanelLine::Hint => 1,
        PanelLine::Name { .. } => 2,
        PanelLine::Utilization { .. } => 3,
        PanelLine::Vram => 4,
        PanelLine::NoGpu => 5,
    }
}

/// Temperature and power, two spaces apart, whichever are reported.
pub open spec fn spec_facts(c: GpuSummary) -> Seq<char> {
    match (c.temperature, c.power) {
        (Some(t), Some(p)) => t@ + "  "@ + p@,
        (Some(t), None) => t@,
        (None, Some(p)) => p@,
        (None, None) => Seq::empty(),
    }
}

/// The lines for the cards from `k` on, starting at row `y` of `h`: a card
/// needs two rows (name and gauge) and gets a third for its video memory
/// when it has its own and there is room; cards that do not fit are left out.
pub open spec fn card_rows(cards: Seq<GpuSummary>, k: int, y: int, h: int) -> Seq<(int, int, int)>
    decreases cards.len() - k,
{
    if k < 0 || k >= cards.len() || y + 1 >= h {
        Seq::empty()
    } else {
        let vram = cards[k].has_vram && y + 2 < h;
        seq![(y, 2, k), (y + 1, 3, k)]
            + (if vram { seq![(y + 2, 4, k)] } else { Seq::empty() })
            + card_rows(cards, k + 1, if vram { y + 3 } else { y + 2 }, h)
    }
}

/// The panel's plan as (row, kind, card): nothing in a panel without rows;
/// the error and the hint when NVIDIA is unavailable (the hint only when
/// there is a second row), then the cards; the placeholder when there is
/// neither a card nor an error.
pub open spec fn spec_panel_rows(error: bool, cards: Seq<GpuSummary>, h: int) -> Seq<(int, int, int)> {
    if h <= 0 {
        Seq::empty()
    } else if error {
        seq![(0int, 0int, -1int)] + if 1 < h { seq![(1int, 1int, -1int)] + card_rows(cards, 0, 2, h) } else { card_rows(cards, 0, 1, h) }
    } else if cards.len() == 0 {
        seq![(0int, 5int, -1int)]
    } else {
        card_rows(cards, 0, 0, h)
    }
}

pub struct Placed {
    pub y: u16,
    pub card: Option<usize>,
    pub line: PanelLine,
}

pub open spec fn placed_view(p: Placed) -> (int, int, int) {
    (p.y as int, line_kind(p.line), match p.card { Some(k) => k as int, None => -1 })
}

pub open spec fn placed_views(s: Seq<Placed>) -> Seq<(int, int, int)> {
    Seq::new(s.len(), |i: int| placed_view(s[i]))
}

/// What each line shows: the error line the message cut to the width; a
/// name line its card's name, cut to leave room for the facts, and the
/// card's facts right-aligned; a gauge line whether its card's utilisation
/// is an estimate.
pub open spec fn line_ok(p: Placed, error: Option<String>, cards: Seq<GpuSummary>, w: u16) -> bool {
    match p.line {
        PanelLine::Error(m) => error is Some && m@ == spec_truncate("✗ NVIDIA: "@ + error->0@, w as nat),
        PanelLine::Name { name, facts, facts_x } => match p.card {
            Some(j) => j < cards.len()
                && name@ == spec_truncate(cards[j as int].name@, if w >= 16 { (w - 16) as nat } else { 0 })
                && facts@ == spec_facts(cards[j as int])
                && facts_x == if str_width(facts@) < w { w - str_width(facts@) } else { 0 },
            None => false,
        },
        PanelLine::Utilization { estimated } => match p.card {
            Some(j) => j < cards.len() && estimated == cards[j as int].estimated,
            None => false,
        },
        _ => true,
    }
}

fn name_line(c: &GpuSummary, w: u16) -> (r: PanelLine)
    ensures
        r matches PanelLine::Name { name, facts, facts_x }
            && name@ == spec_truncate(c.name@, if w >= 16 { (w - 16) as nat } else { 0 })
            && facts@ == spec_facts(*c)
            && facts_x == if str_width(spec_facts(*c)) < w { w - str_width(spec_facts(*c)) } else { 0 },
{
    let name = truncate(c.name.as_str(), if w >= 16 { (w - 16) as usize } else { 0 });
    let facts = match (&c.temperature, &c.power) {
        (Some(t), Some(p)) => {
            let mut f = owned(t.as_str());
            f.append("  ");
            f.append(p.as_str());
            f
        },
        (Some(t), None) => owned(t.as_str()),
        (None, Some(p)) => owned(p.as_str()),
        (None, None) => String::new(),
    };
    let fw = width(facts.as_str());
    let facts_x = if fw < w as usize { w - fw as u16 } else { 0 };
    PanelLine::Name { name, facts, facts_x }
}

/// The overview's GPU panel laid out in `w`×`h`: each line's row, and for a
/// card's name its text (cut to leave room for the facts) and the facts'
/// column.
pub fn panel_rows(error: &Option<String>, cards: &Vec<GpuSummary>, w: u16, h: u16) -> (r: Vec<Placed>)
    ensures
        placed_views(r@) == spec_panel_rows(error is Some, cards@, h as int),
        forall|i: int| 0 <= i < r@.len() ==> line_ok(#[trigger] r@[i], *error, cards@, w),
{
    let mut out: Vec<Placed> = Vec::new();
    if h == 0 {
        assert(placed_views(out@) =~= spec_panel_rows(error is Some, cards@, h as int));
        return out;
    }
    if error.is_none() && cards.len() == 0 {
        out.push(Placed { y: 0, card: None, line: PanelLine::NoGpu });
        assert(placed_views(out@) =~= spec_panel_rows(error is Some, cards@, h as int));
        return out;
    }
    let mut y: u16 = 0;
    match error {
        Some(e) => {
            let mut msg = owned("✗ NVIDIA: ");
            msg.append(e.as_str());
            assert(msg@ == "✗ NVIDIA: "@ + error->0@);
            out.push(Placed { y: 0, card: None, line: PanelLine::Error(truncate(msg.as_str(), w as usize)) });
            y = 1;
            if 1 < h {
                out.push(Placed { y: 1, card: None, line: PanelLine::Hint });
                y = 2;
            }
        },
        None => {},
    }
    let ghost head = placed_views(out@);
    assert(spec_panel_rows(error is Some, cards@, h as int) == head + card_rows(cards@, 0, y as int, h as int));
    let mut k: usize = 0;
    while k < cards.len() && (y as u32) + 1 < h as u32
        invariant
            k <= cards@.len(),
            spec_panel_rows(error is Some, cards@, h as int) == placed_views(out@) + card_rows(cards@, k as int, y as int, h as int),
            forall|i: int| 0 <= i < out@.len() ==> line_ok(#[trigger] out@[i], *error, cards@, w),
        decreases cards@.len() - k,
    {
        let c = &cards[k];
        let ghost before = placed_views(out@);
        let ghost prev = out@;
        out.push(Placed { y, card: Some(k), line: name_line(c, w) });
        out.push(Placed { y: y + 1, card: Some(k), line: PanelLine::Utilization { estimated: c.estimated } });
        let vram = c.has_vram && (y as u32) + 2 < h as u32;
        if vram {
            out.push(Placed { y: y + 2, card: Some(k), line: PanelLine::Vram });
        }
        proof {
            let tail = (if vram { seq![(y as int + 2, 4int, k as int)] } else { Seq::empty() });
            assert(placed_views(out@) =~= before + seq![(y as int, 2int, k as int), (y as int + 1, 3int, k as int)] + tail);
            assert forall|i: int| 0 <= i < out@.len() implies line_ok(#[trigger] out@[i], *error, cards@, w) by {
                if i < prev.len() {
                    assert(out@[i] == prev[i]);
                }
            }
        }
        y = if vram { y + 3 } else { y + 2 };
        k = k + 1;
    }
    proof {
        assert(card_rows(cards@, k as int, y as int, h as int) =~= Seq::<(int, int, int)>::empty());
    }
    assert(placed_views(out@) =~= spec_panel_rows(error is Some, cards@, h as int));
    out
}

} // verus!
