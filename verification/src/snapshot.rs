//! The plain-text snapshot written when there is no terminal (`sysview >
//! log.txt`, cron, a pipe). ASCII drawing only, so it greps well and pastes
//! into an issue as it is.
//!
//! The readings arrive already formatted; what is laid out here is the page:
//! the rules, the sections in their order, the bars, the columns, which rows
//! appear and which are left out.

use vstd::prelude::*;
use vstd::string::StringExecFns;
use crate::chars::{owned, push_char};
use crate::format::{ascii_bar, dec, decimal, spaces, spec_truncate, truncate};

verus! {

/// A bar and the reading beside it. `filled` is how many cells of the bar
/// the reading covers; the bar is never drawn longer than its width.
pub struct Meter {
    pub filled: usize,
    pub reading: String,
}

pub struct CpuPart {
    pub meter: Meter,
    pub model: String,
    pub threads: String,
    pub frequency: String,
    pub temperature: String,
    pub load1: String,
    pub load5: String,
    pub load15: String,
    pub iowait: String,
    /// Each core's usage, as a whole percentage.
    pub cores: Vec<String>,
}

pub struct SwapPart {
    pub meter: Meter,
    pub used: String,
    pub total: String,
}

pub struct MemPart {
    pub meter: Meter,
    pub used: String,
    pub total: String,
    /// Present only when the machine has swap.
    pub swap: Option<SwapPart>,
    pub cache: String,
    pub buffers: String,
    pub available: String,
}

pub struct Diagnostic {
    pub symbol: String,
    pub text: String,
}

pub struct GpuProcess {
    pub pid: String,
    pub memory: Option<String>,
    pub name: Option<String>,
}

pub struct GpuDevice {
    pub meter: Meter,
    pub name: String,
    pub backend: String,
    /// Used and total video memory, when the driver reports a total.
    pub vram: Option<(String, String)>,
    pub temperature: Option<String>,
    pub power: Option<String>,
    pub clock: Option<String>,
    /// The utilisation is an estimate rather than a reading.
    pub estimated: bool,
    pub processes: Vec<GpuProcess>,
}

pub struct GpuPart {
    /// Why the NVIDIA backend could not be used, if it could not.
    pub error: Option<String>,
    pub diagnostics: Vec<Diagnostic>,
    pub devices: Vec<GpuDevice>,
}

pub struct MountRow {
    pub point: String,
    /// The bar and the usage as a whole percentage.
    pub meter: Meter,
    pub free: String,
    pub total: String,
}

pub struct DiskPart {
    pub read: String,
    pub write: String,
    pub mounts: Vec<MountRow>,
}

pub struct Interface {
    pub name: String,
    pub virtual_iface: bool,
    pub up: bool,
    pub rx: String,
    pub tx: String,
    pub addrs: Vec<String>,
}

pub struct NetPart {
    pub down: String,
    pub up: String,
    pub interfaces: Vec<Interface>,
}

pub struct ProcessRow {
    pub pid: String,
    pub user: String,
    pub cpu: String,
    pub rss: String,
    pub command: String,
}

pub struct ProcPart {
    pub total: String,
    pub threads: String,
    /// The busiest processes first.
    pub top: Vec<ProcessRow>,
}

/// Everything a snapshot shows.
pub struct SnapshotLines {
    pub version: String,
    pub host: String,
    pub uptime: String,
    pub cpu: CpuPart,
    pub mem: MemPart,
    pub gpu: GpuPart,
    pub disk: DiskPart,
    pub net: NetPart,
    pub procs: ProcPart,
}

/// How many processes the snapshot lists.
pub const TOP_PROCESSES: usize = 12;

/// A line: the text and its newline.
pub open spec fn line(s: Seq<char>) -> Seq<char> {
    s.push('\n')
}

/// The rule above and below the title: 78 `=`.
pub open spec fn rule() -> Seq<char> {
    Seq::new(78, |i: int| '=')
}

/// Right-aligned in `n` characters.
pub open spec fn lpad(s: Seq<char>, n: nat) -> Seq<char> {
    if s.len() < n { spaces((n - s.len()) as nat) + s } else { s }
}

/// Left-aligned in `n` characters.
pub open spec fn rpad(s: Seq<char>, n: nat) -> Seq<char> {
    if s.len() < n { s + spaces((n - s.len()) as nat) } else { s }
}

/// `[###.....]`: `filled` of `w` cells, at most all of them.
pub open spec fn bar_text(filled: nat, w: nat) -> Seq<char> {
    seq!['['] + Seq::new(w, |i: int| if i < filled { '#' } else { '.' }) + seq![']']
}

/// A bar of `w` cells, two spaces and the reading right-aligned in `rw`.
pub open spec fn meter_text(m: Meter, w: nat, rw: nat) -> Seq<char> {
    bar_text(m.filled as nat, w) + "  "@ + lpad(m.reading@, rw)
}

/// The text of each item of `s`, one after another.
pub open spec fn each<T>(s: Seq<T>, f: spec_fn(T) -> Seq<char>) -> Seq<char>
    decreases s.len(),
{
    if s.len() == 0 { Seq::empty() } else { each(s.drop_last(), f) + f(s.last()) }
}

/// The items joined by `sep`.
pub open spec fn joined(s: Seq<Seq<char>>, sep: Seq<char>) -> Seq<char>
    decreases s.len(),
{
    if s.len() == 0 {
        Seq::empty()
    } else if s.len() == 1 {
        s[0]
    } else {
        joined(s.drop_last(), sep) + sep + s.last()
    }
}

pub open spec fn views(s: Seq<String>) -> Seq<Seq<char>> {
    s.map_values(|x: String| x@)
}

/// The header: a rule, the name, version, host and uptime, a rule, a blank.
pub open spec fn header_text(v: SnapshotLines) -> Seq<char> {
    line(rule()) + line(" sysview "@ + v.version@ + "   "@ + v.host@ + "   up "@ + v.uptime@)
        + line(rule()) + line(Seq::empty())
}

/// One core: its index in two columns, its usage in four, and `%`.
pub open spec fn core_cell(i: nat, usage: Seq<char>) -> Seq<char> {
    lpad(dec(i), 2) + ":"@ + lpad(usage, 4) + "%  "@
}

/// The cells of cores `lo..hi`.
pub open spec fn core_cells(cores: Seq<String>, lo: nat, hi: nat) -> Seq<char>
    decreases hi - lo,
{
    if hi <= lo { Seq::empty() } else { core_cells(cores, lo, (hi - 1) as nat) + core_cell((hi - 1) as nat, cores[hi - 1]@) }
}

/// The rows of cores from `start` on, eight to a row.
pub open spec fn core_rows(cores: Seq<String>, start: nat) -> Seq<char>
    decreases cores.len() - start,
{
    if start >= cores.len() {
        Seq::empty()
    } else {
        let hi = if start + 8 < cores.len() { start + 8 } else { cores.len() };
        line("      "@ + core_cells(cores, start, hi)) + core_rows(cores, hi)
    }
}

pub open spec fn cpu_head(c: CpuPart) -> Seq<char> {
    " CPU  "@ + meter_text(c.meter, 28, 6) + "   "@ + spec_truncate(c.model@, 34)
}

pub open spec fn cpu_detail(c: CpuPart) -> Seq<char> {
    "      "@ + c.threads@ + " threads · "@ + c.frequency@ + " · "@ + c.temperature@
        + " · load "@ + c.load1@ + " "@ + c.load5@ + " "@ + c.load15@ + " · iowait "@ + c.iowait@
}

pub open spec fn cpu_text(c: CpuPart) -> Seq<char> {
    line(cpu_head(c)) + line(cpu_detail(c)) + core_rows(c.cores@, 0) + line(Seq::empty())
}

/// A meter line: the name in five columns, the bar, `used / total`.
pub open spec fn usage_line(name: Seq<char>, m: Meter, used: Seq<char>, total: Seq<char>) -> Seq<char> {
    name + meter_text(m, 28, 6) + "   "@ + used + " / "@ + total
}

pub open spec fn mem_detail(m: MemPart) -> Seq<char> {
    "      cache "@ + m.cache@ + " · buffers "@ + m.buffers@ + " · available "@ + m.available@
}

pub open spec fn mem_text(m: MemPart) -> Seq<char> {
    line(usage_line(" MEM  "@, m.meter, m.used@, m.total@))
        + (match m.swap {
            Some(s) => line(usage_line(" SWAP "@, s.meter, s.used@, s.total@)),
            None => Seq::empty(),
        })
        + line(mem_detail(m)) + line(Seq::empty())
}

/// What is known of a device beyond its utilisation: only what it reports.
pub open spec fn device_facts(d: GpuDevice) -> Seq<Seq<char>> {
    seq![d.backend@]
        + vram_fact(d.vram)
        + opt_fact(d.temperature, "temp "@)
        + opt_fact(d.power, "power "@)
        + opt_fact(d.clock, "clock "@)
        + (if d.estimated { seq!["utilization is estimated"@] } else { Seq::empty() })
}

pub open spec fn gpu_process_row(p: GpuProcess) -> Seq<char> {
    ("      pid "@ + rpad(p.pid@, 8) + " "@
        + lpad(match p.memory { Some(m) => m@, None => "n/a"@ }, 10) + "  "@
        + (match p.name { Some(n) => n@, None => "?"@ }))
}

pub open spec fn gpu_process_text(p: GpuProcess) -> Seq<char> {
    line(gpu_process_row(p))
}

pub open spec fn device_head(d: GpuDevice) -> Seq<char> {
    " GPU  "@ + meter_text(d.meter, 28, 7) + "   "@ + spec_truncate(d.name@, 34)
}

pub open spec fn device_text(d: GpuDevice) -> Seq<char> {
    line(device_head(d)) + line("      "@ + joined(device_facts(d), " · "@))
        + each(d.processes@, gpu_process_f())
}

pub open spec fn diagnostic_text(d: Diagnostic) -> Seq<char> {
    line("      "@ + d.symbol@ + " "@ + d.text@)
}

pub open spec fn gpu_text(g: GpuPart) -> Seq<char> {
    (match g.error {
        Some(e) => line(" GPU  [NVIDIA unavailable] "@ + e@) + each(g.diagnostics@, diagnostic_f()),
        None => Seq::empty(),
    })
        + each(g.devices@, device_f())
        + (if g.devices@.len() == 0 && g.error is None { line(" GPU  none detected"@) } else { Seq::empty() })
        + line(Seq::empty())
}

pub open spec fn mount_row(m: MountRow) -> Seq<char> {
    ("      "@ + rpad(spec_truncate(m.point@, 20), 20) + " "@ + bar_text(m.meter.filled as nat, 20) + " "@
        + lpad(m.meter.reading@, 4) + "%  "@ + lpad(m.free@, 10) + " free / "@ + lpad(m.total@, 10))
}

pub open spec fn mount_text(m: MountRow) -> Seq<char> {
    line(mount_row(m))
}

pub open spec fn disk_text(d: DiskPart) -> Seq<char> {
    line(" DISK  read "@ + d.read@ + "  write "@ + d.write@)
        + each(d.mounts@, mount_f())
        + line(Seq::empty())
}

/// A physical interface that is up gets a row; the others are left out.
pub open spec fn interface_text(i: Interface) -> Seq<char> {
    if !i.virtual_iface && i.up {
        line(interface_row(i))
    } else {
        Seq::empty()
    }
}

pub open spec fn interface_row(i: Interface) -> Seq<char> {
    {
        ("      "@ + rpad(i.name@, 12) + " down "@ + lpad(i.rx@, 12) + "  up "@ + lpad(i.tx@, 12)
            + "   "@ + joined(views(i.addrs@), ", "@))
    }
}

pub open spec fn net_text(n: NetPart) -> Seq<char> {
    line(" NET   down "@ + n.down@ + "   up "@ + n.up@)
        + each(n.interfaces@, interface_f())
        + line(Seq::empty())
}

pub open spec fn process_row(p: ProcessRow) -> Seq<char> {
    ("      "@ + lpad(p.pid@, 7) + " "@ + rpad(spec_truncate(p.user@, 12), 12) + " "@
        + lpad(p.cpu@, 7) + " "@ + lpad(p.rss@, 11) + "  "@ + spec_truncate(p.command@, 44))
}

pub open spec fn process_text(p: ProcessRow) -> Seq<char> {
    line(process_row(p))
}

/// The column titles of the process table.
pub open spec fn process_titles() -> Seq<char> {
    "          PID USER            CPU%         RSS  COMMAND"@
}

pub open spec fn proc_text(p: ProcPart) -> Seq<char> {
    let shown = if p.top@.len() > 12 { p.top@.take(12) } else { p.top@ };
    line(" PROC  "@ + p.total@ + " processes / "@ + p.threads@ + " threads"@)
        + line(process_titles())
        + each(shown, process_f())
        + line(Seq::empty())
}

pub open spec fn gpu_process_f() -> spec_fn(GpuProcess) -> Seq<char> { |p: GpuProcess| gpu_process_text(p) }
pub open spec fn diagnostic_f() -> spec_fn(Diagnostic) -> Seq<char> { |d: Diagnostic| diagnostic_text(d) }
pub open spec fn device_f() -> spec_fn(GpuDevice) -> Seq<char> { |d: GpuDevice| device_text(d) }
pub open spec fn mount_f() -> spec_fn(MountRow) -> Seq<char> { |m: MountRow| mount_text(m) }
pub open spec fn interface_f() -> spec_fn(Interface) -> Seq<char> { |i: Interface| interface_text(i) }
pub open spec fn process_f() -> spec_fn(ProcessRow) -> Seq<char> { |r: ProcessRow| process_text(r) }

/// The whole snapshot: header, CPU, memory, GPU, disks, network, processes.
pub open spec fn spec_snapshot(v: SnapshotLines) -> Seq<char> {
    header_text(v) + cpu_text(v.cpu) + mem_text(v.mem) + gpu_text(v.gpu)
        + disk_text(v.disk) + net_text(v.net) + proc_text(v.procs)
}

proof fn lemma_each_step<T>(s: Seq<T>, i: int, f: spec_fn(T) -> Seq<char>)
    requires
        0 <= i < s.len(),
    ensures
        each(s.take(i + 1), f) == each(s.take(i), f) + f(s[i]),
{
    assert(s.take(i + 1).drop_last() =~= s.take(i));
}

fn put(o: &mut String, s: &str)
    ensures
        final(o)@ == old(o)@ + s@,
{
    o.append(s);
}

fn end_line(o: &mut String)
    ensures
        final(o)@ == old(o)@.push('\n'),
{
    push_char(o, '\n');
}

fn put_spaces(o: &mut String, n: usize)
    ensures
        final(o)@ == old(o)@ + spaces(n as nat),
{
    let mut i: usize = 0;
    while i < n
        invariant
            i <= n,
            o@ == old(o)@ + spaces(i as nat),
        decreases n - i,
    {
        push_char(o, ' ');
        i = i + 1;
        assert(o@ =~= old(o)@ + spaces(i as nat));
    }
}

fn put_lpad(o: &mut String, s: &str, n: usize)
    ensures
        final(o)@ == old(o)@ + lpad(s@, n as nat),
{
    let len = s.unicode_len();
    if len < n {
        put_spaces(o, n - len);
    }
    put(o, s);
    assert(o@ =~= old(o)@ + lpad(s@, n as nat));
}

fn put_rpad(o: &mut String, s: &str, n: usize)
    ensures
        final(o)@ == old(o)@ + rpad(s@, n as nat),
{
    let len = s.unicode_len();
    put(o, s);
    if len < n {
        put_spaces(o, n - len);
    }
    assert(o@ =~= old(o)@ + rpad(s@, n as nat));
}

fn put_bar(o: &mut String, filled: usize, w: usize)
    requires
        w <= 28,
    ensures
        final(o)@ == old(o)@ + bar_text(filled as nat, w as nat),
{
    let f = if filled < w { filled } else { w };
    let b = ascii_bar(f, w);
    put(o, b.as_str());
    assert(Seq::new(w as nat, |i: int| if i < f { '#' } else { '.' }) =~= Seq::new(w as nat, |i: int| if i < filled { '#' } else { '.' }));
    assert(o@ =~= old(o)@ + bar_text(filled as nat, w as nat));
}

fn put_meter(o: &mut String, m: &Meter, w: usize, rw: usize)
    requires
        w <= 28,
    ensures
        final(o)@ == old(o)@ + meter_text(*m, w as nat, rw as nat),
{
    put_bar(o, m.filled, w);
    put(o, "  ");
    put_lpad(o, m.reading.as_str(), rw);
    assert(o@ =~= old(o)@ + meter_text(*m, w as nat, rw as nat));
}

fn put_truncated(o: &mut String, s: &str, max: usize)
    ensures
        final(o)@ == old(o)@ + spec_truncate(s@, max as nat),
{
    let t = truncate(s, max);
    put(o, t.as_str());
}

fn header(o: &mut String, v: &SnapshotLines)
    ensures
        final(o)@ == old(o)@ + header_text(*v),
{
    let mut r = String::new();
    let mut i: usize = 0;
    while i < 78
        invariant
            i <= 78,
            r@ == Seq::new(i as nat, |k: int| '='),
        decreases 78 - i,
    {
        push_char(&mut r, '=');
        i = i + 1;
        assert(r@ =~= Seq::new(i as nat, |k: int| '='));
    }
    assert(r@ =~= rule());
    put(o, r.as_str());
    end_line(o);
    put(o, " sysview ");
    put(o, v.version.as_str());
    put(o, "   ");
    put(o, v.host.as_str());
    put(o, "   up ");
    put(o, v.uptime.as_str());
    end_line(o);
    put(o, r.as_str());
    end_line(o);
    end_line(o);
    assert(o@ =~= old(o)@ + header_text(*v));
}

fn core_lines(o: &mut String, cores: &Vec<String>)
    ensures
        final(o)@ == old(o)@ + core_rows(cores@, 0),
{
    let n = cores.len();
    let mut s: usize = 0;
    while s < n
        invariant
            n == cores@.len(),
            s <= n,
            old(o)@ + core_rows(cores@, 0) == o@ + core_rows(cores@, s as nat),
        decreases n - s,
    {
        let hi = if n - s > 8 { s + 8 } else { n };
        let ghost before = o@;
        put(o, "      ");
        let mut j: usize = s;
        while j < hi
            invariant
                n == cores@.len(),
                s <= j <= hi <= n,
                o@ == before + "      "@ + core_cells(cores@, s as nat, j as nat),
            decreases hi - j,
        {
            let d = decimal(j);
            put_lpad(o, d.as_str(), 2);
            put(o, ":");
            put_lpad(o, cores[j].as_str(), 4);
            put(o, "%  ");
            proof {
                assert(core_cells(cores@, s as nat, (j + 1) as nat)
                    == core_cells(cores@, s as nat, j as nat) + core_cell(j as nat, cores@[j as int]@));
            }
            j = j + 1;
            assert(o@ =~= before + "      "@ + core_cells(cores@, s as nat, j as nat));
        }
        end_line(o);
        proof {
            assert(core_rows(cores@, s as nat) == line("      "@ + core_cells(cores@, s as nat, hi as nat))
                + core_rows(cores@, hi as nat));
            assert(o@ =~= before + line("      "@ + core_cells(cores@, s as nat, hi as nat)));
            assert(before + core_rows(cores@, s as nat) =~= o@ + core_rows(cores@, hi as nat));
        }
        s = hi;
    }
    assert(core_rows(cores@, s as nat) =~= Seq::<char>::empty());
    assert(o@ =~= old(o)@ + core_rows(cores@, 0));
}

fn cpu_head_line(c: &CpuPart) -> (r: String)
    ensures
        r@ == cpu_head(*c),
{
    let mut o = String::new();
    put(&mut o, " CPU  ");
    put_meter(&mut o, &c.meter, 28, 6);
    put(&mut o, "   ");
    put_truncated(&mut o, c.model.as_str(), 34);
    assert(o@ =~= cpu_head(*c));
    o
}

fn cpu_detail_line(c: &CpuPart) -> (r: String)
    ensures
        r@ == cpu_detail(*c),
{
    let mut o = String::new();
    put(&mut o, "      ");
    put(&mut o, c.threads.as_str());
    put(&mut o, " threads · ");
    put(&mut o, c.frequency.as_str());
    put(&mut o, " · ");
    put(&mut o, c.temperature.as_str());
    let ghost a = o@;
    assert(a =~= "      "@ + c.threads@ + " threads · "@ + c.frequency@ + " · "@ + c.temperature@);
    put(&mut o, " · load ");
    put(&mut o, c.load1.as_str());
    put(&mut o, " ");
    put(&mut o, c.load5.as_str());
    let ghost b = o@;
    assert(b =~= a + " · load "@ + c.load1@ + " "@ + c.load5@);
    put(&mut o, " ");
    put(&mut o, c.load15.as_str());
    put(&mut o, " · iowait ");
    put(&mut o, c.iowait.as_str());
    assert(o@ =~= b + " "@ + c.load15@ + " · iowait "@ + c.iowait@);
    assert(o@ =~= cpu_detail(*c));
    o
}

fn put_line(o: &mut String, s: String)
    ensures
        final(o)@ == old(o)@ + line(s@),
{
    put(o, s.as_str());
    end_line(o);
    assert(o@ =~= old(o)@ + line(s@));
}

fn cpu_section(o: &mut String, c: &CpuPart)
    ensures
        final(o)@ == old(o)@ + cpu_text(*c),
{
    let ghost o0 = o@;
    put_line(o, cpu_head_line(c));
    put_line(o, cpu_detail_line(c));
    core_lines(o, &c.cores);
    put_line(o, String::new());
    assert(o@ =~= o0 + cpu_text(*c));
}

fn usage_text(name: &str, m: &Meter, used: &str, total: &str) -> (r: String)
    ensures
        r@ == usage_line(name@, *m, used@, total@),
{
    let mut o = String::new();
    put(&mut o, name);
    put_meter(&mut o, m, 28, 6);
    put(&mut o, "   ");
    put(&mut o, used);
    put(&mut o, " / ");
    put(&mut o, total);
    assert(o@ =~= usage_line(name@, *m, used@, total@));
    o
}

fn mem_detail_line(m: &MemPart) -> (r: String)
    ensures
        r@ == mem_detail(*m),
{
    let mut o = String::new();
    put(&mut o, "      cache ");
    put(&mut o, m.cache.as_str());
    put(&mut o, " · buffers ");
    put(&mut o, m.buffers.as_str());
    put(&mut o, " · available ");
    put(&mut o, m.available.as_str());
    assert(o@ =~= mem_detail(*m));
    o
}

fn mem_section(o: &mut String, m: &MemPart)
    ensures
        final(o)@ == old(o)@ + mem_text(*m),
{
    let ghost o0 = o@;
    put_line(o, usage_text(" MEM  ", &m.meter, m.used.as_str(), m.total.as_str()));
    let ghost o1 = o@;
    match &m.swap {
        Some(s) => {
            put_line(o, usage_text(" SWAP ", &s.meter, s.used.as_str(), s.total.as_str()));
        },
        None => {},
    }
    let ghost o2 = o@;
    assert(o2 =~= o1 + match m.swap {
        Some(s) => line(usage_line(" SWAP "@, s.meter, s.used@, s.total@)),
        None => Seq::empty(),
    });
    put_line(o, mem_detail_line(m));
    put_line(o, String::new());
    assert(o@ =~= o0 + mem_text(*m));
}

proof fn lemma_joined_push(s: Seq<Seq<char>>, sep: Seq<char>, x: Seq<char>)
    requires
        s.len() >= 1,
    ensures
        joined(s.push(x), sep) == joined(s, sep) + sep + x,
{
    assert(s.push(x).drop_last() =~= s);
}

fn cat(a: &str, b: &str) -> (r: String)
    ensures
        r@ == a@ + b@,
{
    let mut o = String::new();
    put(&mut o, a);
    put(&mut o, b);
    assert(o@ =~= a@ + b@);
    o
}

fn diagnostic_line(d: &Diagnostic) -> (r: String)
    ensures
        line(r@) == diagnostic_text(*d),
{
    let mut o = String::new();
    put(&mut o, "      ");
    put(&mut o, d.symbol.as_str());
    put(&mut o, " ");
    put(&mut o, d.text.as_str());
    assert(o@ =~= "      "@ + d.symbol@ + " "@ + d.text@);
    o
}

fn gpu_process_line(p: &GpuProcess) -> (r: String)
    ensures
        r@ == gpu_process_row(*p),
{
    let mut o = String::new();
    put(&mut o, "      pid ");
    put_rpad(&mut o, p.pid.as_str(), 8);
    put(&mut o, " ");
    let ghost a = o@;
    match &p.memory {
        Some(m) => put_lpad(&mut o, m.as_str(), 10),
        None => put_lpad(&mut o, "n/a", 10),
    }
    put(&mut o, "  ");
    match &p.name {
        Some(n) => put(&mut o, n.as_str()),
        None => put(&mut o, "?"),
    }
    assert(o@ =~= gpu_process_row(*p));
    o
}

fn device_head_line(d: &GpuDevice) -> (r: String)
    ensures
        r@ == device_head(*d),
{
    let mut o = String::new();
    put(&mut o, " GPU  ");
    put_meter(&mut o, &d.meter, 28, 7);
    put(&mut o, "   ");
    put_truncated(&mut o, d.name.as_str(), 34);
    assert(o@ =~= device_head(*d));
    o
}

fn add_fact(o: &mut String, item: &str, Ghost(facts): Ghost<Seq<Seq<char>>>)
    requires
        facts.len() >= 1,
        old(o)@ == "      "@ + joined(facts, " · "@),
    ensures
        final(o)@ == "      "@ + joined(facts.push(item@), " · "@),
{
    put(o, " · ");
    put(o, item);
    proof {
        lemma_joined_push(facts, " · "@, item@);
    }
    assert(o@ =~= "      "@ + joined(facts.push(item@), " · "@));
}

pub open spec fn vram_fact(v: Option<(String, String)>) -> Seq<Seq<char>> {
    match v { Some(p) => seq!["VRAM "@ + p.0@ + " / "@ + p.1@], None => Seq::empty() }
}

pub open spec fn opt_fact(v: Option<String>, label: Seq<char>) -> Seq<Seq<char>> {
    match v { Some(t) => seq![label + t@], None => Seq::empty() }
}

fn facts_line(d: &GpuDevice) -> (r: String)
    ensures
        r@ == "      "@ + joined(device_facts(*d), " · "@),
{
    let mut o = String::new();
    put(&mut o, "      ");
    put(&mut o, d.backend.as_str());
    let ghost f0: Seq<Seq<char>> = seq![d.backend@];
    assert(o@ =~= "      "@ + joined(f0, " · "@));
    let ghost f1 = f0 + vram_fact(d.vram);
    match &d.vram {
        Some(p) => {
            let mut item = cat("VRAM ", p.0.as_str());
            put(&mut item, " / ");
            put(&mut item, p.1.as_str());
            assert(item@ =~= "VRAM "@ + p.0@ + " / "@ + p.1@);
            add_fact(&mut o, item.as_str(), Ghost(f0));
            assert(f0.push(item@) =~= f1);
        },
        None => {
            assert(f0 =~= f1);
        },
    }
    let ghost f2 = f1 + opt_fact(d.temperature, "temp "@);
    match &d.temperature {
        Some(t) => {
            let item = cat("temp ", t.as_str());
            add_fact(&mut o, item.as_str(), Ghost(f1));
            assert(f1.push(item@) =~= f2);
        },
        None => {
            assert(f1 =~= f2);
        },
    }
    let ghost f3 = f2 + opt_fact(d.power, "power "@);
    match &d.power {
        Some(t) => {
            let item = cat("power ", t.as_str());
            add_fact(&mut o, item.as_str(), Ghost(f2));
            assert(f2.push(item@) =~= f3);
        },
        None => {
            assert(f2 =~= f3);
        },
    }
    let ghost f4 = f3 + opt_fact(d.clock, "clock "@);
    match &d.clock {
        Some(t) => {
            let item = cat("clock ", t.as_str());
            add_fact(&mut o, item.as_str(), Ghost(f3));
            assert(f3.push(item@) =~= f4);
        },
        None => {
            assert(f3 =~= f4);
        },
    }
    let ghost f5 = f4 + if d.estimated { seq!["utilization is estimated"@] } else { Seq::<Seq<char>>::empty() };
    if d.estimated {
        add_fact(&mut o, "utilization is estimated", Ghost(f4));
        assert(f4.push("utilization is estimated"@) =~= f5);
    } else {
        assert(f4 =~= f5);
    }
    assert(f5 =~= device_facts(*d));
    o
}

fn device_section(o: &mut String, d: &GpuDevice)
    ensures
        final(o)@ == old(o)@ + device_text(*d),
{
    let ghost o0 = o@;
    put_line(o, device_head_line(d));
    put_line(o, facts_line(d));
    let ghost base = o@;
    let mut i: usize = 0;
    while i < d.processes.len()
        invariant
            i <= d.processes@.len(),
            o@ == base + each(d.processes@.take(i as int), gpu_process_f()),
        decreases d.processes@.len() - i,
    {
        put_line(o, gpu_process_line(&d.processes[i]));
        proof {
            lemma_each_step(d.processes@, i as int, gpu_process_f());
        }
        i = i + 1;
        assert(o@ =~= base + each(d.processes@.take(i as int), gpu_process_f()));
    }
    assert(d.processes@.take(i as int) =~= d.processes@);
    assert(o@ =~= o0 + device_text(*d));
}

fn gpu_section(o: &mut String, g: &GpuPart)
    ensures
        final(o)@ == old(o)@ + gpu_text(*g),
{
    let ghost o0 = o@;
    match &g.error {
        Some(e) => {
            put_line(o, cat(" GPU  [NVIDIA unavailable] ", e.as_str()));
            let ghost base = o@;
            let mut i: usize = 0;
            while i < g.diagnostics.len()
                invariant
                    i <= g.diagnostics@.len(),
                    o@ == base + each(g.diagnostics@.take(i as int), diagnostic_f()),
                decreases g.diagnostics@.len() - i,
            {
                let l = diagnostic_line(&g.diagnostics[i]);
                put_line(o, l);
                proof {
                    lemma_each_step(g.diagnostics@, i as int, diagnostic_f());
                }
                i = i + 1;
                assert(o@ =~= base + each(g.diagnostics@.take(i as int), diagnostic_f()));
            }
            assert(g.diagnostics@.take(i as int) =~= g.diagnostics@);
        },
        None => {},
    }
    let ghost o1 = o@;
    assert(o1 =~= o0 + match g.error {
        Some(e) => line(" GPU  [NVIDIA unavailable] "@ + e@) + each(g.diagnostics@, diagnostic_f()),
        None => Seq::empty(),
    });
    let mut i: usize = 0;
    while i < g.devices.len()
        invariant
            i <= g.devices@.len(),
            o@ == o1 + each(g.devices@.take(i as int), device_f()),
        decreases g.devices@.len() - i,
    {
        device_section(o, &g.devices[i]);
        proof {
            lemma_each_step(g.devices@, i as int, device_f());
        }
        i = i + 1;
        assert(o@ =~= o1 + each(g.devices@.take(i as int), device_f()));
    }
    assert(g.devices@.take(i as int) =~= g.devices@);
    let ghost o2 = o@;
    if g.devices.len() == 0 && g.error.is_none() {
        put_line(o, owned(" GPU  none detected"));
    }
    assert(o@ =~= o2 + (if g.devices@.len() == 0 && g.error is None { line(" GPU  none detected"@) } else { Seq::empty() }));
    put_line(o, String::new());
    assert(o@ =~= o0 + gpu_text(*g));
}

fn mount_line(m: &MountRow) -> (r: String)
    ensures
        r@ == mount_row(*m),
{
    let mut o = String::new();
    put(&mut o, "      ");
    let t = truncate(m.point.as_str(), 20);
    put_rpad(&mut o, t.as_str(), 20);
    put(&mut o, " ");
    put_bar(&mut o, m.meter.filled, 20);
    put(&mut o, " ");
    put_lpad(&mut o, m.meter.reading.as_str(), 4);
    put(&mut o, "%  ");
    put_lpad(&mut o, m.free.as_str(), 10);
    put(&mut o, " free / ");
    put_lpad(&mut o, m.total.as_str(), 10);
    assert(o@ =~= mount_row(*m));
    o
}

fn disk_section(o: &mut String, d: &DiskPart)
    ensures
        final(o)@ == old(o)@ + disk_text(*d),
{
    let ghost o0 = o@;
    let mut head = cat(" DISK  read ", d.read.as_str());
    put(&mut head, "  write ");
    put(&mut head, d.write.as_str());
    assert(head@ =~= " DISK  read "@ + d.read@ + "  write "@ + d.write@);
    put_line(o, head);
    let ghost base = o@;
    let mut i: usize = 0;
    while i < d.mounts.len()
        invariant
            i <= d.mounts@.len(),
            o@ == base + each(d.mounts@.take(i as int), mount_f()),
        decreases d.mounts@.len() - i,
    {
        put_line(o, mount_line(&d.mounts[i]));
        proof {
            lemma_each_step(d.mounts@, i as int, mount_f());
        }
        i = i + 1;
        assert(o@ =~= base + each(d.mounts@.take(i as int), mount_f()));
    }
    assert(d.mounts@.take(i as int) =~= d.mounts@);
    put_line(o, String::new());
    assert(o@ =~= o0 + disk_text(*d));
}

fn interface_line(it: &Interface) -> (r: String)
    ensures
        r@ == interface_row(*it),
{
    let mut o = String::new();
    put(&mut o, "      ");
    put_rpad(&mut o, it.name.as_str(), 12);
    put(&mut o, " down ");
    put_lpad(&mut o, it.rx.as_str(), 12);
    put(&mut o, "  up ");
    put_lpad(&mut o, it.tx.as_str(), 12);
    put(&mut o, "   ");
    let ghost a = o@;
    let mut i: usize = 0;
    while i < it.addrs.len()
        invariant
            i <= it.addrs@.len(),
            o@ == a + joined(views(it.addrs@.take(i as int)), ", "@),
        decreases it.addrs@.len() - i,
    {
        let ghost before = o@;
        if i > 0 {
            put(&mut o, ", ");
        }
        put(&mut o, it.addrs[i].as_str());
        proof {
            let prev = views(it.addrs@.take(i as int));
            let next = views(it.addrs@.take(i as int + 1));
            assert(next =~= prev.push(it.addrs@[i as int]@));
            assert(prev.len() == i);
            if i > 0 {
                lemma_joined_push(prev, ", "@, it.addrs@[i as int]@);
                assert(joined(next, ", "@) == joined(prev, ", "@) + ", "@ + it.addrs@[i as int]@);
                assert(o@ == before + ", "@ + it.addrs@[i as int]@);
                assert(before == a + joined(prev, ", "@));
                assert(o@ =~= a + (joined(prev, ", "@) + ", "@ + it.addrs@[i as int]@));
            } else {
                assert(prev.len() == 0);
                assert(joined(prev, ", "@) =~= Seq::<char>::empty());
                assert(next.len() == 1);
                assert(joined(next, ", "@) == next[0]);
                assert(o@ =~= a + joined(next, ", "@));
            }
        }
        i = i + 1;
        assert(o@ =~= a + joined(views(it.addrs@.take(i as int)), ", "@));
    }
    assert(it.addrs@.take(i as int) =~= it.addrs@);
    assert(o@ =~= interface_row(*it));
    o
}

fn net_section(o: &mut String, n: &NetPart)
    ensures
        final(o)@ == old(o)@ + net_text(*n),
{
    let ghost o0 = o@;
    let mut head = cat(" NET   down ", n.down.as_str());
    put(&mut head, "   up ");
    put(&mut head, n.up.as_str());
    assert(head@ =~= " NET   down "@ + n.down@ + "   up "@ + n.up@);
    put_line(o, head);
    let ghost base = o@;
    let mut i: usize = 0;
    while i < n.interfaces.len()
        invariant
            i <= n.interfaces@.len(),
            o@ == base + each(n.interfaces@.take(i as int), interface_f()),
        decreases n.interfaces@.len() - i,
    {
        let it = &n.interfaces[i];
        let ghost before = o@;
        if !it.virtual_iface && it.up {
            put_line(o, interface_line(it));
        }
        assert(o@ =~= before + interface_text(*it));
        proof {
            lemma_each_step(n.interfaces@, i as int, interface_f());
        }
        i = i + 1;
        assert(o@ =~= base + each(n.interfaces@.take(i as int), interface_f()));
    }
    assert(n.interfaces@.take(i as int) =~= n.interfaces@);
    put_line(o, String::new());
    assert(o@ =~= o0 + net_text(*n));
}

fn process_line(p: &ProcessRow) -> (r: String)
    ensures
        r@ == process_row(*p),
{
    let mut o = String::new();
    put(&mut o, "      ");
    put_lpad(&mut o, p.pid.as_str(), 7);
    put(&mut o, " ");
    let u = truncate(p.user.as_str(), 12);
    put_rpad(&mut o, u.as_str(), 12);
    put(&mut o, " ");
    put_lpad(&mut o, p.cpu.as_str(), 7);
    put(&mut o, " ");
    put_lpad(&mut o, p.rss.as_str(), 11);
    put(&mut o, "  ");
    put_truncated(&mut o, p.command.as_str(), 44);
    assert(o@ =~= process_row(*p));
    o
}

fn proc_section(o: &mut String, p: &ProcPart)
    ensures
        final(o)@ == old(o)@ + proc_text(*p),
{
    let ghost o0 = o@;
    let mut head = cat(" PROC  ", p.total.as_str());
    put(&mut head, " processes / ");
    put(&mut head, p.threads.as_str());
    put(&mut head, " threads");
    assert(head@ =~= " PROC  "@ + p.total@ + " processes / "@ + p.threads@ + " threads"@);
    put_line(o, head);
    put_line(o, owned("          PID USER            CPU%         RSS  COMMAND"));
    let ghost base = o@;
    let ghost shown = if p.top@.len() > 12 { p.top@.take(12) } else { p.top@ };
    let n = if p.top.len() > TOP_PROCESSES { TOP_PROCESSES } else { p.top.len() };
    assert(shown.len() == n);
    let mut i: usize = 0;
    while i < n
        invariant
            n == shown.len(),
            n <= p.top@.len(),
            shown =~= p.top@.take(n as int),
            i <= n,
            o@ == base + each(shown.take(i as int), process_f()),
        decreases n - i,
    {
        put_line(o, process_line(&p.top[i]));
        proof {
            assert(shown[i as int] == p.top@[i as int]);
            lemma_each_step(shown, i as int, process_f());
        }
        i = i + 1;
        assert(o@ =~= base + each(shown.take(i as int), process_f()));
    }
    assert(shown.take(i as int) =~= shown);
    put_line(o, String::new());
    assert(o@ =~= o0 + proc_text(*p));
}

/// The plain-text snapshot: a title between two rules of 78 `=`, then the
/// CPU, MEM (and SWAP when there is swap), GPU, DISK, NET and PROC sections,
/// each ended by a blank line; every line ends with `\n`.
pub fn text(v: &SnapshotLines) -> (r: String)
    ensures
        r@ == spec_snapshot(*v),
        r@.len() > 0 && r@.last() == '\n',
{
    let mut o = String::new();
    header(&mut o, v);
    let ghost a = o@;
    cpu_section(&mut o, &v.cpu);
    mem_section(&mut o, &v.mem);
    let ghost b = o@;
    assert(b =~= a + cpu_text(v.cpu) + mem_text(v.mem));
    gpu_section(&mut o, &v.gpu);
    disk_section(&mut o, &v.disk);
    let ghost c = o@;
    assert(c =~= b + gpu_text(v.gpu) + disk_text(v.disk));
    net_section(&mut o, &v.net);
    proc_section(&mut o, &v.procs);
    assert(o@ =~= c + net_text(v.net) + proc_text(v.procs));
    assert(o@ =~= spec_snapshot(*v));
    assert(o@.last() == '\n');
    o
}

} // verus!
