use sysview::snapshot::{
    text, CpuPart, Diagnostic, DiskPart, GpuDevice, GpuPart, GpuProcess, Interface, MemPart, Meter, MountRow,
    NetPart, ProcPart, ProcessRow, SnapshotLines, SwapPart,
};

fn s(x: &str) -> String {
    x.to_string()
}

fn meter(filled: usize, reading: &str) -> Meter {
    Meter { filled, reading: s(reading) }
}

fn sample(cores: usize, processes: usize) -> SnapshotLines {
    SnapshotLines {
        version: s("0.9.0"),
        host: s("devbox"),
        uptime: s("3d 4h"),
        cpu: CpuPart {
            meter: meter(7, "25.0%"),
            model: s("AMD Ryzen 9 7950X"),
            threads: s("32"),
            frequency: s("4.2 GHz"),
            temperature: s("55 °C"),
            load1: s("1.00"),
            load5: s("0.50"),
            load15: s("0.25"),
            iowait: s("0.1%"),
            cores: (0..cores).map(|i| format!("{}", i * 3)).collect(),
        },
        mem: MemPart {
            meter: meter(14, "50.0%"),
            used: s("8.0 GiB"),
            total: s("16.0 GiB"),
            swap: None,
            cache: s("2.0 GiB"),
            buffers: s("100 MiB"),
            available: s("8.0 GiB"),
        },
        gpu: GpuPart { error: None, diagnostics: vec![], devices: vec![] },
        disk: DiskPart {
            read: s("1.0 MB/s"),
            write: s("2.0 MB/s"),
            mounts: vec![MountRow { point: s("/"), meter: meter(10, "50"), free: s("50 GiB"), total: s("100 GiB") }],
        },
        net: NetPart {
            down: s("1 KB/s"),
            up: s("2 KB/s"),
            interfaces: vec![
                Interface {
                    name: s("eth0"),
                    virtual_iface: false,
                    up: true,
                    rx: s("1 KB/s"),
                    tx: s("2 KB/s"),
                    addrs: vec![s("10.0.0.2"), s("fe80::1")],
                },
                Interface {
                    name: s("docker0"),
                    virtual_iface: true,
                    up: true,
                    rx: s("0 B/s"),
                    tx: s("0 B/s"),
                    addrs: vec![],
                },
                Interface {
                    name: s("wlan0"),
                    virtual_iface: false,
                    up: false,
                    rx: s("0 B/s"),
                    tx: s("0 B/s"),
                    addrs: vec![],
                },
            ],
        },
        procs: ProcPart {
            total: s("312"),
            threads: s("1204"),
            top: (0..processes)
                .map(|i| ProcessRow {
                    pid: format!("{}", 100 + i),
                    user: s("alice"),
                    cpu: s("12.5"),
                    rss: s("1.0 MiB"),
                    command: format!("worker-{i}"),
                })
                .collect(),
        },
    }
}

#[test]
fn text_snapshot_has_all_sections() {
    let out = text(&sample(12, 20));
    for section in [" CPU", " MEM", " DISK", " NET", " PROC"] {
        assert!(out.contains(section), "快照缺少 {section} 區塊");
    }
    assert!(out.contains("sysview"));
}

#[test]
fn snapshot_opens_with_rules_and_every_line_ends_with_a_newline() {
    let out = text(&sample(4, 3));
    let lines: Vec<&str> = out.split('\n').collect();
    assert_eq!(lines[0], "=".repeat(78));
    assert_eq!(lines[1], " sysview 0.9.0   devbox   up 3d 4h");
    assert_eq!(lines[2], "=".repeat(78));
    assert_eq!(lines[3], "");
    assert!(out.ends_with('\n'));
    assert_eq!(*lines.last().unwrap(), "");
}

#[test]
fn snapshot_bars_are_ascii_and_cores_come_eight_to_a_row() {
    let out = text(&sample(10, 1));
    assert!(out.contains(" CPU  [#######.....................]   25.0%   AMD Ryzen 9 7950X\n"));
    assert!(out.contains("\n       0:   0%   1:   3%   2:   6%   3:   9%   4:  12%   5:  15%   6:  18%   7:  21%  \n"));
    assert!(out.contains("\n       8:  24%   9:  27%  \n"));
}

#[test]
fn snapshot_lists_at_most_twelve_processes() {
    let out = text(&sample(2, 20));
    assert!(out.contains("worker-11"));
    assert!(!out.contains("worker-12"));
    assert!(out.contains("\n          PID USER            CPU%         RSS  COMMAND\n"));
    assert!(out.contains("\n          100 alice           12.5     1.0 MiB  worker-0\n"));
}

#[test]
fn snapshot_shows_only_physical_interfaces_that_are_up() {
    let out = text(&sample(2, 1));
    assert!(out.contains("\n      eth0         down       1 KB/s  up       2 KB/s   10.0.0.2, fe80::1\n"));
    assert!(!out.contains("docker0"));
    assert!(!out.contains("wlan0"));
}

#[test]
fn snapshot_gpu_section_says_none_or_what_is_known() {
    let out = text(&sample(2, 1));
    assert!(out.contains("\n GPU  none detected\n"));
    let mut v = sample(2, 1);
    v.gpu = GpuPart {
        error: Some(s("driver not loaded")),
        diagnostics: vec![Diagnostic { symbol: s("!"), text: s("nvidia-smi missing") }],
        devices: vec![GpuDevice {
            meter: meter(28, "100%"),
            name: s("Radeon"),
            backend: s("amdgpu"),
            vram: Some((s("1 GiB"), s("8 GiB"))),
            temperature: None,
            power: Some(s("120 W")),
            clock: None,
            estimated: true,
            processes: vec![GpuProcess { pid: s("42"), memory: None, name: None }],
        }],
    };
    let out = text(&v);
    assert!(out.contains("\n GPU  [NVIDIA unavailable] driver not loaded\n      ! nvidia-smi missing\n"));
    assert!(out.contains("\n      amdgpu · VRAM 1 GiB / 8 GiB · power 120 W · utilization is estimated\n"));
    assert!(out.contains("\n      pid 42              n/a  ?\n"));
    assert!(!out.contains("none detected"));
}

#[test]
fn snapshot_shows_swap_only_when_there_is_some() {
    let out = text(&sample(2, 1));
    assert!(!out.contains("SWAP"));
    let mut v = sample(2, 1);
    v.mem.swap = Some(SwapPart { meter: meter(0, "0.0%"), used: s("0 B"), total: s("2.0 GiB") });
    let out = text(&v);
    assert!(out.contains("\n SWAP [............................]    0.0%   0 B / 2.0 GiB\n"));
}

#[test]
fn snapshot_mount_rows_are_columned() {
    let out = text(&sample(2, 1));
    assert!(out.contains("\n      /                    [##########..........]   50%      50 GiB free /    100 GiB\n"));
}
