//! The header's health badge: the worst condition across the subsystems,
//! boiled down to one severity and the reason for it.
//!
//! Percentages arrive in tenths of a percent (so that 90 % is 900), each
//! with the text to show for it.

use vstd::prelude::*;
use vstd::string::StringExecFns;
use crate::chars::owned;
use crate::theme::Severity;

verus! {

/// How bad a severity is, for picking the worst: a missing reading counts
/// as nothing wrong.
pub open spec fn rank(s: Severity) -> int {
    match s {
        Severity::Normal => 0,
        Severity::Unknown => 0,
        Severity::Notice => 1,
        Severity::Warning => 2,
        Severity::Critical => 3,
    }
}

fn rank_of(s: Severity) -> (r: u8)
    ensures
        r == rank(s),
{
    match s {
        Severity::Normal => 0,
        Severity::Unknown => 0,
        Severity::Notice => 1,
        Severity::Warning => 2,
        Severity::Critical => 3,
    }
}

/// A usage in tenths of a percent and how it is shown.
pub struct Percent {
    pub tenths: u32,
    pub shown: String,
}

/// A mount's severity, where it is mounted and its usage as shown.
pub struct MountHealth {
    pub severity: Severity,
    pub point: String,
    pub shown: String,
}

/// What the badge looks at.
pub struct HealthInputs {
    pub cpu: Option<Percent>,
    pub memory: Option<Percent>,
    pub mounts: Vec<MountHealth>,
    pub nvidia_unavailable: bool,
    /// How many tasks are blocked on I/O, as shown, when any are.
    pub blocked: Option<String>,
}

/// One condition worth the badge: its severity and why.
pub struct Finding {
    pub severity: Severity,
    pub reason: String,
}

pub open spec fn finding_views(f: Seq<Finding>) -> Seq<(Severity, Seq<char>)> {
    Seq::new(f.len(), |i: int| (f[i].severity, f[i].reason@))
}

/// The conditions, in the order they are considered: CPU at 90 % or more
/// is a warning; memory at 90 % is critical and at 80 % a warning; each
/// mount that is a warning or worse; NVIDIA being unavailable is a
/// warning; tasks blocked on I/O are a notice.
pub open spec fn spec_findings(h: HealthInputs) -> Seq<(Severity, Seq<char>)> {
    (match h.cpu {
        Some(p) => if p.tenths >= 900 { seq![(Severity::Warning, "CPU "@ + p.shown@ + "%"@)] } else { Seq::empty() },
        None => Seq::empty(),
    })
        + (match h.memory {
            Some(p) => if p.tenths >= 900 {
                seq![(Severity::Critical, "memory "@ + p.shown@ + "%"@)]
            } else if p.tenths >= 800 {
                seq![(Severity::Warning, "memory "@ + p.shown@ + "%"@)]
            } else {
                Seq::empty()
            },
            None => Seq::empty(),
        })
        + mount_findings(h.mounts@)
        + (if h.nvidia_unavailable { seq![(Severity::Warning, "NVIDIA driver unavailable"@)] } else { Seq::empty() })
        + (match h.blocked {
            Some(b) => seq![(Severity::Notice, b@ + " blocked on I/O"@)],
            None => Seq::empty(),
        })
}

pub open spec fn mount_findings(ms: Seq<MountHealth>) -> Seq<(Severity, Seq<char>)>
    decreases ms.len(),
{
    if ms.len() == 0 {
        Seq::empty()
    } else {
        mount_findings(ms.drop_last())
            + if rank(ms.last().severity) >= 2 {
                seq![(ms.last().severity, ms.last().point@ + " "@ + ms.last().shown@ + "%"@)]
            } else {
                Seq::empty()
            }
    }
}

/// The worst of the findings: the first of the most severe ones, or
/// "system healthy" when nothing is wrong.
pub open spec fn spec_worst(f: Seq<(Severity, Seq<char>)>) -> (Severity, Seq<char>)
    decreases f.len(),
{
    if f.len() == 0 {
        (Severity::Normal, "system healthy"@)
    } else {
        let w = spec_worst(f.drop_last());
        if rank(f.last().0) > rank(w.0) { f.last() } else { w }
    }
}

fn push_finding(out: &mut Vec<Finding>, severity: Severity, reason: String)
    ensures
        finding_views(final(out)@) == finding_views(old(out)@).push((severity, reason@)),
{
    out.push(Finding { severity, reason });
    assert(finding_views(out@) =~= finding_views(old(out)@).push((severity, reason@)));
}

fn reason(a: &str, b: &str, c: &str) -> (r: String)
    ensures
        r@ == a@ + b@ + c@,
{
    let mut s = owned(a);
    s.append(b);
    s.append(c);
    s
}

/// The conditions the badge weighs.
pub fn findings(h: &HealthInputs) -> (r: Vec<Finding>)
    ensures
        finding_views(r@) == spec_findings(*h),
{
    let mut out: Vec<Finding> = Vec::new();
    match &h.cpu {
        Some(p) => if p.tenths >= 900 {
            push_finding(&mut out, Severity::Warning, reason("CPU ", p.shown.as_str(), "%"));
        },
        None => {},
    }
    match &h.memory {
        Some(p) => if p.tenths >= 900 {
            push_finding(&mut out, Severity::Critical, reason("memory ", p.shown.as_str(), "%"));
        } else if p.tenths >= 800 {
            push_finding(&mut out, Severity::Warning, reason("memory ", p.shown.as_str(), "%"));
        },
        None => {},
    }
    let ghost b = finding_views(out@);
    let mut i: usize = 0;
    while i < h.mounts.len()
        invariant
            i <= h.mounts@.len(),
            finding_views(out@) == b + mount_findings(h.mounts@.take(i as int)),
        decreases h.mounts@.len() - i,
    {
        let m = &h.mounts[i];
        if rank_of(m.severity) >= 2 {
            let mut r = owned(m.point.as_str());
            r.append(" ");
            r.append(m.shown.as_str());
            r.append("%");
            push_finding(&mut out, m.severity, r);
        }
        proof {
            let t = h.mounts@.take(i as int + 1);
            assert(t.drop_last() =~= h.mounts@.take(i as int));
            assert(t.last() == *m);
        }
        i = i + 1;
        assert(finding_views(out@) =~= b + mount_findings(h.mounts@.take(i as int)));
    }
    assert(h.mounts@.take(i as int) =~= h.mounts@);
    if h.nvidia_unavailable {
        push_finding(&mut out, Severity::Warning, owned("NVIDIA driver unavailable"));
    }
    match &h.blocked {
        Some(n) => push_finding(&mut out, Severity::Notice, reason("", n.as_str(), " blocked on I/O")),
        None => {},
    }
    proof {
        reveal_strlit("");
    }
    assert(finding_views(out@) =~= spec_findings(*h));
    out
}

/// The badge: the worst condition and why, "system healthy" when none.
pub fn overall_health(h: &HealthInputs) -> (r: (Severity, String))
    ensures
        (r.0, r.1@) == spec_worst(spec_findings(*h)),
{
    let f = findings(h);
    let mut worst = Severity::Normal;
    let mut why = owned("system healthy");
    let mut i: usize = 0;
    while i < f.len()
        invariant
            i <= f@.len(),
            (worst, why@) == spec_worst(finding_views(f@).take(i as int)),
        decreases f@.len() - i,
    {
        proof {
            let t = finding_views(f@).take(i as int + 1);
            assert(t.drop_last() =~= finding_views(f@).take(i as int));
            assert(t.last() == (f@[i as int].severity, f@[i as int].reason@));
        }
        if rank_of(f[i].severity) > rank_of(worst) {
            worst = f[i].severity;
            why = owned(f[i].reason.as_str());
        }
        i = i + 1;
    }
    assert(finding_views(f@).take(i as int) =~= finding_views(f@));
    (worst, why)
}

/// A mount raises the badge only at Warning or worse: on a system with the
/// CPU and memory below their thresholds, NVIDIA available, nothing blocked,
/// and every mount at most a Notice, the badge says the system is healthy.
pub proof fn lemma_quiet_system_is_healthy(h: HealthInputs)
    requires
        h.cpu matches Some(p) ==> p.tenths < 900,
        h.memory matches Some(p) ==> p.tenths < 800,
        !h.nvidia_unavailable,
        h.blocked is None,
        forall|i: int| 0 <= i < h.mounts@.len() ==> ({
            let s = #[trigger] h.mounts@[i].severity;
            s == Severity::Normal || s == Severity::Notice || s == Severity::Unknown
        }),
    ensures
        spec_worst(spec_findings(h)) == (Severity::Normal, "system healthy"@),
{
    lemma_quiet_mounts(h.mounts@);
    assert(spec_findings(h) =~= Seq::<(Severity, Seq<char>)>::empty());
}

proof fn lemma_quiet_mounts(ms: Seq<MountHealth>)
    requires
        forall|i: int| 0 <= i < ms.len() ==> ({
            let s = #[trigger] ms[i].severity;
            s == Severity::Normal || s == Severity::Notice || s == Severity::Unknown
        }),
    ensures
        mount_findings(ms) =~= Seq::<(Severity, Seq<char>)>::empty(),
    decreases ms.len(),
{
    if ms.len() > 0 {
        assert(ms.last() == ms[ms.len() - 1]);
        lemma_quiet_mounts(ms.drop_last());
    }
}

/// A mount at Warning or worse is never passed over: the badge is then at
/// least a Warning.
pub proof fn lemma_a_full_mount_raises_the_badge(h: HealthInputs, i: int)
    requires
        0 <= i < h.mounts@.len(),
        h.mounts@[i].severity == Severity::Warning || h.mounts@[i].severity == Severity::Critical,
    ensures
        spec_worst(spec_findings(h)).0 == Severity::Warning || spec_worst(spec_findings(h)).0 == Severity::Critical,
{
    lemma_mount_found(h.mounts@, i);
    let f = spec_findings(h);
    let pre = (match h.cpu {
        Some(p) => if p.tenths >= 900 { seq![(Severity::Warning, "CPU "@ + p.shown@ + "%"@)] } else { Seq::empty() },
        None => Seq::empty(),
    }) + (match h.memory {
        Some(p) => if p.tenths >= 900 {
            seq![(Severity::Critical, "memory "@ + p.shown@ + "%"@)]
        } else if p.tenths >= 800 {
            seq![(Severity::Warning, "memory "@ + p.shown@ + "%"@)]
        } else {
            Seq::empty()
        },
        None => Seq::empty(),
    });
    let k = choose|k: int| 0 <= k < mount_findings(h.mounts@).len() && rank(#[trigger] mount_findings(h.mounts@)[k].0) >= 2;
    assert(f[pre.len() + k] == mount_findings(h.mounts@)[k]);
    lemma_worst_at_least(f, pre.len() + k);
}

proof fn lemma_mount_found(ms: Seq<MountHealth>, i: int)
    requires
        0 <= i < ms.len(),
        rank(ms[i].severity) >= 2,
    ensures
        exists|k: int| 0 <= k < mount_findings(ms).len() && rank(#[trigger] mount_findings(ms)[k].0) >= 2,
    decreases ms.len(),
{
    let d = ms.drop_last();
    if i < ms.len() - 1 {
        assert(d[i] == ms[i]);
        lemma_mount_found(d, i);
        let k = choose|k: int| 0 <= k < mount_findings(d).len() && rank(#[trigger] mount_findings(d)[k].0) >= 2;
        assert(mount_findings(ms)[k] == mount_findings(d)[k]);
    } else {
        assert(ms.last() == ms[i]);
        let k = mount_findings(d).len() as int;
        assert(mount_findings(ms)[k].0 == ms[i].severity);
    }
}

proof fn lemma_worst_at_least(f: Seq<(Severity, Seq<char>)>, k: int)
    requires
        0 <= k < f.len(),
    ensures
        rank(spec_worst(f).0) >= rank(f[k].0),
    decreases f.len(),
{
    if k < f.len() - 1 {
        assert(f.drop_last()[k] == f[k]);
        lemma_worst_at_least(f.drop_last(), k);
    }
}

/// The badge is at least as bad as every condition found.
pub proof fn lemma_badge_is_the_worst(h: HealthInputs, k: int)
    requires
        0 <= k < spec_findings(h).len(),
    ensures
        rank(spec_worst(spec_findings(h)).0) >= rank(spec_findings(h)[k].0),
{
    lemma_worst_at_least(spec_findings(h), k);
}

/// Memory at 90 % or more makes the badge critical; CPU at 90 % or more,
/// memory at 80 % or more, or NVIDIA being unavailable make it at least a
/// warning.
pub proof fn lemma_thresholds_raise_the_badge(h: HealthInputs)
    ensures
        (h.memory matches Some(p) && p.tenths >= 900) ==> spec_worst(spec_findings(h)).0 == Severity::Critical,
        ((h.cpu matches Some(p) && p.tenths >= 900) || (h.memory matches Some(p) && p.tenths >= 800) || h.nvidia_unavailable)
            ==> rank(spec_worst(spec_findings(h)).0) >= 2,
{
    let f = spec_findings(h);
    let c = match h.cpu {
        Some(p) => if p.tenths >= 900 { seq![(Severity::Warning, "CPU "@ + p.shown@ + "%"@)] } else { Seq::empty() },
        None => Seq::empty(),
    };
    let m = match h.memory {
        Some(p) => if p.tenths >= 900 {
            seq![(Severity::Critical, "memory "@ + p.shown@ + "%"@)]
        } else if p.tenths >= 800 {
            seq![(Severity::Warning, "memory "@ + p.shown@ + "%"@)]
        } else {
            Seq::empty()
        },
        None => Seq::empty(),
    };
    let mf = mount_findings(h.mounts@);
    if c.len() > 0 {
        assert(f[0] == c[0]);
        lemma_worst_at_least(f, 0);
    }
    if m.len() > 0 {
        assert(f[c.len() as int] == m[0]);
        lemma_worst_at_least(f, c.len() as int);
        lemma_worst_rank_bound(f);
    }
    if h.nvidia_unavailable {
        assert(f[(c.len() + m.len() + mf.len()) as int].0 == Severity::Warning);
        lemma_worst_at_least(f, (c.len() + m.len() + mf.len()) as int);
    }
}

proof fn lemma_worst_rank_bound(f: Seq<(Severity, Seq<char>)>)
    ensures
        rank(spec_worst(f).0) <= 3,
        rank(spec_worst(f).0) == 3 ==> spec_worst(f).0 == Severity::Critical,
    decreases f.len(),
{
    if f.len() > 0 {
        lemma_worst_rank_bound(f.drop_last());
    }
}

} // verus!
