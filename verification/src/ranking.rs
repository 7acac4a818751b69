//! Ranking users by how much they use, for the storage chart's legend: the
//! legend names the biggest users, not the first ones alphabetically.

use vstd::prelude::*;
use vstd::string::StringExecFns;
use crate::format::{dec, decimal};

verus! {

/// Whether entry `a` ranks before entry `b`: more bytes first; of equal
/// usage the one listed earlier first (the order is stable).
pub open spec fn ranks_before(bytes: Seq<u64>, a: int, b: int) -> bool {
    bytes[a] > bytes[b] || (bytes[a] == bytes[b] && a < b)
}

/// `r` lists each of the `n` entries exactly once, each ranked before the
/// next.
pub open spec fn ranked(bytes: Seq<u64>, r: Seq<usize>, n: int) -> bool {
    &&& r.len() == n
    &&& forall|i: int| 0 <= i < r.len() ==> #[trigger] r[i] < n
    &&& forall|i: int, j: int| 0 <= i < j < r.len() ==> r[i] != r[j]
    &&& forall|i: int, j: int| 0 <= i < j < r.len() ==> ranks_before(bytes, r[i] as int, r[j] as int)
}

/// Where entry `k` goes among the ranked entries `r`: after every entry
/// using at least as much.
pub open spec fn place_of(bytes: Seq<u64>, r: Seq<usize>, k: int) -> int
    decreases r.len(),
{
    if r.len() == 0 || bytes[r[0] as int] < bytes[k] { 0 } else { 1 + place_of(bytes, r.drop_first(), k) }
}

/// The first `n` entries in order of usage: each entry in turn placed after
/// those using at least as much.
pub open spec fn usage_order(bytes: Seq<u64>, n: nat) -> Seq<usize>
    decreases n,
{
    if n == 0 {
        Seq::empty()
    } else {
        let r = usage_order(bytes, (n - 1) as nat);
        r.insert(place_of(bytes, r, n - 1), (n - 1) as usize)
    }
}

/// The entries in order of usage, biggest first; entries of equal usage keep
/// their order. Returns the entries' indices.
pub fn by_usage(bytes: &[u64]) -> (r: Vec<usize>)
    ensures
        ranked(bytes@, r@, bytes@.len() as int),
        r@ == usage_order(bytes@, bytes@.len()),
{
    let n = bytes.len();
    let mut r: Vec<usize> = Vec::new();
    let mut k: usize = 0;
    while k < n
        invariant
            n == bytes@.len(),
            k <= n,
            ranked(bytes@, r@, k as int),
            r@ == usage_order(bytes@, k as nat),
        decreases n - k,
    {
        // the first place whose entry ranks after entry k
        let mut p: usize = 0;
        proof {
            assert(r@.skip(0) =~= r@);
        }
        while p < r.len() && bytes[r[p]] >= bytes[k]
            invariant
                n == bytes@.len(),
                k < n,
                ranked(bytes@, r@, k as int),
                p <= r@.len(),
                place_of(bytes@, r@, k as int) == p + place_of(bytes@, r@.skip(p as int), k as int),
                forall|q: int| 0 <= q < p ==> ranks_before(bytes@, #[trigger] r@[q] as int, k as int),
            decreases r@.len() - p,
        {
            assert(r@[p as int] < k);
            proof {
                assert(r@.skip(p as int).drop_first() =~= r@.skip(p as int + 1));
                assert(r@.skip(p as int)[0] == r@[p as int]);
            }
            p = p + 1;
        }
        proof {
            if p < r@.len() {
                assert(r@.skip(p as int)[0] == r@[p as int]);
            }
            assert(place_of(bytes@, r@, k as int) == p);
        }
        let ghost old_r = r@;
        proof {
            if p < old_r.len() {
                assert forall|q: int| p <= q < old_r.len() implies ranks_before(bytes@, k as int, #[trigger] old_r[q] as int) by {
                    if q > p {
                        assert(ranks_before(bytes@, old_r[p as int] as int, old_r[q] as int));
                    }
                }
            }
        }
        r.insert(p, k);
        proof {
            let nr = r@;
            assert(nr == old_r.insert(p as int, k));
            assert forall|i: int| 0 <= i < nr.len() implies #[trigger] nr[i] < k + 1 by {
                if i < p {
                    assert(nr[i] == old_r[i]);
                } else if i > p {
                    assert(nr[i] == old_r[i - 1]);
                }
            }
            assert forall|i: int, j: int| 0 <= i < j < nr.len() implies nr[i] != nr[j]
                && ranks_before(bytes@, nr[i] as int, nr[j] as int) by {
                if j < p {
                    assert(nr[i] == old_r[i] && nr[j] == old_r[j]);
                } else if j == p {
                    assert(nr[i] == old_r[i]);
                    assert(ranks_before(bytes@, old_r[i] as int, k as int));
                } else if i < p {
                    assert(nr[i] == old_r[i] && nr[j] == old_r[j - 1]);
                    assert(old_r[j - 1] < k);
                } else if i == p {
                    assert(nr[j] == old_r[j - 1]);
                    assert(old_r[j - 1] < k);
                } else {
                    assert(nr[i] == old_r[i - 1] && nr[j] == old_r[j - 1]);
                }
            }
        }
        k = k + 1;
    }
    r
}

/// How many users get a part of their own in the storage chart.
pub const TOP_USERS: usize = 5;

/// The bytes of the entries listed in `idx`, added up.
pub open spec fn bytes_of(bytes: Seq<u64>, idx: Seq<usize>) -> int
    decreases idx.len(),
{
    if idx.len() == 0 { 0 } else { bytes_of(bytes, idx.drop_last()) + bytes[idx.last() as int] }
}

/// The storage chart's grouping: the users in order of usage (the first
/// five get a part each) and what all the others use together.
pub fn usage_groups(bytes: &[u64]) -> (r: (Vec<usize>, u128))
    ensures
        ranked(bytes@, r.0@, bytes@.len() as int),
        r.0@ == usage_order(bytes@, bytes@.len()),
        r.1 == bytes_of(bytes@, r.0@.skip(if bytes@.len() > 5 { 5int } else { bytes@.len() as int })),
{
    let order = by_usage(bytes);
    let n = order.len();
    assert(n <= u64::MAX);
    let start = if n > TOP_USERS { TOP_USERS } else { n };
    let mut rest: u128 = 0;
    let mut i: usize = start;
    while i < n
        invariant
            n == order@.len(),
            n == bytes@.len(),
            n <= u64::MAX,
            start <= i <= n,
            ranked(bytes@, order@, n as int),
            rest == bytes_of(bytes@, order@.subrange(start as int, i as int)),
            rest <= (i - start) * (u64::MAX as int),
        decreases n - i,
    {
        proof {
            assert(order@.subrange(start as int, i as int + 1).drop_last() =~= order@.subrange(start as int, i as int));
            assert((i - start + 1) * (u64::MAX as int) == (i - start) * (u64::MAX as int) + u64::MAX) by (nonlinear_arith);
            assert((i - start + 1) * (u64::MAX as int) <= (u64::MAX as int) * (u64::MAX as int)) by (nonlinear_arith)
                requires i - start + 1 <= u64::MAX;
        }
        rest = rest + bytes[order[i]] as u128;
        i = i + 1;
    }
    assert(order@.subrange(start as int, n as int) =~= order@.skip(start as int));
    (order, rest)
}

/// The part that stands for everyone below the five biggest: `其他 N 人`,
/// when there is anyone below them.
pub open spec fn spec_others_label(n_users: nat) -> Option<Seq<char>> {
    if n_users > 5 { Some("其他 "@ + dec((n_users - 5) as nat) + " 人"@) } else { None }
}

pub fn others_label(n_users: usize) -> (r: Option<String>)
    ensures
        match r {
            Some(t) => spec_others_label(n_users as nat) == Some(t@),
            None => spec_others_label(n_users as nat) is None,
        },
{
    if n_users > TOP_USERS {
        let mut s = String::from_str("其他 ");
        s.append(decimal(n_users - TOP_USERS).as_str());
        s.append(" 人");
        Some(s)
    } else {
        None
    }
}

/// How many legend entries of these display widths fit in `room` columns,
/// taken from the left, each followed by two columns of space; the first
/// that does not fit ends the legend.
pub open spec fn legend_from(widths: Seq<usize>, k: int, used: int, room: int) -> int
    decreases widths.len() - k,
{
    if k < 0 || k >= widths.len() || used + widths[k] + 2 > room {
        if k < 0 { 0 } else { k }
    } else {
        legend_from(widths, k + 1, used + widths[k] + 2, room)
    }
}

/// How many legend entries fit.
pub fn legend_fit(widths: &Vec<usize>, room: u16) -> (r: usize)
    ensures
        r == legend_from(widths@, 0, 0, room as int),
        r <= widths@.len(),
{
    let mut k: usize = 0;
    let mut used: u64 = 0;
    while k < widths.len() && (widths[k] as u64) <= room as u64 && used + widths[k] as u64 + 2 <= room as u64
        invariant
            k <= widths@.len(),
            used <= room,
            legend_from(widths@, 0, 0, room as int) == legend_from(widths@, k as int, used as int, room as int),
        decreases widths@.len() - k,
    {
        used = used + widths[k] as u64 + 2;
        k = k + 1;
    }
    k
}

} // verus!
