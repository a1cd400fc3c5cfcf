//! Properties of the poll cycle, stated over the relation `polled` that every
//! poll establishes between the table before it and the table after it.
use vstd::prelude::*;

use crate::monitor::{
    entry_after, first_sighting, has_pid, polled, sample_is_tracked, ProcessInfo, ProcessSample,
};

verus! {

/// Across one poll, an identifier that stays in the table keeps its name,
/// path and first-seen time, and neither of its peaks falls.
pub proof fn lemma_poll_keeps_entry(
    old: Map<u32, ProcessInfo>,
    snap: Seq<ProcessSample>,
    now: i64,
    new: Map<u32, ProcessInfo>,
    p: u32,
)
    requires
        polled(old, snap, now, new),
        old.contains_key(p),
        new.contains_key(p),
    ensures
        new[p].name == old[p].name,
        new[p].path == old[p].path,
        new[p].start_time == old[p].start_time,
        new[p].max_cpu_usage >= old[p].max_cpu_usage,
        new[p].max_memory_usage >= old[p].max_memory_usage,
{
    assert(has_pid(snap, p));
    let i = choose|i: int| 0 <= i < snap.len() && (#[trigger] snap[i]).pid == p;
    assert(entry_after(old, snap[i], now, new));
}

/// For any sequence of polls, the peak CPU and peak memory of an identifier
/// never fall while the identifier stays in the table.
pub proof fn lemma_peaks_never_fall(
    tables: Seq<Map<u32, ProcessInfo>>,
    snaps: Seq<Seq<ProcessSample>>,
    nows: Seq<i64>,
    p: u32,
    a: int,
    b: int,
)
    requires
        tables.len() == snaps.len() + 1,
        nows.len() == snaps.len(),
        forall|i: int|
            0 <= i < snaps.len() ==> polled(tables[i], #[trigger] snaps[i], nows[i], tables[i + 1]),
        0 <= a <= b < tables.len(),
        forall|j: int| a <= j <= b ==> (#[trigger] tables[j]).contains_key(p),
    ensures
        tables[b][p].max_cpu_usage >= tables[a][p].max_cpu_usage,
        tables[b][p].max_memory_usage >= tables[a][p].max_memory_usage,
    decreases b - a,
{
    if a < b {
        lemma_peaks_never_fall(tables, snaps, nows, p, a, b - 1);
        assert(tables[b - 1].contains_key(p));
        assert(tables[b].contains_key(p));
        assert(polled(tables[b - 1], snaps[b - 1], nows[b - 1], tables[b]));
        lemma_poll_keeps_entry(tables[b - 1], snaps[b - 1], nows[b - 1], tables[b], p);
    }
}

/// An identifier absent from a poll's snapshot is absent from the table
/// right after that poll.
pub proof fn lemma_absent_is_removed(
    old: Map<u32, ProcessInfo>,
    snap: Seq<ProcessSample>,
    now: i64,
    new: Map<u32, ProcessInfo>,
    p: u32,
)
    requires
        polled(old, snap, now, new),
        !has_pid(snap, p),
    ensures
        !new.contains_key(p),
{
}

/// After a poll, the peaks of a tracked sample's identifier are at least the
/// sampled values.
pub proof fn lemma_peak_covers_sample(
    old: Map<u32, ProcessInfo>,
    snap: Seq<ProcessSample>,
    now: i64,
    new: Map<u32, ProcessInfo>,
    k: int,
)
    requires
        polled(old, snap, now, new),
        0 <= k < snap.len(),
        sample_is_tracked(snap[k]),
    ensures
        new.contains_key(snap[k].pid),
        new[snap[k].pid].max_cpu_usage >= snap[k].cpu_usage,
        new[snap[k].pid].max_memory_usage >= snap[k].memory_usage,
{
    assert(entry_after(old, snap[k], now, new));
}

/// Polling twice with the same snapshot leaves the table of the first poll
/// as it was: the same identifiers, with the same peaks.
pub proof fn lemma_repeat_poll_is_idempotent(
    t0: Map<u32, ProcessInfo>,
    snap: Seq<ProcessSample>,
    now1: i64,
    t1: Map<u32, ProcessInfo>,
    now2: i64,
    t2: Map<u32, ProcessInfo>,
)
    requires
        polled(t0, snap, now1, t1),
        polled(t1, snap, now2, t2),
    ensures
        t2 == t1,
        t2.len() == t1.len(),
{
    assert forall|p: u32| t2.contains_key(p) <==> t1.contains_key(p) by {
        if t2.contains_key(p) || t1.contains_key(p) {
            assert(has_pid(snap, p));
            let i = choose|i: int| 0 <= i < snap.len() && (#[trigger] snap[i]).pid == p;
            assert(entry_after(t0, snap[i], now1, t1));
            assert(entry_after(t1, snap[i], now2, t2));
        }
    }
    assert forall|p: u32| #[trigger] t2.contains_key(p) implies t2[p] == t1[p] by {
        assert(has_pid(snap, p));
        let i = choose|i: int| 0 <= i < snap.len() && (#[trigger] snap[i]).pid == p;
        assert(entry_after(t0, snap[i], now1, t1));
        assert(entry_after(t1, snap[i], now2, t2));
    }
    assert(t2 =~= t1);
}

/// An identifier that is inserted, then dropped by a poll whose snapshot
/// lacks it, then seen again with a tracked name, comes back as a fresh
/// entry: first seen at the last poll, with the last sample as its peaks.
pub proof fn lemma_reinsertion_is_fresh(
    t0: Map<u32, ProcessInfo>,
    s1: Seq<ProcessSample>,
    n1: i64,
    t1: Map<u32, ProcessInfo>,
    s2: Seq<ProcessSample>,
    n2: i64,
    t2: Map<u32, ProcessInfo>,
    s3: Seq<ProcessSample>,
    n3: i64,
    t3: Map<u32, ProcessInfo>,
    k: int,
)
    requires
        polled(t0, s1, n1, t1),
        polled(t1, s2, n2, t2),
        polled(t2, s3, n3, t3),
        0 <= k < s3.len(),
        sample_is_tracked(s3[k]),
        t1.contains_key(s3[k].pid),
        !has_pid(s2, s3[k].pid),
    ensures
        t3.contains_key(s3[k].pid),
        t3[s3[k].pid] == first_sighting(s3[k], n3),
        t3[s3[k].pid].max_cpu_usage == s3[k].cpu_usage,
        t3[s3[k].pid].max_memory_usage == s3[k].memory_usage,
        t3[s3[k].pid].start_time == n3,
{
    assert(!t2.contains_key(s3[k].pid));
    assert(entry_after(t2, s3[k], n3, t3));
}

} // verus!
