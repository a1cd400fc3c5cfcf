//! The tracked-process table and the poll cycle that maintains it.
//!
//! CPU usage is held as an integer in hundredths of a percent (500 is 5%),
//! memory usage in bytes, and times in seconds since the Unix epoch.
use std::collections::HashMap;
use std::collections::HashSet;
use vstd::prelude::*;
use vstd::string::*;

use crate::classifier::{ide_name_list, ide_names, is_ide_process_name, name_matches, names_view};

verus! {

broadcast use vstd::std_specs::hash::group_hash_axioms;

/// One entry of a process-table snapshot.
#[derive(Debug, Clone)]
pub struct ProcessSample {
    pub pid: u32,
    pub name: String,
    /// Executable path; empty when it could not be resolved.
    pub path: String,
    /// Instantaneous CPU usage in hundredths of a percent.
    pub cpu_usage: u64,
    /// Instantaneous memory usage in bytes.
    pub memory_usage: u64,
}

/// What the table keeps about a tracked process.
#[derive(Debug, Clone)]
pub struct ProcessInfo {
    pub name: String,
    pub path: String,
    /// When the process was first seen, in seconds since the Unix epoch.
    pub start_time: i64,
    /// Highest CPU usage sampled since the process was first seen.
    pub max_cpu_usage: u64,
    /// Highest memory usage sampled since the process was first seen.
    pub max_memory_usage: u64,
}

/// One observation of a tracked process, returned by a poll.
#[derive(Debug, Clone)]
pub struct IDEProcess {
    pub pid: u32,
    pub name: String,
    pub path: String,
    pub status: String,
    pub cpu_usage: u64,
    pub memory_usage: u64,
    /// When the observation was made, in seconds since the Unix epoch.
    pub start_time: i64,
}

/// The larger of two values.
pub open spec fn max_u64(a: u64, b: u64) -> u64 {
    if a >= b { a } else { b }
}

/// The sample's process name is that of a development tool.
pub open spec fn sample_is_tracked(e: ProcessSample) -> bool {
    is_ide_process_name(e.name@)
}

/// The entry inserted when a process is first seen.
pub open spec fn first_sighting(e: ProcessSample, now: i64) -> ProcessInfo {
    ProcessInfo {
        name: e.name,
        path: e.path,
        start_time: now,
        max_cpu_usage: e.cpu_usage,
        max_memory_usage: e.memory_usage,
    }
}

/// A known entry after a further sample of its process.
pub open spec fn raise_peaks(info: ProcessInfo, e: ProcessSample) -> ProcessInfo {
    ProcessInfo {
        name: info.name,
        path: info.path,
        start_time: info.start_time,
        max_cpu_usage: max_u64(info.max_cpu_usage, e.cpu_usage),
        max_memory_usage: max_u64(info.max_memory_usage, e.memory_usage),
    }
}

/// Some entry of `snap` has identifier `p`.
pub open spec fn has_pid(snap: Seq<ProcessSample>, p: u32) -> bool {
    exists|i: int| 0 <= i < snap.len() && (#[trigger] snap[i]).pid == p
}

/// No identifier occurs twice in `snap`.
pub open spec fn distinct_pids(snap: Seq<ProcessSample>) -> bool {
    forall|i: int, j: int|
        0 <= i < snap.len() && 0 <= j < snap.len() && i != j ==> (#[trigger] snap[i]).pid != (
        #[trigger] snap[j]).pid
}

/// What the table `new` holds for the identifier of sample `e`, given the
/// table `old` before the poll and whether `e` is a development tool.
pub open spec fn entry_after_marked(
    old: Map<u32, ProcessInfo>,
    e: ProcessSample,
    is_ide: bool,
    now: i64,
    new: Map<u32, ProcessInfo>,
) -> bool {
    if is_ide {
        &&& new.contains_key(e.pid)
        &&& new[e.pid] == if old.contains_key(e.pid) {
            raise_peaks(old[e.pid], e)
        } else {
            first_sighting(e, now)
        }
    } else {
        &&& new.contains_key(e.pid) == old.contains_key(e.pid)
        &&& old.contains_key(e.pid) ==> new[e.pid] == old[e.pid]
    }
}

/// `entry_after_marked`, with the sample classified by its name.
pub open spec fn entry_after(
    old: Map<u32, ProcessInfo>,
    e: ProcessSample,
    now: i64,
    new: Map<u32, ProcessInfo>,
) -> bool {
    entry_after_marked(old, e, sample_is_tracked(e), now, new)
}

/// `new` is the table after a poll of `snap` at time `now` on the table `old`,
/// where `marks[i]` tells whether `snap[i]` is a development tool: every
/// identifier absent from the snapshot is gone, a marked sample raises the
/// peaks of a known entry or inserts a fresh one, and an unmarked sample
/// leaves the entry for its identifier as it was.
pub open spec fn polled_marked(
    old: Map<u32, ProcessInfo>,
    snap: Seq<ProcessSample>,
    marks: Seq<bool>,
    now: i64,
    new: Map<u32, ProcessInfo>,
) -> bool {
    &&& marks.len() == snap.len()
    &&& forall|p: u32| #[trigger] new.contains_key(p) ==> has_pid(snap, p)
    &&& forall|i: int|
        0 <= i < snap.len() ==> entry_after_marked(old, #[trigger] snap[i], marks[i], now, new)
}

/// Whether each sample of `snap` is a development tool, by its name.
pub open spec fn ide_marks(snap: Seq<ProcessSample>) -> Seq<bool> {
    Seq::new(snap.len(), |i: int| sample_is_tracked(snap[i]))
}

/// `polled_marked`, with each sample classified by its name.
pub open spec fn polled(
    old: Map<u32, ProcessInfo>,
    snap: Seq<ProcessSample>,
    now: i64,
    new: Map<u32, ProcessInfo>,
) -> bool {
    polled_marked(old, snap, ide_marks(snap), now, new)
}

/// `o` records sample `e` as running at time `now`.
pub open spec fn observation_of(o: IDEProcess, e: ProcessSample, now: i64) -> bool {
    &&& o.pid == e.pid
    &&& o.name == e.name
    &&& o.path == e.path
    &&& o.status@ == "running"@
    &&& o.cpu_usage == e.cpu_usage
    &&& o.memory_usage == e.memory_usage
    &&& o.start_time == now
}

/// The samples of `snap` whose marks are set, in snapshot order.
pub open spec fn marked_samples(snap: Seq<ProcessSample>, marks: Seq<bool>) -> Seq<ProcessSample>
    decreases snap.len(),
{
    if snap.len() == 0 {
        Seq::empty()
    } else {
        let rest = marked_samples(snap.drop_last(), marks.drop_last());
        if marks.last() {
            rest.push(snap.last())
        } else {
            rest
        }
    }
}

/// `obs` holds one observation for each marked sample of `snap`, in order.
pub open spec fn observations_marked(
    obs: Seq<IDEProcess>,
    snap: Seq<ProcessSample>,
    marks: Seq<bool>,
    now: i64,
) -> bool {
    let t = marked_samples(snap, marks);
    &&& obs.len() == t.len()
    &&& forall|k: int| 0 <= k < obs.len() ==> observation_of(#[trigger] obs[k], t[k], now)
}

/// `obs` holds one observation for each sample of `snap` with a tracked name,
/// in order.
pub open spec fn observations(obs: Seq<IDEProcess>, snap: Seq<ProcessSample>, now: i64) -> bool {
    observations_marked(obs, snap, ide_marks(snap), now)
}

/// Sum of the instantaneous CPU usage of the samples of `snap` whose
/// identifiers are in `table`.
pub open spec fn tracked_cpu_total(table: Map<u32, ProcessInfo>, snap: Seq<ProcessSample>) -> int
    decreases snap.len(),
{
    if snap.len() == 0 {
        0
    } else {
        tracked_cpu_total(table, snap.drop_last()) + if table.contains_key(snap.last().pid) {
            snap.last().cpu_usage as int
        } else {
            0
        }
    }
}

/// Sum of the instantaneous memory usage of the samples of `snap` whose
/// identifiers are in `table`.
pub open spec fn tracked_memory_total(table: Map<u32, ProcessInfo>, snap: Seq<ProcessSample>) -> int
    decreases snap.len(),
{
    if snap.len() == 0 {
        0
    } else {
        tracked_memory_total(table, snap.drop_last()) + if table.contains_key(snap.last().pid) {
            snap.last().memory_usage as int
        } else {
            0
        }
    }
}

/// `x`, capped at `u64::MAX`.
pub open spec fn saturate(x: int) -> int {
    if x > u64::MAX { u64::MAX as int } else { x }
}

/// Aggregate figures over the tracked processes.
#[derive(Debug, Clone, Copy)]
pub struct ProcessStats {
    /// Total CPU usage, in hundredths of a percent.
    pub total_cpu: u64,
    /// Total memory usage, in bytes.
    pub total_memory: u64,
    pub process_count: usize,
}

/// Whether no identifier occurs twice in `snapshot`.
pub fn has_distinct_pids(snapshot: &Vec<ProcessSample>) -> (r: bool)
    ensures
        r == distinct_pids(snapshot@),
{
    let mut seen: HashSet<u32> = HashSet::new();
    let mut i: usize = 0;
    while i < snapshot.len()
        invariant
            0 <= i <= snapshot.len(),
            distinct_pids(snapshot@.take(i as int)),
            forall|p: u32| #[trigger] seen@.contains(p) <==> has_pid(snapshot@.take(i as int), p),
        decreases snapshot.len() - i,
    {
        let p = snapshot[i].pid;
        if seen.contains(&p) {
            proof {
                let w = choose|w: int| 0 <= w < i && (#[trigger] snapshot@.take(i as int)[w]).pid == p;
                assert(snapshot@[w].pid == snapshot@[i as int].pid);
            }
            return false;
        }
        seen.insert(p);
        proof {
            let s = snapshot@.take(i as int + 1);
            assert forall|a: int, b: int|
                0 <= a < s.len() && 0 <= b < s.len() && a != b implies (#[trigger] s[a]).pid != (
                #[trigger] s[b]).pid by {
                if a < i && b < i {
                    assert(s[a] == snapshot@.take(i as int)[a]);
                    assert(s[b] == snapshot@.take(i as int)[b]);
                } else if a < i {
                    assert(s[a] == snapshot@.take(i as int)[a]);
                } else if b < i {
                    assert(s[b] == snapshot@.take(i as int)[b]);
                }
            }
            assert forall|q: u32| #[trigger] seen@.contains(q) <==> has_pid(s, q) by {
                if has_pid(s, q) && q != p {
                    let w = choose|w: int| 0 <= w < s.len() && (#[trigger] s[w]).pid == q;
                    assert(snapshot@.take(i as int)[w] == s[w]);
                }
                if q == p {
                    assert(s[i as int] == snapshot@[i as int]);
                }
                if has_pid(snapshot@.take(i as int), q) {
                    let w = choose|w: int| 0 <= w < i && (#[trigger] snapshot@.take(i as int)[w]).pid == q;
                    assert(s[w] == snapshot@.take(i as int)[w]);
                }
            }
        }
        i = i + 1;
    }
    proof {
        assert(snapshot@.take(snapshot@.len() as int) =~= snapshot@);
    }
    true
}

/// Monitors development-tool processes across polls of the process table.
pub struct ProcessMonitor {
    tracked_processes: HashMap<u32, ProcessInfo>,
    ide_names: Vec<String>,
}

impl View for ProcessMonitor {
    type V = Map<u32, ProcessInfo>;

    closed spec fn view(&self) -> Map<u32, ProcessInfo> {
        self.tracked_processes@
    }
}

impl ProcessMonitor {
    /// The monitor matches names against the fixed list of tool identifiers.
    pub closed spec fn wf(&self) -> bool {
        names_view(self.ide_names@) == ide_name_list()
    }

    /// A monitor with an empty table.
    pub fn new() -> (m: Self)
        ensures
            m.wf(),
            m@ == Map::<u32, ProcessInfo>::empty(),
    {
        ProcessMonitor { tracked_processes: HashMap::new(), ide_names: ide_names() }
    }

    /// Whether processes named `name` are tracked.
    pub fn is_tracked(&self, name: &str) -> (r: bool)
        requires
            self.wf(),
        ensures
            r == is_ide_process_name(name@),
    {
        name_matches(name, &self.ide_names)
    }

    /// One poll: updates the table from `snapshot`, taken at time `now`, and
    /// returns an observation of each tracked process in it.
    pub fn get_ide_processes(&mut self, snapshot: &Vec<ProcessSample>, now: i64) -> (observed: Vec<
        IDEProcess,
    >)
        requires
            old(self).wf(),
            distinct_pids(snapshot@),
        ensures
            final(self).wf(),
            polled(old(self)@, snapshot@, now, final(self)@),
            observations(observed@, snapshot@, now),
    {
        let mut marks: Vec<bool> = Vec::new();
        let mut i: usize = 0;
        while i < snapshot.len()
            invariant
                self.wf(),
                0 <= i <= snapshot.len(),
                marks@ == ide_marks(snapshot@).take(i as int),
            decreases snapshot.len() - i,
        {
            let is_ide = self.is_tracked(snapshot[i].name.as_str());
            marks.push(is_ide);
            proof {
                assert(marks@ =~= ide_marks(snapshot@).take(i as int + 1));
            }
            i = i + 1;
        }
        proof {
            assert(marks@ =~= ide_marks(snapshot@));
        }
        self.record_poll(snapshot, &marks, now)
    }

    /// The table update of a poll, with the classification of each sample
    /// given: `is_ide[i]` tells whether `snapshot[i]` is a development tool.
    /// Returns an observation of each marked sample. The marks are meant to
    /// be those of `is_tracked` on the samples' names, as `get_ide_processes`
    /// computes them; other marks put other names in the table.
    pub fn record_poll(&mut self, snapshot: &Vec<ProcessSample>, is_ide: &Vec<bool>, now: i64) -> (observed: Vec<
        IDEProcess,
    >)
        requires
            distinct_pids(snapshot@),
            is_ide@.len() == snapshot@.len(),
        ensures
            final(self).wf() == old(self).wf(),
            polled_marked(old(self)@, snapshot@, is_ide@, now, final(self)@),
            observations_marked(observed@, snapshot@, is_ide@, now),
    {
        let ghost old_table = self.tracked_processes@;
        let mut next: HashMap<u32, ProcessInfo> = HashMap::new();
        let mut observed: Vec<IDEProcess> = Vec::new();
        let mut i: usize = 0;
        while i < snapshot.len()
            invariant
                self.wf() == old(self).wf(),
                distinct_pids(snapshot@),
                is_ide@.len() == snapshot@.len(),
                0 <= i <= snapshot.len(),
                forall|p: u32|
                    #[trigger] self.tracked_processes@.contains_key(p) <==> (old_table.contains_key(
                        p,
                    ) && !has_pid(snapshot@.take(i as int), p)),
                forall|p: u32|
                    #[trigger] self.tracked_processes@.contains_key(p)
                        ==> self.tracked_processes@[p] == old_table[p],
                forall|p: u32|
                    #[trigger] next@.contains_key(p) ==> has_pid(snapshot@.take(i as int), p),
                forall|j: int|
                    0 <= j < i ==> entry_after_marked(
                        old_table,
                        #[trigger] snapshot@[j],
                        is_ide@[j],
                        now,
                        next@,
                    ),
                observations_marked(observed@, snapshot@.take(i as int), is_ide@.take(i as int), now),
            decreases snapshot.len() - i,
        {
            let e = &snapshot[i];
            let mark = is_ide[i];
            proof {
                assert(snapshot@.take(i as int + 1).drop_last() =~= snapshot@.take(i as int));
                assert(is_ide@.take(i as int + 1).drop_last() =~= is_ide@.take(i as int));
                assert(!has_pid(snapshot@.take(i as int), e.pid));
            }
            let prior = self.tracked_processes.remove(&e.pid);
            match prior {
                Some(info) => {
                    if mark {
                        let raised = ProcessInfo {
                            name: info.name,
                            path: info.path,
                            start_time: info.start_time,
                            max_cpu_usage: if info.max_cpu_usage >= e.cpu_usage {
                                info.max_cpu_usage
                            } else {
                                e.cpu_usage
                            },
                            max_memory_usage: if info.max_memory_usage >= e.memory_usage {
                                info.max_memory_usage
                            } else {
                                e.memory_usage
                            },
                        };
                        next.insert(e.pid, raised);
                    } else {
                        next.insert(e.pid, info);
                    }
                },
                None => {
                    if mark {
                        let fresh = ProcessInfo {
                            name: e.name.clone(),
                            path: e.path.clone(),
                            start_time: now,
                            max_cpu_usage: e.cpu_usage,
                            max_memory_usage: e.memory_usage,
                        };
                        next.insert(e.pid, fresh);
                    }
                },
            }
            if mark {
                let o = IDEProcess {
                    pid: e.pid,
                    name: e.name.clone(),
                    path: e.path.clone(),
                    status: String::from_str("running"),
                    cpu_usage: e.cpu_usage,
                    memory_usage: e.memory_usage,
                    start_time: now,
                };
                observed.push(o);
            }
            proof {
                let s = snapshot@.take(i as int + 1);
                assert forall|p: u32| #[trigger] next@.contains_key(p) implies has_pid(s, p) by {
                    if p == e.pid {
                        assert(s[i as int] == snapshot@[i as int]);
                    } else {
                        let w = choose|w: int|
                            0 <= w < i && (#[trigger] snapshot@.take(i as int)[w]).pid == p;
                        assert(s[w] == snapshot@.take(i as int)[w]);
                    }
                }
                assert forall|p: u32| #[trigger]
                    self.tracked_processes@.contains_key(p) <==> (old_table.contains_key(p)
                        && !has_pid(s, p)) by {
                    if has_pid(s, p) && p != e.pid {
                        let w = choose|w: int| 0 <= w < s.len() && (#[trigger] s[w]).pid == p;
                        assert(snapshot@.take(i as int)[w] == s[w]);
                    }
                    if p == e.pid {
                        assert(s[i as int] == snapshot@[i as int]);
                    }
                }
                assert forall|j: int| 0 <= j < i + 1 implies entry_after_marked(
                    old_table,
                    #[trigger] snapshot@[j],
                    is_ide@[j],
                    now,
                    next@,
                ) by {
                    if j < i {
                        assert(snapshot@[j].pid != e.pid);
                    }
                }
            }
            i = i + 1;
        }
        proof {
            assert(snapshot@.take(snapshot@.len() as int) =~= snapshot@);
            assert(is_ide@.take(is_ide@.len() as int) =~= is_ide@);
        }
        self.tracked_processes = next;
        observed
    }

    /// Number of processes in the table.
    pub fn get_process_count(&self) -> (n: usize)
        ensures
            n == self@.len(),
    {
        self.tracked_processes.len()
    }

    /// Whether the table holds any process.
    pub fn is_any_ide_running(&self) -> (r: bool)
        ensures
            r == (self@.len() > 0),
    {
        !self.tracked_processes.is_empty()
    }

    /// The table itself, for reading.
    pub fn get_tracked_processes(&self) -> (t: &HashMap<u32, ProcessInfo>)
        ensures
            t@ == self@,
    {
        &self.tracked_processes
    }

    /// Total instantaneous CPU usage, read from the fresh `snapshot`, of the
    /// processes in the table; one that is no longer in the snapshot counts
    /// zero. The sum saturates at `u64::MAX`.
    pub fn get_total_cpu_usage(&self, snapshot: &Vec<ProcessSample>) -> (total: u64)
        ensures
            total == saturate(tracked_cpu_total(self@, snapshot@)),
    {
        let mut total: u64 = 0;
        let mut i: usize = 0;
        while i < snapshot.len()
            invariant
                0 <= i <= snapshot.len(),
                total == saturate(tracked_cpu_total(self@, snapshot@.take(i as int))),
            decreases snapshot.len() - i,
        {
            proof {
                assert(snapshot@.take(i as int + 1).drop_last() =~= snapshot@.take(i as int));
            }
            if self.tracked_processes.contains_key(&snapshot[i].pid) {
                total = total.saturating_add(snapshot[i].cpu_usage);
            }
            i = i + 1;
        }
        proof {
            assert(snapshot@.take(snapshot@.len() as int) =~= snapshot@);
        }
        total
    }

    /// Total instantaneous memory usage in bytes, read from the fresh
    /// `snapshot`, of the processes in the table; one that is no longer in the
    /// snapshot counts zero. The sum saturates at `u64::MAX`.
    pub fn get_total_memory_usage(&self, snapshot: &Vec<ProcessSample>) -> (total: u64)
        ensures
            total == saturate(tracked_memory_total(self@, snapshot@)),
    {
        let mut total: u64 = 0;
        let mut i: usize = 0;
        while i < snapshot.len()
            invariant
                0 <= i <= snapshot.len(),
                total == saturate(tracked_memory_total(self@, snapshot@.take(i as int))),
            decreases snapshot.len() - i,
        {
            proof {
                assert(snapshot@.take(i as int + 1).drop_last() =~= snapshot@.take(i as int));
            }
            if self.tracked_processes.contains_key(&snapshot[i].pid) {
                total = total.saturating_add(snapshot[i].memory_usage);
            }
            i = i + 1;
        }
        proof {
            assert(snapshot@.take(snapshot@.len() as int) =~= snapshot@);
        }
        total
    }
}

impl Default for ProcessMonitor {
    fn default() -> (m: Self)
        ensures
            m.wf(),
            m@ == Map::<u32, ProcessInfo>::empty(),
    {
        ProcessMonitor::new()
    }
}

/// Aggregate statistics of `monitor`, with live usage read from `snapshot`.
pub fn get_process_stats(monitor: &ProcessMonitor, snapshot: &Vec<ProcessSample>) -> (stats:
    ProcessStats)
    ensures
        stats.total_cpu == saturate(tracked_cpu_total(monitor@, snapshot@)),
        stats.total_memory == saturate(tracked_memory_total(monitor@, snapshot@)),
        stats.process_count == monitor@.len(),
{
    ProcessStats {
        total_cpu: monitor.get_total_cpu_usage(snapshot),
        total_memory: monitor.get_total_memory_usage(snapshot),
        process_count: monitor.get_process_count(),
    }
}

} // verus!
