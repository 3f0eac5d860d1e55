//! System resource and process metrics, sampled on demand.

use vstd::prelude::*;
use crate::mm::pmm::PAGE_SIZE;
use crate::services::process::{Process, ProcessState};

verus! {

/// One process as the monitor reports it.
#[derive(Debug, Clone)]
pub struct ProcessMetric {
    pub pid: i32,
    pub ppid: i32,
    /// `READY`, `RUNNING`, `BLOCKED` or `ZOMBIE`.
    pub state: &'static str,
    /// Number of open descriptors.
    pub open_fds: usize,
    pub cwd: Vec<u8>,
}

/// The last sample of system metrics.
pub struct SystemMetricsSnapshot {
    /// Number of samples taken.
    pub sample_tick: u64,
    pub total_memory_bytes: usize,
    pub free_memory_bytes: usize,
    pub used_memory_bytes: usize,
    pub total_heap_bytes: usize,
    pub used_heap_bytes: usize,
    pub total_processes: usize,
    pub running_processes: usize,
    pub processes: Vec<ProcessMetric>,
}

impl SystemMetricsSnapshot {
    /// The state before any sample: all zero, no processes.
    pub fn empty() -> (r: Self)
        ensures
            r.sample_tick == 0,
            r.total_memory_bytes == 0 && r.free_memory_bytes == 0 && r.used_memory_bytes == 0,
            r.total_heap_bytes == 0 && r.used_heap_bytes == 0,
            r.total_processes == 0 && r.running_processes == 0,
            r.processes@.len() == 0,
    {
        SystemMetricsSnapshot {
            sample_tick: 0,
            total_memory_bytes: 0,
            free_memory_bytes: 0,
            used_memory_bytes: 0,
            total_heap_bytes: 0,
            used_heap_bytes: 0,
            total_processes: 0,
            running_processes: 0,
            processes: Vec::new(),
        }
    }
}

/// The name the monitor gives a process state.
pub open spec fn spec_state_name(s: ProcessState) -> &'static str {
    match s {
        ProcessState::Ready => "READY",
        ProcessState::Running => "RUNNING",
        ProcessState::Blocked => "BLOCKED",
        ProcessState::Zombie => "ZOMBIE",
    }
}

/// The name of a process state.
pub fn state_name(s: ProcessState) -> (r: &'static str)
    ensures
        r == spec_state_name(s),
{
    match s {
        ProcessState::Ready => "READY",
        ProcessState::Running => "RUNNING",
        ProcessState::Blocked => "BLOCKED",
        ProcessState::Zombie => "ZOMBIE",
    }
}

/// Number of open slots of a descriptor table.
pub open spec fn count_open(fds: Seq<Option<usize>>) -> nat
    decreases fds.len(),
{
    if fds.len() == 0 {
        0
    } else {
        count_open(fds.drop_last()) + if fds.last() is Some { 1nat } else { 0nat }
    }
}

proof fn lemma_count_open_le(fds: Seq<Option<usize>>)
    ensures
        count_open(fds) <= fds.len(),
    decreases fds.len(),
{
    if fds.len() > 0 {
        lemma_count_open_le(fds.drop_last());
    }
}

/// Counts the open descriptors of `fds`.
pub fn open_fd_count(fds: &Vec<Option<usize>>) -> (r: usize)
    ensures
        r == count_open(fds@),
{
    let mut n: usize = 0;
    let mut i: usize = 0;
    while i < fds.len()
        invariant
            i <= fds@.len(),
            n == count_open(fds@.take(i as int)),
            n <= i,
        decreases fds@.len() - i,
    {
        proof {
            assert(fds@.take(i as int + 1).drop_last() =~= fds@.take(i as int));
        }
        if fds[i].is_some() {
            n += 1;
        }
        i += 1;
    }
    proof {
        assert(fds@.take(fds@.len() as int) =~= fds@);
    }
    n
}

/// The metric of one process.
pub open spec fn metric_matches(m: ProcessMetric, p: Process) -> bool {
    &&& m.pid == p.pid
    &&& m.ppid == p.ppid
    &&& m.state == spec_state_name(p.state)
    &&& m.open_fds == count_open(p.fds@)
    &&& m.cwd@ == p.cwd@
}

/// Number of running processes among the first `n` of `table`.
pub open spec fn count_running(table: Seq<&Process>, n: int) -> nat
    decreases n,
{
    if n <= 0 {
        0
    } else {
        count_running(table, n - 1) + if table[n - 1].state == ProcessState::Running { 1nat } else { 0nat }
    }
}

/// Processes listed by ascending PID, each PID once: the order in which
/// the process table keeps them.
pub open spec fn pid_ordered(table: Seq<&Process>) -> bool {
    forall|i: int, j: int| 0 <= i < j < table.len() ==> #[trigger] table[i].pid < #[trigger] table[j].pid
}

/// `new` is the sample taken after `old` from the frame allocator's
/// `(total, free)` frames, the heap's `(capacity, used)` bytes and the
/// processes of `table`: the tick moves on by one, memory is counted in
/// bytes (used = total minus free, not below zero), and there is one metric
/// per process in table order, with the running ones counted.
pub open spec fn sampled(
    old: SystemMetricsSnapshot,
    new: SystemMetricsSnapshot,
    pmm_stats: (usize, usize),
    heap_stats: (usize, usize),
    table: Seq<&Process>,
) -> bool {
    &&& new.sample_tick == old.sample_tick + 1
    &&& new.total_memory_bytes == pmm_stats.0 * PAGE_SIZE
    &&& new.free_memory_bytes == pmm_stats.1 * PAGE_SIZE
    &&& new.used_memory_bytes == (if pmm_stats.0 >= pmm_stats.1 { pmm_stats.0 - pmm_stats.1 } else { 0 }) * PAGE_SIZE
    &&& new.total_heap_bytes == heap_stats.0
    &&& new.used_heap_bytes == heap_stats.1
    &&& new.total_processes == table.len()
    &&& new.running_processes == count_running(table, table.len() as int)
    &&& new.processes@.len() == table.len()
    &&& forall|i: int| 0 <= i < table.len() ==> metric_matches(#[trigger] new.processes@[i], *table[i])
}

/// Takes a sample (`sampled`) of the processes of `table`, which lists
/// them by ascending PID; the metrics then come by ascending PID too.
pub fn update_system_metrics(
    monitor: &mut SystemMetricsSnapshot,
    pmm_stats: (usize, usize),
    heap_stats: (usize, usize),
    table: &Vec<&Process>,
)
    requires
        old(monitor).sample_tick < u64::MAX,
        pmm_stats.0 * PAGE_SIZE <= usize::MAX,
        pmm_stats.1 * PAGE_SIZE <= usize::MAX,
        pid_ordered(table@),
    ensures
        sampled(*old(monitor), *final(monitor), pmm_stats, heap_stats, table@),
        forall|i: int, j: int| 0 <= i < j < final(monitor).processes@.len()
            ==> #[trigger] final(monitor).processes@[i].pid < #[trigger] final(monitor).processes@[j].pid,
{
    let (total_frames, free_frames) = pmm_stats;
    let used_frames = total_frames.saturating_sub(free_frames);
    assert(used_frames * PAGE_SIZE <= total_frames * PAGE_SIZE) by (nonlinear_arith)
        requires used_frames <= total_frames;
    let total_mem = total_frames * PAGE_SIZE;
    let free_mem = free_frames * PAGE_SIZE;
    let used_mem = used_frames * PAGE_SIZE;
    let (heap_total, heap_used) = heap_stats;

    let mut metrics: Vec<ProcessMetric> = Vec::new();
    let mut running: usize = 0;
    let mut i: usize = 0;
    while i < table.len()
        invariant
            i <= table@.len(),
            metrics@.len() == i,
            running == count_running(table@, i as int),
            running <= i,
            forall|j: int| 0 <= j < i ==> metric_matches(#[trigger] metrics@[j], *table@[j]),
        decreases table@.len() - i,
    {
        let p = table[i];
        if p.state == ProcessState::Running {
            running += 1;
        }
        let open_fds = open_fd_count(&p.fds);
        metrics.push(ProcessMetric {
            pid: p.pid,
            ppid: p.ppid,
            state: state_name(p.state),
            open_fds,
            cwd: p.cwd.clone(),
        });
        i += 1;
    }
    monitor.sample_tick = monitor.sample_tick + 1;
    monitor.total_memory_bytes = total_mem;
    monitor.free_memory_bytes = free_mem;
    monitor.used_memory_bytes = used_mem;
    monitor.total_heap_bytes = heap_total;
    monitor.used_heap_bytes = heap_used;
    monitor.total_processes = metrics.len();
    monitor.running_processes = running;
    monitor.processes = metrics;
    proof {
        assert forall|i: int, j: int| 0 <= i < j < monitor.processes@.len()
            implies #[trigger] monitor.processes@[i].pid < #[trigger] monitor.processes@[j].pid by {
            assert(metric_matches(monitor.processes@[i], *table@[i]));
            assert(metric_matches(monitor.processes@[j], *table@[j]));
            assert(table@[i].pid < table@[j].pid);
        }
    }
}

} // verus!
