//! The security audit trail: a bounded journal of events with sequence
//! numbers, and bounded on-demand snapshots of system state.

use vstd::prelude::*;
use vstd::string::StringSliceAdditionalSpecFns;
use crate::abi::{AUDIT_TYPE_SNAPSHOT_CREATED, AUDIT_TYPE_USER_ACTION};
use crate::services::monitor::{SystemMetricsSnapshot, count_open, open_fd_count, spec_state_name, state_name};
use crate::services::process::Process;
use crate::services::text::{bytes_to_vec, decimal, push_bytes, push_decimal};

verus! {

/// Events kept in the journal; older ones are dropped.
pub const MAX_JOURNAL_ENTRIES: usize = 512;
/// Snapshots kept; older ones are dropped.
pub const MAX_SNAPSHOTS: usize = 64;

/// One audited event.
#[derive(Debug, Clone)]
pub struct AuditEvent {
    /// Sequence number, increasing from 1.
    pub seq: u64,
    /// Monitor sample count when logged.
    pub timestamp_ticks: u64,
    pub pid: i32,
    pub uid: u32,
    /// One of the `AUDIT_TYPE_*` values.
    pub event_type: u32,
    /// 0 or a negated errno.
    pub status: i32,
    pub target: Vec<u8>,
    pub details: Vec<u8>,
}

/// The journal of recent events.
pub struct AuditJournal {
    pub entries: Vec<AuditEvent>,
    /// Events ever appended.
    pub total_logged: u64,
}

/// The entries after appending `e` to `s`: the oldest goes when the
/// journal is full.
pub open spec fn appended<T>(s: Seq<T>, e: T, cap: nat) -> Seq<T> {
    if s.len() >= cap { s.drop_first().push(e) } else { s.push(e) }
}

impl AuditJournal {
    /// An empty journal.
    pub fn new() -> (r: Self)
        ensures
            r.entries@.len() == 0,
            r.total_logged == 0,
    {
        AuditJournal { entries: Vec::new(), total_logged: 0 }
    }

    /// Appends `event`, dropping the oldest entry when the journal is full.
    pub fn append(&mut self, event: AuditEvent)
        requires
            old(self).total_logged < u64::MAX,
            old(self).entries@.len() <= MAX_JOURNAL_ENTRIES,
        ensures
            final(self).entries@ == appended(old(self).entries@, event, MAX_JOURNAL_ENTRIES as nat),
            final(self).entries@.len() <= MAX_JOURNAL_ENTRIES,
            final(self).total_logged == old(self).total_logged + 1,
    {
        if self.entries.len() >= MAX_JOURNAL_ENTRIES {
            let _ = self.entries.remove(0);
        }
        self.entries.push(event);
        self.total_logged = self.total_logged + 1;
        proof {
            if old(self).entries@.len() >= MAX_JOURNAL_ENTRIES {
                assert(old(self).entries@.remove(0) =~= old(self).entries@.drop_first());
            }
        }
    }
}

/// One process as a snapshot records it.
#[derive(Debug, Clone)]
pub struct ProcessSnapshotInfo {
    pub pid: i32,
    pub ppid: i32,
    pub uid: u32,
    pub gid: u32,
    pub state: &'static str,
    pub open_fds: usize,
    pub cwd: Vec<u8>,
}

/// A snapshot of system state.
#[derive(Debug, Clone)]
pub struct AuditSnapshot {
    pub id: u64,
    pub label: Vec<u8>,
    pub timestamp_ticks: u64,
    /// The last journal sequence number when taken.
    pub journal_seq: u64,
    pub total_memory_kb: u64,
    pub used_memory_kb: u64,
    pub heap_used_kb: u64,
    pub process_count: u32,
    pub processes: Vec<ProcessSnapshotInfo>,
}

/// `a` and `b` record the same event.
pub open spec fn same_event(a: AuditEvent, b: AuditEvent) -> bool {
    &&& a.seq == b.seq && a.timestamp_ticks == b.timestamp_ticks && a.pid == b.pid && a.uid == b.uid
    &&& a.event_type == b.event_type && a.status == b.status
    &&& a.target@ == b.target@ && a.details@ == b.details@
}

/// `a` and `b` record the same process.
pub open spec fn same_process_info(a: ProcessSnapshotInfo, b: ProcessSnapshotInfo) -> bool {
    &&& a.pid == b.pid && a.ppid == b.ppid && a.uid == b.uid && a.gid == b.gid
    &&& a.state == b.state && a.open_fds == b.open_fds && a.cwd@ == b.cwd@
}

/// `a` and `b` record the same snapshot.
pub open spec fn same_snapshot(a: AuditSnapshot, b: AuditSnapshot) -> bool {
    &&& a.id == b.id && a.label@ == b.label@ && a.timestamp_ticks == b.timestamp_ticks
    &&& a.journal_seq == b.journal_seq && a.total_memory_kb == b.total_memory_kb
    &&& a.used_memory_kb == b.used_memory_kb && a.heap_used_kb == b.heap_used_kb
    &&& a.process_count == b.process_count
    &&& a.processes@.len() == b.processes@.len()
    &&& forall|i: int| 0 <= i < a.processes@.len() ==> same_process_info(#[trigger] a.processes@[i], b.processes@[i])
}

impl AuditEvent {
    /// A copy of this event.
    pub fn duplicate(&self) -> (r: Self)
        ensures
            same_event(r, *self),
    {
        AuditEvent {
            seq: self.seq,
            timestamp_ticks: self.timestamp_ticks,
            pid: self.pid,
            uid: self.uid,
            event_type: self.event_type,
            status: self.status,
            target: bytes_to_vec(self.target.as_slice()),
            details: bytes_to_vec(self.details.as_slice()),
        }
    }
}

impl ProcessSnapshotInfo {
    /// A copy of this record.
    pub fn duplicate(&self) -> (r: Self)
        ensures
            same_process_info(r, *self),
    {
        ProcessSnapshotInfo {
            pid: self.pid,
            ppid: self.ppid,
            uid: self.uid,
            gid: self.gid,
            state: self.state,
            open_fds: self.open_fds,
            cwd: bytes_to_vec(self.cwd.as_slice()),
        }
    }
}

impl AuditSnapshot {
    /// A copy of this snapshot.
    pub fn duplicate(&self) -> (r: Self)
        ensures
            same_snapshot(r, *self),
    {
        let mut processes: Vec<ProcessSnapshotInfo> = Vec::new();
        let mut i: usize = 0;
        while i < self.processes.len()
            invariant
                i <= self.processes@.len(),
                processes@.len() == i,
                forall|j: int| 0 <= j < i ==> same_process_info(#[trigger] processes@[j], self.processes@[j]),
            decreases self.processes@.len() - i,
        {
            processes.push(self.processes[i].duplicate());
            i += 1;
        }
        AuditSnapshot {
            id: self.id,
            label: bytes_to_vec(self.label.as_slice()),
            timestamp_ticks: self.timestamp_ticks,
            journal_seq: self.journal_seq,
            total_memory_kb: self.total_memory_kb,
            used_memory_kb: self.used_memory_kb,
            heap_used_kb: self.heap_used_kb,
            process_count: self.process_count,
            processes,
        }
    }
}

/// The retained snapshots.
pub struct SnapshotManager {
    pub snapshots: Vec<AuditSnapshot>,
}

impl SnapshotManager {
    /// No snapshots.
    pub fn new() -> (r: Self)
        ensures
            r.snapshots@.len() == 0,
    {
        SnapshotManager { snapshots: Vec::new() }
    }
}

/// The audit subsystem: journal, snapshots and the two ID counters.
pub struct AuditState {
    pub journal: AuditJournal,
    pub manager: SnapshotManager,
    /// Sequence number of the next event.
    pub next_event_seq: u64,
    /// ID of the next snapshot.
    pub next_snapshot_id: u64,
}

/// What a snapshot records of a process.
pub open spec fn info_matches(i: ProcessSnapshotInfo, p: Process) -> bool {
    &&& i.pid == p.pid
    &&& i.ppid == p.ppid
    &&& i.uid == p.uid
    &&& i.gid == p.gid
    &&& i.state == spec_state_name(p.state)
    &&& i.open_fds == count_open(p.fds@)
    &&& i.cwd@ == p.cwd@
}

/// The detail text of a snapshot event.
pub open spec fn snapshot_details(id: u64, seq: u64) -> Seq<u8> {
    "Snapshot #".spec_bytes() + decimal(id as nat) + " created (covered up to journal seq ".spec_bytes()
        + decimal(seq as nat) + ")".spec_bytes()
}

impl AuditState {
    /// The sequence number the next event gets.
    pub open spec fn next_seq(&self) -> u64 {
        self.next_event_seq
    }

    /// The ID the next snapshot gets.
    pub open spec fn next_snapshot(&self) -> u64 {
        self.next_snapshot_id
    }

    /// The journal and the snapshot list are within their bounds.
    pub open spec fn wf(&self) -> bool {
        &&& self.journal.entries@.len() <= MAX_JOURNAL_ENTRIES
        &&& self.manager.snapshots@.len() <= MAX_SNAPSHOTS
    }

    /// Nothing logged; both counters start at 1.
    pub fn new() -> (r: Self)
        ensures
            r.wf(),
            r.journal.entries@.len() == 0,
            r.journal.total_logged == 0,
            r.manager.snapshots@.len() == 0,
            r.next_seq() == 1,
            r.next_snapshot() == 1,
    {
        AuditState { journal: AuditJournal::new(), manager: SnapshotManager::new(), next_event_seq: 1, next_snapshot_id: 1 }
    }

    /// Logs an event at monitor tick `ticks` and returns its sequence number.
    pub fn log_audit_event(
        &mut self,
        ticks: u64,
        pid: i32,
        uid: u32,
        event_type: u32,
        status: i32,
        target: &[u8],
        details: &[u8],
    ) -> (seq: u64)
        requires
            old(self).wf(),
            old(self).journal.total_logged < u64::MAX,
        ensures
            final(self).wf(),
            seq == old(self).next_seq(),
            final(self).next_seq() == old(self).next_seq().wrapping_add(1),
            final(self).next_snapshot() == old(self).next_snapshot(),
            final(self).journal.total_logged == old(self).journal.total_logged + 1,
            final(self).manager.snapshots@ == old(self).manager.snapshots@,
            final(self).journal.entries@.len() == if old(self).journal.entries@.len() >= MAX_JOURNAL_ENTRIES {
                old(self).journal.entries@.len()
            } else {
                old(self).journal.entries@.len() + 1
            },
            ({
                let e = final(self).journal.entries@.last();
                &&& e.seq == seq && e.timestamp_ticks == ticks && e.pid == pid && e.uid == uid
                &&& e.event_type == event_type && e.status == status
                &&& e.target@ == target@ && e.details@ == details@
            }),
            forall|i: int| 0 <= i < final(self).journal.entries@.len() - 1 ==> #[trigger] final(self).journal.entries@[i]
                == if old(self).journal.entries@.len() >= MAX_JOURNAL_ENTRIES {
                    old(self).journal.entries@[i + 1]
                } else {
                    old(self).journal.entries@[i]
                },
    {
        let seq = self.next_event_seq;
        self.next_event_seq = self.next_event_seq.wrapping_add(1);
        let event = AuditEvent {
            seq,
            timestamp_ticks: ticks,
            pid,
            uid,
            event_type,
            status,
            target: bytes_to_vec(target),
            details: bytes_to_vec(details),
        };
        self.journal.append(event);
        seq
    }

    /// A copy of the journal, oldest first.
    pub fn get_audit_events(&self) -> (r: Vec<AuditEvent>)
        ensures
            r@.len() == self.journal.entries@.len(),
            forall|i: int| 0 <= i < r@.len() ==> same_event(#[trigger] r@[i], self.journal.entries@[i]),
    {
        let mut out: Vec<AuditEvent> = Vec::new();
        let mut i: usize = 0;
        while i < self.journal.entries.len()
            invariant
                i <= self.journal.entries@.len(),
                out@.len() == i,
                forall|j: int| 0 <= j < i ==> same_event(#[trigger] out@[j], self.journal.entries@[j]),
            decreases self.journal.entries@.len() - i,
        {
            out.push(self.journal.entries[i].duplicate());
            i += 1;
        }
        out
    }

    /// Takes a snapshot attributed to `pid`/`uid`: it gets the next
    /// snapshot ID, records the last journal sequence number, memory in KiB
    /// and the tick from the monitor's last sample, and every process of
    /// `table`; it is kept (dropping the oldest beyond the limit) and a
    /// snapshot event is logged. Returns the snapshot ID.
    pub fn create_audit_snapshot_with_creds(
        &mut self,
        monitor: &SystemMetricsSnapshot,
        table: &Vec<&Process>,
        pid: i32,
        uid: u32,
        label: &[u8],
    ) -> (id: u64)
        requires
            old(self).wf(),
            old(self).journal.total_logged < u64::MAX,
        ensures
            final(self).wf(),
            id == old(self).next_snapshot(),
            final(self).next_snapshot() == old(self).next_snapshot().wrapping_add(1),
            final(self).next_seq() == old(self).next_seq().wrapping_add(1),
            final(self).manager.snapshots@.len() == if old(self).manager.snapshots@.len() >= MAX_SNAPSHOTS {
                old(self).manager.snapshots@.len()
            } else {
                old(self).manager.snapshots@.len() + 1
            },
            ({
                let s = final(self).manager.snapshots@.last();
                let seq = if old(self).next_seq() > 0 { (old(self).next_seq() - 1) as u64 } else { 0u64 };
                &&& s.id == id
                &&& s.label@ == label@
                &&& s.timestamp_ticks == monitor.sample_tick
                &&& s.journal_seq == seq
                &&& s.total_memory_kb == (monitor.total_memory_bytes / 1024) as u64
                &&& s.used_memory_kb == (monitor.used_memory_bytes / 1024) as u64
                &&& s.heap_used_kb == (monitor.used_heap_bytes / 1024) as u64
                &&& s.process_count == table@.len() as u32
                &&& s.processes@.len() == table@.len()
                &&& forall|i: int| 0 <= i < table@.len() ==> info_matches(#[trigger] s.processes@[i], *table@[i])
            }),
            ({
                let e = final(self).journal.entries@.last();
                let seq = if old(self).next_seq() > 0 { (old(self).next_seq() - 1) as u64 } else { 0u64 };
                &&& e.seq == old(self).next_seq()
                &&& e.timestamp_ticks == monitor.sample_tick
                &&& e.pid == pid && e.uid == uid
                &&& e.event_type == AUDIT_TYPE_SNAPSHOT_CREATED && e.status == 0
                &&& e.target@ == label@
                &&& e.details@ == snapshot_details(id, seq)
            }),
    {
        let id = self.next_snapshot_id;
        self.next_snapshot_id = self.next_snapshot_id.wrapping_add(1);
        let current_seq = self.next_event_seq.saturating_sub(1);
        let total_ram_kb = (monitor.total_memory_bytes / 1024) as u64;
        let used_ram_kb = (monitor.used_memory_bytes / 1024) as u64;
        let heap_used_kb = (monitor.used_heap_bytes / 1024) as u64;
        let ticks = monitor.sample_tick;

        let mut procs: Vec<ProcessSnapshotInfo> = Vec::new();
        let mut i: usize = 0;
        while i < table.len()
            invariant
                i <= table@.len(),
                procs@.len() == i,
                forall|j: int| 0 <= j < i ==> info_matches(#[trigger] procs@[j], *table@[j]),
            decreases table@.len() - i,
        {
            let p = table[i];
            let open_fds = open_fd_count(&p.fds);
            procs.push(ProcessSnapshotInfo {
                pid: p.pid,
                ppid: p.ppid,
                uid: p.uid,
                gid: p.gid,
                state: state_name(p.state),
                open_fds,
                cwd: p.cwd.clone(),
            });
            i += 1;
        }
        let count = procs.len() as u32;
        let snapshot = AuditSnapshot {
            id,
            label: bytes_to_vec(label),
            timestamp_ticks: ticks,
            journal_seq: current_seq,
            total_memory_kb: total_ram_kb,
            used_memory_kb: used_ram_kb,
            heap_used_kb,
            process_count: count,
            processes: procs,
        };
        if self.manager.snapshots.len() >= MAX_SNAPSHOTS {
            let _ = self.manager.snapshots.remove(0);
        }
        self.manager.snapshots.push(snapshot);

        let mut details: Vec<u8> = Vec::new();
        push_bytes(&mut details, "Snapshot #".as_bytes());
        push_decimal(&mut details, id);
        push_bytes(&mut details, " created (covered up to journal seq ".as_bytes());
        push_decimal(&mut details, current_seq);
        push_bytes(&mut details, ")".as_bytes());
        proof {
            assert(details@ =~= snapshot_details(id, current_seq));
        }
        self.log_audit_event(ticks, pid, uid, AUDIT_TYPE_SNAPSHOT_CREATED, 0, label, details.as_slice());
        id
    }

    /// A copy of the retained snapshots, oldest first.
    pub fn get_snapshots(&self) -> (r: Vec<AuditSnapshot>)
        ensures
            r@.len() == self.manager.snapshots@.len(),
            forall|i: int| 0 <= i < r@.len() ==> same_snapshot(#[trigger] r@[i], self.manager.snapshots@[i]),
    {
        let mut out: Vec<AuditSnapshot> = Vec::new();
        let mut i: usize = 0;
        while i < self.manager.snapshots.len()
            invariant
                i <= self.manager.snapshots@.len(),
                out@.len() == i,
                forall|j: int| 0 <= j < i ==> same_snapshot(#[trigger] out@[j], self.manager.snapshots@[j]),
            decreases self.manager.snapshots@.len() - i,
        {
            out.push(self.manager.snapshots[i].duplicate());
            i += 1;
        }
        out
    }

    /// The first retained snapshot with ID `id`.
    pub fn get_snapshot_by_id(&self, id: u64) -> (r: Option<AuditSnapshot>)
        ensures
            r is None <==> forall|i: int| 0 <= i < self.manager.snapshots@.len()
                ==> #[trigger] self.manager.snapshots@[i].id != id,
            r matches Some(s) ==> exists|i: int| 0 <= i < self.manager.snapshots@.len()
                && #[trigger] self.manager.snapshots@[i].id == id
                && (forall|j: int| 0 <= j < i ==> #[trigger] self.manager.snapshots@[j].id != id)
                && same_snapshot(s, self.manager.snapshots@[i]),
    {
        let mut i: usize = 0;
        while i < self.manager.snapshots.len()
            invariant
                i <= self.manager.snapshots@.len(),
                forall|j: int| 0 <= j < i ==> #[trigger] self.manager.snapshots@[j].id != id,
            decreases self.manager.snapshots@.len() - i,
        {
            if self.manager.snapshots[i].id == id {
                return Some(self.manager.snapshots[i].duplicate());
            }
            i += 1;
        }
        None
    }

    /// Starts the trail: logs that auditing began (PID 0, UID 0, target
    /// `kernel`) and takes the `boot_baseline` snapshot for the caller.
    /// Returns the snapshot ID.
    pub fn audit_init(&mut self, monitor: &SystemMetricsSnapshot, table: &Vec<&Process>, pid: i32, uid: u32) -> (id: u64)
        requires
            old(self).wf(),
            old(self).journal.total_logged < u64::MAX - 1,
        ensures
            final(self).wf(),
            id == old(self).next_snapshot(),
            final(self).next_seq() == old(self).next_seq().wrapping_add(1).wrapping_add(1),
    {
        let _ = self.log_audit_event(
            monitor.sample_tick,
            0,
            0,
            AUDIT_TYPE_USER_ACTION,
            0,
            "kernel".as_bytes(),
            "Kernel audit logging initialized".as_bytes(),
        );
        self.create_audit_snapshot_with_creds(monitor, table, pid, uid, "boot_baseline".as_bytes())
    }
}

/// `audit_log`: logs an event of `event_type` for the caller (`pid`/`uid`,
/// zero without a current process) with status 0 and returns its sequence
/// number.
pub fn sys_audit_log(
    audit: &mut AuditState,
    monitor: &SystemMetricsSnapshot,
    pid: i32,
    uid: u32,
    event_type: u32,
    target: &[u8],
    details: &[u8],
) -> (r: isize)
    requires
        old(audit).wf(),
        old(audit).journal.total_logged < u64::MAX,
    ensures
        final(audit).wf(),
        r == old(audit).next_seq() as isize,
        final(audit).next_seq() == old(audit).next_seq().wrapping_add(1),
        ({
            let e = final(audit).journal.entries@.last();
            &&& e.seq == old(audit).next_seq() && e.pid == pid && e.uid == uid
            &&& e.event_type == event_type && e.status == 0
            &&& e.timestamp_ticks == monitor.sample_tick
            &&& e.target@ == target@ && e.details@ == details@
        }),
{
    let seq = audit.log_audit_event(monitor.sample_tick, pid, uid, event_type, 0, target, details);
    seq as isize
}

/// `audit_snapshot`: takes a snapshot labelled `label`, or `snapshot`
/// without one, and returns its ID.
pub fn sys_audit_snapshot(
    audit: &mut AuditState,
    monitor: &SystemMetricsSnapshot,
    table: &Vec<&Process>,
    pid: i32,
    uid: u32,
    label: Option<&[u8]>,
) -> (r: isize)
    requires
        old(audit).wf(),
        old(audit).journal.total_logged < u64::MAX,
    ensures
        final(audit).wf(),
        r == old(audit).next_snapshot() as isize,
        final(audit).manager.snapshots@.last().label@ == match label {
            Some(l) => l@,
            None => "snapshot".spec_bytes(),
        },
{
    let l: &[u8] = match label {
        Some(l) => l,
        None => "snapshot".as_bytes(),
    };
    let id = audit.create_audit_snapshot_with_creds(monitor, table, pid, uid, l);
    id as isize
}

} // verus!
