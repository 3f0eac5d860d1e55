//! `/proc` files: text rendered on every read from the system metrics and
//! the audit trail.

use vstd::prelude::*;
use vstd::string::StringSliceAdditionalSpecFns;
use crate::abi::{
    AUDIT_TYPE_DIR_CHANGE, AUDIT_TYPE_DIR_CREATE, AUDIT_TYPE_FILE_CREATE, AUDIT_TYPE_FILE_MODIFY,
    AUDIT_TYPE_FILE_UNLINK, AUDIT_TYPE_PROCESS_EXIT, AUDIT_TYPE_PROCESS_SPAWN, AUDIT_TYPE_SECURITY_ALERT,
    AUDIT_TYPE_SNAPSHOT_CREATED, AUDIT_TYPE_USER_ACTION, EPERM, S_IFREG,
};
use crate::services::audit::{AuditEvent, AuditSnapshot};
use crate::mm::pmm::PAGE_SIZE;
use crate::services::monitor::{pid_ordered, sampled, update_system_metrics, ProcessMetric, SystemMetricsSnapshot};
use crate::services::process::Process;
use crate::services::text::{decimal, push_bytes, push_decimal, push_signed_decimal, signed_decimal};
use crate::vfs::ramfs::Stat;

verus! {

/// Which `/proc` file.
#[derive(Debug, Clone, Copy, PartialEq, Eq, Structural)]
pub enum ProcKind {
    /// `/proc/meminfo`: memory and heap totals.
    Meminfo,
    /// `/proc/stat`: sample count and process counts.
    Stat,
    /// `/proc/uptime`: samples taken.
    Uptime,
    /// `/proc/processes`: one line per process.
    Processes,
    /// `/proc/audit_journal`: one line per journal event.
    AuditJournal,
    /// `/proc/snapshots`: one line per snapshot.
    AuditSnapshots,
}

/// A `/proc` file of some kind.
#[derive(Debug, Clone, Copy, PartialEq, Eq, Structural)]
pub struct ProcDynamicFile {
    pub kind: ProcKind,
}

/// The decimal text of `n`, right-aligned in eight columns.
pub open spec fn pad8(n: nat) -> Seq<u8> {
    let d = decimal(n);
    if d.len() < 8 { Seq::new((8 - d.len()) as nat, |i: int| 32u8) + d } else { d }
}

/// The `/proc/meminfo` text for a sample (sizes in KiB).
pub open spec fn meminfo_text(m: SystemMetricsSnapshot) -> Seq<u8> {
    "MemTotal:       ".spec_bytes() + pad8((m.total_memory_bytes / 1024) as nat) + " kB\n".spec_bytes()
    + "MemFree:        ".spec_bytes() + pad8((m.free_memory_bytes / 1024) as nat) + " kB\n".spec_bytes()
    + "MemUsed:        ".spec_bytes() + pad8((m.used_memory_bytes / 1024) as nat) + " kB\n".spec_bytes()
    + "HeapTotal:      ".spec_bytes() + pad8((m.total_heap_bytes / 1024) as nat) + " kB\n".spec_bytes()
    + "HeapUsed:       ".spec_bytes() + pad8((m.used_heap_bytes / 1024) as nat) + " kB\n".spec_bytes()
}

/// The `/proc/stat` text for a sample.
pub open spec fn stat_text(m: SystemMetricsSnapshot) -> Seq<u8> {
    "cpu_ticks ".spec_bytes() + decimal(m.sample_tick as nat) + "\nprocesses ".spec_bytes()
    + decimal(m.total_processes as nat) + "\nprocs_running ".spec_bytes() + decimal(m.running_processes as nat)
    + "\n".spec_bytes()
}

/// The `/proc/uptime` text for a sample.
pub open spec fn uptime_text(m: SystemMetricsSnapshot) -> Seq<u8> {
    decimal(m.sample_tick as nat) + ".00 ".spec_bytes() + decimal(m.sample_tick as nat) + ".00\n".spec_bytes()
}

/// One `/proc/processes` line.
pub open spec fn process_line(p: ProcessMetric) -> Seq<u8> {
    signed_decimal(p.pid as int) + "\t".spec_bytes() + signed_decimal(p.ppid as int) + "\t".spec_bytes()
    + p.state.spec_bytes() + "\t".spec_bytes() + decimal(p.open_fds as nat) + "\t".spec_bytes() + p.cwd@
    + "\n".spec_bytes()
}

/// The name `/proc/audit_journal` gives an event type.
pub open spec fn audit_type_name(t: u32) -> &'static str {
    if t == AUDIT_TYPE_USER_ACTION { "USER_ACTION" }
    else if t == AUDIT_TYPE_PROCESS_SPAWN { "PROC_SPAWN" }
    else if t == AUDIT_TYPE_PROCESS_EXIT { "PROC_EXIT" }
    else if t == AUDIT_TYPE_FILE_CREATE { "FILE_CREATE" }
    else if t == AUDIT_TYPE_FILE_MODIFY { "FILE_MODIFY" }
    else if t == AUDIT_TYPE_FILE_UNLINK { "FILE_UNLINK" }
    else if t == AUDIT_TYPE_DIR_CREATE { "DIR_CREATE" }
    else if t == AUDIT_TYPE_DIR_CHANGE { "DIR_CHANGE" }
    else if t == AUDIT_TYPE_SNAPSHOT_CREATED { "SNAPSHOT" }
    else if t == AUDIT_TYPE_SECURITY_ALERT { "SEC_ALERT" }
    else { "OTHER" }
}

/// One `/proc/audit_journal` line.
pub open spec fn event_line(e: AuditEvent) -> Seq<u8> {
    decimal(e.seq as nat) + "\t".spec_bytes() + decimal(e.timestamp_ticks as nat) + "\t".spec_bytes()
    + signed_decimal(e.pid as int) + "\t".spec_bytes() + audit_type_name(e.event_type).spec_bytes()
    + "\t".spec_bytes() + signed_decimal(e.status as int) + "\t".spec_bytes() + e.target@ + "\t".spec_bytes()
    + e.details@ + "\n".spec_bytes()
}

/// One `/proc/snapshots` line.
pub open spec fn snapshot_line(s: AuditSnapshot) -> Seq<u8> {
    decimal(s.id as nat) + "\t".spec_bytes() + s.label@ + "\t".spec_bytes() + decimal(s.timestamp_ticks as nat)
    + "\t".spec_bytes() + decimal(s.journal_seq as nat) + "\t".spec_bytes() + decimal(s.used_memory_kb as nat)
    + " kB\t".spec_bytes() + decimal(s.heap_used_kb as nat) + " kB\t".spec_bytes()
    + decimal(s.process_count as nat) + "\n".spec_bytes()
}

/// The lines of the first `n` processes.
pub open spec fn process_lines(ps: Seq<ProcessMetric>, n: int) -> Seq<u8>
    decreases n,
{
    if n <= 0 { Seq::empty() } else { process_lines(ps, n - 1) + process_line(ps[n - 1]) }
}

/// The lines of the first `n` events.
pub open spec fn event_lines(es: Seq<AuditEvent>, n: int) -> Seq<u8>
    decreases n,
{
    if n <= 0 { Seq::empty() } else { event_lines(es, n - 1) + event_line(es[n - 1]) }
}

/// The lines of the first `n` snapshots.
pub open spec fn snapshot_lines(ss: Seq<AuditSnapshot>, n: int) -> Seq<u8>
    decreases n,
{
    if n <= 0 { Seq::empty() } else { snapshot_lines(ss, n - 1) + snapshot_line(ss[n - 1]) }
}

/// The text of a `/proc` file of `kind` for a metrics sample, the journal
/// `events` and the `snapshots`.
pub open spec fn proc_text(kind: ProcKind, m: SystemMetricsSnapshot, events: Seq<AuditEvent>, snapshots: Seq<AuditSnapshot>) -> Seq<u8> {
    match kind {
        ProcKind::Meminfo => meminfo_text(m),
        ProcKind::Stat => stat_text(m),
        ProcKind::Uptime => uptime_text(m),
        ProcKind::Processes => "PID\tPPID\tSTATE\tFDS\tCWD\n".spec_bytes()
            + process_lines(m.processes@, m.processes@.len() as int),
        ProcKind::AuditJournal => "SEQ\tTIME\tPID\tTYPE\tSTATUS\tTARGET\tDETAILS\n".spec_bytes()
            + event_lines(events, events.len() as int),
        ProcKind::AuditSnapshots => "ID\tLABEL\tTIME\tJOURNAL_SEQ\tRAM_USED\tHEAP_USED\tPROCS\n".spec_bytes()
            + snapshot_lines(snapshots, snapshots.len() as int),
    }
}

fn push_str(out: &mut Vec<u8>, s: &str)
    ensures
        final(out)@ == old(out)@ + s.spec_bytes(),
{
    push_bytes(out, s.as_bytes());
}

fn push_padded(out: &mut Vec<u8>, n: u64)
    ensures
        final(out)@ == old(out)@ + pad8(n as nat),
{
    let mut digits: Vec<u8> = Vec::new();
    push_decimal(&mut digits, n);
    proof {
        assert(digits@ =~= decimal(n as nat));
    }
    let mut k: usize = digits.len();
    let ghost pad_start = out@.len();
    while k < 8
        invariant
            digits@ == decimal(n as nat),
            digits@.len() <= k <= 8 || (digits@.len() >= 8 && k == digits@.len()),
            pad_start == old(out)@.len(),
            out@.len() == old(out)@.len() + (k - digits@.len()),
            out@.subrange(0, pad_start as int) == old(out)@,
            forall|j: int| pad_start <= j < out@.len() ==> out@[j] == 32u8,
        decreases 8 - k,
    {
        out.push(32u8);
        k += 1;
    }
    let ghost mid = out@;
    push_bytes(out, digits.as_slice());
    proof {
        let d = decimal(n as nat);
        if d.len() < 8 {
            let sp = Seq::new((8 - d.len()) as nat, |i: int| 32u8);
            assert(mid =~= old(out)@ + sp);
        } else {
            assert(mid =~= old(out)@);
        }
        assert(out@ =~= old(out)@ + pad8(n as nat));
    }
}

fn push_type_name(out: &mut Vec<u8>, t: u32)
    ensures
        final(out)@ == old(out)@ + audit_type_name(t).spec_bytes(),
{
    let name: &'static str = if t == AUDIT_TYPE_USER_ACTION { "USER_ACTION" }
        else if t == AUDIT_TYPE_PROCESS_SPAWN { "PROC_SPAWN" }
        else if t == AUDIT_TYPE_PROCESS_EXIT { "PROC_EXIT" }
        else if t == AUDIT_TYPE_FILE_CREATE { "FILE_CREATE" }
        else if t == AUDIT_TYPE_FILE_MODIFY { "FILE_MODIFY" }
        else if t == AUDIT_TYPE_FILE_UNLINK { "FILE_UNLINK" }
        else if t == AUDIT_TYPE_DIR_CREATE { "DIR_CREATE" }
        else if t == AUDIT_TYPE_DIR_CHANGE { "DIR_CHANGE" }
        else if t == AUDIT_TYPE_SNAPSHOT_CREATED { "SNAPSHOT" }
        else if t == AUDIT_TYPE_SECURITY_ALERT { "SEC_ALERT" }
        else { "OTHER" };
    push_str(out, name);
}

fn push_process_line(out: &mut Vec<u8>, p: &ProcessMetric)
    ensures
        final(out)@ == old(out)@ + process_line(*p),
{
    push_signed_decimal(out, p.pid as i64);
    push_str(out, "\t");
    push_signed_decimal(out, p.ppid as i64);
    push_str(out, "\t");
    push_str(out, p.state);
    push_str(out, "\t");
    push_decimal(out, p.open_fds as u64);
    push_str(out, "\t");
    push_bytes(out, p.cwd.as_slice());
    push_str(out, "\n");
    proof {
        assert(out@ =~= old(out)@ + process_line(*p));
    }
}

fn push_event_line(out: &mut Vec<u8>, e: &AuditEvent)
    ensures
        final(out)@ == old(out)@ + event_line(*e),
{
    push_decimal(out, e.seq);
    push_str(out, "\t");
    push_decimal(out, e.timestamp_ticks);
    push_str(out, "\t");
    push_signed_decimal(out, e.pid as i64);
    push_str(out, "\t");
    push_type_name(out, e.event_type);
    push_str(out, "\t");
    push_signed_decimal(out, e.status as i64);
    push_str(out, "\t");
    push_bytes(out, e.target.as_slice());
    push_str(out, "\t");
    push_bytes(out, e.details.as_slice());
    push_str(out, "\n");
    proof {
        assert(out@ =~= old(out)@ + event_line(*e));
    }
}

fn push_snapshot_line(out: &mut Vec<u8>, s: &AuditSnapshot)
    ensures
        final(out)@ == old(out)@ + snapshot_line(*s),
{
    push_decimal(out, s.id);
    push_str(out, "\t");
    push_bytes(out, s.label.as_slice());
    push_str(out, "\t");
    push_decimal(out, s.timestamp_ticks);
    push_str(out, "\t");
    push_decimal(out, s.journal_seq);
    push_str(out, "\t");
    push_decimal(out, s.used_memory_kb);
    push_str(out, " kB\t");
    push_decimal(out, s.heap_used_kb);
    push_str(out, " kB\t");
    push_decimal(out, s.process_count as u64);
    push_str(out, "\n");
    proof {
        assert(out@ =~= old(out)@ + snapshot_line(*s));
    }
}

impl ProcDynamicFile {
    /// A `/proc` file of `kind`.
    pub fn new(kind: ProcKind) -> (r: Self)
        ensures
            r.kind == kind,
    {
        ProcDynamicFile { kind }
    }

    /// Takes a fresh sample into `monitor` (as `update_system_metrics` does,
    /// from the frame and heap statistics and the process `table` by
    /// ascending PID), then renders the file's text from that sample, the
    /// journal `events` and the `snapshots`; so each read sees the sample
    /// tick one further than the read before.
    pub fn generate_content(
        &self,
        monitor: &mut SystemMetricsSnapshot,
        pmm_stats: (usize, usize),
        heap_stats: (usize, usize),
        table: &Vec<&Process>,
        events: &Vec<AuditEvent>,
        snapshots: &Vec<AuditSnapshot>,
    ) -> (r: Vec<u8>)
        requires
            old(monitor).sample_tick < u64::MAX,
            pmm_stats.0 * PAGE_SIZE <= usize::MAX,
            pmm_stats.1 * PAGE_SIZE <= usize::MAX,
            pid_ordered(table@),
        ensures
            sampled(*old(monitor), *final(monitor), pmm_stats, heap_stats, table@),
            r@ == proc_text(self.kind, *final(monitor), events@, snapshots@),
    {
        update_system_metrics(monitor, pmm_stats, heap_stats, table);
        self.render(monitor, events, snapshots)
    }

    /// The file's text for the sample `mon`, the journal `events` and the
    /// `snapshots`.
    pub fn render(&self, mon: &SystemMetricsSnapshot, events: &Vec<AuditEvent>, snapshots: &Vec<AuditSnapshot>) -> (r: Vec<u8>)
        ensures
            r@ == proc_text(self.kind, *mon, events@, snapshots@),
    {
        let mut out: Vec<u8> = Vec::new();
        match self.kind {
            ProcKind::Meminfo => {
                push_str(&mut out, "MemTotal:       ");
                push_padded(&mut out, (mon.total_memory_bytes / 1024) as u64);
                push_str(&mut out, " kB\n");
                push_str(&mut out, "MemFree:        ");
                push_padded(&mut out, (mon.free_memory_bytes / 1024) as u64);
                push_str(&mut out, " kB\n");
                push_str(&mut out, "MemUsed:        ");
                push_padded(&mut out, (mon.used_memory_bytes / 1024) as u64);
                push_str(&mut out, " kB\n");
                push_str(&mut out, "HeapTotal:      ");
                push_padded(&mut out, (mon.total_heap_bytes / 1024) as u64);
                push_str(&mut out, " kB\n");
                push_str(&mut out, "HeapUsed:       ");
                push_padded(&mut out, (mon.used_heap_bytes / 1024) as u64);
                push_str(&mut out, " kB\n");
                proof {
                    assert(out@ =~= meminfo_text(*mon));
                }
            },
            ProcKind::Stat => {
                push_str(&mut out, "cpu_ticks ");
                push_decimal(&mut out, mon.sample_tick);
                push_str(&mut out, "\nprocesses ");
                push_decimal(&mut out, mon.total_processes as u64);
                push_str(&mut out, "\nprocs_running ");
                push_decimal(&mut out, mon.running_processes as u64);
                push_str(&mut out, "\n");
                proof {
                    assert(out@ =~= stat_text(*mon));
                }
            },
            ProcKind::Uptime => {
                push_decimal(&mut out, mon.sample_tick);
                push_str(&mut out, ".00 ");
                push_decimal(&mut out, mon.sample_tick);
                push_str(&mut out, ".00\n");
                proof {
                    assert(out@ =~= uptime_text(*mon));
                }
            },
            ProcKind::Processes => {
                push_str(&mut out, "PID\tPPID\tSTATE\tFDS\tCWD\n");
                let ghost head = out@;
                let ps = &mon.processes;
                let mut i: usize = 0;
                while i < ps.len()
                    invariant
                        i <= ps@.len(),
                        out@ == head + process_lines(ps@, i as int),
                    decreases ps@.len() - i,
                {
                    push_process_line(&mut out, &ps[i]);
                    proof {
                        assert(head + process_lines(ps@, i as int + 1) =~= head + process_lines(ps@, i as int) + process_line(ps@[i as int]));
                    }
                    i += 1;
                }
            },
            ProcKind::AuditJournal => {
                push_str(&mut out, "SEQ\tTIME\tPID\tTYPE\tSTATUS\tTARGET\tDETAILS\n");
                let ghost head = out@;
                let mut i: usize = 0;
                while i < events.len()
                    invariant
                        i <= events@.len(),
                        out@ == head + event_lines(events@, i as int),
                    decreases events@.len() - i,
                {
                    push_event_line(&mut out, &events[i]);
                    proof {
                        assert(head + event_lines(events@, i as int + 1) =~= head + event_lines(events@, i as int) + event_line(events@[i as int]));
                    }
                    i += 1;
                }
            },
            ProcKind::AuditSnapshots => {
                push_str(&mut out, "ID\tLABEL\tTIME\tJOURNAL_SEQ\tRAM_USED\tHEAP_USED\tPROCS\n");
                let ghost head = out@;
                let mut i: usize = 0;
                while i < snapshots.len()
                    invariant
                        i <= snapshots@.len(),
                        out@ == head + snapshot_lines(snapshots@, i as int),
                    decreases snapshots@.len() - i,
                {
                    push_snapshot_line(&mut out, &snapshots[i]);
                    proof {
                        assert(head + snapshot_lines(snapshots@, i as int + 1) =~= head + snapshot_lines(snapshots@, i as int) + snapshot_line(snapshots@[i as int]));
                    }
                    i += 1;
                }
            },
        }
        out
    }

    /// Reads the rendered `content` at `offset` into the front of `buf`:
    /// as many bytes as fit, none at or past its end. Returns the count.
    pub fn read(&self, content: &Vec<u8>, offset: usize, buf: &mut Vec<u8>) -> (r: usize)
        ensures
            r == crate::vfs::file::read_count(content@.len() as int, offset as int, old(buf)@.len() as int),
            final(buf)@ == crate::vfs::file::read_into(content@, offset as int, old(buf)@),
    {
        if offset >= content.len() {
            return 0;
        }
        let avail = content.len() - offset;
        let n = if buf.len() < avail { buf.len() } else { avail };
        let ghost b0 = buf@;
        let mut i: usize = 0;
        while i < n
            invariant
                n <= b0.len(),
                offset + n <= content@.len(),
                content@.len() <= usize::MAX,
                buf@.len() == b0.len(),
                0 <= i <= n,
                forall|j: int| 0 <= j < i ==> buf@[j] == content@[offset + j],
                forall|j: int| i <= j < b0.len() ==> buf@[j] == b0[j],
            decreases n - i,
        {
            buf.set(i, content[offset + i]);
            i += 1;
        }
        proof {
            assert(buf@ =~= content@.subrange(offset as int, offset + n) + b0.subrange(n as int, b0.len() as int));
        }
        n
    }

    /// Writing a `/proc` file fails with `EPERM`.
    pub fn write(&self) -> (r: Result<usize, i32>)
        ensures
            r == Err::<usize, i32>(EPERM),
    {
        Err(EPERM)
    }

    /// What `stat` reports for the file given its current `content`: a
    /// read-only regular file of that size.
    pub fn stat(&self, content: &Vec<u8>) -> (r: Stat)
        ensures
            r == (Stat { st_mode: S_IFREG | 0o444, st_uid: 0, st_gid: 0, st_size: content@.len() as i64 }),
    {
        Stat { st_mode: S_IFREG | 0o444, st_uid: 0, st_gid: 0, st_size: content.len() as i64 }
    }
}

} // verus!
