use kernel::abi::{AUDIT_TYPE_FILE_CREATE, EPERM, S_IFCHR, S_IFREG};
use kernel::boot::limine::{
    first_framebuffer, hhdm_offset, LimineFramebufferRequest, LimineFramebufferResponse, LimineHhdmRequest,
    LimineHhdmResponse, LimineMemmapRequest, LimineModuleRequest,
};
use kernel::drivers::framebuffer::LimineFramebuffer;
use kernel::arch::pic::{irq_init_masks, irq_line, mask, pic_disable, pic_remap, send_eoi, unmask};
use kernel::drivers::serial::SerialPort;
use kernel::services::audit::{AuditEvent, AuditSnapshot};
use kernel::services::elf::{elf_load_plan, parse_elf_header, setup_user_stack, USER_STACK_TOP};
use kernel::services::monitor::{ProcessMetric, SystemMetricsSnapshot};
use kernel::services::process::{Process, ProcessState};
use kernel::vfs::devfs::{ConsoleRead, DevConsole, DevNull, DevZero};
use kernel::vfs::procfs::{ProcDynamicFile, ProcKind};

fn v(s: &str) -> Vec<u8> {
    s.as_bytes().to_vec()
}

fn text(kind: ProcKind, mon: &SystemMetricsSnapshot, ev: &Vec<AuditEvent>, sn: &Vec<AuditSnapshot>) -> String {
    String::from_utf8(ProcDynamicFile::new(kind).render(mon, ev, sn)).unwrap()
}

#[test]
fn proc_meminfo_stat_uptime() {
    let mut mon = SystemMetricsSnapshot::empty();
    mon.sample_tick = 12;
    mon.total_memory_bytes = 512 * 1024 * 1024;
    mon.free_memory_bytes = 3 * 1024;
    mon.used_memory_bytes = 512 * 1024 * 1024 - 3 * 1024;
    mon.total_heap_bytes = 1024 * 1024;
    mon.used_heap_bytes = 2047;
    mon.total_processes = 3;
    mon.running_processes = 1;
    let none = Vec::new();
    let ns = Vec::new();
    assert_eq!(
        text(ProcKind::Meminfo, &mon, &none, &ns),
        "MemTotal:         524288 kB\nMemFree:               3 kB\nMemUsed:          524285 kB\nHeapTotal:          1024 kB\nHeapUsed:              1 kB\n"
    );
    assert_eq!(text(ProcKind::Stat, &mon, &none, &ns), "cpu_ticks 12\nprocesses 3\nprocs_running 1\n");
    assert_eq!(text(ProcKind::Uptime, &mon, &none, &ns), "12.00 12.00\n");
}

#[test]
fn proc_reads_take_a_fresh_sample() {
    let mut mon = SystemMetricsSnapshot::empty();
    mon.sample_tick = 11;
    let mut init = Process::new(1, 0, v("/"));
    init.state = ProcessState::Running;
    let sh = Process::new(4, 1, v("/tmp"));
    let table = vec![&init, &sh];
    let none = Vec::new();
    let ns = Vec::new();
    let up = ProcDynamicFile::new(ProcKind::Uptime);
    let first = up.generate_content(&mut mon, (256, 64), (1 << 20, 4096), &table, &none, &ns);
    assert_eq!(String::from_utf8(first.clone()).unwrap(), "12.00 12.00\n");
    assert_eq!(mon.sample_tick, 12);
    let second = up.generate_content(&mut mon, (256, 64), (1 << 20, 4096), &table, &none, &ns);
    assert_eq!(String::from_utf8(second.clone()).unwrap(), "13.00 13.00\n");
    assert_ne!(first, second);
    let stat = ProcDynamicFile::new(ProcKind::Stat);
    let text = stat.generate_content(&mut mon, (256, 64), (1 << 20, 4096), &table, &none, &ns);
    assert_eq!(String::from_utf8(text).unwrap(), "cpu_ticks 14\nprocesses 2\nprocs_running 1\n");
    let mem = ProcDynamicFile::new(ProcKind::Meminfo);
    let text = mem.generate_content(&mut mon, (256, 64), (1 << 20, 4096), &table, &none, &ns);
    assert_eq!(
        String::from_utf8(text).unwrap(),
        "MemTotal:           1024 kB\nMemFree:             256 kB\nMemUsed:             768 kB\nHeapTotal:          1024 kB\nHeapUsed:              4 kB\n"
    );
    let procs = ProcDynamicFile::new(ProcKind::Processes);
    let text = procs.generate_content(&mut mon, (256, 64), (1 << 20, 4096), &table, &none, &ns);
    assert_eq!(String::from_utf8(text).unwrap(), "PID\tPPID\tSTATE\tFDS\tCWD\n1\t0\tRUNNING\t0\t/\n4\t1\tREADY\t0\t/tmp\n");
}

#[test]
fn proc_processes_journal_snapshots() {
    let mut mon = SystemMetricsSnapshot::empty();
    mon.processes.push(ProcessMetric { pid: 1, ppid: 0, state: "RUNNING", open_fds: 3, cwd: v("/") });
    mon.processes.push(ProcessMetric { pid: 7, ppid: 1, state: "ZOMBIE", open_fds: 0, cwd: v("/tmp") });
    let ev = vec![
        AuditEvent { seq: 1, timestamp_ticks: 5, pid: 7, uid: 0, event_type: AUDIT_TYPE_FILE_CREATE, status: 0, target: v("/a"), details: v("made") },
        AuditEvent { seq: 2, timestamp_ticks: 6, pid: -1, uid: 0, event_type: 99, status: -2, target: v("t"), details: v("d") },
    ];
    let sn = vec![AuditSnapshot {
        id: 4, label: v("boot"), timestamp_ticks: 8, journal_seq: 2, total_memory_kb: 100,
        used_memory_kb: 50, heap_used_kb: 10, process_count: 2, processes: Vec::new(),
    }];
    assert_eq!(
        text(ProcKind::Processes, &mon, &ev, &sn),
        "PID\tPPID\tSTATE\tFDS\tCWD\n1\t0\tRUNNING\t3\t/\n7\t1\tZOMBIE\t0\t/tmp\n"
    );
    assert_eq!(
        text(ProcKind::AuditJournal, &mon, &ev, &sn),
        "SEQ\tTIME\tPID\tTYPE\tSTATUS\tTARGET\tDETAILS\n1\t5\t7\tFILE_CREATE\t0\t/a\tmade\n2\t6\t-1\tOTHER\t-2\tt\td\n"
    );
    assert_eq!(
        text(ProcKind::AuditSnapshots, &mon, &ev, &sn),
        "ID\tLABEL\tTIME\tJOURNAL_SEQ\tRAM_USED\tHEAP_USED\tPROCS\n4\tboot\t8\t2\t50 kB\t10 kB\t2\n"
    );
}

#[test]
fn proc_read_window_and_stat() {
    let f = ProcDynamicFile::new(ProcKind::Uptime);
    let content = v("12.00 12.00\n");
    let mut buf = vec![0u8; 4];
    assert_eq!(f.read(&content, 6, &mut buf), 4);
    assert_eq!(buf, v("12.0"));
    assert_eq!(f.read(&content, 12, &mut buf), 0);
    let st = f.stat(&content);
    assert_eq!((st.st_mode, st.st_size), (S_IFREG | 0o444, 12));
    assert_eq!(f.write(), Err(EPERM));
}

#[test]
fn device_nodes() {
    let mut buf = vec![5u8; 3];
    assert_eq!(DevNull.read(&mut buf), 0);
    assert_eq!(buf, vec![5, 5, 5]);
    assert_eq!(DevZero.read(&mut buf), 3);
    assert_eq!(buf, vec![0, 0, 0]);
    assert_eq!(DevNull.write(9), Ok(9));
    assert_eq!(DevConsole.stat().st_mode, S_IFCHR | 0o666);
    let mut port = SerialPort::new(0x3F8);
    assert_eq!(DevConsole.read(&mut buf, &mut port), ConsoleRead::Again);
    port.push_received(b'h');
    port.push_received(b'i');
    assert_eq!(DevConsole.read(&mut buf, &mut port), ConsoleRead::Done(2));
    assert_eq!(&buf[..2], b"hi");
    let mut empty: Vec<u8> = Vec::new();
    assert_eq!(DevConsole.read(&mut empty, &mut port), ConsoleRead::Done(0));
}

#[test]
fn pic_programming() {
    let w = pic_remap(0x20, 0x28);
    assert_eq!(w, vec![(0x20, 0x11), (0xA0, 0x11), (0x21, 0x20), (0xA1, 0x28), (0x21, 4), (0xA1, 2), (0x21, 1), (0xA1, 1)]);
    assert_eq!(pic_disable(), vec![(0x21, 0xFF), (0xA1, 0xFF)]);
    assert_eq!(irq_line(3), (0x21, 3));
    assert_eq!(irq_line(12), (0xA1, 4));
    assert_eq!(mask(0, 12), 0x10);
    assert_eq!(unmask(0xFF, 0), 0xFE);
    assert_eq!(send_eoi(9), vec![0xA0, 0x20]);
    assert_eq!(send_eoi(1), vec![0x20]);
    assert_eq!(irq_init_masks(), vec![(0x21, 0xFE), (0xA1, 0xFF)]);
}

fn put(v: &mut Vec<u8>, off: usize, val: u64, n: usize) {
    for i in 0..n {
        v[off + i] = (val >> (8 * i)) as u8;
    }
}

/// A minimal x86-64 executable: header, one loadable segment covering the
/// whole file (so the program headers are loaded too), and one note header.
fn tiny_elf() -> Vec<u8> {
    let mut e = vec![0u8; 64 + 2 * 56 + 16];
    e[0..4].copy_from_slice(&[0x7F, b'E', b'L', b'F']);
    e[4] = 2;
    e[5] = 1;
    e[6] = 1;
    put(&mut e, 16, 2, 2);
    put(&mut e, 18, 0x3E, 2);
    put(&mut e, 20, 1, 4);
    put(&mut e, 24, 0x401000, 8);
    put(&mut e, 32, 64, 8);
    put(&mut e, 54, 56, 2);
    put(&mut e, 56, 2, 2);
    // PT_LOAD, flags R+X, offset 0, vaddr 0x400000, filesz/memsz = file size
    let len = e.len() as u64;
    put(&mut e, 64, 1, 4);
    put(&mut e, 68, 5, 4);
    put(&mut e, 72, 0, 8);
    put(&mut e, 80, 0x400000, 8);
    put(&mut e, 96, len, 8);
    put(&mut e, 104, 0x2000, 8);
    // PT_NOTE
    put(&mut e, 120, 4, 4);
    e
}

#[test]
fn elf_plan_of_tiny_image() {
    let e = tiny_elf();
    let h = parse_elf_header(&e).unwrap();
    assert_eq!(h.e_entry, 0x401000);
    let plan = elf_load_plan(&e).unwrap();
    assert_eq!(plan.entry, 0x401000);
    assert_eq!(plan.phnum, 2);
    assert_eq!(plan.segments.len(), 1);
    assert_eq!(plan.segments[0].vaddr, 0x400000);
    assert_eq!(plan.segments[0].memsz, 0x2000);
    assert!(!plan.segments[0].flags.writable);
    assert!(!plan.segments[0].flags.no_exec);
    assert_eq!(plan.phdr_vaddr, 0x400040);
}

#[test]
fn elf_plan_errors() {
    let mut e = tiny_elf();
    e[0] = 0;
    assert_eq!(elf_load_plan(&e).err(), Some("Invalid ELF magic"));
    let mut e = tiny_elf();
    e.truncate(100);
    assert_eq!(elf_load_plan(&e).err(), Some("Program header out of bounds"));
    let mut e = tiny_elf();
    put(&mut e, 96, 10_000, 8);
    assert_eq!(elf_load_plan(&e).err(), Some("Segment data out of bounds in ELF file"));
    assert_eq!(elf_load_plan(&[0u8; 10]).err(), Some("ELF file too small for header"));
}

#[test]
fn user_stack_layout() {
    let argv = vec![v("sh"), v("-c")];
    let envp = vec![v("HOME=/")];
    let img = setup_user_stack(0x401000, 0x400040, 56, 2, &argv, &envp).unwrap();
    assert_eq!(img.rsp % 16, 0);
    assert!(img.rsp < USER_STACK_TOP);
    let (addr, bytes) = img.writes.last().unwrap();
    assert_eq!(*addr, img.rsp);
    assert_eq!(bytes, &2u64.to_le_bytes().to_vec());
    // The strings sit at the top of the stack, NUL-terminated: the
    // environment first, then the arguments.
    assert_eq!(img.writes[0], (USER_STACK_TOP - 7, v("HOME=/\0")));
    assert_eq!(img.writes[1], (USER_STACK_TOP - 10, v("sh\0")));
    assert_eq!(img.writes[2], (USER_STACK_TOP - 13, v("-c\0")));
    let word = |addr: u64| -> u64 {
        let (_, b) = img.writes.iter().find(|(a, _)| *a == addr).unwrap();
        u64::from_le_bytes(b[..8].try_into().unwrap())
    };
    assert_eq!(word(img.rsp), 2);
    assert_eq!(word(img.rsp + 8), USER_STACK_TOP - 10);
    assert_eq!(word(img.rsp + 16), USER_STACK_TOP - 13);
    assert_eq!(word(img.rsp + 24), 0);
    assert_eq!(word(img.rsp + 32), USER_STACK_TOP - 7);
    assert_eq!(word(img.rsp + 40), 0);
    // Auxiliary vector: page size, entry, program headers, entry size, count, end.
    assert_eq!((word(img.rsp + 48), word(img.rsp + 56)), (6, 4096));
    assert_eq!((word(img.rsp + 64), word(img.rsp + 72)), (9, 0x401000));
    assert_eq!((word(img.rsp + 80), word(img.rsp + 88)), (3, 0x400040));
    assert_eq!((word(img.rsp + 96), word(img.rsp + 104)), (4, 56));
    assert_eq!((word(img.rsp + 112), word(img.rsp + 120)), (5, 2));
    assert_eq!((word(img.rsp + 128), word(img.rsp + 136)), (0, 0));
    assert_eq!(img.writes.len(), 3 + 12 + 1 + 1 + 1 + 2 + 1);
}

#[test]
fn user_stack_too_many_strings() {
    let big = vec![vec![b'x'; 0x1_0000], vec![b'y'; 0x1_0000]];
    assert_eq!(setup_user_stack(0, 0, 56, 0, &Vec::new(), &big).err(), Some("Environment list exceeds user stack limit (E2BIG)"));
    assert_eq!(setup_user_stack(0, 0, 56, 0, &big, &Vec::new()).err(), Some("Argument list exceeds user stack limit (E2BIG)"));
}

#[test]
fn limine_requests_and_responses() {
    let mut h = LimineHhdmRequest::new();
    assert_eq!(h.id, [0xc7b1dd30df4c8b88, 0x0a82e883a194f07b, 0x48dcf1cb8ad2b852, 0x63984e959a98244b]);
    assert_eq!(LimineMemmapRequest::new().id[2], 0x67cf3d9d378a806f);
    assert_eq!(LimineModuleRequest::new().id[3], 0xca1c4f3bd1280cee);
    h.response = Some(LimineHhdmResponse { revision: 0, offset: 0xFFFF_8000_0000_0000 });
    assert_eq!(hhdm_offset(&h), 0xFFFF_8000_0000_0000);
    let mut f = LimineFramebufferRequest::new();
    assert!(first_framebuffer(&f).is_none());
    let fb = LimineFramebuffer {
        address: 0x1000, width: 640, height: 480, pitch: 2560, bpp: 32, memory_model: 1,
        red_mask_size: 8, red_mask_shift: 16, green_mask_size: 8, green_mask_shift: 8,
        blue_mask_size: 8, blue_mask_shift: 0,
    };
    f.response = Some(LimineFramebufferResponse { revision: 0, framebuffers: Vec::new() });
    assert!(first_framebuffer(&f).is_none());
    f.response = Some(LimineFramebufferResponse { revision: 0, framebuffers: vec![fb] });
    assert_eq!(first_framebuffer(&f).unwrap().width, 640);
}
