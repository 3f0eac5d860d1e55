//! Limine boot protocol records that carry plain values.

use vstd::prelude::*;

verus! {

/// Memory map entry type: usable RAM.
pub const LIMINE_MEMMAP_USABLE: u64 = 0;
/// Memory map entry type: reserved.
pub const LIMINE_MEMMAP_RESERVED: u64 = 1;
/// Memory map entry type: ACPI reclaimable.
pub const LIMINE_MEMMAP_ACPI_RECLAIMABLE: u64 = 2;
/// Memory map entry type: ACPI non-volatile storage.
pub const LIMINE_MEMMAP_ACPI_NVS: u64 = 3;
/// Memory map entry type: defective memory.
pub const LIMINE_MEMMAP_BAD_MEMORY: u64 = 4;
/// Memory map entry type: bootloader reclaimable.
pub const LIMINE_MEMMAP_BOOTLOADER_RECLAIMABLE: u64 = 5;
/// Memory map entry type: kernel image and modules.
pub const LIMINE_MEMMAP_KERNEL_AND_MODULES: u64 = 6;
/// Memory map entry type: framebuffer.
pub const LIMINE_MEMMAP_FRAMEBUFFER: u64 = 7;

/// Marker opening the requests section.
#[derive(Debug, Clone, Copy)]
pub struct LimineRequestsStartMarker {
    pub id: [u64; 4],
}

/// Marker closing the requests section.
#[derive(Debug, Clone, Copy)]
pub struct LimineRequestsEndMarker {
    pub id: [u64; 2],
}

/// The base protocol revision the kernel asks for.
#[derive(Debug, Clone, Copy)]
pub struct LimineBaseRevision {
    pub id: [u64; 2],
    pub revision: u64,
}

/// The higher-half direct map response.
#[derive(Debug, Clone, Copy)]
pub struct LimineHhdmResponse {
    pub revision: u64,
    /// Virtual offset of the direct map of physical memory.
    pub offset: u64,
}

/// One physical memory map range.
#[derive(Debug, Clone, Copy)]
pub struct LimineMemmapEntry {
    pub base: u64,
    pub length: u64,
    /// One of the `LIMINE_MEMMAP_*` types.
    pub typ: u64,
}

/// The two words every Limine request identifier starts with.
pub open spec fn spec_common_magic() -> (u64, u64) {
    (0xc7b1dd30df4c8b88u64, 0x0a82e883a194f07bu64)
}

/// A request identifier: the common magic, then the feature's two words.
pub open spec fn request_id(a: u64, b: u64) -> [u64; 4] {
    [spec_common_magic().0, spec_common_magic().1, a, b]
}

fn make_id(a: u64, b: u64) -> (r: [u64; 4])
    ensures
        r == request_id(a, b),
{
    [0xc7b1dd30df4c8b88u64, 0x0a82e883a194f07bu64, a, b]
}

/// The higher-half direct map request; `response` is what the bootloader
/// filled in, if anything.
pub struct LimineHhdmRequest {
    pub id: [u64; 4],
    pub revision: u64,
    pub response: Option<LimineHhdmResponse>,
}

/// The physical memory map, one entry per range, in the bootloader's order.
pub struct LimineMemmapResponse {
    pub revision: u64,
    pub entries: Vec<LimineMemmapEntry>,
}

/// The physical memory map request.
pub struct LimineMemmapRequest {
    pub id: [u64; 4],
    pub revision: u64,
    pub response: Option<LimineMemmapResponse>,
}

/// The framebuffers the bootloader found.
pub struct LimineFramebufferResponse {
    pub revision: u64,
    pub framebuffers: Vec<crate::drivers::framebuffer::LimineFramebuffer>,
}

/// The framebuffer request.
pub struct LimineFramebufferRequest {
    pub id: [u64; 4],
    pub revision: u64,
    pub response: Option<LimineFramebufferResponse>,
}

/// A file the bootloader loaded: where its bytes are, its size, path and
/// command line (as bytes, without their NUL), and where it came from.
pub struct LimineFile {
    pub revision: u64,
    /// Address of the payload, 0 when there is none.
    pub address: usize,
    pub size: u64,
    pub path: Vec<u8>,
    pub cmdline: Vec<u8>,
    pub media_type: u32,
    pub unused: u32,
    pub tftp_ip: u32,
    pub tftp_port: u32,
    pub partition_index: u32,
    pub mbr_disk_id: u32,
    pub gpt_disk_uuid: [u8; 16],
    pub gpt_part_uuid: [u8; 16],
    pub part_uuid: [u8; 16],
}

/// The modules the bootloader loaded, in order.
pub struct LimineModuleResponse {
    pub revision: u64,
    pub modules: Vec<LimineFile>,
}

/// The module request.
pub struct LimineModuleRequest {
    pub id: [u64; 4],
    pub revision: u64,
    pub response: Option<LimineModuleResponse>,
}

impl LimineHhdmRequest {
    /// The request as the kernel image declares it: revision 0, unanswered.
    pub fn new() -> (r: Self)
        ensures
            r.id == request_id(0x48dcf1cb8ad2b852, 0x63984e959a98244b),
            r.revision == 0,
            r.response is None,
    {
        LimineHhdmRequest { id: make_id(0x48dcf1cb8ad2b852, 0x63984e959a98244b), revision: 0, response: None }
    }
}

impl LimineMemmapRequest {
    /// The request as the kernel image declares it: revision 0, unanswered.
    pub fn new() -> (r: Self)
        ensures
            r.id == request_id(0x67cf3d9d378a806f, 0xe304acdfc50c3c62),
            r.revision == 0,
            r.response is None,
    {
        LimineMemmapRequest { id: make_id(0x67cf3d9d378a806f, 0xe304acdfc50c3c62), revision: 0, response: None }
    }
}

impl LimineFramebufferRequest {
    /// The request as the kernel image declares it: revision 0, unanswered.
    pub fn new() -> (r: Self)
        ensures
            r.id == request_id(0x9d5827dcd881dd75, 0xa3148604f6fab11b),
            r.revision == 0,
            r.response is None,
    {
        LimineFramebufferRequest { id: make_id(0x9d5827dcd881dd75, 0xa3148604f6fab11b), revision: 0, response: None }
    }
}

impl LimineModuleRequest {
    /// The request as the kernel image declares it: revision 0, unanswered.
    pub fn new() -> (r: Self)
        ensures
            r.id == request_id(0x3e7e279702be32af, 0xca1c4f3bd1280cee),
            r.revision == 0,
            r.response is None,
    {
        LimineModuleRequest { id: make_id(0x3e7e279702be32af, 0xca1c4f3bd1280cee), revision: 0, response: None }
    }
}

/// The offset of the higher-half direct map; the bootloader must have
/// answered the request (the kernel cannot run without it).
pub fn hhdm_offset(req: &LimineHhdmRequest) -> (r: usize)
    requires
        req.response is Some,
    ensures
        r == req.response.unwrap().offset as usize,
{
    match &req.response {
        Some(resp) => resp.offset as usize,
        None => 0,
    }
}

/// The framebuffer the console uses: the first one reported, if the
/// bootloader answered with any.
pub fn first_framebuffer(req: &LimineFramebufferRequest) -> (r: Option<crate::drivers::framebuffer::LimineFramebuffer>)
    ensures
        match req.response {
            Some(resp) => if resp.framebuffers@.len() > 0 { r == Some(resp.framebuffers@[0]) } else { r is None },
            None => r is None,
        },
{
    match &req.response {
        Some(resp) => if resp.framebuffers.len() > 0 { Some(resp.framebuffers[0]) } else { None },
        None => None,
    }
}

} // verus!
