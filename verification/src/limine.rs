//! The Limine boot protocol's data as plain values: framebuffer and memory
//! map descriptions, and base-revision negotiation.
use vstd::prelude::*;
use crate::api::{MemoryRegion, MemoryRegionKind};

verus! {

/// Base revision requested from the loader.
pub const REQUESTED_BASE_REVISION: u64 = 4;

/// `LIMINE_BASE_REVISION(N)` tag magic.
pub const BASE_REVISION_TAG_MAGIC_0: u64 = 0xf9562b2d5c95a6c8;
pub const BASE_REVISION_TAG_MAGIC_1: u64 = 0x6a7b384944536bdc;

/// `LIMINE_COMMON_MAGIC`.
pub const COMMON_MAGIC_0: u64 = 0xc7b1dd30df4c8b88;
pub const COMMON_MAGIC_1: u64 = 0x0a82e883a194f07b;

/// `LIMINE_FRAMEBUFFER_RGB`: linear RGB memory model.
pub const MEMORY_MODEL_RGB: u8 = 1;

/// `LIMINE_MEMMAP_*` region types.
pub const MEMMAP_USABLE: u64 = 0;
pub const MEMMAP_RESERVED: u64 = 1;
pub const MEMMAP_ACPI_RECLAIMABLE: u64 = 2;
pub const MEMMAP_ACPI_NVS: u64 = 3;
pub const MEMMAP_BAD_MEMORY: u64 = 4;
pub const MEMMAP_BOOTLOADER_RECLAIMABLE: u64 = 5;
pub const MEMMAP_EXECUTABLE_AND_MODULES: u64 = 6;
pub const MEMMAP_FRAMEBUFFER: u64 = 7;
pub const MEMMAP_RESERVED_MAPPED: u64 = 8;

/// `struct limine_hhdm_response`.
#[derive(Clone, Copy, Debug, PartialEq, Eq, Structural)]
pub struct HhdmResponse {
    pub revision: u64,
    /// Virtual offset of the direct map: virtual - offset = physical.
    pub offset: u64,
}

/// `struct limine_framebuffer`, with its pointers as plain addresses.
#[derive(Clone, Copy, Debug, PartialEq, Eq, Structural)]
pub struct Framebuffer {
    pub address: usize,
    pub width: u64,
    pub height: u64,
    /// Bytes per scanline.
    pub pitch: u64,
    pub bpp: u16,
    pub memory_model: u8,
    pub red_mask_size: u8,
    pub red_mask_shift: u8,
    pub green_mask_size: u8,
    pub green_mask_shift: u8,
    pub blue_mask_size: u8,
    pub blue_mask_shift: u8,
    /// EDID length, or 0.
    pub edid_size: u64,
    pub edid: usize,
    pub mode_count: u64,
    pub modes: usize,
}

impl Framebuffer {
    /// Byte address of the framebuffer surface.
    pub fn address(&self) -> (a: usize)
        ensures
            a == self.address,
    {
        self.address
    }

    /// Whether the surface uses the linear RGB memory model.
    pub fn is_rgb(&self) -> (b: bool)
        ensures
            b == (self.memory_model == MEMORY_MODEL_RGB),
    {
        self.memory_model == MEMORY_MODEL_RGB
    }
}

/// `struct limine_video_mode`.
#[derive(Clone, Copy, Debug, PartialEq, Eq, Structural)]
pub struct VideoMode {
    pub pitch: u64,
    pub width: u64,
    pub height: u64,
    pub bpp: u16,
    pub memory_model: u8,
    pub red_mask_size: u8,
    pub red_mask_shift: u8,
    pub green_mask_size: u8,
    pub green_mask_shift: u8,
    pub blue_mask_size: u8,
    pub blue_mask_shift: u8,
}

/// `struct limine_memmap_entry`.
#[derive(Clone, Copy, Debug, PartialEq, Eq, Structural)]
pub struct MemmapEntry {
    /// Physical start address.
    pub base: u64,
    /// Length in bytes.
    pub length: u64,
    /// `type` in the C struct.
    pub entry_type: u64,
}

/// The region kind a memory-map type code stands for.
pub open spec fn region_kind_spec(code: u64) -> MemoryRegionKind {
    if code == MEMMAP_USABLE {
        MemoryRegionKind::Usable
    } else if code == MEMMAP_RESERVED {
        MemoryRegionKind::Reserved
    } else if code == MEMMAP_ACPI_RECLAIMABLE {
        MemoryRegionKind::AcpiReclaimable
    } else if code == MEMMAP_ACPI_NVS {
        MemoryRegionKind::AcpiNvs
    } else if code == MEMMAP_BAD_MEMORY {
        MemoryRegionKind::BadMemory
    } else if code == MEMMAP_BOOTLOADER_RECLAIMABLE {
        MemoryRegionKind::BootloaderReclaimable
    } else if code == MEMMAP_EXECUTABLE_AND_MODULES {
        MemoryRegionKind::ExecutableAndModules
    } else if code == MEMMAP_FRAMEBUFFER {
        MemoryRegionKind::Framebuffer
    } else if code == MEMMAP_RESERVED_MAPPED {
        MemoryRegionKind::ReservedMapped
    } else {
        MemoryRegionKind::Unknown(code)
    }
}

impl MemmapEntry {
    /// The entry as a memory region of the matching kind.
    pub fn to_region(&self) -> (r: MemoryRegion)
        ensures
            r == (MemoryRegion {
                base: self.base,
                length: self.length,
                kind: region_kind_spec(self.entry_type),
            }),
    {
        let kind = if self.entry_type == MEMMAP_USABLE {
            MemoryRegionKind::Usable
        } else if self.entry_type == MEMMAP_RESERVED {
            MemoryRegionKind::Reserved
        } else if self.entry_type == MEMMAP_ACPI_RECLAIMABLE {
            MemoryRegionKind::AcpiReclaimable
        } else if self.entry_type == MEMMAP_ACPI_NVS {
            MemoryRegionKind::AcpiNvs
        } else if self.entry_type == MEMMAP_BAD_MEMORY {
            MemoryRegionKind::BadMemory
        } else if self.entry_type == MEMMAP_BOOTLOADER_RECLAIMABLE {
            MemoryRegionKind::BootloaderReclaimable
        } else if self.entry_type == MEMMAP_EXECUTABLE_AND_MODULES {
            MemoryRegionKind::ExecutableAndModules
        } else if self.entry_type == MEMMAP_FRAMEBUFFER {
            MemoryRegionKind::Framebuffer
        } else if self.entry_type == MEMMAP_RESERVED_MAPPED {
            MemoryRegionKind::ReservedMapped
        } else {
            MemoryRegionKind::Unknown(self.entry_type)
        };
        MemoryRegion { base: self.base, length: self.length, kind }
    }
}

/// The `LIMINE_BASE_REVISION(N)` tag as the loader left it: the requested
/// revision becomes 0 when accepted, and `magic1` is rewritten with the
/// revision actually used when it differs from the request.
#[derive(Clone, Copy, Debug, PartialEq, Eq, Structural)]
pub struct BaseRevisionTag {
    pub magic0: u64,
    pub magic1: u64,
    pub requested_revision: u64,
}

impl BaseRevisionTag {
    /// The tag as placed in the image before the loader runs.
    pub fn requested() -> (t: Self)
        ensures
            t == (BaseRevisionTag {
                magic0: BASE_REVISION_TAG_MAGIC_0,
                magic1: BASE_REVISION_TAG_MAGIC_1,
                requested_revision: REQUESTED_BASE_REVISION,
            }),
    {
        BaseRevisionTag {
            magic0: BASE_REVISION_TAG_MAGIC_0,
            magic1: BASE_REVISION_TAG_MAGIC_1,
            requested_revision: REQUESTED_BASE_REVISION,
        }
    }
}

/// The loader did not accept the requested base revision.
#[derive(Clone, Copy, Debug, PartialEq, Eq, Structural)]
pub struct BaseRevisionNotAccepted;

/// The negotiated base revision read from `tag`: refused while the request
/// is still pending, the requested revision when `magic1` is untouched,
/// else the revision the loader wrote into `magic1`.
pub open spec fn base_revision_spec(tag: BaseRevisionTag) -> Result<u64, BaseRevisionNotAccepted> {
    if tag.requested_revision != 0 {
        Err(BaseRevisionNotAccepted)
    } else if tag.magic1 == BASE_REVISION_TAG_MAGIC_1 {
        Ok(REQUESTED_BASE_REVISION)
    } else {
        Ok(tag.magic1)
    }
}

/// Negotiated protocol base revision, or [`BaseRevisionNotAccepted`].
pub fn base_revision(tag: &BaseRevisionTag) -> (r: Result<u64, BaseRevisionNotAccepted>)
    ensures
        r == base_revision_spec(*tag),
{
    if tag.requested_revision != 0 {
        return Err(BaseRevisionNotAccepted);
    }
    if tag.magic1 == BASE_REVISION_TAG_MAGIC_1 {
        Ok(REQUESTED_BASE_REVISION)
    } else {
        Ok(tag.magic1)
    }
}

/// The feature-request id `[COMMON_MAGIC, a, b]`.
pub fn feature_id(a: u64, b: u64) -> (id: [u64; 4])
    ensures
        id@ == seq![COMMON_MAGIC_0, COMMON_MAGIC_1, a, b],
{
    let id = [COMMON_MAGIC_0, COMMON_MAGIC_1, a, b];
    assert(id@ =~= seq![COMMON_MAGIC_0, COMMON_MAGIC_1, a, b]);
    id
}

/// `LIMINE_REQUESTS_START_MARKER`.
pub const REQUESTS_START_MARKER: [u64; 4] = [
    0xf6b8f4b39de7d1ae,
    0xfab91a6940fcb9cf,
    0x785c6ed015d3e316,
    0x181e920a7852b9d9,
];

/// `LIMINE_REQUESTS_END_MARKER`.
pub const REQUESTS_END_MARKER: [u64; 2] = [0xadc0e0531bb10d03, 0x9572709f31764c62];

/// `LIMINE_COMMON_MAGIC`.
pub const COMMON_MAGIC: [u64; 2] = [COMMON_MAGIC_0, COMMON_MAGIC_1];

/// `LIMINE_HHDM_REQUEST_ID`.
pub const HHDM_REQUEST_ID: [u64; 4] = [
    COMMON_MAGIC_0,
    COMMON_MAGIC_1,
    0x48dcf1cb8ad2b852,
    0x63984e959a98244b,
];

/// `LIMINE_FRAMEBUFFER_REQUEST_ID`.
pub const FRAMEBUFFER_REQUEST_ID: [u64; 4] = [
    COMMON_MAGIC_0,
    COMMON_MAGIC_1,
    0x9d5827dcd881dd75,
    0xa3148604f6fab11b,
];

/// `LIMINE_MEMMAP_REQUEST_ID`.
pub const MEMMAP_REQUEST_ID: [u64; 4] = [
    COMMON_MAGIC_0,
    COMMON_MAGIC_1,
    0x67cf3d9d378a806f,
    0xe304acdfc50c3c62,
];

/// A feature request's header: its id and the revision asked for; the
/// loader answers through the response pointer that follows it.
#[derive(Clone, Copy, Debug, PartialEq, Eq)]
pub struct Request {
    pub id: [u64; 4],
    pub revision: u64,
}

impl Request {
    /// A revision-0 request for feature `id`.
    pub fn new(id: [u64; 4]) -> (r: Self)
        ensures
            r.id == id && r.revision == 0,
    {
        Request { id, revision: 0 }
    }
}

/// `struct limine_framebuffer_response`, without its pointer array.
#[derive(Clone, Copy, Debug, PartialEq, Eq, Structural)]
pub struct FramebufferResponse {
    pub revision: u64,
    pub framebuffer_count: u64,
}

/// `struct limine_memmap_response`, without its pointer array.
#[derive(Clone, Copy, Debug, PartialEq, Eq, Structural)]
pub struct MemmapResponse {
    pub revision: u64,
    pub entry_count: u64,
}

/// Validated snapshot of everything the loader handed over.
pub struct BootInfo {
    pub base_revision: u64,
    pub hhdm_offset: u64,
    pub memmap: Vec<MemmapEntry>,
    /// Empty if none were provided.
    pub framebuffers: Vec<Framebuffer>,
}

/// Collects the boot-time answers: `None` when the environment misses the
/// minimum (base revision refused, HHDM or memory map unanswered); the
/// framebuffers are optional.
pub fn collect(
    tag: &BaseRevisionTag,
    hhdm: Option<HhdmResponse>,
    memmap: Option<Vec<MemmapEntry>>,
    framebuffers: Option<Vec<Framebuffer>>,
) -> (info: Option<BootInfo>)
    ensures
        info is Some <==> (base_revision_spec(*tag) is Ok && hhdm is Some && memmap is Some),
        info matches Some(i) ==> ({
            &&& base_revision_spec(*tag) == Ok::<u64, BaseRevisionNotAccepted>(i.base_revision)
            &&& i.hhdm_offset == hhdm.unwrap().offset
            &&& i.memmap@ == memmap.unwrap()@
            &&& i.framebuffers@ == match framebuffers {
                Some(f) => f@,
                None => Seq::<Framebuffer>::empty(),
            }
        }),
{
    let base_revision = match base_revision(tag) {
        Ok(rev) => rev,
        Err(_) => {
            return None;
        },
    };
    let hhdm = match hhdm {
        Some(h) => h,
        None => {
            return None;
        },
    };
    let memmap = match memmap {
        Some(m) => m,
        None => {
            return None;
        },
    };
    let framebuffers = match framebuffers {
        Some(f) => f,
        None => Vec::new(),
    };
    Some(BootInfo { base_revision, hhdm_offset: hhdm.offset, memmap, framebuffers })
}

} // verus!
