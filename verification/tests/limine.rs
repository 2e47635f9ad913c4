use core::mem::{size_of, size_of_val};
use ferric::api::{MemoryRegion, MemoryRegionKind};
use ferric::limine::{
    base_revision, collect, feature_id, BaseRevisionNotAccepted, BaseRevisionTag, Framebuffer, HhdmResponse,
    MemmapEntry, Request, BASE_REVISION_TAG_MAGIC_1, COMMON_MAGIC, FRAMEBUFFER_REQUEST_ID, HHDM_REQUEST_ID,
    MEMMAP_ACPI_NVS, MEMMAP_REQUEST_ID, MEMMAP_USABLE, MEMORY_MODEL_RGB, REQUESTED_BASE_REVISION,
    REQUESTS_END_MARKER, REQUESTS_START_MARKER,
};

#[test]
fn marker_sizes_match_specification() {
    assert_eq!(size_of_val(&REQUESTS_START_MARKER), 32);
    assert_eq!(size_of_val(&REQUESTS_END_MARKER), 16);
    assert_eq!(size_of::<BaseRevisionTag>(), 24);
}

#[test]
fn request_ids_are_distinct_and_magic_prefixed() {
    let ids = [HHDM_REQUEST_ID, FRAMEBUFFER_REQUEST_ID, MEMMAP_REQUEST_ID];
    for id in ids {
        assert_eq!(&id[..2], &COMMON_MAGIC);
    }
    for i in 0..ids.len() {
        for j in (i + 1)..ids.len() {
            assert_ne!(&ids[i][2..], &ids[j][2..]);
        }
    }
}

#[test]
fn feature_ids_start_with_the_common_magic() {
    let id = feature_id(1, 2);
    assert_eq!(&id[..2], &COMMON_MAGIC);
    assert_eq!(&id[2..], &[1, 2]);
    let r = Request::new(HHDM_REQUEST_ID);
    assert_eq!(r.id, HHDM_REQUEST_ID);
    assert_eq!(r.revision, 0);
}

#[test]
fn base_revision_is_negotiated_from_the_tag() {
    let pending = BaseRevisionTag::requested();
    assert_eq!(base_revision(&pending), Err(BaseRevisionNotAccepted));
    let accepted = BaseRevisionTag { requested_revision: 0, ..pending };
    assert_eq!(base_revision(&accepted), Ok(REQUESTED_BASE_REVISION));
    let downgraded = BaseRevisionTag { requested_revision: 0, magic1: 3, ..pending };
    assert_eq!(base_revision(&downgraded), Ok(3));
    assert_eq!(accepted.magic1, BASE_REVISION_TAG_MAGIC_1);
}

fn sample_fb(memory_model: u8) -> Framebuffer {
    Framebuffer {
        address: 0xfd00_0000,
        width: 640,
        height: 480,
        pitch: 2560,
        bpp: 32,
        memory_model,
        red_mask_size: 8,
        red_mask_shift: 16,
        green_mask_size: 8,
        green_mask_shift: 8,
        blue_mask_size: 8,
        blue_mask_shift: 0,
        edid_size: 0,
        edid: 0,
        mode_count: 0,
        modes: 0,
    }
}

#[test]
fn collect_needs_revision_hhdm_and_memmap() {
    let accepted = BaseRevisionTag { requested_revision: 0, ..BaseRevisionTag::requested() };
    let hhdm = HhdmResponse { revision: 0, offset: 0xffff_8000_0000_0000 };
    let entries = vec![MemmapEntry { base: 0x1000, length: 0x9000, entry_type: MEMMAP_USABLE }];

    let info = collect(&accepted, Some(hhdm), Some(entries.clone()), None).expect("complete answers");
    assert_eq!(info.base_revision, REQUESTED_BASE_REVISION);
    assert_eq!(info.hhdm_offset, 0xffff_8000_0000_0000);
    assert_eq!(info.memmap, entries);
    assert!(info.framebuffers.is_empty());

    let with_fb = collect(&accepted, Some(hhdm), Some(entries.clone()), Some(vec![sample_fb(MEMORY_MODEL_RGB)]))
        .expect("complete answers");
    assert_eq!(with_fb.framebuffers.len(), 1);
    assert!(with_fb.framebuffers[0].is_rgb());
    assert_eq!(with_fb.framebuffers[0].address(), 0xfd00_0000);

    assert!(collect(&BaseRevisionTag::requested(), Some(hhdm), Some(entries.clone()), None).is_none());
    assert!(collect(&accepted, None, Some(entries), None).is_none());
    assert!(collect(&accepted, Some(hhdm), None, None).is_none());
}

#[test]
fn memmap_entries_become_typed_regions() {
    let e = MemmapEntry { base: 0x1000, length: 0x2000, entry_type: MEMMAP_ACPI_NVS };
    assert_eq!(e.to_region(), MemoryRegion::new(0x1000, 0x2000, MemoryRegionKind::AcpiNvs));
    let odd = MemmapEntry { base: 0, length: 1, entry_type: 42 };
    assert_eq!(odd.to_region().kind, MemoryRegionKind::Unknown(42));
    assert!(!sample_fb(0).is_rgb());
}
