use ferric::heap::{align_up, best_heap_region, Heap, HEADER_GAP, HEADER_SIZE, MIN_BLOCK};
use ferric::limine::{MemmapEntry, MEMMAP_RESERVED, MEMMAP_USABLE};

const REGION_BASE: usize = 0x10_0000;

fn heap_pair(bytes: usize) -> Heap {
    let words = bytes.div_ceil(8).max(1);
    let mut heap = Heap::new();
    let ok = heap.init(REGION_BASE, words * 8);
    assert!(ok, "test region must be large enough");
    heap
}

fn block_bounds(heap: &Heap, payload: usize) -> (usize, usize, usize) {
    let b = heap.block_of(payload).expect("payload must be outstanding");
    (payload, b.addr, b.addr + b.size)
}

fn assert_free_list_shape(heap: &Heap) {
    let start = heap.start();
    let end = heap.end();
    let mut nodes: Vec<(usize, usize)> = Vec::new();
    for b in heap.free_blocks() {
        assert!(b.size >= HEADER_SIZE + HEADER_GAP, "node size {} at {:#x}", b.size, b.addr);
        assert!(b.addr % 8 == 0, "node {:#x} not 8-aligned", b.addr);
        assert!(b.addr >= start && b.addr + b.size <= end, "node outside heap");
        nodes.push((b.addr, b.size));
    }
    nodes.sort_unstable_by_key(|&(addr, _)| addr);
    for pair in nodes.windows(2) {
        let (a_addr, a_size) = pair[0];
        let (b_addr, _) = pair[1];
        assert!(a_addr + a_size <= b_addr, "free nodes overlap");
    }
}

#[test]
fn init_rejects_tiny_or_misaligned_regions() {
    let mut heap = Heap::new();
    assert!(!heap.init(REGION_BASE, MIN_BLOCK - 1));
    assert!(!heap.init(usize::MAX - 7, MIN_BLOCK));
}

#[test]
fn first_fit_reuses_an_earlier_freed_block() {
    let mut heap = heap_pair(4096);
    let a = heap.allocate(8, 8);
    assert!(a.is_some());
    let b = heap.allocate(8, 8);
    assert!(b.is_some());
    assert_ne!(a, b);

    heap.dealloc(a.unwrap());
    let c = heap.allocate(8, 8);
    assert_eq!(c, a, "first-fit must return the head free block");
    assert_ne!(c, b);
}

#[test]
fn alignment_is_honored() {
    let mut heap = heap_pair(1024 * 1024);
    for align in [1usize, 2, 4, 8, 16, 64, 256, 4096] {
        let p = heap.allocate(align, align);
        assert!(p.is_some(), "align {align}");
        assert_eq!(p.unwrap() % align, 0, "align {align}");
        heap.dealloc(p.unwrap());
        assert_eq!(heap.free_bytes(), 1024 * 1024, "align {align} must return every byte");
    }
}

#[test]
fn adjacent_frees_coalesce_into_one_block() {
    let mut heap = heap_pair(4096);
    let a = heap.allocate(8, 8);
    let b = heap.allocate(8, 8);
    assert!(a.is_some() && b.is_some());

    heap.dealloc(a.unwrap());
    heap.dealloc(b.unwrap());

    let big = heap.allocate(0x40, 8);
    assert!(big.is_some(), "coalesced blocks must satisfy a big request");
    heap.dealloc(big.unwrap());
    assert_eq!(heap.free_bytes(), 4096, "all space must be back");
}

#[test]
fn exhaustion_returns_null_and_the_heap_heals() {
    let mut heap = heap_pair(MIN_BLOCK * 2);
    let a = heap.allocate(0x40, 8);
    assert!(a.is_some());
    let b = heap.allocate(0x40, 8);
    assert!(b.is_none(), "exhausted heap must yield null (OOM abort trigger)");

    heap.dealloc(a.unwrap());
    let c = heap.allocate(0x40, 8);
    assert_eq!(c, a, "freed block must satisfy the same request again");
}

#[test]
fn zero_sized_allocations_are_distinct_and_reusable() {
    let mut heap = heap_pair(4096);
    let a = heap.allocate(0, 8).unwrap();
    let b = heap.allocate(0, 8).unwrap();
    assert_ne!(a, b);
    assert!(a % 8 == 0 && b % 8 == 0);

    heap.dealloc(a);
    heap.dealloc(b);
    assert_eq!(heap.free_bytes(), 4096);
}

#[test]
fn free_list_never_gains_or_loses_bytes_under_random_workload() {
    const REGION: usize = 1 << 20;
    const OPS: usize = 2000;
    let mut heap = heap_pair(REGION);
    let mut live: Vec<(usize, usize, usize, usize)> = Vec::new();
    let mut seed = 0x1234_5678u64;

    let mut next = move || {
        seed ^= seed << 13;
        seed ^= seed >> 7;
        seed ^= seed << 17;
        seed
    };

    for _ in 0..OPS {
        for &(payload, _, expect_begin, expect_end) in &live {
            let (_, begin, end) = block_bounds(&heap, payload);
            assert_eq!((begin, end), (expect_begin, expect_end), "live block header corrupted by a previous dealloc");
        }
        if (next() & 1) == 0 || live.is_empty() {
            let size = (next() as usize % 512) + 1;
            let align = 1usize << (next() % 9);
            if let Some(payload) = heap.allocate(size, align) {
                assert_eq!(payload % align, 0);
                let (payload, block_addr, block_end) = block_bounds(&heap, payload);
                assert!(
                    block_addr < block_end,
                    "payload 0x{payload:x} -> empty block [{block_addr:#x}, {block_end:#x})"
                );
                for &(_, _, other_begin, other_end) in &live {
                    let separate = block_end <= other_begin || other_end <= block_addr;
                    assert!(separate, "blocks must never overlap");
                }
                live.push((payload, payload + size, block_addr, block_end));
            }
            assert_free_list_shape(&heap);
        } else {
            let i = (next() as usize) % live.len();
            let (payload, payload_end, _, _) = live.swap_remove(i);
            assert!(payload < payload_end);
            heap.dealloc(payload);
            assert_free_list_shape(&heap);
        }
    }
    for (payload, _, _, _) in live {
        heap.dealloc(payload);
    }
    assert_eq!(heap.free_bytes(), REGION, "bytes must be conserved");
}

#[test]
fn init_trims_the_region_to_eight_byte_boundaries() {
    let mut heap = Heap::new();
    assert!(heap.init(REGION_BASE + 3, 100));
    assert_eq!(heap.start(), REGION_BASE + 8);
    assert_eq!(heap.end(), REGION_BASE + 104);
    assert_eq!(heap.free_bytes(), 96);
}

#[test]
fn null_dealloc_is_ignored() {
    let mut heap = heap_pair(4096);
    heap.dealloc(0);
    assert_eq!(heap.free_bytes(), 4096);
}

#[test]
fn align_up_rounds_to_the_next_multiple() {
    assert_eq!(align_up(0, 8), 0);
    assert_eq!(align_up(1, 8), 8);
    assert_eq!(align_up(16, 16), 16);
    assert_eq!(align_up(17, 16), 32);
}

#[test]
fn heap_goes_into_the_largest_usable_region() {
    let entries = [
        MemmapEntry { base: 0x1000, length: 0x9000, entry_type: MEMMAP_USABLE },
        MemmapEntry { base: 0x10_0000, length: 0x100_0000, entry_type: MEMMAP_RESERVED },
        MemmapEntry { base: 0x20_0000, length: 0x80_0000, entry_type: MEMMAP_USABLE },
        MemmapEntry { base: 0x90_0000, length: 0x80_0000, entry_type: MEMMAP_USABLE },
    ];
    assert_eq!(best_heap_region(&entries, 0xffff_8000_0000_0000), Some((0xffff_8000_0020_0000, 0x80_0000)));
    assert_eq!(best_heap_region(&entries[1..2], 0), None);
    assert_eq!(best_heap_region(&[], 0), None);
}
