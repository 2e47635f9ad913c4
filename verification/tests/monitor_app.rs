use ferric::api::MemoryRegionKind;
use ferric::limine::{MemmapEntry, MEMMAP_RESERVED, MEMMAP_USABLE};
use ferric::monitor_app::{monitor_texts, region_texts, ArchMonitor, MonitorLoop, VISIBLE_REGIONS};

fn entries() -> Vec<MemmapEntry> {
    vec![
        MemmapEntry { base: 0x1000, length: 0x9_f000, entry_type: MEMMAP_USABLE },
        MemmapEntry { base: 0xf_0000, length: 0x1_0000, entry_type: MEMMAP_RESERVED },
    ]
}

#[test]
fn sample_carries_the_memory_map_and_counters() {
    let e = entries();
    let s = ArchMonitor.sample(Some(&e), 3_500_000_000, 40, 10);
    assert_eq!(s.uptime_ns, 3_500_000_000);
    assert_eq!(s.total_ticks, 40);
    assert_eq!(s.idle_ticks, 10);
    assert_eq!(s.memory_region_count, 2);
    assert_eq!(s.memory_regions[0].kind, MemoryRegionKind::Usable);
    assert_eq!(s.memory_regions[1].base, 0xf_0000);
    assert_eq!(s.memory_regions[2].length, 0);

    let none = ArchMonitor.sample(None, 0, 0, 0);
    assert_eq!(none.memory_region_count, 0);
}

#[test]
fn loop_refreshes_once_per_uptime_second() {
    let e = entries();
    let mut m = MonitorLoop::new();
    let first = m.step(ArchMonitor.sample(Some(&e), 1_200_000_000, 10, 5));
    assert!(first.is_some());
    assert!(m.step(ArchMonitor.sample(Some(&e), 1_900_000_000, 12, 6)).is_none());
    let next = m.step(ArchMonitor.sample(Some(&e), 2_000_000_000, 20, 15)).expect("a new second");
    assert_eq!(next.uptime_seconds, 2);
    assert_eq!(next.delta_ticks, 8);
}

#[test]
fn texts_describe_every_visible_row() {
    let e = entries();
    let mut m = MonitorLoop::new();
    let info = m.step(ArchMonitor.sample(Some(&e), 3_661_000_000_000, 10, 5)).unwrap();
    let t = monitor_texts(&info, "x86_64");
    assert_eq!(t.uptime, "01:01:01");
    assert_eq!(t.cpu, "0%");
    assert_eq!(t.arch, "x86_64");
    assert_eq!(t.region_count, "2 regions");
    assert_eq!(t.region_kinds.len(), VISIBLE_REGIONS);
    assert_eq!(t.region_kinds[0], "usable");
    assert_eq!(t.region_ranges[1], "0x00000000000f0000..0x0000000000100000");
    assert_eq!(t.region_sizes[1], "64.0 KiB");
    assert_eq!(t.region_kinds[2], "");
    assert_eq!(t.region_sizes[2], "-");

    let (kind, range, size) = region_texts(&info.regions[0]);
    assert_eq!(kind, "usable");
    assert_eq!(range, "0x0000000000001000..0x00000000000a0000");
    assert_eq!(size, "636.0 KiB");
}
