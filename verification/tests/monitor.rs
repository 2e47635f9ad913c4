use ferric::api::{MemoryRegion, MemoryRegionKind, MonitorSample, MAX_MEMORY_REGIONS};
use ferric::monitor::{
    cpu_load_percent, format_address, format_size, format_uptime, kind_name, MonitorModel,
    ADDRESS_TEXT_LEN, GIB, KIB, MIB, SIZE_TEXT_LEN, UPTIME_TEXT_LEN,
};

fn sample(uptime_ns: u64, total_ticks: u64, idle_ticks: u64, regions: &[MemoryRegion]) -> MonitorSample {
    let mut memory_regions =
        [MemoryRegion::new(0, 0, MemoryRegionKind::Unknown(0)); MAX_MEMORY_REGIONS];
    assert!(regions.len() <= MAX_MEMORY_REGIONS);
    memory_regions[..regions.len()].copy_from_slice(regions);
    MonitorSample {
        uptime_ns,
        total_ticks,
        idle_ticks,
        memory_regions,
        memory_region_count: regions.len(),
    }
}

#[test]
fn first_sample_reports_zero_deltas() {
    let mut model = MonitorModel::new();
    let info = model.update(sample(5_000_000_000, 5, 2, &[]));
    assert_eq!(info.delta_seconds, 0);
    assert_eq!(info.delta_ticks, 0);
    assert_eq!(info.delta_idle_ticks, 0);
    assert_eq!(info.cpu_load_percent, 0);
    assert_eq!(info.uptime_seconds, 5);
}

#[test]
fn second_sample_reports_exact_deltas() {
    let mut model = MonitorModel::new();
    model.update(sample(5_000_000_000, 5, 2, &[]));
    let info = model.update(sample(16_000_000_000, 17, 11, &[]));
    assert_eq!(info.uptime_seconds, 16);
    assert_eq!(info.delta_seconds, 11);
    assert_eq!(info.delta_ticks, 12);
    assert_eq!(info.delta_idle_ticks, 9);
    assert_eq!(info.cpu_load_percent, 25);
}

#[test]
fn sub_second_uptime_delta_rounds_down() {
    let mut model = MonitorModel::new();
    model.update(sample(1_900_000_000, 2, 0, &[]));
    let info = model.update(sample(2_100_000_000, 3, 1, &[]));
    assert_eq!(info.delta_seconds, 0);
    assert_eq!(info.delta_ticks, 1);
    assert_eq!(info.cpu_load_percent, 0);
}

#[test]
fn cpu_load_percent_rounds_to_nearest() {
    assert_eq!(cpu_load_percent(100, 50), 50);
    assert_eq!(cpu_load_percent(100, 0), 100);
    assert_eq!(cpu_load_percent(100, 100), 0);
    assert_eq!(cpu_load_percent(3, 1), 67);
    assert_eq!(cpu_load_percent(3, 2), 33);
    assert_eq!(cpu_load_percent(0, 0), 0);
    assert_eq!(cpu_load_percent(1, 0), 100);
    assert_eq!(cpu_load_percent(10, 20), 0);
}

#[test]
fn cpu_load_uses_128_bit_intermediate() {
    let delta_ticks = 1u64 << 63;
    let busy = 1u64 << 62;
    assert_eq!(cpu_load_percent(delta_ticks, delta_ticks - busy), 50);
}

#[test]
fn counters_going_backwards_treated_as_no_change() {
    let mut model = MonitorModel::new();
    model.update(sample(20_000_000_000, 30, 20, &[]));
    let info = model.update(sample(15_000_000_000, 25, 10, &[]));
    assert_eq!(info.delta_seconds, 0);
    assert_eq!(info.delta_ticks, 0);
    assert_eq!(info.delta_idle_ticks, 0);
    assert_eq!(info.cpu_load_percent, 0);
    assert_eq!(info.uptime_seconds, 15);
}

#[test]
fn memory_regions_are_flattened_with_end_and_size() {
    let regions = [
        MemoryRegion::new(0x1000, 0x100000, MemoryRegionKind::Usable),
        MemoryRegion::new(0x9000_0000, 0x8000, MemoryRegionKind::Framebuffer),
    ];
    let mut model = MonitorModel::new();
    let info = model.update(sample(0, 0, 0, &regions));
    assert_eq!(info.region_count, 2);
    assert_eq!(info.regions[0].start, 0x1000);
    assert_eq!(info.regions[0].end, 0x101000);
    assert_eq!(info.regions[0].size, 0x100000);
    assert_eq!(info.regions[0].kind, MemoryRegionKind::Usable);
    assert_eq!(info.regions[1].end, 0x9000_8000);
    assert_eq!(info.regions[1].kind, MemoryRegionKind::Framebuffer);
    assert_eq!(info.regions[2].size, 0);
}

#[test]
fn memory_summary_totals_by_kind_class() {
    let regions = [
        MemoryRegion::new(0, 1_000_000, MemoryRegionKind::Usable),
        MemoryRegion::new(0, 2_000_000, MemoryRegionKind::Usable),
        MemoryRegion::new(0, 500_000, MemoryRegionKind::Reserved),
        MemoryRegion::new(0, 200_000, MemoryRegionKind::BootloaderReclaimable),
    ];
    let mut model = MonitorModel::new();
    let info = model.update(sample(0, 0, 0, &regions));
    assert_eq!(info.memory_summary.usable_bytes, 3_000_000);
    assert_eq!(info.memory_summary.reserved_bytes, 500_000);
    assert_eq!(info.memory_summary.other_bytes, 200_000);
}

#[test]
fn region_count_capped_at_maximum() {
    let sample = MonitorSample {
        uptime_ns: 0,
        total_ticks: 0,
        idle_ticks: 0,
        memory_regions: [MemoryRegion::new(0, 0, MemoryRegionKind::Unknown(0)); MAX_MEMORY_REGIONS],
        memory_region_count: MAX_MEMORY_REGIONS + 40,
    };
    let mut model = MonitorModel::new();
    let info = model.update(sample);
    assert_eq!(info.region_count, MAX_MEMORY_REGIONS);
}

#[test]
fn uptime_formats_hh_mm_ss() {
    let mut buf = [0u8; UPTIME_TEXT_LEN];
    assert_eq!(format_uptime(0, &mut buf), "00:00:00");
    assert_eq!(format_uptime(3661, &mut buf), "01:01:01");
    assert_eq!(format_uptime(86399, &mut buf), "23:59:59");
    assert_eq!(format_uptime(100 * 3600 + 59 + 60, &mut buf), "100:01:59");
    assert_eq!(&buf[..9], b"100:01:59");
}

#[test]
fn sizes_format_with_one_decimal() {
    let mut buf = [0u8; SIZE_TEXT_LEN];
    assert_eq!(format_size(0, &mut buf), "0 B");
    assert_eq!(format_size(512, &mut buf), "512 B");
    assert_eq!(format_size(KIB, &mut buf), "1.0 KiB");
    assert_eq!(format_size(1536, &mut buf), "1.5 KiB");
    assert_eq!(format_size(MIB, &mut buf), "1.0 MiB");
    assert_eq!(format_size(5 * GIB + (GIB / 2), &mut buf), "5.5 GiB");
}

#[test]
fn addresses_format_hex_zero_padded() {
    let mut buf = [0u8; ADDRESS_TEXT_LEN];
    assert_eq!(format_address(0, &mut buf), "0x0000000000000000");
    assert_eq!(format_address(0x1234_abcd, &mut buf), "0x000000001234abcd");
    assert_eq!(format_address(u64::MAX, &mut buf), "0xffffffffffffffff");
}

#[test]
fn kind_names_cover_all_fixed_kinds() {
    assert_eq!(kind_name(MemoryRegionKind::Usable), "usable");
    assert_eq!(kind_name(MemoryRegionKind::Reserved), "reserved");
    assert_eq!(kind_name(MemoryRegionKind::Framebuffer), "framebuffer");
    assert_eq!(kind_name(MemoryRegionKind::Unknown(9)), "unknown");
}

#[test]
fn load_never_exceeds_one_hundred_percent() {
    for (t, i) in [(1u64, 0u64), (u64::MAX, 0), (7, 3), (1000, 1)] {
        assert!(cpu_load_percent(t, i) <= 100);
    }
}
