use ferric::time::{ticks_to_ns, time_source, TickCounter, TimeSourceKind, Tsc, NANOS_PER_SEC};

#[test]
fn converts_whole_seconds() {
    assert_eq!(ticks_to_ns(62_500_000, 62_500_000), NANOS_PER_SEC);
    assert_eq!(ticks_to_ns(0, 62_500_000), 0);
}

#[test]
fn converts_fine_grained_fractions() {
    assert_eq!(ticks_to_ns(10, 62_500_000), 160);
}

#[test]
fn uses_128_bit_intermediate_math() {
    assert_eq!(ticks_to_ns(1, 1), 1_000_000_000);
    assert_eq!(ticks_to_ns(1 << 32, 1 << 32), 1_000_000_000);
}

#[test]
fn tick_counter_counts_up_from_zero() {
    let mut c = TickCounter::new();
    assert_eq!(c.ticks(), 0);
    c.bump_tick();
    c.bump_tick();
    assert_eq!(c.ticks(), 2);
}

#[test]
fn tsc_reports_zero_until_calibrated_then_counts_from_boot() {
    let mut tsc = Tsc::new();
    assert_eq!(time_source(&tsc), TimeSourceKind::Pit);
    assert_eq!(tsc.uptime_ns(1_000), 0);
    tsc.init_tsc(None, 500);
    assert_eq!(time_source(&tsc), TimeSourceKind::Pit);
    tsc.init_tsc(Some(1_000_000), 500);
    assert_eq!(time_source(&tsc), TimeSourceKind::Tsc);
    assert_eq!(tsc.uptime_raw(1_500), 1_000);
    assert_eq!(tsc.uptime_ns(1_500), 1_000_000);
    assert_eq!(tsc.uptime_raw(499), u64::MAX);
}
