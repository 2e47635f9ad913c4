use ferric::pit::{
    handle_timer_irq, init, pit_ticks_to_ns, remap_pic, Pit, CMD_MODE_3, IRQ0_VECTOR, MASTER_MASK, PIC1_CMD,
    PIC1_DATA, PIC2_CMD, PIC2_DATA, PIC_EOI, PIT_CH0, PIT_CMD, PIT_OSCILLATOR_HZ, TIMER_DIVISOR,
};

#[test]
fn constants_match_the_chip_docs() {
    assert_eq!(PIT_OSCILLATOR_HZ, 1_193_182);
    assert_eq!(TIMER_DIVISOR, 1193);
    assert_eq!(CMD_MODE_3, 0x36);
    assert_eq!(IRQ0_VECTOR, 0x20);
    assert_eq!(PIC1_CMD, 0x20);
    assert_eq!(PIC1_DATA, 0x21);
    assert_eq!(PIC2_CMD, 0xA0);
    assert_eq!(PIC2_DATA, 0xA1);
}

#[test]
fn timer_frequency_is_approximately_1khz() {
    let actual_hz_x1000 = PIT_OSCILLATOR_HZ * 1000 / TIMER_DIVISOR as u64;
    assert!((999_800..=1_000_200).contains(&actual_hz_x1000));
}

#[test]
fn conversion_uses_the_exact_oscillator_not_nominal_1khz() {
    assert_eq!(pit_ticks_to_ns(1_000), 999_847_466);
    assert_eq!(pit_ticks_to_ns(0), 0);
}

#[test]
fn pit_uptime_reads_the_tick_count() {
    assert_eq!(Pit.uptime_ns(1_000), 999_847_466);
}

#[test]
fn init_remaps_the_pic_then_programs_channel_zero() {
    let writes = init();
    let remap = remap_pic();
    assert_eq!(&writes[..remap.len()], &remap[..]);
    let tail: Vec<(u16, u8)> = writes[remap.len()..].iter().map(|w| (w.port, w.value)).collect();
    assert_eq!(tail, vec![(PIT_CMD, CMD_MODE_3), (PIT_CH0, 0xA9), (PIT_CH0, 0x04)]);
    assert_eq!(remap.last().map(|w| (w.port, w.value)), Some((PIC2_DATA, 0xFF)));
    assert!(remap.iter().any(|w| w.port == PIC1_DATA && w.value == MASTER_MASK));
}

#[test]
fn timer_irq_acknowledges_the_master_pic() {
    let w = handle_timer_irq();
    assert_eq!((w.port, w.value), (PIC1_CMD, PIC_EOI));
}
