use ferric::serial::{
    bring_up, data_ready, loopback_ok, normal_mode, transmit_empty, Serial, COM1_BASE, FCR_CLEAR_RX,
    FCR_CLEAR_TX, FCR_ENABLE, FCR_TRIGGER_14, LCR_8N1, LCR_DLAB, LOOPBACK_PROBE, LSR_DATA_READY,
    LSR_TRANSMIT_EMPTY, MCR_DTR, MCR_LOOPBACK, MCR_OUT1, MCR_OUT2, MCR_RTS, REG_DATA, REG_FCR, REG_IER, REG_LCR,
    REG_LSR, REG_MCR,
};

#[test]
fn constants_match_osdev_canonical_init_values() {
    assert_eq!(COM1_BASE, 0x3f8);
    assert_eq!(LCR_DLAB, 0x80);
    assert_eq!(LCR_8N1, 0x03);
    assert_eq!(FCR_ENABLE | FCR_CLEAR_RX | FCR_CLEAR_TX | FCR_TRIGGER_14, 0xC7);
    assert_eq!(MCR_DTR | MCR_RTS | MCR_OUT1 | MCR_OUT2, 0x0F);
    assert_eq!(MCR_LOOPBACK | MCR_RTS | MCR_OUT1 | MCR_OUT2, 0x1E);
    assert_eq!(LSR_DATA_READY, 0x01);
    assert_eq!(LSR_TRANSMIT_EMPTY, 0x20);
}

#[test]
fn register_offsets_are_distinct_within_the_eight_byte_window() {
    let offsets = [REG_DATA, REG_IER, REG_FCR, REG_LCR, REG_MCR, REG_LSR];
    for i in 0..offsets.len() {
        for j in (i + 1)..offsets.len() {
            assert_ne!(offsets[i], offsets[j]);
        }
    }
    assert!(offsets.iter().all(|&off| off < 8));
}

#[test]
fn com1_registers_sit_at_their_offsets() {
    let s = Serial::at(COM1_BASE);
    assert_eq!(s.data.addr(), 0x3f8);
    assert_eq!(s.lcr.addr(), 0x3fb);
    assert_eq!(s.lsr.addr(), 0x3fd);
}

#[test]
fn bring_up_programs_divisor_then_loopback_probe() {
    let w: Vec<(u16, u8)> = bring_up(COM1_BASE).iter().map(|w| (w.port, w.value)).collect();
    assert_eq!(
        w,
        vec![
            (0x3f9, 0x00),
            (0x3fb, 0x80),
            (0x3f8, 0x01),
            (0x3f9, 0x00),
            (0x3fb, 0x03),
            (0x3fa, 0xC7),
            (0x3fc, 0x0F),
            (0x3fc, 0x1E),
            (0x3f8, LOOPBACK_PROBE),
        ]
    );
    let n = normal_mode(COM1_BASE);
    assert_eq!((n.port, n.value), (0x3fc, 0x0F));
}

#[test]
fn line_status_bits_are_decoded() {
    assert!(loopback_ok(0xae));
    assert!(!loopback_ok(0xaf));
    assert!(data_ready(0x61));
    assert!(!data_ready(0x60));
    assert!(transmit_empty(0x20));
    assert!(!transmit_empty(0xDF));
}
