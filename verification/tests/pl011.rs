use ferric::pl011::{
    busy, configure, quiesce, send, tx_full, CR_RXE, CR_TXE, CR_UARTEN, FBRD_115200, FR_BUSY, FR_TXFF, IBRD_115200,
    ICR_ALL, LCR_H_FEN, LCR_H_WLEN_8, REG_CR, REG_DR, REG_FBRD, REG_FR, REG_IBRD, REG_ICR, REG_IMSC, REG_LCR_H,
    UART0_BASE,
};
use ferric::port::RegWrite;
use ferric::text::expand_lf_to_crlf;

struct FakeBlock {
    regs: [u32; (REG_ICR / 4) + 1],
}

impl FakeBlock {
    const DR: usize = REG_DR / 4;
    const FR: usize = REG_FR / 4;
    const IBRD: usize = REG_IBRD / 4;
    const FBRD: usize = REG_FBRD / 4;
    const LCR_H: usize = REG_LCR_H / 4;
    const CR: usize = REG_CR / 4;
    const IMSC: usize = REG_IMSC / 4;
    const ICR: usize = REG_ICR / 4;

    fn apply(&mut self, writes: &[RegWrite]) {
        for w in writes {
            self.regs[w.offset / 4] = w.value;
        }
    }
}

#[test]
fn base_and_offsets_match_documented_layout() {
    assert_eq!(UART0_BASE, 0x0900_0000);
    let offsets = [REG_DR, REG_FR, REG_IBRD, REG_FBRD, REG_LCR_H, REG_CR, REG_IMSC, REG_ICR];
    for i in 0..offsets.len() {
        for j in (i + 1)..offsets.len() {
            assert_ne!(offsets[i], offsets[j]);
        }
    }
    assert_eq!((UART0_BASE + REG_ICR) % 4, 0);
}

#[test]
fn constants_match_trm_bit_definitions() {
    assert_eq!(FR_BUSY, 0x08);
    assert_eq!(FR_TXFF, 0x20);
    assert_eq!(LCR_H_FEN | LCR_H_WLEN_8, 0x70);
    assert_eq!(CR_UARTEN | CR_TXE | CR_RXE, 0x301);
    assert_eq!(ICR_ALL, 0x7FF);
    assert_eq!(IBRD_115200, 13);
    assert_eq!(FBRD_115200, 1);
}

#[test]
fn init_programmes_the_full_bringup_sequence() {
    let mut block = FakeBlock { regs: [0; (REG_ICR / 4) + 1] };
    block.regs[FakeBlock::FR] = 0;

    block.apply(&quiesce());
    assert!(!busy(block.regs[FakeBlock::FR]));
    block.apply(&configure());

    assert_eq!(block.regs[FakeBlock::DR], 0);
    assert_eq!(block.regs[FakeBlock::IBRD], IBRD_115200);
    assert_eq!(block.regs[FakeBlock::FBRD], FBRD_115200);
    assert_eq!(block.regs[FakeBlock::LCR_H], LCR_H_FEN | LCR_H_WLEN_8);
    assert_eq!(block.regs[FakeBlock::CR], CR_UARTEN | CR_TXE | CR_RXE);
    assert_eq!(block.regs[FakeBlock::IMSC], 0);
    assert_eq!(block.regs[FakeBlock::ICR], ICR_ALL);
}

#[test]
fn transmit_pushes_line_ending_expanded_bytes_into_dr() {
    let mut block = FakeBlock { regs: [0; (REG_ICR / 4) + 1] };
    block.apply(&quiesce());
    block.apply(&configure());
    block.regs[FakeBlock::FR] = 0;

    for byte in expand_lf_to_crlf("a\n".as_bytes()) {
        assert!(!tx_full(block.regs[FakeBlock::FR]));
        block.apply(&[send(byte)]);
    }
    assert_eq!(block.regs[FakeBlock::DR], b'\n' as u32);
}

#[test]
fn flag_register_bits_are_decoded() {
    assert!(busy(0x08));
    assert!(!busy(0xF7));
    assert!(tx_full(0x20));
    assert!(!tx_full(0xDF));
    assert_eq!(quiesce(), vec![RegWrite { offset: REG_CR, value: 0 }]);
}
