//! PL011 UART (ARM PrimeCell) for the QEMU virt platform's first serial
//! port: register layout, the 115200-8N1 bring-up as register writes, and
//! the flag-register decisions of polled operation.
use vstd::prelude::*;
use crate::port::RegWrite;

verus! {

/// QEMU virt: PL011 uart0 MMIO base.
pub const UART0_BASE: usize = 0x0900_0000;

/// Integer and fractional baud divisors for 115200 baud from the 24 MHz
/// reference clock: 24 MHz / (16 * 115200) = 13 + 1/48.
pub const IBRD_115200: u32 = 13;
pub const FBRD_115200: u32 = 1;

/// Register offsets within the PL011 block.
pub const REG_DR: usize = 0x000;
pub const REG_FR: usize = 0x018;
pub const REG_IBRD: usize = 0x024;
pub const REG_FBRD: usize = 0x028;
pub const REG_LCR_H: usize = 0x02C;
pub const REG_CR: usize = 0x030;
pub const REG_IMSC: usize = 0x038;
pub const REG_ICR: usize = 0x044;

/// Flag register bits: UART busy, transmit FIFO full.
pub const FR_BUSY: u32 = 0x08;
pub const FR_TXFF: u32 = 0x20;

/// Line control: FIFO enable; 8-bit words.
pub const LCR_H_FEN: u32 = 0x10;
pub const LCR_H_WLEN_8: u32 = 0x60;

/// Control bits: UART enable, transmit enable, receive enable.
pub const CR_UARTEN: u32 = 0x001;
pub const CR_TXE: u32 = 0x100;
pub const CR_RXE: u32 = 0x200;

/// Interrupt clear: all eleven sources.
pub const ICR_ALL: u32 = 0x7FF;

/// The writes that quiesce the UART, after which the caller waits for the
/// busy flag to clear.
pub open spec fn quiesce_spec() -> Seq<RegWrite> {
    seq![RegWrite { offset: REG_CR, value: 0 }]
}

/// The writes that finish the bring-up once the UART is idle: clear and
/// mask interrupts, set the divisors and line control, then enable.
pub open spec fn configure_spec() -> Seq<RegWrite> {
    seq![
        RegWrite { offset: REG_ICR, value: ICR_ALL },
        RegWrite { offset: REG_IMSC, value: 0 },
        RegWrite { offset: REG_IBRD, value: IBRD_115200 },
        RegWrite { offset: REG_FBRD, value: FBRD_115200 },
        RegWrite { offset: REG_LCR_H, value: 0x70 },
        RegWrite { offset: REG_CR, value: 0x301 },
    ]
}

/// The quiescing write.
pub fn quiesce() -> (w: Vec<RegWrite>)
    ensures
        w@ == quiesce_spec(),
{
    let w = vec![RegWrite { offset: REG_CR, value: 0 }];
    assert(w@ =~= quiesce_spec());
    w
}

/// The configuring writes.
pub fn configure() -> (w: Vec<RegWrite>)
    ensures
        w@ == configure_spec(),
{
    let line = LCR_H_FEN | LCR_H_WLEN_8;
    let enable = CR_UARTEN | CR_TXE | CR_RXE;
    assert(line == 0x70 && enable == 0x301) by (bit_vector)
        requires
            line == 0x10u32 | 0x60u32,
            enable == 0x001u32 | 0x100u32 | 0x200u32,
    ;
    let w = vec![
        RegWrite { offset: REG_ICR, value: ICR_ALL },
        RegWrite { offset: REG_IMSC, value: 0 },
        RegWrite { offset: REG_IBRD, value: IBRD_115200 },
        RegWrite { offset: REG_FBRD, value: FBRD_115200 },
        RegWrite { offset: REG_LCR_H, value: line },
        RegWrite { offset: REG_CR, value: enable },
    ];
    assert(w@ =~= configure_spec());
    w
}

/// The UART is still busy, per flag register `fr`.
pub fn busy(fr: u32) -> (b: bool)
    ensures
        b == ((fr / 8) % 2 == 1),
{
    assert((fr & 8) != 0 <==> (fr / 8) % 2 == 1) by (bit_vector);
    (fr & FR_BUSY) != 0
}

/// The transmit FIFO is full, per flag register `fr`.
pub fn tx_full(fr: u32) -> (b: bool)
    ensures
        b == ((fr / 32) % 2 == 1),
{
    assert((fr & 32) != 0 <==> (fr / 32) % 2 == 1) by (bit_vector);
    (fr & FR_TXFF) != 0
}

/// The data-register write sending `byte`.
pub fn send(byte: u8) -> (w: RegWrite)
    ensures
        w == (RegWrite { offset: REG_DR, value: byte as u32 }),
{
    RegWrite { offset: REG_DR, value: byte as u32 }
}

} // verus!
