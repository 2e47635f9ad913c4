//! The x86_64 timer: remapping the two 8259A PICs to vectors 0x20/0x28 and
//! programming PIT channel 0 for a ~1 kHz tick, as the port writes to make,
//! and the tick-to-nanosecond conversion for that tick.
use vstd::prelude::*;
use crate::port::PortWrite;
use crate::time::NANOS_PER_SEC;

verus! {

/// PIT oscillator frequency.
pub const PIT_OSCILLATOR_HZ: u64 = 1_193_182;

/// Channel-0 reload value: oscillator / 1193 ≈ 1000.15 Hz.
pub const TIMER_DIVISOR: u16 = 1193;

/// Command word: channel 0, lobyte/highbyte access, mode 3 (square wave),
/// 16-bit binary.
pub const CMD_MODE_3: u8 = 0x36;

/// PIT command and channel-0 data ports.
pub const PIT_CMD: u16 = 0x43;
pub const PIT_CH0: u16 = 0x40;

/// Master 8259A command/data ports.
pub const PIC1_CMD: u16 = 0x20;
pub const PIC1_DATA: u16 = 0x21;

/// Slave 8259A command/data ports.
pub const PIC2_CMD: u16 = 0xA0;
pub const PIC2_DATA: u16 = 0xA1;

/// ICW1: ICW4 needed, cascade mode, edge triggered.
pub const ICW1: u8 = 0x11;

/// ICW2 offsets: master vector base 0x20, slave 0x28.
pub const ICW2_MASTER: u8 = 0x20;
pub const ICW2_SLAVE: u8 = 0x28;

/// ICW3 cascade wiring: master line 2, slave cascade id 2.
pub const ICW3_MASTER: u8 = 0x04;
pub const ICW3_SLAVE: u8 = 0x02;

/// ICW4: 8086 mode.
pub const ICW4: u8 = 0x01;

/// Master mask: timer (IRQ0) and cascade (IRQ2) unmasked, everything else
/// off: `!(1 << 0 | 1 << 2)`.
pub const MASTER_MASK: u8 = 0xFA;

/// Slave mask: all IRQs masked.
pub const SLAVE_MASK: u8 = 0xFF;

/// End-of-interrupt command for a non-specific EOI on the master.
pub const PIC_EOI: u8 = 0x20;

/// Interrupt vector IRQ0 lands on after the PIC remap.
pub const IRQ0_VECTOR: u8 = 0x20;

/// `ticks` PIT periods in nanoseconds: each period is exactly
/// `divisor / oscillator` seconds.
pub open spec fn pit_ticks_to_ns_spec(ticks: u64) -> u64 {
    ((ticks as int) * (NANOS_PER_SEC as int) * (TIMER_DIVISOR as int) / (PIT_OSCILLATOR_HZ as int)) as u64
}

pub fn pit_ticks_to_ns(ticks: u64) -> (ns: u64)
    ensures
        ns == pit_ticks_to_ns_spec(ticks),
{
    assert((ticks as int) * (NANOS_PER_SEC as int) * (TIMER_DIVISOR as int) <= 0xffff_ffff_ffff_ffff
        * 1_000_000_000 * 1193) by (nonlinear_arith)
        requires
            ticks <= 0xffff_ffff_ffff_ffff,
    ;
    ((ticks as u128) * (NANOS_PER_SEC as u128) * (TIMER_DIVISOR as u128)
        / (PIT_OSCILLATOR_HZ as u128)) as u64
}

/// The x86_64 time source: each tick is one PIT channel-0 period.
#[derive(Clone, Copy, Debug, PartialEq, Eq, Structural)]
pub struct Pit;

impl Pit {
    /// Uptime after `ticks` timer interrupts.
    pub fn uptime_ns(&self, ticks: u64) -> (ns: u64)
        ensures
            ns == pit_ticks_to_ns_spec(ticks),
    {
        pit_ticks_to_ns(ticks)
    }
}

/// The initialisation words that remap the PICs so hardware IRQs land at
/// vectors 0x20..0x2F, each but the last followed by an I/O delay.
pub open spec fn pic_remap_spec() -> Seq<PortWrite> {
    seq![
        PortWrite { port: PIC1_CMD, value: ICW1, io_wait: true },
        PortWrite { port: PIC2_CMD, value: ICW1, io_wait: true },
        PortWrite { port: PIC1_DATA, value: ICW2_MASTER, io_wait: true },
        PortWrite { port: PIC2_DATA, value: ICW2_SLAVE, io_wait: true },
        PortWrite { port: PIC1_DATA, value: ICW3_MASTER, io_wait: true },
        PortWrite { port: PIC2_DATA, value: ICW3_SLAVE, io_wait: true },
        PortWrite { port: PIC1_DATA, value: ICW4, io_wait: true },
        PortWrite { port: PIC2_DATA, value: ICW4, io_wait: true },
        PortWrite { port: PIC1_DATA, value: MASTER_MASK, io_wait: true },
        PortWrite { port: PIC2_DATA, value: SLAVE_MASK, io_wait: false },
    ]
}

/// The port writes that remap the PICs.
pub fn remap_pic() -> (w: Vec<PortWrite>)
    ensures
        w@ == pic_remap_spec(),
{
    let w = vec![
        PortWrite { port: PIC1_CMD, value: ICW1, io_wait: true },
        PortWrite { port: PIC2_CMD, value: ICW1, io_wait: true },
        PortWrite { port: PIC1_DATA, value: ICW2_MASTER, io_wait: true },
        PortWrite { port: PIC2_DATA, value: ICW2_SLAVE, io_wait: true },
        PortWrite { port: PIC1_DATA, value: ICW3_MASTER, io_wait: true },
        PortWrite { port: PIC2_DATA, value: ICW3_SLAVE, io_wait: true },
        PortWrite { port: PIC1_DATA, value: ICW4, io_wait: true },
        PortWrite { port: PIC2_DATA, value: ICW4, io_wait: true },
        PortWrite { port: PIC1_DATA, value: MASTER_MASK, io_wait: true },
        PortWrite { port: PIC2_DATA, value: SLAVE_MASK, io_wait: false },
    ];
    assert(w@ =~= pic_remap_spec());
    w
}

/// The port writes that program PIT channel 0 for a ~1 kHz square wave:
/// the mode word, then the divisor's low and high bytes.
pub open spec fn pit_program_spec() -> Seq<PortWrite> {
    seq![
        PortWrite { port: PIT_CMD, value: CMD_MODE_3, io_wait: false },
        PortWrite { port: PIT_CH0, value: (TIMER_DIVISOR % 256) as u8, io_wait: false },
        PortWrite { port: PIT_CH0, value: (TIMER_DIVISOR / 256) as u8, io_wait: false },
    ]
}

/// The full timer bring-up: the PIC remap, then the PIT programming.
pub fn init() -> (w: Vec<PortWrite>)
    ensures
        w@ == pic_remap_spec() + pit_program_spec(),
{
    let mut w = remap_pic();
    w.push(PortWrite { port: PIT_CMD, value: CMD_MODE_3, io_wait: false });
    w.push(PortWrite { port: PIT_CH0, value: (TIMER_DIVISOR % 256) as u8, io_wait: false });
    w.push(PortWrite { port: PIT_CH0, value: (TIMER_DIVISOR / 256) as u8, io_wait: false });
    assert(w@ =~= pic_remap_spec() + pit_program_spec());
    w
}

/// The port write acknowledging a timer interrupt on the master PIC.
pub fn handle_timer_irq() -> (w: PortWrite)
    ensures
        w == (PortWrite { port: PIC1_CMD, value: PIC_EOI, io_wait: false }),
{
    PortWrite { port: PIC1_CMD, value: PIC_EOI, io_wait: false }
}

} // verus!
