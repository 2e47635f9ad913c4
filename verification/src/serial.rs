//! 16550 UART for legacy COM ports: register set, the polled 115200-8N1
//! bring-up with its loopback probe, and the line-status decisions.
use vstd::prelude::*;
use crate::port::{Port, PortWrite};

verus! {

/// COM1 on PCs.
pub const COM1_BASE: u16 = 0x3f8;

/// Register offsets from the port base.
pub const REG_DATA: u16 = 0x0;
pub const REG_IER: u16 = 0x1;
pub const REG_FCR: u16 = 0x2;
pub const REG_LCR: u16 = 0x3;
pub const REG_MCR: u16 = 0x4;
pub const REG_LSR: u16 = 0x5;

pub const LSR_DATA_READY: u8 = 0x01;
pub const LSR_TRANSMIT_EMPTY: u8 = 0x20;

pub const LCR_DLAB: u8 = 0x80;

/// 8 data bits, no parity, 1 stop bit.
pub const LCR_8N1: u8 = 0x03;

pub const FCR_ENABLE: u8 = 0x01;
pub const FCR_CLEAR_RX: u8 = 0x02;
pub const FCR_CLEAR_TX: u8 = 0x04;
pub const FCR_TRIGGER_14: u8 = 0xC0;

pub const MCR_DTR: u8 = 0x01;
pub const MCR_RTS: u8 = 0x02;
pub const MCR_OUT1: u8 = 0x04;
pub const MCR_OUT2: u8 = 0x08;
pub const MCR_LOOPBACK: u8 = 0x10;

/// The byte echoed through loopback to prove the UART works.
pub const LOOPBACK_PROBE: u8 = 0xae;

/// A COM-port UART's registers.
pub struct Serial {
    pub data: Port<u8>,
    pub ier: Port<u8>,
    pub fcr: Port<u8>,
    pub lcr: Port<u8>,
    pub mcr: Port<u8>,
    pub lsr: Port<u8>,
}

impl Serial {
    /// The registers of the UART at port `base`.
    pub fn at(base: u16) -> (s: Self)
        requires
            base + REG_LSR <= u16::MAX,
        ensures
            s.data.spec_addr() == base + REG_DATA,
            s.ier.spec_addr() == base + REG_IER,
            s.fcr.spec_addr() == base + REG_FCR,
            s.lcr.spec_addr() == base + REG_LCR,
            s.mcr.spec_addr() == base + REG_MCR,
            s.lsr.spec_addr() == base + REG_LSR,
    {
        Serial {
            data: Port::new(base + REG_DATA),
            ier: Port::new(base + REG_IER),
            fcr: Port::new(base + REG_FCR),
            lcr: Port::new(base + REG_LCR),
            mcr: Port::new(base + REG_MCR),
            lsr: Port::new(base + REG_LSR),
        }
    }
}

/// Bring-up writes for the UART at `base`: interrupts off, divisor 1
/// (115200 baud) under DLAB, 8N1, FIFOs enabled and cleared, modem lines
/// up, then loopback mode and the probe byte.
pub open spec fn bring_up_spec(base: u16) -> Seq<PortWrite> {
    seq![
        PortWrite { port: (base + REG_IER) as u16, value: 0, io_wait: false },
        PortWrite { port: (base + REG_LCR) as u16, value: LCR_DLAB, io_wait: false },
        PortWrite { port: (base + REG_DATA) as u16, value: 0x01, io_wait: false },
        PortWrite { port: (base + REG_IER) as u16, value: 0x00, io_wait: false },
        PortWrite { port: (base + REG_LCR) as u16, value: LCR_8N1, io_wait: false },
        PortWrite { port: (base + REG_FCR) as u16, value: 0xC7, io_wait: false },
        PortWrite { port: (base + REG_MCR) as u16, value: 0x0F, io_wait: false },
        PortWrite { port: (base + REG_MCR) as u16, value: 0x1E, io_wait: false },
        PortWrite { port: (base + REG_DATA) as u16, value: LOOPBACK_PROBE, io_wait: false },
    ]
}

/// The port writes that program the UART at `base` for polled output and
/// send the loopback probe; the caller then waits for data ready, reads the
/// echo, and writes [`normal_mode`].
pub fn bring_up(base: u16) -> (w: Vec<PortWrite>)
    requires
        base + REG_LSR <= u16::MAX,
    ensures
        w@ == bring_up_spec(base),
{
    let fcr = FCR_ENABLE | FCR_CLEAR_RX | FCR_CLEAR_TX | FCR_TRIGGER_14;
    let mcr_normal = MCR_DTR | MCR_RTS | MCR_OUT1 | MCR_OUT2;
    let mcr_loop = MCR_LOOPBACK | MCR_RTS | MCR_OUT1 | MCR_OUT2;
    assert(fcr == 0xC7 && mcr_normal == 0x0F && mcr_loop == 0x1E) by (bit_vector)
        requires
            fcr == 1u8 | 2u8 | 4u8 | 0xC0u8,
            mcr_normal == 1u8 | 2u8 | 4u8 | 8u8,
            mcr_loop == 0x10u8 | 2u8 | 4u8 | 8u8,
    ;
    let w = vec![
        PortWrite { port: base + REG_IER, value: 0, io_wait: false },
        PortWrite { port: base + REG_LCR, value: LCR_DLAB, io_wait: false },
        PortWrite { port: base + REG_DATA, value: 0x01, io_wait: false },
        PortWrite { port: base + REG_IER, value: 0x00, io_wait: false },
        PortWrite { port: base + REG_LCR, value: LCR_8N1, io_wait: false },
        PortWrite { port: base + REG_FCR, value: fcr, io_wait: false },
        PortWrite { port: base + REG_MCR, value: mcr_normal, io_wait: false },
        PortWrite { port: base + REG_MCR, value: mcr_loop, io_wait: false },
        PortWrite { port: base + REG_DATA, value: LOOPBACK_PROBE, io_wait: false },
    ];
    assert(w@ =~= bring_up_spec(base));
    w
}

/// The write leaving loopback mode, modem lines up.
pub fn normal_mode(base: u16) -> (w: PortWrite)
    requires
        base + REG_LSR <= u16::MAX,
    ensures
        w == (PortWrite { port: (base + REG_MCR) as u16, value: 0x0F, io_wait: false }),
{
    PortWrite { port: base + REG_MCR, value: 0x0F, io_wait: false }
}

/// The UART works when the loopback echoed the probe back.
pub fn loopback_ok(echoed: u8) -> (ok: bool)
    ensures
        ok == (echoed == LOOPBACK_PROBE),
{
    echoed == LOOPBACK_PROBE
}

/// A received byte is waiting, per line-status byte `lsr`.
pub fn data_ready(lsr: u8) -> (r: bool)
    ensures
        r == (lsr % 2 == 1),
{
    assert((lsr & 1) == lsr % 2) by (bit_vector);
    (lsr & LSR_DATA_READY) != 0
}

/// The transmitter can take a byte, per line-status byte `lsr`.
pub fn transmit_empty(lsr: u8) -> (r: bool)
    ensures
        r == ((lsr / 32) % 2 == 1),
{
    assert((lsr & 0x20) != 0 <==> (lsr / 32) % 2 == 1) by (bit_vector);
    (lsr & LSR_TRANSMIT_EMPTY) != 0
}

} // verus!
