//! AArch64 timer path: the GICv2 distributor and CPU interface bring-up as
//! register writes, and the decisions of the physical-timer interrupt.
use vstd::prelude::*;
use crate::port::RegWrite;

verus! {

/// QEMU virt GICv2 distributor and CPU-interface bases.
pub const GICD_BASE: usize = 0x0800_0000;
pub const GICC_BASE: usize = 0x0801_0000;

/// Distributor registers.
pub const GICD_CTLR: usize = 0x000;
pub const GICD_ISENABLER0: usize = 0x100;
pub const GICD_CTLR_ENABLE_GRP0: u32 = 0x1;
pub const GICD_CTLR_ENABLE_GRP1: u32 = 0x2;

/// CPU-interface registers.
pub const GICC_CTLR: usize = 0x000;
pub const GICC_PMR: usize = 0x004;
pub const GICC_IAR: usize = 0x00C;
pub const GICC_EOIR: usize = 0x010;
pub const GICC_CTLR_ENABLE_GRP0: u32 = 0x1;
pub const GICC_CTLR_ENABLE_GRP1: u32 = 0x2;

/// Priority mask letting every priority through.
pub const GICC_PMR_ALL: u32 = 0xFF;

/// Interrupt id the CPU interface answers when nothing is pending.
pub const GICC_SPURIOUS: u32 = 0x3FF;

/// The non-secure physical timer's private interrupt.
pub const IRQ_CNTPNSIRQ: u32 = 30;

/// Timer periods per second.
pub const PERIOD_DIVISOR: u64 = 1000;

/// Distributor writes: enable both groups, then the timer interrupt.
pub open spec fn distributor_spec() -> Seq<RegWrite> {
    seq![
        RegWrite { offset: GICD_CTLR, value: 3 },
        RegWrite { offset: GICD_ISENABLER0, value: 0x4000_0000 },
    ]
}

/// CPU-interface writes: enable both groups, then unmask every priority.
pub open spec fn cpu_interface_spec() -> Seq<RegWrite> {
    seq![RegWrite { offset: GICC_CTLR, value: 3 }, RegWrite { offset: GICC_PMR, value: GICC_PMR_ALL }]
}

/// The distributor bring-up writes, relative to [`GICD_BASE`].
pub fn program_distributor() -> (w: Vec<RegWrite>)
    ensures
        w@ == distributor_spec(),
{
    let ctl = GICD_CTLR_ENABLE_GRP0 | GICD_CTLR_ENABLE_GRP1;
    let bit = 1u32 << IRQ_CNTPNSIRQ;
    assert(ctl == 3 && bit == 0x4000_0000) by (bit_vector)
        requires
            ctl == 1u32 | 2u32,
            bit == 1u32 << 30u32,
    ;
    let w = vec![
        RegWrite { offset: GICD_CTLR, value: ctl },
        RegWrite { offset: GICD_ISENABLER0, value: bit },
    ];
    assert(w@ =~= distributor_spec());
    w
}

/// The CPU-interface bring-up writes, relative to [`GICC_BASE`].
pub fn program_cpu_interface() -> (w: Vec<RegWrite>)
    ensures
        w@ == cpu_interface_spec(),
{
    let ctl = GICC_CTLR_ENABLE_GRP0 | GICC_CTLR_ENABLE_GRP1;
    assert(ctl == 3) by (bit_vector)
        requires
            ctl == 1u32 | 2u32,
    ;
    let w = vec![
        RegWrite { offset: GICC_CTLR, value: ctl },
        RegWrite { offset: GICC_PMR, value: GICC_PMR_ALL },
    ];
    assert(w@ =~= cpu_interface_spec());
    w
}

/// Counter frequency adopted from the `CNTFRQ` reading: at least 1 Hz.
pub fn timer_frequency(cntfrq: u64) -> (f: u64)
    ensures
        f == (if cntfrq > 1 {
            cntfrq
        } else {
            1
        }),
{
    if cntfrq > 1 {
        cntfrq
    } else {
        1
    }
}

/// Counter ticks per timer period at frequency `freq_hz`.
pub fn period_ticks(freq_hz: u64) -> (t: u64)
    ensures
        t == freq_hz / PERIOD_DIVISOR,
{
    freq_hz / PERIOD_DIVISOR
}

/// What the timer interrupt handler does with interrupt id `intid`.
#[derive(Clone, Copy, Debug, PartialEq, Eq, Structural)]
pub struct TimerIrq {
    /// Re-arm the timer with this many ticks.
    pub rearm: Option<u64>,
    /// Write this id to the end-of-interrupt register.
    pub eoi: Option<u32>,
}

/// The handler's answer to `intid` at counter frequency `freq_hz`: nothing
/// for a spurious id; otherwise re-arm for one more period when it is the
/// timer's interrupt and the frequency is known, and acknowledge the id.
pub fn timer_irq(intid: u32, freq_hz: u64) -> (a: TimerIrq)
    ensures
        intid == GICC_SPURIOUS ==> a == (TimerIrq { rearm: None, eoi: None }),
        intid != GICC_SPURIOUS ==> a == (TimerIrq {
            rearm: if intid % 1024 == IRQ_CNTPNSIRQ && freq_hz > 0 {
                Some(freq_hz / PERIOD_DIVISOR)
            } else {
                None
            },
            eoi: Some(intid),
        }),
{
    if intid == GICC_SPURIOUS {
        return TimerIrq { rearm: None, eoi: None };
    }
    assert((intid & 0x3FF) == intid % 1024) by (bit_vector);
    let rearm = if intid & 0x3FF == IRQ_CNTPNSIRQ && freq_hz > 0 {
        Some(freq_hz / PERIOD_DIVISOR)
    } else {
        None
    };
    TimerIrq { rearm, eoi: Some(intid) }
}

} // verus!
