use ferric::gictimer::{
    period_ticks, program_cpu_interface, program_distributor, timer_frequency, timer_irq, TimerIrq, GICC_BASE,
    GICC_CTLR, GICC_EOIR, GICC_IAR, GICC_PMR, GICC_PMR_ALL, GICC_SPURIOUS, GICD_BASE, GICD_CTLR, GICD_ISENABLER0,
    IRQ_CNTPNSIRQ,
};
use ferric::port::RegWrite;

fn apply(regs: &mut [u32], writes: &[RegWrite]) {
    for w in writes {
        regs[w.offset / 4] = w.value;
    }
}

#[test]
fn bases_and_offsets_match_the_virt_and_timer_layouts() {
    assert_eq!(GICD_BASE, 0x0800_0000);
    assert_eq!(GICC_BASE, 0x0801_0000);
    let dist = [GICD_CTLR, GICD_ISENABLER0];
    let cpu = [GICC_CTLR, GICC_PMR, GICC_IAR, GICC_EOIR];
    for (i, list) in [dist.as_slice(), cpu.as_slice()].into_iter().enumerate() {
        for a in 0..list.len() {
            for b in (a + 1)..list.len() {
                assert_ne!(list[a], list[b]);
            }
            assert_eq!((if i == 0 { GICD_BASE } else { GICC_BASE } + list[a]) % 4, 0);
        }
    }
    assert_eq!(IRQ_CNTPNSIRQ, 30);
    assert_eq!(GICC_SPURIOUS, 0x3FF);
}

#[test]
fn program_brings_up_both_halves() {
    let mut cpu_regs = [0u32; (GICC_PMR / 4) + 1];
    let mut backing = [0u32; (GICD_ISENABLER0 / 4) + 1];

    apply(&mut backing, &program_distributor());
    apply(&mut cpu_regs, &program_cpu_interface());

    assert_eq!(backing[GICD_CTLR / 4], 0b11);
    assert_eq!(backing[GICD_ISENABLER0 / 4], 1 << IRQ_CNTPNSIRQ);
    assert_eq!(cpu_regs[GICC_CTLR / 4], 0b11);
    assert_eq!(cpu_regs[GICC_PMR / 4], GICC_PMR_ALL);
}

#[test]
fn timer_interrupts_rearm_and_acknowledge() {
    assert_eq!(timer_frequency(0), 1);
    assert_eq!(timer_frequency(62_500_000), 62_500_000);
    assert_eq!(period_ticks(62_500_000), 62_500);
    assert_eq!(timer_irq(30, 62_500_000), TimerIrq { rearm: Some(62_500), eoi: Some(30) });
    assert_eq!(timer_irq(33, 62_500_000), TimerIrq { rearm: None, eoi: Some(33) });
    assert_eq!(timer_irq(GICC_SPURIOUS, 62_500_000), TimerIrq { rearm: None, eoi: None });
}
