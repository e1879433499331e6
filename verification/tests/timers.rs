use rsx::irq::Irq;
use rsx::timers::Timers;


const T2_VAL: u32 = 0x1F80_1120;
const T2_MODE: u32 = 0x1F80_1124;
const T2_TGT: u32 = 0x1F80_1128;

fn t2_pending(irq: &Irq) -> bool {
    irq.read16(0x1F80_1070) & (1 << 6) != 0
}

#[test]
fn irq_on_target_does_not_need_reset() {
    let mut t = Timers::new();
    let mut irq = Irq::new();
    t.write16(T2_TGT, 0x1000);
    // bit 4 = IRQ on target, bits 9-8 = 2 = sysclk/8. No bit 3 reset.
    t.write16(T2_MODE, (1 << 4) | (2 << 8));
    t.tick(0x1000 * 8, &mut irq);
    assert!(
        t2_pending(&irq),
        "Timer 2 must IRQ at target 0x1000 without reset (val={:04X} mode={:04X})",
        t.value(2),
        t.mode(2)
    );
}

#[test]
fn irq_on_target_survives_a_tick_that_would_skip_it() {
    let mut t = Timers::new();
    let mut irq = Irq::new();
    t.write16(T2_TGT, 0x1000);
    // PSY-Q SetRCnt(CNT2, 0x1000, INTR): reset + IRQ on target + repeat + /8.
    t.write16(T2_MODE, 0x0258);
    t.write16(T2_VAL, 0x0F00);
    // 2160 CPU cycles = 270 sysclk/8 ticks; 0x0F00+270 skips 0x1000 if we add in one go.
    t.tick(2160, &mut irq);
    assert!(
        t2_pending(&irq),
        "Timer 2 must IRQ when a large tick crosses the target (val={:04X})",
        t.value(2)
    );
}

#[test]
fn timer_i_stat_is_edge_not_re_raised_every_tick() {
    let mut t = Timers::new();
    let mut irq = Irq::new();
    t.write16(T2_TGT, 0x1000);
    t.write16(T2_MODE, (1 << 4) | (2 << 8));
    t.tick(0x1000 * 8, &mut irq);
    assert!(t2_pending(&irq), "first target sets I_STAT.TMR2");
    irq.write16(0x1F80_1070, !(1 << 6));
    assert!(!t2_pending(&irq), "I_STAT.TMR2 acked");
    t.tick(8, &mut irq);
    assert!(
        !t2_pending(&irq),
        "timer I_STAT must not re-raise every tick while the IRQ line stays high"
    );
}
