use rsx::irq::{Irq, IRQ_CDROM, IRQ_VBLANK};

#[test]
fn i_stat_write_zero_clears_and_write_one_leaves_the_bit() {
    let mut irq = Irq::new();
    irq.raise(IRQ_CDROM);
    irq.raise(IRQ_VBLANK);
    irq.write16(0x1F80_1070, !(1 << IRQ_CDROM));
    assert_eq!(irq.read16(0x1F80_1070) & (1 << IRQ_CDROM), 0);
    assert_ne!(irq.read16(0x1F80_1070) & (1 << IRQ_VBLANK), 0);
    irq.write16(0x1F80_1070, 0xFFFF);
    assert_ne!(
        irq.read16(0x1F80_1070) & (1 << IRQ_VBLANK),
        0,
        "write 1 must not ack"
    );
}
