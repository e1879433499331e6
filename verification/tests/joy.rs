use rsx::irq::{Irq, IRQ_PAD};
use rsx::joy::{map_ds4_switches, Joy, PadButtons};


fn select_slot1(joy: &mut Joy) {
    // BIOS PadRead: 8-bit MUL1, ~250 kHz (BAUD 0088h).
    joy.write16(0x1F80_1048, 0x000D);
    joy.write16(0x1F80_104E, 0x0088);
    joy.write16(0x1F80_104A, 0x1003);
}

/// 8 bits × reload 0088h × MUL1. Last SCK is this many cycles after TX.
fn byte_cycles() -> u32 {
    8 * 0x88
}

/// SPX: ignore /ACK in the first 100 clk after last SCK; timeout is 100µs.
fn ack_after_sck() -> u32 {
    byte_cycles() + 150
}

#[test]
fn ctrl_reset_pulse_keeps_txen_and_select() {
    let mut joy = Joy::new();
    let mut irq = Irq::new();
    joy.set_slot1(Some(0xFFFF));
    // Reset | ACK IRQ | TXEN | /JOYn in one write (PSY-Q PadRead).
    joy.write16(0x1F80_1048, 0x000D);
    joy.write16(0x1F80_104E, 0x0088);
    joy.write16(0x1F80_104A, 0x1043);
    joy.write8(0x1F80_1040, 0x01);
    joy.tick(ack_after_sck(), &mut irq);
    assert_eq!(joy.read8(0x1F80_1040), 0xFF, "High-Z on address byte");
    assert_ne!(
        irq.read16(0x1F80_1070) & (1 << IRQ_PAD),
        0,
        "Reset pulse must not drop TXEN/select before the 01h /ACK"
    );
}

fn tx_rx(joy: &mut Joy, irq: &mut Irq, tx: u8) -> u8 {
    joy.write8(0x1F80_1040, tx);
    joy.tick(byte_cycles(), irq);
    joy.read8(0x1F80_1040)
}

#[test]
fn disconnected_tx_clocks_ff_and_does_not_raise_irq7() {
    let mut joy = Joy::new();
    let mut irq = Irq::new();
    select_slot1(&mut joy);
    let rx = tx_rx(&mut joy, &mut irq, 0x01);
    joy.tick(ack_after_sck(), &mut irq);
    assert_eq!(rx, 0xFF);
    assert_eq!(irq.read16(0x1F80_1070) & (1 << IRQ_PAD), 0);
}

#[test]
fn rx_fifo_holds_a_full_digital_read() {
    let mut joy = Joy::new();
    let mut irq = Irq::new();
    joy.set_slot1(Some(0xFFFF));
    select_slot1(&mut joy);
    let mut got = [0u8; 5];
    for (i, tx) in [0x01, 0x42, 0x00, 0x00, 0x00].into_iter().enumerate() {
        got[i] = tx_rx(&mut joy, &mut irq, tx);
    }
    assert_eq!(got, [0xFF, 0x41, 0x5A, 0xFF, 0xFF]);
}

#[test]
fn connected_digital_read_is_41_5a_and_active_low_switches() {
    let mut joy = Joy::new();
    let mut irq = Irq::new();
    joy.set_slot1(Some(0xFFFF));
    select_slot1(&mut joy);
    let b0 = tx_rx(&mut joy, &mut irq, 0x01);
    let b1 = tx_rx(&mut joy, &mut irq, 0x42);
    let b2 = tx_rx(&mut joy, &mut irq, 0x00);
    let b3 = tx_rx(&mut joy, &mut irq, 0x00);
    let b4 = tx_rx(&mut joy, &mut irq, 0x00);
    assert_eq!([b0, b1, b2, b3, b4], [0xFF, 0x41, 0x5A, 0xFF, 0xFF]);
}

#[test]
fn connected_cross_clears_only_bit14() {
    let mut joy = Joy::new();
    let mut irq = Irq::new();
    joy.set_slot1(Some(0xFFFF & !(1 << 14)));
    select_slot1(&mut joy);
    let _ = tx_rx(&mut joy, &mut irq, 0x01);
    let _ = tx_rx(&mut joy, &mut irq, 0x42);
    let _ = tx_rx(&mut joy, &mut irq, 0x00);
    let swlo = tx_rx(&mut joy, &mut irq, 0x00);
    let swhi = tx_rx(&mut joy, &mut irq, 0x00);
    let sw = u16::from(swlo) | (u16::from(swhi) << 8);
    assert_eq!(sw & (1 << 14), 0, ">< Cross pressed is active-low bit14");
    assert_eq!(
        sw | (1 << 14),
        0xFFFF,
        "Select/Start/D-pad/shoulders stay released"
    );
}

#[test]
fn ack_follows_last_sck_past_the_kernel_ignore_window() {
    let mut joy = Joy::new();
    let mut irq = Irq::new();
    joy.set_slot1(Some(0xFFFF));
    select_slot1(&mut joy);
    joy.write8(0x1F80_1040, 0x01);
    assert_eq!(
        irq.read16(0x1F80_1070) & (1 << IRQ_PAD),
        0,
        "I_STAT.7 must not rise in the same cycle as TX"
    );
    assert_eq!(
        joy.stat() & (1 << 2),
        0,
        "TX Ready Flag 2 is clear while the byte is shifting"
    );
    assert_eq!(
        joy.stat() & (1 << 1),
        0,
        "RX FIFO stays empty until last SCK"
    );
    joy.tick(250, &mut irq);
    assert_eq!(
        irq.read16(0x1F80_1070) & (1 << IRQ_PAD),
        0,
        "/ACK before last SCK is the pulse the kernel acks as old IRQ7"
    );
    joy.tick(byte_cycles() - 250, &mut irq);
    assert_eq!(joy.read8(0x1F80_1040), 0xFF, "High-Z lands at last SCK");
    assert_ne!(joy.stat() & (1 << 2), 0, "TX Ready Flag 2 after last SCK");
    joy.tick(100, &mut irq);
    assert_eq!(
        irq.read16(0x1F80_1070) & (1 << IRQ_PAD),
        0,
        "kernel ignores /ACK in the first 100 clk after last SCK"
    );
    joy.tick(50, &mut irq);
    assert_ne!(
        irq.read16(0x1F80_1070) & (1 << IRQ_PAD),
        0,
        "new IRQ7 after the ignore window, still inside the 100µs timeout"
    );
}

#[test]
fn kernel_padread_sees_start_after_acking_old_irq7() {
    // SCPH-1001 PadRead after TX: delay, ack I_STAT.7, wait RX, delay,
    // wait IRQ7. Start is active-low bit 3 → FFF7h.
    let mut joy = Joy::new();
    let mut irq = Irq::new();
    joy.set_slot1(Some(0xFFF7));
    select_slot1(&mut joy);

    let mut rx = [0u8; 5];
    for (i, tx) in [0x01u8, 0x42, 0x00, 0x00, 0x00].into_iter().enumerate() {
        joy.write8(0x1F80_1040, tx);
        joy.tick(100, &mut irq);
        irq.write16(0x1F80_1070, !(1 << IRQ_PAD));
        joy.tick(byte_cycles() - 100, &mut irq);
        rx[i] = joy.read8(0x1F80_1040);
        if i < 4 {
            joy.tick(150, &mut irq);
            assert_ne!(
                irq.read16(0x1F80_1070) & (1 << IRQ_PAD),
                0,
                "IRQ7 after byte {i} so PadRead does not time out"
            );
        }
    }
    assert_eq!(rx, [0xFF, 0x41, 0x5A, 0xF7, 0xFF]);
}

#[test]
fn last_digital_read_byte_does_not_ack() {
    let mut joy = Joy::new();
    let mut irq = Irq::new();
    joy.set_slot1(Some(0xFFFF));
    select_slot1(&mut joy);
    let _ = tx_rx(&mut joy, &mut irq, 0x01);
    joy.tick(150, &mut irq);
    irq.write16(0x1F80_1070, !(1 << IRQ_PAD));
    let _ = tx_rx(&mut joy, &mut irq, 0x42);
    joy.tick(150, &mut irq);
    irq.write16(0x1F80_1070, !(1 << IRQ_PAD));
    let _ = tx_rx(&mut joy, &mut irq, 0x00);
    joy.tick(150, &mut irq);
    irq.write16(0x1F80_1070, !(1 << IRQ_PAD));
    let _ = tx_rx(&mut joy, &mut irq, 0x00);
    joy.tick(150, &mut irq);
    irq.write16(0x1F80_1070, !(1 << IRQ_PAD));
    let _ = tx_rx(&mut joy, &mut irq, 0x00);
    joy.tick(150, &mut irq);
    assert_eq!(
        irq.read16(0x1F80_1070) & (1 << IRQ_PAD),
        0,
        "no /ACK after the last digital Read byte"
    );
}



#[test]
fn slot2_stays_disconnected_ff() {
    let mut joy = Joy::new();
    let mut irq = Irq::new();
    joy.set_slot1(Some(0xFFFF));
    joy.write16(0x1F80_1048, 0x000D);
    joy.write16(0x1F80_104E, 0x0088);
    joy.write16(0x1F80_104A, 0x1003 | (1 << 13));
    let rx = tx_rx(&mut joy, &mut irq, 0x01);
    joy.tick(ack_after_sck(), &mut irq);
    assert_eq!(rx, 0xFF);
    assert_eq!(irq.read16(0x1F80_1070) & (1 << IRQ_PAD), 0);
}

#[test]
fn pad_switches_clear_only_the_pressed_bits() {
    assert_eq!(map_ds4_switches(&PadButtons::default()), 0xFFFF);
    let all = PadButtons {
        select: true,
        start: true,
        up: true,
        right: true,
        down: true,
        left: true,
        l2: true,
        r2: true,
        l1: true,
        r1: true,
        triangle: true,
        circle: true,
        cross: true,
        square: true,
        stick_up: false,
        stick_down: false,
        stick_left: false,
        stick_right: false,
    };
    assert_eq!(map_ds4_switches(&all), 1 << 1 | 1 << 2);
    let cross = PadButtons { cross: true, ..PadButtons::default() };
    assert_eq!(map_ds4_switches(&cross), 0xFFFF & !(1 << 14));
    let start = PadButtons { start: true, ..PadButtons::default() };
    assert_eq!(map_ds4_switches(&start), 0xFFF7);
    let up_left = PadButtons { up: true, left: true, ..PadButtons::default() };
    assert_eq!(map_ds4_switches(&up_left), 0xFFFF & !(1 << 4) & !(1 << 7));
}

#[test]
fn joy_mode_and_baud_bytes_read_back() {
    let mut joy = Joy::new();
    joy.write8(0x1F80_1048, 0x0D);
    joy.write8(0x1F80_1049, 0x01);
    assert_eq!(joy.read16(0x1F80_1048), 0x010D);
    joy.write16(0x1F80_104E, 0x1234);
    assert_eq!(joy.read8(0x1F80_104E), 0x34);
    assert_eq!(joy.read8(0x1F80_104F), 0x12);
}

#[test]
fn joy_rx_empty_reads_ff_and_stat_has_tx_ready() {
    let mut joy = Joy::new();
    assert_eq!(joy.read8(0x1F80_1040), 0xFF);
    assert_eq!(joy.stat(), 0x0005);
}

#[test]
fn ds4_face_shoulders_start_select_dpad_map_to_switch_bits() {
    let all = PadButtons {
        select: true,
        start: true,
        up: true,
        right: true,
        down: true,
        left: true,
        l2: true,
        r2: true,
        l1: true,
        r1: true,
        triangle: true,
        circle: true,
        cross: true,
        square: true,
        stick_up: false,
        stick_down: false,
        stick_left: false,
        stick_right: false,
    };
    assert_eq!(
        map_ds4_switches(&all),
        1 << 1 | 1 << 2,
        "L3/R3 stay released on a digital pad; every other switch pressed"
    );
    assert_eq!(map_ds4_switches(&PadButtons::default()), 0xFFFF);
    let cases: [(PadButtons, u16); 14] = [
        (PadButtons { cross: true, ..PadButtons::default() }, 14),
        (PadButtons { circle: true, ..PadButtons::default() }, 13),
        (PadButtons { square: true, ..PadButtons::default() }, 15),
        (PadButtons { triangle: true, ..PadButtons::default() }, 12),
        (PadButtons { start: true, ..PadButtons::default() }, 3),
        (PadButtons { select: true, ..PadButtons::default() }, 0),
        (PadButtons { up: true, ..PadButtons::default() }, 4),
        (PadButtons { right: true, ..PadButtons::default() }, 5),
        (PadButtons { down: true, ..PadButtons::default() }, 6),
        (PadButtons { left: true, ..PadButtons::default() }, 7),
        (PadButtons { l1: true, ..PadButtons::default() }, 10),
        (PadButtons { r1: true, ..PadButtons::default() }, 11),
        (PadButtons { l2: true, ..PadButtons::default() }, 8),
        (PadButtons { r2: true, ..PadButtons::default() }, 9),
    ];
    for (b, bit) in cases.iter() {
        assert_eq!(map_ds4_switches(b), 0xFFFF & !(1u16 << bit));
    }
}

#[test]
fn ds4_left_stick_up_clears_joypad_up() {
    let dpad = PadButtons { up: true, ..PadButtons::default() };
    // The host turns stick y = 1.0 into `stick_up`.
    let stick = PadButtons { stick_up: true, ..PadButtons::default() };
    assert_eq!(map_ds4_switches(&dpad) & (1 << 4), 0);
    assert_eq!(map_ds4_switches(&stick) & (1 << 4), 0, "left-stick up is Joypad Up");
    // Stick at (-0.2, 0.2) is under the halfway mark: no stick switch.
    let rest = PadButtons::default();
    assert_eq!(map_ds4_switches(&rest), 0xFFFF, "resting stick is released");
    let each: [(PadButtons, u16); 4] = [
        (PadButtons { stick_up: true, ..PadButtons::default() }, 4),
        (PadButtons { stick_right: true, ..PadButtons::default() }, 5),
        (PadButtons { stick_down: true, ..PadButtons::default() }, 6),
        (PadButtons { stick_left: true, ..PadButtons::default() }, 7),
    ];
    for (b, bit) in each.iter() {
        assert_eq!(map_ds4_switches(b), 0xFFFF & !(1u16 << bit));
    }
}
