use rsx::cdrom::Cdrom;
use rsx::irq::Irq;

fn pump(cd: &mut Cdrom, irq: &mut Irq, cycles: u32) {
    cd.tick(cycles, irq);
}

fn enable(cd: &mut Cdrom, irq: &mut Irq) {
    cd.write8(0, 1, irq);
    cd.write8(2, 0x1F, irq);
}

fn send(cd: &mut Cdrom, irq: &mut Irq, cmd: u8, params: &[u8]) {
    cd.write8(0, 0, irq);
    for &p in params {
        cd.write8(2, p, irq);
    }
    cd.write8(1, cmd, irq);
}

fn ack_irq(cd: &mut Cdrom, irq: &mut Irq) {
    cd.write8(0, 1, irq);
    cd.write8(3, 0x1F, irq);
}

fn hintsts(cd: &mut Cdrom, irq: &mut Irq) -> u8 {
    cd.write8(0, 1, irq);
    cd.read8(3) & 7
}

fn result_bytes(cd: &mut Cdrom, n: usize) -> Vec<u8> {
    (0..n).map(|_| cd.read8(1)).collect()
}

#[test]
fn getid_without_disc_is_int5() {
    let mut cd = Cdrom::new();
    let mut irq = Irq::new();
    cd.irq_enable = 0x1F;
    cd.command(0x1A, &mut irq);
    pump(&mut cd, &mut irq, 0xC4E1);
    assert_eq!(cd.irq_flag & 7, 3, "INT3");
    cd.write8(0, 1, &mut irq);
    cd.write8(3, 0x1F, &mut irq);
    pump(&mut cd, &mut irq, 30_000);
    assert_eq!(cd.irq_flag & 7, 5, "INT5");
    assert_eq!(cd.result[0], 0x08);
}

#[test]
fn command_written_while_hintsts_sits_until_ack() {
    let mut cd = Cdrom::new();
    let mut irq = Irq::new();
    enable(&mut cd, &mut irq);
    send(&mut cd, &mut irq, 0x01, &[]);
    pump(&mut cd, &mut irq, 0xC4E1);
    assert_eq!(hintsts(&mut cd, &mut irq), 3, "Getstat INT3");
    send(&mut cd, &mut irq, 0x00, &[]);
    pump(&mut cd, &mut irq, 0xC4E1);
    assert_eq!(
        hintsts(&mut cd, &mut irq),
        3,
        "sitting command must not replace unacked INT3"
    );
    ack_irq(&mut cd, &mut irq);
    pump(&mut cd, &mut irq, 0xC4E1);
    assert_eq!(
        hintsts(&mut cd, &mut irq),
        5,
        "unused command is INT5 after ack"
    );
    assert_eq!(result_bytes(&mut cd, 2), vec![0x11, 0x40]);
}

#[test]
fn later_write_replaces_the_sitting_command() {
    let mut cd = Cdrom::new();
    let mut irq = Irq::new();
    enable(&mut cd, &mut irq);
    send(&mut cd, &mut irq, 0x01, &[]);
    pump(&mut cd, &mut irq, 0xC4E1);
    send(&mut cd, &mut irq, 0x01, &[]);
    send(&mut cd, &mut irq, 0x00, &[]);
    ack_irq(&mut cd, &mut irq);
    pump(&mut cd, &mut irq, 0xC4E1);
    assert_eq!(hintsts(&mut cd, &mut irq), 5);
    assert_eq!(result_bytes(&mut cd, 2), vec![0x11, 0x40]);
}

#[test]
fn unused_command_is_int5_11h_40h() {
    let mut cd = Cdrom::new();
    let mut irq = Irq::new();
    enable(&mut cd, &mut irq);
    send(&mut cd, &mut irq, 0x1F, &[]);
    pump(&mut cd, &mut irq, 0xC4E1);
    assert_eq!(hintsts(&mut cd, &mut irq), 5);
    assert_eq!(result_bytes(&mut cd, 2), vec![0x11, 0x40]);
}

#[test]
fn init_sets_mode_20h_and_second_init_while_int2_pending_is_dropped() {
    let mut cd = Cdrom::new();
    let mut irq = Irq::new();
    enable(&mut cd, &mut irq);
    send(&mut cd, &mut irq, 0x0A, &[]);
    pump(&mut cd, &mut irq, 0x13CCE);
    ack_irq(&mut cd, &mut irq);
    pump(&mut cd, &mut irq, 0xC4E1);
    assert_eq!(hintsts(&mut cd, &mut irq), 2, "Init INT2");
    assert_eq!(cd.view().mode, 0x20, "Init sets mode=20h");
    send(&mut cd, &mut irq, 0x0A, &[]);
    ack_irq(&mut cd, &mut irq);
    pump(&mut cd, &mut irq, 0x13CCE);
    assert_eq!(
        hintsts(&mut cd, &mut irq),
        0,
        "second Init while INT2 pending is dropped"
    );
}

#[test]
fn i_stat_cd_is_edge_on_hintsts_not_re_raised_every_tick() {
    let mut cd = Cdrom::new();
    let mut irq = Irq::new();
    enable(&mut cd, &mut irq);
    send(&mut cd, &mut irq, 0x01, &[]);
    pump(&mut cd, &mut irq, 0xC4E1);
    assert_ne!(
        irq.read16(0x1F80_1070) & (1 << 2),
        0,
        "I_STAT.CD on HINTSTS"
    );
    irq.write16(0x1F80_1070, !(1 << 2));
    assert_eq!(irq.read16(0x1F80_1070) & (1 << 2), 0, "I_STAT.CD acked");
    pump(&mut cd, &mut irq, 50_000);
    assert_eq!(
        irq.read16(0x1F80_1070) & (1 << 2),
        0,
        "HINTSTS staying high must not re-raise I_STAT.CD"
    );
    assert_eq!(hintsts(&mut cd, &mut irq), 3, "HINTSTS still INT3");
    ack_irq(&mut cd, &mut irq);
    send(&mut cd, &mut irq, 0x01, &[]);
    pump(&mut cd, &mut irq, 0xC4E1);
    assert_ne!(
        irq.read16(0x1F80_1070) & (1 << 2),
        0,
        "new HINTSTS false→true sets I_STAT.CD"
    );
}

#[test]
fn secret_unlock_and_video_cd_are_int5_11h_40h() {
    let mut cd = Cdrom::new();
    let mut irq = Irq::new();
    enable(&mut cd, &mut irq);
    send(&mut cd, &mut irq, 0x50, &[]);
    pump(&mut cd, &mut irq, 0xC4E1);
    assert_eq!(hintsts(&mut cd, &mut irq), 5);
    assert_eq!(result_bytes(&mut cd, 2), vec![0x11, 0x40]);
    ack_irq(&mut cd, &mut irq);
    send(&mut cd, &mut irq, 0x51, b"Licensed by");
    pump(&mut cd, &mut irq, 0xC4E1);
    assert_eq!(result_bytes(&mut cd, 2), vec![0x11, 0x40]);
    ack_irq(&mut cd, &mut irq);
    cd.write8(0, 0, &mut irq);
    cd.write8(2, 0xAB, &mut irq);
    cd.write8(1, 0x1F, &mut irq);
    pump(&mut cd, &mut irq, 0xC4E1);
    assert_eq!(hintsts(&mut cd, &mut irq), 5);
    assert_eq!(result_bytes(&mut cd, 2), vec![0x11, 0x40]);
    ack_irq(&mut cd, &mut irq);
    send(&mut cd, &mut irq, 0x01, &[]);
    pump(&mut cd, &mut irq, 0xC4E1);
    assert_eq!(
        hintsts(&mut cd, &mut irq),
        5,
        "1Fh must leave the param FIFO so leftover 0xAB makes Getstat INT5"
    );
}

#[test]
fn idle_drive_view_and_quiet_tick() {
    let mut cd = Cdrom::new();
    let mut irq = Irq::new();
    pump(&mut cd, &mut irq, 1_000_000);
    let v = cd.view();
    assert!(!v.reading && !v.motor);
    assert_eq!(v.pending_cycles, None);
    assert_eq!(v.fifo_bytes, 0);
    assert_eq!(v.recent, [0xFF; 16]);
    assert_eq!(irq.read16(0x1F80_1070), 0);
}

#[test]
fn view_lists_recent_commands_oldest_first() {
    let mut cd = Cdrom::new();
    let mut irq = Irq::new();
    for c in 0..18u8 {
        cd.command(0x20 + c, &mut irq);
    }
    let v = cd.view();
    assert_eq!(v.last_cmd, 0x31);
    assert_eq!(v.recent[0], 0x22);
    assert_eq!(v.recent[15], 0x31);
}

#[test]
fn dma_word_is_little_endian_and_pads_past_the_sector() {
    let mut cd = Cdrom::new();
    cd.test_fill_fifo(&[1, 2, 3, 4, 5]);
    assert!(cd.drq());
    assert_eq!(cd.dma_read32(), 0x0403_0201);
    cd.pad_byte = 0xEE;
    assert_eq!(cd.dma_read32(), 0xEEEE_EE05);
}

#[test]
fn shell_open_is_int5_80h_and_close_clears_the_flag() {
    let mut cd = Cdrom::new();
    let mut irq = Irq::new();
    enable(&mut cd, &mut irq);
    cd.open_shell(&mut irq);
    assert_eq!(hintsts(&mut cd, &mut irq), 5);
    assert_eq!(result_bytes(&mut cd, 2)[1], 0x80);
    cd.close_shell();
    assert!(!cd.shell_open);
}

#[test]
fn analog_sample_is_taken_once() {
    let mut cd = Cdrom::new();
    cd.analog = (100, -100);
    assert_eq!(cd.take_analog(), (100, -100));
    assert_eq!(cd.take_analog(), (0, 0));
}

#[test]
fn setloc_commands_are_logged() {
    let mut cd = Cdrom::new();
    let mut irq = Irq::new();
    cd.param = vec![0x00, 0x02, 0x10];
    cd.command(0x02, &mut irq);
    let ev = cd.cmd_events();
    assert_eq!(ev.len(), 1);
    assert_eq!(ev[0].cmd, 0x02);
    assert_eq!(ev[0].loc_lba, 10);
    assert!(ev[0].setloc_pending);
}

fn licensed_disc() -> rsx::disc::Disc {
    let sector = rsx::disc::SECTOR_LEN;
    let mut bin = vec![0u8; sector * 24];
    let lic = b"          Licensed  by          Sony Computer Entertainment Amer  ica";
    bin[sector * 4 + 24..sector * 4 + 24 + lic.len()].copy_from_slice(lic);
    match rsx::disc::Disc::from_image(bin) {
        Ok(d) => d,
        Err(_) => panic!("24 sectors are a disc"),
    }
}

#[test]
fn readn_after_setloc_fills_the_data_fifo() {
    let mut cd = Cdrom::new();
    cd.insert(licensed_disc());
    let mut irq = Irq::new();
    enable(&mut cd, &mut irq);
    send(&mut cd, &mut irq, 0x0E, &[0x80]);
    pump(&mut cd, &mut irq, 0xC4E1);
    ack_irq(&mut cd, &mut irq);
    send(&mut cd, &mut irq, 0x02, &[0x00, 0x02, 0x04]);
    pump(&mut cd, &mut irq, 0xC4E1);
    ack_irq(&mut cd, &mut irq);
    send(&mut cd, &mut irq, 0x06, &[]);
    pump(&mut cd, &mut irq, 0xC4E1);
    assert_eq!(hintsts(&mut cd, &mut irq), 3, "ReadN INT3");
    ack_irq(&mut cd, &mut irq);
    cd.write8(0, 0, &mut irq);
    cd.write8(3, 0x80, &mut irq);
    pump(&mut cd, &mut irq, 451_584 + 451_584);
    assert_eq!(hintsts(&mut cd, &mut irq), 1, "sector INT1");
    assert!(cd.drq(), "Want Data loads the sector");
    let mut payload = Vec::new();
    for _ in 0..8 {
        cd.write8(0, 0, &mut irq);
        payload.push(cd.read8(2));
    }
    assert_eq!(&payload[..8], &cd.fifo[..8]);
}

#[test]
fn getstat_response_is_delivered_when_due() {
    let mut irq = Irq::new();
    let mut cd = Cdrom::new();
    cd.write8(0, 0, &mut irq);
    cd.write8(1, 0x01, &mut irq);
    cd.tick(0xC4E0, &mut irq);
    cd.write8(0, 1, &mut irq);
    assert_eq!(cd.read8(3) & 7, 0, "not yet due");
    cd.tick(1, &mut irq);
    assert_eq!(cd.read8(3) & 7, 3, "INT3 once due");
    cd.write8(0, 0, &mut irq);
    let stat = cd.read8(1);
    assert_eq!(stat & 0x10, 0, "the shell is closed");
}
