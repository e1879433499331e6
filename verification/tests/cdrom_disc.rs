use rsx::cdrom::Cdrom;
use rsx::disc::{Disc, Track, SECTOR_LEN};
use rsx::irq::Irq;

fn pump(cd: &mut Cdrom, irq: &mut Irq, cycles: u32) {
    cd.tick(cycles, irq);
}

fn enable(cd: &mut Cdrom, irq: &mut Irq) {
    cd.write8(0, 1, irq);
    cd.write8(2, 0x1F, irq);
}

fn send(cd: &mut Cdrom, irq: &mut Irq, cmd: u8, params: &[u8]) {
    cd.write8(0, 0, irq);
    for &p in params {
        cd.write8(2, p, irq);
    }
    cd.write8(1, cmd, irq);
}

fn ack_irq(cd: &mut Cdrom, irq: &mut Irq) {
    cd.write8(0, 1, irq);
    cd.write8(3, 0x1F, irq);
}

fn hintsts(cd: &mut Cdrom, irq: &mut Irq) -> u8 {
    cd.write8(0, 1, irq);
    cd.read8(3) & 7
}

fn result_bytes(cd: &mut Cdrom, n: usize) -> Vec<u8> {
    (0..n).map(|_| cd.read8(1)).collect()
}

fn set_2x_and_loc(cd: &mut Cdrom, irq: &mut Irq) {
    send(cd, irq, 0x0E, &[0x80]);
    pump(cd, irq, 0xC4E1);
    ack_irq(cd, irq);
    send(cd, irq, 0x02, &[0x00, 0x02, 0x04]);
    pump(cd, irq, 0xC4E1);
    ack_irq(cd, irq);
}

fn drain_data(cd: &mut Cdrom, irq: &mut Irq) {
    loop {
        cd.write8(0, 0, irq);
        if cd.read8(0) & (1 << 6) == 0 {
            break;
        }
        let _ = cd.read8(2);
    }
}

fn want_data(cd: &mut Cdrom, irq: &mut Irq) {
    cd.write8(0, 0, irq);
    cd.write8(3, 0x80, irq);
}

/// The disc a single MODE2/2352 track over the whole image describes.
fn disc_from(bin: Vec<u8>) -> Disc {
    match Disc::from_image(bin) {
        Ok(d) => d,
        Err(_) => panic!("an image of whole sectors is a disc"),
    }
}

fn licensed_disc() -> Disc {
    let mut bin = vec![0u8; SECTOR_LEN * 24];
    let lic = b"          Licensed  by          Sony Computer Entertainment Amer  ica";
    bin[SECTOR_LEN * 4 + 24..SECTOR_LEN * 4 + 24 + lic.len()].copy_from_slice(lic);
    disc_from(bin)
}

fn load_licensed() -> Cdrom {
    let mut cd = Cdrom::new();
    cd.insert(licensed_disc());
    cd
}

/// A data track, then an audio track at INDEX 01 00:02:00 holding a steady
/// (1000h, E000h) sample.
fn two_track_disc() -> Disc {
    let mut bin = vec![0u8; SECTOR_LEN * 200];
    let lic = b"          Licensed  by          Sony Computer Entertainment Amer  ica";
    bin[SECTOR_LEN * 4 + 24..SECTOR_LEN * 4 + 24 + lic.len()].copy_from_slice(lic);
    for i in 0..588 {
        let off = SECTOR_LEN * 150 + i * 4;
        bin[off..off + 2].copy_from_slice(&0x1000u16.to_le_bytes());
        bin[off + 2..off + 4].copy_from_slice(&0xE000u16.to_le_bytes());
    }
    let mut d = disc_from(bin);
    d.tracks = vec![
        Track { number: 1, start_lba: 0, audio: false },
        Track { number: 2, start_lba: 150, audio: true },
    ];
    d
}

fn unlicensed_disc() -> Disc {
    disc_from(vec![0u8; SECTOR_LEN * 24])
}

/// An XA-ADPCM sector (file 1, channel 1) at LBA 4 and a sector with a bad header at 5.
fn xa_and_bad_disc() -> Disc {
    let mut bin = vec![0u8; SECTOR_LEN * 24];
    let off = SECTOR_LEN * 4;
    bin[off] = 0x00;
    for b in bin.iter_mut().take(off + 11).skip(off + 1) {
        *b = 0xFF;
    }
    bin[off + 11] = 0x00;
    bin[off + 12] = 0x00;
    bin[off + 13] = 0x02;
    bin[off + 14] = 0x04;
    bin[off + 15] = 0x02;
    bin[off + 16] = 0x01;
    bin[off + 17] = 0x01;
    bin[off + 18] = 0x44;
    bin[off + 19] = 0x00;
    bin[off + 24] = 0x0C;
    for i in 0..112 {
        bin[off + 16 + 16 + i] = 0x77;
    }
    let bad = SECTOR_LEN * 5;
    bin[bad] = 0x00;
    for b in bin.iter_mut().take(bad + 11).skip(bad + 1) {
        *b = 0xFF;
    }
    bin[bad + 11] = 0x00;
    bin[bad + 15] = 0xFF;
    disc_from(bin)
}

#[test]
fn getid_with_disc_is_int2_scea() {
    let disc = licensed_disc();
    let mut cd = Cdrom::new();
    cd.insert(disc);
    cd.motor = true;
    let mut irq = Irq::new();
    cd.irq_enable = 0x1F;
    cd.command(0x1A, &mut irq);
    pump(&mut cd, &mut irq, 0xC4E1);
    assert_eq!(cd.irq_flag & 7, 3, "INT3");
    cd.write8(0, 1, &mut irq);
    cd.write8(3, 0x1F, &mut irq);
    pump(&mut cd, &mut irq, 50_000);
    assert_eq!(cd.irq_flag & 7, 2, "INT2");
    assert_eq!(&cd.result[4..8], b"SCEA");
    assert_eq!(cd.result[2], 0x20);
}

#[test]
fn readn_after_setloc_supplies_user_data() {
    let disc = licensed_disc();
    let mut cd = Cdrom::new();
    cd.insert(disc);
    cd.motor = true;
    let mut irq = Irq::new();
    cd.irq_enable = 0x1F;
    cd.param = vec![0x80];
    cd.command(0x0E, &mut irq);
    pump(&mut cd, &mut irq, 0xC4E1);
    cd.write8(0, 1, &mut irq);
    cd.write8(3, 0x1F, &mut irq);
    cd.param = vec![0x00, 0x02, 0x04];
    cd.command(0x02, &mut irq);
    pump(&mut cd, &mut irq, 0xC4E1);
    cd.write8(0, 1, &mut irq);
    cd.write8(3, 0x1F, &mut irq);
    cd.command(0x06, &mut irq);
    pump(&mut cd, &mut irq, 0xC4E1);
    cd.write8(0, 1, &mut irq);
    cd.write8(3, 0x1F, &mut irq);
    pump(&mut cd, &mut irq, 2_000_000);
    assert_eq!(cd.irq_flag & 7, 1, "INT1");
    want_data(&mut cd, &mut irq);
    let mut bytes = Vec::new();
    for _ in 0..64 {
        bytes.push(cd.pop_fifo());
    }
    let s = String::from_utf8_lossy(&bytes);
    assert!(
        s.contains("Licensed"),
        "ReadN 00:02:04 must yield the license sector ({s:?})"
    );
}

#[test]
fn readn_does_not_replace_fifo_until_drained() {
    let disc = licensed_disc();
    let mut cd = Cdrom::new();
    cd.insert(disc);
    cd.motor = true;
    let mut irq = Irq::new();
    cd.irq_enable = 0x1F;
    cd.param = vec![0x80];
    cd.command(0x0E, &mut irq);
    pump(&mut cd, &mut irq, 0xC4E1);
    cd.write8(0, 1, &mut irq);
    cd.write8(3, 0x1F, &mut irq);
    cd.param = vec![0x00, 0x02, 0x04];
    cd.command(0x02, &mut irq);
    pump(&mut cd, &mut irq, 0xC4E1);
    cd.write8(0, 1, &mut irq);
    cd.write8(3, 0x1F, &mut irq);
    cd.command(0x06, &mut irq);
    pump(&mut cd, &mut irq, 0xC4E1);
    cd.write8(0, 1, &mut irq);
    cd.write8(3, 0x1F, &mut irq);
    pump(&mut cd, &mut irq, 2_000_000);
    assert_eq!(cd.irq_flag & 7, 1);
    pump(&mut cd, &mut irq, 300_000);
    want_data(&mut cd, &mut irq);
    let mut first = Vec::new();
    for _ in 0..16 {
        first.push(cd.pop_fifo());
    }
    let s = String::from_utf8_lossy(&first);
    assert!(
        s.contains("Licens"),
        "unread sector must stay in the FIFO ({s:?})"
    );
}

#[test]
fn readn_fifo_stays_locked_while_dma_and_sector_clock_buffers_the_next() {
    let mut bin = vec![0u8; SECTOR_LEN * 24];
    let lic = b"          Licensed  by          Sony Computer Entertainment Amer  ica";
    bin[SECTOR_LEN * 4 + 24..SECTOR_LEN * 4 + 24 + lic.len()].copy_from_slice(lic);
    bin[SECTOR_LEN * 5 + 24..SECTOR_LEN * 5 + 24 + 8].copy_from_slice(b"NEXTSECT");
    let disc = disc_from(bin);
    let mut cd = Cdrom::new();
    cd.insert(disc);
    let mut irq = Irq::new();
    enable(&mut cd, &mut irq);
    send(&mut cd, &mut irq, 0x0E, &[0x80]);
    pump(&mut cd, &mut irq, 0xC4E1);
    ack_irq(&mut cd, &mut irq);
    send(&mut cd, &mut irq, 0x02, &[0x00, 0x02, 0x04]);
    pump(&mut cd, &mut irq, 0xC4E1);
    ack_irq(&mut cd, &mut irq);
    send(&mut cd, &mut irq, 0x06, &[]);
    pump(&mut cd, &mut irq, 0xC4E1);
    ack_irq(&mut cd, &mut irq);
    pump(&mut cd, &mut irq, 2_000_000);
    assert_eq!(hintsts(&mut cd, &mut irq), 1);
    ack_irq(&mut cd, &mut irq);
    want_data(&mut cd, &mut irq);
    let mut head = Vec::new();
    for _ in 0..16 {
        head.push(cd.read8(2));
    }
    assert!(
        String::from_utf8_lossy(&head).contains("Licens"),
        "DMA started on the first sector ({head:?})"
    );
    pump(&mut cd, &mut irq, 300_000);
    assert_eq!(
        hintsts(&mut cd, &mut irq),
        0,
        "no extra INT1 while the FIFO is still being read (DMA in progress)"
    );
    let mut more = Vec::new();
    for _ in 0..16 {
        more.push(cd.read8(2));
    }
    assert!(
        String::from_utf8_lossy(&more).contains("ed  by"),
        "locked FIFO must not be replaced mid-DMA ({more:?})"
    );
    assert!(
        !String::from_utf8_lossy(&more).contains("NEXTSECT"),
        "must not skip to the next sector while DMA holds the FIFO ({more:?})"
    );
    for _ in 32..0x800 {
        let _ = cd.read8(2);
    }
    // Less than a fresh 2× sector (225792) from drain, but enough for the
    // leftover sector-clock that ran during the locked DMA.
    pump(&mut cd, &mut irq, 200_000);
    assert_eq!(
        hintsts(&mut cd, &mut irq),
        1,
        "SPX: sector clock buffered the next sector; INT1 after the locked FIFO drains"
    );
    want_data(&mut cd, &mut irq);
    let mut second = Vec::new();
    for _ in 0..8 {
        second.push(cd.read8(2));
    }
    assert!(
        String::from_utf8_lossy(&second).contains("NEXTSECT"),
        "buffered sector is the next one ({second:?})"
    );
}

#[test]
fn int1_does_not_replace_unacked_int3() {
    let mut cd = load_licensed();
    let mut irq = Irq::new();
    enable(&mut cd, &mut irq);
    set_2x_and_loc(&mut cd, &mut irq);
    send(&mut cd, &mut irq, 0x06, &[]);
    pump(&mut cd, &mut irq, 0xC4E1);
    assert_eq!(hintsts(&mut cd, &mut irq), 3, "ReadN INT3");
    pump(&mut cd, &mut irq, 2_000_000);
    assert_eq!(
        hintsts(&mut cd, &mut irq),
        3,
        "INT1 must queue behind unacked INT3"
    );
    ack_irq(&mut cd, &mut irq);
    pump(&mut cd, &mut irq, 0);
    assert_eq!(hintsts(&mut cd, &mut irq), 1, "INT1 after INT3 ack");
}

#[test]
fn pause_drops_queued_int1() {
    let mut cd = load_licensed();
    let mut irq = Irq::new();
    enable(&mut cd, &mut irq);
    set_2x_and_loc(&mut cd, &mut irq);
    send(&mut cd, &mut irq, 0x06, &[]);
    pump(&mut cd, &mut irq, 0xC4E1);
    ack_irq(&mut cd, &mut irq);
    pump(&mut cd, &mut irq, 2_000_000);
    assert_eq!(hintsts(&mut cd, &mut irq), 1, "first INT1");
    want_data(&mut cd, &mut irq);
    drain_data(&mut cd, &mut irq);
    assert_eq!(
        hintsts(&mut cd, &mut irq),
        1,
        "draining the data FIFO must not ack INT1"
    );
    pump(&mut cd, &mut irq, 2_000_000);
    assert_eq!(
        hintsts(&mut cd, &mut irq),
        1,
        "second INT1 is queued behind the unacked first"
    );
    send(&mut cd, &mut irq, 0x09, &[]);
    ack_irq(&mut cd, &mut irq);
    pump(&mut cd, &mut irq, 0xC4E1);
    assert_eq!(hintsts(&mut cd, &mut irq), 3, "Pause INT3");
    ack_irq(&mut cd, &mut irq);
    assert_ne!(
        hintsts(&mut cd, &mut irq),
        1,
        "Pause must drop the queued INT1, not deliver it on INT3 ack"
    );
    irq.write16(0x1F80_1070, !(1 << 2));
    pump(&mut cd, &mut irq, 0x0021_181C);
    let kind = hintsts(&mut cd, &mut irq);
    assert_ne!(kind, 1, "Pause must drop queued INT1 (got INT{kind})");
    assert_eq!(kind, 2, "Pause INT2");
    assert_ne!(
        irq.read16(0x1F80_1070) & (1 << 2),
        0,
        "SPX: HINTSTS 0→INT2 after Pause INT3 ack must edge I_STAT.CD"
    );
}

#[test]
fn setloc_is_unprocessed_until_seek_or_read() {
    let mut bin = vec![0u8; SECTOR_LEN * 24];
    let lic = b"          Licensed  by          Sony Computer Entertainment Amer  ica";
    bin[SECTOR_LEN * 4 + 24..SECTOR_LEN * 4 + 24 + lic.len()].copy_from_slice(lic);
    bin[SECTOR_LEN * 8 + 24..SECTOR_LEN * 8 + 24 + 4].copy_from_slice(b"NEXT");
    let disc = disc_from(bin);
    let mut cd = Cdrom::new();
    cd.insert(disc);
    let mut irq = Irq::new();
    enable(&mut cd, &mut irq);
    send(&mut cd, &mut irq, 0x0E, &[0x80]);
    pump(&mut cd, &mut irq, 0xC4E1);
    ack_irq(&mut cd, &mut irq);
    send(&mut cd, &mut irq, 0x02, &[0x00, 0x02, 0x04]);
    pump(&mut cd, &mut irq, 0xC4E1);
    ack_irq(&mut cd, &mut irq);
    send(&mut cd, &mut irq, 0x06, &[]);
    pump(&mut cd, &mut irq, 0xC4E1);
    ack_irq(&mut cd, &mut irq);
    pump(&mut cd, &mut irq, 2_000_000);
    assert_eq!(hintsts(&mut cd, &mut irq), 1);
    want_data(&mut cd, &mut irq);
    let mut first = Vec::new();
    for _ in 0..64 {
        first.push(cd.read8(2));
    }
    assert!(
        String::from_utf8_lossy(&first).contains("Licensed"),
        "ReadN after Setloc must seek then deliver that sector"
    );
    ack_irq(&mut cd, &mut irq);
    send(&mut cd, &mut irq, 0x09, &[]);
    pump(&mut cd, &mut irq, 0xC4E1);
    ack_irq(&mut cd, &mut irq);
    pump(&mut cd, &mut irq, 0x0021_181C);
    ack_irq(&mut cd, &mut irq);
    send(&mut cd, &mut irq, 0x02, &[0x00, 0x02, 0x08]);
    pump(&mut cd, &mut irq, 0xC4E1);
    ack_irq(&mut cd, &mut irq);
    send(&mut cd, &mut irq, 0x06, &[]);
    pump(&mut cd, &mut irq, 0xC4E1);
    let stat = cd.read8(1);
    assert_eq!(
        stat & 0x40,
        0x40,
        "ReadN with pending Setloc INT3 has Seek bit"
    );
    assert_eq!(
        stat & 0x20,
        0,
        "Read bit stays clear until the seek completes"
    );
    ack_irq(&mut cd, &mut irq);
    pump(&mut cd, &mut irq, 0xC4E1);
    assert_ne!(
        hintsts(&mut cd, &mut irq),
        1,
        "no INT1 until the pending-Setloc seek completes"
    );
    pump(&mut cd, &mut irq, 2_000_000);
    assert_eq!(hintsts(&mut cd, &mut irq), 1);
    want_data(&mut cd, &mut irq);
    let mut second = Vec::new();
    for _ in 0..8 {
        second.push(cd.read8(2));
    }
    assert!(
        String::from_utf8_lossy(&second).contains("NEXT"),
        "seek must land on the new Setloc ({second:?})"
    );
}

#[test]
fn setloc_while_hintsts_still_latches_loc_for_a_replacing_readn() {
    let mut bin = vec![0u8; SECTOR_LEN * 24];
    let lic = b"          Licensed  by          Sony Computer Entertainment Amer  ica";
    bin[SECTOR_LEN * 4 + 24..SECTOR_LEN * 4 + 24 + lic.len()].copy_from_slice(lic);
    bin[SECTOR_LEN * 5 + 24..SECTOR_LEN * 5 + 24 + 4].copy_from_slice(b"SEQ!");
    bin[SECTOR_LEN * 8 + 24..SECTOR_LEN * 8 + 24 + 4].copy_from_slice(b"NEXT");
    let disc = disc_from(bin);
    let mut cd = Cdrom::new();
    cd.insert(disc);
    let mut irq = Irq::new();
    enable(&mut cd, &mut irq);
    send(&mut cd, &mut irq, 0x0E, &[0x80]);
    pump(&mut cd, &mut irq, 0xC4E1);
    ack_irq(&mut cd, &mut irq);
    send(&mut cd, &mut irq, 0x02, &[0x00, 0x02, 0x04]);
    pump(&mut cd, &mut irq, 0xC4E1);
    ack_irq(&mut cd, &mut irq);
    send(&mut cd, &mut irq, 0x06, &[]);
    pump(&mut cd, &mut irq, 0xC4E1);
    ack_irq(&mut cd, &mut irq);
    pump(&mut cd, &mut irq, 2_000_000);
    assert_eq!(hintsts(&mut cd, &mut irq), 1);
    want_data(&mut cd, &mut irq);
    drain_data(&mut cd, &mut irq);
    ack_irq(&mut cd, &mut irq);
    send(&mut cd, &mut irq, 0x09, &[]);
    pump(&mut cd, &mut irq, 0xC4E1);
    ack_irq(&mut cd, &mut irq);
    pump(&mut cd, &mut irq, 0x0021_181C);
    assert_eq!(hintsts(&mut cd, &mut irq), 2, "Pause INT2");
    send(&mut cd, &mut irq, 0x02, &[0x00, 0x02, 0x08]);
    send(&mut cd, &mut irq, 0x06, &[]);
    ack_irq(&mut cd, &mut irq);
    pump(&mut cd, &mut irq, 0xC4E1);
    ack_irq(&mut cd, &mut irq);
    pump(&mut cd, &mut irq, 2_000_000);
    assert_eq!(hintsts(&mut cd, &mut irq), 1);
    want_data(&mut cd, &mut irq);
    let mut body = Vec::new();
    for _ in 0..8 {
        body.push(cd.read8(2));
    }
    assert!(
        String::from_utf8_lossy(&body).contains("NEXT"),
        "Setloc while HINTSTS must still latch loc so replacing ReadN seeks (got {body:?})"
    );
    assert!(
        !String::from_utf8_lossy(&body).contains("SEQ!"),
        "must not continue sequentially after the old loc"
    );
}

#[test]
fn pause_then_readn_without_setloc_redelivers_last_sector() {
    let mut bin = vec![0u8; SECTOR_LEN * 24];
    let lic = b"          Licensed  by          Sony Computer Entertainment Amer  ica";
    bin[SECTOR_LEN * 4 + 24..SECTOR_LEN * 4 + 24 + lic.len()].copy_from_slice(lic);
    bin[SECTOR_LEN * 5 + 24..SECTOR_LEN * 5 + 24 + 6].copy_from_slice(b"SECOND");
    let disc = disc_from(bin);
    let mut cd = Cdrom::new();
    cd.insert(disc);
    let mut irq = Irq::new();
    enable(&mut cd, &mut irq);
    set_2x_and_loc(&mut cd, &mut irq);
    send(&mut cd, &mut irq, 0x06, &[]);
    pump(&mut cd, &mut irq, 0xC4E1);
    ack_irq(&mut cd, &mut irq);
    pump(&mut cd, &mut irq, 2_000_000);
    assert_eq!(hintsts(&mut cd, &mut irq), 1);
    ack_irq(&mut cd, &mut irq);
    want_data(&mut cd, &mut irq);
    drain_data(&mut cd, &mut irq);
    pump(&mut cd, &mut irq, 2_000_000);
    assert_eq!(hintsts(&mut cd, &mut irq), 1, "second sector INT1");
    want_data(&mut cd, &mut irq);
    let mut last = Vec::new();
    for _ in 0..8 {
        last.push(cd.read8(2));
    }
    assert!(
        String::from_utf8_lossy(&last).contains("SECOND"),
        "need the sector after Setloc so re-deliver is not a Setloc seek ({last:?})"
    );
    ack_irq(&mut cd, &mut irq);
    send(&mut cd, &mut irq, 0x09, &[]);
    pump(&mut cd, &mut irq, 0xC4E1);
    ack_irq(&mut cd, &mut irq);
    pump(&mut cd, &mut irq, 0x0021_181C);
    ack_irq(&mut cd, &mut irq);
    send(&mut cd, &mut irq, 0x06, &[]);
    pump(&mut cd, &mut irq, 0xC4E1);
    let stat = cd.read8(1);
    assert_eq!(
        stat & 0x20,
        0x20,
        "ReadN without pending Setloc keeps the Read bit"
    );
    assert_eq!(
        stat & 0x40,
        0,
        "ReadN without pending Setloc has no Seek bit"
    );
    ack_irq(&mut cd, &mut irq);
    pump(&mut cd, &mut irq, 2_000_000);
    assert_eq!(hintsts(&mut cd, &mut irq), 1);
    want_data(&mut cd, &mut irq);
    let mut again = Vec::new();
    for _ in 0..8 {
        again.push(cd.read8(2));
    }
    assert!(
        String::from_utf8_lossy(&again).contains("SECOND"),
        "Pause then ReadN re-delivers the last sector, not Setloc ({again:?})"
    );
}

#[test]
fn reads_is_the_same_int1_stream_as_readn() {
    let mut cd = load_licensed();
    let mut irq = Irq::new();
    enable(&mut cd, &mut irq);
    set_2x_and_loc(&mut cd, &mut irq);
    send(&mut cd, &mut irq, 0x1B, &[]);
    pump(&mut cd, &mut irq, 0xC4E1);
    ack_irq(&mut cd, &mut irq);
    pump(&mut cd, &mut irq, 2_000_000);
    assert_eq!(hintsts(&mut cd, &mut irq), 1, "ReadS INT1");
    want_data(&mut cd, &mut irq);
    let mut bytes = Vec::new();
    for _ in 0..64 {
        bytes.push(cd.read8(2));
    }
    assert!(
        String::from_utf8_lossy(&bytes).contains("Licensed"),
        "ReadS must yield the same data stream as ReadN"
    );
}

#[test]
fn getlocl_during_seekl_is_int5_80h_then_header_after_int2() {
    let mut bin = vec![0u8; SECTOR_LEN * 24];
    let off = SECTOR_LEN * 4;
    bin[off + 12] = 0x00;
    bin[off + 13] = 0x02;
    bin[off + 14] = 0x04;
    bin[off + 15] = 0x02;
    bin[off + 16] = 0x01;
    bin[off + 17] = 0x02;
    bin[off + 18] = 0x64;
    bin[off + 19] = 0x03;
    let disc = disc_from(bin);
    let mut cd = Cdrom::new();
    cd.insert(disc);
    let mut irq = Irq::new();
    enable(&mut cd, &mut irq);
    send(&mut cd, &mut irq, 0x02, &[0x00, 0x02, 0x04]);
    pump(&mut cd, &mut irq, 0xC4E1);
    ack_irq(&mut cd, &mut irq);
    send(&mut cd, &mut irq, 0x15, &[]);
    pump(&mut cd, &mut irq, 0xC4E1);
    ack_irq(&mut cd, &mut irq);
    send(&mut cd, &mut irq, 0x10, &[]);
    pump(&mut cd, &mut irq, 0xC4E1);
    assert_eq!(
        hintsts(&mut cd, &mut irq),
        5,
        "GetlocL during SeekL is INT5"
    );
    let body = result_bytes(&mut cd, 2);
    assert_eq!(body[1], 0x80, "GetlocL during SeekL is INT5(stat,80h)");
    ack_irq(&mut cd, &mut irq);
    pump(&mut cd, &mut irq, 451_584);
    assert_eq!(hintsts(&mut cd, &mut irq), 2, "SeekL INT2");
    ack_irq(&mut cd, &mut irq);
    send(&mut cd, &mut irq, 0x10, &[]);
    pump(&mut cd, &mut irq, 0xC4E1);
    assert_eq!(hintsts(&mut cd, &mut irq), 3);
    assert_eq!(
        result_bytes(&mut cd, 8),
        vec![0x00, 0x02, 0x04, 0x02, 0x01, 0x02, 0x64, 0x03],
        "GetlocL after SeekL INT2 is that sector header, not zeros"
    );
}

#[test]
fn int1_data_loads_only_when_want_data_is_set() {
    let mut cd = load_licensed();
    let mut irq = Irq::new();
    enable(&mut cd, &mut irq);
    set_2x_and_loc(&mut cd, &mut irq);
    send(&mut cd, &mut irq, 0x06, &[]);
    pump(&mut cd, &mut irq, 0xC4E1);
    ack_irq(&mut cd, &mut irq);
    pump(&mut cd, &mut irq, 2_000_000);
    assert_eq!(hintsts(&mut cd, &mut irq), 1);
    cd.write8(0, 0, &mut irq);
    assert_eq!(
        cd.read8(0) & (1 << 6),
        0,
        "without Want Data the data FIFO stays empty"
    );
    want_data(&mut cd, &mut irq);
    cd.write8(0, 0, &mut irq);
    assert_ne!(cd.read8(0) & (1 << 6), 0, "BFRD loads the data FIFO");
    let mut bytes = Vec::new();
    for _ in 0..32 {
        bytes.push(cd.read8(2));
    }
    assert!(
        String::from_utf8_lossy(&bytes).contains("Licens"),
        "Want Data must load the INT1 sector"
    );
}

#[test]
fn motor_on_mute_setfilter_getparam_play_use_command_summary() {
    let mut cd = load_licensed();
    let mut irq = Irq::new();
    enable(&mut cd, &mut irq);
    send(&mut cd, &mut irq, 0x07, &[]);
    pump(&mut cd, &mut irq, 0xC4E1);
    assert_eq!(hintsts(&mut cd, &mut irq), 3, "MotorOn INT3");
    ack_irq(&mut cd, &mut irq);
    pump(&mut cd, &mut irq, 0xC4E1);
    assert_eq!(hintsts(&mut cd, &mut irq), 2, "MotorOn INT2");
    ack_irq(&mut cd, &mut irq);
    send(&mut cd, &mut irq, 0x07, &[]);
    pump(&mut cd, &mut irq, 0xC4E1);
    assert_eq!(
        hintsts(&mut cd, &mut irq),
        5,
        "MotorOn while spinning is INT5"
    );
    assert_eq!(result_bytes(&mut cd, 2)[1], 0x20);
    ack_irq(&mut cd, &mut irq);
    send(&mut cd, &mut irq, 0x0B, &[]);
    pump(&mut cd, &mut irq, 0xC4E1);
    assert_eq!(hintsts(&mut cd, &mut irq), 3, "Mute INT3");
    ack_irq(&mut cd, &mut irq);
    send(&mut cd, &mut irq, 0x0D, &[0x01, 0x02]);
    pump(&mut cd, &mut irq, 0xC4E1);
    assert_eq!(hintsts(&mut cd, &mut irq), 3, "Setfilter INT3");
    ack_irq(&mut cd, &mut irq);
    send(&mut cd, &mut irq, 0x0E, &[0x80]);
    pump(&mut cd, &mut irq, 0xC4E1);
    ack_irq(&mut cd, &mut irq);
    send(&mut cd, &mut irq, 0x0F, &[]);
    pump(&mut cd, &mut irq, 0xC4E1);
    assert_eq!(hintsts(&mut cd, &mut irq), 3, "Getparam INT3");
    let gp = result_bytes(&mut cd, 5);
    assert_eq!(&gp[1..], &[0x80, 0x00, 0x01, 0x02]);
    ack_irq(&mut cd, &mut irq);
    send(&mut cd, &mut irq, 0x03, &[]);
    pump(&mut cd, &mut irq, 0xC4E1);
    assert_eq!(hintsts(&mut cd, &mut irq), 3, "Play INT3");
}

#[test]
fn getlocp_gettn_gettd_and_response_fifo_ack() {
    let mut cd = load_licensed();
    let mut irq = Irq::new();
    enable(&mut cd, &mut irq);
    send(&mut cd, &mut irq, 0x02, &[0x00, 0x02, 0x04]);
    pump(&mut cd, &mut irq, 0xC4E1);
    ack_irq(&mut cd, &mut irq);
    send(&mut cd, &mut irq, 0x15, &[]);
    pump(&mut cd, &mut irq, 0xC4E1);
    ack_irq(&mut cd, &mut irq);
    pump(&mut cd, &mut irq, 451_584);
    ack_irq(&mut cd, &mut irq);
    send(&mut cd, &mut irq, 0x11, &[]);
    pump(&mut cd, &mut irq, 0xC4E1);
    assert_eq!(hintsts(&mut cd, &mut irq), 3, "GetlocP INT3");
    assert_eq!(
        result_bytes(&mut cd, 8),
        vec![0x01, 0x01, 0x00, 0x00, 0x04, 0x00, 0x02, 0x04]
    );
    ack_irq(&mut cd, &mut irq);
    send(&mut cd, &mut irq, 0x13, &[]);
    pump(&mut cd, &mut irq, 0xC4E1);
    assert_eq!(hintsts(&mut cd, &mut irq), 3, "GetTN INT3");
    let _ = cd.read8(1);
    ack_irq(&mut cd, &mut irq);
    assert_eq!(
        cd.read8(1),
        0,
        "IRQ ack must empty unread response bytes (GetTN is 3 bytes)"
    );
    send(&mut cd, &mut irq, 0x13, &[]);
    pump(&mut cd, &mut irq, 0xC4E1);
    let tn = result_bytes(&mut cd, 3);
    assert_eq!(&tn[1..], &[0x01, 0x01], "single-track disc first=last=01h");
    ack_irq(&mut cd, &mut irq);
    send(&mut cd, &mut irq, 0x14, &[0x01]);
    pump(&mut cd, &mut irq, 0xC4E1);
    assert_eq!(hintsts(&mut cd, &mut irq), 3, "GetTD INT3");
    assert_eq!(&result_bytes(&mut cd, 3)[1..], &[0x00, 0x02]);
}

#[test]
fn data_fifo_repeats_spx_padding_byte_past_800h() {
    let mut bin = vec![0u8; SECTOR_LEN * 24];
    bin[SECTOR_LEN * 4 + 24 + 0x7F8] = 0xA5;
    let disc = disc_from(bin);
    let mut cd = Cdrom::new();
    cd.insert(disc);
    let mut irq = Irq::new();
    enable(&mut cd, &mut irq);
    set_2x_and_loc(&mut cd, &mut irq);
    send(&mut cd, &mut irq, 0x06, &[]);
    pump(&mut cd, &mut irq, 0xC4E1);
    ack_irq(&mut cd, &mut irq);
    pump(&mut cd, &mut irq, 2_000_000);
    cd.write8(0, 0, &mut irq);
    assert_eq!(
        cd.read8(2),
        0,
        "without Want Data the data port is 0, not the pad byte"
    );
    want_data(&mut cd, &mut irq);
    for _ in 0..0x800 {
        let _ = cd.read8(2);
    }
    assert_eq!(
        cd.read8(2),
        0xA5,
        "past 800h the data FIFO repeats the byte at 800h-8"
    );
    cd.write8(0, 0, &mut irq);
    cd.write8(3, 0, &mut irq);
    assert_eq!(
        cd.read8(2),
        0,
        "clearing BFRD must not keep returning the pad byte"
    );
}

#[test]
fn forward_backward_without_play_are_int5_stat_80h() {
    let mut cd = load_licensed();
    let mut irq = Irq::new();
    enable(&mut cd, &mut irq);
    send(&mut cd, &mut irq, 0x04, &[]);
    pump(&mut cd, &mut irq, 0xC4E1);
    assert_eq!(hintsts(&mut cd, &mut irq), 5, "Forward while idle is INT5");
    assert_eq!(result_bytes(&mut cd, 2)[1], 0x80);
    ack_irq(&mut cd, &mut irq);
    send(&mut cd, &mut irq, 0x05, &[]);
    pump(&mut cd, &mut irq, 0xC4E1);
    assert_eq!(hintsts(&mut cd, &mut irq), 5, "Backward while idle is INT5");
    assert_eq!(result_bytes(&mut cd, 2)[1], 0x80);
}

#[test]
fn forward_while_playing_is_int3_and_skips_along_the_disc() {
    let disc = two_track_disc();
    let mut cd = Cdrom::new();
    cd.insert(disc);
    let mut irq = Irq::new();
    enable(&mut cd, &mut irq);
    send(&mut cd, &mut irq, 0x0C, &[]);
    pump(&mut cd, &mut irq, 0xC4E1);
    ack_irq(&mut cd, &mut irq);
    send(&mut cd, &mut irq, 0x03, &[0x02]);
    pump(&mut cd, &mut irq, 0xC4E1);
    assert_eq!(hintsts(&mut cd, &mut irq), 3, "Play INT3");
    ack_irq(&mut cd, &mut irq);
    pump(&mut cd, &mut irq, 451_584);
    send(&mut cd, &mut irq, 0x11, &[]);
    pump(&mut cd, &mut irq, 0xC4E1);
    let before = result_bytes(&mut cd, 8);
    ack_irq(&mut cd, &mut irq);
    send(&mut cd, &mut irq, 0x04, &[]);
    pump(&mut cd, &mut irq, 0xC4E1);
    assert_eq!(
        hintsts(&mut cd, &mut irq),
        3,
        "Forward while Playing is INT3"
    );
    ack_irq(&mut cd, &mut irq);
    send(&mut cd, &mut irq, 0x11, &[]);
    pump(&mut cd, &mut irq, 0xC4E1);
    let after = result_bytes(&mut cd, 8);
    assert_ne!(
        &after[5..8],
        &before[5..8],
        "Forward must skip along the disc (before {before:?} after {after:?})"
    );
}

#[test]
fn play_with_report_repeats_int1() {
    let disc = two_track_disc();
    let mut cd = Cdrom::new();
    cd.insert(disc);
    let mut irq = Irq::new();
    enable(&mut cd, &mut irq);
    send(&mut cd, &mut irq, 0x0E, &[0x04]);
    pump(&mut cd, &mut irq, 0xC4E1);
    ack_irq(&mut cd, &mut irq);
    send(&mut cd, &mut irq, 0x03, &[0x02]);
    pump(&mut cd, &mut irq, 0xC4E1);
    assert_eq!(hintsts(&mut cd, &mut irq), 3, "Play INT3");
    ack_irq(&mut cd, &mut irq);
    pump(&mut cd, &mut irq, 451_584 * 12);
    assert_eq!(hintsts(&mut cd, &mut irq), 1, "Play+Report INT1");
    let r = result_bytes(&mut cd, 8);
    assert_eq!(r.len(), 8, "report is eight bytes");
    ack_irq(&mut cd, &mut irq);
    pump(&mut cd, &mut irq, 451_584 * 12);
    assert_eq!(
        hintsts(&mut cd, &mut irq),
        1,
        "Play+Report INT1 repeats, not a one-shot"
    );
}

#[test]
fn setsession_seekp_reset_getq_readtoc_match_spx() {
    let mut cd = load_licensed();
    let mut irq = Irq::new();
    enable(&mut cd, &mut irq);
    send(&mut cd, &mut irq, 0x12, &[0x00]);
    pump(&mut cd, &mut irq, 0xC4E1);
    assert_eq!(hintsts(&mut cd, &mut irq), 5, "SetSession 00h is INT5");
    assert_eq!(result_bytes(&mut cd, 2), vec![0x03, 0x10]);
    ack_irq(&mut cd, &mut irq);
    send(&mut cd, &mut irq, 0x12, &[0x01]);
    pump(&mut cd, &mut irq, 0xC4E1);
    assert_eq!(hintsts(&mut cd, &mut irq), 3, "SetSession 01h INT3");
    ack_irq(&mut cd, &mut irq);
    pump(&mut cd, &mut irq, 451_584);
    assert_eq!(hintsts(&mut cd, &mut irq), 2, "SetSession 01h INT2");
    ack_irq(&mut cd, &mut irq);
    send(&mut cd, &mut irq, 0x12, &[0x02]);
    pump(&mut cd, &mut irq, 0xC4E1);
    assert_eq!(hintsts(&mut cd, &mut irq), 3, "SetSession 02h INT3");
    ack_irq(&mut cd, &mut irq);
    pump(&mut cd, &mut irq, 451_584);
    assert_eq!(hintsts(&mut cd, &mut irq), 5, "bad session INT5");
    assert_eq!(result_bytes(&mut cd, 2)[1], 0x40);
    ack_irq(&mut cd, &mut irq);
    assert_eq!(
        hintsts(&mut cd, &mut irq),
        5,
        "SetSession 02h on a single-session disc is twice INT5(06h,40h)"
    );
    assert_eq!(result_bytes(&mut cd, 2), vec![0x06, 0x40]);
    ack_irq(&mut cd, &mut irq);
    send(&mut cd, &mut irq, 0x02, &[0x00, 0x02, 0x10]);
    pump(&mut cd, &mut irq, 0xC4E1);
    ack_irq(&mut cd, &mut irq);
    send(&mut cd, &mut irq, 0x16, &[]);
    pump(&mut cd, &mut irq, 0xC4E1);
    assert_eq!(hintsts(&mut cd, &mut irq), 3, "SeekP INT3");
    ack_irq(&mut cd, &mut irq);
    pump(&mut cd, &mut irq, 451_584);
    assert_eq!(hintsts(&mut cd, &mut irq), 2, "SeekP INT2");
    ack_irq(&mut cd, &mut irq);
    send(&mut cd, &mut irq, 0x11, &[]);
    pump(&mut cd, &mut irq, 0xC4E1);
    assert_eq!(
        &result_bytes(&mut cd, 8)[5..8],
        &[0x00, 0x02, 0x10],
        "SeekP uses Setloc MM:SS:FF"
    );
    ack_irq(&mut cd, &mut irq);
    send(&mut cd, &mut irq, 0x1C, &[]);
    pump(&mut cd, &mut irq, 0xC4E1);
    assert_eq!(hintsts(&mut cd, &mut irq), 3, "Reset INT3");
    assert_eq!(cd.view().mode, 0x20, "Reset sets mode=20h");
    ack_irq(&mut cd, &mut irq);
    pump(&mut cd, &mut irq, 0x400000);
    assert_eq!(
        hintsts(&mut cd, &mut irq),
        0,
        "Reset has no second INT; software waits 400000h cycles"
    );
    send(&mut cd, &mut irq, 0x1D, &[0x01, 0x01]);
    pump(&mut cd, &mut irq, 0xC4E1);
    assert_eq!(hintsts(&mut cd, &mut irq), 3, "GetQ INT3");
    ack_irq(&mut cd, &mut irq);
    pump(&mut cd, &mut irq, 451_584);
    assert_eq!(hintsts(&mut cd, &mut irq), 2, "GetQ INT2");
    let q = result_bytes(&mut cd, 11);
    assert_eq!(q.len(), 11, "GetQ is 10 SubQ bytes plus peak LSB");
    assert_eq!(q[2], 0x01, "POINT=01h");
    ack_irq(&mut cd, &mut irq);
    send(&mut cd, &mut irq, 0x1E, &[]);
    pump(&mut cd, &mut irq, 0x13CCE);
    assert_eq!(hintsts(&mut cd, &mut irq), 3, "ReadTOC INT3");
    ack_irq(&mut cd, &mut irq);
    pump(&mut cd, &mut irq, 0x20_0000);
    assert_eq!(hintsts(&mut cd, &mut irq), 2, "ReadTOC INT2");
}

#[test]
fn test_19h_version_switches_region_chipset_scex() {
    let mut cd = load_licensed();
    let mut irq = Irq::new();
    enable(&mut cd, &mut irq);
    send(&mut cd, &mut irq, 0x19, &[0x20]);
    pump(&mut cd, &mut irq, 0xC4E1);
    assert_eq!(result_bytes(&mut cd, 4), vec![0x94, 0x09, 0x19, 0xC0]);
    ack_irq(&mut cd, &mut irq);
    send(&mut cd, &mut irq, 0x19, &[0x21]);
    pump(&mut cd, &mut irq, 0xC4E1);
    assert_eq!(hintsts(&mut cd, &mut irq), 3);
    assert_eq!(result_bytes(&mut cd, 1)[0] & 2, 0, "door closed");
    ack_irq(&mut cd, &mut irq);
    send(&mut cd, &mut irq, 0x19, &[0x22]);
    pump(&mut cd, &mut irq, 0xC4E1);
    assert_eq!(result_bytes(&mut cd, 7), b"for U/C".to_vec());
    ack_irq(&mut cd, &mut irq);
    send(&mut cd, &mut irq, 0x19, &[0x23]);
    pump(&mut cd, &mut irq, 0xC4E1);
    assert!(
        result_bytes(&mut cd, 16)
            .windows(7)
            .any(|w| w == b"CXD2940" || w == b"CXD1817" || w == b"CXD2545"),
        "19h,23h is a chipset string"
    );
    ack_irq(&mut cd, &mut irq);
    send(&mut cd, &mut irq, 0x19, &[0x04]);
    pump(&mut cd, &mut irq, 0xC4E1);
    ack_irq(&mut cd, &mut irq);
    send(&mut cd, &mut irq, 0x19, &[0x05]);
    pump(&mut cd, &mut irq, 0xC4E1);
    assert_eq!(
        result_bytes(&mut cd, 2),
        vec![0x01, 0x01],
        "licensed disc SCEx counters"
    );
    ack_irq(&mut cd, &mut irq);
    send(&mut cd, &mut irq, 0x19, &[0xFF]);
    pump(&mut cd, &mut irq, 0xC4E1);
    assert_eq!(hintsts(&mut cd, &mut irq), 5, "unknown Test 19h is INT5");
    assert_eq!(result_bytes(&mut cd, 2), vec![0x11, 0x10]);
}

#[test]
fn gettn_gettd_use_disc_toc() {
    let disc = two_track_disc();
    let mut cd = Cdrom::new();
    cd.insert(disc);
    let mut irq = Irq::new();
    enable(&mut cd, &mut irq);
    send(&mut cd, &mut irq, 0x13, &[]);
    pump(&mut cd, &mut irq, 0xC4E1);
    assert_eq!(
        &result_bytes(&mut cd, 3)[1..],
        &[0x01, 0x02],
        "GetTN first/last from TOC"
    );
    ack_irq(&mut cd, &mut irq);
    send(&mut cd, &mut irq, 0x14, &[0x02]);
    pump(&mut cd, &mut irq, 0xC4E1);
    assert_eq!(
        &result_bytes(&mut cd, 3)[1..],
        &[0x00, 0x04],
        "GetTD(2) is MM:SS of INDEX 01 00:02:00 plus 00:02 pregap"
    );
}

#[test]
fn default_atv_keeps_cdda_stereo() {
    let disc = two_track_disc();
    let mut cd = Cdrom::new();
    cd.insert(disc);
    let mut irq = Irq::new();
    enable(&mut cd, &mut irq);
    send(&mut cd, &mut irq, 0x0C, &[]);
    pump(&mut cd, &mut irq, 0xC4E1);
    ack_irq(&mut cd, &mut irq);
    send(&mut cd, &mut irq, 0x03, &[0x02]);
    pump(&mut cd, &mut irq, 0xC4E1);
    assert_eq!(
        cd.take_analog(),
        (0x1000, -0x2000),
        "default ATV is L→L and R→R, not (L+R, 0)"
    );
}

#[test]
fn smen_volume_sound_map_xa_filter_cdda() {
    let disc = xa_and_bad_disc();
    let mut cd = Cdrom::new();
    cd.insert(disc);
    let mut irq = Irq::new();
    enable(&mut cd, &mut irq);
    cd.write8(0, 0, &mut irq);
    cd.write8(3, 0x20, &mut irq);
    send(&mut cd, &mut irq, 0x01, &[]);
    pump(&mut cd, &mut irq, 0xC4E1);
    cd.write8(0, 1, &mut irq);
    let flags = cd.read8(3);
    assert_eq!(flags & 0x17, 0x13, "SMEN + INT3 is INT13h (got {flags:#x})");
    ack_irq(&mut cd, &mut irq);

    let disc = two_track_disc();
    let mut cd = Cdrom::new();
    cd.insert(disc);
    enable(&mut cd, &mut irq);
    send(&mut cd, &mut irq, 0x0C, &[]);
    pump(&mut cd, &mut irq, 0xC4E1);
    ack_irq(&mut cd, &mut irq);
    cd.write8(0, 2, &mut irq);
    cd.write8(2, 0, &mut irq);
    cd.write8(3, 0, &mut irq);
    cd.write8(0, 3, &mut irq);
    cd.write8(1, 0, &mut irq);
    cd.write8(2, 0, &mut irq);
    cd.write8(3, 0x20, &mut irq);
    send(&mut cd, &mut irq, 0x03, &[0x02]);
    pump(&mut cd, &mut irq, 0xC4E1);
    ack_irq(&mut cd, &mut irq);
    pump(&mut cd, &mut irq, 451_584);
    let muted = cd.take_analog();
    assert_eq!(muted, (0, 0), "ATV 0 applied is silent CD-DA");

    let mut cd = Cdrom::new();
    enable(&mut cd, &mut irq);
    cd.write8(0, 2, &mut irq);
    cd.write8(1, 0x01, &mut irq);
    cd.write8(0, 1, &mut irq);
    for _ in 0..18 {
        for _ in 0..16 {
            cd.write8(1, 0, &mut irq);
        }
        for _ in 0..112 {
            cd.write8(1, 0x07, &mut irq);
        }
    }
    let sm = cd.take_analog();
    assert_eq!(
        sm,
        (0x7000, 0),
        "Sound Map decodes 4-bit XA-ADPCM (nibble 7, shift 0) not raw PCM of the header bytes"
    );

    let disc = xa_and_bad_disc();
    let mut cd = Cdrom::new();
    cd.insert(disc);
    enable(&mut cd, &mut irq);
    send(&mut cd, &mut irq, 0x0C, &[]);
    pump(&mut cd, &mut irq, 0xC4E1);
    ack_irq(&mut cd, &mut irq);
    send(&mut cd, &mut irq, 0x0E, &[0x40]);
    pump(&mut cd, &mut irq, 0xC4E1);
    ack_irq(&mut cd, &mut irq);
    send(&mut cd, &mut irq, 0x02, &[0x00, 0x02, 0x04]);
    pump(&mut cd, &mut irq, 0xC4E1);
    ack_irq(&mut cd, &mut irq);
    send(&mut cd, &mut irq, 0x06, &[]);
    pump(&mut cd, &mut irq, 0xC4E1);
    ack_irq(&mut cd, &mut irq);
    pump(&mut cd, &mut irq, 2_000_000);
    assert_eq!(
        hintsts(&mut cd, &mut irq) & 7,
        0,
        "XA-ADPCM (Setmode.6, MODE2 audio+realtime) must not raise CPU INT1"
    );
    let xa = cd.take_analog();
    assert_ne!(xa, (0, 0), "XA-ADPCM goes to analog/SPU");
    send(&mut cd, &mut irq, 0x09, &[]);
    pump(&mut cd, &mut irq, 0xC4E1);
    ack_irq(&mut cd, &mut irq);
    pump(&mut cd, &mut irq, 0x0021_181C);
    ack_irq(&mut cd, &mut irq);
    send(&mut cd, &mut irq, 0x0D, &[0x02, 0x02]);
    pump(&mut cd, &mut irq, 0xC4E1);
    ack_irq(&mut cd, &mut irq);
    send(&mut cd, &mut irq, 0x0E, &[0x48]);
    pump(&mut cd, &mut irq, 0xC4E1);
    ack_irq(&mut cd, &mut irq);
    send(&mut cd, &mut irq, 0x02, &[0x00, 0x02, 0x04]);
    pump(&mut cd, &mut irq, 0xC4E1);
    ack_irq(&mut cd, &mut irq);
    send(&mut cd, &mut irq, 0x06, &[]);
    pump(&mut cd, &mut irq, 0xC4E1);
    ack_irq(&mut cd, &mut irq);
    pump(&mut cd, &mut irq, 2_000_000);
    let _ = cd.take_analog();
    assert_eq!(
        cd.take_analog(),
        (0, 0),
        "Setmode filter drops non-matching XA file/channel"
    );
}

#[test]
fn readn_retries_bad_sector_reads_does_not() {
    let disc = xa_and_bad_disc();
    let mut cd = Cdrom::new();
    cd.insert(disc);
    let mut irq = Irq::new();
    enable(&mut cd, &mut irq);
    send(&mut cd, &mut irq, 0x0E, &[0x80]);
    pump(&mut cd, &mut irq, 0xC4E1);
    ack_irq(&mut cd, &mut irq);
    send(&mut cd, &mut irq, 0x02, &[0x00, 0x02, 0x05]);
    pump(&mut cd, &mut irq, 0xC4E1);
    ack_irq(&mut cd, &mut irq);
    send(&mut cd, &mut irq, 0x15, &[]);
    pump(&mut cd, &mut irq, 0xC4E1);
    ack_irq(&mut cd, &mut irq);
    pump(&mut cd, &mut irq, 451_584);
    ack_irq(&mut cd, &mut irq);
    send(&mut cd, &mut irq, 0x06, &[]);
    pump(&mut cd, &mut irq, 0xC4E1);
    ack_irq(&mut cd, &mut irq);
    pump(&mut cd, &mut irq, 225_792);
    assert_eq!(
        hintsts(&mut cd, &mut irq),
        0,
        "ReadN retries a bad sector instead of INT1/INT5 on the first attempt"
    );
    pump(&mut cd, &mut irq, 225_792 * 4);
    assert_eq!(hintsts(&mut cd, &mut irq), 5, "ReadN gives up with INT5");
    ack_irq(&mut cd, &mut irq);

    let disc = xa_and_bad_disc();
    let mut cd = Cdrom::new();
    cd.insert(disc);
    enable(&mut cd, &mut irq);
    send(&mut cd, &mut irq, 0x0E, &[0x80]);
    pump(&mut cd, &mut irq, 0xC4E1);
    ack_irq(&mut cd, &mut irq);
    send(&mut cd, &mut irq, 0x02, &[0x00, 0x02, 0x05]);
    pump(&mut cd, &mut irq, 0xC4E1);
    ack_irq(&mut cd, &mut irq);
    send(&mut cd, &mut irq, 0x15, &[]);
    pump(&mut cd, &mut irq, 0xC4E1);
    ack_irq(&mut cd, &mut irq);
    pump(&mut cd, &mut irq, 451_584);
    ack_irq(&mut cd, &mut irq);
    send(&mut cd, &mut irq, 0x1B, &[]);
    pump(&mut cd, &mut irq, 0xC4E1);
    ack_irq(&mut cd, &mut irq);
    pump(&mut cd, &mut irq, 225_792);
    assert_eq!(
        hintsts(&mut cd, &mut irq),
        5,
        "ReadS does not retry: INT5 after one sector time"
    );
}

#[test]
fn shell_open_int5_and_unlicensed_getid() {
    let mut cd = Cdrom::new();
    let mut irq = Irq::new();
    enable(&mut cd, &mut irq);
    cd.open_shell(&mut irq);
    assert_eq!(hintsts(&mut cd, &mut irq), 5, "shell-open INT5");
    assert_eq!(result_bytes(&mut cd, 2)[1], 0x80);
    ack_irq(&mut cd, &mut irq);
    cd.close_shell();

    let disc = unlicensed_disc();
    let mut cd = Cdrom::new();
    cd.insert(disc);
    enable(&mut cd, &mut irq);
    send(&mut cd, &mut irq, 0x1A, &[]);
    pump(&mut cd, &mut irq, 0xC4E1);
    assert_eq!(hintsts(&mut cd, &mut irq), 3);
    ack_irq(&mut cd, &mut irq);
    pump(&mut cd, &mut irq, 50_000);
    assert_eq!(hintsts(&mut cd, &mut irq), 5, "unlicensed GetID INT5");
    let id = result_bytes(&mut cd, 8);
    assert_eq!(id[0], 0x0A);
    assert_eq!(id[1], 0x80);
}
