use rsx::cdrom::Cdrom;
use rsx::dma::{read_word, write_word, Dma};
use rsx::gpu::Gpu;
use rsx::irq::Irq;
use rsx::spu::Spu;

fn xy(x: i32, y: i32) -> u32 {
    (x as u16 as u32) | ((y as u16 as u32) << 16)
}

fn poke(ram: &mut Vec<u8>, addr: u32, v: u32) {
    write_word(ram, addr, v);
}

fn peek(ram: &Vec<u8>, addr: u32) -> u32 {
    read_word(ram, addr)
}

#[test]
fn otc_then_linked_list_delivers_far_then_near() {
    let mut dma = Dma::new();
    let mut ram = vec![0u8; 0x20_0000];
    let mut gpu = Gpu::new();
    let mut spu = Spu::new();
    let mut cdrom = Cdrom::new();
    let mut irq = Irq::new();

    gpu.gp0(0xE3 << 24);
    gpu.gp0(0xE4 << 24 | 1023 | (511 << 10));

    dma.write32(
        0x1F80_10F0,
        0xFFFF_FFFF,
        &mut ram,
        &mut gpu,
        &mut spu,
        &mut cdrom,
        &mut irq,
    );

    // Four-entry OT at 0x1000. MADR = last entry.
    dma.write32(
        0x1F80_10E0,
        0x100C,
        &mut ram,
        &mut gpu,
        &mut spu,
        &mut cdrom,
        &mut irq,
    );
    dma.write32(
        0x1F80_10E4,
        4,
        &mut ram,
        &mut gpu,
        &mut spu,
        &mut cdrom,
        &mut irq,
    );
    dma.write32(
        0x1F80_10E8,
        0x1100_0002,
        &mut ram,
        &mut gpu,
        &mut spu,
        &mut cdrom,
        &mut irq,
    );
    dma.tick(64, &mut ram, &mut gpu, &mut spu, &mut cdrom, &mut irq);

    assert_eq!(peek(&ram, 0x1000), 0x00FF_FFFF, "OTC last written is end");
    assert_eq!(peek(&ram, 0x1004), 0x1000);
    assert_eq!(peek(&ram, 0x1008), 0x1004);
    assert_eq!(peek(&ram, 0x100C), 0x1008);

    // Far (OTZ=3) red triangle, then near (OTZ=1) blue overlapping it.
    // Insert prepends: [pkt] = OT[z] | (N<<24); OT[z] = pkt.
    poke(&mut ram, 0x2000, (4 << 24) | 0x1008);
    poke(&mut ram, 0x2004, 0x20 << 24 | 0x0000F8);
    poke(&mut ram, 0x2008, xy(10, 10));
    poke(&mut ram, 0x200C, xy(40, 10));
    poke(&mut ram, 0x2010, xy(10, 40));
    poke(&mut ram, 0x100C, 0x2000);

    poke(&mut ram, 0x2100, (4 << 24) | 0x1000);
    poke(&mut ram, 0x2104, 0x20 << 24 | 0xF80000);
    poke(&mut ram, 0x2108, xy(15, 12));
    poke(&mut ram, 0x210C, xy(35, 12));
    poke(&mut ram, 0x2110, xy(15, 32));
    poke(&mut ram, 0x1004, 0x2100);

    dma.write32(
        0x1F80_10A0,
        0x100C,
        &mut ram,
        &mut gpu,
        &mut spu,
        &mut cdrom,
        &mut irq,
    );
    dma.write32(
        0x1F80_10A8,
        0x0100_0401,
        &mut ram,
        &mut gpu,
        &mut spu,
        &mut cdrom,
        &mut irq,
    );
    for _ in 0..50_000 {
        if !dma.active() && gpu.fifo_is_empty() && !gpu.busy() {
            break;
        }
        gpu.tick(1, 0, false);
        dma.tick(1, &mut ram, &mut gpu, &mut spu, &mut cdrom, &mut irq);
    }

    let overlap = gpu.vram_rect(16, 13, 8, 8);
    let blue = overlap
        .pixels
        .iter()
        .filter(|p| **p & 0x7FFF == 0x7C00)
        .count();
    let red = overlap
        .pixels
        .iter()
        .filter(|p| **p & 0x7FFF == 0x001F)
        .count();
    assert!(
        blue > 8 && red == 0,
        "far then near: overlap must be the near (blue) primitive (blue={blue} red={red} pix={:04X?})",
        overlap.pixels
    );
}

#[test]
fn a_second_channel_does_not_drop_a_waiting_one() {
    let mut dma = Dma::new();
    let mut ram = vec![0u8; 0x20_0000];
    let mut gpu = Gpu::new();
    let mut spu = Spu::new();
    let mut cdrom = Cdrom::new();
    let mut irq = Irq::new();

    gpu.gp0(0xE3 << 24);
    gpu.gp0(0xE4 << 24 | 1023 | (511 << 10));

    dma.write32(
        0x1F80_10F0,
        0xFFFF_FFFF,
        &mut ram,
        &mut gpu,
        &mut spu,
        &mut cdrom,
        &mut irq,
    );

    poke(&mut ram, 0x3000, 0xDEAD_BEEF);
    poke(&mut ram, 0x2000, (4 << 24) | 0x00FF_FFFF);
    poke(&mut ram, 0x2004, 0x20 << 24 | 0x0000F8);
    poke(&mut ram, 0x2008, xy(10, 10));
    poke(&mut ram, 0x200C, xy(40, 10));
    poke(&mut ram, 0x2010, xy(10, 40));

    // OTC 64 words, then CD, then GPU — the third start used to overwrite the
    // waiting CD channel and leave it busy forever.
    dma.write32(
        0x1F80_10E0,
        0x80,
        &mut ram,
        &mut gpu,
        &mut spu,
        &mut cdrom,
        &mut irq,
    );
    dma.write32(
        0x1F80_10E4,
        64,
        &mut ram,
        &mut gpu,
        &mut spu,
        &mut cdrom,
        &mut irq,
    );
    dma.write32(
        0x1F80_10E8,
        0x1100_0002,
        &mut ram,
        &mut gpu,
        &mut spu,
        &mut cdrom,
        &mut irq,
    );
    dma.write32(
        0x1F80_10B0,
        0x3000,
        &mut ram,
        &mut gpu,
        &mut spu,
        &mut cdrom,
        &mut irq,
    );
    dma.write32(
        0x1F80_10B4,
        1,
        &mut ram,
        &mut gpu,
        &mut spu,
        &mut cdrom,
        &mut irq,
    );
    dma.write32(
        0x1F80_10B8,
        0x1100_0000,
        &mut ram,
        &mut gpu,
        &mut spu,
        &mut cdrom,
        &mut irq,
    );
    dma.write32(
        0x1F80_10A0,
        0x2000,
        &mut ram,
        &mut gpu,
        &mut spu,
        &mut cdrom,
        &mut irq,
    );
    dma.write32(
        0x1F80_10A8,
        0x0100_0401,
        &mut ram,
        &mut gpu,
        &mut spu,
        &mut cdrom,
        &mut irq,
    );

    for _ in 0..20_000 {
        if !dma.active()
            && dma.read32(0x1F80_10E8) & (1 << 24) == 0
            && dma.read32(0x1F80_10B8) & (1 << 24) == 0
            && dma.read32(0x1F80_10A8) & (1 << 24) == 0
            && gpu.fifo_is_empty()
            && !gpu.busy()
        {
            break;
        }
        gpu.tick(1, 0, false);
        dma.tick(1, &mut ram, &mut gpu, &mut spu, &mut cdrom, &mut irq);
    }

    assert_eq!(
        dma.read32(0x1F80_10E8) & (1 << 24),
        0,
        "OTC CHCR must complete"
    );
    assert_eq!(
        dma.read32(0x1F80_10B8) & (1 << 24),
        0,
        "CD CHCR must complete, not stay queued behind GPU"
    );
    assert_eq!(
        dma.read32(0x1F80_10A8) & (1 << 24),
        0,
        "GPU CHCR must complete"
    );
    assert_ne!(
        peek(&ram, 0x3000),
        0xDEAD_BEEF,
        "CD DMA must still write its destination"
    );
    let pix = gpu.vram_rect(12, 12, 8, 8);
    let red = pix.pixels.iter().filter(|p| **p & 0x7FFF == 0x001F).count();
    assert!(red > 4, "GPU list must still draw (red={red})");
}

#[test]
fn cd_runs_while_gpu_dma_waits_on_a_full_fifo() {
    let mut dma = Dma::new();
    let mut ram = vec![0u8; 0x20_0000];
    let mut gpu = Gpu::new();
    let mut spu = Spu::new();
    let mut cdrom = Cdrom::new();
    let mut irq = Irq::new();

    gpu.gp0(0xE3 << 24);
    gpu.gp0(0xE4 << 24 | 1023 | (511 << 10));
    gpu.gp0(0x02 << 24);
    gpu.gp0(0);
    gpu.gp0(256 | (256 << 16));
    gpu.tick(3, 0, false);
    assert!(gpu.busy(), "256×256 fill must still be drawing");
    for _ in 0..16 {
        gpu.gp0(0xE1 << 24);
    }
    assert!(gpu.fifo_full());

    dma.write32(
        0x1F80_10F0,
        0xFFFF_FFFF,
        &mut ram,
        &mut gpu,
        &mut spu,
        &mut cdrom,
        &mut irq,
    );
    poke(&mut ram, 0x3000, 0xDEAD_BEEF);
    dma.write32(
        0x1F80_10A0,
        0x4000,
        &mut ram,
        &mut gpu,
        &mut spu,
        &mut cdrom,
        &mut irq,
    );
    dma.write32(
        0x1F80_10A4,
        0x0001_0020,
        &mut ram,
        &mut gpu,
        &mut spu,
        &mut cdrom,
        &mut irq,
    );
    dma.write32(
        0x1F80_10A8,
        0x0100_0201,
        &mut ram,
        &mut gpu,
        &mut spu,
        &mut cdrom,
        &mut irq,
    );
    dma.write32(
        0x1F80_10B0,
        0x3000,
        &mut ram,
        &mut gpu,
        &mut spu,
        &mut cdrom,
        &mut irq,
    );
    dma.write32(
        0x1F80_10B4,
        1,
        &mut ram,
        &mut gpu,
        &mut spu,
        &mut cdrom,
        &mut irq,
    );
    dma.write32(
        0x1F80_10B8,
        0x1100_0000,
        &mut ram,
        &mut gpu,
        &mut spu,
        &mut cdrom,
        &mut irq,
    );

    for _ in 0..64 {
        gpu.tick(1, 0, false);
        dma.tick(1, &mut ram, &mut gpu, &mut spu, &mut cdrom, &mut irq);
    }
    assert!(gpu.busy(), "fill must still occupy the GPU");
    assert_eq!(
        dma.read32(0x1F80_10B8) & (1 << 24),
        0,
        "CD must complete while GPU DMA is stalled on a full FIFO"
    );
    assert_ne!(peek(&ram, 0x3000), 0xDEAD_BEEF);
}

#[test]
fn dicr_write_leaving_flags_set_does_not_raise_istat_again() {
    let mut dma = Dma::new();
    let mut ram = vec![0u8; 0x20_0000];
    let mut gpu = Gpu::new();
    let mut spu = Spu::new();
    let mut cdrom = Cdrom::new();
    let mut irq = Irq::new();
    // Enable the OTC interrupt and run a short OTC transfer to flag channel 6.
    dma.write32(0x1F80_10F0, 0xFFFF_FFFF, &mut ram, &mut gpu, &mut spu, &mut cdrom, &mut irq);
    dma.write32(0x1F80_10F4, 0x0080_0000 | (1 << 22), &mut ram, &mut gpu, &mut spu, &mut cdrom, &mut irq);
    dma.write32(0x1F80_10E0, 0x100C, &mut ram, &mut gpu, &mut spu, &mut cdrom, &mut irq);
    dma.write32(0x1F80_10E4, 4, &mut ram, &mut gpu, &mut spu, &mut cdrom, &mut irq);
    dma.write32(0x1F80_10E8, 0x1100_0002, &mut ram, &mut gpu, &mut spu, &mut cdrom, &mut irq);
    dma.tick(64, &mut ram, &mut gpu, &mut spu, &mut cdrom, &mut irq);
    let d = dma.read32(0x1F80_10F4);
    assert_eq!(d >> 31, 1, "channel 6 flagged with its interrupt enabled sets the master flag");
    assert_ne!(irq.read16(0x1F80_1070) & 8, 0, "the master flag's rise raised I_STAT.3");
    // The guest acknowledges I_STAT.3, then rewrites DICR keeping the enables and the flag.
    irq.write16(0x1F80_1070, !8u16);
    assert_eq!(irq.read16(0x1F80_1070) & 8, 0);
    let v = d & 0x00FF_FFFF;
    dma.write32(0x1F80_10F4, v, &mut ram, &mut gpu, &mut spu, &mut cdrom, &mut irq);
    assert_eq!(irq.read16(0x1F80_1070) & 8, 0, "no new 0-to-1 edge of DICR.31");
    let d2 = dma.read32(0x1F80_10F4);
    assert_eq!(d2 >> 31, 1);
    assert_eq!((d2 >> 24) & 0x7F, (d >> 24) & 0x7F);
}
