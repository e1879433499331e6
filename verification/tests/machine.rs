use rsx::bios::BiosError;
use rsx::cop0::{EXC_INT, EXC_OVF};
use rsx::machine::Machine;
use rsx::{cycles_in_nanos, DisplayArea};

const BIOS_LEN: usize = 512 * 1024;

fn bios_with_program(words: &[u32]) -> Vec<u8> {
    let mut data = vec![0u8; BIOS_LEN];
    for (i, w) in words.iter().enumerate() {
        let off = i * 4;
        data[off..off + 4].copy_from_slice(&w.to_le_bytes());
    }
    data
}

fn machine(words: &[u32]) -> Machine {
    match Machine::from_bios(bios_with_program(words)) {
        Ok(m) => m,
        Err(_) => panic!("a 512 KiB BIOS must load"),
    }
}

#[test]
fn display_area_to_rgb888_expands_rgb555() {
    let area = DisplayArea {
        width: 1,
        height: 1,
        pixels: vec![0x001F],
        bpp24: false,
    };
    assert_eq!(area.to_rgb888(), vec![0xF8, 0, 0]);
}

#[test]
fn one_wall_second_is_the_master_crystal() {
    assert_eq!(cycles_in_nanos(1_000_000_000), 33_868_800);
    assert_eq!(cycles_in_nanos(500_000_000), 16_934_400);
    assert_eq!(cycles_in_nanos(0), 0);
}

#[test]
fn bios_must_be_512_kib() {
    let err = match Machine::from_bios(vec![0u8; 16]) {
        Err(e) => e,
        Ok(_) => panic!("expected wrong-size BIOS to fail"),
    };
    assert!(matches!(err, BiosError::WrongSize { got: 16 }));
}

#[test]
fn reset_fetches_from_bios_reset_vector() {
    let m = machine(&[0x3C08_0013]);
    assert_eq!(m.pc(), 0xBFC0_0000);
}

#[test]
fn inspect_is_idle_on_reset() {
    let m = machine(&[0x3C08_0013]);
    let cd = m.cd_view();
    assert!(!cd.reading);
    assert!(!cd.motor);
    assert_eq!(cd.lba, 0);
    assert!(cd.pending_cycles.is_none());
    assert_eq!(cd.fifo_bytes, 0);
    assert_eq!(m.dma_job_mask(), 0);
    assert_eq!(m.gpu_fifo_len(), 0);
    assert!(!m.gpu_busy());
    assert_eq!(m.write_queue_len(), 0);
    assert!(!m.ram_blocked());
}

#[test]
fn lui_loads_upper_immediate() {
    let mut m = machine(&[0x3C08_0013, 0x0000_0000]);
    m.step();
    assert_eq!(m.gpr(8), 0x0013_0000);
    assert_eq!(m.pc(), 0xBFC0_0004);
}

#[test]
fn ori_combines_with_lui() {
    let mut m = machine(&[0x3C08_0013, 0x3508_243F]);
    m.step();
    m.step();
    assert_eq!(m.gpr(8), 0x0013_243F);
}

#[test]
fn bne_skips_fallthrough_after_delay_slot() {
    let mut m = machine(&[
        0x2409_0001,
        0x1520_0002,
        0x0000_0000,
        0x240A_00FF,
        0x240A_0012,
    ]);
    for _ in 0..8 {
        m.step();
    }
    assert_eq!(m.gpr(10), 0x12, "BNE must jump over the fall-through");
}

#[test]
fn addi_overflow_takes_the_ovf_exception() {
    let mut m = machine(&[0x3C08_7FFF, 0x3508_FFFF, 0x2109_0001]);
    m.step();
    m.step();
    m.step();
    let (code, pc, _) = m.last_exception().expect("ADDI overflow must raise an exception");
    assert_eq!(code, EXC_OVF, "EXC_OVF");
    assert_eq!(pc, 0xBFC0_0008, "EPC is the ADDI");
    assert_eq!(m.gpr(9), 0, "overflow must not write the dest");
}

#[test]
fn irq_on_cop2cmd_executes_gte_then_epc_points_at_it() {
    let mut m = machine(&[
        0x3C08_4040,
        0x3508_0100,
        0x4088_6000,
        0x2409_0100,
        0x4089_6800,
        0x2408_0004,
        0x4888_4800,
        0x0000_0000,
        0x0000_0000,
        0x3C08_4040,
        0x3508_0101,
        0x4088_6000,
        0x4A00_0028,
        0x240A_00FF,
    ]);
    for _ in 0..13 {
        m.step();
    }
    let (code, pc, _) = m.last_exception().expect("IRQ must fire on the cop2cmd");
    assert_eq!(code, EXC_INT, "EXC_INT");
    assert_eq!(pc, 0xBFC0_0030, "EPC is the cop2cmd, not the next opcode");
    assert_eq!(m.gte_op_counts()[0x28], 1, "SQR must run once before the handler");
    assert_eq!(m.gpr(10), 0, "the opcode after cop2cmd must not execute");
    assert_eq!(m.pc(), 0xBFC0_0180, "BEV=1 general exception vector");
}

#[test]
fn run_until_cycle_reaches_the_target() {
    let mut m = machine(&[0x3C08_0013, 0x0000_0000]);
    let c0 = m.cycles();
    m.run_until_cycle(c0 + 100);
    assert!(m.cycles() >= c0 + 100, "must not stop short of the target");
    assert!(m.cycles() < c0 + 100 + 64, "must not overshoot more than one instruction");
    let pc = m.pc();
    let cycles = m.cycles();
    m.run_until_cycle(cycles);
    assert_eq!(m.cycles(), cycles, "already-there is a no-op");
    assert_eq!(m.pc(), pc);
    m.run_until_cycle(0);
    assert_eq!(m.cycles(), cycles, "must not rewind the crystal");
}

#[test]
fn timer2_sysclk8_counts_across_short_ticks() {
    let mut m = machine(&[0x3C08_1F80, 0x3508_1124, 0x2409_0200, 0xA509_0000]);
    for _ in 0..8 {
        m.step();
    }
    let before = m.timer_value(2);
    for _ in 0..40 {
        m.step();
    }
    let after = m.timer_value(2);
    assert!(after > before, "Timer 2 in sysclk/8 must count");
}

#[test]
fn dma_irq_does_not_fire_on_the_start_write() {
    let mut m = machine(&[
        0x3C08_1F80,
        0x3508_10F0,
        0x8D09_0000,
        0x0000_0000,
        0x3C0A_0800,
        0x012A_4825,
        0xAD09_0000,
        0x3C09_00C0,
        0xAD09_0004,
        0x3C08_1F80,
        0x3508_10E0,
        0x2409_0080,
        0xAD09_0000,
        0x2409_0004,
        0xAD09_0004,
        0x3C09_1100,
        0x3529_0002,
        0xAD09_0008,
    ]);
    for _ in 0..24 {
        m.step();
    }
    for _ in 0..200 {
        m.step();
    }
    assert_eq!(m.irq_stat() & (1 << 3), 1 << 3, "IRQ3 after the transfer duration");
}

#[test]
fn ram_word_reads_back_a_store() {
    let mut m = machine(&[
        0x3C08_8000, // lui t0, 0x8000
        0x3C09_1234, // lui t1, 0x1234
        0x3529_5678, // ori t1, t1, 0x5678
        0xAD09_0100, // sw t1, 0x100(t0)
        0x0000_0000,
    ]);
    for _ in 0..5 {
        m.step();
    }
    assert_eq!(m.ram_word(0x8000_0100), 0x1234_5678);
    assert_eq!(m.ram_word(0xA000_0100), 0x1234_5678, "KSEG1 mirrors the same RAM");
}

#[test]
fn pad_injection_plugs_slot_one() {
    let mut m = machine(&[0]);
    rsx::machine::inject(&mut m, Some(0xFFFE));
    assert_eq!(m.bus.joy.slot1, Some(0xFFFE));
    rsx::machine::inject(&mut m, None);
    assert_eq!(m.bus.joy.slot1, None);
}

#[test]
fn display_hash_is_fnv_of_pixels_and_size() {
    let area = DisplayArea {
        width: 2,
        height: 1,
        pixels: vec![1, 2],
        bpp24: false,
    };
    let mut h: u64 = 0xcbf29ce484222325;
    for v in [1u64, 2, 2, 1] {
        h ^= v;
        h = h.wrapping_mul(0x100000001b3);
    }
    assert_eq!(rsx::machine::hash_pixels(&area), h);
}

#[test]
fn load_lands_after_the_delay_slot() {
    let mut m = machine(&[
        0x3C09_1234, // lui r9, 1234h
        0x3529_5678, // ori r9, r9, 5678h
        0xAC09_0100, // sw r9, 100h(r0)
        0x8C08_0100, // lw r8, 100h(r0)
        0x0100_5021, // addu r10, r8, r0 (delay slot: old r8)
        0x0100_5821, // addu r11, r8, r0
        0x0009_6103, // sra r12, r9, 4
        0x0129_0018, // mult r9, r9
        0x0000_6812, // mflo r13
        0x0000_7010, // mfhi r14
    ]);
    for _ in 0..10 {
        m.step();
    }
    assert_eq!(m.ram_word(0x100), 0x1234_5678);
    assert_eq!(m.gpr(10), 0);
    assert_eq!(m.gpr(11), 0x1234_5678);
    assert_eq!(m.gpr(12), 0x0123_4567);
    assert_eq!(m.gpr(13), 0x1DF4_D840);
    assert_eq!(m.gpr(14), 0x014B_66DC);
}

#[test]
fn run_until_cycle_mixes_one_spu_frame_per_768_clocks() {
    let mut m = machine(&[0x0000_0000]);
    let _ = m.take_audio();
    let c0 = m.cycles();
    m.run_until_cycle(c0 + 768 * 16);
    let pcm = m.take_audio();
    assert_eq!(
        pcm.len(),
        32,
        "16 SPU frames are 16 stereo pairs (got {} samples after {} cycles)",
        pcm.len(),
        m.cycles() - c0
    );
}

#[test]
fn lwr_then_lwl_read_an_unaligned_word() {
    let mut m = machine(&[
        0x3C09_1122, // lui r9, 1122h
        0x3529_3344, // ori r9, r9, 3344h
        0xAC09_0100, // sw r9, 100h(r0)
        0x3C09_5566, // lui r9, 5566h
        0x3529_7788, // ori r9, r9, 7788h
        0xAC09_0104, // sw r9, 104h(r0)
        0x9808_0101, // lwr r8, 101h(r0)
        0x8808_0104, // lwl r8, 104h(r0)
        0x0000_0000, // nop
        0x0000_0000, // nop
    ]);
    for _ in 0..10 {
        m.step();
    }
    assert_eq!(m.gpr(8), 0x8811_2233);
}

#[test]
fn each_instruction_advances_the_master_clock() {
    let mut m = machine(&[
        0x3C08_0013, // lui $t0, 0x0013
        0x3508_243F, // ori $t0, $t0, 0x243f
    ]);
    let c0 = m.cycles();
    m.step();
    let first = m.cycles() - c0;
    assert!((27..=33).contains(&first), "uncached BIOS fetch is 27..33 (SPX), got {first}");
    let c1 = m.cycles();
    m.step();
    let second = m.cycles() - c1;
    assert!((27..=33).contains(&second), "second BIOS fetch is 27..33, got {second}");
    assert_eq!(rsx::CPU_HZ % 768, 0, "SPU 44100 must divide the master crystal");
}

#[test]
fn ram_load_stalls_while_otc_owns_ram() {
    let mut m = machine(&[
        0x3C08_1F80, // lui t0, 0x1F80
        0x3508_10F0, // ori t0, t0, 0x10F0  DPCR
        0x8D09_0000, // lw t1, 0(t0)
        0x0000_0000, // nop
        0x3C0A_0800, // lui t2, 0x0800      ch6 enable
        0x012A_4825, // or t1, t1, t2
        0xAD09_0000, // sw t1, 0(t0)
        0x3C08_1F80, // lui t0, 0x1F80
        0x3508_10E0, // ori t0, t0, 0x10E0  DMA6
        0x2409_0080, // addiu t1, zero, 0x80
        0xAD09_0000, // sw t1, 0(t0)        MADR
        0x2409_0200, // addiu t1, zero, 0x200  512 words
        0xAD09_0004, // sw t1, 4(t0)        BCR
        0x3C09_1100, // lui t1, 0x1100
        0x3529_0002, // ori t1, t1, 2
        0xAD09_0008, // sw t1, 8(t0)        CHCR start
        0x8C0B_0100, // lw t3, 0x100(zero)  RAM — stalls until OTC releases the bus
        0x0000_0000, // nop
    ]);
    for _ in 0..16 {
        m.step();
    }
    let c0 = m.cycles();
    m.step();
    let dt = m.cycles() - c0;
    assert!(dt > 200, "lw from RAM must wait for OTC (512 words); got {dt}");
}

#[test]
fn ram_word_load_from_bios_adds_seven() {
    // lw t0, 0(zero)  — data from RAM, fetch from uncached BIOS.
    let mut m = machine(&[0x8C08_0000]);
    let c0 = m.cycles();
    m.step();
    let dt = m.cycles() - c0;
    assert!((34..=40).contains(&dt), "BIOS fetch 27..33 plus RAM lw 7, got {dt}");
}

#[test]
fn scratchpad_reads_back_and_unmapped_reads_open_bus() {
    let mut bus = rsx::bus::Bus::new(vec![0u8; BIOS_LEN]);
    bus.write32(0x1F80_0010, 0xDEAD_BEEF);
    assert_eq!(bus.read32(0x1F80_0010), Some(0xDEAD_BEEF));
    assert_eq!(bus.read32(0x9F80_0010), Some(0xDEAD_BEEF), "KSEG0 mirrors the scratchpad");
    assert_eq!(bus.read32(0x1F80_2100), Some(0xFFFF_FFFF), "nothing decodes here");
}
