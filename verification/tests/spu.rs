use rsx::spu::Spu;

#[test]
fn dma_write_lands_in_sound_ram_and_moves_on() {
    let mut spu = Spu::new();
    spu.write16(0x1F80_1DA6, 0x0010); // transfer address 80h
    spu.dma_write16(0xBEEF);
    spu.dma_write16(0x1234);
    assert_eq!(spu.ram16(0x80), 0xBEEF);
    assert_eq!(spu.ram16(0x82), 0x1234);
    assert_eq!(spu.transfer_addr, 0x84);
}

#[test]
fn irq_address_hit_latches_until_taken() {
    let mut spu = Spu::new();
    spu.write16(0x1F80_1DA4, 0x0010); // IRQ address 80h
    spu.write16(0x1F80_1DAA, 0xC040); // enable, unmute, IRQ enable
    spu.write16(0x1F80_1DA6, 0x0010);
    spu.dma_write16(1);
    assert_ne!(spu.read16(0x1F80_1DAE) & 0x40, 0, "SPUSTAT.6");
    assert!(spu.take_irq());
    assert!(!spu.take_irq());
}

#[test]
fn spucnt_mode_shows_in_spustat() {
    let mut spu = Spu::new();
    spu.write16(0x1F80_1DAA, 0x0020); // DMA write mode
    let stat = spu.read16(0x1F80_1DAE);
    assert_eq!(stat & 0x3F, 0x20);
    assert_ne!(stat & 0x100, 0, "DMA write request");
    assert_ne!(stat & 0x80, 0, "DMA busy flag");
}

#[test]
fn key_on_starts_voice_at_its_start_address() {
    let mut spu = Spu::new();
    spu.write16(0x1F80_1C06, 0x0200); // voice 0 start address 1000h
    spu.write16(0x1F80_1D88, 0x0001); // KON voice 0
    assert_eq!(spu.voices[0].current_addr, 0x1000);
    assert!(spu.voices[0].started);
    spu.write16(0x1F80_1D8C, 0x0001); // KOFF voice 0
    assert_eq!(spu.voices[0].phase, rsx::spu::Phase::Release);
}

#[test]
fn sample_clock_wraps_at_768_cycles() {
    let mut spu = Spu::new();
    spu.tick(700);
    assert_eq!(spu.cycle_accum, 700);
    spu.tick(100);
    assert_eq!(spu.cycle_accum, 32);
}

const CYCLES_PER_SAMPLE: u32 = 768;

fn silent_loop() -> [u8; 16] {
    let mut b = [0u8; 16];
    b[1] = 0b011; // loop end + repeat
    b
}

fn tone_block(shift: u8, nibble: u8) -> [u8; 16] {
    let mut b = [0u8; 16];
    b[0] = shift & 0xF;
    b[1] = 0b011;
    let packed = nibble | (nibble << 4);
    for i in 2..16 {
        b[i] = packed;
    }
    b
}

fn spu_with_tone() -> Spu {
    let mut s = Spu::new();
    s.ram[0x1000..0x1010].copy_from_slice(&tone_block(0, 7));
    s.regs[0xD5] = 0xC000; // enable + unmute
    s.applied_mode = 0;
    // voice 0: vol L/R mid, pitch 1000h, start 1000h/8
    s.regs[0] = 0x3FFF;
    s.regs[1] = 0x3FFF;
    s.regs[2] = 0x1000;
    s.regs[3] = 0x1000 / 8;
    // ADSR: fastest linear attack, sustain full, slow release
    s.regs[4] = 0x80FF; // attack shift 0 step 0, sustain level F
    s.regs[5] = 0x1F00; // release shift 1Fh (slow)
    s.regs[0xC0] = 0x3FFF;
    s.regs[0xC1] = 0x3FFF;
    s.key_on(1);
    s
}

#[test]
fn adpcm_filter0_decodes_constant_nibble() {
    let mut s = Spu::new();
    s.ram[0x1000..0x1010].copy_from_slice(&tone_block(0, 7));
    s.voices[0].current_addr = 0x1000;
    s.voices[0].started = true;
    s.decode_block(0);
    // nibble 7, shift 0 → 7<<12 = 0x7000
    assert_eq!(s.voices[0].decoded[0], 0x7000);
    assert_eq!(s.voices[0].decoded[27], 0x7000);
}

#[test]
fn seven_hundred_sixty_eight_cycles_emit_one_stereo_frame() {
    let mut s = spu_with_tone();
    assert!(s.take_samples().is_empty());
    s.tick(767);
    assert!(s.take_samples().is_empty());
    s.tick(1);
    let pcm = s.take_samples();
    assert_eq!(pcm.len(), 2, "one stereo pair");
}

#[test]
fn master_volume_zero_is_silent() {
    let mut s = spu_with_tone();
    s.regs[0xC0] = 0;
    s.regs[0xC1] = 0;
    s.tick(CYCLES_PER_SAMPLE * 64);
    let pcm = s.take_samples();
    assert!(pcm.iter().all(|&x| x == 0), "main volume 0 is silence");
}

#[test]
fn mute_bit_silences_voices() {
    let mut s = spu_with_tone();
    s.regs[0xD5] = 0x8000; // enable, mute
    s.tick(CYCLES_PER_SAMPLE * 32);
    assert!(s.take_samples().iter().all(|&x| x == 0));
}

#[test]
fn loop_end_sets_endx() {
    let mut s = Spu::new();
    s.ram[0x1000..0x1010].copy_from_slice(&silent_loop());
    s.regs[0xD5] = 0xC000;
    s.regs[2] = 0x1000;
    s.regs[3] = 0x1000 / 8;
    s.regs[4] = 0x80FF;
    s.key_on(1);
    // 28 samples at pitch 1000h → one sample per tick; finish the block.
    s.tick(CYCLES_PER_SAMPLE * 40);
    assert_ne!(s.endx & 1, 0, "LOOP-END must set ENDX");
}

#[test]
fn cd_and_ext_input_mix_when_spucnt_bits_set() {
    let mut s = Spu::new();
    s.regs[0xD5] = 0xC000;
    s.regs[0xC0] = 0x3FFF;
    s.regs[0xC1] = 0x3FFF;
    s.regs[0xD8] = 0x3FFF;
    s.regs[0xD9] = 0x3FFF;
    s.feed_cd(0x4000, -0x4000);
    s.tick(CYCLES_PER_SAMPLE);
    assert!(
        s.take_samples().iter().all(|&x| x == 0),
        "CD input is silent while SPUCNT.0 is off"
    );
    s.regs[0xD5] = 0xC001;
    s.feed_cd(0x4000, -0x4000);
    s.tick(CYCLES_PER_SAMPLE);
    let pcm = s.take_samples();
    assert!(pcm[0] > 1000, "SPUCNT.0 mixes CD left ({})", pcm[0]);
    assert!(pcm[1] < -1000, "SPUCNT.0 mixes CD right ({})", pcm[1]);
    s.regs[0xD5] = 0xC002;
    s.regs[0xDA] = 0x3FFF;
    s.regs[0xDB] = 0x3FFF;
    s.feed_ext(-0x2000, 0x2000);
    s.tick(CYCLES_PER_SAMPLE);
    let pcm = s.take_samples();
    assert!(pcm[0] < -500, "SPUCNT.1 mixes external left");
    assert!(pcm[1] > 500, "SPUCNT.1 mixes external right");
}

#[test]
fn cd_input_mix_exact_values() {
    // 4000h through volume 3FFFh is 1FFFh; main volume 3FFFh doubles to 7FFEh.
    let mut s = Spu::new();
    s.regs[0xD5] = 0xC001;
    s.regs[0xC0] = 0x3FFF;
    s.regs[0xC1] = 0x3FFF;
    s.regs[0xD8] = 0x3FFF;
    s.regs[0xD9] = 0x3FFF;
    s.feed_cd(0x4000, -0x4000);
    s.tick(CYCLES_PER_SAMPLE);
    let pcm = s.take_samples();
    assert_eq!(pcm, vec![0x1FFE, -0x2000]);
    // The CD samples land in the capture buffers.
    assert_eq!(s.ram16(0x000), 0x4000);
    assert_eq!(s.ram16(0x400), 0xC000);
    assert_eq!(s.capture_i, 1);
}

#[test]
fn large_tick_emits_a_frame_per_768_cycles() {
    let mut s = Spu::new();
    s.tick(CYCLES_PER_SAMPLE * 5 + 10);
    assert_eq!(s.take_samples().len(), 10);
    assert_eq!(s.cycle_accum, 10);
}

#[test]
fn envelope_linear_attack_step() {
    // Shift 0, step 0, rising: +7 << 11 every tick, the counter carrying each time.
    assert_eq!(rsx::voice::envelope_tick(0, 0, 0, 0, false, false), (0x3800, 0));
    assert_eq!(rsx::voice::envelope_tick(0x7000, 0, 0, 0, false, false), (0x7FFF, 0));
    // Shift 31 with step 3 never moves.
    assert_eq!(rsx::voice::envelope_tick(0x1234, 5, 31, 3, true, true), (0x1234, 5));
}

#[test]
fn attack_climbs_into_decay() {
    let mut v = rsx::spu::Voice::new();
    v.phase = rsx::spu::Phase::Attack;
    v.started = true;
    let mut ticks = 0;
    while v.phase == rsx::spu::Phase::Attack {
        v.apply_adsr(0x00FF, 0x1F00, 0);
        ticks += 1;
    }
    assert_eq!(ticks, 3);
    assert_eq!(v.adsr_level, 0x7FFF);
    assert_eq!(v.phase, rsx::spu::Phase::Decay);
}

#[test]
fn adpcm_filter1_follows_the_previous_sample() {
    // Filter 1 adds 60/64 of the previous sample: 1000h then 1000h + 0F00h.
    let mut ram = vec![0u8; 16];
    ram[0] = 0x18; // filter 1, shift 8: nibble 1 becomes 10h
    ram[1] = 0;
    ram[2] = 0x01;
    let (out, hist) = rsx::voice::decode_adpcm(&ram, 0, [0x1000, 0]);
    // 10h + (1000h * 60 + 32) / 64
    assert_eq!(out[0], 3856);
    assert_eq!(hist[1], out[26] as i32);
}

#[test]
fn keyed_voice_through_a_pass_through_table_is_audible() {
    // With only the newest-sample tap at phase 0 set, the interpolation passes the
    // decoded samples through, so the keyed tone reaches the output.
    let mut s = spu_with_tone();
    s.gauss_table[0] = 0x7FFF;
    s.tick(CYCLES_PER_SAMPLE * 64);
    let pcm = s.take_samples();
    let peak = pcm.iter().map(|x| x.unsigned_abs()).max().unwrap_or(0);
    assert!(peak > 1000, "peak={peak}");
    // Voice 0 is not routed to reverb and plays steadily: both sides match.
    assert_eq!(pcm[pcm.len() - 2], pcm[pcm.len() - 1]);
}

#[test]
fn voice_read_of_the_irq_address_raises_the_irq() {
    let mut s = Spu::new();
    s.regs[0xD5] = 0xC040;
    s.regs[0xD2] = 0x1000 / 8;
    s.ram[0x1000..0x1010].copy_from_slice(&tone_block(0, 7));
    s.regs[2] = 0x1000;
    s.regs[3] = 0x1000 / 8;
    s.regs[4] = 0x80FF;
    s.key_on(1);
    s.tick(CYCLES_PER_SAMPLE * 8);
    assert!(s.take_irq(), "voice read of IRQ address raises IRQ9");
}
