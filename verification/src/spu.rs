//! SPU: the register file, sound RAM transfers and its IRQ address, 24 ADPCM voices
//! with envelopes and sweeps, CD and external inputs, reverb, and the 44.1 kHz mix.
use vstd::prelude::*;

pub use crate::voice::{Phase, Voice};
use crate::voice::{
    adpcm_hist, adpcm_sample, adsr_next, after_end, block_addr, decode_adpcm, envelope,
    fixed_volume, interp_spec, interpolate, sweep_params, level_ok, main_volume, mag, mul15, mul15_spec,
};
use crate::fixed::s16;
use crate::xa::{clamp16, le_i16, pow2};

verus! {

pub const SPU_RAM: usize = 0x8_0000;

pub const CYCLES_PER_SAMPLE: u32 = 768;

pub const VOICES: usize = 24;

/// The SPU: 512 KiB of sound RAM, the register file and the mixer state.
pub struct Spu {
    pub ram: Vec<u8>,
    pub regs: Vec<u16>,
    pub transfer_addr: u32,
    pub applied_mode: u16,
    pub apply_delay: u32,
    pub transfer_busy: u32,
    pub voices: Vec<Voice>,
    pub endx: u32,
    pub cycle_accum: u32,
    pub samples: Vec<i16>,
    pub main_sweep: [i32; 2],
    pub main_sweep_ctr: [u32; 2],
    pub irq_pending: bool,
    pub cd_in: (i16, i16),
    pub ext_in: (i16, i16),
    pub reverb_addr: u32,
    pub capture_i: usize,
    /// The 512-entry Gaussian table the voices are resampled through (all zero until
    /// set).
    pub gauss_table: Vec<i16>,
}

/// Byte offset in sound RAM of a halfword access at `addr`.
pub open spec fn ram_off(addr: u32) -> int {
    (addr as int % SPU_RAM as int) / 2 * 2
}

/// The register slot of an SPU port address (halfword index from 1F801C00h).
pub open spec fn reg_off(addr: u32) -> int {
    (addr - 0x1F80_1C00) / 2
}

/// SPUSTAT from the applied mode, the transfer-busy counter and the IRQ flag.
pub open spec fn stat_spec(applied_mode: u16, busy: bool, irq: bool) -> u16 {
    let mode = (applied_mode / 16) % 4;
    ((applied_mode % 64) + (if mode == 2 {
        0x100int
    } else {
        0
    }) + (if mode == 3 {
        0x200int
    } else {
        0
    }) + (if mode == 2 || mode == 3 {
        0x80int
    } else {
        0
    }) + (if busy {
        0x400int
    } else {
        0
    }) + (if irq {
        0x40int
    } else {
        0
    })) as u16
}

/// What the silence rules say of output sample `m` (counted from a point where a
/// frame begins, left first) under registers `regs`: zero while the SPU is disabled or
/// muted, and on a side whose main volume register is 0.
pub open spec fn silent_frame(regs: Seq<u16>, m: int, x: i16) -> bool {
    &&& (regs[0xD5] < 0x8000 || (regs[0xD5] / 0x4000) % 2 == 0) ==> x == 0
    &&& (m % 2 == 0 && regs[0xC0] == 0) ==> x == 0
    &&& (m % 2 == 1 && regs[0xC1] == 0) ==> x == 0
}

impl Spu {
    pub open spec fn wf(&self) -> bool {
        &&& self.ram.len() == SPU_RAM
        &&& self.regs.len() == 0x200
        &&& self.voices.len() == VOICES
        &&& forall|i: int| 0 <= i < VOICES ==> (#[trigger] self.voices@[i]).ok()
        &&& self.gauss_table.len() == 512
        &&& self.capture_i < 0x200
        &&& level_ok(self.main_sweep[0] as int)
        &&& level_ok(self.main_sweep[1] as int)
        &&& self.cycle_accum < CYCLES_PER_SAMPLE
    }

    /// The halfword at byte offset `a` (even) of sound RAM.
    pub open spec fn ram16_spec(&self, a: int) -> int {
        self.ram@[a] as int + self.ram@[a + 1] as int * 256
    }

    pub open spec fn spucnt(&self) -> u16 {
        self.regs@[0xD5]
    }

    pub fn new() -> (s: Spu)
        ensures
            s.wf(),
            s.transfer_addr == 0,
            s.applied_mode == 0,
            s.apply_delay == 0,
            s.transfer_busy == 0,
            s.endx == 0,
            s.cycle_accum == 0,
            !s.irq_pending,
            s.samples@.len() == 0,
            forall|i: int| 0 <= i < SPU_RAM ==> s.ram@[i] == 0,
            forall|i: int| 0 <= i < 0x200 ==> s.regs@[i] == 0,
            forall|i: int| 0 <= i < VOICES ==> (#[trigger] s.voices@[i]).is_new(),
    {
        let mut voices: Vec<Voice> = Vec::new();
        let mut i: usize = 0;
        while i < VOICES
            invariant
                i <= VOICES,
                voices.len() == i,
                forall|k: int| 0 <= k < i ==> (#[trigger] voices@[k]).is_new() && voices@[k].ok(),
            decreases VOICES - i,
        {
            voices.push(Voice::new());
            i += 1;
        }
        Spu {
            ram: vec![0u8; SPU_RAM],
            regs: vec![0u16; 0x200],
            transfer_addr: 0,
            applied_mode: 0,
            apply_delay: 0,
            transfer_busy: 0,
            voices,
            endx: 0,
            cycle_accum: 0,
            samples: Vec::new(),
            main_sweep: [0; 2],
            main_sweep_ctr: [0; 2],
            irq_pending: false,
            cd_in: (0, 0),
            ext_in: (0, 0),
            reverb_addr: 0,
            capture_i: 0,
            gauss_table: vec![0i16; 512],
        }
    }

    pub fn reset(&mut self)
        ensures
            final(self).wf(),
            final(self).transfer_addr == 0,
            final(self).endx == 0,
            final(self).cycle_accum == 0,
            !final(self).irq_pending,
            final(self).samples@.len() == 0,
            forall|i: int| 0 <= i < SPU_RAM ==> final(self).ram@[i] == 0,
            forall|i: int| 0 <= i < 0x200 ==> final(self).regs@[i] == 0,
    {
        *self = Spu::new();
    }

    /// Count down the pending mode change and the transfer-busy time, and run the
    /// 44.1 kHz mixer: one stereo frame for every 768 cycles.
    pub fn tick(&mut self, cycles: u32)
        requires
            old(self).wf(),
        ensures
            final(self).wf(),
            final(self).cycle_accum < CYCLES_PER_SAMPLE,
            final(self).cycle_accum == (old(self).cycle_accum + cycles) % CYCLES_PER_SAMPLE as int,
            final(self).samples@.len() == old(self).samples@.len() + 2 * ((old(self).cycle_accum
                + cycles) / CYCLES_PER_SAMPLE as int),
            final(self).samples@.subrange(0, old(self).samples@.len() as int) == old(self).samples@,
            old(self).transfer_busy > 0 && !(old(self).apply_delay > 0 && cycles >= old(
                self).apply_delay && (old(self).regs@[0xD5] / 16) % 4 == 1) ==> final(
                self).transfer_busy == (if old(self).transfer_busy > cycles {
                old(self).transfer_busy - cycles
            } else {
                0
            }),
            old(self).apply_delay > 0 && cycles >= old(self).apply_delay ==> final(self).apply_delay
                == 0 && final(self).applied_mode == old(self).regs@[0xD5] % 64,
            old(self).apply_delay > 0 && cycles < old(self).apply_delay ==> final(self).apply_delay
                == old(self).apply_delay - cycles,
            old(self).irq_pending ==> final(self).irq_pending,
            final(self).regs == old(self).regs,
            final(self).transfer_addr == old(self).transfer_addr,
            final(self).gauss_table == old(self).gauss_table,
            forall|j: int|
                old(self).samples@.len() <= j < final(self).samples@.len() ==> silent_frame(
                    old(self).regs@,
                    j - old(self).samples@.len(),
                    #[trigger] final(self).samples@[j],
                ),
    {
        if self.apply_delay > 0 {
            if cycles >= self.apply_delay {
                self.apply_delay = 0;
                self.applied_mode = self.regs[0xD5] % 64;
                let mode = (self.applied_mode / 16) % 4;
                if mode == 1 {
                    self.transfer_busy = 0x80;
                }
            } else {
                self.apply_delay = self.apply_delay - cycles;
            }
        }
        if self.transfer_busy > 0 {
            self.transfer_busy = if self.transfer_busy > cycles {
                self.transfer_busy - cycles
            } else {
                0
            };
        }
        let total: u64 = self.cycle_accum as u64 + cycles as u64;
        let mut acc: u64 = total;
        let ghost s1 = *self;
        let ghost mut k: int = 0;
        while acc >= CYCLES_PER_SAMPLE as u64
            invariant
                self.wf(),
                acc <= total,
                total == s1.cycle_accum + cycles,
                total - acc == 768 * k,
                k >= 0,
                self.samples@.len() == s1.samples@.len() + 2 * k,
                self.samples@.subrange(0, s1.samples@.len() as int) == s1.samples@,
                self.regs == s1.regs,
                self.gauss_table == s1.gauss_table,
                self.transfer_addr == s1.transfer_addr,
                self.transfer_busy == s1.transfer_busy,
                self.apply_delay == s1.apply_delay,
                self.applied_mode == s1.applied_mode,
                self.cycle_accum == s1.cycle_accum,
                s1.irq_pending ==> self.irq_pending,
                forall|j: int|
                    s1.samples@.len() <= j < self.samples@.len() ==> silent_frame(
                        s1.regs@,
                        j - s1.samples@.len(),
                        #[trigger] self.samples@[j],
                    ),
            decreases acc,
        {
            let ghost before = self.samples@;
            acc = acc - CYCLES_PER_SAMPLE as u64;
            self.mix_sample();
            proof {
                k = k + 1;
                assert(self.samples@.subrange(0, s1.samples@.len() as int) =~= s1.samples@) by {
                    assert forall|j: int| 0 <= j < s1.samples@.len() implies self.samples@[j]
                        == s1.samples@[j] by {
                        assert(self.samples@[j] == before[j]);
                        assert(before[j] == before.subrange(0, s1.samples@.len() as int)[j]);
                    }
                }
                assert forall|j: int|
                    s1.samples@.len() <= j < self.samples@.len() implies silent_frame(
                    s1.regs@,
                    j - s1.samples@.len(),
                    #[trigger] self.samples@[j],
                ) by {
                    if j < before.len() {
                        assert(self.samples@[j] == before.subrange(0, before.len() as int)[j]);
                    }
                }
            }
        }
        proof {
            vstd::arithmetic::div_mod::lemma_fundamental_div_mod_converse(
                total as int,
                768,
                k,
                acc as int,
            );
        }
        self.cycle_accum = acc as u32;
    }

    /// The output samples produced since the last take (interleaved stereo).
    pub fn take_samples(&mut self) -> (s: Vec<i16>)
        requires
            old(self).wf(),
        ensures
            final(self).wf(),
            s@ == old(self).samples@,
            final(self).samples@.len() == 0,
            final(self).cycle_accum == old(self).cycle_accum,
    {
        let mut s = Vec::new();
        std::mem::swap(&mut s, &mut self.samples);
        s
    }

    /// The sound RAM halfword at `addr` (wrapped to 512 KiB, even).
    pub fn ram16(&self, addr: u32) -> (h: u16)
        requires
            self.wf(),
        ensures
            h == self.ram16_spec(ram_off(addr)),
    {
        let a = ((addr as usize) % SPU_RAM) / 2 * 2;
        self.ram[a] as u16 + (self.ram[a + 1] as u16) * 256
    }

    /// The SPU interrupt latched since the last take.
    pub fn take_irq(&mut self) -> (v: bool)
        ensures
            v == old(self).irq_pending,
            *final(self) == (Spu { irq_pending: false, ..*old(self) }),
    {
        let v = self.irq_pending;
        self.irq_pending = false;
        v
    }

    fn stat(&self) -> (s: u16)
        ensures
            s == stat_spec(self.applied_mode, self.transfer_busy > 0, self.irq_pending),
    {
        let mode = (self.applied_mode / 16) % 4;
        let mut s: u16 = self.applied_mode % 64;
        if mode == 2 {
            s = s + 0x100;
        }
        if mode == 3 {
            s = s + 0x200;
        }
        if mode == 2 || mode == 3 {
            s = s + 0x80;
        }
        if self.transfer_busy > 0 {
            s = s + 0x400;
        }
        if self.irq_pending {
            s = s + 0x40;
        }
        s
    }

    /// A register read: SPUSTAT, ENDX, a voice's current envelope level, else the
    /// register as written (0 past the file).
    pub fn read16(&self, addr: u32) -> (v: u16)
        requires
            self.wf(),
            addr >= 0x1F80_1C00,
        ensures
            reg_off(addr) == 0xD7 ==> v == stat_spec(
                self.applied_mode,
                self.transfer_busy > 0,
                self.irq_pending,
            ),
            reg_off(addr) == 0xCE ==> v == self.endx % 0x1_0000,
            reg_off(addr) == 0xCF ==> v == self.endx / 0x1_0000,
            reg_off(addr) < 24 * 8 && reg_off(addr) % 8 == 6 ==> v == (if self.voices@[reg_off(
                addr) / 8].adsr_level < 0 {
                0
            } else if self.voices@[reg_off(addr) / 8].adsr_level > 0x7FFF {
                0x7FFF
            } else {
                self.voices@[reg_off(addr) / 8].adsr_level
            }),
            reg_off(addr) != 0xD7 && reg_off(addr) != 0xCE && reg_off(addr) != 0xCF && !(reg_off(
                addr) < 24 * 8 && reg_off(addr) % 8 == 6) ==> v == (if reg_off(addr) < 0x200 {
                self.regs@[reg_off(addr)]
            } else {
                0
            }),
    {
        let off: usize = ((addr - 0x1F80_1C00) / 2) as usize;
        if off == 0xD7 {
            return self.stat();
        }
        if off == 0xCE {
            return (self.endx % 0x1_0000) as u16;
        }
        if off == 0xCF {
            return (self.endx / 0x1_0000) as u16;
        }
        if off < 24 * 8 && off % 8 == 6 {
            let l = self.voices[off / 8].adsr_level;
            return if l < 0 {
                0
            } else if l > 0x7FFF {
                0x7FFF
            } else {
                l as u16
            };
        }
        if off < self.regs.len() {
            self.regs[off]
        } else {
            0
        }
    }

    /// The transfer address matches the IRQ address (same 16-byte block) while the
    /// SPU and its interrupt are enabled.
    pub open spec fn irq_hit(&self, addr: u32) -> bool {
        let cnt = self.regs@[0xD5];
        &&& (cnt / 64) % 2 == 1
        &&& cnt / 0x8000 == 1
        &&& addr as int / 16 == (self.regs@[0xD2] as int * 8) / 16
    }

    fn hit_irq(&mut self, addr: u32)
        requires
            old(self).wf(),
        ensures
            final(self).wf(),
            final(self).irq_pending == (old(self).irq_pending || old(self).irq_hit(addr)),
            *final(self) == (Spu { irq_pending: final(self).irq_pending, ..*old(self) }),
    {
        let cnt = self.regs[0xD5];
        if (cnt / 64) % 2 == 0 || cnt / 0x8000 == 0 {
            return ;
        }
        let irq_addr: u32 = self.regs[0xD2] as u32 * 8;
        if addr / 16 == irq_addr / 16 {
            self.irq_pending = true;
        }
    }

    /// One halfword into sound RAM at the transfer address, which moves on by two.
    pub fn dma_write16(&mut self, value: u16)
        requires
            old(self).wf(),
        ensures
            final(self).wf(),
            final(self).ram@ == old(self).ram@.update(
                ram_off(old(self).transfer_addr),
                (value % 256) as u8,
            ).update(ram_off(old(self).transfer_addr) + 1, (value / 256) as u8),
            final(self).transfer_addr == (old(self).transfer_addr + 2) % 0x1_0000_0000,
            final(self).irq_pending == (old(self).irq_pending || old(self).irq_hit(
                old(self).transfer_addr,
            )),
            final(self).regs == old(self).regs,
            final(self).cycle_accum == old(self).cycle_accum,
            final(self).samples == old(self).samples,
    {
        let a = ((self.transfer_addr as usize) % SPU_RAM) / 2 * 2;
        self.ram.set(a, (value % 256) as u8);
        self.ram.set(a + 1, (value / 256) as u8);
        let t = self.transfer_addr;
        self.hit_irq(t);
        self.transfer_addr = self.transfer_addr.wrapping_add(2);
    }

    /// KON: voices with a set bit restart from their start address.
    pub fn key_on(&mut self, bits: u32)
        requires
            old(self).wf(),
        ensures
            final(self).wf(),
            forall|i: int| 0 <= i < VOICES && (bits as int / pow2(i as nat)) % 2 == 1 ==> (
            #[trigger] final(self).voices@[i]).phase == Phase::Attack && final(self).voices@[i].started
                && final(self).voices@[i].current_addr == old(self).regs@[i * 8 + 3] as int * 8,
            forall|i: int| 0 <= i < VOICES && (bits as int / pow2(i as nat)) % 2 == 0 ==> (
            #[trigger] final(self).voices@[i]) == old(self).voices@[i],
            final(self).ram == old(self).ram,
            final(self).regs == old(self).regs,
            final(self).irq_pending == old(self).irq_pending,
            final(self).transfer_addr == old(self).transfer_addr,
            final(self).cycle_accum == old(self).cycle_accum,
            final(self).samples == old(self).samples,
    {
        let mut i: usize = 0;
        let mut rest: u32 = bits;
        let mut bit: u32 = 1;
        while i < VOICES
            invariant
                i <= VOICES,
                self.wf(),
                rest == bits as int / pow2(i as nat),
                bit as int == pow2(i as nat),
                bit as int <= 0x100_0000,
                forall|k: int| 0 <= k < i && (bits as int / pow2(k as nat)) % 2 == 1 ==> (
                #[trigger] self.voices@[k]).phase == Phase::Attack && self.voices@[k].started
                    && self.voices@[k].current_addr == old(self).regs@[k * 8 + 3] as int * 8,
                forall|k: int| (0 <= k < i && (bits as int / pow2(k as nat)) % 2 == 0) || (i <= k
                    < VOICES) ==> (#[trigger] self.voices@[k]) == old(self).voices@[k],
                self.ram == old(self).ram,
                self.regs == old(self).regs,
                self.irq_pending == old(self).irq_pending,
                self.transfer_addr == old(self).transfer_addr,
                self.cycle_accum == old(self).cycle_accum,
                self.samples == old(self).samples,
            decreases VOICES - i,
        {
            proof {
                crate::xa::lemma_div_pow2_step(bits as int, i as nat);
            }
            if rest % 2 == 1 {
                let start: u32 = self.regs[i * 8 + 3] as u32 * 8;
                let mut v = Voice::new();
                v.current_addr = start;
                v.repeat_addr = start;
                v.phase = Phase::Attack;
                v.started = true;
                self.voices.set(i, v);
                if self.endx / bit % 2 == 1 {
                    assert(self.endx >= bit) by (nonlinear_arith)
                        requires
                            self.endx / bit % 2 == 1,
                            bit > 0,
                    ;
                    self.endx = self.endx - bit;
                }
            }
            rest = rest / 2;
            proof {
                crate::xa::lemma_pow2_bound(i as nat);
            }
            i += 1;
            bit = bit * 2;
        }
    }

    /// KOFF: playing voices with a set bit go to release.
    fn key_off(&mut self, bits: u32)
        requires
            old(self).wf(),
        ensures
            final(self).wf(),
            forall|i: int| 0 <= i < VOICES && (bits as int / pow2(i as nat)) % 2 == 1 && old(
                self).voices@[i].phase != Phase::Off ==> (#[trigger] final(self).voices@[i]).phase
                == Phase::Release && final(self).voices@[i].adsr_counter == 0,
            forall|i: int| 0 <= i < VOICES && ((bits as int / pow2(i as nat)) % 2 == 0 || old(
                self).voices@[i].phase == Phase::Off) ==> (#[trigger] final(self).voices@[i]) == old(
                self).voices@[i],
            final(self).ram == old(self).ram,
            final(self).regs == old(self).regs,
            final(self).irq_pending == old(self).irq_pending,
            final(self).endx == old(self).endx,
            final(self).transfer_addr == old(self).transfer_addr,
            final(self).cycle_accum == old(self).cycle_accum,
    {
        let mut i: usize = 0;
        let mut rest: u32 = bits;
        while i < VOICES
            invariant
                i <= VOICES,
                self.wf(),
                rest == bits as int / pow2(i as nat),
                forall|k: int| 0 <= k < i && (bits as int / pow2(k as nat)) % 2 == 1 && old(
                    self).voices@[k].phase != Phase::Off ==> (#[trigger] self.voices@[k]).phase
                    == Phase::Release && self.voices@[k].adsr_counter == 0,
                forall|k: int| (0 <= k < i && ((bits as int / pow2(k as nat)) % 2 == 0 || old(
                    self).voices@[k].phase == Phase::Off)) || (i <= k < VOICES) ==> (
                #[trigger] self.voices@[k]) == old(self).voices@[k],
                self.ram == old(self).ram,
                self.regs == old(self).regs,
                self.irq_pending == old(self).irq_pending,
                self.endx == old(self).endx,
                self.transfer_addr == old(self).transfer_addr,
                self.cycle_accum == old(self).cycle_accum,
            decreases VOICES - i,
        {
            proof {
                crate::xa::lemma_div_pow2_step(bits as int, i as nat);
            }
            if rest % 2 == 1 {
                let mut v = self.voices[i];
                if v.phase != Phase::Off {
                    v.phase = Phase::Release;
                    v.adsr_counter = 0;
                    self.voices.set(i, v);
                }
            }
            rest = rest / 2;
            i += 1;
        }
    }

    /// A register write. SPUCNT applies its mode at once; the transfer FIFO, KON
    /// and KOFF act; every slot of the file keeps what was written.
    pub fn write16(&mut self, addr: u32, value: u16)
        requires
            old(self).wf(),
            addr >= 0x1F80_1C00,
        ensures
            final(self).wf(),
            reg_off(addr) == 0xD3 ==> final(self).transfer_addr == value as int * 8,
            reg_off(addr) == 0xD5 ==> final(self).applied_mode == value % 64 && final(self).regs@[0xD5]
                == value && ((value / 64) % 2 == 0 ==> !final(self).irq_pending),
            reg_off(addr) < 0x200 ==> final(self).regs@[reg_off(addr)] == value,
            reg_off(addr) < 24 * 8 && reg_off(addr) % 8 == 7 ==> final(self).voices@[reg_off(addr)
                / 8].repeat_addr == value as int * 8,
            final(self).cycle_accum == old(self).cycle_accum,
    {
        let off: usize = ((addr - 0x1F80_1C00) / 2) as usize;
        if off == 0xD3 {
            self.transfer_addr = value as u32 * 8;
        } else if off == 0xD4 {
            self.dma_write16(value);
        } else if off == 0xD5 {
            self.regs.set(0xD5, value);
            self.applied_mode = value % 64;
            if (value / 16) % 4 == 1 {
                self.transfer_busy = 0x80;
            }
            if (value / 64) % 2 == 0 {
                self.irq_pending = false;
            }
            return ;
        } else if off == 0xC4 {
            self.key_on(value as u32);
        } else if off == 0xC5 {
            self.key_on(value as u32 * 0x1_0000);
        } else if off == 0xC6 {
            self.key_off(value as u32);
        } else if off == 0xC7 {
            self.key_off(value as u32 * 0x1_0000);
        }
        if off < self.regs.len() {
            self.regs.set(off, value);
        }
        if off < 24 * 8 && off % 8 == 6 {
            let mut v = self.voices[off / 8];
            let s: i32 = if value >= 0x8000 {
                value as i32 - 0x1_0000
            } else {
                value as i32
            };
            v.adsr_level = if s < 0 {
                0
            } else {
                s
            };
            self.voices.set(off / 8, v);
        }
        if off < 24 * 8 && off % 8 == 7 {
            let mut v = self.voices[off / 8];
            v.repeat_addr = value as u32 * 8;
            self.voices.set(off / 8, v);
        }
    }

    /// The CD audio input for the next sample.
    pub fn feed_cd(&mut self, l: i16, r: i16)
        ensures
            final(self).cd_in == (l, r),
            final(self).ram == old(self).ram,
            final(self).regs == old(self).regs,
            final(self).voices == old(self).voices,
            final(self).irq_pending == old(self).irq_pending,
            final(self).samples == old(self).samples,
            final(self).cycle_accum == old(self).cycle_accum,
    {
        self.cd_in = (l, r);
    }

    /// The external audio input for the next sample.
    pub fn feed_ext(&mut self, l: i16, r: i16)
        ensures
            final(self).ext_in == (l, r),
            final(self).ram == old(self).ram,
            final(self).regs == old(self).regs,
            final(self).voices == old(self).voices,
            final(self).irq_pending == old(self).irq_pending,
            final(self).samples == old(self).samples,
            final(self).cycle_accum == old(self).cycle_accum,
    {
        self.ext_in = (l, r);
    }
}

/// `w`'s block, decoded into `v`: its 28 samples and history continue from `w`'s
/// history, the address moves to the next block, and the block's flags set the end,
/// repeat and repeat-address state. The envelope is `w`'s.
pub open spec fn decoded_from(w: Voice, v: Voice, ram: Seq<u8>) -> bool {
    let a = block_addr(w);
    let blk = ram.subrange(a, a + 16);
    let flags = ram[a + 1];
    &&& forall|k: int|
        0 <= k < 28 ==> v.decoded[k] == adpcm_sample(blk, k as nat, w.hist[0] as int, w.hist[1] as int)
    &&& v.hist[0] == adpcm_hist(blk, 28, w.hist[0] as int, w.hist[1] as int).0
    &&& v.hist[1] == adpcm_hist(blk, 28, w.hist[0] as int, w.hist[1] as int).1
    &&& v.current_addr == a + 16
    &&& v.repeat_addr == (if (flags / 4) % 2 == 1 {
        a
    } else {
        w.repeat_addr as int
    })
    &&& v.end_after == (flags % 2 == 1)
    &&& v.loop_repeat == ((flags / 2) % 2 == 1)
    &&& v.phase == w.phase
    &&& v.adsr_level == w.adsr_level
    &&& v.adsr_counter == w.adsr_counter
    &&& v.started == w.started
    &&& v.pitch_counter == w.pitch_counter
    &&& v.sweep_level == w.sweep_level
    &&& v.sweep_counter == w.sweep_counter
}

impl Spu {
    /// Voice `i` takes its next ADPCM block: past a block flagged as the end it sets
    /// its ENDX bit and goes back to the repeat address (released unless repeating);
    /// reading the block may hit the IRQ address.
    pub fn decode_block(&mut self, i: usize)
        requires
            old(self).wf(),
            i < VOICES,
        ensures
            final(self).wf(),
            decoded_from(after_end(old(self).voices@[i as int]), final(self).voices@[i as int], old(self).ram@),
            final(self).voices@[i as int].decode_idx == 0,
            final(self).voices@[i as int].gauss == old(self).voices@[i as int].gauss,
            forall|k: int| 0 <= k < VOICES && k != i ==> final(self).voices@[k] == old(self).voices@[k],
            final(self).endx == (if old(self).voices@[i as int].end_after {
                old(self).endx | (1u32 << (i as u32))
            } else {
                old(self).endx
            }),
            final(self).irq_pending == (old(self).irq_pending || old(self).irq_hit(
                block_addr(after_end(old(self).voices@[i as int])) as u32,
            )),
            final(self).ram == old(self).ram,
            final(self).regs == old(self).regs,
            final(self).samples == old(self).samples,
            final(self).gauss_table == old(self).gauss_table,
            final(self).cycle_accum == old(self).cycle_accum,
            final(self).transfer_addr == old(self).transfer_addr,
            final(self).applied_mode == old(self).applied_mode,
            final(self).apply_delay == old(self).apply_delay,
            final(self).transfer_busy == old(self).transfer_busy,
            final(self).capture_i == old(self).capture_i,
            final(self).reverb_addr == old(self).reverb_addr,
            final(self).main_sweep == old(self).main_sweep,
            final(self).main_sweep_ctr == old(self).main_sweep_ctr,
            final(self).cd_in == old(self).cd_in,
            final(self).ext_in == old(self).ext_in,
    {
        let mut v = self.voices[i];
        if v.end_after {
            self.endx = self.endx | (1u32 << (i as u32));
            if !v.loop_repeat {
                v.phase = Phase::Release;
                v.adsr_level = 0;
                v.adsr_counter = 0;
            }
            v.current_addr = v.repeat_addr;
            v.end_after = false;
        }
        assert(v == after_end(self.voices@[i as int]));
        let addr: usize = ((v.current_addr % 0x8_0000) / 16 * 16) as usize;
        self.hit_irq(addr as u32);
        let flags = self.ram[addr + 1];
        if (flags / 4) % 2 == 1 {
            v.repeat_addr = addr as u32;
        }
        v.end_after = flags % 2 == 1;
        v.loop_repeat = (flags / 2) % 2 == 1;
        let (decoded, hist) = decode_adpcm(&self.ram, addr, v.hist);
        v.decoded = decoded;
        v.hist = hist;
        v.decode_idx = 0;
        v.current_addr = addr as u32 + 16;
        self.voices.set(i, v);
    }
}


/// `b` is `a` with only the voices, ENDX and the IRQ flag (which only rises) moved on.
pub open spec fn mixer_frame(a: Spu, b: Spu) -> bool {
    &&& b.ram == a.ram
    &&& b.regs == a.regs
    &&& b.samples == a.samples
    &&& b.gauss_table == a.gauss_table
    &&& b.cycle_accum == a.cycle_accum
    &&& b.transfer_addr == a.transfer_addr
    &&& b.applied_mode == a.applied_mode
    &&& b.apply_delay == a.apply_delay
    &&& b.transfer_busy == a.transfer_busy
    &&& b.capture_i == a.capture_i
    &&& b.reverb_addr == a.reverb_addr
    &&& b.main_sweep == a.main_sweep
    &&& b.main_sweep_ctr == a.main_sweep_ctr
    &&& b.cd_in == a.cd_in
    &&& b.ext_in == a.ext_in
    &&& (a.irq_pending ==> b.irq_pending)
}

/// Voice `i`'s output sample, from its state `o` before the sample and `n` after it:
/// 0 for a voice never keyed on or off, else the interpolated (or, at pitch 0, held)
/// sample scaled by the new envelope level.
pub open spec fn voice_out(o: Voice, n: Voice, regs: Seq<u16>, table: Seq<i16>, i: int) -> int {
    if !o.started || o.phase == Phase::Off {
        0
    } else {
        mul15_spec(
            if voice_pitch(regs, i) == 0 {
                o.gauss[3] as int
            } else {
                interp_spec(table, n.gauss, n.pitch_counter as int / 16)
            },
            n.adsr_level as int,
        )
    }
}

/// One tick of a voice volume register from sweep state (level, counter): a fixed
/// level, or one envelope step of the sweep.
pub open spec fn vol_step(level: int, counter: u32, reg: u16) -> (int, u32) {
    if reg < 0x8000 {
        (fixed_volume(reg), counter)
    } else {
        let p = sweep_params(reg);
        envelope(level, counter, p.0, p.1, p.2, p.3)
    }
}

/// Voice `i`'s (left, right) volumes for a sample: the left register ticks the sweep,
/// then the right one ticks it on from there.
pub open spec fn voice_lr(o: Voice, regs: Seq<u16>, i: int) -> (int, int) {
    let a = vol_step(o.sweep_level as int, o.sweep_counter, regs[i * 8]);
    let b = vol_step(a.0, a.1, regs[i * 8 + 1]);
    (a.0, b.0)
}

/// The reverb-enable mask EON shifted right `k` times.
pub open spec fn eon_shift(e: int, k: int) -> int
    decreases k,
{
    if k <= 0 {
        e
    } else {
        eon_shift(e, k - 1) / 2
    }
}

/// Whether voice `k` feeds the reverb input (its EON bit).
pub open spec fn eon_bit(regs: Seq<u16>, k: int) -> bool {
    eon_shift(regs[0xCC] as int + regs[0xCD] as int * 0x1_0000, k) % 2 == 1
}

/// The sum over the first `i` voices of each voice's output through its left
/// (`right` false) or right volume; with `rev`, only over the voices enabled in EON.
pub open spec fn mix_sum(
    os: Seq<Voice>,
    ns: Seq<Voice>,
    regs: Seq<u16>,
    table: Seq<i16>,
    i: int,
    right: bool,
    rev: bool,
) -> int
    decreases i,
{
    if i <= 0 {
        0
    } else {
        let k = i - 1;
        let lr = voice_lr(os[k], regs, k);
        mix_sum(os, ns, regs, table, k, right, rev) + if rev && !eon_bit(regs, k) {
            0
        } else {
            mul15_spec(voice_out(os[k], ns[k], regs, table, k), if right { lr.1 } else { lr.0 })
        }
    }
}

/// The voice sums read only the first `i` voices' new states.
proof fn lemma_mix_sum_frame(
    os: Seq<Voice>,
    ns1: Seq<Voice>,
    ns2: Seq<Voice>,
    regs: Seq<u16>,
    table: Seq<i16>,
    i: int,
    right: bool,
    rev: bool,
)
    requires
        forall|k: int| 0 <= k < i ==> ns1[k] == ns2[k],
    ensures
        mix_sum(os, ns1, regs, table, i, right, rev) == mix_sum(os, ns2, regs, table, i, right, rev),
    decreases i,
{
    if i > 0 {
        lemma_mix_sum_frame(os, ns1, ns2, regs, table, i - 1, right, rev);
    }
}

/// `v` released at level 0, as the end of a block that does not repeat leaves it.
pub open spec fn released(v: Voice) -> Voice {
    Voice { phase: Phase::Release, adsr_level: 0, adsr_counter: 0, ..v }
}

/// The envelope state (level, counter, phase) of a voice.
pub open spec fn env_of(v: Voice) -> (int, u32, Phase) {
    (v.adsr_level as int, v.adsr_counter, v.phase)
}

/// The pitch step of voice `i`: its pitch register, at most 4000h.
pub open spec fn voice_pitch(regs: Seq<u16>, i: int) -> int {
    if regs[i * 8 + 2] > 0x4000 {
        0x4000
    } else {
        regs[i * 8 + 2] as int
    }
}

impl Spu {
    /// The next decoded sample of voice `i` enters its four-sample interpolation window,
    /// decoding the next block first when the current one is used up.
    fn push_decoded(&mut self, i: usize)
        requires
            old(self).wf(),
            i < VOICES,
        ensures
            final(self).wf(),
            mixer_frame(*old(self), *final(self)),
            forall|k: int| 0 <= k < VOICES && k != i ==> final(self).voices@[k] == old(self).voices@[k],
            ({
                let o = old(self).voices@[i as int];
                let n = final(self).voices@[i as int];
                &&& n.gauss[0] == o.gauss[1]
                &&& n.gauss[1] == o.gauss[2]
                &&& n.gauss[2] == o.gauss[3]
                &&& n.gauss[3] == (if o.decode_idx < 28 {
                    o.decoded[o.decode_idx as int]
                } else {
                    n.decoded[0]
                })
                &&& n.decode_idx == (if o.decode_idx < 28 {
                    o.decode_idx + 1
                } else {
                    1
                })
                &&& o.decode_idx < 28 ==> {
                    &&& n.decoded == o.decoded
                    &&& n.hist == o.hist
                    &&& n.current_addr == o.current_addr
                    &&& n.repeat_addr == o.repeat_addr
                    &&& n.end_after == o.end_after
                    &&& n.loop_repeat == o.loop_repeat
                    &&& n.phase == o.phase
                    &&& n.adsr_level == o.adsr_level
                    &&& n.adsr_counter == o.adsr_counter
                    &&& n.started == o.started
                    &&& n.pitch_counter == o.pitch_counter
                    &&& n.sweep_level == o.sweep_level
                    &&& n.sweep_counter == o.sweep_counter
                    &&& final(self).endx == old(self).endx
                    &&& final(self).irq_pending == old(self).irq_pending
                }
                &&& o.decode_idx >= 28 ==> decoded_from(after_end(o), n, old(self).ram@)
            }),
    {
        if self.voices[i].decode_idx >= 28 {
            self.decode_block(i);
        }
        let mut v = self.voices[i];
        let s = v.decoded[v.decode_idx];
        v.decode_idx = v.decode_idx + 1;
        v.gauss[0] = v.gauss[1];
        v.gauss[1] = v.gauss[2];
        v.gauss[2] = v.gauss[3];
        v.gauss[3] = s;
        self.voices.set(i, v);
    }

    /// Voice `i`'s next output sample: the pitch counter advances and whole steps pull
    /// decoded samples in; the window is interpolated at the counter's fraction (or,
    /// at pitch 0, its newest sample held), then scaled by one envelope tick. A voice
    /// never keyed on, or off, gives 0.
    fn voice_sample(&mut self, i: usize) -> (r: i64)
        requires
            old(self).wf(),
            i < VOICES,
        ensures
            final(self).wf(),
            mixer_frame(*old(self), *final(self)),
            forall|k: int| 0 <= k < VOICES && k != i ==> final(self).voices@[k] == old(self).voices@[k],
            -0x20000 <= r <= 0x20000,
            ({
                let o = old(self).voices@[i as int];
                let n = final(self).voices@[i as int];
                let pitch = voice_pitch(old(self).regs@, i as int);
                let lo = old(self).regs@[i * 8 + 4];
                let hi = old(self).regs@[i * 8 + 5];
                &&& (!o.started || o.phase == Phase::Off) ==> r == 0 && *final(self) == *old(self)
                &&& (o.started && o.phase != Phase::Off) ==> {
                    &&& n.pitch_counter == (if pitch == 0 {
                        o.pitch_counter as int
                    } else {
                        (o.pitch_counter + pitch) % 0x1000
                    })
                    &&& adsr_next(o, lo, hi) == env_of(n) || adsr_next(released(o), lo, hi) == env_of(n)
                    &&& r == mul15_spec(
                        if pitch == 0 {
                            o.gauss[3] as int
                        } else {
                            interp_spec(old(self).gauss_table@, n.gauss, n.pitch_counter as int / 16)
                        },
                        n.adsr_level as int,
                    )
                    &&& n.started == o.started
                    &&& n.sweep_level == o.sweep_level
                    &&& n.sweep_counter == o.sweep_counter
                }
            }),
    {
        let v0 = self.voices[i];
        if !v0.started || v0.phase == Phase::Off {
            return 0;
        }
        let lo = self.regs[i * 8 + 4];
        let hi = self.regs[i * 8 + 5];
        let pr = self.regs[i * 8 + 2];
        let pitch: u32 = if pr > 0x4000 {
            0x4000
        } else {
            pr as u32
        };
        if pitch == 0 {
            let mut v = v0;
            let r = v.apply_adsr(lo, hi, v0.gauss[3] as i64);
            self.voices.set(i, v);
            return r;
        }
        let mut pc: u32 = v0.pitch_counter + pitch;
        let ghost s0 = *self;
        while pc >= 0x1000
            invariant
                i < VOICES,
                self.wf(),
                mixer_frame(s0, *self),
                pc < 0x5000,
                pc % 0x1000 == (v0.pitch_counter + pitch) % 0x1000,
                forall|k: int| 0 <= k < VOICES && k != i ==> self.voices@[k] == s0.voices@[k],
                env_of(self.voices@[i as int]) == env_of(v0) || env_of(self.voices@[i as int])
                    == env_of(released(v0)),
                self.voices@[i as int].started == v0.started,
                self.voices@[i as int].sweep_level == v0.sweep_level,
                self.voices@[i as int].sweep_counter == v0.sweep_counter,
            decreases pc,
        {
            pc = pc - 0x1000;
            self.push_decoded(i);
        }
        let mut v = self.voices[i];
        v.pitch_counter = pc;
        let out = interpolate(&self.gauss_table, v.gauss, (pc / 16) as usize);
        let r = v.apply_adsr(lo, hi, out);
        self.voices.set(i, v);
        r
    }
}

/// The reverb work-area offset of reverb address register value `reg`: relative to the
/// current reverb position, wrapped inside the work area that starts at the base
/// register (1DA2h), even.
pub open spec fn rev_rel_spec(base_reg: u16, reg: u16, raddr: u32) -> int {
    let base = base_reg as int * 8;
    let area = if 0x80000 - base > 8 {
        0x80000 - base
    } else {
        8
    };
    let off = (reg as int * 8 + raddr as int) % 0x1_0000_0000;
    ((base + off % area) % 0x1_0000_0000) % 0x80000 / 2 * 2
}

/// The reverb position after a sample: two bytes on, back to the base past the end of
/// RAM or below the base.
pub open spec fn next_reverb_addr(base_reg: u16, raddr: u32) -> u32 {
    let base = base_reg as int * 8;
    let a = (raddr as int + 2) % 0x1_0000_0000;
    if a < base || a > 0x7FFFE {
        base as u32
    } else {
        a as u32
    }
}

/// The CD or external input's (left, right) contribution to the mix, through its
/// two volume registers, when its SPUCNT bit is set.
pub open spec fn input_mix(on: bool, inp: (i16, i16), vl: u16, vr: u16) -> (int, int) {
    if on {
        (mul15_spec(inp.0 as int, s16(vl as u32)), mul15_spec(inp.1 as int, s16(vr as u32)))
    } else {
        (0, 0)
    }
}

/// `b` is `a` with at most sound RAM and the reverb position changed.
pub open spec fn reverb_frame(a: Spu, b: Spu) -> bool {
    &&& b.regs == a.regs
    &&& b.voices == a.voices
    &&& b.samples == a.samples
    &&& b.gauss_table == a.gauss_table
    &&& b.cycle_accum == a.cycle_accum
    &&& b.transfer_addr == a.transfer_addr
    &&& b.applied_mode == a.applied_mode
    &&& b.apply_delay == a.apply_delay
    &&& b.transfer_busy == a.transfer_busy
    &&& b.capture_i == a.capture_i
    &&& b.main_sweep == a.main_sweep
    &&& b.main_sweep_ctr == a.main_sweep_ctr
    &&& b.cd_in == a.cd_in
    &&& b.ext_in == a.ext_in
    &&& b.endx == a.endx
    &&& b.irq_pending == a.irq_pending
    &&& b.ram.len() == a.ram.len()
}

/// `ram` with `v`, clamped to 16 bits, stored little-endian at the even offset of `addr`.
pub open spec fn poke_ram(ram: Seq<u8>, addr: u32, v: int) -> Seq<u8> {
    let u = (clamp16(v) + 0x1_0000) % 0x1_0000;
    ram.update(ram_off(addr), (u % 256) as u8).update(ram_off(addr) + 1, (u / 256) as u8)
}

impl Spu {
    /// The signed sound RAM halfword at the even offset of `addr`.
    pub open spec fn sample_at(&self, addr: int) -> int {
        let o = ram_off(addr as u32);
        le_i16(self.ram@[o], self.ram@[o + 1])
    }

    /// The reverb work-area offset of a reverb address register value.
    pub open spec fn rev_at(&self, reg: u16) -> int {
        rev_rel_spec(self.regs@[0xD1], reg, self.reverb_addr)
    }

    /// One reflection tap: the input plus the wall-scaled sample at `d`, through the
    /// IIR against the sample just before `m`.
    #[verifier::opaque]
    pub open spec fn reflect_spec(&self, input: int, m: u16, d: u16, vwall: int, viir: int) -> int {
        let prev = self.sample_at(
            if self.rev_at(m) >= 2 { self.rev_at(m) - 2 } else { self.rev_at(m) + 0xFFFF_FFFE },
        );
        let x = input + mul15_spec(self.sample_at(self.rev_at(d)), vwall) - prev;
        mul15_spec(x, viir) + prev
    }

    /// Sound RAM after the four reflections of `lin` and `rin` are stored: same-side
    /// left and right, then cross left and right.
    #[verifier::opaque]
    pub open spec fn reflect_ram(&self, lin: int, rin: int) -> Seq<u8> {
        let r = self.regs@;
        let vwall = s16(r[0xE7] as u32);
        let viir = s16(r[0xE2] as u32);
        let ls = self.reflect_spec(lin, r[0xEA], r[0xF0], vwall, viir);
        let rs = self.reflect_spec(rin, r[0xEB], r[0xF1], vwall, viir);
        let ld = self.reflect_spec(lin, r[0xF2], r[0xF9], vwall, viir);
        let rd = self.reflect_spec(rin, r[0xF3], r[0xF8], vwall, viir);
        let m1 = poke_ram(self.ram@, self.rev_at(r[0xEA]) as u32, ls);
        let m2 = poke_ram(m1, self.rev_at(r[0xEB]) as u32, rs);
        let m3 = poke_ram(m2, self.rev_at(r[0xF2]) as u32, ld);
        poke_ram(m3, self.rev_at(r[0xF3]) as u32, rd)
    }

    /// The delayed sample of an all-pass stage at `m`, `d` back.
    #[verifier::opaque]
    pub open spec fn apf_delayed(&self, m: u16, d: u16) -> int {
        self.sample_at(self.rev_at(if m >= d { (m - d) as u16 } else { (m + 0x1_0000 - d) as u16 }))
    }

    /// What an all-pass stage stores at `m`: the output less the scaled delayed sample.
    #[verifier::opaque]
    pub open spec fn apf_store(&self, out: int, m: u16, d: u16, vapf: int) -> int {
        out - mul15_spec(self.apf_delayed(m, d), vapf)
    }

    /// The sum of the four comb taps at the addresses in registers `a`..`d`.
    #[verifier::opaque]
    pub open spec fn comb_spec(&self, a: int, b: int, c: int, d: int) -> int {
        mul15_spec(self.sample_at(self.rev_at(self.regs@[a])), s16(self.regs@[0xE3] as u32))
            + mul15_spec(self.sample_at(self.rev_at(self.regs@[b])), s16(self.regs@[0xE4] as u32))
            + mul15_spec(self.sample_at(self.rev_at(self.regs@[c])), s16(self.regs@[0xE5] as u32))
            + mul15_spec(self.sample_at(self.rev_at(self.regs@[d])), s16(self.regs@[0xE6] as u32))
    }
}

impl Spu {
    fn reg_s16(&self, off: usize) -> (r: i64)
        requires
            self.wf(),
            off < 0x200,
        ensures
            r == s16(self.regs@[off as int] as u32),
            -0x8000 <= r <= 0x7FFF,
    {
        let v = self.regs[off];
        if v >= 0x8000 {
            v as i64 - 0x1_0000
        } else {
            v as i64
        }
    }

    fn rev_rel(&self, reg: u16) -> (r: u32)
        requires
            self.wf(),
        ensures
            r == rev_rel_spec(self.regs@[0xD1], reg, self.reverb_addr),
            r < SPU_RAM,
    {
        let base: u32 = self.regs[0xD1] as u32 * 8;
        let sub: u32 = if 0x8_0000 > base {
            0x8_0000 - base
        } else {
            0
        };
        let area: u32 = if sub > 8 {
            sub
        } else {
            8
        };
        let off = (reg as u32 * 8).wrapping_add(self.reverb_addr);
        (base.wrapping_add(off % area)) % 0x8_0000 / 2 * 2
    }

    /// The signed sound RAM halfword at `addr`.
    fn ram_i16(&self, addr: u32) -> (r: i64)
        requires
            self.wf(),
        ensures
            r == le_i16(self.ram@[ram_off(addr)], self.ram@[ram_off(addr) + 1]),
            -0x8000 <= r <= 0x7FFF,
    {
        let a = ((addr as usize) % SPU_RAM) / 2 * 2;
        let u: i64 = self.ram[a] as i64 + self.ram[a + 1] as i64 * 256;
        if u >= 0x8000 {
            u - 0x1_0000
        } else {
            u
        }
    }

    /// `v` clamped to 16 bits, stored little-endian at `addr`.
    fn poke_i16(&mut self, addr: u32, v: i64)
        requires
            old(self).wf(),
        ensures
            final(self).wf(),
            reverb_frame(*old(self), *final(self)),
            final(self).reverb_addr == old(self).reverb_addr,
            ({
                let u = (clamp16(v as int) + 0x1_0000) % 0x1_0000;
                final(self).ram@ == old(self).ram@.update(ram_off(addr), (u % 256) as u8).update(
                    ram_off(addr) + 1,
                    (u / 256) as u8,
                )
            }),
    {
        let a = ((addr as usize) % SPU_RAM) / 2 * 2;
        let c: i64 = if v < -0x8000 {
            -0x8000
        } else if v > 0x7FFF {
            0x7FFF
        } else {
            v
        };
        let u: u32 = ((c + 0x1_0000) % 0x1_0000) as u32;
        self.ram.set(a, (u % 256) as u8);
        self.ram.set(a + 1, (u / 256) as u8);
    }

    /// One reflection tap: the input plus the wall-scaled sample at `d`, fed through the
    /// IIR against the sample before `m`.
    fn reflect(&self, input: i64, m: u16, d: u16, vwall: i64, viir: i64) -> (r: i64)
        requires
            self.wf(),
            -0x200_0000 <= input <= 0x200_0000,
            -0x8000 <= vwall <= 0x8000,
            -0x8000 <= viir <= 0x8000,
        ensures
            r == self.reflect_spec(input as int, m, d, vwall as int, viir as int),
            -mag(input as int) - 0x18000 <= r <= mag(input as int) + 0x18000,
    {
        let dst = self.rev_rel(m);
        let src = self.rev_rel(d);
        let prev = self.ram_i16(dst.wrapping_sub(2));
        let t = mul15(self.ram_i16(src), vwall);
        let x = input + t - prev;
        let r = mul15(x, viir) + prev;
        proof {
            reveal(Spu::reflect_spec);
        }
        r
    }

    /// One all-pass stage: the output less the scaled delayed sample (stored at `m`
    /// when writing), scaled and added back to the delayed sample.
    fn apf(&mut self, out: i64, m: u16, d: u16, vapf: i64, write: bool) -> (r: i64)
        requires
            old(self).wf(),
            -0x100_0000 <= out <= 0x100_0000,
            -0x8000 <= vapf <= 0x8000,
        ensures
            final(self).wf(),
            reverb_frame(*old(self), *final(self)),
            final(self).reverb_addr == old(self).reverb_addr,
            !write ==> final(self).ram == old(self).ram,
            write ==> final(self).ram@ == poke_ram(
                old(self).ram@,
                old(self).rev_at(m) as u32,
                old(self).apf_store(out as int, m, d, vapf as int),
            ),
            r == mul15_spec(old(self).apf_store(out as int, m, d, vapf as int), vapf as int)
                + old(self).apf_delayed(m, d),
            -mag(out as int) - 0x10000 <= r <= mag(out as int) + 0x10000,
    {
        let dst = self.rev_rel(m);
        let src = self.rev_rel(m.wrapping_sub(d));
        let delayed = self.ram_i16(src);
        let o = out - mul15(delayed, vapf);
        proof {
            reveal(Spu::apf_delayed);
            reveal(Spu::apf_store);
        }
        let ghost s0 = *self;
        if write {
            self.poke_i16(dst, o);
            assert(self.ram@ == poke_ram(s0.ram@, dst, o as int));
        }
        mul15(o, vapf) + delayed
    }

    /// The same-side and cross reflections of the reverb inputs, stored when writing.
    fn reverb_reflect(&mut self, lin: i64, rin: i64, write: bool)
        requires
            old(self).wf(),
            -0x100_0000 <= lin <= 0x100_0000,
            -0x100_0000 <= rin <= 0x100_0000,
        ensures
            final(self).wf(),
            reverb_frame(*old(self), *final(self)),
            final(self).reverb_addr == old(self).reverb_addr,
            !write ==> final(self).ram == old(self).ram,
            write ==> final(self).ram@ == old(self).reflect_ram(lin as int, rin as int),
    {
        let ghost s0 = *self;
        let viir = self.reg_s16(0xE2);
        let vwall = self.reg_s16(0xE7);
        let mlsame_a = self.regs[0xEA];
        let mrsame_a = self.regs[0xEB];
        let mldiff_a = self.regs[0xF2];
        let mrdiff_a = self.regs[0xF3];
        let mlsame = self.reflect(lin, mlsame_a, self.regs[0xF0], vwall, viir);
        let mrsame = self.reflect(rin, mrsame_a, self.regs[0xF1], vwall, viir);
        let mldiff = self.reflect(lin, mldiff_a, self.regs[0xF9], vwall, viir);
        let mrdiff = self.reflect(rin, mrdiff_a, self.regs[0xF8], vwall, viir);
        if write {
            let a = self.rev_rel(mlsame_a);
            self.poke_i16(a, mlsame);
            let a = self.rev_rel(mrsame_a);
            self.poke_i16(a, mrsame);
            let a = self.rev_rel(mldiff_a);
            self.poke_i16(a, mldiff);
            let a = self.rev_rel(mrdiff_a);
            self.poke_i16(a, mrdiff);
            proof {
                reveal(Spu::reflect_ram);
            }
        }
    }

    /// The four comb taps at the work-area addresses in registers `a`..`d`, through the
    /// four comb volumes.
    fn reverb_comb(&self, a: usize, b: usize, c: usize, d: usize) -> (r: i64)
        requires
            self.wf(),
            a < 0x200,
            b < 0x200,
            c < 0x200,
            d < 0x200,
        ensures
            r == self.comb_spec(a as int, b as int, c as int, d as int),
            -0x20000 <= r <= 0x20000,
    {
        let t1 = mul15(self.ram_i16(self.rev_rel(self.regs[a])), self.reg_s16(0xE3));
        let t2 = mul15(self.ram_i16(self.rev_rel(self.regs[b])), self.reg_s16(0xE4));
        let t3 = mul15(self.ram_i16(self.rev_rel(self.regs[c])), self.reg_s16(0xE5));
        let t4 = mul15(self.ram_i16(self.rev_rel(self.regs[d])), self.reg_s16(0xE6));
        proof {
            reveal(Spu::comb_spec);
        }
        t1 + t2 + t3 + t4
    }

    /// The reverb unit for one sample: the (left, right) reverb inputs run through the
    /// same-side and cross reflections (written back when `write`), four comb taps and
    /// two all-pass stages, scaled by the reverb output volumes. The position then
    /// moves on.
    #[verifier::rlimit(80)]
    #[verifier::spinoff_prover]
    fn reverb_mix(&mut self, input_l: i64, input_r: i64, write: bool) -> (r: (i64, i64))
        requires
            old(self).wf(),
            -0x100_0000 <= input_l <= 0x100_0000,
            -0x100_0000 <= input_r <= 0x100_0000,
        ensures
            final(self).wf(),
            reverb_frame(*old(self), *final(self)),
            final(self).reverb_addr == next_reverb_addr(old(self).regs@[0xD1], old(self).reverb_addr),
            !write ==> final(self).ram == old(self).ram,
            -0x4_0000 <= r.0 <= 0x4_0000,
            -0x4_0000 <= r.1 <= 0x4_0000,
    {
        let lin = mul15(input_l, self.reg_s16(0xFE));
        let rin = mul15(input_r, self.reg_s16(0xFF));
        self.reverb_reflect(lin, rin, write);
        let lout = self.reverb_comb(0xEC, 0xEE, 0xF4, 0xF6);
        let rout = self.reverb_comb(0xED, 0xEF, 0xF5, 0xF7);
        let vapf1 = self.reg_s16(0xE8);
        let vapf2 = self.reg_s16(0xE9);
        let dapf1 = self.regs[0xE0];
        let dapf2 = self.regs[0xE1];
        let m1 = self.regs[0xFA];
        let lout = self.apf(lout, m1, dapf1, vapf1, write);
        let m2 = self.regs[0xFB];
        let rout = self.apf(rout, m2, dapf1, vapf1, write);
        let m3 = self.regs[0xFC];
        let lout = self.apf(lout, m3, dapf2, vapf2, write);
        let m4 = self.regs[0xFD];
        let rout = self.apf(rout, m4, dapf2, vapf2, write);
        let base: u32 = self.regs[0xD1] as u32 * 8;
        let mut ra = self.reverb_addr.wrapping_add(2);
        if ra < base || ra > 0x7FFFE {
            ra = base;
        }
        self.reverb_addr = ra;
        let vlout = self.reg_s16(0xC2);
        let vrout = self.reg_s16(0xC3);
        (mul15(lout, vlout), mul15(rout, vrout))
    }
}

/// The little-endian bytes of a signed sample.
pub open spec fn le_bytes(x: i16) -> (u8, u8) {
    let u = (x as int + 0x1_0000) % 0x1_0000;
    ((u % 256) as u8, (u / 256) as u8)
}

/// Whether byte offset `j` is one of the eight capture bytes written at capture index
/// `ci` (CD left and right, voices 1 and 3).
pub open spec fn capture_byte(ci: int, j: int) -> bool {
    let o = ci * 2;
    ||| j == o || j == o + 1
    ||| j == 0x400 + o || j == 0x401 + o
    ||| j == 0x800 + o || j == 0x801 + o
    ||| j == 0xC00 + o || j == 0xC01 + o
}

impl Spu {
    /// A main volume register's level for this sample. A sweep ticks a main sweep
    /// slot: the right one when the register equals the right volume register, else
    /// the left one.
    fn master_volume(&mut self, reg: u16) -> (r: i64)
        requires
            old(self).wf(),
        ensures
            final(self).wf(),
            level_ok(r as int),
            reg < 0x8000 ==> r == fixed_volume(reg) && final(self).main_sweep == old(self).main_sweep
                && final(self).main_sweep_ctr == old(self).main_sweep_ctr,
            final(self).ram == old(self).ram,
            final(self).regs == old(self).regs,
            final(self).voices == old(self).voices,
            final(self).samples == old(self).samples,
            final(self).gauss_table == old(self).gauss_table,
            final(self).cycle_accum == old(self).cycle_accum,
            final(self).transfer_addr == old(self).transfer_addr,
            final(self).applied_mode == old(self).applied_mode,
            final(self).apply_delay == old(self).apply_delay,
            final(self).transfer_busy == old(self).transfer_busy,
            final(self).capture_i == old(self).capture_i,
            final(self).reverb_addr == old(self).reverb_addr,
            final(self).cd_in == old(self).cd_in,
            final(self).ext_in == old(self).ext_in,
            final(self).endx == old(self).endx,
            final(self).irq_pending == old(self).irq_pending,
    {
        let slot: usize = if reg == self.regs[0xC1] {
            1
        } else {
            0
        };
        let (v, l, c) = main_volume(reg, self.main_sweep[slot], self.main_sweep_ctr[slot]);
        self.main_sweep[slot] = l;
        self.main_sweep_ctr[slot] = c;
        v as i64
    }

    /// The 24 voices for one sample: each voice's output through its left and right
    /// volumes, summed into the dry mix and, for voices enabled in EON, the reverb
    /// input. Also returns voices 1 and 3 clamped, for the capture buffers.
    #[verifier::spinoff_prover]
    fn mix_voices(&mut self) -> (r: (i64, i64, i64, i64, i16, i16))
        requires
            old(self).wf(),
        ensures
            final(self).wf(),
            mixer_frame(*old(self), *final(self)),
            -0x30_0000 <= r.0 <= 0x30_0000,
            -0x30_0000 <= r.1 <= 0x30_0000,
            -0x30_0000 <= r.2 <= 0x30_0000,
            -0x30_0000 <= r.3 <= 0x30_0000,
            ({
                let os = old(self).voices@;
                let ns = final(self).voices@;
                let regs = old(self).regs@;
                let t = old(self).gauss_table@;
                &&& r.0 == mix_sum(os, ns, regs, t, VOICES as int, false, false)
                &&& r.1 == mix_sum(os, ns, regs, t, VOICES as int, true, false)
                &&& r.2 == mix_sum(os, ns, regs, t, VOICES as int, false, true)
                &&& r.3 == mix_sum(os, ns, regs, t, VOICES as int, true, true)
                &&& r.4 == clamp16(voice_out(os[1], ns[1], regs, t, 1))
                &&& r.5 == clamp16(voice_out(os[3], ns[3], regs, t, 3))
            }),
    {
        let mut left: i64 = 0;
        let mut right: i64 = 0;
        let mut rev_l: i64 = 0;
        let mut rev_r: i64 = 0;
        let mut v1: i16 = 0;
        let mut v3: i16 = 0;
        let mut rest: u32 = self.regs[0xCC] as u32 + self.regs[0xCD] as u32 * 0x1_0000;
        let ghost s0 = *self;
        let mut i: usize = 0;
        while i < VOICES
            invariant
                i <= VOICES,
                self.wf(),
                mixer_frame(s0, *self),
                -0x20000 * i <= left <= 0x20000 * i,
                -0x20000 * i <= right <= 0x20000 * i,
                -0x20000 * i <= rev_l <= 0x20000 * i,
                -0x20000 * i <= rev_r <= 0x20000 * i,
                self.voices@.len() == VOICES,
                forall|k: int| i <= k < VOICES ==> self.voices@[k] == s0.voices@[k],
                rest as int == eon_shift(s0.regs@[0xCC] as int + s0.regs@[0xCD] as int * 0x1_0000, i as int),
                left == mix_sum(s0.voices@, self.voices@, s0.regs@, s0.gauss_table@, i as int, false, false),
                right == mix_sum(s0.voices@, self.voices@, s0.regs@, s0.gauss_table@, i as int, true, false),
                rev_l == mix_sum(s0.voices@, self.voices@, s0.regs@, s0.gauss_table@, i as int, false, true),
                rev_r == mix_sum(s0.voices@, self.voices@, s0.regs@, s0.gauss_table@, i as int, true, true),
                i > 1 ==> v1 == clamp16(voice_out(s0.voices@[1], self.voices@[1], s0.regs@, s0.gauss_table@, 1)),
                i > 3 ==> v3 == clamp16(voice_out(s0.voices@[3], self.voices@[3], s0.regs@, s0.gauss_table@, 3)),
            decreases VOICES - i,
        {
            let ghost before = self.voices@;
            let s = self.voice_sample(i);
            let c: i16 = if s < -0x8000 {
                -0x8000
            } else if s > 0x7FFF {
                0x7FFF
            } else {
                s as i16
            };
            if i == 1 {
                v1 = c;
            }
            if i == 3 {
                v3 = c;
            }
            let rl = self.regs[i * 8];
            let rr = self.regs[i * 8 + 1];
            let mut v = self.voices[i];
            let vol_l = v.sweep_volume(rl);
            let vol_r = v.sweep_volume(rr);
            self.voices.set(i, v);
            let vl = mul15(s, vol_l as i64);
            let vr = mul15(s, vol_r as i64);
            left = left + vl;
            right = right + vr;
            if rest % 2 == 1 {
                rev_l = rev_l + vl;
                rev_r = rev_r + vr;
            }
            proof {
                let vs = self.voices@;
                assert(forall|k: int| 0 <= k < i ==> before[k] == vs[k]);
                lemma_mix_sum_frame(s0.voices@, before, vs, s0.regs@, s0.gauss_table@, i as int, false, false);
                lemma_mix_sum_frame(s0.voices@, before, vs, s0.regs@, s0.gauss_table@, i as int, true, false);
                lemma_mix_sum_frame(s0.voices@, before, vs, s0.regs@, s0.gauss_table@, i as int, false, true);
                lemma_mix_sum_frame(s0.voices@, before, vs, s0.regs@, s0.gauss_table@, i as int, true, true);
                assert(s as int == voice_out(s0.voices@[i as int], vs[i as int], s0.regs@, s0.gauss_table@, i as int));
            }
            rest = rest / 2;
            i += 1;
        }
        (left, right, rev_l, rev_r, v1, v3)
    }

    /// One 44.1 kHz output frame: voices, CD and external inputs and reverb mixed,
    /// scaled by the main volumes and clamped (silence while the SPU is disabled or
    /// muted), appended to the output; the CD inputs and voices 1 and 3 go to the
    /// capture buffers in sound RAM.
    #[verifier::rlimit(40)]
    fn mix_sample(&mut self)
        requires
            old(self).wf(),
        ensures
            final(self).wf(),
            final(self).samples@.len() == old(self).samples@.len() + 2,
            final(self).samples@.subrange(0, old(self).samples@.len() as int) == old(self).samples@,
            ({
                let cnt = old(self).regs@[0xD5];
                let n = old(self).samples@.len() as int;
                &&& (cnt < 0x8000 || (cnt / 0x4000) % 2 == 0) ==> final(self).samples@[n] == 0
                    && final(self).samples@[n + 1] == 0
                &&& old(self).regs@[0xC0] == 0 ==> final(self).samples@[n] == 0
                &&& old(self).regs@[0xC1] == 0 ==> final(self).samples@[n + 1] == 0
            }),
            final(self).capture_i == (old(self).capture_i + 1) % 0x200,
            ({
                let o = old(self).capture_i * 2;
                &&& final(self).ram@[o] == le_bytes(old(self).cd_in.0).0
                &&& final(self).ram@[o + 1] == le_bytes(old(self).cd_in.0).1
                &&& final(self).ram@[0x400 + o] == le_bytes(old(self).cd_in.1).0
                &&& final(self).ram@[0x401 + o] == le_bytes(old(self).cd_in.1).1
            }),
            (old(self).regs@[0xD5] < 0x8000 || (old(self).regs@[0xD5] / 128) % 2 == 0) ==> forall|j: int|
                0 <= j < SPU_RAM && !capture_byte(old(self).capture_i as int, j) ==> final(self).ram@[j]
                    == old(self).ram@[j],
            final(self).regs == old(self).regs,
            final(self).gauss_table == old(self).gauss_table,
            final(self).cycle_accum == old(self).cycle_accum,
            final(self).transfer_addr == old(self).transfer_addr,
            final(self).applied_mode == old(self).applied_mode,
            final(self).apply_delay == old(self).apply_delay,
            final(self).transfer_busy == old(self).transfer_busy,
            final(self).cd_in == old(self).cd_in,
            final(self).ext_in == old(self).ext_in,
            old(self).irq_pending ==> final(self).irq_pending,
    {
        let cnt = self.regs[0xD5];
        let enabled = cnt >= 0x8000;
        let mute = (cnt / 0x4000) % 2 == 0;
        let mut left: i64 = 0;
        let mut right: i64 = 0;
        let mut v1: i16 = 0;
        let mut v3: i16 = 0;
        if enabled {
            let (l, r, rl0, rr0, a, b) = self.mix_voices();
            v1 = a;
            v3 = b;
            left = l;
            right = r;
            let mut rev_l = rl0;
            let mut rev_r = rr0;
            if cnt % 2 == 1 {
                let cl = mul15(self.cd_in.0 as i64, self.reg_s16(0xD8));
                let cr = mul15(self.cd_in.1 as i64, self.reg_s16(0xD9));
                left = left + cl;
                right = right + cr;
                if (cnt / 4) % 2 == 1 {
                    rev_l = rev_l + cl;
                    rev_r = rev_r + cr;
                }
            }
            if (cnt / 2) % 2 == 1 {
                let el = mul15(self.ext_in.0 as i64, self.reg_s16(0xDA));
                let er = mul15(self.ext_in.1 as i64, self.reg_s16(0xDB));
                left = left + el;
                right = right + er;
                if (cnt / 8) % 2 == 1 {
                    rev_l = rev_l + el;
                    rev_r = rev_r + er;
                }
            }
            let (ol, or) = self.reverb_mix(rev_l, rev_r, (cnt / 128) % 2 == 1);
            left = left + ol;
            right = right + or;
        }
        if mute || !enabled {
            left = 0;
            right = 0;
        } else {
            let ml = self.master_volume(self.regs[0xC0]);
            let l0 = left;
            left = mul15(left, ml);
            assert(ml == 0 ==> left == 0) by (nonlinear_arith)
                requires
                    left == (l0 * ml) / 32768,
            ;
            let mr = self.master_volume(self.regs[0xC1]);
            let r0 = right;
            right = mul15(right, mr);
            assert(mr == 0 ==> right == 0) by (nonlinear_arith)
                requires
                    right == (r0 * mr) / 32768,
            ;
        }
        let out_l: i16 = if left < -0x8000 {
            -0x8000
        } else if left > 0x7FFF {
            0x7FFF
        } else {
            left as i16
        };
        let out_r: i16 = if right < -0x8000 {
            -0x8000
        } else if right > 0x7FFF {
            0x7FFF
        } else {
            right as i16
        };
        self.samples.push(out_l);
        self.samples.push(out_r);
        let o = self.capture_i * 2;
        self.put_le(o, self.cd_in.0);
        self.put_le(0x400 + o, self.cd_in.1);
        self.put_le(0x800 + o, v1);
        self.put_le(0xC00 + o, v3);
        self.capture_i = (self.capture_i + 1) % 0x200;
    }

    /// `x` stored little-endian at byte offset `a` (even, below the capture area's end).
    fn put_le(&mut self, a: usize, x: i16)
        requires
            old(self).wf(),
            a + 1 < SPU_RAM,
        ensures
            final(self).wf(),
            final(self).ram@ == old(self).ram@.update(a as int, le_bytes(x).0).update(
                a + 1,
                le_bytes(x).1,
            ),
            reverb_frame(*old(self), *final(self)),
            final(self).reverb_addr == old(self).reverb_addr,
    {
        let u: u32 = ((x as i32 + 0x1_0000) % 0x1_0000) as u32;
        self.ram.set(a, (u % 256) as u8);
        self.ram.set(a + 1, (u / 256) as u8);
    }
}

} // verus!
