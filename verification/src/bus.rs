//! The system bus: RAM, BIOS, scratchpad, memory control and the I/O devices, and the
//! clock that drives them.
use vstd::prelude::*;

use crate::cdrom::Cdrom;
use crate::disc::Disc;
use crate::dma::{put_word, read_word, word_at, write_word, Dma, RAM_SIZE};
use crate::gpu::Gpu;
use crate::irq::{Irq, IRQ_SPU, IRQ_VBLANK};
use crate::joy::Joy;
use crate::spu::Spu;
use crate::timers::Timers;

verus! {

pub const BIOS_SIZE: usize = 0x8_0000;

pub const CYCLES_PER_LINE: u64 = 2160;

pub const LINES_PER_FRAME: u32 = 263;

pub const VBLANK_START: u32 = 243;

pub struct Bus {
    pub ram: Vec<u8>,
    pub bios: Vec<u8>,
    pub scratch: Vec<u8>,
    pub memctrl: [u32; 9],
    pub ram_size: u32,
    pub cache_ctrl: u32,
    pub gpu: Gpu,
    pub spu: Spu,
    pub cdrom: Cdrom,
    pub dma: Dma,
    pub irq: Irq,
    pub joy: Joy,
    pub timers: Timers,
    pub cycles: u64,
    pub scanline: u32,
    pub vblanks: u64,
    pub in_vblank: bool,
    pub io_writes: u64,
    pub last_io: u32,
    pub io_cd: u64,
    pub io_spu: u64,
    pub io_irq: u64,
    pub io_gpu: u64,
}

/// The physical address of a CPU address: KSEG0 and KSEG1 drop their top three bits.
pub open spec fn phys_spec(addr: u32) -> u32 {
    if addr / 0x2000_0000 == 4 || addr / 0x2000_0000 == 5 {
        (addr % 0x2000_0000) as u32
    } else {
        addr
    }
}

pub fn phys(addr: u32) -> (p: u32)
    ensures
        p == phys_spec(addr),
{
    let seg = addr / 0x2000_0000;
    if seg == 4 || seg == 5 {
        addr % 0x2000_0000
    } else {
        addr
    }
}

/// The physical word address of a CPU address.
pub open spec fn aligned(addr: u32) -> u32 {
    (phys_spec(addr) / 4 * 4) as u32
}

/// Main RAM is mirrored four times in the first 8 MiB.
pub open spec fn in_ram(p: u32) -> bool {
    p < 0x80_0000
}

/// Cycles one word read from the BIOS ROM holds the bus, from its delay/size register
/// `d` (1F801010h) and COM_DELAY `com` (1F801020h): each access takes the read delay
/// (bits 4..7) plus three, plus COM0, COM1 and COM2 where bits 8, 9 and 10 ask for
/// them; a word takes four accesses on the 8-bit bus, two on the 16-bit one (bit 12).
pub open spec fn bios_word_time(d: u32, com: u32) -> int {
    let per = (d / 16) % 16 + 3 + (if (d / 0x100) % 2 == 1 { com % 16 } else { 0 }) + (if (d
        / 0x200) % 2 == 1 {
        (com / 16) % 16
    } else {
        0
    }) + (if (d / 0x400) % 2 == 1 { (com / 0x100) % 16 } else { 0 });
    per * (if (d / 0x1000) % 2 == 1 { 2int } else { 4 })
}

/// Cycles a word read at physical address `p` holds the bus, the issue cycle included:
/// 1 for the scratchpad, 7 for main RAM, the BIOS waitstates for the ROM, 5 elsewhere.
pub open spec fn access_time_spec(memctrl: Seq<u32>, p: u32) -> int {
    if p < 0x80_0000 {
        7
    } else if 0x1F80_0000 <= p <= 0x1F80_03FF {
        1
    } else if in_bios(p) {
        bios_word_time(memctrl[4], memctrl[8])
    } else {
        5
    }
}

/// Whether a data read at physical address `p` needs the bus that DMA takes: main RAM
/// or the I/O ports.
pub open spec fn needs_bus(p: u32) -> bool {
    p < 0x80_0000 || (0x1F80_1000 <= p <= 0x1F80_2FFF)
}

/// The 1 KiB scratchpad.
pub open spec fn in_scratch(p: u32) -> bool {
    0x1F80_0000 <= p <= 0x1F80_03FF
}

/// A word address that no device decodes: a read sees the open bus, FFFFFFFFh.
pub open spec fn open_bus(p: u32) -> bool {
    &&& p >= 0x80_0000
    &&& !in_scratch(p)
    &&& !(0x1F80_1000 <= p <= 0x1F80_1020)
    &&& p != 0x1F80_1060 && p != 0x1F80_1070 && p != 0x1F80_1074
    &&& !(0x1F80_1080 <= p <= 0x1F80_10FC)
    &&& !(0x1F80_1100 <= p <= 0x1F80_1128)
    &&& p != 0x1F80_1810 && p != 0x1F80_1814
    &&& !(0x1F80_1C00 <= p <= 0x1F80_1FFF)
    &&& !in_bios(p)
    &&& p != 0xFFFE_0130 && p != 0x1F80_1040 && p != 0x1F80_1044 && p != 0x1F80_1048
    &&& !(0x1F80_1050 <= p <= 0x1F80_105C)
}

/// Whether an access at physical address `p` is counted as an I/O port access.
pub open spec fn io_port(p: u32) -> bool {
    (0x1F80_1000 <= p <= 0x1F80_1FFF) || p == 0xFFFE_0130
}

/// A 64-bit access counter, moved on by one (wrapping) where `hit` holds.
pub open spec fn bump(c: u64, hit: bool) -> u64 {
    if hit { ((c + 1) % 0x1_0000_0000_0000_0000) as u64 } else { c }
}

/// The BIOS ROM region.
pub open spec fn in_bios(p: u32) -> bool {
    0x1FC0_0000 <= p <= 0x1FFF_FFFF
}

/// The initial memory-control registers.
pub open spec fn memctrl_reset() -> Seq<u32> {
    seq![
        0x1F00_0000u32,
        0x1F80_2000,
        0x0013_243F,
        0x0000_3022,
        0x0013_243F,
        0x2009_31E1,
        0x0002_0843,
        0x0007_0777,
        0x0003_1125,
    ]
}

/// Writing a word at `a` and reading it back gives the word.
pub proof fn lemma_put_then_read(ram: Seq<u8>, a: int, v: u32)
    requires
        0 <= a,
        a + 4 <= ram.len(),
    ensures
        word_at(put_word(ram, a, v), a) == v,
        put_word(ram, a, v).len() == ram.len(),
{
    let r = put_word(ram, a, v);
    assert(r[a] == v % 0x100);
    assert(r[a + 1] == (v / 0x100) % 0x100);
    assert(r[a + 2] == (v / 0x1_0000) % 0x100);
    assert(r[a + 3] == v / 0x100_0000);
}

/// A RAM word read after a RAM word write to the same address gives back what was written.
pub proof fn law_ram_read_after_write(ram: Seq<u8>, p: u32, v: u32)
    requires
        ram.len() == RAM_SIZE,
        in_ram(p),
    ensures
        word_at(put_word(ram, crate::dma::word_off(p), v), crate::dma::word_off(p)) == v,
{
    lemma_put_then_read(ram, crate::dma::word_off(p), v);
}

/// `ram` with the little-endian halfword at byte offset `a` replaced by `v`.
pub open spec fn put_half(ram: Seq<u8>, a: int, v: u16) -> Seq<u8> {
    ram.update(a, (v % 0x100) as u8).update(a + 1, (v / 0x100) as u8)
}

/// The byte offset in RAM of the halfword that holds physical address `p`.
pub open spec fn half_off(p: u32) -> int {
    (p as int % RAM_SIZE as int) / 2 * 2
}

/// Rounding a CPU address down to its word leaves its physical word.
proof fn lemma_aligned_word(addr: u32)
    ensures
        aligned((addr / 4 * 4) as u32) == aligned(addr),
        (aligned(addr) < 0x80_0000) == (phys_spec(addr) < 0x80_0000),
{
    assert({
        &&& (addr / 4 * 4) / 0x2000_0000 == addr / 0x2000_0000
        &&& ((addr / 4 * 4) % 0x2000_0000) / 4 * 4 == (addr % 0x2000_0000) / 4 * 4
        &&& (addr / 4 * 4) / 4 * 4 == addr / 4 * 4
        &&& ((addr % 0x2000_0000) / 4 * 4 < 0x80_0000 <==> addr % 0x2000_0000 < 0x80_0000)
        &&& (addr / 4 * 4 < 0x80_0000 <==> addr < 0x80_0000)
    }) by (bit_vector);
}

/// A halfword lies in the low or the high half of its word.
proof fn lemma_half_in_word(p: u32)
    by (bit_vector)
    ensures
        (p / 2) % 2 == 1 ==> (p % 0x20_0000) / 2 * 2 == ((p / 4 * 4) % 0x20_0000) / 4 * 4 + 2,
        (p / 2) % 2 != 1 ==> (p % 0x20_0000) / 2 * 2 == ((p / 4 * 4) % 0x20_0000) / 4 * 4,
{
}

/// The bytes of a word whose one half was replaced by a halfword.
proof fn lemma_merge_half(b0: u32, b1: u32, b2: u32, b3: u32, value: u32, cur: u32, hi: u32, lo: u32)
    by (bit_vector)
    requires
        b0 < 0x100,
        b1 < 0x100,
        b2 < 0x100,
        b3 < 0x100,
        value < 0x1_0000,
        cur == b0 + b1 * 0x100 + b2 * 0x1_0000 + b3 * 0x100_0000,
        hi == cur % 0x1_0000 + value * 0x1_0000,
        lo == cur / 0x1_0000 * 0x1_0000 + value,
    ensures
        hi % 0x100 == b0,
        (hi / 0x100) % 0x100 == b1,
        (hi / 0x1_0000) % 0x100 == value % 0x100,
        hi / 0x100_0000 == value / 0x100,
        lo % 0x100 == value % 0x100,
        (lo / 0x100) % 0x100 == value / 0x100,
        (lo / 0x1_0000) % 0x100 == b2,
        lo / 0x100_0000 == b3,
{
}

/// Writing a word leaves every byte outside it.
pub proof fn lemma_put_keeps_others(ram: Seq<u8>, a: int, v: u32, i: int)
    requires
        0 <= a,
        a + 4 <= ram.len(),
        0 <= i < ram.len(),
        i < a || i >= a + 4,
    ensures
        put_word(ram, a, v)[i] == ram[i],
{
}

impl Bus {
    pub open spec fn wf(&self) -> bool {
        &&& self.ram.len() == RAM_SIZE
        &&& self.bios.len() == BIOS_SIZE
        &&& self.scratch.len() == 1024
        &&& self.gpu.wf()
        &&& self.spu.wf()
        &&& self.spu.cycle_accum < crate::spu::CYCLES_PER_SAMPLE
        &&& self.cdrom.wf()
        &&& self.dma.wf()
        &&& self.joy.wf()
        &&& self.timers.sysclk8_frac < 8
    }

    /// What a word read of physical RAM address `p` returns.
    pub open spec fn ram_word_spec(&self, p: u32) -> int {
        word_at(self.ram@, crate::dma::word_off(p))
    }

    /// The BIOS word at the (wrapped, word-aligned) offset of `p`.
    pub open spec fn bios_word_spec(&self, p: u32) -> int {
        let off = ((p - 0x1FC0_0000) / 4 * 4) % BIOS_SIZE as int;
        word_at(self.bios@, off)
    }

    /// The BIOS word at offset `p - 1FC00000h` as it stands (unaligned too), or 0
    /// where its four bytes run past the end of the image.
    pub open spec fn bios_peek_spec(&self, p: u32) -> int {
        let off = p - 0x1FC0_0000;
        if off + 4 <= self.bios@.len() {
            word_at(self.bios@, off)
        } else {
            0
        }
    }

    pub fn new(bios: Vec<u8>) -> (b: Bus)
        requires
            bios.len() == BIOS_SIZE,
        ensures
            b.wf(),
            b.bios@ == bios@,
            b.cycles == 0,
            b.vblanks == 0,
            b.memctrl@ == memctrl_reset(),
            b.cache_ctrl == 0,
            forall|i: int| 0 <= i < RAM_SIZE ==> b.ram@[i] == 0,
            b.cdrom.disc is None,
            b.joy.slot1 is None,
    {
        Bus {
            ram: vec![0u8; RAM_SIZE],
            bios,
            scratch: vec![0u8; 1024],
            memctrl: [
                0x1F00_0000,
                0x1F80_2000,
                0x0013_243F,
                0x0000_3022,
                0x0013_243F,
                0x2009_31E1,
                0x0002_0843,
                0x0007_0777,
                0x0003_1125,
            ],
            ram_size: 0x0000_0B88,
            cache_ctrl: 0,
            gpu: Gpu::new(),
            spu: Spu::new(),
            cdrom: Cdrom::new(),
            dma: Dma::new(),
            irq: Irq::new(),
            joy: Joy::new(),
            timers: Timers::new(),
            cycles: 0,
            scanline: 0,
            vblanks: 0,
            in_vblank: false,
            io_writes: 0,
            last_io: 0,
            io_cd: 0,
            io_spu: 0,
            io_irq: 0,
            io_gpu: 0,
        }
    }

    /// Power-on: RAM and scratchpad cleared, every device reset, the clock at zero;
    /// the BIOS and the disc stay.
    pub fn reset(&mut self)
        requires
            old(self).wf(),
        ensures
            final(self).wf(),
            final(self).bios == old(self).bios,
            final(self).cdrom.disc == old(self).cdrom.disc,
            final(self).cycles == 0,
            final(self).vblanks == 0,
            !final(self).in_vblank,
            forall|i: int| 0 <= i < RAM_SIZE ==> final(self).ram@[i] == 0,
            final(self).irq.stat == 0,
            final(self).irq.mask == 0,
            final(self).memctrl == old(self).memctrl,
            final(self).joy.slot1 == old(self).joy.slot1,
            final(self).dma.initial(),
            final(self).gpu.is_initial(),
            final(self).cdrom.idle(),
            final(self).spu.samples@.len() == 0,
            forall|i: int| 0 <= i < 1024 ==> final(self).scratch@[i] == 0,
    {
        self.ram = vec![0u8; RAM_SIZE];
        self.scratch = vec![0u8; 1024];
        self.gpu.reset();
        self.spu.reset();
        self.cdrom.reset();
        self.dma.reset();
        self.irq.reset();
        self.joy.reset();
        self.timers.reset();
        self.cycles = 0;
        self.scanline = 0;
        self.vblanks = 0;
        self.in_vblank = false;
    }

    pub fn gpu(&self) -> (g: &Gpu)
        ensures
            *g == self.gpu,
    {
        &self.gpu
    }

    pub fn dma(&self) -> (d: &Dma)
        ensures
            *d == self.dma,
    {
        &self.dma
    }

    pub fn cdrom(&self) -> (c: &Cdrom)
        ensures
            *c == self.cdrom,
    {
        &self.cdrom
    }

    pub fn insert_disc(&mut self, disc: Disc)
        requires
            old(self).wf(),
        ensures
            final(self).wf(),
            final(self).cdrom.disc == Some(disc),
            final(self).ram == old(self).ram,
            final(self).cycles == old(self).cycles,
    {
        self.cdrom.insert(disc);
    }

    pub fn irq(&self) -> (i: &Irq)
        ensures
            *i == self.irq,
    {
        &self.irq
    }

    pub fn timers(&self) -> (t: &Timers)
        ensures
            *t == self.timers,
    {
        &self.timers
    }

    /// Vertical blanks since reset.
    pub fn vblank_count(&self) -> (n: u64)
        ensures
            n == self.vblanks,
    {
        self.vblanks
    }

    /// CPU cycles since reset.
    pub fn cycles(&self) -> (n: u64)
        ensures
            n == self.cycles,
    {
        self.cycles
    }

    /// The SPU's output since the last take.
    pub fn take_audio(&mut self) -> (s: Vec<i16>)
        requires
            old(self).wf(),
        ensures
            final(self).wf(),
            s@ == old(self).spu.samples@,
            final(self).spu.samples@.len() == 0,
            final(self).ram == old(self).ram,
            final(self).cycles == old(self).cycles,
    {
        self.spu.take_samples()
    }

    /// BIOS ROM delay/size (memory control register 4).
    /// Cycles a word read at physical address `p` holds the bus.
    pub fn access_time(&self, p: u32) -> (t: u32)
        ensures
            t == access_time_spec(self.memctrl@, p),
            1 <= t <= 256,
    {
        if p < 0x80_0000 {
            7
        } else if 0x1F80_0000 <= p && p <= 0x1F80_03FF {
            1
        } else if 0x1FC0_0000 <= p && p <= 0x1FFF_FFFF {
            let d = self.memctrl[4];
            let com = self.memctrl[8];
            let mut per: u32 = (d / 16) % 16 + 3;
            if (d / 0x100) % 2 == 1 {
                per = per + com % 16;
            }
            if (d / 0x200) % 2 == 1 {
                per = per + (com / 16) % 16;
            }
            if (d / 0x400) % 2 == 1 {
                per = per + (com / 0x100) % 16;
            }
            if (d / 0x1000) % 2 == 1 {
                per * 2
            } else {
                per * 4
            }
        } else {
            5
        }
    }

    /// Whether a DMA channel holds the bus.
    pub fn dma_busy(&self) -> (b: bool)
        ensures
            b == exists|ch: int| 0 <= ch < 7 && #[trigger] self.dma.jobs[ch] is Some,
    {
        self.dma.active()
    }

    pub fn memctrl_bios_delay(&self) -> (v: u32)
        ensures
            v == self.memctrl[4],
    {
        self.memctrl[4]
    }

    /// The cache control register (FFFE0130h).
    pub fn cache_ctrl(&self) -> (v: u32)
        ensures
            v == self.cache_ctrl,
    {
        self.cache_ctrl
    }

    /// The DMA holds main RAM this cycle.
    pub fn ram_blocked(&self) -> (b: bool)
        ensures
            b == self.dma.ready_spec(
                self.dma.gpu_blocked_spec(self.gpu.fifo@.len() >= crate::gpu::FIFO_WORDS),
            ) is Some,
    {
        self.dma.occupies_ram(&self.gpu)
    }

    /// CPU writes that wait for the bus: none, writes land at once.
    pub fn write_queue_len(&self) -> (n: usize)
        ensures
            n == 0,
    {
        0
    }

    /// Count an I/O access in the debug counters.
    fn note_io(&mut self, p: u32)
        ensures
            final(self).ram == old(self).ram,
            final(self).bios == old(self).bios,
            final(self).scratch == old(self).scratch,
            final(self).memctrl == old(self).memctrl,
            final(self).ram_size == old(self).ram_size,
            final(self).cache_ctrl == old(self).cache_ctrl,
            final(self).gpu == old(self).gpu,
            final(self).spu == old(self).spu,
            final(self).cdrom == old(self).cdrom,
            final(self).dma == old(self).dma,
            final(self).irq == old(self).irq,
            final(self).joy == old(self).joy,
            final(self).timers == old(self).timers,
            final(self).cycles == old(self).cycles,
            final(self).vblanks == old(self).vblanks,
            final(self).scanline == old(self).scanline,
            final(self).in_vblank == old(self).in_vblank,
            final(self).io_cd == bump(old(self).io_cd, 0x1F80_1800 <= p <= 0x1F80_1803),
            final(self).io_spu == bump(old(self).io_spu, 0x1F80_1C00 <= p <= 0x1F80_1FFF),
            final(self).io_irq == bump(old(self).io_irq, 0x1F80_1070 <= p <= 0x1F80_1076),
            final(self).io_gpu == bump(old(self).io_gpu, 0x1F80_1810 <= p <= 0x1F80_1814),
            final(self).io_writes == bump(old(self).io_writes, io_port(p)),
            final(self).last_io == (if io_port(p) { p } else { old(self).last_io }),
    {
        if 0x1F80_1800 <= p && p <= 0x1F80_1803 {
            self.io_cd = self.io_cd.wrapping_add(1);
            self.io_writes = self.io_writes.wrapping_add(1);
            self.last_io = p;
        } else if 0x1F80_1C00 <= p && p <= 0x1F80_1FFF {
            self.io_spu = self.io_spu.wrapping_add(1);
            self.io_writes = self.io_writes.wrapping_add(1);
            self.last_io = p;
        } else if 0x1F80_1070 <= p && p <= 0x1F80_1076 {
            self.io_irq = self.io_irq.wrapping_add(1);
            self.io_writes = self.io_writes.wrapping_add(1);
            self.last_io = p;
        } else if 0x1F80_1810 <= p && p <= 0x1F80_1814 {
            self.io_gpu = self.io_gpu.wrapping_add(1);
            self.io_writes = self.io_writes.wrapping_add(1);
            self.last_io = p;
        } else if (0x1F80_1000 <= p && p <= 0x1F80_1FFF) || p == 0xFFFE_0130 {
            self.io_writes = self.io_writes.wrapping_add(1);
            self.last_io = p;
        }
    }

    /// A word of RAM or BIOS for inspection, without side effects.
    pub fn ram_word(&self, addr: u32) -> (w: u32)
        requires
            self.wf(),
        ensures
            in_bios(addr % 0x2000_0000) ==> w == self.bios_peek_spec(addr % 0x2000_0000),
            !in_bios(addr % 0x2000_0000) ==> w == self.ram_word_spec(addr % 0x2000_0000),
    {
        let p = addr % 0x2000_0000;
        if p >= 0x1FC0_0000 {
            let off = (p - 0x1FC0_0000) as usize;
            if off < self.bios.len() && self.bios.len() - off >= 4 {
                return self.bios[off] as u32 + self.bios[off + 1] as u32 * 0x100 + self.bios[off
                    + 2] as u32 * 0x1_0000 + self.bios[off + 3] as u32 * 0x100_0000;
            }
            return 0;
        }
        read_word(&self.ram, p)
    }

    /// Advance the machine clock by `cycles`: timers, CD-ROM, SPU and DMA run, the
    /// scanline moves on, and the first line of vertical blank raises IRQ0.
    pub fn tick(&mut self, cycles: u32)
        requires
            old(self).wf(),
        ensures
            final(self).wf(),
            final(self).cycles == (if old(self).cycles + cycles > u64::MAX {
                u64::MAX as int
            } else {
                old(self).cycles + cycles
            }),
            final(self).bios == old(self).bios,
            final(self).cache_ctrl == old(self).cache_ctrl,
            final(self).vblanks == old(self).vblanks || final(self).vblanks == old(self).vblanks + 1,
            final(self).irq.mask == old(self).irq.mask,
            final(self).memctrl == old(self).memctrl,
            ({
                let line = ((final(self).cycles / CYCLES_PER_LINE) as u32) % LINES_PER_FRAME;
                let rises = line != old(self).scanline && line >= VBLANK_START && !old(self).in_vblank;
                &&& final(self).scanline == line
                &&& final(self).in_vblank == (if line != old(self).scanline {
                    line >= VBLANK_START
                } else {
                    old(self).in_vblank
                })
                &&& final(self).vblanks == (if rises {
                    if old(self).vblanks == u64::MAX { u64::MAX } else { (old(self).vblanks + 1) as u64 }
                } else {
                    old(self).vblanks
                })
                &&& rises ==> final(self).irq.stat & 1 == 1
            }),
            final(self).spu.samples@.len() == old(self).spu.samples@.len() + 2 * ((
            old(self).spu.cycle_accum + cycles) / crate::spu::CYCLES_PER_SAMPLE as int),
            final(self).spu.samples@.subrange(0, old(self).spu.samples@.len() as int) == old(
                self,
            ).spu.samples@,
    {
        self.cycles = self.cycles.saturating_add(cycles as u64);
        self.timers.tick(cycles, &mut self.irq);
        self.cdrom.tick(cycles, &mut self.irq);
        self.spu.tick(cycles);
        if self.spu.take_irq() {
            self.irq.raise(IRQ_SPU);
        }
        self.dma.tick(cycles, &mut self.ram, &mut self.gpu, &mut self.spu, &mut self.cdrom, &mut self.irq);
        let line: u32 = ((self.cycles / CYCLES_PER_LINE) as u32) % LINES_PER_FRAME;
        if line != self.scanline {
            self.scanline = line;
            self.timers.hblank(&mut self.irq);
            let vblank = line >= VBLANK_START;
            if vblank && !self.in_vblank {
                self.vblanks = self.vblanks.saturating_add(1);
                let s0 = self.irq.stat;
                self.irq.raise(IRQ_VBLANK);
                assert((s0 | ((1u16 << 0u8) as u16)) & 1u16 == 1u16) by (bit_vector);
            }
            self.in_vblank = vblank;
        }
        self.gpu.tick(cycles, self.scanline, self.in_vblank);
    }

    pub fn read32(&mut self, addr: u32) -> (r: Option<u32>)
        requires
            old(self).wf(),
        ensures
            final(self).wf(),
            r is Some,
            in_ram(aligned(addr)) ==> r == Some(old(self).ram_word_spec(aligned(addr)) as u32),
            in_bios(aligned(addr)) ==> r == Some(old(self).bios_word_spec(aligned(addr)) as u32),
            aligned(addr) == 0xFFFE_0130 ==> r == Some(old(self).cache_ctrl),
            in_scratch(aligned(addr)) ==> r == Some(
                word_at(old(self).scratch@, aligned(addr) - 0x1F80_0000) as u32,
            ),
            open_bus(aligned(addr)) ==> r == Some(0xFFFF_FFFFu32),
            final(self).ram == old(self).ram,
            final(self).bios == old(self).bios,
            final(self).scratch == old(self).scratch,
            final(self).cycles == old(self).cycles,
            final(self).vblanks == old(self).vblanks,
            final(self).cache_ctrl == old(self).cache_ctrl,
            final(self).memctrl == old(self).memctrl,
            final(self).irq.mask == old(self).irq.mask,
            final(self).dma == old(self).dma,
    {
        let p = phys(addr) / 4 * 4;
        let v: u32 = if p < 0x80_0000 {
            read_word(&self.ram, p)
        } else if 0x1F80_0000 <= p && p <= 0x1F80_03FF {
            read_word_at(&self.scratch, (p - 0x1F80_0000) as usize)
        } else if 0x1F80_1000 <= p && p <= 0x1F80_1020 {
            self.memctrl[((p - 0x1F80_1000) / 4) as usize]
        } else if p == 0x1F80_1060 {
            self.ram_size
        } else if p == 0x1F80_1070 || p == 0x1F80_1074 {
            self.irq.read16(p) as u32
        } else if 0x1F80_1080 <= p && p <= 0x1F80_10FC {
            self.dma.read32(p)
        } else if 0x1F80_1100 <= p && p <= 0x1F80_1128 {
            self.timers.read16(p) as u32
        } else if p == 0x1F80_1810 {
            self.gpu.read_gpuread()
        } else if p == 0x1F80_1814 {
            self.gpu.stat()
        } else if 0x1F80_1C00 <= p && p <= 0x1F80_1FFF {
            self.spu.read16(p) as u32
        } else if 0x1FC0_0000 <= p && p <= 0x1FFF_FFFF {
            let off = ((p - 0x1FC0_0000) as usize) % BIOS_SIZE;
            read_word_at(&self.bios, off)
        } else if p == 0xFFFE_0130 {
            self.cache_ctrl
        } else if p == 0x1F80_1040 {
            self.joy.read16(p) as u32
        } else if p == 0x1F80_1044 {
            self.joy.stat() as u32
        } else if p == 0x1F80_1048 {
            let lo = self.joy.read16(p) as u32;
            let hi = self.joy.read16(p + 2) as u32;
            lo + hi * 0x1_0000
        } else if 0x1F80_1050 <= p && p <= 0x1F80_105C {
            0x0000_0005
        } else {
            0xFFFF_FFFF
        };
        Some(v)
    }

    pub fn read16(&mut self, addr: u32) -> (r: Option<u16>)
        requires
            old(self).wf(),
        ensures
            final(self).wf(),
            r is Some,
            final(self).ram == old(self).ram,
            final(self).bios == old(self).bios,
            final(self).cycles == old(self).cycles,
            final(self).vblanks == old(self).vblanks,
            final(self).cache_ctrl == old(self).cache_ctrl,
            final(self).irq.mask == old(self).irq.mask,
            in_ram(aligned(addr)) && phys_spec(addr) < 0x1F80_1000 ==> r == Some(
                (if (phys_spec(addr) / 2) % 2 == 1 {
                    old(self).ram_word_spec(aligned(addr)) / 0x1_0000
                } else {
                    old(self).ram_word_spec(aligned(addr)) % 0x1_0000
                }) as u16,
            ),
    {
        let p = phys(addr);
        let v: u16 = if 0x1F80_1C00 <= p && p <= 0x1F80_1FFF {
            self.spu.read16(p)
        } else if 0x1F80_1070 <= p && p <= 0x1F80_1076 {
            self.irq.read16(p)
        } else if 0x1F80_1100 <= p && p <= 0x1F80_112F {
            self.timers.read16(p)
        } else if 0x1F80_1040 <= p && p <= 0x1F80_104F {
            self.joy.read16(p)
        } else if p == 0x1F80_1054 {
            0x0005
        } else {
            let w = match self.read32(addr / 4 * 4) {
                Some(w) => w,
                None => 0,
            };
            proof {
                assert(aligned((addr / 4 * 4) as u32) == aligned(addr));
            }
            if (p / 2) % 2 == 1 {
                (w / 0x1_0000) as u16
            } else {
                (w % 0x1_0000) as u16
            }
        };
        Some(v)
    }

    pub fn read8(&mut self, addr: u32) -> (r: Option<u8>)
        requires
            old(self).wf(),
        ensures
            final(self).wf(),
            r is Some,
            final(self).ram == old(self).ram,
            final(self).bios == old(self).bios,
            final(self).cycles == old(self).cycles,
            final(self).vblanks == old(self).vblanks,
            final(self).cache_ctrl == old(self).cache_ctrl,
            final(self).irq.mask == old(self).irq.mask,
            in_ram(phys_spec(addr)) ==> r == Some(old(self).ram@[phys_spec(addr) as int % RAM_SIZE as int]),
    {
        let p = phys(addr);
        let v: u8 = if p < 0x80_0000 {
            self.ram[(p as usize) % RAM_SIZE]
        } else if 0x1F80_0000 <= p && p <= 0x1F80_03FF {
            self.scratch[(p - 0x1F80_0000) as usize]
        } else if 0x1F80_1040 <= p && p <= 0x1F80_104F {
            self.joy.read8(p)
        } else if 0x1F80_1800 <= p && p <= 0x1F80_1803 {
            self.cdrom.read8(p)
        } else if 0x1FC0_0000 <= p && p <= 0x1FFF_FFFF {
            self.bios[((p - 0x1FC0_0000) as usize) % BIOS_SIZE]
        } else {
            let w = match self.read32(addr) {
                Some(w) => w,
                None => 0,
            };
            let k = p % 4;
            if k == 0 {
                (w % 0x100) as u8
            } else if k == 1 {
                ((w / 0x100) % 0x100) as u8
            } else if k == 2 {
                ((w / 0x1_0000) % 0x100) as u8
            } else {
                (w / 0x100_0000) as u8
            }
        };
        Some(v)
    }

    pub fn write32(&mut self, addr: u32, value: u32)
        requires
            old(self).wf(),
        ensures
            final(self).wf(),
            in_ram(aligned(addr)) ==> final(self).ram@ == put_word(
                old(self).ram@,
                crate::dma::word_off(aligned(addr)),
                value,
            ),
            !in_ram(aligned(addr)) && !(0x1F80_1080 <= aligned(addr) <= 0x1F80_10FC)
                ==> final(self).ram == old(self).ram,
            aligned(addr) == 0xFFFE_0130 ==> final(self).cache_ctrl == value,
            in_scratch(aligned(addr)) ==> final(self).scratch@ == put_word(
                old(self).scratch@,
                aligned(addr) - 0x1F80_0000,
                value,
            ),
            aligned(addr) != 0xFFFE_0130 ==> final(self).cache_ctrl == old(self).cache_ctrl,
            final(self).bios == old(self).bios,
            final(self).cycles == old(self).cycles,
            final(self).vblanks == old(self).vblanks,
    {
        let p = phys(addr) / 4 * 4;
        self.note_io(p);
        if p < 0x80_0000 {
            write_word(&mut self.ram, p, value);
        } else if 0x1F80_0000 <= p && p <= 0x1F80_03FF {
            let a = (p - 0x1F80_0000) as usize;
            if a + 4 <= self.scratch.len() {
                self.scratch.set(a, (value % 0x100) as u8);
                self.scratch.set(a + 1, ((value / 0x100) % 0x100) as u8);
                self.scratch.set(a + 2, ((value / 0x1_0000) % 0x100) as u8);
                self.scratch.set(a + 3, (value / 0x100_0000) as u8);
            }
        } else if 0x1F80_1000 <= p && p <= 0x1F80_1020 {
            self.memctrl[((p - 0x1F80_1000) / 4) as usize] = value;
        } else if p == 0x1F80_1060 {
            self.ram_size = value;
        } else if p == 0x1F80_1070 || p == 0x1F80_1074 {
            self.irq.write16(p, (value % 0x1_0000) as u16);
        } else if 0x1F80_1080 <= p && p <= 0x1F80_10FC {
            self.dma.write32(
                p,
                value,
                &mut self.ram,
                &mut self.gpu,
                &mut self.spu,
                &mut self.cdrom,
                &mut self.irq,
            );
        } else if 0x1F80_1100 <= p && p <= 0x1F80_1128 {
            self.timers.write16(p, (value % 0x1_0000) as u16);
        } else if p == 0x1F80_1040 {
            self.joy.write16(p, (value % 0x1_0000) as u16);
        } else if p == 0x1F80_1048 {
            self.joy.write16(p, (value % 0x1_0000) as u16);
            self.joy.write16(p + 2, (value / 0x1_0000) as u16);
        } else if p == 0x1F80_1810 {
            self.gpu.gp0(value);
        } else if p == 0x1F80_1814 {
            self.gpu.gp1(value);
        } else if 0x1F80_1C00 <= p && p <= 0x1F80_1FFF {
            self.spu.write16(p, (value % 0x1_0000) as u16);
            self.spu.write16(p + 2, (value / 0x1_0000) as u16);
        } else if p == 0xFFFE_0130 {
            self.cache_ctrl = value;
        }
    }

    #[verifier::spinoff_prover]
    pub fn write16(&mut self, addr: u32, value: u16)
        requires
            old(self).wf(),
        ensures
            final(self).wf(),
            final(self).bios == old(self).bios,
            final(self).cycles == old(self).cycles,
            final(self).vblanks == old(self).vblanks,
            in_ram(phys_spec(addr)) ==> final(self).ram@ == put_half(
                old(self).ram@,
                half_off(phys_spec(addr)),
                value,
            ),
    {
        let p = phys(addr);
        self.note_io(p);
        if 0x1F80_1C00 <= p && p <= 0x1F80_1FFF {
            self.spu.write16(p, value);
        } else if 0x1F80_1040 <= p && p <= 0x1F80_104F {
            self.joy.write16(p, value);
        } else if 0x1F80_1070 <= p && p <= 0x1F80_1076 {
            self.irq.write16(p, value);
        } else if 0x1F80_1100 <= p && p <= 0x1F80_112F {
            self.timers.write16(p, value);
        } else {
            let cur = match self.read32(addr / 4 * 4) {
                Some(w) => w,
                None => 0,
            };
            let ghost ram0 = self.ram@;
            let v: u32 = if (p / 2) % 2 == 1 {
                (cur % 0x1_0000) + (value as u32) * 0x1_0000
            } else {
                (cur / 0x1_0000) * 0x1_0000 + value as u32
            };
            self.write32(addr / 4 * 4, v);
            proof {
                lemma_aligned_word(addr);
                if in_ram(p) {
                    let w = crate::dma::word_off(aligned(addr));
                    lemma_half_in_word(p);
                    lemma_merge_half(
                        ram0[w] as u32,
                        ram0[w + 1] as u32,
                        ram0[w + 2] as u32,
                        ram0[w + 3] as u32,
                        value as u32,
                        cur,
                        ((cur % 0x1_0000) + (value as u32) * 0x1_0000) as u32,
                        ((cur / 0x1_0000) * 0x1_0000 + value as u32) as u32,
                    );
                    assert(self.ram@ =~= put_half(ram0, half_off(p), value));
                }
            }
        }
    }

    pub fn write8(&mut self, addr: u32, value: u8)
        requires
            old(self).wf(),
        ensures
            final(self).wf(),
            in_ram(phys_spec(addr)) ==> final(self).ram@ == old(self).ram@.update(
                phys_spec(addr) as int % RAM_SIZE as int,
                value,
            ),
            final(self).bios == old(self).bios,
            final(self).cycles == old(self).cycles,
            final(self).vblanks == old(self).vblanks,
    {
        let p = phys(addr);
        if p < 0x80_0000 {
            self.ram.set((p as usize) % RAM_SIZE, value);
        } else if 0x1F80_0000 <= p && p <= 0x1F80_03FF {
            self.scratch.set((p - 0x1F80_0000) as usize, value);
        } else if 0x1F80_1040 <= p && p <= 0x1F80_104F {
            self.joy.write8(p, value);
        } else if 0x1F80_1800 <= p && p <= 0x1F80_1803 {
            self.note_io(p);
            self.cdrom.write8(p, value, &mut self.irq);
        } else if p == 0x1F80_2041 {
        } else {
            let k = p % 4;
            let cur = match self.read32(addr / 4 * 4) {
                Some(w) => w,
                None => 0,
            };
            let b0 = cur % 0x100;
            let b1 = (cur / 0x100) % 0x100;
            let b2 = (cur / 0x1_0000) % 0x100;
            let b3 = cur / 0x100_0000;
            let v = value as u32;
            let w: u32 = if k == 0 {
                v + b1 * 0x100 + b2 * 0x1_0000 + b3 * 0x100_0000
            } else if k == 1 {
                b0 + v * 0x100 + b2 * 0x1_0000 + b3 * 0x100_0000
            } else if k == 2 {
                b0 + b1 * 0x100 + v * 0x1_0000 + b3 * 0x100_0000
            } else {
                b0 + b1 * 0x100 + b2 * 0x1_0000 + v * 0x100_0000
            };
            self.write32(addr / 4 * 4, w);
        }
    }
}

/// The little-endian word at a word-aligned offset of a BIOS-sized buffer.
fn read_word_at(v: &Vec<u8>, off: usize) -> (w: u32)
    requires
        off % 4 == 0,
        off < v.len(),
        v.len() % 4 == 0,
    ensures
        w == word_at(v@, off as int),
{
    v[off] as u32 + v[off + 1] as u32 * 0x100 + v[off + 2] as u32 * 0x1_0000 + v[off + 3] as u32
        * 0x100_0000
}

} // verus!
