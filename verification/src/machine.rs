//! The whole console: CPU and bus, stepped one instruction at a time, and what the
//! debugger inspects.
use vstd::prelude::*;

use crate::bios::{check_bios, BiosError};
use crate::bus::Bus;
use crate::cdrom::{CdCmdEvent, CdromView};
use crate::cop0::EXC_INT;
use crate::cpu::{
    at_next, cause_sampled, control_effect, fetch_cost_spec, fetch_spec, instr_effect, load_cost_spec, load_stalls, sat_add, takes_interrupt, Cpu,
};
use crate::disc::Disc;
use crate::display::DisplayArea;

verus! {

pub struct Machine {
    pub cpu: Cpu,
    pub bus: Bus,
    pub vblank_count: u64,
}

/// FNV-1a over the pixels, then the width and the height.
pub open spec fn fnv_step(h: u64, v: u64) -> u64 {
    (((h ^ v) as int * 0x100000001b3) % 0x1_0000_0000_0000_0000) as u64
}

pub open spec fn fnv_pixels(px: Seq<u16>) -> u64
    decreases px.len(),
{
    if px.len() == 0 {
        0xcbf29ce484222325
    } else {
        fnv_step(fnv_pixels(px.drop_last()), px.last() as u64)
    }
}

pub open spec fn hash_spec(area: DisplayArea) -> u64 {
    fnv_step(fnv_step(fnv_pixels(area.pixels@), area.width as u64), area.height as u64)
}

/// The FNV-1a hash of a display area.
pub fn hash_pixels(area: &DisplayArea) -> (h: u64)
    ensures
        h == hash_spec(*area),
{
    let mut h: u64 = 0xcbf29ce484222325;
    let mut i: usize = 0;
    while i < area.pixels.len()
        invariant
            i <= area.pixels.len(),
            h == fnv_pixels(area.pixels@.subrange(0, i as int)),
        decreases area.pixels.len() - i,
    {
        proof {
            let s = area.pixels@.subrange(0, i as int + 1);
            assert(s.drop_last() =~= area.pixels@.subrange(0, i as int));
        }
        h = (h ^ (area.pixels[i] as u64)).wrapping_mul(0x100000001b3);
        i += 1;
    }
    proof {
        assert(area.pixels@.subrange(0, area.pixels@.len() as int) =~= area.pixels@);
    }
    h = (h ^ (area.width as u64)).wrapping_mul(0x100000001b3);
    h = (h ^ (area.height as u64)).wrapping_mul(0x100000001b3);
    h
}

impl Machine {
    pub open spec fn wf(&self) -> bool {
        &&& self.cpu.wf()
        &&& self.bus.wf()
    }

    /// The state a reset leaves: the CPU at its reset state, the clock and vblank count
    /// at 0, I_STAT and I_MASK clear, RAM and the scratchpad zeroed, and every device
    /// idle: no DMA job, the GPU at its initial state, the CD-ROM drive stopped.
    pub open spec fn at_power_on(&self) -> bool {
        &&& self.cpu.at_reset()
        &&& self.bus.cycles == 0
        &&& self.bus.vblanks == 0
        &&& self.vblank_count == 0
        &&& self.bus.irq.stat == 0
        &&& self.bus.irq.mask == 0
        &&& forall|i: int| 0 <= i < crate::dma::RAM_SIZE ==> self.bus.ram@[i] == 0
        &&& forall|i: int| 0 <= i < 1024 ==> self.bus.scratch@[i] == 0
        &&& self.bus.dma.initial()
        &&& self.bus.gpu.is_initial()
        &&& self.bus.cdrom.idle()
        &&& self.bus.spu.samples@.len() == 0
    }

    /// The next step is sure to advance the clock: no exception can come first.
    pub open spec fn settled(&self) -> bool {
        self.cpu.pc % 4 == 0 && self.cpu.cop0.sr & 1 == 0
    }

    /// A machine on the given BIOS image, reset; the image must be 512 KiB.
    pub fn from_bios(bios: Vec<u8>) -> (r: Result<Machine, BiosError>)
        ensures
            bios.len() == crate::bios::BIOS_LEN ==> (r matches Ok(m) && m.wf() && m.bus.bios@
                == bios@ && m.cpu.pc == 0xBFC0_0000 && m.bus.cycles == 0 && m.vblank_count == 0
                && m.at_power_on() && m.bus.memctrl@ == crate::bus::memctrl_reset() && m.bus.cdrom.disc is None
                && m.bus.joy.slot1 is None),
            bios.len() != crate::bios::BIOS_LEN ==> (r matches Err(BiosError::WrongSize { got })
                && got == bios.len()),
    {
        let bios = match check_bios(bios) {
            Ok(b) => b,
            Err(e) => {
                return Err(e);
            },
        };
        let mut machine = Machine { cpu: Cpu::new(), bus: Bus::new(bios), vblank_count: 0 };
        machine.reset();
        Ok(machine)
    }

    pub fn insert_disc(&mut self, disc: Disc)
        requires
            old(self).wf(),
        ensures
            final(self).wf(),
            final(self).bus.cdrom.disc == Some(disc),
            final(self).cpu == old(self).cpu,
    {
        self.bus.insert_disc(disc);
    }

    /// Power-on reset of the CPU and every device; the BIOS and the disc stay.
    pub fn reset(&mut self)
        requires
            old(self).wf(),
        ensures
            final(self).wf(),
            final(self).cpu.pc == 0xBFC0_0000,
            final(self).bus.cycles == 0,
            final(self).vblank_count == 0,
            final(self).bus.bios == old(self).bios_of(),
            final(self).bus.cdrom.disc == old(self).bus.cdrom.disc,
            final(self).at_power_on(),
            final(self).bus.memctrl == old(self).bus.memctrl,
            final(self).bus.joy.slot1 == old(self).bus.joy.slot1,
    {
        self.cpu.reset();
        self.bus.reset();
        self.vblank_count = 0;
    }

    pub open spec fn bios_of(&self) -> Vec<u8> {
        self.bus.bios
    }

    /// One instruction; the vblank counter follows the bus.
    pub fn step(&mut self)
        requires
            old(self).wf(),
        ensures
            final(self).wf(),
            final(self).bus.bios == old(self).bus.bios,
            (final(self).bus.cycles == old(self).bus.cycles && final(self).bus.vblanks == old(
                self).bus.vblanks && final(self).settled()) || final(self).bus.cycles >= sat_add(
                old(self).bus.cycles,
                1,
            ),
            old(self).settled() ==> final(self).bus.cycles >= sat_add(old(self).bus.cycles, 1),
            old(self).settled() ==> (fetch_spec(at_next(old(self).cpu, old(self).bus), old(self).bus)
                matches Some(instr) ==> (!load_stalls(
                at_next(old(self).cpu, old(self).bus),
                old(self).bus,
                instr,
            ) ==> final(self).bus.cycles == sat_add(
                old(self).bus.cycles,
                fetch_cost_spec(at_next(old(self).cpu, old(self).bus), old(self).bus)
                    + load_cost_spec(at_next(old(self).cpu, old(self).bus), old(self).bus, instr),
            ))),
            takes_interrupt(old(self).cpu, old(self).bus) ==> final(self).cpu.last_exception == Some(
                (EXC_INT, old(self).cpu.pc, cause_sampled(old(self).cpu, old(self).bus)),
            ) && final(self).cpu.gpr == old(self).cpu.gpr,
            takes_interrupt(old(self).cpu, old(self).bus) ==> final(self).cpu.pc
                == crate::cop0::exception_vector(old(self).cpu.cop0.sr) && final(self).cpu.cop0.epc
                == old(self).cpu.pc,
            takes_interrupt(old(self).cpu, old(self).bus) && old(self).cpu.pc % 4 == 0 ==> (fetch_spec(
                at_next(old(self).cpu, old(self).bus),
                old(self).bus,
            ) matches Some(instr) ==> (crate::cpu::is_cop2_command(instr) ==> final(self).cpu.gte.regs()
                == crate::gte::command_spec(old(self).cpu.gte.regs(), instr))),
            (!takes_interrupt(old(self).cpu, old(self).bus) && old(self).cpu.pc % 4 == 0 && old(
                self).cpu.pending_load is None) ==> (fetch_spec(
                at_next(old(self).cpu, old(self).bus),
                old(self).bus,
            ) matches Some(instr) ==> (!load_stalls(
                at_next(old(self).cpu, old(self).bus),
                old(self).bus,
                instr,
            ) ==> instr_effect(
                at_next(old(self).cpu, old(self).bus),
                final(self).cpu,
                old(self).bus,
                instr,
            )) && control_effect(
                at_next(old(self).cpu, old(self).bus),
                final(self).cpu,
                instr,
                old(self).cpu.next_pc,
                old(self).cpu.next_pc.wrapping_add(4),
            )),
    {
        let prev = self.bus.vblank_count();
        self.cpu.step(&mut self.bus);
        let now = self.bus.vblank_count();
        if now > prev {
            self.vblank_count = now;
        }
    }

    /// Run until `n` vertical blanks have happened since reset (or the clock is at its end).
    pub fn run_until_vblank_count(&mut self, n: u64)
        requires
            old(self).wf(),
        ensures
            final(self).wf(),
            final(self).bus.vblanks >= n || final(self).bus.cycles == u64::MAX,
            final(self).vblank_count == final(self).bus.vblanks,
    {
        while self.bus.vblank_count() < n && self.bus.cycles() < u64::MAX
            invariant
                self.wf(),
            decreases u64::MAX - self.bus.cycles, if self.settled() {
                0int
            } else {
                1int
            },
        {
            self.step();
        }
        self.vblank_count = self.bus.vblank_count();
    }

    /// Run until the master crystal is at least `target` cycles; already there is a no-op.
    pub fn run_until_cycle(&mut self, target: u64)
        requires
            old(self).wf(),
        ensures
            final(self).wf(),
            final(self).bus.cycles >= target,
            old(self).bus.cycles >= target ==> final(self).bus.cycles == old(self).bus.cycles
                && final(self).cpu == old(self).cpu,
            final(self).vblank_count == final(self).bus.vblanks,
    {
        while self.bus.cycles() < target
            invariant
                self.wf(),
                old(self).bus.cycles >= target ==> self.bus.cycles == old(self).bus.cycles
                    && self.cpu == old(self).cpu,
            decreases u64::MAX - self.bus.cycles, if self.settled() {
                0int
            } else {
                1int
            },
        {
            self.step();
        }
        self.vblank_count = self.bus.vblank_count();
    }

    /// Interleaved stereo samples at 44100 Hz since the last take.
    pub fn take_audio(&mut self) -> (s: Vec<i16>)
        requires
            old(self).wf(),
        ensures
            final(self).wf(),
            s@ == old(self).bus.spu.samples@,
            final(self).bus.spu.samples@.len() == 0,
            final(self).cpu == old(self).cpu,
            final(self).bus.cycles == old(self).bus.cycles,
    {
        self.bus.take_audio()
    }

    pub fn cycles(&self) -> (c: u64)
        ensures
            c == self.bus.cycles,
    {
        self.bus.cycles()
    }

    pub fn pc(&self) -> (v: u32)
        ensures
            v == self.cpu.pc,
    {
        self.cpu.pc()
    }

    pub fn gpr(&self, index: u8) -> (v: u32)
        ensures
            v == self.cpu.gpr[index as int % 32],
    {
        self.cpu.gpr(index)
    }

    pub fn gpustat(&self) -> (v: u32)
        requires
            self.wf(),
        ensures
            v == self.bus.gpu.stat,
    {
        self.bus.gpu().stat()
    }

    pub fn gpu_fifo_len(&self) -> (n: usize)
        ensures
            n == self.bus.gpu.fifo@.len(),
    {
        self.bus.gpu().fifo_len()
    }

    pub fn gpu_draw_remaining(&self) -> (n: u32)
        ensures
            n == self.bus.gpu.draw_busy,
    {
        self.bus.gpu().draw_remaining()
    }

    pub fn gpu_busy(&self) -> (b: bool)
        ensures
            b == (self.bus.gpu.draw_busy > 0 || self.bus.gpu.gp0_cmd is Some
                || self.bus.gpu.transfer is Some),
    {
        self.bus.gpu().busy()
    }

    pub fn dma_job_mask(&self) -> (m: u8)
        ensures
            forall|ch: int|
                0 <= ch < 7 ==> ((m as int / crate::xa::pow2(ch as nat)) % 2 == 1) == (
                #[trigger] self.bus.dma.jobs[ch] is Some),
            m < 128,
    {
        self.bus.dma().job_mask()
    }

    pub fn dma_chcr(&self, ch: usize) -> (v: u32)
        ensures
            v == (if ch < 7 {
                self.bus.dma.chcr[ch as int]
            } else {
                0
            }),
    {
        self.bus.dma().chcr(ch)
    }

    /// MADR of channel `ch`, or 0 past the seventh.
    pub fn dma_madr(&self, ch: usize) -> (v: u32)
        ensures
            v == (if ch < 7 {
                self.bus.dma.madr[ch as int]
            } else {
                0
            }),
    {
        if ch < 7 {
            self.bus.dma.madr[ch]
        } else {
            0
        }
    }

    pub fn write_queue_len(&self) -> (n: usize)
        ensures
            n == 0,
    {
        self.bus.write_queue_len()
    }

    pub fn ram_blocked(&self) -> (b: bool)
        ensures
            b == self.bus.dma.ready_spec(
                self.bus.dma.gpu_blocked_spec(
                    self.bus.gpu.fifo@.len() >= crate::gpu::FIFO_WORDS,
                ),
            ) is Some,
            (forall|ch: int| 0 <= ch < 7 ==> #[trigger] self.bus.dma.jobs[ch] is None) ==> !b,
    {
        proof {
            if forall|ch: int| 0 <= ch < 7 ==> #[trigger] self.bus.dma.jobs[ch] is None {
                self.bus.dma.lemma_idle_not_ready(
                    self.bus.dma.gpu_blocked_spec(self.bus.gpu.fifo@.len() >= crate::gpu::FIFO_WORDS),
                    7,
                );
            }
        }
        self.bus.ram_blocked()
    }

    pub fn cd_view(&self) -> (v: CdromView)
        ensures
            v.reading == self.bus.cdrom.reading,
            v.motor == self.bus.cdrom.motor,
            v.lba == self.bus.cdrom.lba,
            v.mode == self.bus.cdrom.mode,
            v.status == self.bus.cdrom.status,
            v.pending_cycles == (match self.bus.cdrom.pending {
                Some(p) => Some(p.cycles),
                None => None::<u32>,
            }),
            v.fifo_bytes == (if self.bus.cdrom.fifo.len() >= self.bus.cdrom.fifo_i {
                (self.bus.cdrom.fifo.len() - self.bus.cdrom.fifo_i) as u32
            } else {
                0
            }),
    {
        self.bus.cdrom().view()
    }

    pub fn cd_cmd_events(&self) -> (v: Vec<CdCmdEvent>)
        ensures
            v@ == self.bus.cdrom.cmd_events@,
    {
        vstd::slice::slice_to_vec(self.bus.cdrom().cmd_events())
    }

    /// The displayed picture: the frame the CRT latched, or black while the display is
    /// off or its size changed since.
    pub fn display_area(&self) -> (d: DisplayArea)
        requires
            self.wf(),
        ensures
            d.width == crate::gpu::vis_w_spec(self.bus.gpu.disp),
            d.height == crate::gpu::vis_h_spec(self.bus.gpu.disp),
            d.bpp24 == self.bus.gpu.disp.disp_24,
            d.pixels.len() == d.width * d.height,
            if self.bus.gpu.disp.enabled && self.bus.gpu.crt_w == d.width && self.bus.gpu.crt_h
                == d.height {
                d.pixels@ == self.bus.gpu.crt@
            } else {
                forall|i: int| 0 <= i < d.pixels.len() ==> #[trigger] d.pixels@[i] == 0
            },
    {
        self.bus.gpu().display_area()
    }

    pub fn vram_rect(&self, x: u32, y: u32, w: u32, h: u32) -> (d: DisplayArea)
        requires
            self.wf(),
            x + w <= u32::MAX,
            y + h <= u32::MAX,
            w * h <= usize::MAX,
        ensures
            d.width == w,
            d.height == h,
            d.bpp24 == self.bus.gpu.disp.disp_24,
            d.pixels.len() == w * h,
            forall|r: int, c: int|
                0 <= r < h && 0 <= c < w ==> #[trigger] d.pixels@[r * w + c]
                    == self.bus.gpu.read_half_spec(x + c, y + r),
    {
        self.bus.gpu().vram_rect(x, y, w, h)
    }

    /// FNV-1a of the display area.
    pub fn display_area_hash(&self) -> (h: u64)
        requires
            self.wf(),
        ensures
            exists|d: DisplayArea| d.width == crate::gpu::vis_w_spec(self.bus.gpu.disp) && d.height
                == crate::gpu::vis_h_spec(self.bus.gpu.disp) && h == hash_spec(d) && (if self.bus.gpu.disp.enabled
                && self.bus.gpu.crt_w == d.width && self.bus.gpu.crt_h == d.height {
                d.pixels@ == self.bus.gpu.crt@
            } else {
                d.pixels@.len() == d.width * d.height && forall|i: int|
                    0 <= i < d.pixels.len() ==> #[trigger] d.pixels@[i] == 0
            }),
    {
        let d = self.display_area();
        let h = hash_pixels(&d);
        assert(d.width == crate::gpu::vis_w_spec(self.bus.gpu.disp) && d.height == crate::gpu::vis_h_spec(
            self.bus.gpu.disp,
        ) && h == hash_spec(d));
        h
    }

    pub fn vblank_count(&self) -> (n: u64)
        ensures
            n == self.bus.vblanks,
    {
        self.bus.vblank_count()
    }

    pub fn vram_lit(&self) -> (n: usize)
        requires
            self.wf(),
        ensures
            n == crate::gpu::lit_count(self.bus.gpu.vram@, self.bus.gpu.vram@.len() as int),
    {
        self.bus.gpu().lit_texels()
    }

    /// The bounding box of VRAM halfwords with any colour bit set (None if there are
    /// none).
    pub fn lit_bbox(&self) -> (r: Option<(u32, u32, u32, u32)>)
        requires
            self.wf(),
        ensures
            r is None <==> forall|i: int|
                0 <= i < crate::gpu::VRAM_W * crate::gpu::VRAM_H ==> #[trigger] self.bus.gpu.vram@[i] % 0x8000
                    == 0,
            r matches Some((x0, y0, x1, y1)) ==> forall|i: int|
                0 <= i < crate::gpu::VRAM_W * crate::gpu::VRAM_H && #[trigger] self.bus.gpu.vram@[i] % 0x8000
                    != 0 ==> x0 <= i % 1024 <= x1 && y0 <= i / 1024 <= y1,
    {
        self.bus.gpu().lit_bbox()
    }

    pub fn gp0_count(&self) -> (n: u64)
        ensures
            n == self.bus.gpu.gp0_count,
    {
        self.bus.gpu.gp0_count
    }

    pub fn gp1_count(&self) -> (n: u64)
        ensures
            n == self.bus.gpu.gp1_count,
    {
        self.bus.gpu.gp1_count
    }

    pub fn gp0_cmds(&self) -> (s: &[u8])
        ensures
            s@ == self.bus.gpu.gp0_cmds@,
    {
        self.bus.gpu.gp0_cmds.as_slice()
    }

    pub fn gp0_words(&self) -> (s: &[u32])
        ensures
            s@ == self.bus.gpu.gp0_words@,
    {
        self.bus.gpu.gp0_words.as_slice()
    }

    pub fn gp1_cmds(&self) -> (s: &[u32])
        ensures
            s@ == self.bus.gpu.gp1_cmds@,
    {
        self.bus.gpu.gp1_cmds.as_slice()
    }

    pub fn display_origin(&self) -> (r: (u32, u32, u32, u32, bool))
        ensures
            r == (
                self.bus.gpu.disp.x,
                self.bus.gpu.disp.y,
                self.bus.gpu.disp.hres,
                self.bus.gpu.disp.vres,
                self.bus.gpu.disp.enabled,
            ),
    {
        self.bus.gpu().display_origin()
    }

    /// The drawing offset and the drawing area's corners.
    pub fn draw_env(&self) -> (r: (i32, i32, i32, i32, i32, i32))
        ensures
            r == (
                self.bus.gpu.env.off_x,
                self.bus.gpu.env.off_y,
                self.bus.gpu.env.draw_x1,
                self.bus.gpu.env.draw_y1,
                self.bus.gpu.env.draw_x2,
                self.bus.gpu.env.draw_y2,
            ),
    {
        self.bus.gpu().draw_env()
    }

    pub fn gte_control(&self, reg: u8) -> (v: u32)
        requires
            reg < 32,
        ensures
            v == crate::gte::control_value(reg, self.cpu.gte.ctrl@[reg as int]),
    {
        self.cpu.gte_control(reg)
    }

    pub fn gte_op_counts(&self) -> (c: [u32; 64])
        ensures
            c == self.cpu.gte.op_counts,
    {
        self.cpu.gte_op_counts()
    }

    /// DMA2 linked-list statistics of the longest list seen.
    pub fn dma_list_stats(&self) -> (r: (u32, u32, u32, u32, u32, u32, u32))
        ensures
            r == (
                self.bus.dma.last_list_empty,
                self.bus.dma.last_list_pkts,
                self.bus.dma.last_list_min,
                self.bus.dma.last_list_max,
                self.bus.dma.last_list_start,
                self.bus.dma.last_list_start_n,
                self.bus.dma.last_empty_before,
            ),
    {
        let d = self.bus.dma();
        (
            d.last_list_empty,
            d.last_list_pkts,
            d.last_list_min,
            d.last_list_max,
            d.last_list_start,
            d.last_list_start_n,
            d.last_empty_before,
        )
    }

    pub fn io_writes(&self) -> (n: u64)
        ensures
            n == self.bus.io_writes,
    {
        self.bus.io_writes
    }

    pub fn last_io(&self) -> (a: u32)
        ensures
            a == self.bus.last_io,
    {
        self.bus.last_io
    }

    pub fn io_cd(&self) -> (n: u64)
        ensures
            n == self.bus.io_cd,
    {
        self.bus.io_cd
    }

    pub fn io_spu(&self) -> (n: u64)
        ensures
            n == self.bus.io_spu,
    {
        self.bus.io_spu
    }

    pub fn io_irq(&self) -> (n: u64)
        ensures
            n == self.bus.io_irq,
    {
        self.bus.io_irq
    }

    pub fn io_gpu(&self) -> (n: u64)
        ensures
            n == self.bus.io_gpu,
    {
        self.bus.io_gpu
    }

    pub fn bios_delay(&self) -> (v: u32)
        ensures
            v == self.bus.memctrl[4],
    {
        self.bus.memctrl_bios_delay()
    }

    pub fn ram_word(&self, addr: u32) -> (w: u32)
        requires
            self.wf(),
        ensures
            crate::bus::in_bios(addr % 0x2000_0000) ==> w == self.bus.bios_peek_spec(
                addr % 0x2000_0000,
            ),
            !crate::bus::in_bios(addr % 0x2000_0000) ==> w == self.bus.ram_word_spec(
                addr % 0x2000_0000,
            ),
    {
        self.bus.ram_word(addr)
    }

    pub fn last_exception(&self) -> (e: Option<(u8, u32, u32)>)
        ensures
            e == self.cpu.last_exception,
    {
        self.cpu.last_exception()
    }

    pub fn sr(&self) -> (v: u32)
        ensures
            v == self.cpu.cop0.sr,
    {
        self.cpu.sr()
    }

    pub fn badvaddr(&self) -> (v: u32)
        ensures
            v == self.cpu.cop0.badvaddr,
    {
        self.cpu.badvaddr()
    }

    /// The first exceptions other than interrupts and syscalls: code, EPC, RA.
    pub fn exception_log(&self) -> (s: &[(u8, u32, u32)])
        ensures
            s@ == self.cpu.exception_log@,
    {
        self.cpu.exception_log.as_slice()
    }

    pub fn irq_stat(&self) -> (v: u16)
        ensures
            v == self.bus.irq.stat,
    {
        assert(0x1F80_1070u32 & 0xF == 0) by (bit_vector);
        self.bus.irq().read16(0x1F80_1070)
    }

    pub fn irq_mask(&self) -> (v: u16)
        ensures
            v == self.bus.irq.mask,
    {
        assert(0x1F80_1074u32 & 0xF == 4) by (bit_vector);
        self.bus.irq().read16(0x1F80_1074)
    }

    pub fn timer_value(&self, i: usize) -> (v: u16)
        requires
            i < 3,
        ensures
            v == self.bus.timers.value[i as int],
    {
        self.bus.timers().value(i)
    }

    pub fn timer_mode(&self, i: usize) -> (v: u16)
        requires
            i < 3,
        ensures
            v == self.bus.timers.mode[i as int],
    {
        self.bus.timers().mode(i)
    }

    pub fn timer_target(&self, i: usize) -> (v: u16)
        requires
            i < 3,
        ensures
            v == self.bus.timers.target[i as int],
    {
        self.bus.timers().target(i)
    }

    /// Plug a digital pad into slot 1 with these switches, or unplug it.
    pub fn set_slot1_pad(&mut self, switches: Option<u16>)
        requires
            old(self).wf(),
        ensures
            final(self).wf(),
            final(self).bus.joy.slot1 == switches,
            final(self).cpu == old(self).cpu,
    {
        self.bus.joy.set_slot1(switches);
    }
}

/// Plug the host pad's switches into slot 1 (or unplug).
pub fn inject(machine: &mut Machine, switches: Option<u16>)
    requires
        old(machine).wf(),
    ensures
        final(machine).wf(),
        final(machine).bus.joy.slot1 == switches,
{
    machine.set_slot1_pad(switches);
}

} // verus!
