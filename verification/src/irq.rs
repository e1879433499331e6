//! Interrupt controller: I_STAT / I_MASK at 1F801070h / 1F801074h.
use vstd::prelude::*;

verus! {

pub const IRQ_VBLANK: u8 = 0;

pub const IRQ_GPU: u8 = 1;

pub const IRQ_CDROM: u8 = 2;

pub const IRQ_DMA: u8 = 3;

pub const IRQ_TMR0: u8 = 4;

pub const IRQ_TMR1: u8 = 5;

pub const IRQ_TMR2: u8 = 6;

pub const IRQ_PAD: u8 = 7;

pub const IRQ_SIO: u8 = 8;

pub const IRQ_SPU: u8 = 9;

/// The single bit of interrupt line `bit`.
pub open spec fn bit16(bit: u8) -> u16
    recommends
        bit < 16,
{
    (1u16 << bit) as u16
}

/// I_STAT, I_MASK and the remembered level of each edge-triggered source.
pub struct Irq {
    pub stat: u16,
    pub mask: u16,
    /// Source levels for edge-triggered bits (CD HINTSTS, etc.).
    pub level: u16,
}

/// `stat` after the source on `bit` is driven to `high` while it was at `level`:
/// a bit of I_STAT is set only on the source's false-to-true transition.
pub open spec fn stat_after_level(stat: u16, level: u16, bit: u8, high: bool) -> u16 {
    if high && level & bit16(bit) == 0 {
        stat | bit16(bit)
    } else {
        stat
    }
}

/// The remembered level after the source on `bit` is driven to `high`.
pub open spec fn level_after(level: u16, bit: u8, high: bool) -> u16 {
    if high {
        level | bit16(bit)
    } else {
        level & !bit16(bit)
    }
}

/// What a 16-bit read of the controller at `addr` returns.
pub open spec fn irq_read16_spec(stat: u16, mask: u16, addr: u32) -> u16 {
    if addr & 0xF == 0 {
        stat
    } else if addr & 0xF == 4 {
        mask
    } else {
        0
    }
}

impl Irq {
    pub fn new() -> (r: Self)
        ensures
            r.stat == 0,
            r.mask == 0,
            r.level == 0,
    {
        Irq { stat: 0, mask: 0, level: 0 }
    }

    pub fn reset(&mut self)
        ensures
            final(self).stat == 0,
            final(self).mask == 0,
            final(self).level == 0,
    {
        self.stat = 0;
        self.mask = 0;
        self.level = 0;
    }

    /// Latch interrupt `bit` in I_STAT.
    pub fn raise(&mut self, bit: u8)
        requires
            bit < 16,
        ensures
            final(self).stat == old(self).stat | bit16(bit),
            final(self).mask == old(self).mask,
            final(self).level == old(self).level,
    {
        self.stat = self.stat | (1u16 << bit);
    }

    /// Drive an edge-triggered source: I_STAT latches only the false-to-true edge.
    pub fn set_level(&mut self, bit: u8, high: bool)
        requires
            bit < 16,
        ensures
            final(self).stat == stat_after_level(old(self).stat, old(self).level, bit, high),
            final(self).level == level_after(old(self).level, bit, high),
            final(self).mask == old(self).mask,
    {
        let m: u16 = 1u16 << bit;
        let was = self.level & m != 0;
        if high {
            self.level = self.level | m;
            if !was {
                self.stat = self.stat | m;
            }
        } else {
            self.level = self.level & !m;
        }
    }

    /// Whether an unmasked interrupt is latched (COP0 CAUSE.10).
    pub fn pending_for_cop0(&self) -> (r: bool)
        ensures
            r == (self.stat & self.mask != 0),
    {
        (self.stat & self.mask) != 0
    }

    pub fn read16(&self, addr: u32) -> (r: u16)
        ensures
            r == irq_read16_spec(self.stat, self.mask, addr),
    {
        let a = addr & 0xF;
        if a == 0 {
            self.stat
        } else if a == 4 {
            self.mask
        } else {
            0
        }
    }

    /// A write of 0 to an I_STAT bit acknowledges it; 1 leaves it. I_MASK keeps bits 0..10.
    pub fn write16(&mut self, addr: u32, value: u16)
        ensures
            final(self).stat == (if addr & 0xF == 0 {
                old(self).stat & value
            } else {
                old(self).stat
            }),
            final(self).mask == (if addr & 0xF == 4 {
                value & 0x7FF
            } else {
                old(self).mask
            }),
            final(self).level == old(self).level,
    {
        let a = addr & 0xF;
        if a == 0 {
            self.stat = self.stat & value;
        } else if a == 4 {
            self.mask = value & 0x7FF;
        }
    }
}

/// Raising a line and then acknowledging exactly that line leaves the other latched lines.
pub proof fn lemma_ack_clears_only_that_line(stat: u16, bit: u8, other: u8)
    requires
        bit < 16,
        other < 16,
        other != bit,
    ensures
        ((stat | bit16(bit)) & !bit16(bit)) & bit16(bit) == 0,
        ((stat | bit16(bit)) & !bit16(bit)) & bit16(other) == stat & bit16(other),
        (stat | bit16(bit)) & 0xFFFF == stat | bit16(bit),
{
    assert(((stat | ((1u16 << bit) as u16)) & !((1u16 << bit) as u16)) & ((1u16 << bit) as u16)
        == 0) by (bit_vector)
        requires
            bit < 16,
    ;
    assert(((stat | ((1u16 << bit) as u16)) & !((1u16 << bit) as u16)) & ((1u16 << other) as u16)
        == stat & ((1u16 << other) as u16)) by (bit_vector)
        requires
            bit < 16,
            other < 16,
            other != bit,
    ;
    assert((stat | ((1u16 << bit) as u16)) & 0xFFFF == stat | ((1u16 << bit) as u16))
        by (bit_vector);
}

/// A level that stays high does not latch I_STAT again: only the edge is seen.
pub proof fn lemma_level_edge_once(stat: u16, level: u16, bit: u8)
    requires
        bit < 16,
    ensures
        stat_after_level(
            stat_after_level(stat, level, bit, true) & !bit16(bit),
            level_after(level, bit, true),
            bit,
            true,
        ) == stat_after_level(stat, level, bit, true) & !bit16(bit),
{
    assert((level | ((1u16 << bit) as u16)) & ((1u16 << bit) as u16) != 0) by (bit_vector)
        requires
            bit < 16,
    ;
}

} // verus!
