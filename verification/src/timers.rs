//! Root counters 0..2 at 1F801100h: 16-bit counters with target compare and overflow.
use vstd::prelude::*;
use crate::irq::{Irq, level_after, stat_after_level, IRQ_TMR0};

verus! {

pub struct Timers {
    pub value: [u16; 3],
    pub mode: [u16; 3],
    pub target: [u16; 3],
    pub sysclk8_frac: u32,
}

/// The state one counter and the interrupt controller evolve together:
/// (counter, mode, I_STAT, source levels).
pub type CounterState = (u16, u16, u16, u16);

/// One IRQ pulse on `bit`: the line goes high (I_STAT latches on the edge) and low again.
pub open spec fn pulse(stat: u16, level: u16, bit: u8) -> (u16, u16) {
    (stat_after_level(stat, level, bit, true), level_after(level_after(level, bit, true), bit, false))
}

/// The events at a counter value just reached: overflow to 0, then the target compare.
pub open spec fn events_at(v: u16, m: u16, t: u16, stat: u16, level: u16, bit: u8) -> CounterState {
    let (m1, s1, l1) = if v == 0 {
        let m1 = m | 0x1000u16;
        if m1 & 0x20 != 0 {
            let (s, l) = pulse(stat, level, bit);
            (m1, s, l)
        } else {
            (m1, stat, level)
        }
    } else {
        (m, stat, level)
    };
    if v == t {
        let m2 = m1 | 0x800u16;
        let (s2, l2) = if m2 & 0x10 != 0 {
            pulse(s1, l1, bit)
        } else {
            (s1, l1)
        };
        let v2 = if m2 & 8 != 0 {
            0u16
        } else {
            v
        };
        (v2, m2, s2, l2)
    } else {
        (v, m1, s1, l1)
    }
}

/// One clock of a counter with target `t`.
pub open spec fn count_once(s: CounterState, t: u16, bit: u8) -> CounterState {
    let v1 = ((s.0 as int + 1) % 0x10000) as u16;
    events_at(v1, s.1, t, s.2, s.3, bit)
}

/// `n` clocks of a counter, one at a time: no compare or overflow is ever skipped.
pub open spec fn count_n(s: CounterState, t: u16, bit: u8, n: nat) -> CounterState
    decreases n,
{
    if n == 0 {
        s
    } else {
        count_n(count_once(s, t, bit), t, bit, (n - 1) as nat)
    }
}

/// Clocks counter `i` receives from `cycles` system clocks, and the sysclk/8 remainder after.
pub open spec fn clocks_for(i: int, mode: u16, cycles: u32, frac: u32) -> (nat, u32) {
    let src = (mode >> 8) & 3;
    if i == 2 && (src == 2 || src == 3) {
        (((frac + cycles) / 8) as nat, ((frac + cycles) % 8) as u32)
    } else if i == 2 {
        (cycles as nat, frac)
    } else if src == 0 || src == 2 {
        (cycles as nat, frac)
    } else {
        (0, frac)
    }
}

pub open spec fn counter_state(t: Timers, irq: Irq, i: int) -> CounterState {
    (t.value[i], t.mode[i], irq.stat, irq.level)
}

/// What a 16-bit read at `addr` returns (before the mode read clears bits 11 and 12).
pub open spec fn timer_read_spec(t: Timers, addr: u32) -> u16
    recommends
        0x1F80_1100 <= addr < 0x1F80_1130,
{
    let i = ((addr - 0x1F80_1100) / 0x10) as int;
    if addr & 0xF == 0 {
        t.value[i]
    } else if addr & 0xF == 4 {
        t.mode[i]
    } else if addr & 0xF == 8 {
        t.target[i]
    } else {
        0
    }
}

/// Chunked counting: `n` clocks with no overflow or target in between are one jump.
proof fn lemma_count_chunk(s: CounterState, t: u16, bit: u8, n: nat)
    requires
        n >= 1,
        s.0 + n <= 0x10000,
        s.0 < t ==> s.0 + n <= t,
        bit < 16,
    ensures
        count_n(s, t, bit, n) == events_at(
            ((s.0 + n) % 0x10000) as u16,
            s.1,
            t,
            s.2,
            s.3,
            bit,
        ),
    decreases n,
{
    if n == 1 {
        assert(count_n(count_once(s, t, bit), t, bit, 0) == count_once(s, t, bit));
    } else {
        let v1 = ((s.0 as int + 1) % 0x10000) as u16;
        assert(v1 == s.0 + 1);
        assert(v1 != 0);
        assert(v1 != t);
        let s1 = count_once(s, t, bit);
        assert(s1 == (v1, s.1, s.2, s.3));
        lemma_count_chunk(s1, t, bit, (n - 1) as nat);
    }
}

/// Counting `a` then `b` clocks is counting `a + b` clocks.
proof fn lemma_count_add(s: CounterState, t: u16, bit: u8, a: nat, b: nat)
    ensures
        count_n(count_n(s, t, bit, a), t, bit, b) == count_n(s, t, bit, a + b),
    decreases a,
{
    if a > 0 {
        lemma_count_add(count_once(s, t, bit), t, bit, (a - 1) as nat, b);
        assert((a - 1) as nat + b == (a + b - 1) as nat);
    }
}

impl Timers {
    pub fn new() -> (r: Self)
        ensures
            r.value@ == seq![0u16, 0, 0],
            r.mode@ == seq![0u16, 0, 0],
            r.target@ == seq![0u16, 0, 0],
            r.sysclk8_frac == 0,
    {
        Timers { value: [0; 3], mode: [0; 3], target: [0; 3], sysclk8_frac: 0 }
    }

    pub fn reset(&mut self)
        ensures
            final(self).value@ == seq![0u16, 0, 0],
            final(self).mode@ == seq![0u16, 0, 0],
            final(self).target@ == seq![0u16, 0, 0],
            final(self).sysclk8_frac == 0,
    {
        *self = Timers::new();
    }

    pub fn value(&self, i: usize) -> (r: u16)
        requires
            i < 3,
        ensures
            r == self.value[i as int],
    {
        self.value[i]
    }

    pub fn mode(&self, i: usize) -> (r: u16)
        requires
            i < 3,
        ensures
            r == self.mode[i as int],
    {
        self.mode[i]
    }

    pub fn target(&self, i: usize) -> (r: u16)
        requires
            i < 3,
        ensures
            r == self.target[i as int],
    {
        self.target[i]
    }

    /// Advance counter `i` by `step` clocks, in jumps that stop at every overflow and target.
    fn advance(&mut self, i: usize, step: u32, irq: &mut Irq)
        requires
            i < 3,
        ensures
            counter_state(*final(self), *final(irq), i as int) == count_n(
                counter_state(*old(self), *old(irq), i as int),
                old(self).target[i as int],
                (IRQ_TMR0 + i) as u8,
                step as nat,
            ),
            final(self).target == old(self).target,
            final(self).sysclk8_frac == old(self).sysclk8_frac,
            forall|j: int| 0 <= j < 3 && j != i ==> final(self).value[j] == old(self).value[j]
                && final(self).mode[j] == old(self).mode[j],
            final(irq).mask == old(irq).mask,
    {
        let ghost s0 = counter_state(*self, *irq, i as int);
        let ghost t = self.target[i as int];
        let bit: u8 = IRQ_TMR0 + i as u8;
        let mut left = step;
        while left > 0
            invariant
                i < 3,
                bit == IRQ_TMR0 + i,
                left <= step,
                t == self.target[i as int],
                self.target == old(self).target,
                self.sysclk8_frac == old(self).sysclk8_frac,
                forall|j: int| 0 <= j < 3 && j != i ==> self.value[j] == old(self).value[j]
                    && self.mode[j] == old(self).mode[j],
                irq.mask == old(irq).mask,
                counter_state(*self, *irq, i as int) == count_n(s0, t, bit, (step - left) as nat),
            decreases left,
        {
            let ghost before = counter_state(*self, *irq, i as int);
            let v = self.value[i] as u32;
            let tgt = self.target[i] as u32;
            let to_ovf: u32 = 0x1_0000 - v;
            let to_tgt: u32 = if tgt > v {
                tgt - v
            } else {
                0x1_0000 - v + tgt
            };
            let mut n = left;
            if to_ovf < n {
                n = to_ovf;
            }
            if to_tgt < n {
                n = to_tgt;
            }
            let nv: u16 = ((v + n) % 0x1_0000) as u16;
            self.value[i] = nv;
            left = left - n;
            if self.value[i] == 0 {
                self.mode[i] = self.mode[i] | 0x1000;
                if self.mode[i] & 0x20 != 0 {
                    irq.set_level(bit, true);
                    irq.set_level(bit, false);
                }
            }
            if self.value[i] == self.target[i] {
                self.mode[i] = self.mode[i] | 0x800;
                if self.mode[i] & 0x10 != 0 {
                    irq.set_level(bit, true);
                    irq.set_level(bit, false);
                }
                if self.mode[i] & 8 != 0 {
                    self.value[i] = 0;
                }
            }
            proof {
                lemma_count_chunk(before, t, bit, n as nat);
                lemma_count_add(s0, t, bit, (step - (left + n)) as nat, n as nat);
                assert((step - (left + n)) as nat + n as nat == (step - left) as nat);
                assert(counter_state(*self, *irq, i as int) == count_n(before, t, bit, n as nat));
            }
        }
    }

    /// `cycles` system clocks: each counter counts its selected source, one clock at a time.
    pub fn tick(&mut self, cycles: u32, irq: &mut Irq)
        requires
            old(self).sysclk8_frac < 8,
        ensures
            ({
                let (n0, _) = clocks_for(0, old(self).mode[0], cycles, old(self).sysclk8_frac);
                let (n1, _) = clocks_for(1, old(self).mode[1], cycles, old(self).sysclk8_frac);
                let (n2, f2) = clocks_for(2, old(self).mode[2], cycles, old(self).sysclk8_frac);
                let c0 = count_n(
                    counter_state(*old(self), *old(irq), 0),
                    old(self).target[0],
                    IRQ_TMR0,
                    n0,
                );
                let c1 = count_n(
                    (old(self).value[1], old(self).mode[1], c0.2, c0.3),
                    old(self).target[1],
                    (IRQ_TMR0 + 1) as u8,
                    n1,
                );
                let c2 = count_n(
                    (old(self).value[2], old(self).mode[2], c1.2, c1.3),
                    old(self).target[2],
                    (IRQ_TMR0 + 2) as u8,
                    n2,
                );
                &&& final(self).value@ == seq![c0.0, c1.0, c2.0]
                &&& final(self).mode@ == seq![c0.1, c1.1, c2.1]
                &&& final(irq).stat == c2.2
                &&& final(irq).level == c2.3
                &&& final(self).sysclk8_frac == f2
            }),
            final(self).sysclk8_frac < 8,
            final(self).target == old(self).target,
            final(irq).mask == old(irq).mask,
    {
        let ghost t0 = *self;
        let ghost i0 = *irq;
        let src0 = (self.mode[0] >> 8) & 3;
        let step0: u32 = if src0 == 0 || src0 == 2 {
            cycles
        } else {
            0
        };
        if step0 > 0 {
            self.advance(0, step0, irq);
        }
        let ghost t1 = *self;
        let ghost i1 = *irq;
        let src1 = (self.mode[1] >> 8) & 3;
        let step1: u32 = if src1 == 0 || src1 == 2 {
            cycles
        } else {
            0
        };
        if step1 > 0 {
            self.advance(1, step1, irq);
        }
        let src2 = (self.mode[2] >> 8) & 3;
        let step2: u32 = if src2 == 2 || src2 == 3 {
            let total: u64 = self.sysclk8_frac as u64 + cycles as u64;
            self.sysclk8_frac = (total % 8) as u32;
            (total / 8) as u32
        } else {
            cycles
        };
        if step2 > 0 {
            self.advance(2, step2, irq);
        }
        proof {
            assert(self.value@ =~= seq![self.value[0], self.value[1], self.value[2]]);
            assert(self.mode@ =~= seq![self.mode[0], self.mode[1], self.mode[2]]);
        }
    }

    /// One horizontal blanking pulse: counter 1 counts it when its source is hblank.
    pub fn hblank(&mut self, irq: &mut Irq)
        ensures
            ({
                let src = (old(self).mode[1] >> 8) & 3;
                let n: nat = if src == 1 || src == 3 {
                    1
                } else {
                    0
                };
                let c = count_n(
                    counter_state(*old(self), *old(irq), 1),
                    old(self).target[1],
                    (IRQ_TMR0 + 1) as u8,
                    n,
                );
                &&& final(self).value@ == old(self).value@.update(1, c.0)
                &&& final(self).mode@ == old(self).mode@.update(1, c.1)
                &&& final(irq).stat == c.2
                &&& final(irq).level == c.3
            }),
            final(self).target == old(self).target,
            final(self).sysclk8_frac == old(self).sysclk8_frac,
            final(irq).mask == old(irq).mask,
    {
        let src = (self.mode[1] >> 8) & 3;
        if src == 1 || src == 3 {
            self.advance(1, 1, irq);
        }
        proof {
            assert(self.value@ =~= old(self).value@.update(1, self.value[1]));
            assert(self.mode@ =~= old(self).mode@.update(1, self.mode[1]));
        }
    }

    /// Read a counter register; reading the mode clears its reached-target/overflow bits.
    pub fn read16(&mut self, addr: u32) -> (r: u16)
        requires
            0x1F80_1100 <= addr < 0x1F80_1130,
        ensures
            r == timer_read_spec(*old(self), addr),
            final(self).value == old(self).value,
            final(self).target == old(self).target,
            final(self).sysclk8_frac == old(self).sysclk8_frac,
            final(self).mode@ == (if addr & 0xF == 4 {
                old(self).mode@.update(
                    ((addr - 0x1F80_1100) / 0x10) as int,
                    old(self).mode[((addr - 0x1F80_1100) / 0x10) as int] & !0x1800u16,
                )
            } else {
                old(self).mode@
            }),
    {
        let i = ((addr - 0x1F80_1100) / 0x10) as usize;
        let a = addr & 0xF;
        if a == 0 {
            self.value[i]
        } else if a == 4 {
            let m = self.mode[i];
            self.mode[i] = m & !0x1800u16;
            m
        } else if a == 8 {
            self.target[i]
        } else {
            0
        }
    }

    /// Write a counter register; writing the mode sets bit 10 and restarts the counter at 0.
    pub fn write16(&mut self, addr: u32, value: u16)
        requires
            0x1F80_1100 <= addr < 0x1F80_1130,
        ensures
            ({
                let i = ((addr - 0x1F80_1100) / 0x10) as int;
                let a = addr & 0xF;
                &&& final(self).value@ == (if a == 0 {
                    old(self).value@.update(i, value)
                } else if a == 4 {
                    old(self).value@.update(i, 0)
                } else {
                    old(self).value@
                })
                &&& final(self).mode@ == (if a == 4 {
                    old(self).mode@.update(i, value | 0x400u16)
                } else {
                    old(self).mode@
                })
                &&& final(self).target@ == (if a == 8 {
                    old(self).target@.update(i, value)
                } else {
                    old(self).target@
                })
            }),
            final(self).sysclk8_frac == old(self).sysclk8_frac,
    {
        let i = ((addr - 0x1F80_1100) / 0x10) as usize;
        let a = addr & 0xF;
        if a == 0 {
            self.value[i] = value;
        } else if a == 4 {
            self.mode[i] = value | 0x400;
            self.value[i] = 0;
        } else if a == 8 {
            self.target[i] = value;
        }
    }
}

/// The counter reaches its target on the clock that lands on it, however many clocks one
/// tick carries: counting `n` clocks equals counting them one by one.
pub proof fn law_large_tick_does_not_skip_the_target(s: CounterState, t: u16, bit: u8, a: nat, b: nat)
    ensures
        count_n(s, t, bit, a + b) == count_n(count_n(s, t, bit, a), t, bit, b),
{
    lemma_count_add(s, t, bit, a, b);
}

} // verus!
