//! JOY (SIO0) at 1F801040h: controller port with a standard digital pad on slot 1.
use vstd::prelude::*;

use crate::irq::{level_after, stat_after_level, Irq, IRQ_PAD};

verus! {

/// The kernel ignores /ACK in the first 100 clk after last SCK, then times out at
/// 100 µs (~3387 clk). The pulse comes after the ignore window.
pub const ACK_AFTER_SCK: u32 = 150;

/// /ACK stays low for about 100 clock cycles.
pub const ACK_HOLD: u32 = 100;

pub const CTRL_SELECT: u16 = 0x0002;

pub const CTRL_ACK: u16 = 0x0010;

pub const CTRL_RESET: u16 = 0x0040;

pub const CTRL_ACK_IRQ: u16 = 0x1000;

pub const CTRL_SLOT: u16 = 0x2000;

/// The buttons of a standard digital pad, `true` when pressed.
#[derive(Clone, Copy, Debug, Default, PartialEq, Eq)]
pub struct PadButtons {
    pub select: bool,
    pub start: bool,
    pub up: bool,
    pub right: bool,
    pub down: bool,
    pub left: bool,
    pub l2: bool,
    pub r2: bool,
    pub l1: bool,
    pub r1: bool,
    pub triangle: bool,
    pub circle: bool,
    pub cross: bool,
    pub square: bool,
    /// The host's left stick pushed at least halfway up (and so on): the same switch as
    /// the D-pad direction.
    pub stick_up: bool,
    pub stick_down: bool,
    pub stick_left: bool,
    pub stick_right: bool,
}

/// `v` when `b`, else 0.
#[verifier::opaque]
pub open spec fn bit_if(b: bool, v: int) -> int {
    if b {
        v
    } else {
        0
    }
}

/// The pad's active-low switch word: every pressed button clears its bit.
/// L3 (bit 1) and R3 (bit 2) do not exist on a digital pad and stay released.
pub open spec fn switches_spec(b: PadButtons) -> int {
    0xFFFF - (bit_if(b.select, 0x1) + bit_if(b.start, 0x8) + bit_if(b.up || b.stick_up, 0x10)
        + bit_if(b.right || b.stick_right, 0x20) + bit_if(b.down || b.stick_down, 0x40) + bit_if(
        b.left || b.stick_left,
        0x80,
    ) + bit_if(b.l2, 0x100) + bit_if(b.r2, 0x200)
        + bit_if(b.l1, 0x400) + bit_if(b.r1, 0x800) + bit_if(b.triangle, 0x1000) + bit_if(
        b.circle,
        0x2000,
    ) + bit_if(b.cross, 0x4000) + bit_if(b.square, 0x8000))
}

fn press(on: bool, bit: u16) -> (r: u16)
    ensures
        r == bit_if(on, bit as int),
        r <= bit,
{
    reveal(bit_if);
    if on {
        bit
    } else {
        0
    }
}

/// Active-low digital switches of a standard pad for a host DualShock-4: Share is
/// Select, Options is Start, and the left stick doubles the D-pad.
pub fn map_ds4_switches(b: &PadButtons) -> (sw: u16)
    ensures
        sw == switches_spec(*b),
{
    let pressed: u16 = press(b.select, 0x1) + press(b.start, 0x8) + press(b.up || b.stick_up, 0x10)
        + press(b.right || b.stick_right, 0x20) + press(b.down || b.stick_down, 0x40) + press(
        b.left || b.stick_left,
        0x80,
    ) + press(b.l2, 0x100) + press(b.r2, 0x200)
        + press(b.l1, 0x400) + press(b.r1, 0x800) + press(b.triangle, 0x1000) + press(
        b.circle,
        0x2000,
    ) + press(b.cross, 0x4000) + press(b.square, 0x8000);
    0xFFFF - pressed
}

/// Controllers and memory cards. Empty ports clock FFh into RX with no /ACK.
/// Slot 1 may be a standard digital pad (ID 5A41h).
pub struct Joy {
    pub mode: u16,
    pub ctrl: u16,
    pub baud: u16,
    pub rx: std::collections::VecDeque<u8>,
    /// None = disconnected. Some = active-low digital switches.
    pub slot1: Option<u16>,
    /// 0 = address byte; 1..4 = digital Read; after the last, back to 0.
    pub xfer: u8,
    /// Cycles remaining in the current 8-bit shift.
    pub tx_left: u32,
    pub pending_rx: Option<u8>,
    /// /ACK after this byte's last SCK (not after the last digital Read byte).
    pub ack_after: bool,
    pub ack_in: u32,
    pub ack_low: u32,
    pub irq_stat: bool,
    pub last_ctrl: u16,
    pub last_tx: u8,
    pub tx_count: u32,
    pub ack_armed: u32,
}

/// The RX FIFO after a byte lands: at most 8 bytes, the oldest dropped.
pub open spec fn push_rx_spec(rx: Seq<u8>, b: u8) -> Seq<u8> {
    if rx.len() >= 8 {
        rx.drop_first().push(b)
    } else {
        rx.push(b)
    }
}

/// Cycles one byte takes to shift at `mode` and BAUD reload `baud`.
pub open spec fn byte_cycles_spec(mode: u16, baud: u16) -> int {
    let factor: int = if mode % 4 == 2 {
        16
    } else if mode % 4 == 3 {
        64
    } else {
        1
    };
    let bits: int = 5 + (mode / 4) % 4;
    bits * (if baud < 1 { 1 } else { baud as int }) * factor
}

/// Whether slot 1 is selected: /JOYn output on and the slot bit clear.
pub open spec fn slot1_selected_spec(ctrl: u16) -> bool {
    ctrl & CTRL_SELECT != 0 && ctrl & CTRL_SLOT == 0
}

/// The byte the pad answers to `value`, whether it acks it, and the next transfer step.
pub open spec fn reply_spec(slot1: Option<u16>, ctrl: u16, xfer: u8, value: u8) -> (u8, bool, u8) {
    match slot1 {
        Some(sw) if slot1_selected_spec(ctrl) => if xfer == 0 {
            (0xFF, value == 1, if value == 1 { 1u8 } else { 0 })
        } else if xfer == 1 {
            (0x41, true, 2)
        } else if xfer == 2 {
            (0x5A, true, 3)
        } else if xfer == 3 {
            ((sw % 256) as u8, true, 4)
        } else if xfer == 4 {
            ((sw / 256) as u8, false, 0)
        } else {
            (0xFF, false, 0)
        },
        _ => (0xFF, false, 0),
    }
}

/// I_STAT / level of the pad line after driving it to `high`, or unchanged.
pub open spec fn drive(st: (u16, u16), act: bool, high: bool) -> (u16, u16) {
    if act {
        (stat_after_level(st.0, st.1, IRQ_PAD, high), level_after(st.1, IRQ_PAD, high))
    } else {
        st
    }
}

pub open spec fn sat_add(a: u32, b: int) -> u32 {
    if a + b > u32::MAX {
        u32::MAX
    } else {
        (a + b) as u32
    }
}

impl Joy {
    pub open spec fn wf(&self) -> bool {
        self.rx@.len() <= 8
    }

    /// JOY_STAT: TX ready 1 always, TX ready 2 when no byte is shifting, RX not empty,
    /// /ACK low, and the latched interrupt.
    pub open spec fn stat_spec(&self) -> int {
        1 + (if self.tx_left == 0 { 4int } else { 0 }) + (if self.rx@.len() > 0 { 2int } else { 0 })
            + (if self.ack_low > 0 { 0x80int } else { 0 }) + (if self.irq_stat { 0x200int } else { 0 })
    }

    /// The state after the byte being shifted finishes: its reply lands in RX and
    /// the /ACK countdown starts if the byte is acked.
    pub open spec fn finished_rx(&self) -> Seq<u8> {
        match self.pending_rx {
            Some(b) => push_rx_spec(self.rx@, b),
            None => self.rx@,
        }
    }

    pub open spec fn finished_ack_in(&self) -> u32 {
        if self.ack_after {
            ACK_AFTER_SCK
        } else {
            self.ack_in
        }
    }

    pub open spec fn is_new(&self) -> bool {
        &&& self.mode == 0
        &&& self.ctrl == 0
        &&& self.baud == 0x0088
        &&& self.rx@.len() == 0
        &&& self.slot1 is None
        &&& self.xfer == 0
        &&& self.tx_left == 0
        &&& self.pending_rx is None
        &&& !self.ack_after
        &&& self.ack_in == 0
        &&& self.ack_low == 0
        &&& !self.irq_stat
        &&& self.last_ctrl == 0
        &&& self.last_tx == 0
        &&& self.tx_count == 0
        &&& self.ack_armed == 0
    }

    pub fn new() -> (j: Self)
        ensures
            j.wf(),
            j.is_new(),
    {
        Joy {
            mode: 0,
            ctrl: 0,
            baud: 0x0088,
            rx: std::collections::VecDeque::new(),
            slot1: None,
            xfer: 0,
            tx_left: 0,
            pending_rx: None,
            ack_after: false,
            ack_in: 0,
            ack_low: 0,
            irq_stat: false,
            last_ctrl: 0,
            last_tx: 0,
            tx_count: 0,
            ack_armed: 0,
        }
    }

    /// Reset the serial state. The pad, MODE, BAUD and the debug counters stay.
    pub fn reset(&mut self)
        ensures
            final(self).wf(),
            final(self).slot1 == old(self).slot1,
            final(self).mode == old(self).mode,
            final(self).baud == old(self).baud,
            final(self).last_ctrl == old(self).last_ctrl,
            final(self).last_tx == old(self).last_tx,
            final(self).tx_count == old(self).tx_count,
            final(self).ack_armed == old(self).ack_armed,
            final(self).ctrl == 0,
            final(self).rx@.len() == 0,
            final(self).xfer == 0,
            final(self).tx_left == 0,
            final(self).pending_rx is None,
            !final(self).ack_after,
            final(self).ack_in == 0,
            final(self).ack_low == 0,
            !final(self).irq_stat,
    {
        let slot1 = self.slot1;
        let mode = self.mode;
        let baud = self.baud;
        let last_ctrl = self.last_ctrl;
        let last_tx = self.last_tx;
        let tx_count = self.tx_count;
        let ack_armed = self.ack_armed;
        *self = Self::new();
        self.slot1 = slot1;
        self.mode = mode;
        self.baud = baud;
        self.last_ctrl = last_ctrl;
        self.last_tx = last_tx;
        self.tx_count = tx_count;
        self.ack_armed = ack_armed;
    }

    /// Connect a standard digital pad on slot 1, or `None` to unplug.
    pub fn set_slot1(&mut self, switches: Option<u16>)
        requires
            old(self).wf(),
        ensures
            final(self).wf(),
            final(self).slot1 == switches,
            switches is None ==> {
                &&& final(self).xfer == 0
                &&& final(self).tx_left == 0
                &&& final(self).pending_rx is None
                &&& !final(self).ack_after
                &&& final(self).ack_in == 0
                &&& final(self).ack_low == 0
            },
            switches is Some ==> {
                &&& final(self).xfer == old(self).xfer
                &&& final(self).tx_left == old(self).tx_left
                &&& final(self).pending_rx == old(self).pending_rx
                &&& final(self).ack_after == old(self).ack_after
                &&& final(self).ack_in == old(self).ack_in
                &&& final(self).ack_low == old(self).ack_low
            },
            final(self).rx@ == old(self).rx@,
            final(self).mode == old(self).mode,
            final(self).ctrl == old(self).ctrl,
            final(self).baud == old(self).baud,
            final(self).irq_stat == old(self).irq_stat,
    {
        self.slot1 = switches;
        if switches.is_none() {
            self.xfer = 0;
            self.tx_left = 0;
            self.pending_rx = None;
            self.ack_after = false;
            self.ack_in = 0;
            self.ack_low = 0;
        }
    }

    pub fn last_ctrl(&self) -> (v: u16)
        ensures
            v == self.last_ctrl,
    {
        self.last_ctrl
    }

    pub fn last_tx(&self) -> (v: u8)
        ensures
            v == self.last_tx,
    {
        self.last_tx
    }

    pub fn tx_count(&self) -> (v: u32)
        ensures
            v == self.tx_count,
    {
        self.tx_count
    }

    pub fn ack_armed(&self) -> (v: u32)
        ensures
            v == self.ack_armed,
    {
        self.ack_armed
    }

    fn byte_cycles(&self) -> (c: u32)
        ensures
            c == byte_cycles_spec(self.mode, self.baud),
    {
        let m = self.mode % 4;
        let factor: u32 = if m == 2 {
            16
        } else if m == 3 {
            64
        } else {
            1
        };
        let bits: u32 = 5 + ((self.mode / 4) % 4) as u32;
        let baud: u32 = if self.baud < 1 {
            1
        } else {
            self.baud as u32
        };
        assert(bits * baud * factor <= 8 * 0xFFFF * 64) by (nonlinear_arith)
            requires
                bits <= 8,
                baud <= 0xFFFF,
                factor <= 64,
        ;
        bits * baud * factor
    }

    /// Let `cycles` pass: the byte in flight finishes, then /ACK waits out the
    /// ignore window, goes low (IRQ7 when CTRL asks for it) and comes back up.
    pub fn tick(&mut self, cycles: u32, irq: &mut Irq)
        requires
            old(self).wf(),
        ensures
            final(self).wf(),
            ({
                let j = *old(self);
                let shift_done = j.tx_left > 0 && cycles >= j.tx_left;
                let c1: int = if j.tx_left > 0 {
                    if cycles < j.tx_left { 0 } else { cycles - j.tx_left }
                } else {
                    cycles as int
                };
                let ack_in1: u32 = if shift_done { j.finished_ack_in() } else { j.ack_in };
                let counting = ack_in1 > 0 && c1 > 0;
                let fire = counting && c1 >= ack_in1;
                let c2: int = if counting {
                    if c1 < ack_in1 { 0 } else { c1 - ack_in1 }
                } else {
                    c1
                };
                let ack_low2: u32 = if fire { ACK_HOLD } else { j.ack_low };
                let ack_low3: int = if ack_low2 > 0 {
                    if ack_low2 > c2 { ack_low2 - c2 } else { 0 }
                } else {
                    0
                };
                let st0 = (old(irq).stat, old(irq).level);
                let st1 = drive(st0, j.ack_low == 0, false);
                let st2 = drive(st1, fire && j.ctrl & CTRL_ACK_IRQ != 0, true);
                let st3 = drive(st2, ack_low2 > 0 && ack_low3 == 0, false);
                &&& final(self).tx_left == (if j.tx_left > 0 && cycles < j.tx_left {
                    j.tx_left - cycles
                } else {
                    0
                })
                &&& final(self).rx@ == (if shift_done { j.finished_rx() } else { j.rx@ })
                &&& final(self).pending_rx == (if shift_done { None } else { j.pending_rx })
                &&& final(self).ack_after == (j.ack_after && !shift_done)
                &&& final(self).ack_in == (if counting {
                    if c1 < ack_in1 { ack_in1 - c1 } else { 0 }
                } else {
                    ack_in1 as int
                })
                &&& final(self).ack_low == ack_low3
                &&& final(self).irq_stat == (j.irq_stat || fire)
                &&& final(irq).stat == st3.0
                &&& final(irq).level == st3.1
                &&& final(irq).mask == old(irq).mask
            }),
            final(self).mode == old(self).mode,
            final(self).ctrl == old(self).ctrl,
            final(self).baud == old(self).baud,
            final(self).slot1 == old(self).slot1,
            final(self).xfer == old(self).xfer,
            final(self).last_ctrl == old(self).last_ctrl,
            final(self).last_tx == old(self).last_tx,
            final(self).tx_count == old(self).tx_count,
            final(self).ack_armed == old(self).ack_armed,
    {
        let mut cycles = cycles;
        if self.ack_low == 0 {
            irq.set_level(IRQ_PAD, false);
        }
        if self.tx_left > 0 {
            if cycles < self.tx_left {
                self.tx_left = self.tx_left - cycles;
                cycles = 0;
            } else {
                cycles = cycles - self.tx_left;
                self.tx_left = 0;
                if let Some(b) = self.pending_rx {
                    self.push_rx(b);
                }
                self.pending_rx = None;
                if self.ack_after {
                    self.ack_in = ACK_AFTER_SCK;
                    self.ack_after = false;
                }
            }
        }
        let fire = self.ack_in > 0 && cycles > 0 && cycles >= self.ack_in;
        if self.ack_in > 0 && cycles > 0 {
            if cycles < self.ack_in {
                self.ack_in = self.ack_in - cycles;
                cycles = 0;
            } else {
                cycles = cycles - self.ack_in;
                self.ack_in = 0;
                self.ack_low = ACK_HOLD;
                self.irq_stat = true;
                if self.ctrl & CTRL_ACK_IRQ != 0 {
                    irq.set_level(IRQ_PAD, true);
                }
            }
        }
        if self.ack_low > 0 {
            self.ack_low = if self.ack_low > cycles {
                self.ack_low - cycles
            } else {
                0
            };
            if self.ack_low == 0 {
                irq.set_level(IRQ_PAD, false);
            }
        }
    }

    /// JOY_STAT.
    pub fn stat(&self) -> (s: u16)
        ensures
            s == self.stat_spec(),
    {
        let mut s: u16 = 1;
        if self.tx_left == 0 {
            s = s + 4;
        }
        if self.rx.len() > 0 {
            s = s + 2;
        }
        if self.ack_low > 0 {
            s = s + 0x80;
        }
        if self.irq_stat {
            s = s + 0x200;
        }
        s
    }

    fn read_rx(&mut self) -> (b: u8)
        requires
            old(self).wf(),
        ensures
            final(self).wf(),
            b == (if old(self).rx@.len() > 0 { old(self).rx@[0] } else { 0xFF }),
            final(self).rx@ == (if old(self).rx@.len() > 0 { old(self).rx@.drop_first() } else {
                old(self).rx@
            }),
            final(self).same_but_rx(&*old(self)),
    {
        match self.rx.pop_front() {
            Some(b) => b,
            None => 0xFF,
        }
    }

    /// Every field but the RX FIFO is unchanged.
    pub open spec fn same_but_rx(&self, o: &Joy) -> bool {
        &&& self.mode == o.mode
        &&& self.ctrl == o.ctrl
        &&& self.baud == o.baud
        &&& self.slot1 == o.slot1
        &&& self.xfer == o.xfer
        &&& self.tx_left == o.tx_left
        &&& self.pending_rx == o.pending_rx
        &&& self.ack_after == o.ack_after
        &&& self.ack_in == o.ack_in
        &&& self.ack_low == o.ack_low
        &&& self.irq_stat == o.irq_stat
        &&& self.last_ctrl == o.last_ctrl
        &&& self.last_tx == o.last_tx
        &&& self.tx_count == o.tx_count
        &&& self.ack_armed == o.ack_armed
    }

    fn push_rx(&mut self, b: u8)
        requires
            old(self).wf(),
        ensures
            final(self).wf(),
            final(self).rx@ == push_rx_spec(old(self).rx@, b),
            final(self).same_but_rx(&*old(self)),
    {
        if self.rx.len() >= 8 {
            self.rx.pop_front();
        }
        self.rx.push_back(b);
    }

    /// A byte read at 1F801040h + (addr mod 16).
    pub fn read8(&mut self, addr: u32) -> (v: u8)
        requires
            old(self).wf(),
        ensures
            final(self).wf(),
            addr % 16 == 0 ==> {
                &&& v == (if old(self).rx@.len() > 0 { old(self).rx@[0] } else { 0xFF })
                &&& final(self).rx@ == (if old(self).rx@.len() > 0 {
                    old(self).rx@.drop_first()
                } else {
                    old(self).rx@
                })
            },
            addr % 16 != 0 ==> final(self).rx@ == old(self).rx@ && v == (if addr % 16 == 4 {
                old(self).stat_spec() % 256
            } else if addr % 16 == 5 {
                old(self).stat_spec() / 256
            } else if addr % 16 == 8 {
                old(self).mode as int % 256
            } else if addr % 16 == 9 {
                old(self).mode as int / 256
            } else if addr % 16 == 0xA {
                old(self).ctrl as int % 256
            } else if addr % 16 == 0xB {
                old(self).ctrl as int / 256
            } else if addr % 16 == 0xE {
                old(self).baud as int % 256
            } else if addr % 16 == 0xF {
                old(self).baud as int / 256
            } else {
                0
            }),
            final(self).same_but_rx(&*old(self)),
    {
        let r = addr % 16;
        if r == 0 {
            self.read_rx()
        } else if r == 4 {
            (self.stat() % 256) as u8
        } else if r == 5 {
            (self.stat() / 256) as u8
        } else if r == 8 {
            (self.mode % 256) as u8
        } else if r == 9 {
            (self.mode / 256) as u8
        } else if r == 0xA {
            (self.ctrl % 256) as u8
        } else if r == 0xB {
            (self.ctrl / 256) as u8
        } else if r == 0xE {
            (self.baud % 256) as u8
        } else if r == 0xF {
            (self.baud / 256) as u8
        } else {
            0
        }
    }

    /// A halfword read at 1F801040h + (addr mod 16).
    pub fn read16(&mut self, addr: u32) -> (v: u16)
        requires
            old(self).wf(),
        ensures
            final(self).wf(),
            addr % 16 == 0 ==> {
                &&& v == (if old(self).rx@.len() > 0 { old(self).rx@[0] } else { 0xFF })
                &&& final(self).rx@ == (if old(self).rx@.len() > 0 {
                    old(self).rx@.drop_first()
                } else {
                    old(self).rx@
                })
            },
            addr % 16 != 0 ==> final(self).rx@ == old(self).rx@ && v == (if addr % 16 == 4 {
                old(self).stat_spec()
            } else if addr % 16 == 8 {
                old(self).mode as int
            } else if addr % 16 == 0xA {
                old(self).ctrl as int
            } else if addr % 16 == 0xE {
                old(self).baud as int
            } else {
                0
            }),
            final(self).same_but_rx(&*old(self)),
    {
        let r = addr % 16;
        if r == 0 {
            self.read_rx() as u16
        } else if r == 4 {
            self.stat()
        } else if r == 8 {
            self.mode
        } else if r == 0xA {
            self.ctrl
        } else if r == 0xE {
            self.baud
        } else {
            0
        }
    }
}


impl Joy {
    /// `new` is `old` after a byte `value` is written to JOY_TX_DATA.
    pub open spec fn tx_written(old: Joy, new: Joy, value: u8) -> bool {
        &&& new.last_tx == value
        &&& new.tx_count == sat_add(old.tx_count, 1)
        &&& new.mode == old.mode
        &&& new.ctrl == old.ctrl
        &&& new.baud == old.baud
        &&& new.slot1 == old.slot1
        &&& new.irq_stat == old.irq_stat
        &&& new.last_ctrl == old.last_ctrl
        &&& if old.ctrl & 7 == 0 {
            &&& new.rx@ == old.rx@
            &&& new.xfer == old.xfer
            &&& new.tx_left == old.tx_left
            &&& new.pending_rx == old.pending_rx
            &&& new.ack_after == old.ack_after
            &&& new.ack_in == old.ack_in
            &&& new.ack_low == old.ack_low
            &&& new.ack_armed == old.ack_armed
        } else {
            let r = reply_spec(old.slot1, old.ctrl, old.xfer, value);
            &&& new.rx@ == (if old.tx_left > 0 { old.finished_rx() } else { old.rx@ })
            &&& new.ack_in == (if old.tx_left > 0 { old.finished_ack_in() } else { old.ack_in })
            &&& new.pending_rx == Some(r.0)
            &&& new.tx_left == byte_cycles_spec(old.mode, old.baud)
            &&& new.ack_after == r.1
            &&& new.xfer == r.2
            &&& new.ack_low == (if r.1 { 0 } else { old.ack_low })
            &&& new.ack_armed == (if r.1 { sat_add(old.ack_armed, 1) } else { old.ack_armed })
        }
    }

    /// `new` is `old` after `value` is written to JOY_CTRL.
    pub open spec fn ctrl_written(old: Joy, new: Joy, value: u16) -> bool {
        &&& new.last_ctrl == value
        &&& new.ctrl == value & 0xFFAF
        &&& new.slot1 == old.slot1
        &&& new.mode == old.mode
        &&& new.baud == old.baud
        &&& new.last_tx == old.last_tx
        &&& new.tx_count == old.tx_count
        &&& new.ack_armed == old.ack_armed
        &&& if value & CTRL_RESET != 0 {
            &&& new.rx@.len() == 0
            &&& new.xfer == 0
            &&& new.tx_left == 0
            &&& new.pending_rx is None
            &&& !new.ack_after
            &&& new.ack_in == 0
            &&& new.ack_low == 0
            &&& !new.irq_stat
        } else {
            &&& new.irq_stat == (old.irq_stat && !(value & CTRL_ACK != 0 && old.ack_low == 0))
            &&& new.rx@ == old.rx@
            &&& if slot1_selected_spec(old.ctrl) && !slot1_selected_spec(value & 0xFFAF) {
                &&& new.xfer == 0
                &&& new.tx_left == 0
                &&& new.pending_rx is None
                &&& !new.ack_after
                &&& new.ack_in == 0
                &&& new.ack_low == 0
            } else {
                &&& new.xfer == old.xfer
                &&& new.tx_left == old.tx_left
                &&& new.pending_rx == old.pending_rx
                &&& new.ack_after == old.ack_after
                &&& new.ack_in == old.ack_in
                &&& new.ack_low == old.ack_low
            }
        }
    }

    fn write_tx(&mut self, value: u8)
        requires
            old(self).wf(),
        ensures
            final(self).wf(),
            Self::tx_written(*old(self), *final(self), value),
    {
        self.last_tx = value;
        self.tx_count = self.tx_count.saturating_add(1);
        if self.ctrl & 7 == 0 {
            return;
        }
        if self.tx_left > 0 {
            self.tx_left = 0;
            if let Some(b) = self.pending_rx {
                self.push_rx(b);
            }
            self.pending_rx = None;
            if self.ack_after {
                self.ack_in = ACK_AFTER_SCK;
                self.ack_after = false;
            }
        }
        let selected = self.ctrl & CTRL_SELECT != 0 && self.ctrl & CTRL_SLOT == 0;
        let (reply, ack, next): (u8, bool, u8) = match self.slot1 {
            Some(sw) if selected => {
                if self.xfer == 0 {
                    (0xFF, value == 0x01, if value == 0x01 {
                        1
                    } else {
                        0
                    })
                } else if self.xfer == 1 {
                    (0x41, true, 2)
                } else if self.xfer == 2 {
                    (0x5A, true, 3)
                } else if self.xfer == 3 {
                    ((sw % 256) as u8, true, 4)
                } else if self.xfer == 4 {
                    ((sw / 256) as u8, false, 0)
                } else {
                    (0xFF, false, 0)
                }
            },
            _ => (0xFF, false, 0),
        };
        self.xfer = next;
        self.pending_rx = Some(reply);
        self.tx_left = self.byte_cycles();
        self.ack_after = ack;
        if ack {
            self.ack_low = 0;
            self.ack_armed = self.ack_armed.saturating_add(1);
        }
    }

    fn write_ctrl(&mut self, value: u16)
        requires
            old(self).wf(),
        ensures
            final(self).wf(),
            Self::ctrl_written(*old(self), *final(self), value),
    {
        self.last_ctrl = value;
        if value & CTRL_RESET != 0 {
            self.reset();
            // Bit 6 is a pulse. The other bits of this write are the new CTRL
            // (PSY-Q PadRead: Reset | TXEN | /JOYn | ACK IRQ in one halfword).
            self.ctrl = value & 0xFFAF;
            self.last_ctrl = value;
            return;
        }
        if value & CTRL_ACK != 0 && self.ack_low == 0 {
            self.irq_stat = false;
        }
        let was = self.ctrl & CTRL_SELECT != 0 && self.ctrl & CTRL_SLOT == 0;
        self.ctrl = value & 0xFFAF;
        let now = self.ctrl & CTRL_SELECT != 0 && self.ctrl & CTRL_SLOT == 0;
        if was && !now {
            self.xfer = 0;
            self.tx_left = 0;
            self.pending_rx = None;
            self.ack_after = false;
            self.ack_in = 0;
            self.ack_low = 0;
        }
    }

    /// A byte written at 1F801040h + (addr mod 16).
    pub fn write8(&mut self, addr: u32, value: u8)
        requires
            old(self).wf(),
        ensures
            final(self).wf(),
            addr % 16 == 0 ==> Self::tx_written(*old(self), *final(self), value),
            addr % 16 == 0xA ==> Self::ctrl_written(
                *old(self),
                *final(self),
                ((old(self).ctrl / 256) * 256 + value) as u16,
            ),
            addr % 16 == 0xB ==> Self::ctrl_written(
                *old(self),
                *final(self),
                (old(self).ctrl % 256 + value * 256) as u16,
            ),
            addr % 16 != 0 && addr % 16 != 0xA && addr % 16 != 0xB ==> {
                &&& final(self).mode == (if addr % 16 == 8 {
                    ((old(self).mode / 256) * 256 + value) as u16
                } else if addr % 16 == 9 {
                    (old(self).mode % 256 + value * 256) as u16
                } else {
                    old(self).mode
                })
                &&& final(self).baud == (if addr % 16 == 0xE {
                    ((old(self).baud / 256) * 256 + value) as u16
                } else if addr % 16 == 0xF {
                    (old(self).baud % 256 + value * 256) as u16
                } else {
                    old(self).baud
                })
                &&& final(self).rx@ == old(self).rx@
                &&& final(self).ctrl == old(self).ctrl
                &&& final(self).slot1 == old(self).slot1
                &&& final(self).xfer == old(self).xfer
                &&& final(self).tx_left == old(self).tx_left
                &&& final(self).pending_rx == old(self).pending_rx
                &&& final(self).ack_after == old(self).ack_after
                &&& final(self).ack_in == old(self).ack_in
                &&& final(self).ack_low == old(self).ack_low
                &&& final(self).irq_stat == old(self).irq_stat
            },
    {
        let r = addr % 16;
        if r == 0 {
            self.write_tx(value);
        } else if r == 8 {
            self.mode = (self.mode / 256) * 256 + value as u16;
        } else if r == 9 {
            self.mode = self.mode % 256 + (value as u16) * 256;
        } else if r == 0xA {
            let v = (self.ctrl / 256) * 256 + value as u16;
            self.write_ctrl(v);
        } else if r == 0xB {
            let v = self.ctrl % 256 + (value as u16) * 256;
            self.write_ctrl(v);
        } else if r == 0xE {
            self.baud = (self.baud / 256) * 256 + value as u16;
        } else if r == 0xF {
            self.baud = self.baud % 256 + (value as u16) * 256;
        }
    }

    /// A halfword written at 1F801040h + (addr mod 16).
    pub fn write16(&mut self, addr: u32, value: u16)
        requires
            old(self).wf(),
        ensures
            final(self).wf(),
            addr % 16 == 0 ==> Self::tx_written(*old(self), *final(self), (value % 256) as u8),
            addr % 16 == 0xA ==> Self::ctrl_written(*old(self), *final(self), value),
            addr % 16 != 0 && addr % 16 != 0xA ==> {
                &&& final(self).mode == (if addr % 16 == 8 { value } else { old(self).mode })
                &&& final(self).baud == (if addr % 16 == 0xE { value } else { old(self).baud })
                &&& final(self).rx@ == old(self).rx@
                &&& final(self).ctrl == old(self).ctrl
                &&& final(self).slot1 == old(self).slot1
                &&& final(self).xfer == old(self).xfer
                &&& final(self).tx_left == old(self).tx_left
                &&& final(self).pending_rx == old(self).pending_rx
                &&& final(self).ack_after == old(self).ack_after
                &&& final(self).ack_in == old(self).ack_in
                &&& final(self).ack_low == old(self).ack_low
                &&& final(self).irq_stat == old(self).irq_stat
            },
    {
        let r = addr % 16;
        if r == 0 {
            self.write_tx((value % 256) as u8);
        } else if r == 8 {
            self.mode = value;
        } else if r == 0xA {
            self.write_ctrl(value);
        } else if r == 0xE {
            self.baud = value;
        }
    }
}

} // verus!
