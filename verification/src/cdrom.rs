//! CD-ROM controller at 1F801800h: status, command/response interrupts and sector reads.
use vstd::prelude::*;

use crate::disc::{Disc, Track};
use crate::xa::{decode_xa, mix, read_le_i16};
use crate::irq::{Irq, IRQ_CDROM};

verus! {

/// One Setloc/ReadN/Pause/Seek as seen by the controller.
#[derive(Clone, Copy, Debug, PartialEq, Eq)]
pub struct CdCmdEvent {
    pub cmd: u8,
    pub loc_lba: u32,
    pub lba: u32,
    pub setloc_pending: bool,
    pub reading: bool,
    pub held: bool,
}

/// Inspectable CD-ROM controller state. The Debugger prints this.
#[derive(Clone, Copy, Debug, PartialEq, Eq)]
pub struct CdromView {
    pub status: u8,
    pub controller: u8,
    pub reading: bool,
    pub motor: bool,
    pub lba: u32,
    pub loc_lba: u32,
    pub last_lba: u32,
    pub setloc_pending: bool,
    pub pending_cycles: Option<u32>,
    pub fifo_bytes: u32,
    pub mode: u8,
    pub last_cmd: u8,
    /// Oldest to newest, 16 slots; unused are FFh.
    pub recent: [u8; 16],
}

/// 33.8688 MHz / 75 sectors/s (1x). Mode bit 7 selects 2x.
pub const CYCLES_PER_SECTOR_1X: u32 = 451_584;

pub const SEEK_CYCLES: u32 = 451_584;

/// A handful of sectors; the drive stalls rather than drop the locked front.
pub const SECTOR_BUF: usize = 8;

/// What happens when a pending delay runs out.
pub enum PendingWhat {
    Irq { irq: u8, result: Vec<u8> },
    SeekDone { then_read: bool },
    PlayTick,
}

pub struct Pending {
    pub cycles: u32,
    pub what: PendingWhat,
    pub second: Option<(u32, PendingWhat)>,
}

/// A command's first response (delay, INT number, bytes) and an optional second event.
pub type Answer = (Option<(u32, u8, Vec<u8>)>, Option<(u32, PendingWhat)>);

/// CD-ROM controller: status, GetID, and sector reads.
pub struct Cdrom {
    pub index: u8,
    pub status: u8,
    pub irq_enable: u8,
    pub irq_flag: u8,
    pub param: Vec<u8>,
    pub result: Vec<u8>,
    pub result_i: usize,
    pub pending: Option<Pending>,
    pub disc: Option<Disc>,
    pub motor: bool,
    pub loc: (u8, u8, u8),
    pub lba: u32,
    pub mode: u8,
    pub reading: bool,
    pub fifo: Vec<u8>,
    pub fifo_i: usize,
    pub last_cmd: u8,
    pub last_executed: u8,
    pub recent: [u8; 16],
    pub recent_n: u8,
    pub held_cmd: Option<u8>,
    pub held_param: Vec<u8>,
    pub queue: std::collections::VecDeque<(u8, Vec<u8>)>,
    pub cmd_delay: Option<(u32, u8, Vec<u8>)>,
    pub setloc_pending: bool,
    pub seeking: bool,
    pub header: [u8; 8],
    pub header_valid: bool,
    pub last_lba: u32,
    pub data_sector: Vec<u8>,
    pub sector_buf: std::collections::VecDeque<(u32, Vec<u8>)>,
    pub pad_byte: u8,
    pub fifo_loaded: bool,
    pub filter_file: u8,
    pub filter_channel: u8,
    pub want_data: bool,
    pub playing: bool,
    pub muted: bool,
    pub smen: bool,
    pub shell_open: bool,
    pub scex_unlocked: bool,
    pub secret_step: u8,
    pub vol: [u8; 4],
    pub vol_applied: [u8; 4],
    pub sound_map: Vec<u8>,
    pub sound_map_coding: u8,
    pub analog: (i16, i16),
    pub session: u8,
    pub scex_total: u8,
    pub scex_ok: u8,
    pub read_s: bool,
    pub retries: u8,
    pub skip: i32,
    pub play_ready: bool,
    pub play_sectors: u32,
    pub session_fail: u8,
    pub cmd_events: Vec<CdCmdEvent>,
}

/// A two-digit BCD byte as a number.
pub open spec fn bcd_spec(v: u8) -> int {
    (v / 16) * 10 + v % 16
}

pub fn bcd(v: u8) -> (r: u32)
    ensures
        r == bcd_spec(v),
{
    ((v / 16) as u32) * 10 + (v % 16) as u32
}

/// The LBA of BCD minute/second/frame: 75 frames a second, 2 s of lead-in.
pub open spec fn msf_to_lba_spec(mm: u8, ss: u8, ff: u8) -> int {
    ((bcd_spec(mm) * 60 + bcd_spec(ss)) * 75 + bcd_spec(ff) - 150 + 0x1_0000_0000) % 0x1_0000_0000
}

pub fn msf_to_lba(mm: u8, ss: u8, ff: u8) -> (r: u32)
    ensures
        r == msf_to_lba_spec(mm, ss, ff),
{
    let m = bcd(mm);
    let s = bcd(ss);
    let f = bcd(ff);
    ((m * 60 + s) * 75 + f).wrapping_sub(150)
}

/// The two low decimal digits of `v` as BCD.
pub open spec fn to_bcd_spec(v: u32) -> int {
    ((v / 10) % 10) * 16 + v % 10
}

pub fn to_bcd(v: u32) -> (r: u8)
    ensures
        r == to_bcd_spec(v),
{
    (((v / 10) % 10) * 16 + v % 10) as u8
}

/// BCD minute, second and frame of an absolute frame count.
pub fn frames_to_msf(frames: u32) -> (r: (u8, u8, u8))
    ensures
        r.0 == to_bcd_spec(frames / 75 / 60),
        r.1 == to_bcd_spec((frames / 75) % 60),
        r.2 == to_bcd_spec(frames % 75),
{
    (to_bcd(frames / 75 / 60), to_bcd((frames / 75) % 60), to_bcd(frames % 75))
}

impl PendingWhat {
    pub open spec fn is_read_event(&self) -> bool {
        match self {
            PendingWhat::Irq { irq, .. } => *irq == 1,
            PendingWhat::SeekDone { then_read } => *then_read,
            PendingWhat::PlayTick => true,
        }
    }
}

impl Cdrom {
    /// The FIFO read positions stay inside their buffers.
    pub open spec fn sound(&self) -> bool {
        &&& self.fifo_i <= self.fifo.len()
        &&& self.result_i <= self.result.len()
    }

    /// A pending event, and the event it chains to, are still some cycles away.
    pub open spec fn pending_ok(&self) -> bool {
        self.pending matches Some(p) ==> p.cycles > 0 && (p.second matches Some(s) ==> s.0 > 0)
    }

    /// A waiting command response is still some cycles away.
    pub open spec fn delay_ok(&self) -> bool {
        self.cmd_delay matches Some(d) ==> d.0 > 0
    }

    pub open spec fn wf(&self) -> bool {
        &&& self.sound()
        &&& self.pending_ok()
        &&& self.delay_ok()
    }

    /// The drive status byte every response starts with: motor on, shell open, and
    /// playing, seeking or reading.
    pub open spec fn controller_stat_spec(&self) -> u8 {
        ((if self.motor { 0x02int } else { 0 }) + (if self.shell_open { 0x10int } else { 0 }) + (
        if self.playing && !self.seeking {
            0x80int
        } else if self.seeking {
            0x40
        } else if self.reading {
            0x20
        } else {
            0
        })) as u8
    }

    /// Neither the command response nor the pending event falls due within `cycles`.
    pub open spec fn events_far(&self, cycles: u32) -> bool {
        &&& (self.cmd_delay matches Some(d) ==> cycles < d.0)
        &&& (self.pending matches Some(p) ==> cycles < p.cycles)
    }

    /// Only the command response is waiting, it falls due within `cycles`, no INT is up,
    /// and it is not INT1: it is delivered and nothing follows.
    pub open spec fn response_due(&self, cycles: u32) -> bool {
        &&& self.pending is None
        &&& self.cmd_delay matches Some(d) && d.0 <= cycles && d.1 != 1
        &&& self.irq_flag & 7 == 0
    }

    /// The drive at power-on: stopped, head at sector 0, nothing pending, queued or
    /// buffered.
    pub open spec fn idle(&self) -> bool {
        &&& !self.reading
        &&& !self.motor
        &&& !self.playing
        &&& !self.seeking
        &&& self.lba == 0
        &&& self.pending is None
        &&& self.cmd_delay is None
        &&& self.queue@.len() == 0
        &&& self.fifo@.len() == 0
        &&& !self.fifo_loaded
        &&& self.irq_flag == 0
        &&& self.status == 0x18
    }

    pub fn new() -> (c: Self)
        ensures
            c.wf(),
            c.idle(),
            c.disc is None,
            c.status == 0x18,
            c.index == 0,
            c.irq_enable == 0,
            c.irq_flag == 0,
            c.pending is None,
            c.queue@.len() == 0,
            c.mode == 0,
    {
        Cdrom {
            index: 0,
            status: 0x18,
            irq_enable: 0,
            irq_flag: 0,
            param: Vec::new(),
            result: Vec::new(),
            result_i: 0,
            pending: None,
            disc: None,
            motor: false,
            loc: (0, 0, 0),
            lba: 0,
            mode: 0,
            reading: false,
            fifo: Vec::new(),
            fifo_i: 0,
            last_cmd: 0,
            last_executed: 0,
            recent: [0xFF; 16],
            recent_n: 0,
            held_cmd: None,
            held_param: Vec::new(),
            queue: std::collections::VecDeque::new(),
            cmd_delay: None,
            setloc_pending: false,
            seeking: false,
            header: [0; 8],
            header_valid: false,
            last_lba: 0,
            data_sector: Vec::new(),
            sector_buf: std::collections::VecDeque::new(),
            pad_byte: 0,
            fifo_loaded: false,
            filter_file: 0,
            filter_channel: 0,
            want_data: false,
            playing: false,
            muted: false,
            smen: false,
            shell_open: false,
            scex_unlocked: false,
            secret_step: 0,
            vol: [0x80, 0, 0x80, 0],
            vol_applied: [0x80, 0, 0x80, 0],
            sound_map: Vec::new(),
            sound_map_coding: 0,
            analog: (0, 0),
            session: 1,
            scex_total: 0,
            scex_ok: 0,
            read_s: false,
            retries: 0,
            skip: 0,
            play_ready: false,
            play_sectors: 0,
            session_fail: 0,
            cmd_events: Vec::new(),
        }
    }

    /// Power-on state, keeping the disc in the drive.
    pub fn reset(&mut self)
        ensures
            final(self).wf(),
            final(self).disc == old(self).disc,
            final(self).status == 0x18,
            final(self).irq_flag == 0,
            final(self).pending is None,
            final(self).idle(),
    {
        let disc = self.disc.take();
        *self = Self::new();
        self.disc = disc;
    }

    pub fn insert(&mut self, disc: Disc)
        requires
            old(self).wf(),
        ensures
            final(self).wf(),
            final(self).disc == Some(disc),
    {
        self.disc = Some(disc);
    }

    fn controller_stat(&self) -> (s: u8)
        ensures
            s == self.controller_stat_spec(),
    {
        let mut s: u8 = 0;
        if self.motor {
            s = s + 0x02;
        }
        if self.shell_open {
            s = s + 0x10;
        }
        if self.playing && !self.seeking {
            s = s + 0x80;
        } else if self.seeking {
            s = s + 0x40;
        } else if self.reading {
            s = s + 0x20;
        }
        s
    }

    fn sector_cycles(&self) -> (c: u32)
        ensures
            c == (if self.mode & 0x80 != 0 {
                CYCLES_PER_SECTOR_1X / 2
            } else {
                CYCLES_PER_SECTOR_1X
            }),
            c > 0,
    {
        if self.mode & 0x80 != 0 {
            CYCLES_PER_SECTOR_1X / 2
        } else {
            CYCLES_PER_SECTOR_1X
        }
    }

    fn update_irq_line(&self, irq: &mut Irq)
        ensures
            final(irq).stat == crate::irq::stat_after_level(
                old(irq).stat,
                old(irq).level,
                IRQ_CDROM,
                self.irq_flag & 7 != 0 && self.irq_flag & self.irq_enable != 0,
            ),
            final(irq).level == crate::irq::level_after(
                old(irq).level,
                IRQ_CDROM,
                self.irq_flag & 7 != 0 && self.irq_flag & self.irq_enable != 0,
            ),
            final(irq).mask == old(irq).mask,
    {
        irq.set_level(IRQ_CDROM, self.irq_flag & 7 != 0 && self.irq_flag & self.irq_enable != 0);
    }

    fn fifo_busy(&self) -> (b: bool)
        ensures
            b == (self.fifo_loaded && self.fifo_i < self.fifo.len()),
    {
        self.fifo_loaded && self.fifo_i < self.fifo.len()
    }

    fn clear_sector_buf(&mut self)
        requires
            old(self).sound(),
        ensures
            still(old(self), final(self)),
            final(self).sector_buf@.len() == 0,
            final(self).fifo.len() == 0,
            !final(self).fifo_loaded,
            final(self).status == old(self).status & 0xBF,
            final(self).pending == old(self).pending,
            final(self).irq_flag == old(self).irq_flag,
            host(final(self)) == host(old(self)),
            drive(final(self)) == drive(old(self)),
    {
        self.sector_buf.clear();
        self.fifo.clear();
        self.fifo_i = 0;
        self.fifo_loaded = false;
        self.status = self.status & 0xBF;
    }

    /// Arm the next sector interrupt while reading, unless something is pending.
    fn arm_next_int1(&mut self)
        requires
            old(self).sound(),
        ensures
            kept(old(self), final(self)),
            final(self).cmd_delay == old(self).cmd_delay,
            old(self).reading && !old(self).playing && old(self).pending is None ==> (final(self).pending matches Some(p) && p.what is Irq && p.second is None),
            !(old(self).reading && !old(self).playing && old(self).pending is None) ==> final(self).pending == old(self).pending,
            final(self).irq_flag == old(self).irq_flag,
            final(self).queue@ == old(self).queue@,
            host(final(self)) == host(old(self)),
            fifo_state(final(self)) == fifo_state(old(self)),
            drive(final(self)) == drive(old(self)),
    {
        if self.reading && !self.playing && self.pending.is_none() {
            let c = self.sector_cycles();
            let st = self.controller_stat();
            self.pending = Some(
                Pending { cycles: c, what: PendingWhat::Irq { irq: 1, result: vec![st] }, second: None },
            );
        }
    }

    /// The data FIFO is reloaded with the current sector.
    fn load_data_fifo(&mut self)
        requires
            old(self).sound(),
        ensures
            still(old(self), final(self)),
            final(self).fifo@ == old(self).data_sector@,
            final(self).fifo_i == 0,
            final(self).fifo_loaded == (old(self).data_sector.len() > 0),
            final(self).pending == old(self).pending,
            final(self).irq_flag == old(self).irq_flag,
            host(final(self)) == host(old(self)),
            drive(final(self)) == drive(old(self)),
            final(self).sector_buf@ == old(self).sector_buf@,
    {
        self.fifo = self.data_sector.clone();
        self.fifo_i = 0;
        self.fifo_loaded = self.fifo.len() > 0;
        if self.fifo_loaded {
            self.status = self.status | 0x40;
        } else {
            self.status = self.status & 0xBF;
        }
    }
}


/// What an internal step keeps: sound buffers, and any event it schedules is in the future.
pub open spec fn kept(before: &Cdrom, after: &Cdrom) -> bool {
    &&& after.sound()
    &&& (after.pending == before.pending || after.pending_ok())
    &&& (after.cmd_delay == before.cmd_delay || after.delay_ok())
}

/// The host-facing registers and the drive modes the sector and FIFO helpers leave alone.
pub open spec fn host(c: &Cdrom) -> (u8, u8, u8, u8, u8, Seq<u8>, Seq<u8>, usize, bool) {
    (
        c.index,
        c.irq_enable,
        c.irq_flag,
        c.last_cmd,
        c.last_executed,
        c.param@,
        c.result@,
        c.result_i,
        c.shell_open,
    )
}

/// Where the head is and what the drive is doing.
pub open spec fn drive(c: &Cdrom) -> (u32, u32, bool, bool, bool, (u8, u8, u8), u8, bool, bool, bool) {
    (
        c.lba,
        c.last_lba,
        c.seeking,
        c.reading,
        c.setloc_pending,
        c.loc,
        c.mode,
        c.motor,
        c.playing,
        c.want_data,
    )
}

/// The data FIFO: its bytes, read position, loaded flag and padding byte.
pub open spec fn fifo_state(c: &Cdrom) -> (Seq<u8>, usize, bool, u8) {
    (c.fifo@, c.fifo_i, c.fifo_loaded, c.pad_byte)
}

/// The response queue without its INT1 entries, in order.
pub open spec fn without_int1(q: Seq<(u8, Vec<u8>)>) -> Seq<(u8, Vec<u8>)>
    decreases q.len(),
{
    if q.len() == 0 {
        q
    } else if q.last().0 == 1 {
        without_int1(q.drop_last())
    } else {
        without_int1(q.drop_last()).push(q.last())
    }
}

/// What a step that schedules nothing keeps: sound buffers and both events untouched.
pub open spec fn still(before: &Cdrom, after: &Cdrom) -> bool {
    &&& after.sound()
    &&& after.pending == before.pending
    &&& after.cmd_delay == before.cmd_delay
}

/// Every delay a command's answer schedules is positive.
pub open spec fn answer_ok(a: Answer) -> bool {
    &&& (a.0 matches Some(f) ==> f.0 > 0)
    &&& (a.1 matches Some(s) ==> s.0 > 0)
}

/// An INT5 error answer `[b0, b1]` after the usual first-response delay.
pub open spec fn int5_answer(a: Answer, b0: u8, b1: u8) -> bool {
    &&& a.0 matches Some(f) && f.0 == 0xC4E1 && f.1 == 5 && f.2@ == seq![b0, b1]
    &&& a.1 is None
}

/// Commands the controller has no handler for: answered INT5 with 11h, 40h.
pub open spec fn unused_command(cmd: u8) -> bool {
    cmd == 0 || cmd == 0x17 || cmd == 0x18 || (0x20 <= cmd && cmd < 0x50) || cmd > 0x57
}

/// Commands whose first response waits behind a pending event instead of replacing it.
pub open spec fn keeps_pending(cmd: u8) -> bool {
    cmd == 0x01 || cmd == 0x02 || cmd == 0x0B || cmd == 0x0C || cmd == 0x0D || cmd == 0x0E
        || cmd == 0x0F || cmd == 0x10 || cmd == 0x11 || cmd == 0x13 || cmd == 0x14 || cmd == 0x19
}

/// A pending INT5 with result `[b0, b1]` after the usual first-response delay.
pub open spec fn is_int5_event(p: Option<Pending>, b0: u8, b1: u8) -> bool {
    &&& p matches Some(q)
    &&& q.cycles == 0xC4E1
    &&& q.second is None
    &&& q.what matches PendingWhat::Irq { irq, result }
    &&& irq == 5
    &&& result@ == seq![b0, b1]
}

/// The response `(delay, irq, bytes)` is what a command left to come: as the waiting
/// response when the pending event is kept (`keep`), else as the pending event.
pub open spec fn response_scheduled(n: &Cdrom, keep: bool, delay: u32, irqn: u8, bytes: Seq<u8>) -> bool {
    if keep {
        n.cmd_delay matches Some(d) && d.0 == delay && d.1 == irqn && d.2@ == bytes
    } else {
        &&& n.pending matches Some(q)
        &&& q.cycles == delay
        &&& q.what matches PendingWhat::Irq { irq, result }
        &&& irq == irqn
        &&& result@ == bytes
    }
}

/// What a command byte written from `o` leaves in `n`: with an INT unacknowledged the
/// command is held with its parameters (a second Init while INT2 of Init is up is
/// dropped); otherwise it runs, and Getstat and 1Fh schedule their responses.
pub open spec fn command_done(o: &Cdrom, n: &Cdrom, cmd: u8) -> bool {
    &&& n.last_cmd == cmd
    &&& n.irq_flag == o.irq_flag
    &&& o.irq_flag & 7 != 0 && cmd == 0x0A && o.irq_flag & 7 == 2 && o.last_executed == 0x0A
        ==> n.param@.len() == 0 && n.held_cmd == o.held_cmd && n.pending == o.pending
    &&& o.irq_flag & 7 != 0 && !(cmd == 0x0A && o.irq_flag & 7 == 2 && o.last_executed == 0x0A)
        ==> n.held_cmd == Some(cmd) && n.held_param@ == o.param@ && n.param@.len() == 0
        && n.pending == o.pending && n.last_executed == o.last_executed
    &&& o.irq_flag & 7 == 0 ==> {
        &&& n.last_executed == cmd
        &&& unused_command(cmd) ==> is_int5_event(n.pending, 0x11, 0x40)
        &&& cmd != 0x1F ==> n.param@.len() == 0
        &&& cmd == 0x1F ==> n.param@ == o.param@ && response_scheduled(n, false, 0xC4E1, 5, seq![0x11u8, 0x40u8])
        &&& cmd == 0x01 && o.param.len() > 0 ==> response_scheduled(
            n,
            false,
            0xC4E1,
            5,
            seq![o.controller_stat_spec() | 1, 0x20u8],
        )
        &&& cmd == 0x01 && o.param.len() == 0 ==> response_scheduled(
            n,
            o.pending is Some,
            0xC4E1,
            3,
            seq![o.controller_stat_spec()],
        )
    }
}

/// What every command handler keeps: the invariant, the interrupt flags, the last
/// executed command and the parameter FIFO.
pub open spec fn handler_frame(before: &Cdrom, after: &Cdrom) -> bool {
    &&& after.wf()
    &&& host(after) == host(before)
}

/// A command answer with a first response and positive delays.
pub open spec fn answered(a: Answer) -> bool {
    answer_ok(a) && a.0 is Some
}

/// Commands that leave a trace in the command log.
pub open spec fn logged_command(cmd: u8) -> bool {
    cmd == 0x02 || cmd == 0x06 || cmd == 0x09 || cmd == 0x15 || cmd == 0x16 || cmd == 0x1B
}

/// Whether a scheduled event belongs to the sector stream (INT1, seek-then-read, play).
pub open spec fn is_stream_event(w: PendingWhat) -> bool {
    match w {
        PendingWhat::Irq { irq, .. } => irq == 1,
        PendingWhat::SeekDone { then_read } => then_read,
        PendingWhat::PlayTick => true,
    }
}

/// Byte `k` the data FIFO hands out from its read position: the sector, then its
/// padding byte while loaded, else 0.
pub open spec fn fifo_byte(c: &Cdrom, k: int) -> u8 {
    if c.fifo_i + k < c.fifo.len() {
        c.fifo@[c.fifo_i + k]
    } else if c.fifo_loaded {
        c.pad_byte
    } else {
        0
    }
}

/// The status register as a read of 1F801800h leaves and returns it.
pub open spec fn status_read_spec(c: &Cdrom) -> u8 {
    let s0 = (c.status & 0xFC) | (c.index & 3);
    let s1 = if c.param.len() == 0 {
        s0 | 0x08
    } else {
        s0 & 0xF7
    };
    let s2 = s1 | 0x10;
    let s3 = if c.result_i < c.result.len() {
        s2 | 0x20
    } else {
        s2
    };
    if c.fifo_i < c.fifo.len() {
        s3 | 0x40
    } else {
        s3 & 0xBF
    }
}

/// What a byte read of port `addr & 3` returns.
pub open spec fn read8_spec(c: &Cdrom, addr: u32) -> u8 {
    if addr & 3 == 0 {
        status_read_spec(c)
    } else if addr & 3 == 1 {
        if c.result_i < c.result.len() {
            c.result@[c.result_i as int]
        } else {
            0
        }
    } else if addr & 3 == 2 {
        fifo_byte(c, 0)
    } else if c.index & 1 == 0 {
        c.irq_enable | 0xE0
    } else {
        c.irq_flag | 0xE0
    }
}

/// The command-history ring as oldest-to-newest, unused slots FFh.
pub open spec fn recent_slot(recent: [u8; 16], n: u8, i: int) -> u8 {
    let count = if n > 16 {
        16
    } else {
        n as int
    };
    let start = if n > 16 {
        n as int % 16
    } else {
        0
    };
    if i < count {
        recent@[(start + i) % 16]
    } else {
        0xFF
    }
}

/// Bytes `p` begins with `pat`.
pub open spec fn starts_with(p: Seq<u8>, pat: Seq<u8>) -> bool {
    pat.len() <= p.len() && p.subrange(0, pat.len() as int) == pat
}

fn starts_with_exec(p: &Vec<u8>, pat: &Vec<u8>) -> (r: bool)
    ensures
        r == starts_with(p@, pat@),
{
    if pat.len() > p.len() {
        return false;
    }
    let mut i: usize = 0;
    while i < pat.len()
        invariant
            i <= pat.len() <= p.len(),
            forall|k: int| 0 <= k < i ==> p@[k] == pat@[k],
        decreases pat.len() - i,
    {
        if p[i] != pat[i] {
            proof {
                if starts_with(p@, pat@) {
                    assert(p@.subrange(0, pat.len() as int)[i as int] == p@[i as int]);
                }
            }
            return false;
        }
        i += 1;
    }
    assert(p@.subrange(0, pat.len() as int) =~= pat@);
    true
}

/// The raw sector at the read head, if the disc image holds all of it.
pub open spec fn head_sector(c: &Cdrom) -> Option<Seq<u8>> {
    match c.disc {
        Some(d) => if (c.lba + 1) * crate::disc::SECTOR_LEN <= d.data.len() {
            Some(d.data@.subrange(c.lba * crate::disc::SECTOR_LEN, (c.lba + 1) * crate::disc::SECTOR_LEN))
        } else {
            None
        },
        None => None,
    }
}

/// The part of a raw sector handed out in a drive mode: the whole sector after the sync
/// field with mode bit 5 (sector size 924h), else the 800h data bytes.
pub open spec fn sector_payload(raw: Seq<u8>, mode: u8) -> Seq<u8> {
    if mode & 0x20 != 0 {
        raw.subrange(12, 0x930)
    } else {
        raw.subrange(24, 0x818)
    }
}

/// A sector handed out with mode bit 5 (924h bytes) is the raw sector after its
/// 12-byte sync field: it starts with the 4-byte header and the subheader the drive
/// latches; without it, the 800h user-data bytes from byte 24 on. Either way it
/// ends inside the 930h-byte raw sector.
pub proof fn law_sector_payload_after_sync(raw: Seq<u8>, mode: u8)
    requires
        raw.len() == 0x930,
    ensures
        mode & 0x20 != 0 ==> {
            &&& sector_payload(raw, mode).len() == 0x924
            &&& sector_payload(raw, mode).subrange(0, 8) == raw.subrange(12, 20)
            &&& forall|k: int| 0 <= k < 0x924 ==> #[trigger] sector_payload(raw, mode)[k] == raw[k + 12]
        },
        mode & 0x20 == 0 ==> {
            &&& sector_payload(raw, mode).len() == 0x800
            &&& forall|k: int| 0 <= k < 0x800 ==> #[trigger] sector_payload(raw, mode)[k] == raw[k + 24]
        },
{
    if mode & 0x20 != 0 {
        assert(sector_payload(raw, mode).subrange(0, 8) =~= raw.subrange(12, 20));
    }
}

/// The read head is inside the disc image's sector count.
pub open spec fn head_readable(c: &Cdrom) -> bool {
    c.disc matches Some(d) && c.lba < (d.data.len() / crate::disc::SECTOR_LEN) as u32
}

/// The sector at the head is unreadable: its mode byte is FFh.
pub open spec fn sector_bad_spec(c: &Cdrom) -> bool {
    match head_sector(c) {
        Some(raw) => raw[15] == 0xFF,
        None => false,
    }
}

/// Whether the last of the first `i` tracks that starts at or before `lba` is audio.
pub open spec fn audio_at(tracks: Seq<Track>, i: int, lba: u32) -> bool
    decreases i,
{
    if i <= 0 {
        false
    } else if tracks[i - 1].start_lba <= lba {
        tracks[i - 1].audio
    } else {
        audio_at(tracks, i - 1, lba)
    }
}

/// The head is inside an audio track.
pub open spec fn audio_here_spec(c: &Cdrom) -> bool {
    match c.disc {
        Some(d) => audio_at(d.tracks@, d.tracks@.len() as int, c.lba),
        None => false,
    }
}

/// The CD-DA mixer output for a (left, right) sample.
pub open spec fn vol_spec(c: &Cdrom, l: i16, r: i16) -> (int, int) {
    (
        crate::xa::mix_spec(l, c.vol_applied[0], r, c.vol_applied[3]),
        crate::xa::mix_spec(l, c.vol_applied[1], r, c.vol_applied[2]),
    )
}

/// The first CD-DA sample of the sector at the head through the mixer; silence when
/// muted, off an audio track or past the image.
pub open spec fn cdda_spec(c: &Cdrom) -> (int, int) {
    if c.muted || !audio_here_spec(c) {
        (0, 0)
    } else {
        match head_sector(c) {
            Some(raw) => vol_spec(
                c,
                crate::xa::le_i16(raw[0], raw[1]) as i16,
                crate::xa::le_i16(raw[2], raw[3]) as i16,
            ),
            None => (0, 0),
        }
    }
}

/// The sector at the head is a real-time XA audio sector for the SPU: XA-ADPCM on in
/// the mode, a MODE2 sector with the audio and real-time submode bits, and (with the
/// filter on) the filter's file and channel.
pub open spec fn xa_to_spu_spec(c: &Cdrom) -> bool {
    &&& c.mode & 0x40 != 0
    &&& match head_sector(c) {
        Some(raw) => raw[15] == 2 && raw[18] & 0x44 == 0x44 && (c.mode & 8 != 0 ==> raw[16]
            == c.filter_file && raw[17] == c.filter_channel),
        None => false,
    }
}

/// The first XA sample of the sector at the head through the mixer; silence when muted
/// or past the image.
pub open spec fn xa_sample_spec(c: &Cdrom) -> (int, int) {
    if c.muted {
        (0, 0)
    } else {
        match head_sector(c) {
            Some(raw) => {
                let d = crate::xa::decode_xa_spec(raw.subrange(24, raw.len() as int), raw[19]);
                vol_spec(c, d.0 as i16, d.1 as i16)
            },
            None => (0, 0),
        }
    }
}

/// The text each unlock step 50h..56h must start with.
pub open spec fn secret_text_spec(idx: int) -> Seq<u8> {
    if idx == 1 {
        seq![0x4Cu8, 0x69, 0x63, 0x65, 0x6E, 0x73, 0x65, 0x64, 0x20, 0x62, 0x79]
    } else if idx == 2 {
        seq![0x53u8, 0x6F, 0x6E, 0x79]
    } else if idx == 3 {
        seq![0x43u8, 0x6F, 0x6D, 0x70, 0x75, 0x74, 0x65, 0x72]
    } else if idx == 4 {
        seq![0x45u8, 0x6E, 0x74, 0x65, 0x72, 0x74, 0x61, 0x69, 0x6E, 0x6D, 0x65, 0x6E, 0x74]
    } else if idx == 5 {
        seq![0x6Fu8, 0x66, 0x20, 0x41, 0x6D, 0x65, 0x72, 0x69, 0x63, 0x61]
    } else {
        Seq::empty()
    }
}

/// The text each unlock step 50h..56h must start with.
fn secret_text(idx: usize) -> (t: Vec<u8>)
    requires
        idx < 7,
    ensures
        t@ == secret_text_spec(idx as int),
{
    if idx == 1 {
        vec![0x4C, 0x69, 0x63, 0x65, 0x6E, 0x73, 0x65, 0x64, 0x20, 0x62, 0x79]
    } else if idx == 2 {
        vec![0x53, 0x6F, 0x6E, 0x79]
    } else if idx == 3 {
        vec![0x43, 0x6F, 0x6D, 0x70, 0x75, 0x74, 0x65, 0x72]
    } else if idx == 4 {
        vec![0x45, 0x6E, 0x74, 0x65, 0x72, 0x74, 0x61, 0x69, 0x6E, 0x6D, 0x65, 0x6E, 0x74]
    } else if idx == 5 {
        vec![0x6F, 0x66, 0x20, 0x41, 0x6D, 0x65, 0x72, 0x69, 0x63, 0x61]
    } else {
        Vec::new()
    }
}

/// `lba` moved by `d` sectors, held inside the u32 range.
pub open spec fn add_signed_sat(lba: u32, d: i32) -> u32 {
    if lba + d < 0 {
        0
    } else if lba + d > u32::MAX {
        u32::MAX
    } else {
        (lba + d) as u32
    }
}

fn add_signed(lba: u32, d: i32) -> (r: u32)
    ensures
        r == add_signed_sat(lba, d),
{
    let x: i64 = lba as i64 + d as i64;
    if x < 0 {
        0
    } else if x > 0xFFFF_FFFF {
        0xFFFF_FFFF
    } else {
        x as u32
    }
}

fn ok_answer(stat: u8) -> (a: Answer)
    ensures
        answer_ok(a),
        a.0 matches Some(f) && f.0 == 0xC4E1 && f.1 == 3 && f.2@ == seq![stat],
        a.1 is None,
{
    (Some((0xC4E1, 3, vec![stat])), None)
}

fn int5(b0: u8, b1: u8) -> (a: Answer)
    ensures
        answer_ok(a),
        int5_answer(a, b0, b1),
{
    (Some((0xC4E1, 5, vec![b0, b1])), None)
}

fn int2_after(stat: u8, first_delay: u32, delay: u32) -> (a: Answer)
    requires
        first_delay > 0,
        delay > 0,
    ensures
        answered(a),
{
    (Some((first_delay, 3, vec![stat])), Some((delay, PendingWhat::Irq { irq: 2, result: vec![stat] })))
}

impl Cdrom {
    fn push_or_deliver(&mut self, irqn: u8, result: Vec<u8>, irq: &mut Irq)
        requires
            old(self).sound(),
            old(self).delay_ok(),
        ensures
            kept(old(self), final(self)),
            final(self).delay_ok(),
            old(self).irq_flag & 7 != 0 ==> final(self).queue@ == old(self).queue@.push(
                (irqn, result),
            ) && final(self).irq_flag == old(self).irq_flag && final(self).result
                == old(self).result && *final(irq) == *old(irq),
            old(self).irq_flag & 7 == 0 ==> final(self).irq_flag & 7 == irqn & 7
                && final(self).result@ == result@,
            irqn != 1 ==> final(self).pending == old(self).pending && final(self).cmd_delay == old(
                self,
            ).cmd_delay,
            final(self).index == old(self).index,
            final(self).irq_enable == old(self).irq_enable,
            final(self).last_cmd == old(self).last_cmd,
            final(self).last_executed == old(self).last_executed,
            final(self).param@ == old(self).param@,
            final(self).shell_open == old(self).shell_open,
            final(self).playing == old(self).playing,
            final(irq).mask == old(irq).mask,
            !old(self).reading ==> !final(self).reading,
    {
        if self.irq_flag & 7 != 0 {
            self.queue.push_back((irqn, result));
        } else {
            self.deliver(irqn, result, irq);
        }
    }

    fn deliver(&mut self, irqn: u8, result: Vec<u8>, irq: &mut Irq)
        requires
            old(self).sound(),
            old(self).delay_ok(),
        ensures
            kept(old(self), final(self)),
            final(self).delay_ok(),
            final(self).irq_flag & 7 == irqn & 7,
            final(self).result@ == result@,
            final(self).result_i == 0,
            irqn != 1 ==> final(self).pending == old(self).pending && final(self).cmd_delay == old(
                self,
            ).cmd_delay,
            final(self).index == old(self).index,
            final(self).irq_enable == old(self).irq_enable,
            final(self).last_cmd == old(self).last_cmd,
            final(self).last_executed == old(self).last_executed,
            final(self).param@ == old(self).param@,
            final(self).shell_open == old(self).shell_open,
            final(self).playing == old(self).playing,
            final(irq).mask == old(irq).mask,
            !old(self).reading ==> !final(self).reading,
    {
        self.result = result;
        self.result_i = 0;
        let f0 = self.irq_flag;
        self.irq_flag = (f0 & 0xF8) | (irqn & 7);
        assert(((f0 & 0xF8) | (irqn & 7)) & 7 == irqn & 7) by (bit_vector);
        if self.smen && irqn == 3 {
            let f = self.irq_flag;
            self.irq_flag = f | 0x10;
            assert((f | 0x10) & 7 == f & 7) by (bit_vector);
            self.smen = false;
        }
        if irqn == 5 && self.session_fail > 0 {
            self.session_fail = self.session_fail - 1;
            if self.session_fail > 0 {
                self.queue.push_back((5, vec![0x06, 0x40]));
            }
        }
        self.status = (self.status | 0x20) & 0x7F;
        if irqn == 1 && !self.playing {
            match self.sector_buf.pop_front() {
                Some((sec_lba, data)) => {
                    self.last_lba = sec_lba;
                    self.data_sector = data;
                    self.sync_pad_byte();
                },
                None => {
                    self.capture_data_sector();
                },
            }
            if self.want_data {
                self.load_data_fifo();
            }
            self.arm_next_int1();
        }
        self.update_irq_line(irq);
    }

    fn pop_queue(&mut self, irq: &mut Irq)
        requires
            old(self).wf(),
        ensures
            final(self).wf(),
            final(irq).mask == old(irq).mask,
            final(self).index == old(self).index,
            old(self).queue@.len() == 0 ==> *final(self) == *old(self) && *final(irq) == *old(irq),
            old(self).queue@.len() > 0 ==> {
                &&& final(self).irq_flag & 7 == old(self).queue@[0].0 & 7
                &&& final(self).result@ == old(self).queue@[0].1@
                &&& final(self).result_i == 0
            },
    {
        if self.queue.len() == 0 {
            return;
        }
        match self.queue.pop_front() {
            Some((irqn, result)) => {
                self.deliver(irqn, result, irq);
            },
            None => {},
        }
    }

    fn sync_pad_byte(&mut self)
        requires
            old(self).sound(),
        ensures
            still(old(self), final(self)),
            final(self).pending == old(self).pending,
            final(self).cmd_delay == old(self).cmd_delay,
            final(self).fifo == old(self).fifo,
            final(self).fifo_i == old(self).fifo_i,
            final(self).data_sector == old(self).data_sector,
            final(self).irq_flag == old(self).irq_flag,
            host(final(self)) == host(old(self)),
            final(self).fifo@ == old(self).fifo@ && final(self).fifo_i == old(self).fifo_i && final(self).fifo_loaded == old(self).fifo_loaded,
            drive(final(self)) == drive(old(self)),
            final(self).pad_byte == ({
                let pad_i: int = if old(self).mode & 0x20 != 0 {
                    0x924 - 4
                } else {
                    0x800 - 8
                };
                if pad_i < old(self).data_sector@.len() {
                    old(self).data_sector@[pad_i]
                } else {
                    0
                }
            }),
    {
        let pad_i: usize = if self.mode & 0x20 != 0 {
            0x924 - 4
        } else {
            0x800 - 8
        };
        self.pad_byte = if pad_i < self.data_sector.len() {
            self.data_sector[pad_i]
        } else {
            0
        };
    }

    /// The sector at the read head, cut to the mode's payload; the head moves on.
    fn take_disc_sector(&mut self) -> (r: Option<(u32, Vec<u8>)>)
        requires
            old(self).sound(),
        ensures
            still(old(self), final(self)),
            final(self).pending == old(self).pending,
            final(self).cmd_delay == old(self).cmd_delay,
            final(self).fifo == old(self).fifo,
            final(self).fifo_i == old(self).fifo_i,
            final(self).irq_flag == old(self).irq_flag,
            final(self).data_sector == old(self).data_sector,
            host(final(self)) == host(old(self)),
            final(self).fifo@ == old(self).fifo@ && final(self).fifo_i == old(self).fifo_i && final(self).fifo_loaded == old(self).fifo_loaded,
            final(self).playing == old(self).playing,
            final(self).reading == (old(self).reading && !(old(self).disc is Some
                && !head_readable(old(self)))),
            final(self).last_lba == old(self).last_lba,
            final(self).sector_buf == old(self).sector_buf,
            final(self).mode == old(self).mode,
            !head_readable(old(self)) ==> r is None && final(self).lba == old(self).lba,
            head_readable(old(self)) ==> {
                let raw = head_sector(old(self))->0;
                &&& head_sector(old(self)) is Some
                &&& r matches Some(p) && p.0 == old(self).lba && p.1@ == sector_payload(
                    raw,
                    old(self).mode,
                )
                &&& final(self).lba == old(self).lba + 1
                &&& final(self).header@ == raw.subrange(12, 20)
                &&& final(self).header_valid
                &&& old(self).mode & 0x20 != 0 ==> (r matches Some(p) && p.1@.len() == 0x924
                    && p.1@.subrange(0, 8) == final(self).header@)
            },
    {
        let count = match &self.disc {
            Some(d) => d.sector_count(),
            None => {
                return None;
            },
        };
        proof {
            let len: int = self.disc->0.data.len() as int;
            let sl = crate::disc::SECTOR_LEN as int;
            let q = len / sl;
            assert(q * sl <= len) by (nonlinear_arith)
                requires
                    q == len / sl,
                    sl > 0,
                    len >= 0,
            ;
            assert(count <= q);
            assert(self.lba < count ==> (self.lba + 1) * sl <= q * sl) by (nonlinear_arith)
                requires
                    count <= q,
                    sl > 0,
            ;
        }
        if self.lba >= count {
            self.reading = false;
            return None;
        }
        let lba = self.lba;
        let mode = self.mode;
        let (header, data) = match &self.disc {
            Some(d) => match d.sector(lba) {
                Some(raw) => {
                    let mut header: [u8; 8] = [0; 8];
                    let mut k: usize = 0;
                    while k < 8
                        invariant
                            k <= 8,
                            raw@.len() == crate::disc::SECTOR_LEN,
                            forall|j: int| 0 <= j < k ==> header@[j] == raw@[12 + j],
                        decreases 8 - k,
                    {
                        header[k] = raw[12 + k];
                        k += 1;
                    }
                    let (start, len): (usize, usize) = if mode & 0x20 != 0 {
                        (12, 0x924)
                    } else {
                        (24, 0x800)
                    };
                    let end = if start + len < raw.len() {
                        start + len
                    } else {
                        raw.len()
                    };
                    let data = vstd::slice::slice_to_vec(vstd::slice::slice_subrange(raw, start, end));
                    (header, data)
                },
                None => {
                    return None;
                },
            },
            None => {
                return None;
            },
        };
        self.header = header;
        self.header_valid = true;
        self.lba = self.lba + 1;
        assert(header@ =~= head_sector(old(self))->0.subrange(12, 20));
        proof {
            law_sector_payload_after_sync(head_sector(old(self))->0, mode);
        }
        Some((lba, data))
    }

    fn capture_data_sector(&mut self)
        requires
            old(self).sound(),
        ensures
            still(old(self), final(self)),
            final(self).pending == old(self).pending,
            final(self).cmd_delay == old(self).cmd_delay,
            final(self).fifo == old(self).fifo,
            final(self).fifo_i == old(self).fifo_i,
            final(self).irq_flag == old(self).irq_flag,
            host(final(self)) == host(old(self)),
            final(self).fifo@ == old(self).fifo@ && final(self).fifo_i == old(self).fifo_i && final(self).fifo_loaded == old(self).fifo_loaded,
            final(self).playing == old(self).playing,
            !old(self).reading ==> !final(self).reading,
            !head_readable(old(self)) ==> final(self).data_sector@.len() == 0
                && final(self).lba == old(self).lba,
            head_readable(old(self)) ==> {
                let raw = head_sector(old(self))->0;
                &&& head_sector(old(self)) is Some
                &&& final(self).data_sector@ == sector_payload(raw, old(self).mode)
                &&& final(self).last_lba == old(self).lba
                &&& final(self).lba == old(self).lba + 1
            },
    {
        match self.take_disc_sector() {
            Some((sec_lba, data)) => {
                self.last_lba = sec_lba;
                self.data_sector = data;
                self.sync_pad_byte();
            },
            None => {
                self.data_sector.clear();
            },
        }
    }

    fn extra_capture(&mut self)
        requires
            old(self).sound(),
        ensures
            still(old(self), final(self)),
            final(self).pending == old(self).pending,
            final(self).irq_flag == old(self).irq_flag,
            host(final(self)) == host(old(self)),
            final(self).fifo@ == old(self).fifo@ && final(self).fifo_i == old(self).fifo_i && final(self).fifo_loaded == old(self).fifo_loaded,
            final(self).playing == old(self).playing,
            !head_readable(old(self)) ==> final(self).sector_buf@ == old(self).sector_buf@
                && final(self).lba == old(self).lba,
            head_readable(old(self)) ==> {
                let raw = head_sector(old(self))->0;
                let n = old(self).sector_buf@.len() as int;
                &&& head_sector(old(self)) is Some
                &&& final(self).sector_buf@.len() == n + 1
                &&& final(self).sector_buf@.subrange(0, n) == old(self).sector_buf@
                &&& final(self).sector_buf@[n].0 == old(self).lba
                &&& final(self).sector_buf@[n].1@ == sector_payload(raw, old(self).mode)
                &&& final(self).lba == old(self).lba + 1
            },
    {
        match self.take_disc_sector() {
            Some(pair) => {
                self.sector_buf.push_back(pair);
            },
            None => {},
        }
    }

    fn capture_header(&mut self)
        requires
            old(self).sound(),
        ensures
            still(old(self), final(self)),
            final(self).pending == old(self).pending,
            final(self).cmd_delay == old(self).cmd_delay,
            final(self).irq_flag == old(self).irq_flag,
            host(final(self)) == host(old(self)),
            final(self).fifo@ == old(self).fifo@ && final(self).fifo_i == old(self).fifo_i && final(self).fifo_loaded == old(self).fifo_loaded,
            final(self).playing == old(self).playing,
            head_sector(old(self)) is None ==> *final(self) == *old(self),
            head_sector(old(self)) matches Some(raw) ==> {
                &&& final(self).header@ == raw.subrange(12, 20)
                &&& final(self).header_valid
                &&& final(self).last_lba == old(self).lba
                &&& final(self).lba == old(self).lba
            },
    {
        let lba = self.lba;
        let header = match &self.disc {
            Some(d) => match d.sector(lba) {
                Some(raw) => {
                    let mut header: [u8; 8] = [0; 8];
                    let mut k: usize = 0;
                    while k < 8
                        invariant
                            k <= 8,
                            raw@.len() == crate::disc::SECTOR_LEN,
                            forall|j: int| 0 <= j < k ==> header@[j] == raw@[12 + j],
                        decreases 8 - k,
                    {
                        header[k] = raw[12 + k];
                        k += 1;
                    }
                    header
                },
                None => {
                    return ;
                },
            },
            None => {
                return ;
            },
        };
        self.header = header;
        self.header_valid = true;
        self.last_lba = self.lba;
        assert(header@ =~= head_sector(old(self))->0.subrange(12, 20));
    }

    /// One byte from the data FIFO; draining the last sector byte arms the next sector.
    pub fn pop_fifo(&mut self) -> (b: u8)
        requires
            old(self).wf(),
        ensures
            final(self).wf(),
            b == fifo_byte(old(self), 0),
            final(self).fifo@ == old(self).fifo@,
            final(self).fifo_loaded == old(self).fifo_loaded,
            final(self).pad_byte == old(self).pad_byte,
            final(self).fifo_i == (if old(self).fifo_i < old(self).fifo.len() {
                old(self).fifo_i + 1
            } else {
                old(self).fifo_i as int
            }),
            forall|k: int| k >= 0 ==> #[trigger] fifo_byte(final(self), k) == fifo_byte(old(self), k + 1),
            final(self).irq_flag == old(self).irq_flag,
            host(final(self)) == host(old(self)),
            final(self).playing == old(self).playing,
    {
        if self.fifo_i < self.fifo.len() {
            let b = self.fifo[self.fifo_i];
            self.fifo_i = self.fifo_i + 1;
            if self.fifo_i >= self.fifo.len() {
                self.status = self.status & 0xBF;
                if self.reading && !self.playing {
                    if self.sector_buf.len() == 0 {
                        let c = self.sector_cycles();
                        let st = self.controller_stat();
                        self.pending = Some(
                            Pending {
                                cycles: c,
                                what: PendingWhat::Irq { irq: 1, result: vec![st] },
                                second: None,
                            },
                        );
                    } else if self.pending.is_none() {
                        self.arm_next_int1();
                    }
                }
            }
            b
        } else if self.fifo_loaded {
            self.pad_byte
        } else {
            0
        }
    }

    pub fn read8(&mut self, addr: u32) -> (b: u8)
        requires
            old(self).wf(),
        ensures
            final(self).wf(),
            b == read8_spec(old(self), addr),
            addr & 3 == 0 ==> final(self).status == status_read_spec(old(self)),
            final(self).irq_flag == old(self).irq_flag,
            final(self).irq_enable == old(self).irq_enable,
            final(self).index == old(self).index,
            addr & 3 == 1 ==> final(self).result_i == (if old(self).result_i < old(self).result.len() {
                old(self).result_i + 1
            } else {
                old(self).result_i as int
            }) && final(self).result@ == old(self).result@,
            addr & 3 == 2 ==> final(self).fifo_i == (if old(self).fifo_i < old(self).fifo.len() {
                old(self).fifo_i + 1
            } else {
                old(self).fifo_i as int
            }) && final(self).fifo@ == old(self).fifo@,
    {
        let port = addr & 3;
        if port == 0 {
            let mut s = (self.status & 0xFC) | (self.index & 3);
            if self.param.len() == 0 {
                s = s | 0x08;
            } else {
                s = s & 0xF7;
            }
            s = s | 0x10;
            if self.result_i < self.result.len() {
                s = s | 0x20;
            }
            if self.fifo_i < self.fifo.len() {
                s = s | 0x40;
            } else {
                s = s & 0xBF;
            }
            self.status = s;
            s
        } else if port == 1 {
            if self.result_i < self.result.len() {
                let b = self.result[self.result_i];
                self.result_i = self.result_i + 1;
                if self.result_i >= self.result.len() {
                    self.status = self.status & 0xDF;
                }
                b
            } else {
                0
            }
        } else if port == 2 {
            self.pop_fifo()
        } else if self.index & 1 == 0 {
            self.irq_enable | 0xE0
        } else {
            self.irq_flag | 0xE0
        }
    }

    #[verifier::rlimit(100)]
    pub fn write8(&mut self, addr: u32, value: u8, irq: &mut Irq)
        requires
            old(self).wf(),
        ensures
            final(self).wf(),
            final(irq).mask == old(irq).mask,
            addr & 3 == 0 ==> final(self).index == value & 3,
            addr & 3 == 1 && old(self).index & 3 == 0 ==> command_done(old(self), final(self), value)
                && *final(irq) == *old(irq),
            addr & 3 == 2 && old(self).index & 3 == 0 ==> final(self).param@ == (if old(self).param.len() < 16 {
                old(self).param@.push(value)
            } else {
                old(self).param@
            }),
            addr & 3 == 2 && old(self).index & 3 == 1 ==> final(self).irq_enable == value & 0x1F,
            addr & 3 == 2 && old(self).index & 3 == 2 ==> final(self).vol[0] == value,
            addr & 3 == 3 && old(self).index & 3 == 2 ==> final(self).vol[1] == value,
            addr & 3 == 1 && old(self).index & 3 == 3 ==> final(self).vol[2] == value,
            addr & 3 == 2 && old(self).index & 3 == 3 ==> final(self).vol[3] == value,
            addr & 3 == 3 && old(self).index & 3 == 3 && value & 0x20 != 0 ==> final(self).vol_applied == old(self).vol,
            addr & 3 == 3 && old(self).index & 3 == 1 && (old(self).irq_flag & !(value & 0x1F))
                & 7 != 0 ==> final(self).irq_flag == old(self).irq_flag & !(value & 0x1F),
    {
        let port = addr & 3;
        let idx = self.index & 3;
        if port == 0 {
            self.index = value & 3;
        } else if port == 1 && idx == 0 {
            self.command(value, irq);
        } else if port == 1 && idx == 1 {
            if self.sound_map.len() < 0x900 {
                self.sound_map.push(value);
                if self.sound_map.len() == 0x900 {
                    let (l, r) = decode_xa(self.sound_map.as_slice(), self.sound_map_coding);
                    self.analog = self.apply_vol(l, r);
                }
            }
        } else if port == 1 && idx == 2 {
            self.sound_map_coding = value;
        } else if port == 2 && idx == 0 {
            if self.param.len() < 16 {
                self.param.push(value);
            }
        } else if port == 2 && idx == 2 {
            self.vol[0] = value;
        } else if port == 3 && idx == 2 {
            self.vol[1] = value;
        } else if port == 1 && idx == 3 {
            self.vol[2] = value;
        } else if port == 2 && idx == 3 {
            self.vol[3] = value;
        } else if port == 2 && idx == 1 {
            self.irq_enable = value & 0x1F;
            self.update_irq_line(irq);
        } else if port == 3 && idx == 0 {
            if value & 0x20 != 0 {
                self.smen = true;
            }
            self.want_data = value & 0x80 != 0;
            if self.want_data {
                self.load_data_fifo();
            } else {
                self.fifo.clear();
                self.fifo_i = 0;
                self.fifo_loaded = false;
                self.status = self.status & 0xBF;
            }
        } else if port == 3 && idx == 3 {
            if value & 0x20 != 0 {
                self.vol_applied = self.vol;
            }
        } else if port == 3 && idx == 1 {
            self.acknowledge(value, irq);
        }
    }

    /// HCLRCTL: clear the written interrupt flag bits; once no INT is left, run the
    /// sitting command or deliver the next queued response.
    #[verifier::rlimit(100)]
    fn acknowledge(&mut self, value: u8, irq: &mut Irq)
        requires
            old(self).wf(),
        ensures
            final(self).wf(),
            final(irq).mask == old(irq).mask,
            (old(self).irq_flag & !(value & 0x1F)) & 7 != 0 ==> final(self).irq_flag == old(
                self).irq_flag & !(value & 0x1F),
            final(self).index == old(self).index,
    {
        self.irq_flag = self.irq_flag & !(value & 0x1F);
        if value & 0x40 != 0 {
            self.param.clear();
        }
        if self.irq_flag & 7 == 0 {
            self.after_ack(irq);
        } else {
            self.update_irq_line(irq);
        }
    }

    /// No interrupt is left unacknowledged: clear the response, then run the sitting
    /// command or deliver the next queued response.
    #[verifier::rlimit(100)]
    fn after_ack(&mut self, irq: &mut Irq)
        requires
            old(self).wf(),
        ensures
            final(self).wf(),
            final(irq).mask == old(irq).mask,
            final(self).index == old(self).index,
            old(self).held_cmd matches Some(cmd) ==> {
                &&& final(self).last_executed == cmd
                &&& final(self).irq_flag == old(self).irq_flag
                &&& cmd == 0x0E && old(self).held_param@.len() > 0 ==> final(self).mode == old(
                    self,
                ).held_param@[0]
                &&& cmd == 0x02 && old(self).held_param@.len() >= 3 ==> final(self).loc == (
                    old(self).held_param@[0],
                    old(self).held_param@[1],
                    old(self).held_param@[2],
                )
            },
            old(self).held_cmd is None && old(self).queue@.len() == 0 ==> {
                &&& final(self).result@.len() == 0
                &&& final(self).result_i == 0
                &&& final(self).irq_flag == old(self).irq_flag
            },
            old(self).held_cmd is None && old(self).queue@.len() > 0 ==> {
                &&& final(self).irq_flag & 7 == old(self).queue@[0].0 & 7
                &&& final(self).result@ == old(self).queue@[0].1@
                &&& final(self).result_i == 0
            },
    {
        self.result.clear();
        self.result_i = 0;
        self.update_irq_line(irq);
        match self.held_cmd.take() {
            Some(cmd) => {
                let mut held = Vec::new();
                std::mem::swap(&mut held, &mut self.held_param);
                self.param = held;
                self.execute(cmd);
            },
            None => {
                self.pop_queue(irq);
            },
        }
    }

    fn loc_lba_now(&self) -> (r: u32)
        ensures
            r == msf_to_lba_spec(self.loc.0, self.loc.1, self.loc.2),
    {
        msf_to_lba(self.loc.0, self.loc.1, self.loc.2)
    }

    fn log_cmd(&mut self, cmd: u8, held: bool)
        requires
            old(self).sound(),
        ensures
            still(old(self), final(self)),
            logged_command(cmd) ==> final(self).cmd_events@.last() == (CdCmdEvent {
                cmd,
                loc_lba: msf_to_lba_spec(old(self).loc.0, old(self).loc.1, old(self).loc.2) as u32,
                lba: old(self).lba,
                setloc_pending: old(self).setloc_pending,
                reading: old(self).reading,
                held,
            }),
            !logged_command(cmd) ==> final(self).cmd_events == old(self).cmd_events,
            final(self).pending == old(self).pending,
            final(self).cmd_delay == old(self).cmd_delay,
            final(self).irq_flag == old(self).irq_flag,
            final(self).held_cmd == old(self).held_cmd,
            final(self).held_param == old(self).held_param,
            final(self).last_executed == old(self).last_executed,
            final(self).last_cmd == old(self).last_cmd,
            final(self).mode == old(self).mode,
            final(self).param == old(self).param,
            final(self).loc == old(self).loc,
            final(self).setloc_pending == old(self).setloc_pending,
    {
        if !(cmd == 0x02 || cmd == 0x06 || cmd == 0x09 || cmd == 0x15 || cmd == 0x16 || cmd
            == 0x1B) {
            return ;
        }
        if self.cmd_events.len() >= 64 {
            self.cmd_events.remove(0);
        }
        let ev = CdCmdEvent {
            cmd,
            loc_lba: self.loc_lba_now(),
            lba: self.lba,
            setloc_pending: self.setloc_pending,
            reading: self.reading,
            held,
        };
        self.cmd_events.push(ev);
    }

    /// The last 64 Setloc/ReadN/Pause/Seek commands, oldest first.
    pub fn cmd_events(&self) -> (r: &[CdCmdEvent])
        ensures
            r@ == self.cmd_events@,
    {
        self.cmd_events.as_slice()
    }

    /// A command byte written to 1F801801h.0. While an interrupt is unacknowledged
    /// the command sits (a later one replaces it) and runs on the acknowledge.
    #[verifier::rlimit(100)]
    pub fn command(&mut self, cmd: u8, irq: &mut Irq)
        requires
            old(self).wf(),
        ensures
            final(self).wf(),
            final(self).last_cmd == cmd,
            *final(irq) == *old(irq),
            command_done(old(self), final(self), cmd),
            old(self).irq_flag & 7 != 0 && cmd == 0x0A && old(self).irq_flag & 7 == 2 && old(self).last_executed == 0x0A ==> final(self).param@.len() == 0 && final(self).held_cmd
                == old(self).held_cmd && final(self).pending == old(self).pending
                && final(self).irq_flag == old(self).irq_flag,
            old(self).irq_flag & 7 != 0 && !(cmd == 0x0A && old(self).irq_flag & 7 == 2 && old(self).last_executed == 0x0A) ==> final(self).held_cmd == Some(cmd)
                && final(self).held_param@ == old(self).param@ && final(self).param@.len() == 0
                && final(self).pending == old(self).pending && final(self).irq_flag == old(self).irq_flag && final(self).last_executed == old(self).last_executed,
            old(self).irq_flag & 7 == 0 ==> final(self).last_executed == cmd && final(self).irq_flag == old(self).irq_flag,
            old(self).irq_flag & 7 == 0 && unused_command(cmd) ==> is_int5_event(
                final(self).pending,
                0x11,
                0x40,
            ),
    {
        self.last_cmd = cmd;
        let i = (self.recent_n as usize) % 16;
        self.recent[i] = cmd;
        self.recent_n = self.recent_n.saturating_add(1);
        if self.irq_flag & 7 != 0 {
            if cmd == 0x0A && self.irq_flag & 7 == 2 && self.last_executed == 0x0A {
                self.param.clear();
                return ;
            }
            if cmd == 0x02 && self.param.len() >= 3 {
                self.loc = (self.param[0], self.param[1], self.param[2]);
                self.setloc_pending = true;
            }
            self.log_cmd(cmd, true);
            self.held_cmd = Some(cmd);
            let mut p = Vec::new();
            std::mem::swap(&mut p, &mut self.param);
            self.held_param = p;
            return ;
        }
        self.execute(cmd);
        self.log_cmd(cmd, false);
    }

    fn execute(&mut self, cmd: u8)
        requires
            old(self).wf(),
        ensures
            final(self).wf(),
            final(self).last_executed == cmd,
            final(self).irq_flag == old(self).irq_flag,
            unused_command(cmd) ==> is_int5_event(final(self).pending, 0x11, 0x40),
            cmd == 0x0A ==> final(self).mode == 0x20,
            cmd == 0x0E && old(self).param.len() > 0 ==> final(self).mode == old(self).param@[0],
            cmd == 0x02 ==> final(self).setloc_pending,
            cmd == 0x02 && old(self).param.len() >= 3 ==> final(self).loc == (
                old(self).param@[0],
                old(self).param@[1],
                old(self).param@[2],
            ),
            cmd != 0x1F ==> final(self).param@.len() == 0,
            cmd == 0x1F ==> final(self).param@ == old(self).param@,
            cmd == 0x1F ==> response_scheduled(final(self), false, 0xC4E1, 5, seq![0x11u8, 0x40u8]),
            cmd == 0x01 && old(self).param.len() > 0 ==> response_scheduled(
                final(self),
                false,
                0xC4E1,
                5,
                seq![old(self).controller_stat_spec() | 1, 0x20u8],
            ),
            cmd == 0x01 && old(self).param.len() == 0 ==> response_scheduled(
                final(self),
                old(self).pending is Some,
                0xC4E1,
                3,
                seq![old(self).controller_stat_spec()],
            ),
            final(self).last_cmd == old(self).last_cmd,
            final(self).index == old(self).index,
            final(self).irq_enable == old(self).irq_enable,
    {
        self.last_executed = cmd;
        self.status = self.status | 0x80;
        let keep_pending = self.pending.is_some() && (cmd == 0x01 || cmd == 0x02 || cmd == 0x0B
            || cmd == 0x0C || cmd == 0x0D || cmd == 0x0E || cmd == 0x0F || cmd == 0x10 || cmd
            == 0x11 || cmd == 0x13 || cmd == 0x14 || cmd == 0x19);
        if cmd == 0x01 && self.param.len() > 0 {
            self.param.clear();
            let st = self.controller_stat();
            self.pending = Some(
                Pending {
                    cycles: 0xC4E1,
                    what: PendingWhat::Irq { irq: 5, result: vec![st | 1, 0x20] },
                    second: None,
                },
            );
            return ;
        }
        let (first, second) = self.answer(cmd);
        if cmd != 0x1F {
            self.param.clear();
        }
        match first {
            Some((cycles, irqn, result)) => {
                if keep_pending {
                    self.cmd_delay = Some((cycles, irqn, result));
                } else {
                    self.pending = Some(
                        Pending { cycles, what: PendingWhat::Irq { irq: irqn, result }, second },
                    );
                }
            },
            None => {},
        }
    }

    /// What command `cmd` answers, with its effect on the drive.
    #[verifier::rlimit(100)]
    fn answer(&mut self, cmd: u8) -> (a: Answer)
        requires
            old(self).wf(),
            !(cmd == 0x01 && old(self).param.len() > 0),
        ensures
            final(self).wf(),
            answer_ok(a),
            a.0 is Some,
            host(final(self)) == host(old(self)),
            unused_command(cmd) ==> int5_answer(a, 0x11, 0x40),
            cmd == 0x1F ==> int5_answer(a, 0x11, 0x40),
            cmd == 0x01 ==> (a.0 matches Some(f) && f.0 == 0xC4E1 && f.1 == 3 && f.2@ == seq![
                old(self).controller_stat_spec(),
            ]),
            cmd == 0x0A ==> final(self).mode == 0x20,
            cmd == 0x0E && old(self).param.len() > 0 ==> final(self).mode == old(self).param@[0],
            cmd == 0x02 ==> final(self).setloc_pending,
            cmd == 0x02 && old(self).param.len() >= 3 ==> final(self).loc == (
                old(self).param@[0],
                old(self).param@[1],
                old(self).param@[2],
            ),
    {
        if cmd <= 0x07 {
            self.answer_motion(cmd)
        } else if cmd <= 0x0F {
            self.answer_setup(cmd)
        } else {
            self.answer_rest(cmd)
        }
    }

    fn answer_motion(&mut self, cmd: u8) -> (a: Answer)
        requires
            old(self).wf(),
            cmd <= 0x07,
            !(cmd == 0x01 && old(self).param.len() > 0),
        ensures
            final(self).wf(),
            answered(a),
            host(final(self)) == host(old(self)),
            cmd == 0 ==> int5_answer(a, 0x11, 0x40),
            cmd == 0x01 ==> (a.0 matches Some(f) && f.0 == 0xC4E1 && f.1 == 3 && f.2@ == seq![
                old(self).controller_stat_spec(),
            ]),
            cmd == 0x02 ==> final(self).setloc_pending,
            cmd == 0x02 && old(self).param.len() >= 3 ==> final(self).loc == (
                old(self).param@[0],
                old(self).param@[1],
                old(self).param@[2],
            ),
    {
        if cmd == 0 {
            int5(0x11, 0x40)
        } else if cmd == 0x01 {
            ok_answer(self.controller_stat())
        } else if cmd == 0x02 {
            if self.param.len() >= 3 {
                self.loc = (self.param[0], self.param[1], self.param[2]);
            }
            self.setloc_pending = true;
            ok_answer(self.controller_stat())
        } else if cmd == 0x03 {
            self.play()
        } else if cmd == 0x04 {
            self.forward_back(true)
        } else if cmd == 0x05 {
            self.forward_back(false)
        } else if cmd == 0x06 {
            self.read_n(false)
        } else if cmd == 0x07 {
            if self.motor {
                int5(self.controller_stat() | 1, 0x20)
            } else {
                self.motor = true;
                let stat = self.controller_stat();
                int2_after(stat, 0xC4E1, 0xC4E1)
            }
        } else {
            int5(0x11, 0x40)
        }
    }

    /// Stop (08h), Pause (09h) and Init (0Ah): the drive halts, Init back to mode 20h
    /// with the motor on if a disc is in.
    #[verifier::rlimit(100)]
    fn answer_halt(&mut self, cmd: u8) -> (a: Answer)
        requires
            old(self).wf(),
            0x08 <= cmd <= 0x0A,
        ensures
            final(self).wf(),
            answered(a),
            host(final(self)) == host(old(self)),
            cmd == 0x0A ==> final(self).mode == 0x20,
    {
        if cmd == 0x08 {
            self.drop_int1();
            self.reading = false;
            self.seeking = false;
            self.playing = false;
            self.clear_sector_buf();
            self.skip = 0;
            self.motor = false;
            let stat = self.controller_stat();
            int2_after(stat, 0xC4E1, 0x00D3_8ACA)
        } else if cmd == 0x09 {
            self.drop_int1();
            self.reading = false;
            self.seeking = false;
            self.playing = false;
            self.clear_sector_buf();
            self.skip = 0;
            let stat = self.controller_stat();
            int2_after(stat, 0xC4E1, 0x0021_181C)
        } else {
            self.mode = 0x20;
            if self.disc.is_some() {
                self.motor = true;
            }
            self.drop_int1();
            self.reading = false;
            self.seeking = false;
            let stat = self.controller_stat();
            int2_after(stat, 0x13CCE, 0xC4E1)
        }
    }

    #[verifier::rlimit(100)]
    fn answer_setup(&mut self, cmd: u8) -> (a: Answer)
        requires
            old(self).wf(),
            0x08 <= cmd <= 0x0F,
        ensures
            final(self).wf(),
            answered(a),
            host(final(self)) == host(old(self)),
            cmd == 0x0A ==> final(self).mode == 0x20,
            cmd == 0x0E && old(self).param.len() > 0 ==> final(self).mode == old(self).param@[0],
    {
        if cmd <= 0x0A {
            self.answer_halt(cmd)
        } else if cmd == 0x0B {
            self.muted = true;
            ok_answer(self.controller_stat())
        } else if cmd == 0x0C {
            self.muted = false;
            ok_answer(self.controller_stat())
        } else if cmd == 0x0D {
            if self.param.len() >= 2 {
                self.filter_file = self.param[0];
                self.filter_channel = self.param[1];
            }
            ok_answer(self.controller_stat())
        } else if cmd == 0x0E {
            if self.param.len() > 0 {
                self.mode = self.param[0];
            }
            ok_answer(self.controller_stat())
        } else {
            (
                Some(
                    (
                        0xC4E1,
                        3,
                        vec![
                            self.controller_stat(),
                            self.mode,
                            0,
                            self.filter_file,
                            self.filter_channel,
                        ],
                    ),
                ),
                None,
            )
        }
    }

    fn answer_rest(&mut self, cmd: u8) -> (a: Answer)
        requires
            old(self).wf(),
        ensures
            final(self).wf(),
            host(final(self)) == host(old(self)),
            answered(a),
            unused_command(cmd) ==> int5_answer(a, 0x11, 0x40),
            cmd == 0x1F ==> int5_answer(a, 0x11, 0x40),
    {
        if cmd == 0x10 {
            self.getloc_l()
        } else if cmd == 0x11 {
            self.getloc_p()
        } else if cmd == 0x12 {
            self.set_session()
        } else if cmd == 0x13 {
            self.get_tn()
        } else if cmd == 0x14 {
            self.get_td()
        } else if cmd == 0x15 {
            self.seek_l()
        } else if cmd == 0x16 {
            self.seek_p()
        } else if cmd == 0x19 {
            self.test_cmd()
        } else if cmd == 0x1A {
            self.get_id()
        } else if cmd == 0x1B {
            self.read_n(true)
        } else if cmd == 0x1C {
            self.reset_cmd()
        } else if cmd == 0x1D {
            self.get_q()
        } else if cmd == 0x1E {
            self.read_toc()
        } else if cmd == 0x1F {
            int5(0x11, 0x40)
        } else if 0x50 <= cmd && cmd <= 0x57 {
            self.secret(cmd)
        } else {
            int5(0x11, 0x40)
        }
    }

    /// Pause/Stop/Init drop the sector stream: queued INT1s and a pending stream event.
    #[verifier::rlimit(100)]
    fn drop_int1(&mut self)
        requires
            old(self).wf(),
        ensures
            final(self).wf(),
            final(self).queue@ == without_int1(old(self).queue@),
            final(self).irq_flag == old(self).irq_flag,
            final(self).param == old(self).param,
            final(self).last_executed == old(self).last_executed,
            final(self).cmd_delay == old(self).cmd_delay,
            final(self).mode == old(self).mode,
            final(self).pending matches Some(p) ==> !is_stream_event(p.what) && (p.second matches Some(
                s,
            ) ==> !is_stream_event(s.1)),
            host(final(self)) == host(old(self)),
    {
        let ghost orig = self.queue@;
        let mut q = std::collections::VecDeque::new();
        std::mem::swap(&mut q, &mut self.queue);
        let ghost mut k: int = 0;
        loop
            invariant
                0 <= k <= orig.len(),
                q@ == orig.subrange(k, orig.len() as int),
                self.queue@ == without_int1(orig.subrange(0, k)),
                self.sound(),
                host(self) == host(old(self)),
                self.irq_flag == old(self).irq_flag,
                self.param == old(self).param,
                self.last_executed == old(self).last_executed,
                self.cmd_delay == old(self).cmd_delay,
                self.mode == old(self).mode,
                self.pending == old(self).pending,
            ensures
                self.queue@ == without_int1(orig),
                self.sound(),
                host(self) == host(old(self)),
                self.irq_flag == old(self).irq_flag,
                self.param == old(self).param,
                self.last_executed == old(self).last_executed,
                self.cmd_delay == old(self).cmd_delay,
                self.mode == old(self).mode,
                self.pending == old(self).pending,
            decreases orig.len() - k,
        {
            match q.pop_front() {
                Some(e) => {
                    proof {
                        let pre = orig.subrange(0, k + 1);
                        assert(pre.drop_last() =~= orig.subrange(0, k));
                        assert(orig[k] == e);
                        assert(pre.last() == e);
                        assert(q@ =~= orig.subrange(k + 1, orig.len() as int));
                    }
                    if e.0 != 1 {
                        self.queue.push_back(e);
                    }
                    proof {
                        k = k + 1;
                    }
                },
                None => {
                    proof {
                        assert(orig.subrange(0, k) =~= orig);
                    }
                    break;
                },
            }
        }
        let drop_first = match &self.pending {
            Some(p) => match &p.what {
                PendingWhat::Irq { irq, .. } => *irq == 1,
                PendingWhat::SeekDone { then_read } => *then_read,
                PendingWhat::PlayTick => true,
            },
            None => false,
        };
        if drop_first {
            self.pending = None;
        } else {
            match self.pending.take() {
                Some(p) => {
                    let drop_second = match &p.second {
                        Some((_, w)) => match w {
                            PendingWhat::Irq { irq, .. } => *irq == 1,
                            PendingWhat::SeekDone { then_read } => *then_read,
                            PendingWhat::PlayTick => true,
                        },
                        None => false,
                    };
                    if drop_second {
                        self.pending = Some(Pending { cycles: p.cycles, what: p.what, second: None });
                    } else {
                        self.pending = Some(p);
                    }
                },
                None => {},
            }
        }
    }

    fn get_id(&self) -> (a: Answer)
        ensures
            answered(a),
            self.shell_open ==> int5_answer(a, 0x11, 0x80),
            !self.shell_open && self.disc is None ==> (a.1 matches Some(s) && s.0 == 30_000 && (
            s.1 matches PendingWhat::Irq { irq, result } && irq == 5 && result@ == seq![
                0x08u8,
                0x40u8,
                0u8,
                0u8,
                0u8,
                0u8,
                0u8,
                0u8,
            ])),
    {
        if self.shell_open {
            return int5(0x11, 0x80);
        }
        let stat = self.controller_stat();
        match &self.disc {
            Some(disc) => {
                if disc.licensed || self.scex_unlocked {
                    let id = vec![
                        stat,
                        0x00,
                        0x20,
                        0x00,
                        disc.region[0],
                        disc.region[1],
                        disc.region[2],
                        disc.region[3],
                    ];
                    (Some((0xC4E1, 3, vec![stat])), Some((0x4A00, PendingWhat::Irq { irq: 2, result: id })))
                } else {
                    (
                        Some((0xC4E1, 3, vec![stat])),
                        Some(
                            (
                                0x4A00,
                                PendingWhat::Irq {
                                    irq: 5,
                                    result: vec![0x0A, 0x80, 0x20, 0x00, 0x00, 0x00, 0x00, 0x00],
                                },
                            ),
                        ),
                    )
                }
            },
            None => (
                Some((0xC4E1, 3, vec![stat])),
                Some(
                    (
                        30_000,
                        PendingWhat::Irq {
                            irq: 5,
                            result: vec![0x08, 0x40, 0x00, 0x00, 0x00, 0x00, 0x00, 0x00],
                        },
                    ),
                ),
            ),
        }
    }

    /// Inspectable state for the debugger.
    pub fn view(&self) -> (v: CdromView)
        ensures
            v.status == self.status,
            v.controller == self.controller_stat_spec(),
            v.reading == self.reading,
            v.motor == self.motor,
            v.lba == self.lba,
            v.loc_lba == msf_to_lba_spec(self.loc.0, self.loc.1, self.loc.2),
            v.last_lba == self.last_lba,
            v.setloc_pending == self.setloc_pending,
            v.pending_cycles == (match self.pending {
                Some(p) => Some(p.cycles),
                None => None::<u32>,
            }),
            v.fifo_bytes == (if self.fifo.len() >= self.fifo_i {
                (self.fifo.len() - self.fifo_i) as u32
            } else {
                0
            }),
            v.mode == self.mode,
            v.last_cmd == self.last_cmd,
            forall|i: int| 0 <= i < 16 ==> v.recent[i] == recent_slot(self.recent, self.recent_n, i),
    {
        let mut recent: [u8; 16] = [0xFF; 16];
        let n: usize = if self.recent_n > 16 {
            16
        } else {
            self.recent_n as usize
        };
        let start: usize = if self.recent_n > 16 {
            (self.recent_n as usize) % 16
        } else {
            0
        };
        let mut i: usize = 0;
        while i < 16
            invariant
                i <= 16,
                n <= 16,
                n == (if self.recent_n > 16 {
                    16
                } else {
                    self.recent_n as int
                }),
                start == (if self.recent_n > 16 {
                    self.recent_n as int % 16
                } else {
                    0
                }),
                forall|k: int| 0 <= k < i ==> recent[k] == recent_slot(self.recent, self.recent_n, k),
                forall|k: int| i <= k < 16 ==> recent[k] == 0xFF,
            decreases 16 - i,
        {
            if i < n {
                recent[i] = self.recent[(start + i) % 16];
            }
            i += 1;
        }
        let fifo_bytes: u32 = if self.fifo.len() >= self.fifo_i {
            (self.fifo.len() - self.fifo_i) as u32
        } else {
            0
        };
        let pending_cycles = match &self.pending {
            Some(p) => Some(p.cycles),
            None => None,
        };
        CdromView {
            status: self.status,
            controller: self.controller_stat(),
            reading: self.reading,
            motor: self.motor,
            lba: self.lba,
            loc_lba: self.loc_lba_now(),
            last_lba: self.last_lba,
            setloc_pending: self.setloc_pending,
            pending_cycles,
            fifo_bytes,
            mode: self.mode,
            last_cmd: self.last_cmd,
            recent,
        }
    }

    /// The lid opens: play and read stop and the host is told with INT5.
    pub fn open_shell(&mut self, irq: &mut Irq)
        requires
            old(self).wf(),
        ensures
            final(self).wf(),
            final(self).shell_open,
            !final(self).playing,
            !final(self).reading,
            old(self).irq_flag & 7 == 0 ==> final(self).irq_flag & 7 == 5 && final(self).result@.len()
                == 2 && final(self).result@[1] == 0x80,
            old(self).irq_flag & 7 != 0 ==> final(self).irq_flag == old(self).irq_flag,
            final(irq).mask == old(irq).mask,
    {
        self.shell_open = true;
        self.playing = false;
        self.reading = false;
        let st = self.controller_stat();
        let res = vec![st | 1, 0x80];
        assert(res@.len() == 2 && res@[1] == 0x80);
        assert(5u8 & 7 == 5) by (bit_vector);
        self.push_or_deliver(5, res, irq);
    }

    pub fn close_shell(&mut self)
        requires
            old(self).wf(),
        ensures
            final(self).wf(),
    {
        self.shell_open = false;
    }

    /// The current analog (CD-DA or XA) sample; it falls silent after being taken
    /// unless audio is playing or a sound map is complete.
    pub fn take_analog(&mut self) -> (s: (i16, i16))
        requires
            old(self).wf(),
        ensures
            final(self).wf(),
            s == old(self).analog,
            !old(self).playing && old(self).sound_map.len() < 0x900 ==> final(self).analog == (
            0i16,
            0i16,
            ),
            old(self).playing || old(self).sound_map.len() >= 0x900 ==> final(self).analog == old(self).analog,
            final(self).pending == old(self).pending,
            final(self).irq_flag == old(self).irq_flag,
    {
        let s = self.analog;
        if !self.playing && self.sound_map.len() < 0x900 {
            self.analog = (0, 0);
        }
        s
    }

    fn getloc_p(&self) -> (a: Answer)
        ensures
            answered(a),
    {
        let lba = if self.seeking {
            msf_to_lba(self.loc.0, self.loc.1, self.loc.2)
        } else {
            self.last_lba
        };
        let abs = frames_to_msf(lba.wrapping_add(150));
        let rel = frames_to_msf(lba);
        (Some((0xC4E1, 3, vec![0x01, 0x01, rel.0, rel.1, rel.2, abs.0, abs.1, abs.2])), None)
    }

    fn get_tn(&self) -> (a: Answer)
        ensures
            answered(a),
    {
        let (first, last): (u8, u8) = match &self.disc {
            Some(d) => {
                if d.tracks.len() > 0 {
                    (
                        to_bcd(d.tracks[0].number as u32),
                        to_bcd(d.tracks[d.tracks.len() - 1].number as u32),
                    )
                } else {
                    (0x01, 0x01)
                }
            },
            None => (0x01, 0x01),
        };
        (Some((0xC4E1, 3, vec![self.controller_stat(), first, last])), None)
    }

    fn get_td(&self) -> (a: Answer)
        ensures
            answered(a),
    {
        let want = bcd(
            if self.param.len() > 0 {
                self.param[0]
            } else {
                0
            },
        );
        let disc = match &self.disc {
            Some(d) => d,
            None => {
                return int5(self.controller_stat() | 1, 0x80);
            },
        };
        if want == 0 {
            let abs = frames_to_msf(disc.sector_count().wrapping_add(150));
            return (Some((0xC4E1, 3, vec![self.controller_stat(), abs.0, abs.1])), None);
        }
        let mut i: usize = 0;
        while i < disc.tracks.len()
            invariant
                i <= disc.tracks.len(),
            decreases disc.tracks.len() - i,
        {
            if disc.tracks[i].number as u32 == want {
                let abs = frames_to_msf(disc.tracks[i].start_lba.wrapping_add(150));
                return (Some((0xC4E1, 3, vec![self.controller_stat(), abs.0, abs.1])), None);
            }
            i += 1;
        }
        int5(self.controller_stat() | 1, 0x10)
    }

    /// The track whose number matches, by the comparison `m`.
    fn find_track(tracks: &Vec<Track>, number: u8) -> (r: Option<Track>)
        ensures
            r matches Some(t) ==> tracks@.contains(t) && t.number == number,
            r is None ==> forall|k: int| 0 <= k < tracks.len() ==> tracks@[k].number != number,
    {
        let mut i: usize = 0;
        while i < tracks.len()
            invariant
                i <= tracks.len(),
                forall|k: int| 0 <= k < i ==> tracks@[k].number != number,
            decreases tracks.len() - i,
        {
            if tracks[i].number == number {
                return Some(tracks[i]);
            }
            i += 1;
        }
        None
    }

    #[verifier::rlimit(100)]
    fn play(&mut self) -> (a: Answer)
        requires
            old(self).wf(),
        ensures
            handler_frame(old(self), final(self)),
            answered(a),
            final(self).playing,
            final(self).motor,
    {
        self.motor = true;
        self.playing = true;
        self.reading = false;
        if self.setloc_pending {
            self.setloc_pending = false;
            self.lba = msf_to_lba(self.loc.0, self.loc.1, self.loc.2);
            self.last_lba = self.lba;
        }
        if self.param.len() > 0 {
            let tr = self.param[0];
            let t = match &self.disc {
                Some(d) => Self::find_track(&d.tracks, bcd(tr) as u8),
                None => None,
            };
            match t {
                Some(t) => {
                    self.lba = t.start_lba;
                    self.last_lba = self.lba;
                },
                None => {},
            }
        }
        self.play_ready = false;
        self.skip = 0;
        self.play_sectors = 0;
        self.analog = self.cdda_sample();
        let stat = self.controller_stat();
        (Some((0xC4E1, 3, vec![stat])), Some((self.sector_cycles(), PendingWhat::PlayTick)))
    }

    fn forward_back(&mut self, fwd: bool) -> (a: Answer)
        requires
            old(self).wf(),
        ensures
            handler_frame(old(self), final(self)),
            answered(a),
            !old(self).playing || !old(self).play_ready ==> int5_answer(
                a,
                old(self).controller_stat_spec() | 1,
                0x80,
            ),
    {
        if !self.playing || !self.play_ready {
            return int5(self.controller_stat() | 1, 0x80);
        }
        let step: i32 = 75;
        let moved: i64 = if fwd {
            (if self.skip > 0 {
                self.skip
            } else {
                0
            }) as i64 + step as i64
        } else {
            (if self.skip < 0 {
                self.skip
            } else {
                0
            }) as i64 - step as i64
        };
        self.skip = if moved > 0x7FFF_FFFF {
            0x7FFF_FFFF
        } else if moved < -0x8000_0000 {
            -0x8000_0000
        } else {
            moved as i32
        };
        self.lba = add_signed(self.lba, self.skip);
        self.last_lba = self.lba;
        self.analog = self.cdda_sample();
        ok_answer(self.controller_stat())
    }

    fn report_bytes(&self) -> (r: Vec<u8>)
        ensures
            r.len() == 8,
    {
        let abs = frames_to_msf(self.last_lba.wrapping_add(150));
        vec![self.controller_stat(), 0x01, 0x01, abs.0, abs.1, abs.2, 0, 0]
    }

    fn set_session(&mut self) -> (a: Answer)
        requires
            old(self).wf(),
        ensures
            handler_frame(old(self), final(self)),
            answered(a),
    {
        let s = if self.param.len() > 0 {
            self.param[0]
        } else {
            0
        };
        if s == 0 {
            return int5(0x03, 0x10);
        }
        if s > 1 {
            self.session_fail = 2;
            let stat = self.controller_stat();
            return (
                Some((0xC4E1, 3, vec![stat])),
                Some((SEEK_CYCLES, PendingWhat::Irq { irq: 5, result: vec![0x06, 0x40] })),
            );
        }
        self.session = s;
        let stat = self.controller_stat();
        int2_after(stat, 0xC4E1, SEEK_CYCLES)
    }

    fn seek_p(&mut self) -> (a: Answer)
        requires
            old(self).wf(),
        ensures
            handler_frame(old(self), final(self)),
            answered(a),
            final(self).seeking,
            !final(self).setloc_pending,
            final(self).lba == msf_to_lba_spec(old(self).loc.0, old(self).loc.1, old(self).loc.2),
    {
        self.setloc_pending = false;
        self.seeking = true;
        self.reading = false;
        self.playing = false;
        self.clear_sector_buf();
        self.lba = msf_to_lba(self.loc.0, self.loc.1, self.loc.2);
        let stat = self.controller_stat();
        (Some((0xC4E1, 3, vec![stat])), Some((SEEK_CYCLES, PendingWhat::SeekDone { then_read: false })))
    }

    fn reset_cmd(&mut self) -> (a: Answer)
        requires
            old(self).wf(),
        ensures
            handler_frame(old(self), final(self)),
            answered(a),
            final(self).mode == 0x20,
            !final(self).scex_unlocked,
    {
        self.mode = 0x20;
        self.reading = false;
        self.playing = false;
        self.seeking = false;
        self.scex_unlocked = false;
        ok_answer(self.controller_stat())
    }

    fn get_q(&self) -> (a: Answer)
        ensures
            answered(a),
    {
        let stat = self.controller_stat();
        let point = if self.param.len() > 1 {
            self.param[1]
        } else {
            0x01
        };
        let mut start: u32 = 0;
        match &self.disc {
            Some(d) => {
                let mut i: usize = 0;
                while i < d.tracks.len()
                    invariant
                        i <= d.tracks.len(),
                    decreases d.tracks.len() - i,
                {
                    if to_bcd(d.tracks[i].number as u32) == point {
                        start = d.tracks[i].start_lba;
                        break;
                    }
                    i += 1;
                }
            },
            None => {},
        }
        let abs = frames_to_msf(start.wrapping_add(150));
        let sub = vec![0x41, 0x00, point, 0x00, 0x00, 0x00, 0x00, abs.0, abs.1, abs.2, 0];
        (Some((0xC4E1, 3, vec![stat])), Some((SEEK_CYCLES, PendingWhat::Irq { irq: 2, result: sub })))
    }

    fn read_toc(&self) -> (a: Answer)
        ensures
            answered(a),
    {
        let stat = self.controller_stat();
        int2_after(stat, 0x13CCE, 0x20_0000)
    }

    fn test_cmd(&mut self) -> (a: Answer)
        requires
            old(self).wf(),
        ensures
            handler_frame(old(self), final(self)),
            answered(a),
    {
        let sub = if self.param.len() > 0 {
            self.param[0]
        } else {
            0
        };
        if sub == 0x20 {
            (Some((0xC4E1, 3, vec![0x94, 0x09, 0x19, 0xC0])), None)
        } else if sub == 0x21 {
            let f: u8 = if self.shell_open {
                2
            } else {
                0
            };
            ok_answer(f)
        } else if sub == 0x22 {
            (Some((0xC4E1, 3, vec![0x66, 0x6F, 0x72, 0x20, 0x55, 0x2F, 0x43])), None)
        } else if sub == 0x23 {
            (
                Some(
                    (
                        0xC4E1,
                        3,
                        vec![
                            0x43, 0x58, 0x44, 0x32, 0x39, 0x34, 0x30, 0x51, 0x2F, 0x43, 0x58,
                            0x44, 0x31, 0x38, 0x31, 0x37, 0x51, 0x2F, 0x43, 0x58, 0x44, 0x32,
                            0x35, 0x34, 0x35, 0x51, 0x2F, 0x43, 0x58, 0x44, 0x31, 0x37, 0x38,
                            0x32, 0x42, 0x52,
                        ],
                    ),
                ),
                None,
            )
        } else if sub == 0x24 {
            (
                Some(
                    (
                        0xC4E1,
                        3,
                        vec![
                            0x43, 0x58, 0x44, 0x32, 0x39, 0x34, 0x30, 0x51, 0x2F, 0x43, 0x58,
                            0x44, 0x31, 0x38, 0x31, 0x37, 0x51, 0x2F, 0x43, 0x58, 0x44, 0x32,
                            0x35, 0x34, 0x35, 0x51, 0x2F, 0x43, 0x58, 0x44, 0x32, 0x35, 0x31,
                            0x30, 0x51,
                        ],
                    ),
                ),
                None,
            )
        } else if sub == 0x25 {
            (
                Some(
                    (
                        0xC4E1,
                        3,
                        vec![
                            0x43, 0x58, 0x44, 0x32, 0x39, 0x34, 0x30, 0x51, 0x2F, 0x43, 0x58,
                            0x44, 0x31, 0x38, 0x31, 0x37, 0x51, 0x2F, 0x43, 0x58, 0x44, 0x31,
                            0x38, 0x31, 0x35, 0x51, 0x2F, 0x43, 0x58, 0x44, 0x31, 0x31, 0x39,
                            0x39, 0x42, 0x51,
                        ],
                    ),
                ),
                None,
            )
        } else if sub == 0x04 {
            self.motor = true;
            self.scex_total = 0;
            self.scex_ok = 0;
            let licensed = match &self.disc {
                Some(d) => d.licensed,
                None => false,
            };
            if licensed {
                self.scex_total = 1;
                self.scex_ok = 1;
            }
            ok_answer(self.controller_stat())
        } else if sub == 0x05 {
            (Some((0xC4E1, 3, vec![self.scex_total, self.scex_ok])), None)
        } else if sub == 0x00 {
            self.motor = true;
            ok_answer(self.controller_stat())
        } else if sub == 0x03 {
            self.motor = false;
            ok_answer(self.controller_stat())
        } else {
            int5(0x11, 0x10)
        }
    }

    /// The unlock sequence 50h..56h, each step carrying its text; 57h relocks.
    fn secret(&mut self, cmd: u8) -> (a: Answer)
        requires
            old(self).wf(),
            0x50 <= cmd <= 0x57,
        ensures
            handler_frame(old(self), final(self)),
            answered(a),
            int5_answer(a, 0x11, 0x40),
            cmd == 0x57 ==> !final(self).scex_unlocked && final(self).secret_step == 0,
    {
        let idx: usize = (cmd - 0x50) as usize;
        if cmd == 0x57 {
            self.scex_unlocked = false;
            self.secret_step = 0;
        } else {
            let text = secret_text(idx);
            if (text.len() == 0 || starts_with_exec(&self.param, &text)) && self.secret_step
                == idx as u8 {
                self.secret_step = idx as u8 + 1;
                if cmd == 0x56 {
                    self.scex_unlocked = true;
                }
            } else {
                self.scex_unlocked = false;
                self.secret_step = 0;
            }
        }
        int5(0x11, 0x40)
    }

    /// The first stereo sample of the CD-DA sector at the head, through the mixer;
    /// silence when muted, off an audio track or past the image.
    fn cdda_sample(&self) -> (o: (i16, i16))
        ensures
            (o.0 as int, o.1 as int) == cdda_spec(self),
    {
        if self.muted || !self.audio_here() {
            return (0, 0);
        }
        let lba = self.lba;
        let lr = match &self.disc {
            Some(d) => match d.sector(lba) {
                Some(raw) => Some((read_le_i16(raw[0], raw[1]), read_le_i16(raw[2], raw[3]))),
                None => None,
            },
            None => None,
        };
        match lr {
            Some((l, r)) => self.apply_vol(l, r),
            None => (0, 0),
        }
    }

    /// Whether the sector at the head is a real-time XA audio sector for the SPU.
    fn xa_to_spu(&self) -> (r: bool)
        ensures
            r == xa_to_spu_spec(self),
    {
        if self.mode & 0x40 == 0 {
            return false;
        }
        match &self.disc {
            Some(d) => match d.sector(self.lba) {
                Some(raw) => {
                    if raw.len() < 24 || raw[15] != 2 {
                        return false;
                    }
                    let sm = raw[18];
                    if sm & 0x44 != 0x44 {
                        return false;
                    }
                    if self.mode & 8 != 0 && (raw[16] != self.filter_file || raw[17]
                        != self.filter_channel) {
                        return false;
                    }
                    true
                },
                None => false,
            },
            None => false,
        }
    }

    /// The first stereo sample of the XA sector at the head, through the mixer.
    fn xa_sample(&self) -> (o: (i16, i16))
        ensures
            (o.0 as int, o.1 as int) == xa_sample_spec(self),
    {
        if self.muted {
            return (0, 0);
        }
        let lba = self.lba;
        let lr = match &self.disc {
            Some(d) => match d.sector(lba) {
                Some(raw) => {
                    if raw.len() < 24 + 0x80 {
                        None
                    } else {
                        let coding = raw[19];
                        Some(decode_xa(vstd::slice::slice_subrange(raw, 24, raw.len()), coding))
                    }
                },
                None => None,
            },
            None => None,
        };
        match lr {
            Some((l, r)) => self.apply_vol(l, r),
            None => (0, 0),
        }
    }

    /// The CD audio mixer: left in to left and right out by ATV0/ATV1, right in by
    /// ATV2/ATV3 (the applied volumes).
    fn apply_vol(&self, l: i16, r: i16) -> (o: (i16, i16))
        ensures
            o.0 == crate::xa::mix_spec(l, self.vol_applied[0], r, self.vol_applied[3]),
            o.1 == crate::xa::mix_spec(l, self.vol_applied[1], r, self.vol_applied[2]),
    {
        (
            mix(l, self.vol_applied[0], r, self.vol_applied[3]),
            mix(l, self.vol_applied[1], r, self.vol_applied[2]),
        )
    }

    fn getloc_l(&self) -> (a: Answer)
        ensures
            answered(a),
            self.seeking || !self.header_valid ==> int5_answer(
                a,
                self.controller_stat_spec() | 1,
                0x80,
            ),
    {
        if self.seeking || !self.header_valid {
            int5(self.controller_stat() | 1, 0x80)
        } else {
            (Some((0xC4E1, 3, vstd::slice::slice_to_vec(self.header.as_slice()))), None)
        }
    }

    fn seek_l(&mut self) -> (a: Answer)
        requires
            old(self).wf(),
        ensures
            handler_frame(old(self), final(self)),
            answered(a),
            final(self).seeking,
            !final(self).setloc_pending,
            final(self).lba == msf_to_lba_spec(old(self).loc.0, old(self).loc.1, old(self).loc.2),
    {
        self.setloc_pending = false;
        self.seeking = true;
        self.reading = false;
        self.clear_sector_buf();
        self.lba = msf_to_lba(self.loc.0, self.loc.1, self.loc.2);
        let stat = self.controller_stat();
        (Some((0xC4E1, 3, vec![stat])), Some((SEEK_CYCLES, PendingWhat::SeekDone { then_read: false })))
    }

    fn read_n(&mut self, read_s: bool) -> (a: Answer)
        requires
            old(self).wf(),
        ensures
            handler_frame(old(self), final(self)),
            answered(a),
            old(self).disc is Some && old(self).setloc_pending ==> final(self).seeking
                && !final(self).setloc_pending && final(self).lba == msf_to_lba_spec(
                old(self).loc.0,
                old(self).loc.1,
                old(self).loc.2,
            ),
            old(self).disc is Some && !old(self).setloc_pending && !old(self).reading ==> final(self).reading && final(self).lba == old(self).last_lba,
    {
        self.read_s = read_s;
        self.retries = if read_s {
            0
        } else {
            3
        };
        if self.disc.is_none() {
            return (
                Some((0xC4E1, 3, vec![self.controller_stat()])),
                Some((10_000, PendingWhat::Irq { irq: 5, result: vec![0x01] })),
            );
        }
        self.motor = true;
        if self.setloc_pending {
            self.setloc_pending = false;
            self.seeking = true;
            self.reading = false;
            self.clear_sector_buf();
            self.lba = msf_to_lba(self.loc.0, self.loc.1, self.loc.2);
            let stat = self.controller_stat();
            (Some((0xC4E1, 3, vec![stat])), Some((SEEK_CYCLES, PendingWhat::SeekDone { then_read: true })))
        } else if self.reading {
            ok_answer(self.controller_stat())
        } else {
            self.reading = true;
            self.clear_sector_buf();
            self.lba = self.last_lba;
            let stat = self.controller_stat();
            let c = self.sector_cycles();
            (Some((0xC4E1, 3, vec![stat])), Some((c, PendingWhat::Irq { irq: 1, result: vec![stat] })))
        }
    }

    /// The sector at the head is unreadable (its mode byte is FFh).
    fn sector_bad(&self) -> (r: bool)
        ensures
            r == sector_bad_spec(self),
    {
        match &self.disc {
            Some(d) => match d.sector(self.lba) {
                Some(raw) => raw.len() > 15 && raw[15] == 0xFF,
                None => false,
            },
            None => false,
        }
    }

    /// The head is inside an audio track: the last track starting at or before it.
    fn audio_here(&self) -> (r: bool)
        ensures
            r == audio_here_spec(self),
    {
        match &self.disc {
            Some(d) => {
                let mut i: usize = d.tracks.len();
                while i > 0
                    invariant
                        i <= d.tracks.len(),
                        self.disc == Some(*d),
                        audio_at(d.tracks@, d.tracks@.len() as int, self.lba) == audio_at(
                            d.tracks@,
                            i as int,
                            self.lba,
                        ),
                    decreases i,
                {
                    i -= 1;
                    if d.tracks[i].start_lba <= self.lba {
                        return d.tracks[i].audio;
                    }
                }
                false
            },
            None => false,
        }
    }

    /// A sector time has passed while reading: hand XA audio to the mixer, retry a
    /// bad sector, buffer while the FIFO is locked, or deliver INT1.
    fn try_read_sector(&mut self, irq: &mut Irq)
        requires
            old(self).wf(),
        ensures
            final(self).wf(),
            final(irq).mask == old(irq).mask,
    {
        if self.xa_to_spu() {
            self.analog = self.xa_sample();
            self.lba = self.lba.saturating_add(1);
            if self.reading {
                let c = self.sector_cycles();
                let st = self.controller_stat();
                self.pending = Some(
                    Pending { cycles: c, what: PendingWhat::Irq { irq: 1, result: vec![st] }, second: None },
                );
            }
            return ;
        }
        if self.sector_bad() {
            if self.read_s || self.retries == 0 {
                self.reading = false;
                let st = self.controller_stat();
                self.push_or_deliver(5, vec![st | 1, 0x40], irq);
            } else {
                self.retries = self.retries - 1;
                let c = self.sector_cycles();
                let st = self.controller_stat();
                self.pending = Some(
                    Pending { cycles: c, what: PendingWhat::Irq { irq: 1, result: vec![st] }, second: None },
                );
            }
            return ;
        }
        if self.fifo_busy() && self.irq_flag & 7 == 0 && self.sector_buf.len() < SECTOR_BUF {
            self.extra_capture();
            self.arm_next_int1();
            return ;
        }
        if self.fifo_busy() || self.irq_flag & 7 == 1 {
            self.arm_next_int1();
            return ;
        }
        let st = self.controller_stat();
        self.push_or_deliver(1, vec![st], irq);
    }

    /// One CD-DA sector of play: advance (or skip), stop at the end of the disc,
    /// report every tenth sector when asked.
    fn play_tick(&mut self, irq: &mut Irq)
        requires
            old(self).wf(),
        ensures
            final(self).wf(),
            final(irq).mask == old(irq).mask,
    {
        self.play_ready = true;
        let step: i64 = if self.skip != 0 {
            self.skip as i64
        } else {
            1
        };
        let next: i64 = self.lba as i64 + step;
        let count: i64 = match &self.disc {
            Some(d) => d.sector_count() as i64,
            None => 0,
        };
        if next >= count {
            self.playing = false;
            self.motor = false;
            self.skip = 0;
            let st = self.controller_stat();
            self.push_or_deliver(4, vec![st], irq);
            return ;
        }
        if next < 0 {
            self.lba = 0;
            self.skip = 0;
        } else {
            self.lba = next as u32;
        }
        self.last_lba = self.lba;
        self.play_sectors = self.play_sectors.saturating_add(1);
        self.analog = self.cdda_sample();
        if self.mode & 4 != 0 && self.play_sectors % 10 == 0 {
            let rep = self.report_bytes();
            self.push_or_deliver(1, rep, irq);
        }
        let c = self.sector_cycles();
        self.pending = Some(Pending { cycles: c, what: PendingWhat::PlayTick, second: None });
    }

    /// A DMA3 word: four FIFO bytes, first in the low byte.
    pub fn dma_read32(&mut self) -> (w: u32)
        requires
            old(self).wf(),
        ensures
            final(self).wf(),
            w == fifo_byte(old(self), 0) as int + fifo_byte(old(self), 1) as int * 0x100
                + fifo_byte(old(self), 2) as int * 0x1_0000 + fifo_byte(old(self), 3) as int
                * 0x100_0000,
            final(self).irq_flag == old(self).irq_flag,
            final(self).fifo@ == old(self).fifo@,
            final(self).fifo_i == (if old(self).fifo_i + 4 <= old(self).fifo.len() {
                old(self).fifo_i + 4
            } else {
                old(self).fifo.len() as int
            }),
    {
        let b0 = self.pop_fifo();
        let b1 = self.pop_fifo();
        let b2 = self.pop_fifo();
        let b3 = self.pop_fifo();
        b0 as u32 + (b1 as u32) * 0x100 + (b2 as u32) * 0x1_0000 + (b3 as u32) * 0x100_0000
    }

    /// DRQSTS: the data FIFO holds a sector (including its padding bytes).
    pub fn drq(&self) -> (r: bool)
        ensures
            r == self.fifo_loaded,
    {
        self.fifo_loaded
    }

    /// Place `bytes` as the current sector and load the data FIFO with it.
    pub fn test_fill_fifo(&mut self, bytes: &[u8])
        requires
            old(self).wf(),
        ensures
            final(self).wf(),
            final(self).fifo@ == bytes@,
            final(self).fifo_i == 0,
            final(self).fifo_loaded == (bytes@.len() > 0),
            final(self).want_data,
            final(self).sector_buf@.len() == 0,
    {
        self.data_sector = vstd::slice::slice_to_vec(bytes);
        self.sector_buf.clear();
        self.want_data = true;
        self.load_data_fifo();
    }

    fn finish_pending(&mut self, what: PendingWhat, irq: &mut Irq)
        requires
            old(self).wf(),
        ensures
            final(self).wf(),
            final(irq).mask == old(irq).mask,
    {
        match what {
            PendingWhat::Irq { irq: irqn, result } => {
                if irqn == 1 && self.reading && !self.playing {
                    self.try_read_sector(irq);
                } else {
                    self.push_or_deliver(irqn, result, irq);
                }
            },
            PendingWhat::SeekDone { then_read } => {
                self.seeking = false;
                self.capture_header();
                if then_read {
                    self.reading = true;
                    self.try_read_sector(irq);
                } else {
                    let st = self.controller_stat();
                    self.push_or_deliver(2, vec![st], irq);
                }
            },
            PendingWhat::PlayTick => self.play_tick(irq),
        }
    }


    /// Both events are counted down; one may have reached zero (it is due).
    pub open spec fn counting(&self) -> bool {
        &&& self.sound()
        &&& (self.pending matches Some(p) ==> (p.second matches Some(s) ==> s.0 > 0))
    }

    #[verifier::rlimit(100)]
    fn count_down(&mut self, step: u32)
        requires
            old(self).wf(),
            old(self).cmd_delay matches Some(d) ==> step <= d.0,
            old(self).pending matches Some(p) ==> step <= p.cycles,
        ensures
            final(self).counting(),
            old(self).cmd_delay is None ==> final(self).cmd_delay is None,
            old(self).cmd_delay matches Some(d) ==> (final(self).cmd_delay matches Some(e)
                && e.0 == d.0 - step),
            old(self).cmd_delay matches Some(d) ==> final(self).cmd_delay == Some(
                ((d.0 - step) as u32, d.1, d.2),
            ),
            old(self).pending matches Some(p) ==> final(self).pending == Some(
                Pending { cycles: (p.cycles - step) as u32, ..p },
            ),
            old(self).pending is None ==> final(self).pending is None,
            old(self).pending matches Some(p) ==> (final(self).pending matches Some(q) && q.cycles
                == p.cycles - step),
            *final(self) == (Cdrom {
                cmd_delay: final(self).cmd_delay,
                pending: final(self).pending,
                ..*old(self)
            }),
    {
        match self.cmd_delay.take() {
            Some((c, n, r)) => {
                self.cmd_delay = Some((c - step, n, r));
            },
            None => {},
        }
        match self.pending.take() {
            Some(q) => {
                self.pending = Some(Pending { cycles: q.cycles - step, what: q.what, second: q.second });
            },
            None => {},
        }
    }

    /// Fire the command response and the pending event that are due (at zero), the
    /// response first; a fired event's follow-up is scheduled unless something else was.
    fn fire_due(&mut self, irq: &mut Irq)
        requires
            old(self).counting(),
        ensures
            final(self).wf(),
            final(irq).mask == old(irq).mask,
            (old(self).cmd_delay matches Some(d) && d.0 == 0 && d.1 != 1) && old(self).pending is None
                && old(self).irq_flag & 7 == 0 ==> {
                let d = old(self).cmd_delay.unwrap();
                &&& final(self).irq_flag & 7 == d.1 & 7
                &&& final(self).result@ == d.2@
                &&& final(self).pending is None
                &&& final(self).cmd_delay is None
            },
    {
        let delay_due = match &self.cmd_delay {
            Some(c) => c.0 == 0,
            None => false,
        };
        if delay_due {
            match self.cmd_delay.take() {
                Some((_, irqn, result)) => {
                    self.push_or_deliver(irqn, result, irq);
                },
                None => {},
            }
        }
        let pending_due = match &self.pending {
            Some(q) => q.cycles == 0,
            None => false,
        };
        if pending_due {
            match self.pending.take() {
                Some(q) => {
                    self.finish_pending(q.what, irq);
                    if self.pending.is_none() {
                        match q.second {
                            Some((delay, what)) => {
                                self.pending = Some(Pending { cycles: delay, what, second: None });
                            },
                            None => {},
                        }
                    }
                },
                None => {},
            }
        }
    }

    /// Run the drive for `cycles` CPU cycles: count down the command response and the
    /// pending event, firing each as it falls due.
    #[verifier::rlimit(100)]
    pub fn tick(&mut self, cycles: u32, irq: &mut Irq)
        requires
            old(self).wf(),
        ensures
            final(self).wf(),
            final(irq).mask == old(irq).mask,
            old(self).pending is None && old(self).cmd_delay is None ==> *final(self) == *old(self)
                && *final(irq) == *old(irq),
            old(self).events_far(cycles) ==> {
                &&& *final(irq) == *old(irq)
                &&& (old(self).cmd_delay matches Some(d) ==> final(self).cmd_delay == Some(
                    ((d.0 - cycles) as u32, d.1, d.2),
                ))
                &&& (old(self).pending matches Some(p) ==> final(self).pending == Some(
                    Pending { cycles: (p.cycles - cycles) as u32, ..p },
                ))
                &&& *final(self) == (Cdrom {
                    cmd_delay: final(self).cmd_delay,
                    pending: final(self).pending,
                    ..*old(self)
                })
            },
            old(self).response_due(cycles) ==> {
                let d = old(self).cmd_delay.unwrap();
                &&& final(self).irq_flag & 7 == d.1 & 7
                &&& final(self).result@ == d.2@
                &&& final(self).pending is None
                &&& final(self).cmd_delay is None
            },
    {
        if self.pending.is_none() && self.cmd_delay.is_none() {
            return ;
        }
        let delay_far = match &self.cmd_delay {
            Some(c) => cycles < c.0,
            None => true,
        };
        let pending_far = match &self.pending {
            Some(q) => cycles < q.cycles,
            None => true,
        };
        if delay_far && pending_far {
            assert(self.events_far(cycles));
            self.count_down(cycles);
            return ;
        }
        assert(!old(self).events_far(cycles));
        let mut left: u32 = cycles;
        while left > 0
            invariant
                self.wf(),
                irq.mask == old(irq).mask,
                old(self).pending is Some || old(self).cmd_delay is Some,
                !old(self).events_far(cycles),
                old(self).response_due(cycles) ==> ({
                    let d = old(self).cmd_delay.unwrap();
                    ||| (left == cycles && self.cmd_delay == old(self).cmd_delay && self.pending is None
                        && self.irq_flag == old(self).irq_flag)
                    ||| (self.cmd_delay is None && self.pending is None && self.irq_flag & 7 == d.1 & 7
                        && self.result@ == d.2@)
                }),
            decreases left,
        {
            let d: Option<u32> = match &self.cmd_delay {
                Some(c) => Some(c.0),
                None => None,
            };
            let p: Option<u32> = match &self.pending {
                Some(q) => Some(q.cycles),
                None => None,
            };
            let next: u32 = match (d, p) {
                (Some(a), Some(b)) => if a < b {
                    a
                } else {
                    b
                },
                (Some(a), None) => a,
                (None, Some(b)) => b,
                (None, None) => {
                    return ;
                },
            };
            let step = if next > left {
                left
            } else {
                next
            };
            self.count_down(step);
            if next > left {
                return ;
            }
            left = left - next;
            self.fire_due(irq);
        }
    }
}

} // verus!
