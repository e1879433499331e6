//! DMA controller: seven channels, priorities, block and linked-list transfers, DICR.
use vstd::prelude::*;

use crate::cdrom::{fifo_byte, Cdrom};
use crate::gpu::Gpu;
use crate::irq::{Irq, IRQ_DMA};
use crate::spu::Spu;

verus! {

/// Main RAM: 2 MiB.
pub const RAM_SIZE: usize = 0x20_0000;

/// A transfer in progress on a channel.
#[derive(Clone, Copy, PartialEq, Eq, Structural, Debug)]
pub enum Job {
    /// `remaining` words from/to `addr`, moving by `step` bytes; `dir` 1 is from RAM.
    Block { ch: u8, addr: u32, remaining: u32, dir: u8, step: i32 },
    /// A GPU command list: the node at `addr`, `pkt_left` words of it still to send.
    List { addr: u32, pkt_left: u32, next: u32, nodes: u32 },
}

/// The GPU list job after one step from List { addr, pkt_left, next, nodes } over
/// RAM `ram`. At a node boundary the header is read: the end marker, an address past
/// RAM or a millionth node ends the list; an empty node moves to the next one; else
/// its word count is queued. Inside a node one word goes out and the address moves
/// on, jumping to the next node after the last word (or ending at the end marker).
pub open spec fn list_next(addr: u32, pkt_left: u32, next: u32, nodes: u32, ram: Seq<u8>) -> Option<Job> {
    if pkt_left == 0 {
        if addr == 0x00FF_FFFF || addr > 0x1F_FFFF || nodes >= 1_000_000 {
            None
        } else {
            let header = word_at(ram, word_off(addr));
            let words = header / 0x100_0000;
            let nxt = header % 0x100_0000;
            if words == 0 {
                if nxt == 0x00FF_FFFF {
                    None
                } else {
                    Some(
                        Job::List {
                            addr: (nxt as u32) & 0x1F_FFFF,
                            pkt_left,
                            next: nxt as u32,
                            nodes: (nodes + 1) as u32,
                        },
                    )
                }
            } else {
                Some(
                    Job::List {
                        addr: addr.wrapping_add(4) & 0x1F_FFFF,
                        pkt_left: words as u32,
                        next: nxt as u32,
                        nodes: (nodes + 1) as u32,
                    },
                )
            }
        }
    } else if pkt_left == 1 {
        if next == 0x00FF_FFFF {
            None
        } else {
            Some(Job::List { addr: next & 0x1F_FFFF, pkt_left: 0, next, nodes })
        }
    } else {
        Some(
            Job::List {
                addr: addr.wrapping_add(4) & 0x1F_FFFF,
                pkt_left: (pkt_left - 1) as u32,
                next,
                nodes,
            },
        )
    }
}

/// The address a block channel moves to after a word: OTC steps by its signed step,
/// the others by 4, within 2 MiB.
pub open spec fn block_next_addr(b: u8, addr: u32, step: i32) -> u32 {
    if b == 6 {
        ((addr as i32).wrapping_add(step) as u32) & 0x1F_FFFF
    } else {
        addr.wrapping_add(4) & 0x1F_FFFF
    }
}

/// What one word of a block channel `b` at `addr` with `remaining` words does to RAM
/// and the job: OTC stores the link to the next entry (FFFFFFh for the last), the
/// CD-ROM its next FIFO word; SPU and GPU blocks read RAM. The job ends after its last
/// word.
pub open spec fn block_effect(
    b: u8,
    addr: u32,
    remaining: u32,
    dir: u8,
    step: i32,
    old_ram: Seq<u8>,
    new_ram: Seq<u8>,
    old_cd: Cdrom,
    job: Option<Job>,
) -> bool {
    &&& remaining > 0 && b == 6 ==> new_ram == put_word(
        old_ram,
        word_off(addr),
        if remaining == 1 {
            0x00FF_FFFFu32
        } else {
            block_next_addr(b, addr, step)
        },
    )
    &&& remaining > 0 && b == 3 ==> new_ram == put_word(
        old_ram,
        word_off(addr),
        (fifo_byte(&old_cd, 0) as int + fifo_byte(&old_cd, 1) as int * 0x100 + fifo_byte(&old_cd, 2) as int
            * 0x1_0000 + fifo_byte(&old_cd, 3) as int * 0x100_0000) as u32,
    )
    &&& (b == 2 || b == 4) ==> new_ram == old_ram
    &&& remaining <= 1 ==> job is None
    &&& remaining > 1 && (b == 2 || b == 3 || b == 4 || b == 6) ==> job == Some(
        Job::Block { ch: b, addr: block_next_addr(b, addr, step), remaining: (remaining - 1) as u32, dir, step },
    )
}

pub struct Dma {
    pub madr: [u32; 7],
    pub bcr: [u32; 7],
    pub chcr: [u32; 7],
    pub dpcr: u32,
    pub dicr: u32,
    pub jobs: [Option<Job>; 7],
    pub credit: [u32; 7],
    pub words_done: [u32; 7],
    pub hyper: [bool; 7],
    pub list_empty: u32,
    pub list_pkts: u32,
    pub list_min: u32,
    pub list_max: u32,
    pub list_empty_before: u32,
    pub list_seen_pkt: bool,
    pub last_list_empty: u32,
    pub last_list_pkts: u32,
    pub last_list_min: u32,
    pub last_list_max: u32,
    pub last_list_start: u32,
    pub last_list_start_n: u32,
    pub last_empty_before: u32,
}

/// Byte offset of the RAM word that `addr` falls in.
pub open spec fn word_off(addr: u32) -> int {
    (addr as int % RAM_SIZE as int) / 4 * 4
}

/// The little-endian word at byte offset `a` of `ram`.
pub open spec fn word_at(ram: Seq<u8>, a: int) -> int {
    ram[a] as int + ram[a + 1] as int * 0x100 + ram[a + 2] as int * 0x1_0000 + ram[a + 3] as int
        * 0x100_0000
}

/// `ram` with the word at byte offset `a` replaced by `v`, little-endian.
pub open spec fn put_word(ram: Seq<u8>, a: int, v: u32) -> Seq<u8> {
    ram.update(a, (v % 0x100) as u8).update(a + 1, ((v / 0x100) % 0x100) as u8).update(
        a + 2,
        ((v / 0x1_0000) % 0x100) as u8,
    ).update(a + 3, (v / 0x100_0000) as u8)
}

pub fn read_word(ram: &Vec<u8>, addr: u32) -> (w: u32)
    requires
        ram.len() == RAM_SIZE,
    ensures
        w == word_at(ram@, word_off(addr)),
{
    let a = ((addr as usize) % RAM_SIZE) / 4 * 4;
    ram[a] as u32 + ram[a + 1] as u32 * 0x100 + ram[a + 2] as u32 * 0x1_0000 + ram[a + 3] as u32
        * 0x100_0000
}

pub fn write_word(ram: &mut Vec<u8>, addr: u32, v: u32)
    requires
        old(ram).len() == RAM_SIZE,
    ensures
        final(ram)@ == put_word(old(ram)@, word_off(addr), v),
{
    let a = ((addr as usize) % RAM_SIZE) / 4 * 4;
    ram.set(a, (v % 0x100) as u8);
    ram.set(a + 1, ((v / 0x100) % 0x100) as u8);
    ram.set(a + 2, ((v / 0x1_0000) % 0x100) as u8);
    ram.set(a + 3, (v / 0x100_0000) as u8);
}

/// Words of a block transfer: BS (0 is 10000h) times BA (0 is `ba_zero`), at most a million.
pub open spec fn block_words_spec(bcr: u32, ba_zero: u32) -> int {
    let bs: int = if bcr % 0x1_0000 == 0 {
        0x1_0000
    } else {
        bcr as int % 0x1_0000
    };
    let ba: int = if bcr / 0x1_0000 == 0 {
        ba_zero as int
    } else {
        bcr as int / 0x1_0000
    };
    if bs * ba > 1_000_000 {
        1_000_000
    } else {
        bs * ba
    }
}

pub fn block_words(bcr: u32, ba_zero: u32) -> (n: u32)
    requires
        ba_zero <= 0x1_0000,
    ensures
        n == block_words_spec(bcr, ba_zero),
{
    let bs: u64 = if bcr % 0x1_0000 == 0 {
        0x1_0000
    } else {
        (bcr % 0x1_0000) as u64
    };
    let ba: u64 = if bcr / 0x1_0000 == 0 {
        ba_zero as u64
    } else {
        (bcr / 0x1_0000) as u64
    };
    assert(bs * ba <= 0x1_0000 * 0x1_0000) by (nonlinear_arith)
        requires
            bs <= 0x1_0000,
            ba <= 0x1_0000,
    ;
    let n = bs * ba;
    if n > 1_000_000 {
        1_000_000
    } else {
        n as u32
    }
}

/// CPU clocks a channel spends per word.
pub open spec fn clocks_spec(ch: int) -> u32 {
    if ch == 3 {
        24
    } else if ch == 4 {
        4
    } else if ch == 5 {
        20
    } else {
        1
    }
}

fn clocks_per_word(ch: usize) -> (c: u32)
    ensures
        c == clocks_spec(ch as int),
        c >= 1,
{
    if ch == 3 {
        24
    } else if ch == 4 {
        4
    } else if ch == 5 {
        20
    } else {
        1
    }
}

/// The priority DPCR gives channel `ch` (lower runs first).
pub open spec fn priority(dpcr: u32, ch: int) -> u32 {
    (dpcr >> ((ch * 4) as u32)) & 7
}

/// What a read of DMA register `addr` returns.
pub open spec fn dma_read_spec(d: &Dma, addr: u32) -> u32 {
    let off = addr - 0x1F80_1080;
    if 0 <= off < 0x70 {
        let ch = off / 0x10;
        if off % 0x10 == 0 {
            d.madr[ch] & 0x00FF_FFFF
        } else if off % 0x10 == 4 {
            d.bcr[ch]
        } else if off % 0x10 == 8 || off % 0x10 == 0xC {
            d.chcr[ch]
        } else {
            0
        }
    } else if addr == 0x1F80_10F0 {
        d.dpcr
    } else if addr == 0x1F80_10F4 {
        d.dicr
    } else {
        0
    }
}

/// DICR after a write of `value`: the enables as written, a set flag bit (24..30)
/// acknowledges its channel, and bit 31 acknowledges them all.
pub open spec fn dicr_written(dicr: u32, value: u32) -> u32 {
    let ack: u32 = if value & 0x8000_0000 != 0 {
        0x7F
    } else {
        (value & 0x7F00_0000) >> 24
    };
    let flags: u32 = ((dicr & 0x7F00_0000) >> 24) & !ack;
    (value & 0x00FF_FFFF) | (flags << 24)
}

/// Whether DICR asks for the master flag: forced, or enabled with a channel flagged.
pub open spec fn master_wanted(dicr: u32) -> bool {
    (dicr & 0x8000 != 0) || (dicr & 0x80_0000 != 0 && (dicr & 0x7F00_0000) != 0)
}

/// DICR with its master bit (31) recomputed.
pub open spec fn with_master(dicr: u32) -> u32 {
    if master_wanted(dicr) {
        dicr | 0x8000_0000
    } else {
        dicr & 0x7FFF_FFFF
    }
}

/// Carrying the old master bit into a written DICR changes neither what the master
/// flag becomes nor whether it is wanted.
proof fn lemma_dicr_keep_master(w: u32, d0: u32, ack: u32)
    requires
        w == (w & 0x7FFF_FFFF),
    ensures
        master_wanted(w | (d0 & 0x8000_0000)) == master_wanted(w),
        with_master(w | (d0 & 0x8000_0000)) == with_master(w),
        (w | (d0 & 0x8000_0000)) & 0x8000_0000 == d0 & 0x8000_0000,
{
    let x = w | (d0 & 0x8000_0000);
    assert(x & 0x8000 == w & 0x8000 && x & 0x80_0000 == w & 0x80_0000 && x & 0x7F00_0000 == w
        & 0x7F00_0000 && x | 0x8000_0000 == w | 0x8000_0000 && x & 0x7FFF_FFFF == w & 0x7FFF_FFFF
        && x & 0x8000_0000 == d0 & 0x8000_0000) by (bit_vector)
        requires
            w == (w & 0x7FFF_FFFF),
            x == w | (d0 & 0x8000_0000),
    ;
}

/// What moving one word of job `j` does: a list job steps as `list_next` says and
/// leaves RAM alone; a block job meets `block_effect`. `nj` is the job after it.
pub open spec fn word_moved(j: Option<Job>, ram0: Seq<u8>, ram1: Seq<u8>, cd0: Cdrom, nj: Option<Job>) -> bool {
    match j {
        None => true,
        Some(Job::List { addr, pkt_left, next, nodes }) => nj == list_next(addr, pkt_left, next, nodes, ram0)
            && ram1 == ram0,
        Some(Job::Block { ch: b, addr, remaining, dir, step }) => block_effect(
            b,
            addr,
            remaining,
            dir,
            step,
            ram0,
            ram1,
            cd0,
            nj,
        ),
    }
}

/// One DMA cycle from `o` to `n`: with no channel ready nothing happens; the ready
/// channel spends the cycle on a row load (hyper-page), on its clock rate, or moves
/// one word, and a job that ends clears its CHCR start bit.
pub open spec fn dma_cycle(o: Dma, n: Dma, ram0: Seq<u8>, ram1: Seq<u8>, cd0: Cdrom, fifo_full: bool) -> bool {
    match o.ready_spec(o.gpu_blocked_spec(fifo_full)) {
        None => n == o && ram1 == ram0,
        Some(ch) => if o.hyper[ch] {
            &&& !n.hyper[ch]
            &&& n.jobs == o.jobs
            &&& ram1 == ram0
        } else if o.credit[ch] < clocks_spec(ch) - 1 {
            &&& n.credit[ch] == o.credit[ch] + 1
            &&& n.jobs == o.jobs
            &&& ram1 == ram0
        } else {
            &&& word_moved(o.jobs[ch], ram0, ram1, cd0, n.jobs[ch])
            &&& n.jobs[ch] is None ==> n.chcr[ch] == o.chcr[ch] & 0xFEFF_FFFF
            &&& forall|k: int| 0 <= k < 7 && k != ch ==> #[trigger] n.jobs[k] == o.jobs[k]
        },
    }
}

impl Dma {
    /// Every job runs on the channel it was started for.
    pub open spec fn wf(&self) -> bool {
        forall|ch: int|
            0 <= ch < 7 ==> (#[trigger] self.jobs[ch] matches Some(j) ==> (j matches Job::Block {
                ch: c,
                ..
            } ==> c as int == ch) && (j is List ==> ch == 2))
    }

    pub open spec fn initial(&self) -> bool {
        &&& self.dpcr == 0x0765_4321
        &&& self.dicr == 0
        &&& forall|ch: int|
            0 <= ch < 7 ==> self.madr[ch] == 0 && self.bcr[ch] == 0 && self.chcr[ch] == 0
                && #[trigger] self.jobs[ch] is None
    }

    pub fn new() -> (d: Dma)
        ensures
            d.wf(),
            d.initial(),
    {
        Dma {
            madr: [0; 7],
            bcr: [0; 7],
            chcr: [0; 7],
            dpcr: 0x0765_4321,
            dicr: 0,
            jobs: [None, None, None, None, None, None, None],
            credit: [0; 7],
            words_done: [0; 7],
            hyper: [false; 7],
            list_empty: 0,
            list_pkts: 0,
            list_min: 0xFFFF_FFFF,
            list_max: 0,
            list_empty_before: 0,
            list_seen_pkt: false,
            last_list_empty: 0,
            last_list_pkts: 0,
            last_list_min: 0,
            last_list_max: 0,
            last_list_start: 0,
            last_list_start_n: 0,
            last_empty_before: 0,
        }
    }

    pub fn reset(&mut self)
        ensures
            final(self).wf(),
            final(self).initial(),
    {
        *self = Dma::new();
    }

    /// Some channel has a job.
    pub fn active(&self) -> (b: bool)
        ensures
            b == exists|ch: int| 0 <= ch < 7 && #[trigger] self.jobs[ch] is Some,
    {
        let mut ch: usize = 0;
        while ch < 7
            invariant
                ch <= 7,
                forall|k: int| 0 <= k < ch ==> #[trigger] self.jobs[k] is None,
            decreases 7 - ch,
        {
            if self.jobs[ch].is_some() {
                return true;
            }
            ch += 1;
        }
        false
    }

    /// Bit `ch` set when channel `ch` has a job on the bus.
    pub fn job_mask(&self) -> (m: u8)
        ensures
            forall|ch: int|
                0 <= ch < 7 ==> ((m as int / crate::xa::pow2(ch as nat)) % 2 == 1) == (
                #[trigger] self.jobs[ch] is Some),
            m < 128,
    {
        let mut m: u8 = 0;
        let mut bit: u8 = 1;
        let mut ch: usize = 0;
        while ch < 7
            invariant
                ch <= 7,
                bit as int == crate::xa::pow2(ch as nat),
                m < bit,
                forall|k: int|
                    0 <= k < ch ==> ((m as int / crate::xa::pow2(k as nat)) % 2 == 1) == (
                    #[trigger] self.jobs[k] is Some),
            decreases 7 - ch,
        {
            proof {
                crate::xa::lemma_pow2_bound(ch as nat);
                reveal_with_fuel(crate::xa::pow2, 8);
            }
            let ghost m0 = m;
            if self.jobs[ch].is_some() {
                m = m + bit;
            }
            proof {
                assert forall|k: int| 0 <= k <= ch implies ((m as int / crate::xa::pow2(k as nat))
                    % 2 == 1) == (#[trigger] self.jobs[k] is Some) by {
                    crate::xa::lemma_pow2_pos(k as nat);
                    lemma_bit_of_sum(m0 as int, bit as int, k as nat, ch as nat, self.jobs[ch as int] is Some);
                }
            }
            ch += 1;
            bit = bit * 2;
        }
        proof {
            reveal_with_fuel(crate::xa::pow2, 8);
        }
        m
    }

    /// CHCR of channel `ch`, or 0 past the seventh.
    pub fn chcr(&self, ch: usize) -> (v: u32)
        ensures
            v == (if ch < 7 {
                self.chcr[ch as int]
            } else {
                0
            }),
    {
        if ch < 7 {
            self.chcr[ch]
        } else {
            0
        }
    }

    /// The GPU channel is feeding the GPU from RAM (a list, or a block towards it).
    pub fn gpu_from_ram(&self) -> (b: bool)
        ensures
            b == (self.jobs[2] matches Some(j) && (j is List || (j matches Job::Block { dir, .. }
                && dir == 1))),
    {
        match self.jobs[2] {
            Some(Job::List { .. }) => true,
            Some(Job::Block { dir, .. }) => dir == 1,
            None => false,
        }
    }

    pub open spec fn gpu_blocked_spec(&self, fifo_full: bool) -> bool {
        fifo_full && (self.jobs[2] matches Some(j) && ((j matches Job::List { pkt_left, .. }
            && pkt_left > 0) || (j matches Job::Block { dir, remaining, .. } && dir == 1
            && remaining > 0)))
    }

    fn gpu_blocked(&self, gpu: &Gpu) -> (b: bool)
        ensures
            b == self.gpu_blocked_spec(gpu.fifo@.len() >= crate::gpu::FIFO_WORDS),
    {
        if !gpu.fifo_full() {
            return false;
        }
        match self.jobs[2] {
            Some(Job::List { pkt_left, .. }) => pkt_left > 0,
            Some(Job::Block { dir, remaining, .. }) => dir == 1 && remaining > 0,
            None => false,
        }
    }

    /// The GPU channel has words to send but the GPU FIFO is full.
    pub fn waiting_on_gpu(&self, gpu: &Gpu) -> (b: bool)
        ensures
            b == self.gpu_blocked_spec(gpu.fifo@.len() >= crate::gpu::FIFO_WORDS),
    {
        self.gpu_blocked(gpu)
    }

    pub open spec fn eligible(&self, blocked: bool, ch: int) -> bool {
        self.jobs[ch] is Some && !(ch == 2 && blocked)
    }

    /// The channel that owns the bus among the first `n`: the eligible one of lowest
    /// priority value, the lower channel on a tie.
    pub open spec fn ready_upto(&self, blocked: bool, n: int) -> Option<(u32, int)>
        decreases n,
    {
        if n <= 0 {
            None
        } else {
            let prev = self.ready_upto(blocked, n - 1);
            let ch = n - 1;
            if !self.eligible(blocked, ch) {
                prev
            } else {
                match prev {
                    Some(b) => if priority(self.dpcr, ch) >= b.0 {
                        prev
                    } else {
                        Some((priority(self.dpcr, ch), ch))
                    },
                    None => Some((priority(self.dpcr, ch), ch)),
                }
            }
        }
    }

    /// With no job on any channel, no channel is ready.
    pub proof fn lemma_idle_not_ready(&self, blocked: bool, n: int)
        requires
            forall|ch: int| 0 <= ch < 7 ==> #[trigger] self.jobs[ch] is None,
            n <= 7,
        ensures
            self.ready_upto(blocked, n) is None,
        decreases n,
    {
        if n > 0 {
            self.lemma_idle_not_ready(blocked, n - 1);
            assert(self.jobs[n - 1] is None);
        }
    }

    pub open spec fn ready_spec(&self, blocked: bool) -> Option<int> {
        match self.ready_upto(blocked, 7) {
            Some(b) => Some(b.1),
            None => None,
        }
    }

    fn ready_ch(&self, gpu: &Gpu) -> (r: Option<usize>)
        ensures
            r matches Some(c) ==> self.ready_spec(
                self.gpu_blocked_spec(gpu.fifo@.len() >= crate::gpu::FIFO_WORDS),
            ) == Some(c as int) && c < 7 && self.jobs[c as int] is Some,
            r is None ==> self.ready_spec(
                self.gpu_blocked_spec(gpu.fifo@.len() >= crate::gpu::FIFO_WORDS),
            ) is None,
    {
        let blocked = self.gpu_blocked(gpu);
        let mut best: Option<(u32, usize)> = None;
        let mut ch: usize = 0;
        while ch < 7
            invariant
                ch <= 7,
                blocked == self.gpu_blocked_spec(gpu.fifo@.len() >= crate::gpu::FIFO_WORDS),
                match best {
                    Some(b) => self.ready_upto(blocked, ch as int) == Some((b.0, b.1 as int))
                        && b.1 < ch && self.jobs[b.1 as int] is Some,
                    None => self.ready_upto(blocked, ch as int) is None,
                },
            decreases 7 - ch,
        {
            if self.jobs[ch].is_some() && !(ch == 2 && blocked) {
                let pri: u32 = (self.dpcr >> ((ch * 4) as u32)) & 7;
                match best {
                    Some((p, _)) => {
                        if !(pri >= p) {
                            best = Some((pri, ch));
                        }
                    },
                    None => {
                        best = Some((pri, ch));
                    },
                }
            }
            ch += 1;
        }
        match best {
            Some((_, c)) => Some(c),
            None => None,
        }
    }

    /// Some channel can use the bus this cycle.
    pub fn occupies_ram(&self, gpu: &Gpu) -> (b: bool)
        ensures
            b == self.ready_spec(self.gpu_blocked_spec(gpu.fifo@.len() >= crate::gpu::FIFO_WORDS))
                is Some,
    {
        self.ready_ch(gpu).is_some()
    }

    /// The CPU cycles the bus owner holds RAM for: a non-GPU block's words at its
    /// clock rate plus one row load per 16 words; 1 otherwise.
    pub fn burst_cycles(&self, gpu: &Gpu) -> (c: u32)
        ensures
            c >= 1,
            (match self.ready_spec(self.gpu_blocked_spec(gpu.fifo@.len() >= crate::gpu::FIFO_WORDS)) {
                Some(ch) => ch != 2 && (self.jobs[ch] matches Some(j) && j is Block),
                None => false,
            }) ==> {
                let ch = self.ready_spec(
                    self.gpu_blocked_spec(gpu.fifo@.len() >= crate::gpu::FIFO_WORDS),
                )->0;
                let rem = self.jobs[ch]->0->Block_remaining as int;
                let t = rem * clocks_spec(ch) + (rem + 15) / 16;
                c == (if t > u32::MAX {
                    u32::MAX as int
                } else if t < 1 {
                    1
                } else {
                    t
                })
            },
    {
        match self.ready_ch(gpu) {
            Some(ch) => {
                if ch != 2 {
                    match self.jobs[ch] {
                        Some(Job::Block { remaining, .. }) => {
                            let cpw = clocks_per_word(ch);
                            assert(remaining as u64 * cpw as u64 <= 0xFFFF_FFFFu64 * 24) by (
                            nonlinear_arith)
                                requires
                                    cpw <= 24,
                            ;
                            let t: u64 = remaining as u64 * cpw as u64 + (
                            remaining as u64 + 15) / 16;
                            if t > 0xFFFF_FFFF {
                                0xFFFF_FFFF
                            } else if t < 1 {
                                1
                            } else {
                                t as u32
                            }
                        },
                        _ => 1,
                    }
                } else {
                    1
                }
            },
            None => 1,
        }
    }

    pub fn read32(&self, addr: u32) -> (v: u32)
        ensures
            v == dma_read_spec(self, addr),
    {
        if addr >= 0x1F80_1080 && addr - 0x1F80_1080 < 0x70 {
            let off = addr - 0x1F80_1080;
            let ch = (off / 0x10) as usize;
            let r = off % 0x10;
            if r == 0 {
                self.madr[ch] & 0x00FF_FFFF
            } else if r == 4 {
                self.bcr[ch]
            } else if r == 8 || r == 0xC {
                self.chcr[ch]
            } else {
                0
            }
        } else if addr == 0x1F80_10F0 {
            self.dpcr
        } else if addr == 0x1F80_10F4 {
            self.dicr
        } else {
            0
        }
    }

    /// Recompute DICR's master flag; I_STAT.3 is raised on its 0-to-1 edge only.
    fn update_master(&mut self, irq: &mut Irq)
        ensures
            final(self).dicr == with_master(old(self).dicr),
            master_wanted(old(self).dicr) && old(self).dicr & 0x8000_0000 == 0 ==> final(irq).stat
                == old(irq).stat | crate::irq::bit16(IRQ_DMA),
            !(master_wanted(old(self).dicr) && old(self).dicr & 0x8000_0000 == 0) ==> final(
                irq).stat == old(irq).stat,
            final(irq).mask == old(irq).mask,
            final(irq).level == old(irq).level,
            final(self).jobs == old(self).jobs,
            final(self).madr == old(self).madr,
            final(self).bcr == old(self).bcr,
            final(self).chcr == old(self).chcr,
            final(self).dpcr == old(self).dpcr,
    {
        let d = self.dicr;
        let flagged = (d & 0x8000 != 0) || (d & 0x80_0000 != 0 && (d & 0x7F00_0000) != 0);
        let was_master = d & 0x8000_0000 != 0;
        if flagged {
            self.dicr = d | 0x8000_0000;
            if !was_master {
                irq.raise(IRQ_DMA);
            }
        } else {
            self.dicr = d & 0x7FFF_FFFF;
        }
    }

    /// A channel's transfer is over: clear its start bit, flag it in DICR when its
    /// interrupt is enabled, and update the master flag.
    fn finish(&mut self, ch: usize, irq: &mut Irq)
        requires
            old(self).wf(),
            ch < 7,
        ensures
            final(self).wf(),
            final(self).jobs[ch as int] is None,
            forall|k: int| 0 <= k < 7 && k != ch ==> #[trigger] final(self).jobs[k] == old(
                self).jobs[k],
            final(self).chcr[ch as int] == old(self).chcr[ch as int] & 0xFEFF_FFFF,
            final(irq).mask == old(irq).mask,
            final(self).dpcr == old(self).dpcr,
    {
        self.jobs[ch] = None;
        self.hyper[ch] = false;
        self.credit[ch] = 0;
        self.chcr[ch] = self.chcr[ch] & 0xFEFF_FFFF;
        let en: u32 = 1u32 << ((16 + ch) as u32);
        let fl: u32 = 1u32 << ((24 + ch) as u32);
        if self.dicr & 0x80_0000 != 0 && self.dicr & en != 0 {
            self.dicr = self.dicr | fl;
        }
        self.update_master(irq);
    }

    /// The job a start of the GPU channel creates: a linked list (mode 2 from RAM),
    /// a block to the GPU (mode 1 from RAM), else nothing.
    fn start_gpu(&mut self, ram: &Vec<u8>) -> (j: Option<Job>)
        requires
            ram.len() == RAM_SIZE,
        ensures
            ((old(self).chcr[2] >> 9) & 3) == 2 && old(self).chcr[2] & 1 == 1 ==> j == Some(
                Job::List { addr: old(self).madr[2] & 0x1F_FFFF, pkt_left: 0, next: 0, nodes: 0 },
            ),
            ((old(self).chcr[2] >> 9) & 3) == 1 && old(self).chcr[2] & 1 == 1 ==> j == Some(
                Job::Block {
                    ch: 2,
                    addr: old(self).madr[2] & 0x1F_FFFF,
                    remaining: block_words_spec(old(self).bcr[2], 0x1_0000) as u32,
                    dir: 1,
                    step: 4,
                },
            ),
            !(((old(self).chcr[2] >> 9) & 3) == 2 && old(self).chcr[2] & 1 == 1) && !(((old(
                self).chcr[2] >> 9) & 3) == 1 && old(self).chcr[2] & 1 == 1) ==> j is None,
            final(self).jobs == old(self).jobs,
            final(self).madr == old(self).madr,
            final(self).bcr == old(self).bcr,
            final(self).chcr == old(self).chcr,
            final(self).dpcr == old(self).dpcr,
            final(self).dicr == old(self).dicr,
    {
        let mode = (self.chcr[2] >> 9) & 3;
        let dir = self.chcr[2] & 1;
        let addr = self.madr[2] & 0x1F_FFFF;
        if mode == 2 && dir == 1 {
            self.list_empty = 0;
            self.list_pkts = 0;
            self.list_min = 0xFFFF_FFFF;
            self.list_max = 0;
            self.list_empty_before = 0;
            self.list_seen_pkt = false;
            self.last_list_start = addr;
            self.last_list_start_n = read_word(ram, addr) / 0x100_0000;
            Some(Job::List { addr, pkt_left: 0, next: 0, nodes: 0 })
        } else if mode == 1 && dir == 1 {
            Some(Job::Block { ch: 2, addr, remaining: block_words(self.bcr[2], 0x1_0000), dir: 1, step: 4 })
        } else {
            None
        }
    }

    /// CHCR start bit: when DPCR enables the channel, its job begins (GPU, CD-ROM,
    /// SPU or OTC); otherwise, or with no job, the start bit drops.
    fn start(&mut self, ch: usize, ram: &Vec<u8>)
        requires
            old(self).wf(),
            ch < 7,
            ram.len() == RAM_SIZE,
        ensures
            final(self).wf(),
            forall|k: int| 0 <= k < 7 && k != ch ==> #[trigger] final(self).jobs[k] == old(
                self).jobs[k],
            (old(self).dpcr >> ((ch * 4 + 3) as u32)) & 1 == 0 ==> final(self).jobs[ch as int]
                == old(self).jobs[ch as int] && final(self).chcr[ch as int] == old(self).chcr[ch as int]
                & 0xFEFF_FFFF,
            (old(self).dpcr >> ((ch * 4 + 3) as u32)) & 1 != 0 && (ch == 3 || ch == 4) ==> final(
                self).jobs[ch as int] == Some(
                Job::Block {
                    ch: ch as u8,
                    addr: old(self).madr[ch as int] & 0x1F_FFFF,
                    remaining: block_words_spec(old(self).bcr[ch as int], 1) as u32,
                    dir: (old(self).chcr[ch as int] & 1) as u8,
                    step: 4,
                },
            ),
            (old(self).dpcr >> ((ch * 4 + 3) as u32)) & 1 != 0 && ch == 6 ==> final(self).jobs[6]
                == Some(
                Job::Block {
                    ch: 6,
                    addr: old(self).madr[6] & 0x1F_FFFF,
                    remaining: (if old(self).bcr[6] % 0x1_0000 == 0 {
                        0x1_0000
                    } else {
                        old(self).bcr[6] % 0x1_0000
                    }) as u32,
                    dir: 0,
                    step: -4i32,
                },
            ),
            (old(self).dpcr >> ((ch * 4 + 3) as u32)) & 1 != 0 && (ch == 0 || ch == 1 || ch == 5)
                ==> final(self).jobs[ch as int] is None,
            final(self).madr == old(self).madr,
            final(self).bcr == old(self).bcr,
            final(self).dpcr == old(self).dpcr,
            final(self).dicr == old(self).dicr,
    {
        if (self.dpcr >> ((ch * 4 + 3) as u32)) & 1 == 0 {
            self.chcr[ch] = self.chcr[ch] & 0xFEFF_FFFF;
            return ;
        }
        self.credit[ch] = 0;
        self.words_done[ch] = 0;
        self.hyper[ch] = false;
        let job: Option<Job> = if ch == 2 {
            self.start_gpu(ram)
        } else if ch == 3 || ch == 4 {
            Some(
                Job::Block {
                    ch: ch as u8,
                    addr: self.madr[ch] & 0x1F_FFFF,
                    remaining: block_words(self.bcr[ch], 1),
                    dir: (self.chcr[ch] & 1) as u8,
                    step: 4,
                },
            )
        } else if ch == 6 {
            let n: u32 = if self.bcr[6] % 0x1_0000 == 0 {
                0x1_0000
            } else {
                self.bcr[6] % 0x1_0000
            };
            Some(Job::Block { ch: 6, addr: self.madr[6] & 0x1F_FFFF, remaining: n, dir: 0, step: -4 })
        } else {
            None
        };
        self.jobs[ch] = job;
        if self.jobs[ch].is_none() {
            self.chcr[ch] = self.chcr[ch] & 0xFEFF_FFFF;
        }
    }

    pub fn write32(
        &mut self,
        addr: u32,
        value: u32,
        ram: &mut Vec<u8>,
        gpu: &mut Gpu,
        spu: &mut Spu,
        cdrom: &mut Cdrom,
        irq: &mut Irq,
    )
        requires
            old(self).wf(),
            old(ram).len() == RAM_SIZE,
        ensures
            final(self).wf(),
            *final(ram) == *old(ram),
            *final(gpu) == *old(gpu),
            *final(spu) == *old(spu),
            *final(cdrom) == *old(cdrom),
            final(irq).mask == old(irq).mask,
            addr >= 0x1F80_1080 && addr - 0x1F80_1080 < 0x70 && (addr - 0x1F80_1080) % 0x10 == 0
                ==> final(self).madr[(addr - 0x1F80_1080) / 0x10] == value & 0x00FF_FFFF,
            addr >= 0x1F80_1080 && addr - 0x1F80_1080 < 0x70 && (addr - 0x1F80_1080) % 0x10 == 4
                ==> final(self).bcr[(addr - 0x1F80_1080) / 0x10] == value,
            addr >= 0x1F80_1080 && addr - 0x1F80_1080 < 0x70 && ((addr - 0x1F80_1080) % 0x10 == 8
                || (addr - 0x1F80_1080) % 0x10 == 0xC) && value & 0x100_0000 == 0 ==> final(
                self).chcr[(addr - 0x1F80_1080) / 0x10] == value,
            addr == 0x1F80_10F0 ==> final(self).dpcr == value,
            addr == 0x1F80_10F4 ==> final(self).dicr == with_master(dicr_written(old(self).dicr, value)),
            addr == 0x1F80_10F4 ==> final(irq).stat == (if master_wanted(
                dicr_written(old(self).dicr, value),
            ) && old(self).dicr & 0x8000_0000 == 0 {
                old(irq).stat | crate::irq::bit16(IRQ_DMA)
            } else {
                old(irq).stat
            }),
    {
        if addr >= 0x1F80_1080 && addr - 0x1F80_1080 < 0x70 {
            let off = addr - 0x1F80_1080;
            let ch = (off / 0x10) as usize;
            let r = off % 0x10;
            if r == 0 {
                self.madr[ch] = value & 0x00FF_FFFF;
            } else if r == 4 {
                self.bcr[ch] = value;
            } else if r == 8 || r == 0xC {
                self.chcr[ch] = value;
                if value & 0x100_0000 != 0 {
                    self.start(ch, ram);
                }
            }
        } else if addr == 0x1F80_10F0 {
            self.dpcr = value;
        } else if addr == 0x1F80_10F4 {
            let ack: u32 = if value & 0x8000_0000 != 0 {
                0x7F
            } else {
                (value & 0x7F00_0000) >> 24
            };
            let d0 = self.dicr;
            let flags: u32 = ((d0 & 0x7F00_0000) >> 24) & !ack;
            let w = (value & 0x00FF_FFFF) | (flags << 24);
            // The master flag stays as it was until recomputed, so a write that
            // leaves flags set does not count as a new 0-to-1 edge.
            self.dicr = w | (d0 & 0x8000_0000);
            proof {
                assert(w == (w & 0x7FFF_FFFF)) by (bit_vector)
                    requires
                        w == (value & 0x00FF_FFFF) | (flags << 24),
                        flags == ((d0 & 0x7F00_0000) >> 24) & !ack,
                ;
                lemma_dicr_keep_master(w, d0, ack);
            }
            self.update_master(irq);
        }
    }

    pub open spec fn devices_ok(ram: Seq<u8>, gpu: &Gpu, spu: &Spu, cdrom: &Cdrom) -> bool {
        &&& ram.len() == RAM_SIZE
        &&& gpu.wf()
        &&& spu.wf()
        &&& cdrom.wf()
    }

    fn finish_list_stats(&mut self)
        ensures
            final(self).jobs == old(self).jobs,
            final(self).words_done == old(self).words_done,
            final(self).chcr == old(self).chcr,
            final(self).dicr == old(self).dicr,
            final(self).dpcr == old(self).dpcr,
            old(self).list_pkts > old(self).last_list_pkts ==> final(self).last_list_pkts == old(
                self).list_pkts,
    {
        if self.list_pkts > self.last_list_pkts {
            self.last_list_empty = self.list_empty;
            self.last_list_pkts = self.list_pkts;
            self.last_list_min = self.list_min;
            self.last_list_max = self.list_max;
            self.last_empty_before = self.list_empty_before;
        }
    }

    /// One step of the GPU linked list: read a node header, or send one packet word.
    fn list_word(&mut self, ram: &Vec<u8>, gpu: &mut Gpu)
        requires
            old(self).wf(),
            ram.len() == RAM_SIZE,
            old(gpu).wf(),
            old(self).jobs[2] matches Some(j) && j is List,
        ensures
            final(self).wf(),
            final(gpu).wf(),
            forall|k: int| 0 <= k < 7 && k != 2 ==> #[trigger] final(self).jobs[k] == old(
                self).jobs[k],
            final(self).jobs[2] matches Some(j) ==> j is List,
            final(self).chcr == old(self).chcr,
            final(self).dicr == old(self).dicr,
            final(self).words_done == old(self).words_done,
            final(self).dpcr == old(self).dpcr,
            (match old(self).jobs[2] {
                Some(Job::List { addr, pkt_left, next, nodes }) => final(self).jobs[2] == list_next(
                    addr,
                    pkt_left,
                    next,
                    nodes,
                    ram@,
                ) && (pkt_left == 0 ==> *final(gpu) == *old(gpu)) && (pkt_left > 0 ==> crate::gpu::gp0_effect(
                    *old(gpu),
                    *final(gpu),
                    word_at(ram@, word_off(addr)) as u32,
                )),
                _ => true,
            }),
    {
        let (addr, pkt_left, next, nodes) = match self.jobs[2] {
            Some(Job::List { addr, pkt_left, next, nodes }) => (addr, pkt_left, next, nodes),
            _ => {
                return ;
            },
        };
        if pkt_left == 0 {
            if addr == 0x00FF_FFFF || addr > 0x1F_FFFF || nodes >= 1_000_000 {
                self.finish_list_stats();
                self.jobs[2] = None;
                return ;
            }
            if addr < self.list_min {
                self.list_min = addr;
            }
            if addr > self.list_max {
                self.list_max = addr;
            }
            let header = read_word(ram, addr);
            let words = header / 0x100_0000;
            let nxt = header % 0x100_0000;
            if words == 0 {
                self.list_empty = self.list_empty.wrapping_add(1);
                if !self.list_seen_pkt {
                    self.list_empty_before = self.list_empty_before.wrapping_add(1);
                }
                if nxt == 0x00FF_FFFF {
                    self.finish_list_stats();
                    self.jobs[2] = None;
                    return ;
                }
                self.jobs[2] = Some(
                    Job::List { addr: nxt & 0x1F_FFFF, pkt_left, next: nxt, nodes: nodes + 1 },
                );
                return ;
            }
            self.list_pkts = self.list_pkts.wrapping_add(1);
            self.list_seen_pkt = true;
            self.jobs[2] = Some(
                Job::List {
                    addr: addr.wrapping_add(4) & 0x1F_FFFF,
                    pkt_left: words,
                    next: nxt,
                    nodes: nodes + 1,
                },
            );
            return ;
        }
        gpu.dma_write(read_word(ram, addr));
        let a2 = addr.wrapping_add(4) & 0x1F_FFFF;
        let left = pkt_left - 1;
        if left == 0 {
            if next == 0x00FF_FFFF {
                self.finish_list_stats();
                self.jobs[2] = None;
            } else {
                self.jobs[2] = Some(Job::List { addr: next & 0x1F_FFFF, pkt_left: 0, next, nodes });
            }
        } else {
            self.jobs[2] = Some(Job::List { addr: a2, pkt_left: left, next, nodes });
        }
    }

    /// One word of a block channel: OTC writes the backward-linked empty list, CD-ROM
    /// and SPU move data, the GPU block feeds GP0.
    fn block_word(
        &mut self,
        ch: usize,
        ram: &mut Vec<u8>,
        gpu: &mut Gpu,
        spu: &mut Spu,
        cdrom: &mut Cdrom,
    )
        requires
            old(self).wf(),
            ch < 7,
            Dma::devices_ok(old(ram)@, old(gpu), old(spu), old(cdrom)),
            old(self).jobs[ch as int] matches Some(j) && j is Block,
        ensures
            final(self).wf(),
            Dma::devices_ok(final(ram)@, final(gpu), final(spu), final(cdrom)),
            final(spu).cycle_accum == old(spu).cycle_accum,
            final(spu).samples == old(spu).samples,
            forall|k: int| 0 <= k < 7 && k != ch ==> #[trigger] final(self).jobs[k] == old(
                self).jobs[k],
            final(self).jobs[ch as int] matches Some(j) ==> j is Block,
            final(self).chcr == old(self).chcr,
            final(self).dicr == old(self).dicr,
            final(self).words_done == old(self).words_done,
            final(self).dpcr == old(self).dpcr,
            (match old(self).jobs[ch as int] {
                Some(Job::Block { ch: b, addr, remaining, dir, step }) => block_effect(
                    b,
                    addr,
                    remaining,
                    dir,
                    step,
                    old(ram)@,
                    final(ram)@,
                    *old(cdrom),
                    final(self).jobs[ch as int],
                ),
                _ => true,
            }),
    {
        let (b, addr, remaining, dir, step) = match self.jobs[ch] {
            Some(Job::Block { ch, addr, remaining, dir, step }) => (ch, addr, remaining, dir, step),
            _ => {
                return ;
            },
        };
        if remaining == 0 {
            self.jobs[ch] = None;
            return ;
        }
        if b == 6 {
            let moved = (addr as i32).wrapping_add(step) as u32 & 0x1F_FFFF;
            let next = if remaining == 1 {
                0x00FF_FFFF
            } else {
                moved
            };
            write_word(ram, addr, next);
            self.jobs[ch] = Some(Job::Block { ch: b, addr: moved, remaining: remaining - 1, dir, step });
        } else if b == 3 {
            let w = cdrom.dma_read32();
            write_word(ram, addr, w);
            self.jobs[ch] = Some(
                Job::Block {
                    ch: b,
                    addr: addr.wrapping_add(4) & 0x1F_FFFF,
                    remaining: remaining - 1,
                    dir,
                    step,
                },
            );
        } else if b == 4 {
            if dir == 1 {
                let w = read_word(ram, addr);
                spu.dma_write16((w % 0x1_0000) as u16);
                spu.dma_write16((w / 0x1_0000) as u16);
            }
            self.jobs[ch] = Some(
                Job::Block {
                    ch: b,
                    addr: addr.wrapping_add(4) & 0x1F_FFFF,
                    remaining: remaining - 1,
                    dir,
                    step,
                },
            );
        } else if b == 2 {
            gpu.dma_write(read_word(ram, addr));
            self.jobs[ch] = Some(
                Job::Block {
                    ch: b,
                    addr: addr.wrapping_add(4) & 0x1F_FFFF,
                    remaining: remaining - 1,
                    dir,
                    step,
                },
            );
        } else {
            self.jobs[ch] = None;
            return ;
        }
        if remaining - 1 == 0 {
            self.jobs[ch] = None;
        }
    }

    fn transfer_one(
        &mut self,
        ch: usize,
        ram: &mut Vec<u8>,
        gpu: &mut Gpu,
        spu: &mut Spu,
        cdrom: &mut Cdrom,
    )
        requires
            old(self).wf(),
            ch < 7,
            Dma::devices_ok(old(ram)@, old(gpu), old(spu), old(cdrom)),
        ensures
            final(self).wf(),
            Dma::devices_ok(final(ram)@, final(gpu), final(spu), final(cdrom)),
            final(spu).cycle_accum == old(spu).cycle_accum,
            final(spu).samples == old(spu).samples,
            forall|k: int| 0 <= k < 7 && k != ch ==> #[trigger] final(self).jobs[k] == old(
                self).jobs[k],
            final(self).chcr == old(self).chcr,
            final(self).dicr == old(self).dicr,
            final(self).dpcr == old(self).dpcr,
            (match old(self).jobs[ch as int] {
                None => *final(self) == *old(self) && *final(ram) == *old(ram) && *final(gpu) == *old(gpu),
                Some(Job::List { addr, pkt_left, next, nodes }) => final(self).jobs[ch as int]
                    == list_next(addr, pkt_left, next, nodes, old(ram)@) && *final(ram) == *old(ram),
                Some(Job::Block { ch: b, addr, remaining, dir, step }) => block_effect(
                    b,
                    addr,
                    remaining,
                    dir,
                    step,
                    old(ram)@,
                    final(ram)@,
                    *old(cdrom),
                    final(self).jobs[ch as int],
                ),
            }),
            final(self).words_done[ch as int] == (if old(self).jobs[ch as int] is Some
                && final(self).jobs[ch as int] is Some {
                (old(self).words_done[ch as int] + 1) % 0x1_0000_0000
            } else {
                old(self).words_done[ch as int] as int
            }),
    {
        match self.jobs[ch] {
            Some(Job::List { .. }) => {
                self.list_word(ram, gpu);
            },
            Some(Job::Block { .. }) => {
                self.block_word(ch, ram, gpu, spu, cdrom);
            },
            None => {
                return ;
            },
        }
        if self.jobs[ch].is_some() {
            self.words_done[ch] = self.words_done[ch].wrapping_add(1);
            if self.words_done[ch] % 16 == 0 {
                self.hyper[ch] = true;
            }
        }
    }

    /// Run the bus owner for `cycles`: a row load costs a cycle every 16 words, each
    /// word waits out its channel's clock rate, and a finished channel raises its flag.
    pub fn tick(
        &mut self,
        cycles: u32,
        ram: &mut Vec<u8>,
        gpu: &mut Gpu,
        spu: &mut Spu,
        cdrom: &mut Cdrom,
        irq: &mut Irq,
    )
        requires
            old(self).wf(),
            Dma::devices_ok(old(ram)@, old(gpu), old(spu), old(cdrom)),
        ensures
            final(self).wf(),
            Dma::devices_ok(final(ram)@, final(gpu), final(spu), final(cdrom)),
            final(spu).cycle_accum == old(spu).cycle_accum,
            final(spu).samples == old(spu).samples,
            final(irq).mask == old(irq).mask,
            final(self).dpcr == old(self).dpcr,
            (forall|ch: int| 0 <= ch < 7 ==> #[trigger] old(self).jobs[ch] is None) ==> *final(
                self) == *old(self) && *final(ram) == *old(ram) && *final(irq) == *old(irq),
            cycles == 1 ==> dma_cycle(
                *old(self),
                *final(self),
                old(ram)@,
                final(ram)@,
                *old(cdrom),
                old(gpu).fifo@.len() >= crate::gpu::FIFO_WORDS,
            ),
    {
        let ghost c0 = cycles;
        let mut left: u32 = cycles;
        while left > 0
            invariant
                self.wf(),
                Dma::devices_ok(ram@, gpu, spu, cdrom),
                spu.cycle_accum == old(spu).cycle_accum,
                spu.samples == old(spu).samples,
                irq.mask == old(irq).mask,
                self.dpcr == old(self).dpcr,
                (forall|ch: int| 0 <= ch < 7 ==> #[trigger] old(self).jobs[ch] is None) ==> *self
                    == *old(self) && *ram == *old(ram) && *irq == *old(irq),
                c0 == cycles,
                left <= cycles,
                cycles == 1 && left == 1 ==> *self == *old(self) && *ram == *old(ram) && *gpu == *old(gpu)
                    && *cdrom == *old(cdrom),
                cycles == 1 && left == 0 ==> dma_cycle(
                    *old(self),
                    *self,
                    old(ram)@,
                    ram@,
                    *old(cdrom),
                    old(gpu).fifo@.len() >= crate::gpu::FIFO_WORDS,
                ),
            ensures
                cycles == 1 && left == 1 ==> old(self).ready_spec(
                    old(self).gpu_blocked_spec(old(gpu).fifo@.len() >= crate::gpu::FIFO_WORDS),
                ) is None,
            decreases left,
        {
            let ch = match self.ready_ch(gpu) {
                Some(c) => c,
                None => {
                    break;
                },
            };
            if self.hyper[ch] {
                self.hyper[ch] = false;
                left = left - 1;
                continue;
            }
            let rate = clocks_per_word(ch);
            if self.credit[ch] < rate - 1 {
                self.credit[ch] = self.credit[ch] + 1;
                left = left - 1;
                continue;
            }
            self.credit[ch] = 0;
            self.transfer_one(ch, ram, gpu, spu, cdrom);
            left = left - 1;
            if self.jobs[ch].is_none() {
                self.finish(ch, irq);
            }
        }
    }
}

/// Adding bit `ch` (or not) to a sum of lower bits: bit `k` of the result is bit `k` of
/// the old sum below `ch`, and the added bit at `ch`.
proof fn lemma_bit_of_sum(m0: int, bit: int, k: nat, ch: nat, add: bool)
    requires
        bit == crate::xa::pow2(ch),
        0 <= m0 < bit,
        k <= ch,
    ensures
        (((if add {
            m0 + bit
        } else {
            m0
        }) / crate::xa::pow2(k)) % 2 == 1) == (if k == ch {
            add
        } else {
            (m0 / crate::xa::pow2(k)) % 2 == 1
        }),
    decreases ch,
{
    crate::xa::lemma_pow2_pos(k);
    crate::xa::lemma_pow2_pos(ch);
    let m = if add {
        m0 + bit
    } else {
        m0
    };
    if k == ch {
        assert(m / bit == (if add {
            1int
        } else {
            0
        })) by (nonlinear_arith)
            requires
                m == (if add {
                    m0 + bit
                } else {
                    m0
                }),
                0 <= m0 < bit,
        ;
    } else {
        // 2^ch = 2^k * 2^(ch-k), so adding 2^ch adds an even multiple of 2^k's unit.
        lemma_pow2_split(k, ch);
        let q = crate::xa::pow2((ch - k) as nat);
        let pk = crate::xa::pow2(k);
        assert(bit == pk * q);
        assert(q % 2 == 0) by {
            lemma_pow2_even((ch - k) as nat);
        }
        crate::xa::lemma_pow2_pos((ch - k) as nat);
        if add {
            assert((m0 + pk * q) / pk == m0 / pk + q) by (nonlinear_arith)
                requires
                    pk > 0,
                    m0 >= 0,
            ;
            assert((m0 / pk + q) % 2 == (m0 / pk) % 2) by (nonlinear_arith)
                requires
                    q % 2 == 0,
                    m0 / pk >= 0,
                    q >= 0,
            ;
        }
    }
}

proof fn lemma_pow2_split(k: nat, n: nat)
    requires
        k <= n,
    ensures
        crate::xa::pow2(n) == crate::xa::pow2(k) * crate::xa::pow2((n - k) as nat),
    decreases n,
{
    if k == n {
        assert(crate::xa::pow2(0) == 1);
    } else {
        lemma_pow2_split(k, (n - 1) as nat);
        assert(crate::xa::pow2(n) == 2 * crate::xa::pow2((n - 1) as nat));
        assert(crate::xa::pow2((n - k) as nat) == 2 * crate::xa::pow2((n - 1 - k) as nat));
        assert(crate::xa::pow2(k) * (2 * crate::xa::pow2((n - 1 - k) as nat)) == 2 * (
        crate::xa::pow2(k) * crate::xa::pow2((n - 1 - k) as nat))) by (nonlinear_arith);
    }
}

proof fn lemma_pow2_even(j: nat)
    requires
        j > 0,
    ensures
        crate::xa::pow2(j) % 2 == 0,
{
    crate::xa::lemma_pow2_pos((j - 1) as nat);
}

} // verus!
