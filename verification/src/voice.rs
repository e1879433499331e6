//! One SPU voice: ADPCM block decoding, the ADSR envelope and volume sweeps, in the
//! 1.15 fixed point the SPU mixes in.
use vstd::prelude::*;

use crate::fixed::pow2n;
use crate::xa::clamp16;

verus! {

/// Where a voice is in its envelope.
#[derive(Clone, Copy, PartialEq, Eq, Structural, Debug)]
pub enum Phase {
    Off,
    Attack,
    Decay,
    Sustain,
    Release,
}

/// A voice: sample addresses, pitch counter, decoder and interpolation state, envelope
/// and volume sweep.
#[derive(Clone, Copy)]
pub struct Voice {
    pub current_addr: u32,
    pub repeat_addr: u32,
    pub pitch_counter: u32,
    pub adsr_level: i32,
    pub adsr_counter: u32,
    pub phase: Phase,
    pub hist: [i32; 2],
    pub gauss: [i16; 4],
    pub decoded: [i16; 28],
    pub decode_idx: usize,
    pub end_after: bool,
    pub loop_repeat: bool,
    pub started: bool,
    pub sweep_level: i32,
    pub sweep_counter: u32,
}

/// An envelope or sweep level: the 1.15 range, with 8000h reachable as a sustain level.
pub open spec fn level_ok(l: int) -> bool {
    -0x8000 <= l <= 0x8000
}

/// The magnitude of `x`.
pub open spec fn mag(x: int) -> int {
    if x < 0 {
        -x
    } else {
        x
    }
}

/// Rust's `/` on integers: the quotient rounded toward zero.
pub open spec fn trunc_div(x: int, d: int) -> int {
    if x >= 0 {
        x / d
    } else {
        -((-x) / d)
    }
}

impl Voice {
    /// What the voice's arithmetic relies on.
    pub open spec fn ok(&self) -> bool {
        &&& level_ok(self.adsr_level as int)
        &&& level_ok(self.sweep_level as int)
        &&& self.decode_idx <= 28
        &&& self.pitch_counter < 0x1000
        &&& -0x8000 <= self.hist[0] <= 0x7FFF
        &&& -0x8000 <= self.hist[1] <= 0x7FFF
    }

    /// A voice that was never keyed on.
    pub open spec fn is_new(&self) -> bool {
        &&& self.current_addr == 0
        &&& self.repeat_addr == 0
        &&& self.pitch_counter == 0
        &&& self.adsr_level == 0
        &&& self.adsr_counter == 0
        &&& self.phase == Phase::Off
        &&& self.hist[0] == 0 && self.hist[1] == 0
        &&& forall|k: int| 0 <= k < 4 ==> self.gauss[k] == 0
        &&& self.decode_idx == 28
        &&& !self.end_after
        &&& !self.loop_repeat
        &&& !self.started
        &&& self.sweep_level == 0
        &&& self.sweep_counter == 0
    }

    pub fn new() -> (v: Voice)
        ensures
            v.is_new(),
            v.ok(),
    {
        Voice {
            current_addr: 0,
            repeat_addr: 0,
            pitch_counter: 0,
            adsr_level: 0,
            adsr_counter: 0,
            phase: Phase::Off,
            hist: [0; 2],
            gauss: [0; 4],
            decoded: [0; 28],
            decode_idx: 28,
            end_after: false,
            loop_repeat: false,
            started: false,
            sweep_level: 0,
            sweep_counter: 0,
        }
    }
}

/// floor(a * b / 2^15): a product in 1.15 fixed point.
pub open spec fn mul15_spec(a: int, b: int) -> int {
    (a * b) / 32768
}

/// The 1.15 product of a sample and a level; it is never larger than the sample.
pub fn mul15(a: i64, b: i64) -> (r: i64)
    requires
        -0x100_0000_0000 <= a <= 0x100_0000_0000,
        -0x8000 <= b <= 0x8000,
    ensures
        r == mul15_spec(a as int, b as int),
        -mag(a as int) <= r <= mag(a as int),
{
    let m: i64 = if a < 0 {
        -a
    } else {
        a
    };
    assert(-m * 32768 <= a * b <= m * 32768) by (nonlinear_arith)
        requires
            m == mag(a as int),
            -0x8000 <= b <= 0x8000,
    ;
    let p = a * b;
    let r = p >> 15u32;
    assert(r as int == p as int / 32768) by (bit_vector)
        requires
            r == p >> 15u32,
    ;
    assert(-m <= p / 32768 <= m) by (nonlinear_arith)
        requires
            -m * 32768 <= p <= m * 32768,
            m >= 0,
    ;
    r
}

// ---------------------------------------------------------------------------------
// The envelope generator (ADSR and volume sweeps)
// ---------------------------------------------------------------------------------
/// The level step before the exponential adjustments: 7 - step (increasing) or
/// step - 8 (decreasing), moved up by 11 - shift bits.
pub open spec fn env_step(step_value: int, shift: int, decreasing: bool) -> int {
    let base = if decreasing {
        step_value - 8
    } else {
        7 - step_value
    };
    base * pow2n(
        (if shift < 11 {
            11 - shift
        } else {
            0
        }) as nat,
    )
}

/// The counter increment before the exponential adjustments: 8000h moved down by
/// shift - 11 bits.
pub open spec fn env_inc(shift: int) -> int {
    0x8000int / pow2n(
        (if shift > 11 {
            shift - 11
        } else {
            0
        }) as nat,
    )
}

/// The exponential adjustments: slower above 6000h when rising, proportional to the
/// level when falling.
pub open spec fn env_adjusted(level: int, shift: int, step: int, inc: int, exp: bool, dec: bool) -> (
    int,
    int,
) {
    if exp && !dec && level > 0x6000 {
        if shift < 10 {
            (step / 4, inc)
        } else if shift >= 11 {
            (step, inc / 4)
        } else {
            (step / 2, inc / 2)
        }
    } else if exp && dec {
        (trunc_div(step * level, 0x8000), inc)
    } else {
        (step, inc)
    }
}

/// One envelope tick from (level, counter): the counter advances, and when it
/// carries into bit 15 the level takes its step, clamped to 16 bits (rising) or at 0
/// (falling). Shift 31 with step 3 never moves.
pub open spec fn envelope(level: int, counter: u32, shift: u32, step_value: u32, exp: bool, dec: bool) -> (
    int,
    u32,
) {
    if step_value + shift * 4 == 0x7F {
        (level, counter)
    } else {
        let adj = env_adjusted(
            level,
            shift as int,
            env_step(step_value as int, shift as int, dec),
            env_inc(shift as int),
            exp,
            dec,
        );
        let inc = if adj.1 == 0 {
            1
        } else {
            adj.1
        };
        let c = (counter + inc) % 0x1_0000_0000;
        if (c / 0x8000) % 2 == 0 {
            (level, c as u32)
        } else {
            let l = level + adj.0;
            (
                if dec {
                    if l < 0 {
                        0
                    } else {
                        l
                    }
                } else {
                    clamp16(l)
                },
                (c % 0x8000) as u32,
            )
        }
    }
}

fn pow2_u32(k: u32) -> (r: u32)
    requires
        k <= 20,
    ensures
        r == pow2n(k as nat),
        1 <= r <= 0x10_0000,
        k <= 11 ==> r <= 2048,
        k <= 12 ==> r <= 4096,
{
    proof {
        reveal_with_fuel(pow2n, 21);
    }
    if k == 0 {
        1u32
    } else if k == 1 {
        0x2u32
    } else if k == 2 {
        0x4u32
    } else if k == 3 {
        0x8u32
    } else if k == 4 {
        0x10u32
    } else if k == 5 {
        0x20u32
    } else if k == 6 {
        0x40u32
    } else if k == 7 {
        0x80u32
    } else if k == 8 {
        0x100u32
    } else if k == 9 {
        0x200u32
    } else if k == 10 {
        0x400u32
    } else if k == 11 {
        0x800u32
    } else if k == 12 {
        0x1000u32
    } else if k == 13 {
        0x2000u32
    } else if k == 14 {
        0x4000u32
    } else if k == 15 {
        0x8000u32
    } else if k == 16 {
        0x10000u32
    } else if k == 17 {
        0x20000u32
    } else if k == 18 {
        0x40000u32
    } else if k == 19 {
        0x80000u32
    } else {
        0x10_0000u32
    }
}

/// One tick of the envelope generator on (level, counter).
#[verifier::spinoff_prover]
#[verifier::rlimit(50)]
pub fn envelope_tick(level: i32, counter: u32, shift: u32, step_value: u32, exp: bool, dec: bool) -> (r: (
    i32,
    u32,
))
    requires
        level_ok(level as int),
        shift < 32,
        step_value < 4,
    ensures
        r.0 as int == envelope(level as int, counter, shift, step_value, exp, dec).0,
        r.1 == envelope(level as int, counter, shift, step_value, exp, dec).1,
        level_ok(r.0 as int),
{
    if step_value + shift * 4 == 0x7F {
        return (level, counter);
    }
    let base: i32 = if dec {
        step_value as i32 - 8
    } else {
        7 - step_value as i32
    };
    let shl: u32 = if shift < 11 {
        11 - shift
    } else {
        0
    };
    let p = pow2_u32(shl);
    assert(-8 * 2048 <= base * p <= 7 * 2048) by (nonlinear_arith)
        requires
            -8 <= base <= 7,
            1 <= p <= 2048,
    ;
    let mut step: i32 = base * (p as i32);
    let down: u32 = if shift > 11 {
        shift - 11
    } else {
        0
    };
    let q = pow2_u32(down);
    let mut inc: u32 = 0x8000 / q;
    assert(-8 * 2048 <= step <= 7 * 2048) by (nonlinear_arith)
        requires
            step == base * p,
            -8 <= base <= 7,
            1 <= p <= 2048,
    ;
    assert(dec ==> step < 0) by (nonlinear_arith)
        requires
            step == base * p,
            dec ==> base < 0,
            p >= 1,
    ;
    assert(!dec ==> step > 0) by (nonlinear_arith)
        requires
            step == base * p,
            !dec ==> base > 0,
            p >= 1,
    ;
    let ghost step0 = step;
    let ghost inc0 = inc;
    if exp && !dec && level > 0x6000 {
        if shift < 10 {
            step = step / 4;
        } else if shift >= 11 {
            inc = inc / 4;
        } else {
            step = step / 2;
            inc = inc / 2;
        }
    } else if exp && dec {
        assert(-16384 * 0x8000 <= step * level <= 16384 * 0x8000) by (nonlinear_arith)
            requires
                -16384 <= step <= 16384,
                -0x8000 <= level <= 0x8000,
        ;
        let prod: i32 = step * level;
        step = prod / 0x8000;
        assert(step == trunc_div(step0 * level, 0x8000));
    }
    assert((step as int, inc as int) == env_adjusted(level as int, shift as int, step0 as int, inc0 as int, exp, dec));
    if inc == 0 {
        inc = 1;
    }
    let c = counter.wrapping_add(inc);
    if (c / 0x8000) % 2 == 0 {
        return (level, c);
    }
    let l: i32 = level + step;
    let nl: i32 = if dec {
        if l < 0 {
            0
        } else {
            l
        }
    } else {
        if l < -0x8000 {
            -0x8000
        } else if l > 0x7FFF {
            0x7FFF
        } else {
            l
        }
    };
    proof {
        if dec && exp {
            assert(mag(step as int) <= mag(level as int)) by (nonlinear_arith)
                requires
                    step == trunc_div(step0 * level, 0x8000),
                    -16384 <= step0 <= 16384,
                    -0x8000 <= level <= 0x8000,
            ;
            assert(level > 0 ==> step <= 0) by (nonlinear_arith)
                requires
                    step == trunc_div(step0 * level, 0x8000),
                    step0 < 0,
            ;
        }
    }
    (nl, c % 0x8000)
}

// ---------------------------------------------------------------------------------
// ADPCM blocks: 16 bytes, a shift/filter header, a flags byte and 28 nibbles
// ---------------------------------------------------------------------------------
/// The (positive, negative) prediction weights of filter `f`, in 64ths.
pub open spec fn adpcm_filter(f: int) -> (int, int) {
    if f == 0 {
        (0, 0)
    } else if f == 1 {
        (60, 0)
    } else if f == 2 {
        (115, -52)
    } else if f == 3 {
        (98, -55)
    } else {
        (122, -60)
    }
}

/// The header's shift: its low nibble, 13..15 read as 9.
pub open spec fn block_shift(header: u8) -> int {
    if header % 16 > 12 {
        9
    } else {
        (header % 16) as int
    }
}

/// The header's filter: bits 4..6, above 4 read as 4.
pub open spec fn block_filter(header: u8) -> int {
    let f = (header / 16) % 8;
    if f > 4 {
        4
    } else {
        f as int
    }
}

/// Data nibble `k` (0..27) of a block, low nibble of each byte first, sign-extended.
pub open spec fn block_nibble(blk: Seq<u8>, k: int) -> int {
    let b = blk[2 + k / 2] as int;
    let n = if k % 2 == 0 {
        b % 16
    } else {
        b / 16
    };
    if n >= 8 {
        n - 16
    } else {
        n
    }
}

/// Sample `k` of a block from the two samples before it: the nibble at the top of 16
/// bits moved down by the shift, plus the filter's prediction (rounded down), clamped.
pub open spec fn adpcm_step(blk: Seq<u8>, k: int, h0: int, h1: int) -> int {
    let f = adpcm_filter(block_filter(blk[0]));
    clamp16(
        block_nibble(blk, k) * pow2n((12 - block_shift(blk[0])) as nat) + (h0 * f.0 + h1 * f.1 + 32)
            / 64,
    )
}

/// The two latest samples after decoding the first `k` samples of a block from the
/// history (h0, h1).
pub open spec fn adpcm_hist(blk: Seq<u8>, k: nat, h0: int, h1: int) -> (int, int)
    decreases k,
{
    if k == 0 {
        (h0, h1)
    } else {
        let p = adpcm_hist(blk, (k - 1) as nat, h0, h1);
        (adpcm_step(blk, k - 1, p.0, p.1), p.0)
    }
}

/// Sample `k` of a block decoded from the history (h0, h1).
pub open spec fn adpcm_sample(blk: Seq<u8>, k: nat, h0: int, h1: int) -> int {
    let p = adpcm_hist(blk, k, h0, h1);
    adpcm_step(blk, k as int, p.0, p.1)
}

fn filter_pair(f: u8) -> (r: (i32, i32))
    requires
        f <= 4,
    ensures
        r.0 == adpcm_filter(f as int).0,
        r.1 == adpcm_filter(f as int).1,
{
    if f == 0 {
        (0, 0)
    } else if f == 1 {
        (60, 0)
    } else if f == 2 {
        (115, -52)
    } else if f == 3 {
        (98, -55)
    } else {
        (122, -60)
    }
}

/// The 28 samples of the ADPCM block at `addr` of `ram`, continuing from the history
/// `hist` (latest first), and the history after them.
pub fn decode_adpcm(ram: &Vec<u8>, addr: usize, hist: [i32; 2]) -> (r: ([i16; 28], [i32; 2]))
    requires
        addr + 16 <= ram.len(),
        -0x8000 <= hist[0] <= 0x7FFF,
        -0x8000 <= hist[1] <= 0x7FFF,
    ensures
        forall|k: int|
            0 <= k < 28 ==> r.0[k] == adpcm_sample(
                ram@.subrange(addr as int, addr + 16),
                k as nat,
                hist[0] as int,
                hist[1] as int,
            ),
        r.1[0] == adpcm_hist(ram@.subrange(addr as int, addr + 16), 28, hist[0] as int, hist[1] as int).0,
        r.1[1] == adpcm_hist(ram@.subrange(addr as int, addr + 16), 28, hist[0] as int, hist[1] as int).1,
        -0x8000 <= r.1[0] <= 0x7FFF,
        -0x8000 <= r.1[1] <= 0x7FFF,
{
    let ghost blk = ram@.subrange(addr as int, addr + 16);
    let header = ram[addr];
    let shift: u32 = if header % 16 > 12 {
        9
    } else {
        (header % 16) as u32
    };
    let mut filter: u8 = (header / 16) % 8;
    if filter > 4 {
        filter = 4;
    }
    let (f0, f1) = filter_pair(filter);
    let factor = pow2_u32(12 - shift) as i32;
    assert(factor <= 4096);
    let mut h0: i32 = hist[0];
    let mut h1: i32 = hist[1];
    let mut out: [i16; 28] = [0; 28];
    let mut k: usize = 0;
    while k < 28
        invariant
            k <= 28,
            addr + 16 <= ram.len(),
            blk == ram@.subrange(addr as int, addr + 16),
            blk[0] == header,
            shift as int == block_shift(header),
            f0 == adpcm_filter(block_filter(header)).0,
            f1 == adpcm_filter(block_filter(header)).1,
            factor == pow2n((12 - block_shift(header)) as nat),
            1 <= factor <= 4096,
            -60 <= f1 <= 0 <= f0 <= 122,
            -0x8000 <= h0 <= 0x7FFF,
            -0x8000 <= h1 <= 0x7FFF,
            (h0 as int, h1 as int) == adpcm_hist(blk, k as nat, hist[0] as int, hist[1] as int),
            forall|m: int|
                0 <= m < k ==> out[m] == adpcm_sample(blk, m as nat, hist[0] as int, hist[1] as int),
        decreases 28 - k,
    {
        let b = ram[addr + 2 + k / 2];
        let n: i32 = if k % 2 == 0 {
            (b % 16) as i32
        } else {
            (b / 16) as i32
        };
        let t0: i32 = if n >= 8 {
            n - 16
        } else {
            n
        };
        assert(t0 == block_nibble(blk, k as int));
        assert(-8 * 4096 <= t0 * factor <= 7 * 4096) by (nonlinear_arith)
            requires
                -8 <= t0 <= 7,
                1 <= factor <= 4096,
        ;
        let t = t0 * factor;
        assert(-0x8000 * 122 <= h0 * f0 <= 0x7FFF * 122) by (nonlinear_arith)
            requires
                -0x8000 <= h0 <= 0x7FFF,
                0 <= f0 <= 122,
        ;
        assert(-0x7FFF * 60 <= h1 * f1 <= 0x8000 * 60) by (nonlinear_arith)
            requires
                -0x8000 <= h1 <= 0x7FFF,
                -60 <= f1 <= 0,
        ;
        let p: i32 = h0 * f0 + h1 * f1 + 32;
        let pred = p >> 6u32;
        assert(pred as int == p as int / 64) by (bit_vector)
            requires
                pred == p >> 6u32,
        ;
        let s = crate::xa::clamp_i32(t + pred);
        out[k] = s as i16;
        h1 = h0;
        h0 = s;
        k += 1;
    }
    (out, [h0, h1])
}

// ---------------------------------------------------------------------------------
// ADSR, volume and interpolation
// ---------------------------------------------------------------------------------
/// The envelope parameters (shift, step, exponential, decreasing) of a phase, from the
/// voice's two ADSR registers.
pub open spec fn adsr_params(phase: Phase, lo: u16, hi: u16) -> (u32, u32, bool, bool) {
    match phase {
        Phase::Attack => (((lo / 1024) % 32) as u32, ((lo / 256) % 4) as u32, lo / 0x8000 == 1, false),
        Phase::Decay => (((lo / 16) % 16) as u32, 0, true, true),
        Phase::Sustain => (
            ((hi / 256) % 32) as u32,
            ((hi / 64) % 4) as u32,
            hi / 0x8000 == 1,
            (hi / 0x4000) % 2 == 1,
        ),
        _ => ((hi % 32) as u32, 0, (hi / 32) % 2 == 1, true),
    }
}

/// The level at which decay gives way to sustain.
pub open spec fn sustain_level(lo: u16) -> int {
    ((lo % 16) + 1) * 0x800
}

/// (level, counter, phase) of a playing voice after one envelope tick: attack ends at
/// 7FFFh, decay at the sustain level, release at 0.
pub open spec fn adsr_next(v: Voice, lo: u16, hi: u16) -> (int, u32, Phase) {
    let p = adsr_params(v.phase, lo, hi);
    let e = envelope(v.adsr_level as int, v.adsr_counter, p.0, p.1, p.2, p.3);
    if v.phase == Phase::Attack && e.0 >= 0x7FFF {
        (0x7FFF, 0, Phase::Decay)
    } else if v.phase == Phase::Decay && e.0 <= sustain_level(lo) {
        (sustain_level(lo), 0, Phase::Sustain)
    } else if v.phase == Phase::Release && e.0 <= 0 {
        (0, e.1, Phase::Off)
    } else {
        (e.0, e.1, v.phase)
    }
}

/// A fixed volume register (bit 15 clear): the signed 15-bit value doubled.
pub open spec fn fixed_volume(reg: u16) -> int {
    if reg >= 0x4000 {
        reg * 2 - 0x10000
    } else {
        reg * 2
    }
}

/// The sweep parameters (shift, step, exponential, decreasing) of a volume register
/// with bit 15 set.
pub open spec fn sweep_params(reg: u16) -> (u32, u32, bool, bool) {
    (((reg / 4) % 32) as u32, (reg % 4) as u32, (reg / 0x4000) % 2 == 1, (reg / 0x2000) % 2 == 1)
}

/// Four-tap interpolation of the last four samples `g` at phase `idx` (0..255) of the
/// 512-entry table.
pub open spec fn interp_spec(table: Seq<i16>, g: [i16; 4], idx: int) -> int {
    mul15_spec(g[0] as int, table[0xFF - idx] as int) + mul15_spec(g[1] as int, table[0x1FF - idx] as int)
        + mul15_spec(g[2] as int, table[0x100 + idx] as int) + mul15_spec(g[3] as int, table[idx] as int)
}

/// The sample between the last four decoded ones, weighted by the interpolation table.
pub fn interpolate(table: &Vec<i16>, g: [i16; 4], idx: usize) -> (r: i64)
    requires
        table.len() == 512,
        idx < 256,
    ensures
        r == interp_spec(table@, g, idx as int),
        -0x20000 <= r <= 0x20000,
{
    let a = mul15(g[0] as i64, table[0xFF - idx] as i64);
    let b = mul15(g[1] as i64, table[0x1FF - idx] as i64);
    let c = mul15(g[2] as i64, table[0x100 + idx] as i64);
    let d = mul15(g[3] as i64, table[idx] as i64);
    a + b + c + d
}

impl Voice {
    /// One envelope tick of a playing voice, then `sample` scaled by the new level.
    pub fn apply_adsr(&mut self, lo: u16, hi: u16, sample: i64) -> (r: i64)
        requires
            old(self).ok(),
            -0x100_0000_0000 <= sample <= 0x100_0000_0000,
        ensures
            final(self).ok(),
            old(self).phase == Phase::Off ==> r == 0 && *final(self) == *old(self),
            old(self).phase != Phase::Off ==> {
                let n = adsr_next(*old(self), lo, hi);
                &&& final(self).adsr_level == n.0
                &&& final(self).adsr_counter == n.1
                &&& final(self).phase == n.2
                &&& r == mul15_spec(sample as int, n.0)
            },
            final(self).current_addr == old(self).current_addr,
            final(self).repeat_addr == old(self).repeat_addr,
            final(self).pitch_counter == old(self).pitch_counter,
            final(self).hist == old(self).hist,
            final(self).gauss == old(self).gauss,
            final(self).decoded == old(self).decoded,
            final(self).decode_idx == old(self).decode_idx,
            final(self).end_after == old(self).end_after,
            final(self).loop_repeat == old(self).loop_repeat,
            final(self).started == old(self).started,
            final(self).sweep_level == old(self).sweep_level,
            final(self).sweep_counter == old(self).sweep_counter,
            -mag(sample as int) <= r <= mag(sample as int),
    {
        let (shift, step, exp, dec): (u32, u32, bool, bool) = match self.phase {
            Phase::Off => {
                return 0;
            },
            Phase::Attack => (((lo / 1024) % 32) as u32, ((lo / 256) % 4) as u32, lo / 0x8000 == 1, false),
            Phase::Decay => (((lo / 16) % 16) as u32, 0, true, true),
            Phase::Sustain => (
                ((hi / 256) % 32) as u32,
                ((hi / 64) % 4) as u32,
                hi / 0x8000 == 1,
                (hi / 0x4000) % 2 == 1,
            ),
            Phase::Release => ((hi % 32) as u32, 0, (hi / 32) % 2 == 1, true),
        };
        let (l, c) = envelope_tick(self.adsr_level, self.adsr_counter, shift, step, exp, dec);
        self.adsr_level = l;
        self.adsr_counter = c;
        let sustain: i32 = ((lo % 16) as i32 + 1) * 0x800;
        if self.phase == Phase::Attack && l >= 0x7FFF {
            self.adsr_level = 0x7FFF;
            self.phase = Phase::Decay;
            self.adsr_counter = 0;
        } else if self.phase == Phase::Decay && l <= sustain {
            self.adsr_level = sustain;
            self.phase = Phase::Sustain;
            self.adsr_counter = 0;
        } else if self.phase == Phase::Release && l <= 0 {
            self.adsr_level = 0;
            self.phase = Phase::Off;
        }
        mul15(sample, self.adsr_level as i64)
    }

    /// A voice volume register: a fixed level (bit 15 clear), or one tick of the
    /// voice's sweep. Either way the voice's sweep level takes the value returned.
    pub fn sweep_volume(&mut self, reg: u16) -> (r: i32)
        requires
            old(self).ok(),
        ensures
            final(self).ok(),
            level_ok(r as int),
            reg < 0x8000 ==> r == fixed_volume(reg) && final(self).sweep_counter == old(
                self).sweep_counter,
            reg >= 0x8000 ==> {
                let p = sweep_params(reg);
                let e = envelope(old(self).sweep_level as int, old(self).sweep_counter, p.0, p.1, p.2, p.3);
                r == e.0 && final(self).sweep_counter == e.1
            },
            final(self).sweep_level == r,
            final(self).adsr_level == old(self).adsr_level,
            final(self).adsr_counter == old(self).adsr_counter,
            final(self).phase == old(self).phase,
            final(self).current_addr == old(self).current_addr,
            final(self).repeat_addr == old(self).repeat_addr,
            final(self).pitch_counter == old(self).pitch_counter,
            final(self).hist == old(self).hist,
            final(self).gauss == old(self).gauss,
            final(self).decoded == old(self).decoded,
            final(self).decode_idx == old(self).decode_idx,
            final(self).end_after == old(self).end_after,
            final(self).loop_repeat == old(self).loop_repeat,
            final(self).started == old(self).started,
    {
        if reg < 0x8000 {
            let v: i32 = if reg >= 0x4000 {
                reg as i32 * 2 - 0x10000
            } else {
                reg as i32 * 2
            };
            self.sweep_level = v;
            v
        } else {
            let (l, c) = envelope_tick(
                self.sweep_level,
                self.sweep_counter,
                ((reg / 4) % 32) as u32,
                (reg % 4) as u32,
                (reg / 0x4000) % 2 == 1,
                (reg / 0x2000) % 2 == 1,
            );
            self.sweep_level = l;
            self.sweep_counter = c;
            l
        }
    }
}

/// A main volume register: a fixed level (bit 15 clear), or one tick of the sweep
/// kept in (level, counter).
pub fn main_volume(reg: u16, level: i32, counter: u32) -> (r: (i32, i32, u32))
    requires
        level_ok(level as int),
    ensures
        level_ok(r.0 as int),
        level_ok(r.1 as int),
        reg < 0x8000 ==> r.0 == fixed_volume(reg) && r.1 == level && r.2 == counter,
        reg >= 0x8000 ==> {
            let p = sweep_params(reg);
            let e = envelope(level as int, counter, p.0, p.1, p.2, p.3);
            r.0 == e.0 && r.1 == e.0 && r.2 == e.1
        },
{
    if reg < 0x8000 {
        let v: i32 = if reg >= 0x4000 {
            reg as i32 * 2 - 0x10000
        } else {
            reg as i32 * 2
        };
        (v, level, counter)
    } else {
        let (l, c) = envelope_tick(
            level,
            counter,
            ((reg / 4) % 32) as u32,
            (reg % 4) as u32,
            (reg / 0x4000) % 2 == 1,
            (reg / 0x2000) % 2 == 1,
        );
        (l, l, c)
    }
}

/// The voice as its next block begins: after a block flagged as the end, back at the
/// repeat address, and released at level 0 unless the block asked to repeat.
pub open spec fn after_end(v: Voice) -> Voice {
    if v.end_after {
        Voice {
            current_addr: v.repeat_addr,
            end_after: false,
            phase: if v.loop_repeat {
                v.phase
            } else {
                Phase::Release
            },
            adsr_level: if v.loop_repeat {
                v.adsr_level
            } else {
                0
            },
            adsr_counter: if v.loop_repeat {
                v.adsr_counter
            } else {
                0
            },
            ..v
        }
    } else {
        v
    }
}

/// The 16-byte-aligned sound RAM offset of the voice's current block.
pub open spec fn block_addr(v: Voice) -> int {
    (v.current_addr as int % 0x80000) / 16 * 16
}

} // verus!
