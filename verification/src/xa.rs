//! CD-XA ADPCM and CD-DA sample helpers of the CD-ROM audio path.
use vstd::prelude::*;

verus! {

/// `x` clamped to the signed 16-bit range.
pub open spec fn clamp16(x: int) -> int {
    if x < -0x8000 {
        -0x8000
    } else if x > 0x7FFF {
        0x7FFF
    } else {
        x
    }
}

pub fn clamp_i32(x: i32) -> (r: i32)
    ensures
        r == clamp16(x as int),
{
    if x < -0x8000 {
        -0x8000
    } else if x > 0x7FFF {
        0x7FFF
    } else {
        x
    }
}

/// Byte `i` of `s`, or 0 past its end.
pub open spec fn byte_or0(s: Seq<u8>, i: int) -> int {
    if 0 <= i < s.len() {
        s[i] as int
    } else {
        0
    }
}

fn get_or0(s: &[u8], i: usize) -> (r: u8)
    ensures
        r == byte_or0(s@, i as int),
{
    if i < s.len() {
        s[i]
    } else {
        0
    }
}

pub open spec fn pow2(k: nat) -> int
    decreases k,
{
    if k == 0 {
        1
    } else {
        2 * pow2((k - 1) as nat)
    }
}

pub proof fn lemma_pow2_pos(i: nat)
    ensures
        pow2(i) > 0,
    decreases i,
{
    if i > 0 {
        lemma_pow2_pos((i - 1) as nat);
    }
}

/// Halving after dividing by 2^i divides by 2^(i+1).
pub proof fn lemma_div_pow2_step(x: int, i: nat)
    requires
        x >= 0,
    ensures
        x / pow2(i) / 2 == x / pow2(i + 1),
        pow2(i + 1) == 2 * pow2(i),
{
    lemma_pow2_pos(i);
    assert(pow2(i + 1) == 2 * pow2(i));
    vstd::arithmetic::div_mod::lemma_div_denominator(x, pow2(i), 2);
    assert(pow2(i) * 2 == pow2(i + 1));
}

/// 2^i grows with i.
pub proof fn lemma_pow2_mono(i: nat, j: nat)
    requires
        i <= j,
    ensures
        pow2(i) <= pow2(j),
    decreases j,
{
    if i < j {
        lemma_pow2_mono(i, (j - 1) as nat);
        lemma_pow2_pos((j - 1) as nat);
    }
}

/// 2^(i+1) for i below 24 is at most 2^24.
pub proof fn lemma_pow2_bound(i: nat)
    requires
        i < 24,
    ensures
        2 * pow2(i) <= 0x100_0000,
        pow2(i + 1) == 2 * pow2(i),
{
    lemma_pow2_mono(i, 23);
    reveal_with_fuel(pow2, 24);
    assert(pow2(23) == 0x80_0000);
}

fn pow2_i32(k: u32) -> (r: i32)
    requires
        k <= 12,
    ensures
        r == pow2(k as nat),
        1 <= r <= 4096,
        k <= 8 ==> r <= 256,
{
    proof {
        reveal_with_fuel(pow2, 13);
    }
    if k == 0 {
        1
    } else if k == 1 {
        2
    } else if k == 2 {
        4
    } else if k == 3 {
        8
    } else if k == 4 {
        16
    } else if k == 5 {
        32
    } else if k == 6 {
        64
    } else if k == 7 {
        128
    } else if k == 8 {
        256
    } else if k == 9 {
        512
    } else if k == 10 {
        1024
    } else if k == 11 {
        2048
    } else {
        4096
    }
}

/// The shift an ADPCM block header asks for: its low nibble, 13..15 read as 9.
pub open spec fn xa_shift(header: int) -> int {
    if header % 16 > 12 {
        9
    } else {
        header % 16
    }
}

/// How far a sample is moved up: 12 (4-bit) or 8 (8-bit) less the header shift, not below 0.
pub open spec fn xa_expand(header: int, eight: bool) -> int {
    let e: int = if eight {
        8
    } else {
        12
    };
    if e > xa_shift(header) {
        e - xa_shift(header)
    } else {
        0
    }
}

/// The raw first sample of a block: a signed byte (8-bit) or a signed nibble (4-bit).
pub open spec fn xa_raw_first(src: Seq<u8>, nibble: int, eight: bool) -> int {
    if eight {
        let b = byte_or0(src, 16 + nibble);
        if b >= 128 {
            b - 256
        } else {
            b
        }
    } else {
        let n = (byte_or0(src, 16) / pow2((nibble * 4) as nat)) % 16;
        if n >= 8 {
            n - 16
        } else {
            n
        }
    }
}

/// The first decoded sample of block 0 for one channel, starting from silent history.
pub open spec fn xa_first(src: Seq<u8>, nibble: int, eight: bool) -> int {
    clamp16(
        xa_raw_first(src, nibble, eight) * pow2(xa_expand(byte_or0(src, 4 + nibble), eight) as nat),
    )
}

/// The filter coefficients (positive, negative) of ADPCM filter `f`.
pub open spec fn xa_coeffs(f: int) -> (int, int) {
    if f == 0 {
        (0, 0)
    } else if f == 1 {
        (60, 0)
    } else if f == 2 {
        (115, -52)
    } else {
        (98, -55)
    }
}

fn coeffs(f: u8) -> (r: (i32, i32))
    requires
        f < 4,
    ensures
        r.0 == xa_coeffs(f as int).0,
        r.1 == xa_coeffs(f as int).1,
{
    if f == 0 {
        (0, 0)
    } else if f == 1 {
        (60, 0)
    } else if f == 2 {
        (115, -52)
    } else {
        (98, -55)
    }
}

/// The raw sample `j` of a block before filtering, times its expansion.
fn xa_raw(src: &[u8], blk: usize, nibble: usize, j: usize, eight: bool, factor: i32) -> (t: i32)
    requires
        nibble < 2,
        blk < 8,
        j < 28,
        1 <= factor <= 4096,
        eight ==> factor <= 256,
    ensures
        -0x8000 <= t <= 0x8000,
        j == 0 && blk == 0 ==> t == xa_raw_first(src@, nibble as int, eight) * factor,
{
    if eight {
        let off = 16 + j * 4;
        let b = get_or0(src, off + nibble);
        let v: i32 = if b >= 128 {
            b as i32 - 256
        } else {
            b as i32
        };
        assert(-128 * 256 <= v * factor <= 127 * 256) by (nonlinear_arith)
            requires
                -128 <= v <= 127,
                1 <= factor <= 256,
        ;
        v * factor
    } else {
        let byte = get_or0(src, 16 + blk + j * 4);
        let nib: u8 = if nibble == 0 {
            byte % 16
        } else {
            byte / 16
        };
        proof {
            reveal_with_fuel(pow2, 5);
            assert(pow2(0) == 1);
            assert(pow2(4) == 16);
        }
        let v: i32 = if nib >= 8 {
            nib as i32 - 16
        } else {
            nib as i32
        };
        assert(-8 * 4096 <= v * factor <= 7 * 4096) by (nonlinear_arith)
            requires
                -8 <= v <= 7,
                1 <= factor <= 4096,
        ;
        v * factor
    }
}

/// One ADPCM block channel: decodes its 28 samples into the filter history and
/// returns the first.
fn xa_block(src: &[u8], blk: usize, nibble: usize, prev: &mut i32, prev2: &mut i32, eight: bool) -> (
    first: i16)
    requires
        nibble < 2,
        blk < 8,
        -0x8000 <= *old(prev) <= 0x7FFF,
        -0x8000 <= *old(prev2) <= 0x7FFF,
    ensures
        -0x8000 <= *final(prev) <= 0x7FFF,
        -0x8000 <= *final(prev2) <= 0x7FFF,
        blk == 0 && *old(prev) == 0 && *old(prev2) == 0 ==> first == xa_first(
            src@,
            nibble as int,
            eight,
        ),
{
    let header = get_or0(src, 4 + blk * 2 + nibble);
    let mut sh: u32 = (header % 16) as u32;
    if sh > 12 {
        sh = 9;
    }
    let filter: u8 = (header / 16) % 4;
    let (f0, f1) = coeffs(filter);
    let expand: u32 = if eight {
        8
    } else {
        12
    };
    let k: u32 = if expand > sh {
        expand - sh
    } else {
        0
    };
    let factor = pow2_i32(k);
    let mut first: i16 = 0;
    let mut j: usize = 0;
    let ghost o0 = *prev;
    let ghost oo0 = *prev2;
    while j < 28
        invariant
            nibble < 2,
            blk < 8,
            j <= 28,
            1 <= factor <= 4096,
            eight ==> factor <= 256,
            -0x8000 <= *prev <= 0x7FFF,
            -0x8000 <= *prev2 <= 0x7FFF,
            -55 <= f1 <= 0 <= f0 <= 115,
            j == 0 ==> *prev == o0 && *prev2 == oo0,
            j > 0 && blk == 0 && o0 == 0 && oo0 == 0 ==> first == clamp16(
                xa_raw_first(src@, nibble as int, eight) * factor,
            ),
        decreases 28 - j,
    {
        let t = xa_raw(src, blk, nibble, j, eight, factor);
        let o = *prev;
        let oo = *prev2;
        assert(-0x8000 * 115 <= o * f0 <= 0x7FFF * 115) by (nonlinear_arith)
            requires
                -0x8000 <= o <= 0x7FFF,
                0 <= f0 <= 115,
        ;
        assert(-0x8000 * 55 <= oo * f1 <= 0x8000 * 55) by (nonlinear_arith)
            requires
                -0x8000 <= oo <= 0x7FFF,
                -55 <= f1 <= 0,
        ;
        let pred = (o * f0 + oo * f1 + 32) / 64;
        let s = clamp_i32(t + pred);
        if j == 0 {
            proof {
                if blk == 0 && o0 == 0 && oo0 == 0 {
                    assert(o == 0 && oo == 0);
                    assert(o * f0 == 0 && oo * f1 == 0) by (nonlinear_arith)
                        requires
                            o == 0,
                            oo == 0,
                    ;
                    assert(pred == 0);
                }
            }
            first = s as i16;
        }
        *prev2 = o;
        *prev = s;
        j += 1;
    }
    proof {
        if blk == 0 && o0 == 0 && oo0 == 0 {
            assert(factor == pow2(xa_expand(byte_or0(src@, 4 + nibble), eight) as nat));
        }
    }
    first
}

/// The first left and right samples of a CD-XA sound group (128 bytes): mono
/// repeats the left channel.
pub open spec fn decode_xa_spec(buf: Seq<u8>, coding: u8) -> (int, int) {
    if buf.len() < 128 {
        (0, 0)
    } else {
        let eight = coding & 0x10 != 0;
        let l = xa_first(buf.subrange(0, 128), 0, eight);
        if coding & 1 != 0 {
            (l, xa_first(buf.subrange(0, 128), 1, eight))
        } else {
            (l, l)
        }
    }
}

pub fn decode_xa(buf: &[u8], coding: u8) -> (r: (i16, i16))
    ensures
        r.0 == decode_xa_spec(buf@, coding).0,
        r.1 == decode_xa_spec(buf@, coding).1,
{
    if buf.len() < 128 {
        return (0, 0);
    }
    let src = vstd::slice::slice_subrange(buf, 0, 128);
    let stereo = coding & 1 != 0;
    let eight = coding & 0x10 != 0;
    let mut old_l: i32 = 0;
    let mut older_l: i32 = 0;
    let mut old_r: i32 = 0;
    let mut older_r: i32 = 0;
    let l = xa_block(src, 0, 0, &mut old_l, &mut older_l, eight);
    if stereo {
        let r = xa_block(src, 0, 1, &mut old_r, &mut older_r, eight);
        (l, r)
    } else {
        (l, l)
    }
}

/// A little-endian signed 16-bit sample.
pub open spec fn le_i16(lo: u8, hi: u8) -> int {
    let u = lo as int + hi as int * 256;
    if u >= 0x8000 {
        u - 0x10000
    } else {
        u
    }
}

pub fn read_le_i16(lo: u8, hi: u8) -> (r: i16)
    ensures
        r == le_i16(lo, hi),
{
    let u: i32 = lo as i32 + hi as i32 * 256;
    if u >= 0x8000 {
        (u - 0x10000) as i16
    } else {
        u as i16
    }
}

/// One output channel of the CD audio mixer: two inputs through their attenuators,
/// 80h being unity.
pub open spec fn mix_spec(a: i16, va: u8, b: i16, vb: u8) -> int {
    clamp16(((a * va + b * vb) as i32 >> 7) as int)
}

pub fn mix(a: i16, va: u8, b: i16, vb: u8) -> (r: i16)
    ensures
        r == mix_spec(a, va, b, vb),
{
    let a32 = a as i32;
    let b32 = b as i32;
    let va32 = va as i32;
    let vb32 = vb as i32;
    assert(-0x8000 * 255 <= a32 * va32 <= 0x7FFF * 255) by (nonlinear_arith)
        requires
            -0x8000 <= a32 <= 0x7FFF,
            0 <= va32 <= 255,
    ;
    assert(-0x8000 * 255 <= b32 * vb32 <= 0x7FFF * 255) by (nonlinear_arith)
        requires
            -0x8000 <= b32 <= 0x7FFF,
            0 <= vb32 <= 255,
    ;
    let x: i32 = a32 * va32 + b32 * vb32;
    clamp_i32(x >> 7) as i16
}

} // verus!
