//! Two's-complement views of register words, stated over mathematical integers.
use vstd::prelude::*;

verus! {

/// The low 16 bits of `v` read as a signed halfword.
pub open spec fn s16(v: u32) -> int {
    let m = v as int % 0x10000;
    if m >= 0x8000 {
        m - 0x10000
    } else {
        m
    }
}

/// `v` read as a signed word.
pub open spec fn s32(v: u32) -> int {
    if v >= 0x8000_0000 {
        v - 0x1_0000_0000
    } else {
        v as int
    }
}

/// The word a register holds after storing the integer `x` (two's complement, low 32 bits).
pub open spec fn wrap32(x: int) -> u32 {
    (x % 0x1_0000_0000) as u32
}

/// `x` truncated to `bits` bits and sign-extended again.
pub open spec fn sext(x: int, bits: nat) -> int
    recommends
        bits >= 1,
{
    let p = pow2n(bits);
    let m = x % p;
    if m >= p / 2 {
        m - p
    } else {
        m
    }
}

pub open spec fn pow2n(bits: nat) -> int
    decreases bits,
{
    if bits == 0 {
        1
    } else {
        2 * pow2n((bits - 1) as nat)
    }
}

/// Arithmetic shift right by `sh`: floor division by 2^sh.
pub open spec fn shr(x: int, sh: nat) -> int {
    x / pow2n(sh)
}

pub proof fn lemma_pow2_values()
    ensures
        pow2n(0) == 1,
        pow2n(4) == 16,
        pow2n(12) == 0x1000,
        pow2n(16) == 0x10000,
        pow2n(32) == 0x1_0000_0000,
        pow2n(44) == 0x1000_0000_0000,
{
    reveal_with_fuel(pow2n, 45);
}

/// The signed halfword in the low 16 bits of `v`.
pub fn lo16(v: u32) -> (r: i64)
    ensures
        r == s16(v),
        -0x8000 <= r <= 0x7FFF,
{
    let m = (v % 0x10000) as i64;
    if m >= 0x8000 {
        m - 0x10000
    } else {
        m
    }
}

/// The signed halfword in the high 16 bits of `v`.
pub fn hi16(v: u32) -> (r: i64)
    ensures
        r == s16(v / 0x10000),
        -0x8000 <= r <= 0x7FFF,
{
    lo16(v / 0x10000)
}

/// `v` read as a signed word.
pub fn word_i(v: u32) -> (r: i64)
    ensures
        r == s32(v),
        -0x8000_0000 <= r <= 0x7FFF_FFFF,
{
    if v >= 0x8000_0000 {
        v as i64 - 0x1_0000_0000
    } else {
        v as i64
    }
}

/// The register word holding `x`.
pub fn to_word(x: i64) -> (r: u32)
    requires
        -0x4000_0000_0000_0000 <= x < 0x4000_0000_0000_0000,
    ensures
        r == wrap32(x as int),
{
    let y: i128 = x as i128 + 0x4000_0000_0000_0000i128;
    let m: u128 = (y as u128) % 0x1_0000_0000u128;
    proof {
        assert(y as int % 0x1_0000_0000 == x as int % 0x1_0000_0000) by {
            assert(0x4000_0000_0000_0000int == 0x4000_0000 * 0x1_0000_0000int);
            vstd::arithmetic::div_mod::lemma_mod_add_multiples_vanish(
                x as int,
                0x1_0000_0000,
            );
            assert((x as int + 0x4000_0000 * 0x1_0000_0000int) % 0x1_0000_0000 == x as int
                % 0x1_0000_0000) by {
                vstd::arithmetic::div_mod::lemma_mod_multiples_vanish(
                    0x4000_0000,
                    x as int,
                    0x1_0000_0000,
                );
            }
        }
    }
    m as u32
}

/// `x` truncated to 44 bits and sign-extended (the MAC1..3 accumulator width).
pub fn sext44(x: i64) -> (r: i64)
    requires
        -0x4000_0000_0000_0000 <= x < 0x4000_0000_0000_0000,
    ensures
        r == sext(x as int, 44),
        -0x800_0000_0000 <= r < 0x800_0000_0000,
{
    let y: i128 = x as i128 + 0x4000_0000_0000_0000i128;
    let m: u128 = (y as u128) % 0x1000_0000_0000u128;
    proof {
        lemma_pow2_values();
        assert(y as int % 0x1000_0000_0000 == x as int % 0x1000_0000_0000) by {
            vstd::arithmetic::div_mod::lemma_mod_multiples_vanish(
                0x4_0000,
                x as int,
                0x1000_0000_0000,
            );
            assert(0x4000_0000_0000_0000int == 0x4_0000 * 0x1000_0000_0000int);
        }
    }
    let m = m as i64;
    if m >= 0x800_0000_0000 {
        m - 0x1000_0000_0000
    } else {
        m
    }
}

/// `x` truncated to 32 bits and sign-extended (the MAC0 accumulator width).
pub fn sext32(x: i64) -> (r: i64)
    requires
        -0x4000_0000_0000_0000 <= x < 0x4000_0000_0000_0000,
    ensures
        r == sext(x as int, 32),
        -0x8000_0000 <= r < 0x8000_0000,
{
    let y: i128 = x as i128 + 0x4000_0000_0000_0000i128;
    let m: u128 = (y as u128) % 0x1_0000_0000u128;
    proof {
        lemma_pow2_values();
        assert(y as int % 0x1_0000_0000 == x as int % 0x1_0000_0000) by {
            vstd::arithmetic::div_mod::lemma_mod_multiples_vanish(
                0x4000_0000,
                x as int,
                0x1_0000_0000,
            );
            assert(0x4000_0000_0000_0000int == 0x4000_0000 * 0x1_0000_0000int);
        }
    }
    let m = m as i64;
    if m >= 0x8000_0000 {
        m - 0x1_0000_0000
    } else {
        m
    }
}

/// Arithmetic shift right of `x` by `sh` (0, 4, 12 or 16) bits.
pub fn shr_i(x: i64, sh: u32) -> (r: i64)
    requires
        sh == 0 || sh == 4 || sh == 12 || sh == 16,
        -0x4000_0000_0000_0000 <= x < 0x4000_0000_0000_0000,
    ensures
        r == shr(x as int, sh as nat),
        sh > 0 ==> -0x0400_0000_0000_0000 <= r < 0x0400_0000_0000_0000,
        sh == 0 ==> r == x,
        x >= 0 ==> 0 <= r <= x,
        x < 0 ==> x <= r < 0,
{
    proof {
        lemma_pow2_values();
    }
    if sh == 0 {
        return x;
    }
    let d: i64 = if sh == 4 {
        16
    } else if sh == 12 {
        0x1000
    } else {
        0x10000
    };
    assert(d as int == pow2n(sh as nat));
    if x >= 0 {
        let q = (x as u64 / d as u64) as i64;
        proof {
            vstd::arithmetic::div_mod::lemma_div_is_ordered_by_denominator(x as int, 1, d as int);
            vstd::arithmetic::div_mod::lemma_div_pos_is_pos(x as int, d as int);
        }
        q
    } else {
        let nx: u64 = (-x) as u64;
        let q: u64 = (nx + (d as u64 - 1)) / d as u64;
        proof {
            lemma_floor_neg(x as int, d as int);
        }
        -(q as i64)
    }
}

proof fn lemma_floor_neg(x: int, d: int)
    requires
        x < 0,
        d > 1,
        x >= -0x4000_0000_0000_0000,
    ensures
        -((-x + d - 1) / d) == x / d,
        x <= x / d < 0,
{
    let q = x / d;
    let r = x % d;
    vstd::arithmetic::div_mod::lemma_fundamental_div_mod(x, d);
    assert(0 <= r < d);
    assert(x == d * q + r);
    assert(-x + d - 1 == d * (-q) + (d - 1 - r)) by (nonlinear_arith)
        requires
            x == d * q + r,
    ;
    vstd::arithmetic::div_mod::lemma_fundamental_div_mod_converse(
        -x + d - 1,
        d,
        -q,
        d - 1 - r,
    );
    assert(q < 0) by (nonlinear_arith)
        requires
            x == d * q + r,
            x < 0,
            0 <= r < d,
    ;
    assert(x <= q) by (nonlinear_arith)
        requires
            x == d * q + r,
            q < 0,
            d > 1,
            0 <= r < d,
    ;
}

} // verus!
