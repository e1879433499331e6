//! Pixel arithmetic of the GPU rasterizer: coordinates, edge functions, colour.
use vstd::prelude::*;

use crate::display::channel5;

verus! {

/// The low 11 bits of `v` read as a two's-complement number.
pub open spec fn wrap11(v: int) -> int {
    (v + 1024) % 2048 - 1024
}

/// Truncate to a signed 11-bit value.
pub fn trunc11(v: i32) -> (r: i32)
    ensures
        r == wrap11(v as int),
        -1024 <= r <= 1023,
{
    let r = (v << 21u32) >> 21u32;
    assert(((v << 21u32) >> 21u32) as int == (v as int + 1024) % 2048 - 1024) by (bit_vector);
    r
}

/// An 11-bit field read as signed.
pub fn sign11(v: u32) -> (r: i32)
    requires
        v < 2048,
    ensures
        r == (if v >= 1024 {
            v - 2048
        } else {
            v as int
        }),
{
    trunc11(v as i32)
}

/// Twice the signed area of the triangle (a, b, c): positive when counter-clockwise.
pub open spec fn orient_spec(ax: int, ay: int, bx: int, by: int, cx: int, cy: int) -> int {
    (bx - ax) * (cy - ay) - (by - ay) * (cx - ax)
}

pub fn orient(ax: i32, ay: i32, bx: i32, by: i32, cx: i32, cy: i32) -> (r: i32)
    requires
        -2048 <= ax <= 2048,
        -2048 <= ay <= 2048,
        -2048 <= bx <= 2048,
        -2048 <= by <= 2048,
        -2048 <= cx <= 2048,
        -2048 <= cy <= 2048,
    ensures
        r == orient_spec(ax as int, ay as int, bx as int, by as int, cx as int, cy as int),
        -0x200_0000 <= r <= 0x200_0000,
{
    let p: i32 = bx - ax;
    let q: i32 = cy - ay;
    let s: i32 = by - ay;
    let t: i32 = cx - ax;
    assert(-0x100_0000 <= p * q <= 0x100_0000) by (nonlinear_arith)
        requires
            -4096 <= p <= 4096,
            -4096 <= q <= 4096,
    ;
    assert(-0x100_0000 <= s * t <= 0x100_0000) by (nonlinear_arith)
        requires
            -4096 <= s <= 4096,
            -4096 <= t <= 4096,
    ;
    p * q - s * t
}

/// Division rounding toward zero, as Rust's `/` on signed integers.
pub open spec fn tdiv(n: int, d: int) -> int {
    if (n >= 0) == (d > 0) {
        abs(n) / abs(d)
    } else {
        -(abs(n) / abs(d))
    }
}

pub open spec fn abs(v: int) -> int {
    if v < 0 {
        -v
    } else {
        v
    }
}

fn tdiv_i64(n: i64, d: i64) -> (r: i64)
    requires
        d != 0,
        -0x1000_0000_0000 <= n <= 0x1000_0000_0000,
        -0x1000_0000_0000 <= d <= 0x1000_0000_0000,
    ensures
        r == tdiv(n as int, d as int),
{
    let un: u64 = if n < 0 {
        (-n) as u64
    } else {
        n as u64
    };
    let ud: u64 = if d < 0 {
        (-d) as u64
    } else {
        d as u64
    };
    let q = un / ud;
    assert(q <= un) by (nonlinear_arith)
        requires
            ud >= 1,
            q == un / ud,
    ;
    if (n >= 0) == (d > 0) {
        q as i64
    } else {
        -(q as i64)
    }
}

/// Barycentric interpolation of a vertex attribute, truncated toward zero.
pub open spec fn interp_spec(w0: int, w1: int, w2: int, a: int, b: int, c: int, sum: int) -> int {
    tdiv(w0 * a + w1 * b + w2 * c, sum)
}

proof fn lemma_weighted_bound(w0: int, w1: int, w2: int, a: int, b: int, c: int)
    requires
        -0x200_0000 <= w0 <= 0x200_0000,
        -0x200_0000 <= w1 <= 0x200_0000,
        -0x200_0000 <= w2 <= 0x200_0000,
        0 <= a <= 255,
        0 <= b <= 255,
        0 <= c <= 255,
    ensures
        -0x2_0000_0000 <= w0 * a <= 0x2_0000_0000,
        -0x2_0000_0000 <= w1 * b <= 0x2_0000_0000,
        -0x2_0000_0000 <= w2 * c <= 0x2_0000_0000,
{
    assert(-0x2_0000_0000 <= w0 * a <= 0x2_0000_0000) by (nonlinear_arith)
        requires
            -0x200_0000 <= w0 <= 0x200_0000,
            0 <= a <= 255,
    ;
    assert(-0x2_0000_0000 <= w1 * b <= 0x2_0000_0000) by (nonlinear_arith)
        requires
            -0x200_0000 <= w1 <= 0x200_0000,
            0 <= b <= 255,
    ;
    assert(-0x2_0000_0000 <= w2 * c <= 0x2_0000_0000) by (nonlinear_arith)
        requires
            -0x200_0000 <= w2 <= 0x200_0000,
            0 <= c <= 255,
    ;
}

pub fn interp(w0: i32, w1: i32, w2: i32, a: u32, b: u32, c: u32, sum: i32) -> (r: i64)
    requires
        -0x200_0000 <= w0 <= 0x200_0000,
        -0x200_0000 <= w1 <= 0x200_0000,
        -0x200_0000 <= w2 <= 0x200_0000,
        a <= 255,
        b <= 255,
        c <= 255,
        sum != 0,
        -0x800_0000 <= sum <= 0x800_0000,
    ensures
        r == interp_spec(w0 as int, w1 as int, w2 as int, a as int, b as int, c as int, sum as int),
{
    proof {
        lemma_weighted_bound(w0 as int, w1 as int, w2 as int, a as int, b as int, c as int);
    }
    let n: i64 = (w0 as i64) * (a as i64) + (w1 as i64) * (b as i64) + (w2 as i64) * (c as i64);
    tdiv_i64(n, sum as i64)
}

/// The ordered-dither offset added to 8-bit colour at pixel (x mod 4, y mod 4).
pub open spec fn dither_spec(xm: int, ym: int) -> int {
    if ym == 0 {
        if xm == 0 { -4 } else if xm == 1 { 0 } else if xm == 2 { -3 } else { 1 }
    } else if ym == 1 {
        if xm == 0 { 2 } else if xm == 1 { -2 } else if xm == 2 { 3 } else { -1 }
    } else if ym == 2 {
        if xm == 0 { -3 } else if xm == 1 { 1 } else if xm == 2 { -4 } else { 0 }
    } else {
        if xm == 0 { 3 } else if xm == 1 { -1 } else if xm == 2 { 2 } else { -2 }
    }
}

fn dither_at(x: i32, y: i32) -> (d: i32)
    requires
        x >= 0,
        y >= 0,
    ensures
        d == dither_spec(x as int % 4, y as int % 4),
        -4 <= d <= 3,
{
    let xm = x % 4;
    let ym = y % 4;
    if ym == 0 {
        if xm == 0 { -4 } else if xm == 1 { 0 } else if xm == 2 { -3 } else { 1 }
    } else if ym == 1 {
        if xm == 0 { 2 } else if xm == 1 { -2 } else if xm == 2 { 3 } else { -1 }
    } else if ym == 2 {
        if xm == 0 { -3 } else if xm == 1 { 1 } else if xm == 2 { -4 } else { 0 }
    } else {
        if xm == 0 { 3 } else if xm == 1 { -1 } else if xm == 2 { 2 } else { -2 }
    }
}

pub open spec fn clamp255(v: int) -> int {
    if v < 0 {
        0
    } else if v > 255 {
        255
    } else {
        v
    }
}

/// One 8-bit channel with dither offset `d`, reduced to five bits.
pub open spec fn ch5(v: int, d: int) -> int {
    clamp255(v + d) / 8
}

/// RGB555 of an 8-bit colour, each channel offset by `d` first.
pub open spec fn rgb555_spec(r: int, g: int, b: int, d: int) -> int {
    ch5(r, d) + ch5(g, d) * 32 + ch5(b, d) * 1024
}

/// The dither offset at (x, y), or 0 when dithering is off.
pub open spec fn dither_or_zero(x: int, y: int, dither: bool) -> int {
    if dither {
        dither_spec(x % 4, y % 4)
    } else {
        0
    }
}

fn ch5_exec(v: u32, d: i32) -> (c: u16)
    requires
        v <= 0xFFFF,
        -4 <= d <= 3,
    ensures
        c == ch5(v as int, d as int),
        c < 32,
{
    let s: i32 = v as i32 + d;
    let cl: i32 = if s < 0 {
        0
    } else if s > 255 {
        255
    } else {
        s
    };
    (cl / 8) as u16
}

pub fn rgb888_to_555_dither(r: u32, g: u32, b: u32, x: i32, y: i32, dither: bool) -> (p: u16)
    requires
        r <= 0xFFFF,
        g <= 0xFFFF,
        b <= 0xFFFF,
        x >= 0,
        y >= 0,
    ensures
        p == rgb555_spec(r as int, g as int, b as int, dither_or_zero(x as int, y as int, dither)),
        p < 0x8000,
{
    let d = if dither {
        dither_at(x, y)
    } else {
        0
    };
    let cr = ch5_exec(r, d);
    let cg = ch5_exec(g, d);
    let cb = ch5_exec(b, d);
    cr + cg * 32 + cb * 1024
}

pub fn rgb888_to_555(r: u32, g: u32, b: u32) -> (p: u16)
    requires
        r <= 0xFFFF,
        g <= 0xFFFF,
        b <= 0xFFFF,
    ensures
        p == rgb555_spec(r as int, g as int, b as int, 0),
        p < 0x8000,
{
    rgb888_to_555_dither(r, g, b, 0, 0, false)
}

/// One 5-bit channel of a semi-transparent blend: back `b`, forward `f`.
pub open spec fn mix_spec(b: int, f: int, mode: int) -> int {
    if mode == 0 {
        (b + f) / 2
    } else if mode == 1 {
        if b + f > 31 { 31 } else { b + f }
    } else if mode == 2 {
        if b > f { b - f } else { 0 }
    } else {
        if b + f / 4 > 31 { 31 } else { b + f / 4 }
    }
}

/// The semi-transparent blend of two RGB555 pixels under texpage mode `mode` (0..3).
pub open spec fn blend_semi_spec(back: u16, fwd: u16, mode: int) -> int {
    mix_spec(channel5(back, 0), channel5(fwd, 0), mode) + mix_spec(
        channel5(back, 5),
        channel5(fwd, 5),
        mode,
    ) * 32 + mix_spec(channel5(back, 10), channel5(fwd, 10), mode) * 1024
}

pub proof fn lemma_channels(p: u16)
    ensures
        (p & 0x1F) == channel5(p, 0),
        ((p >> 5u16) & 0x1F) == channel5(p, 5),
        ((p >> 10u16) & 0x1F) == channel5(p, 10),
        p & 0x7FFF == channel5(p, 0) + channel5(p, 5) * 32 + channel5(p, 10) * 1024,
{
    crate::bits::lemma_u16_fields(p);
    crate::bits::lemma_u16_fields(p >> 5u16);
    crate::bits::lemma_u16_fields(p >> 10u16);
    assert(p % 0x8000 == p % 32 + ((p / 32) % 32) * 32 + ((p / 1024) % 32) * 1024);
}

fn mix(b: u16, f: u16, mode: u32) -> (m: u16)
    requires
        b < 32,
        f < 32,
        mode < 4,
    ensures
        m == mix_spec(b as int, f as int, mode as int),
        m < 32,
{
    if mode == 0 {
        (b + f) / 2
    } else if mode == 1 {
        if b + f > 31 {
            31
        } else {
            b + f
        }
    } else if mode == 2 {
        if b > f {
            b - f
        } else {
            0
        }
    } else {
        if b + f / 4 > 31 {
            31
        } else {
            b + f / 4
        }
    }
}

/// Semi-transparency modes from texpage bits 5–6, per 5-bit channel.
pub fn blend_semi(back: u16, fwd: u16, mode: u32) -> (p: u16)
    requires
        mode < 4,
    ensures
        p == blend_semi_spec(back, fwd, mode as int),
        p < 0x8000,
{
    proof {
        lemma_channels(back);
        lemma_channels(fwd);
    }
    let r = mix(back & 0x1F, fwd & 0x1F, mode);
    let g = mix((back >> 5u16) & 0x1F, (fwd >> 5u16) & 0x1F, mode);
    let b = mix((back >> 10u16) & 0x1F, (fwd >> 10u16) & 0x1F, mode);
    r + g * 32 + b * 1024
}

/// A texel channel (expanded to 8 bits) modulated by vertex colour `v`: texel × v / 80h.
pub open spec fn modulate(t5: int, v: int) -> int {
    let prod = t5 * 8 * v;
    (if prod > 0x7F80 { 0x7F80 } else { prod }) / 128
}

/// Texture blending: (texel × vertex) / 80h per channel, then dithered to RGB555,
/// keeping the texel's bit 15.
pub open spec fn blend_texel_spec(tex: u16, r: int, g: int, b: int, d: int) -> int {
    rgb555_spec(
        modulate(channel5(tex, 0), r),
        modulate(channel5(tex, 5), g),
        modulate(channel5(tex, 10), b),
        d,
    ) + (if tex >= 0x8000 {
        0x8000int
    } else {
        0
    })
}

fn modulate_exec(t5: u16, v: u32) -> (m: u32)
    requires
        t5 < 32,
        v <= 255,
    ensures
        m == modulate(t5 as int, v as int),
        m <= 255,
{
    let t: u32 = (t5 as u32) * 8;
    assert(t * v <= 248 * 255) by (nonlinear_arith)
        requires
            t <= 248,
            v <= 255,
    ;
    let prod = t * v;
    let c = if prod > 0x7F80 {
        0x7F80
    } else {
        prod
    };
    c / 128
}

pub proof fn lemma_or_top_bit(out: u16, tex: u16)
    requires
        out < 0x8000,
    ensures
        out | (tex & 0x8000) == out + (if tex >= 0x8000 {
            0x8000int
        } else {
            0
        }),
{
    crate::bits::lemma_or_high_bit16(out, tex);
    crate::bits::lemma_u16_fields(tex);
}

pub fn blend_texel_dither(tex: u16, r: u32, g: u32, b: u32, x: i32, y: i32, dither: bool) -> (p:
    u16)
    requires
        r <= 255,
        g <= 255,
        b <= 255,
        x >= 0,
        y >= 0,
    ensures
        p == blend_texel_spec(
            tex,
            r as int,
            g as int,
            b as int,
            dither_or_zero(x as int, y as int, dither),
        ),
{
    proof {
        lemma_channels(tex);
    }
    let mr = modulate_exec(tex & 0x1F, r);
    let mg = modulate_exec((tex >> 5u16) & 0x1F, g);
    let mb = modulate_exec((tex >> 10u16) & 0x1F, b);
    let out = rgb888_to_555_dither(mr, mg, mb, x, y, dither);
    proof {
        lemma_or_top_bit(out, tex);
    }
    out | (tex & 0x8000)
}

/// Texture blending without dither.
pub fn blend_texel(tex: u16, r: u32, g: u32, b: u32) -> (p: u16)
    requires
        r <= 255,
        g <= 255,
        b <= 255,
    ensures
        p == blend_texel_spec(tex, r as int, g as int, b as int, 0),
{
    blend_texel_dither(tex, r, g, b, 0, 0, false)
}

} // verus!
