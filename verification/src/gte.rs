//! Geometry Transformation Engine (COP2), after the PSX-SPX formulas.
//!
//! Every command is stated as a function of the register file: `Regs` holds the 32 data and
//! 32 control words, and each step below (MAC accumulate, IR saturate, colour push, ...) is a
//! spec function on it. The executable methods are proved to compute exactly those steps.
use vstd::prelude::*;
use crate::fixed::{
    hi16, lemma_pow2_values, lo16, pow2n, s16, s32, sext, sext32, sext44, shr, shr_i, to_word, word_i,
    wrap32,
};

verus! {

pub struct Gte {
    pub data: [u32; 32],
    pub ctrl: [u32; 32],
    /// How many times each command opcode ran.
    pub op_counts: [u32; 64],
}

/// The register file as sequences of words.
pub struct Regs {
    pub data: Seq<u32>,
    pub ctrl: Seq<u32>,
}

pub open spec fn regs_wf(r: Regs) -> bool {
    r.data.len() == 32 && r.ctrl.len() == 32
}

/// FLAG (control register 31) with `bit` set.
pub open spec fn flag_spec(r: Regs, bit: u32) -> Regs {
    Regs { data: r.data, ctrl: r.ctrl.update(31, r.ctrl[31] | (1u32 << bit)) }
}

pub open spec fn set_data(r: Regs, i: int, v: u32) -> Regs {
    Regs { data: r.data.update(i, v), ctrl: r.ctrl }
}

/// MAC0 (axis 0, 32-bit) or MAC1..3 (44-bit): overflow flags, then the truncated value.
pub open spec fn mac_spec(r: Regs, axis: u32, v: int) -> (Regs, int) {
    if axis == 0 {
        let r1 = if v > 0x7FFF_FFFF {
            flag_spec(r, 16)
        } else if v < -0x8000_0000 {
            flag_spec(r, 15)
        } else {
            r
        };
        (r1, sext(v, 32))
    } else {
        let r1 = if v > 0x7FF_FFFF_FFFF {
            flag_spec(r, (31 - axis) as u32)
        } else if v < -0x800_0000_0000 {
            flag_spec(r, (28 - axis) as u32)
        } else {
            r
        };
        (r1, sext(v, 44))
    }
}

/// IR1..3 (i = 0..2) saturated to -8000h..7FFFh, or 0..7FFFh with `lm`; FLAG 24-i on a limit.
pub open spec fn set_ir_spec(r: Regs, i: int, mac: int, lm: bool) -> Regs {
    let min: int = if lm {
        0
    } else {
        -0x8000
    };
    if mac > 0x7FFF {
        set_data(flag_spec(r, (24 - i) as u32), 9 + i, 0x7FFF)
    } else if mac < min {
        set_data(flag_spec(r, (24 - i) as u32), 9 + i, wrap32(min))
    } else {
        set_data(r, 9 + i, wrap32(mac))
    }
}

/// IR0 saturated to 0..1000h; FLAG 12 on a limit.
pub open spec fn set_ir0_spec(r: Regs, mac: int) -> Regs {
    if mac > 0x1000 {
        set_data(flag_spec(r, 12), 8, 0x1000)
    } else if mac < 0 {
        set_data(flag_spec(r, 12), 8, 0)
    } else {
        set_data(r, 8, wrap32(mac))
    }
}

/// OTZ saturated to 0..FFFFh; FLAG 18 on a limit.
pub open spec fn set_otz_spec(r: Regs, v: int) -> Regs {
    if v < 0 {
        set_data(flag_spec(r, 18), 7, 0)
    } else if v > 0xFFFF {
        set_data(flag_spec(r, 18), 7, 0xFFFF)
    } else {
        set_data(r, 7, v as u32)
    }
}

/// One colour channel of the colour FIFO: MAC SAR 4 saturated to 0..FFh (FLAG 21-i on a limit).
pub open spec fn color_channel(r: Regs, i: int) -> (Regs, int) {
    let v = shr(s32(r.data[25 + i]), 4);
    if v < 0 {
        (flag_spec(r, (21 - i) as u32), 0)
    } else if v > 0xFF {
        (flag_spec(r, (21 - i) as u32), 0xFF)
    } else {
        (r, v)
    }
}

/// Push MAC1..3 as a colour (with CODE from RGBC) into the colour FIFO RGB0..RGB2.
pub open spec fn push_color_spec(r: Regs) -> Regs {
    let (r1, cr) = color_channel(r, 0);
    let (r2, cg) = color_channel(r1, 1);
    let (r3, cb) = color_channel(r2, 2);
    let code = r3.data[6] / 0x100_0000;
    let rgb = (cr + cg * 0x100 + cb * 0x10000 + code * 0x100_0000) as u32;
    Regs {
        data: r3.data.update(20, r3.data[21]).update(21, r3.data[22]).update(22, rgb),
        ctrl: r3.ctrl,
    }
}

/// Rotation matrix element (r, c) of RT (control words 0..4).
pub open spec fn rt_el_spec(ctrl: Seq<u32>, row: int, col: int) -> int {
    let idx = row * 3 + col;
    let word = idx / 2;
    if idx % 2 == 0 || word == 4 {
        s16(ctrl[word])
    } else {
        s16(ctrl[word] / 0x10000)
    }
}

/// Element (r, c) of matrix `mx`: 0 = RT, 1 = LLM, 2 = LCM.
pub open spec fn mx_el_spec(ctrl: Seq<u32>, mx: int, row: int, col: int) -> int {
    let base: int = if mx == 1 {
        8
    } else if mx == 2 {
        16
    } else {
        0
    };
    let idx = row * 3 + col;
    let word = base + idx / 2;
    if idx == 8 || idx % 2 == 0 {
        s16(ctrl[word])
    } else {
        s16(ctrl[word] / 0x10000)
    }
}

/// Vertex V0..V2 as (x, y, z).
pub open spec fn vx_spec(data: Seq<u32>, n: int) -> (int, int, int) {
    (s16(data[n * 2]), s16(data[n * 2] / 0x10000), s16(data[n * 2 + 1]))
}

pub open spec fn ir_vec_spec(data: Seq<u32>) -> (int, int, int) {
    (s16(data[9]), s16(data[10]), s16(data[11]))
}

/// One matrix row on the 44-bit bus: T*1000h + M0*V0, then + M1*V1, then + M2*V2.
pub open spec fn row_spec(r: Regs, axis: u32, t: int, m: (int, int, int), v: (int, int, int)) -> (
    Regs,
    int,
) {
    let (r1, a1) = mac_spec(r, axis, t * 0x1000 + m.0 * v.0);
    let (r2, a2) = mac_spec(r1, axis, a1 + m.1 * v.1);
    mac_spec(r2, axis, a2 + m.2 * v.2)
}

/// MACi = acc SAR (sf*12), then IRi from it.
pub open spec fn store_spec(r: Regs, i: int, acc: int, sf: u32, lm: bool) -> Regs {
    let shifted = shr(acc, (sf * 12) as nat);
    set_ir_spec(set_data(r, 25 + i, wrap32(shifted)), i, shifted, lm)
}

pub open spec fn mx_row(ctrl: Seq<u32>, mx: int, row: int) -> (int, int, int) {
    (mx_el_spec(ctrl, mx, row, 0), mx_el_spec(ctrl, mx, row, 1), mx_el_spec(ctrl, mx, row, 2))
}

/// Row `row` of a matrix times `v` plus translation `t`, stored into MAC/IR row `row`.
pub open spec fn mat_row_spec(
    r: Regs,
    row: int,
    t: int,
    m: (int, int, int),
    v: (int, int, int),
    sf: u32,
    lm: bool,
) -> Regs {
    let (r1, acc) = row_spec(r, (row + 1) as u32, t, m, v);
    store_spec(r1, row, acc, sf, lm)
}

/// Translation word `w` of the control registers, or 0 with none.
pub open spec fn trans_spec(ctrl: Seq<u32>, w: int) -> int {
    if w < 0 {
        0
    } else {
        s32(ctrl[w])
    }
}

/// [MAC1..3] = [t] * 1000h + M*v for matrix `mx`, translation words t0..t2 (negative: none).
pub open spec fn mul_mat_vec_spec(
    r: Regs,
    mx: int,
    t: (int, int, int),
    v: (int, int, int),
    sf: u32,
    lm: bool,
) -> Regs {
    let r1 = mat_row_spec(r, 0, trans_spec(r.ctrl, t.0), mx_row(r.ctrl, mx, 0), v, sf, lm);
    let r2 = mat_row_spec(r1, 1, trans_spec(r1.ctrl, t.1), mx_row(r1.ctrl, mx, 1), v, sf, lm);
    mat_row_spec(r2, 2, trans_spec(r2.ctrl, t.2), mx_row(r2.ctrl, mx, 2), v, sf, lm)
}

/// Normal colour: LLM*V, then BK + LCM*IR.
pub open spec fn nc_vector_spec(r: Regs, vec: int, sf: u32, lm: bool) -> Regs {
    let r1 = mul_mat_vec_spec(r, 1, (-1, -1, -1), vx_spec(r.data, vec), sf, lm);
    mul_mat_vec_spec(r1, 2, (13, 14, 15), ir_vec_spec(r1.data), sf, lm)
}

/// One channel of colour interpolation towards the far colour FC.
pub open spec fn interp_first(r: Regs, i: int, mac_in: int, sf: u32) -> Regs {
    let fc = s32(r.ctrl[21 + i]);
    let (r1, acc) = mac_spec(r, (i + 1) as u32, fc * 0x1000 - mac_in);
    store_spec(r1, i, acc, sf, false)
}

pub open spec fn interp_second(r: Regs, i: int, mac_in: int, ir0: int, sf: u32, lm: bool) -> Regs {
    let ir = s16(r.data[9 + i]);
    let (r1, acc) = mac_spec(r, (i + 1) as u32, mac_in + ir * ir0);
    store_spec(r1, i, acc, sf, lm)
}

/// InterpolateColor: MAC = (FC*1000h - in) saturated with lm=0, then in + IR*IR0.
pub open spec fn interpolate_spec(r: Regs, m: (int, int, int), sf: u32, lm: bool) -> Regs {
    let ir0 = s16(r.data[8]);
    let r1 = interp_first(r, 0, m.0, sf);
    let r2 = interp_first(r1, 1, m.1, sf);
    let r3 = interp_first(r2, 2, m.2, sf);
    let r4 = interp_second(r3, 0, m.0, ir0, sf, lm);
    let r5 = interp_second(r4, 1, m.1, ir0, sf, lm);
    interp_second(r5, 2, m.2, ir0, sf, lm)
}

/// The colour byte `k` (0 = R, 1 = G, 2 = B) of a colour word.
pub open spec fn byte_of(w: u32, k: int) -> int {
    (w as int / pow2n((8 * k) as nat)) % 0x100
}

/// (R*IR1, G*IR2, B*IR3) << 4 from the colour word `w` and the current IR.
pub open spec fn color_times_ir(w: u32, ir: (int, int, int)) -> (int, int, int) {
    (byte_of(w, 0) * ir.0 * 16, byte_of(w, 1) * ir.1 * 16, byte_of(w, 2) * ir.2 * 16)
}

/// One channel of MAC = in, stored with `lm`.
pub open spec fn mac_store(r: Regs, i: int, v: int, sf: u32, lm: bool) -> Regs {
    let (r1, acc) = mac_spec(r, (i + 1) as u32, v);
    store_spec(r1, i, acc, sf, lm)
}

pub open spec fn mac_store3(r: Regs, m: (int, int, int), sf: u32, lm: bool) -> Regs {
    mac_store(mac_store(mac_store(r, 0, m.0, sf, lm), 1, m.1, sf, lm), 2, m.2, sf, lm)
}

pub open spec fn ncd_vector_spec(r: Regs, vec: int, sf: u32, lm: bool) -> Regs {
    let r1 = nc_vector_spec(r, vec, sf, lm);
    push_color_spec(
        interpolate_spec(r1, color_times_ir(r1.data[6], ir_vec_spec(r1.data)), sf, lm),
    )
}

pub open spec fn ncc_vector_spec(r: Regs, vec: int, sf: u32, lm: bool) -> Regs {
    let r1 = nc_vector_spec(r, vec, sf, lm);
    push_color_spec(mac_store3(r1, color_times_ir(r1.data[6], ir_vec_spec(r1.data)), sf, lm))
}

pub open spec fn nc_push_spec(r: Regs, vec: int, sf: u32, lm: bool) -> Regs {
    push_color_spec(nc_vector_spec(r, vec, sf, lm))
}

/// BK + LCM*IR.
pub open spec fn lcm_ir_bk_spec(r: Regs, sf: u32, lm: bool) -> Regs {
    mul_mat_vec_spec(r, 2, (13, 14, 15), ir_vec_spec(r.data), sf, lm)
}

pub open spec fn cc_spec(r: Regs, sf: u32, lm: bool) -> Regs {
    let r1 = lcm_ir_bk_spec(r, sf, lm);
    push_color_spec(mac_store3(r1, color_times_ir(r1.data[6], ir_vec_spec(r1.data)), sf, lm))
}

pub open spec fn cdp_spec(r: Regs, sf: u32, lm: bool) -> Regs {
    let r1 = lcm_ir_bk_spec(r, sf, lm);
    push_color_spec(
        interpolate_spec(r1, color_times_ir(r1.data[6], ir_vec_spec(r1.data)), sf, lm),
    )
}

/// (R, G, B) << 16 of the colour word `w`.
pub open spec fn color_shl16(w: u32) -> (int, int, int) {
    (byte_of(w, 0) * 0x10000, byte_of(w, 1) * 0x10000, byte_of(w, 2) * 0x10000)
}

pub open spec fn dpcs_spec(r: Regs, sf: u32, lm: bool) -> Regs {
    push_color_spec(interpolate_spec(r, color_shl16(r.data[6]), sf, lm))
}

pub open spec fn dpct_once_spec(r: Regs, sf: u32, lm: bool) -> Regs {
    push_color_spec(interpolate_spec(r, color_shl16(r.data[20]), sf, lm))
}

pub open spec fn intpl_spec(r: Regs, sf: u32, lm: bool) -> Regs {
    let ir = ir_vec_spec(r.data);
    push_color_spec(interpolate_spec(r, (ir.0 * 0x1000, ir.1 * 0x1000, ir.2 * 0x1000), sf, lm))
}

pub open spec fn dcpl_spec(r: Regs, sf: u32, lm: bool) -> Regs {
    push_color_spec(
        interpolate_spec(r, color_times_ir(r.data[6], ir_vec_spec(r.data)), sf, lm),
    )
}

/// GPF: MAC = IR*IR0.
pub open spec fn gpf_spec(r: Regs, sf: u32, lm: bool) -> Regs {
    let ir0 = s16(r.data[8]);
    let ir = ir_vec_spec(r.data);
    push_color_spec(mac_store3(r, (ir.0 * ir0, ir.1 * ir0, ir.2 * ir0), sf, lm))
}

/// GPL: MAC = (MAC << sf*12) + IR*IR0, channel by channel.
pub open spec fn gpl_channel(r: Regs, i: int, ir0: int, sf: u32, lm: bool) -> Regs {
    let ir = s16(r.data[9 + i]);
    let mac_old = s32(r.data[25 + i]) * pow2n((sf * 12) as nat);
    mac_store(r, i, ir * ir0 + mac_old, sf, lm)
}

pub open spec fn gpl_spec(r: Regs, sf: u32, lm: bool) -> Regs {
    let ir0 = s16(r.data[8]);
    push_color_spec(
        gpl_channel(gpl_channel(gpl_channel(r, 0, ir0, sf, lm), 1, ir0, sf, lm), 2, ir0, sf, lm),
    )
}

/// SQR: MAC = IR*IR, IR saturated with lm=0.
pub open spec fn sqr_channel(r: Regs, i: int, sf: u32) -> Regs {
    let ir = s16(r.data[9 + i]);
    mac_store(r, i, ir * ir, sf, false)
}

pub open spec fn sqr_spec(r: Regs, sf: u32) -> Regs {
    sqr_channel(sqr_channel(sqr_channel(r, 0, sf), 1, sf), 2, sf)
}

/// OP: the cross product of IR with the RT diagonal (D1, D2, D3).
pub open spec fn op_spec(r: Regs, sf: u32, lm: bool) -> Regs {
    let d1 = s16(r.ctrl[0]);
    let d2 = s16(r.ctrl[2] / 0x10000);
    let d3 = s16(r.ctrl[4]);
    let (ir1, ir2, ir3) = ir_vec_spec(r.data);
    let (r1, a1) = mac_spec(r, 1, ir3 * d2 - ir2 * d3);
    let (r2, a2) = mac_spec(r1, 2, ir1 * d3 - ir3 * d1);
    let (r3, a3) = mac_spec(r2, 3, ir2 * d1 - ir1 * d2);
    let m1 = shr(a1, (sf * 12) as nat);
    let m2 = shr(a2, (sf * 12) as nat);
    let m3 = shr(a3, (sf * 12) as nat);
    let r4 = set_data(set_data(set_data(r3, 25, wrap32(m1)), 26, wrap32(m2)), 27, wrap32(m3));
    set_ir_spec(set_ir_spec(set_ir_spec(r4, 0, m1, lm), 1, m2, lm), 2, m3, lm)
}

/// NCLIP: MAC0 = SX0*SY1 + SX1*SY2 + SX2*SY0 - SX0*SY2 - SX1*SY0 - SX2*SY1.
pub open spec fn nclip_spec(r: Regs) -> Regs {
    let sx0 = s16(r.data[12]);
    let sx1 = s16(r.data[13]);
    let sx2 = s16(r.data[14]);
    let sy0 = s16(r.data[12] / 0x10000);
    let sy1 = s16(r.data[13] / 0x10000);
    let sy2 = s16(r.data[14] / 0x10000);
    let (r1, m) = mac_spec(
        r,
        0,
        sx0 * sy1 + sx1 * sy2 + sx2 * sy0 - sx0 * sy2 - sx1 * sy0 - sx2 * sy1,
    );
    set_data(r1, 24, wrap32(m))
}

/// AVSZ3: MAC0 = ZSF3*(SZ1+SZ2+SZ3), OTZ = MAC0/1000h.
pub open spec fn avsz3_spec(r: Regs) -> Regs {
    let zsf3 = s16(r.ctrl[29]);
    let sum = r.data[17] as int % 0x10000 + r.data[18] as int % 0x10000 + r.data[19] as int
        % 0x10000;
    let (r1, m) = mac_spec(r, 0, zsf3 * sum);
    set_otz_spec(set_data(r1, 24, wrap32(m)), shr(m, 12))
}

/// AVSZ4: MAC0 = ZSF4*(SZ0+SZ1+SZ2+SZ3), OTZ = MAC0/1000h.
pub open spec fn avsz4_spec(r: Regs) -> Regs {
    let zsf4 = s16(r.ctrl[30]);
    let sum = r.data[16] as int % 0x10000 + r.data[17] as int % 0x10000 + r.data[18] as int
        % 0x10000 + r.data[19] as int % 0x10000;
    let (r1, m) = mac_spec(r, 0, zsf4 * sum);
    set_otz_spec(set_data(r1, 24, wrap32(m)), shr(m, 12))
}

/// One entry of the UNR reciprocal table: max(0, (40000h/(i+100h)+1)/2 - 101h).
pub open spec fn unr_entry(i: int) -> int {
    let q = (0x40000int / (i + 0x100) + 1) / 2;
    if q > 0x101 {
        q - 0x101
    } else {
        0
    }
}

/// `sz` shifted left until bit 15 is set, with the shift count.
pub open spec fn normalize16(sz: int, z: nat) -> (int, nat)
    decreases 0x10000 - sz,
{
    if sz <= 0 || sz >= 0x8000 {
        (sz, z)
    } else {
        normalize16(sz * 2, z + 1)
    }
}

/// The UNR perspective divide (H*20000h/SZ)/2, saturated at 1FFFFh.
pub open spec fn unr_divide_spec(h: int, sz: int) -> int {
    if h >= sz * 2 {
        0x1FFFF
    } else {
        let (d, z) = normalize16(sz, 0);
        let n = h * pow2n(z);
        let u = unr_entry((d - 0x7FC0) / 0x80) + 0x101;
        let d2 = (0x200_0080 - d * u) / 0x100;
        let d3 = (0x80 + d2 * u) / 0x100;
        let q = (n * d3 + 0x8000) / 0x10000;
        if q > 0x1FFFF {
            0x1FFFF
        } else {
            q
        }
    }
}

/// Screen coordinate saturated to -400h..3FFh; FLAG `bit` on a limit.
pub open spec fn sat_screen(r: Regs, v: int, bit: u32) -> (Regs, int) {
    if v < -0x400 {
        (flag_spec(r, bit), -0x400)
    } else if v > 0x3FF {
        (flag_spec(r, bit), 0x3FF)
    } else {
        (r, v)
    }
}

pub open spec fn clamp(v: int, lo: int, hi: int) -> int {
    if v < lo {
        lo
    } else if v > hi {
        hi
    } else {
        v
    }
}

/// RTPS on vertex `vec`: rotate, translate, project; push SZ and SXY; depth cue into IR0.
pub open spec fn rtp_spec(r: Regs, vec: int, sf: u32, lm: bool) -> Regs {
    let v = vx_spec(r.data, vec);
    let (r1, x) = row_spec(r, 1, s32(r.ctrl[5]), (rt_el_spec(r.ctrl, 0, 0), rt_el_spec(r.ctrl, 0, 1), rt_el_spec(r.ctrl, 0, 2)), v);
    let (r2, y) = row_spec(r1, 2, s32(r1.ctrl[6]), (rt_el_spec(r1.ctrl, 1, 0), rt_el_spec(r1.ctrl, 1, 1), rt_el_spec(r1.ctrl, 1, 2)), v);
    let (r3, z) = row_spec(r2, 3, s32(r2.ctrl[7]), (rt_el_spec(r2.ctrl, 2, 0), rt_el_spec(r2.ctrl, 2, 1), rt_el_spec(r2.ctrl, 2, 2)), v);
    let sh = (sf * 12) as nat;
    let r4 = set_ir_spec(set_data(r3, 25, wrap32(shr(x, sh))), 0, shr(x, sh), lm);
    let r5 = set_ir_spec(set_data(r4, 26, wrap32(shr(y, sh))), 1, shr(y, sh), lm);
    let mac3 = shr(z, sh);
    let r6 = set_data(r5, 27, wrap32(mac3));
    let r7 = set_ir_spec(r6, 2, shr(z, 12), false);
    let ir3 = clamp(mac3, if lm { 0 } else { -0x8000 }, 0x7FFF);
    let r8 = set_data(r7, 11, wrap32(ir3));
    let sz_raw = shr(z, 12);
    let r9 = if sz_raw < 0 || sz_raw > 0xFFFF {
        flag_spec(r8, 18)
    } else {
        r8
    };
    let sz = clamp(sz_raw, 0, 0xFFFF);
    let r10 = Regs {
        data: r9.data.update(16, r9.data[17]).update(17, r9.data[18]).update(18, r9.data[19]).update(19, sz as u32),
        ctrl: r9.ctrl,
    };
    let h = r10.ctrl[26] as int % 0x10000;
    let r11 = if h >= sz * 2 {
        Regs { data: r10.data, ctrl: r10.ctrl.update(31, r10.ctrl[31] | 0x8002_0000u32) }
    } else {
        r10
    };
    let n = unr_divide_spec(h, sz);
    let (r12, sx_mac) = mac_spec(r11, 0, n * s16(r11.data[9]) + s32(r11.ctrl[24]));
    let (r13, sy_mac) = mac_spec(r12, 0, n * s16(r12.data[10]) + s32(r12.ctrl[25]));
    let (r14, sx) = sat_screen(r13, shr(sx_mac, 16), 14);
    let (r15, sy) = sat_screen(r14, shr(sy_mac, 16), 13);
    let r16 = Regs {
        data: r15.data.update(12, r15.data[13]).update(13, r15.data[14]).update(
            14,
            wrap32(sy * 0x10000 + sx % 0x10000),
        ),
        ctrl: r15.ctrl,
    };
    let (r17, mac0) = mac_spec(r16, 0, n * s16(r16.ctrl[27]) + s32(r16.ctrl[28]));
    set_ir0_spec(set_data(r17, 24, wrap32(mac0)), shr(mac0, 12))
}

/// The matrix MVMVA multiplies: RT, LLM, LCM, or the hardware's garbage matrix for mx=3.
pub open spec fn mvmva_matrix(r: Regs, mx: int) -> ((int, int, int), (int, int, int), (int, int, int)) {
    if mx == 3 {
        let red = (r.data[6] as int % 0x100) * 0x10;
        let ir0 = s16(r.data[8]);
        let rt13 = rt_el_spec(r.ctrl, 0, 2);
        let rt22 = rt_el_spec(r.ctrl, 1, 1);
        ((-red, red, ir0), (rt13, rt13, rt13), (rt22, rt22, rt22))
    } else {
        (mx_row(r.ctrl, mx, 0), mx_row(r.ctrl, mx, 1), mx_row(r.ctrl, mx, 2))
    }
}

pub open spec fn mvmva_trans(r: Regs, cv: int) -> (int, int, int) {
    if cv == 0 {
        (s32(r.ctrl[5]), s32(r.ctrl[6]), s32(r.ctrl[7]))
    } else if cv == 1 {
        (s32(r.ctrl[13]), s32(r.ctrl[14]), s32(r.ctrl[15]))
    } else if cv == 2 {
        (s32(r.ctrl[21]), s32(r.ctrl[22]), s32(r.ctrl[23]))
    } else {
        (0, 0, 0)
    }
}

/// One MVMVA row. With the FC translation (cv=2) the hardware flags T*1000h + M0*V0 but
/// keeps only M1*V1 + M2*V2.
pub open spec fn mvmva_row(
    r: Regs,
    row: int,
    cv: int,
    t: int,
    m: (int, int, int),
    v: (int, int, int),
    sf: u32,
    lm: bool,
) -> Regs {
    let axis = (row + 1) as u32;
    if cv == 2 {
        let (r1, _) = mac_spec(r, axis, t * 0x1000 + m.0 * v.0);
        let (r2, acc) = mac_spec(r1, axis, m.1 * v.1 + m.2 * v.2);
        store_spec(r2, row, acc, sf, lm)
    } else {
        mat_row_spec(r, row, t, m, v, sf, lm)
    }
}

pub open spec fn mvmva_spec(r: Regs, instr: u32, sf: u32, lm: bool) -> Regs {
    let mx = ((instr / 0x2_0000) % 4) as int;
    let vsel = ((instr / 0x8000) % 4) as int;
    let cv = ((instr / 0x2000) % 4) as int;
    let v = if vsel <= 2 {
        vx_spec(r.data, vsel)
    } else {
        ir_vec_spec(r.data)
    };
    let m = mvmva_matrix(r, mx);
    let t = mvmva_trans(r, cv);
    let r1 = mvmva_row(r, 0, cv, t.0, m.0, v, sf, lm);
    let r2 = mvmva_row(r1, 1, cv, t.1, m.1, v, sf, lm);
    mvmva_row(r2, 2, cv, t.2, m.2, v, sf, lm)
}

/// The register file after command `instr` (FLAG cleared first, summary bit 31 after).
pub open spec fn command_spec(r0: Regs, instr: u32) -> Regs {
    let op = instr % 0x40;
    let sf = (instr / 0x8_0000) % 2;
    let lm = (instr / 0x400) % 2 == 1;
    let r = Regs { data: r0.data, ctrl: r0.ctrl.update(31, 0) };
    let out = if op == 0x01 {
        rtp_spec(r, 0, sf, lm)
    } else if op == 0x06 {
        nclip_spec(r)
    } else if op == 0x0C {
        op_spec(r, sf, lm)
    } else if op == 0x10 {
        dpcs_spec(r, sf, lm)
    } else if op == 0x11 {
        intpl_spec(r, sf, lm)
    } else if op == 0x12 {
        mvmva_spec(r, instr, sf, lm)
    } else if op == 0x13 {
        ncd_vector_spec(r, 0, sf, lm)
    } else if op == 0x14 {
        cdp_spec(r, sf, lm)
    } else if op == 0x16 {
        ncd_vector_spec(ncd_vector_spec(ncd_vector_spec(r, 0, sf, lm), 1, sf, lm), 2, sf, lm)
    } else if op == 0x1B {
        ncc_vector_spec(r, 0, sf, lm)
    } else if op == 0x1C {
        cc_spec(r, sf, lm)
    } else if op == 0x1E {
        nc_push_spec(r, 0, sf, lm)
    } else if op == 0x20 {
        nc_push_spec(nc_push_spec(nc_push_spec(r, 0, sf, lm), 1, sf, lm), 2, sf, lm)
    } else if op == 0x28 {
        sqr_spec(r, sf)
    } else if op == 0x29 {
        dcpl_spec(r, sf, lm)
    } else if op == 0x2A {
        dpct_once_spec(dpct_once_spec(dpct_once_spec(r, sf, lm), sf, lm), sf, lm)
    } else if op == 0x2D {
        avsz3_spec(r)
    } else if op == 0x2E {
        avsz4_spec(r)
    } else if op == 0x30 {
        rtp_spec(rtp_spec(rtp_spec(r, 0, sf, lm), 1, sf, lm), 2, sf, lm)
    } else if op == 0x3D {
        gpf_spec(r, sf, lm)
    } else if op == 0x3E {
        gpl_spec(r, sf, lm)
    } else if op == 0x3F {
        ncc_vector_spec(ncc_vector_spec(ncc_vector_spec(r, 0, sf, lm), 1, sf, lm), 2, sf, lm)
    } else {
        r
    };
    if out.ctrl[31] & 0x7F87_E000 != 0 {
        Regs { data: out.data, ctrl: out.ctrl.update(31, out.ctrl[31] | 0x8000_0000) }
    } else {
        out
    }
}

/// The product of two signed 16-bit values.
proof fn lemma_s16_product(a: int, b: int)
    requires
        -0x8000 <= a < 0x8000,
        -0x8000 <= b < 0x8000,
    ensures
        -0x8000 * 0x7FFF <= a * b <= 0x8000 * 0x8000,
{
    assert(-0x8000 * 0x7FFF <= a * b <= 0x8000 * 0x8000) by (nonlinear_arith)
        requires
            -0x8000 <= a < 0x8000,
            -0x8000 <= b < 0x8000,
    ;
}

/// The cross product of a and d is orthogonal to both.
proof fn lemma_cross_orthogonal(a1: int, a2: int, a3: int, d1: int, d2: int, d3: int)
    ensures
        d1 * (a3 * d2 - a2 * d3) + d2 * (a1 * d3 - a3 * d1) + d3 * (a2 * d1 - a1 * d2) == 0,
        a1 * (a3 * d2 - a2 * d3) + a2 * (a1 * d3 - a3 * d1) + a3 * (a2 * d1 - a1 * d2) == 0,
{
    vstd::arithmetic::mul::lemma_mul_is_distributive_sub(d1, a3 * d2, a2 * d3);
    vstd::arithmetic::mul::lemma_mul_is_distributive_sub(d2, a1 * d3, a3 * d1);
    vstd::arithmetic::mul::lemma_mul_is_distributive_sub(d3, a2 * d1, a1 * d2);
    vstd::arithmetic::mul::lemma_mul_is_distributive_sub(a1, a3 * d2, a2 * d3);
    vstd::arithmetic::mul::lemma_mul_is_distributive_sub(a2, a1 * d3, a3 * d1);
    vstd::arithmetic::mul::lemma_mul_is_distributive_sub(a3, a2 * d1, a1 * d2);
    assert(d1 * (a3 * d2) == d2 * (a3 * d1)) by (nonlinear_arith);
    assert(d1 * (a2 * d3) == d3 * (a2 * d1)) by (nonlinear_arith);
    assert(d2 * (a1 * d3) == d3 * (a1 * d2)) by (nonlinear_arith);
    assert(a1 * (a3 * d2) == a3 * (a1 * d2)) by (nonlinear_arith);
    assert(a1 * (a2 * d3) == a2 * (a1 * d3)) by (nonlinear_arith);
    assert(a2 * (a3 * d1) == a3 * (a2 * d1)) by (nonlinear_arith);
}

/// A value well inside 44 bits is its own 44-bit sign extension.
proof fn lemma_sext44_small(v: int)
    requires
        -0x8000_0000 <= v < 0x8000_0000,
    ensures
        sext(v, 44) == v,
{
    lemma_pow2_values();
    let p = pow2n(44);
    if v >= 0 {
        vstd::arithmetic::div_mod::lemma_small_mod(v as nat, p as nat);
    } else {
        vstd::arithmetic::div_mod::lemma_fundamental_div_mod(v, p);
        vstd::arithmetic::div_mod::lemma_mod_add_multiples_vanish(v, p);
        vstd::arithmetic::div_mod::lemma_small_mod((v + p) as nat, p as nat);
    }
}

/// A 32-bit signed value reads back from the register it was stored in.
proof fn lemma_s32_wrap32(m: int)
    requires
        -0x8000_0000 <= m < 0x8000_0000,
    ensures
        s32(wrap32(m)) == m,
{
    if m < 0 {
        vstd::arithmetic::div_mod::lemma_mod_add_multiples_vanish(m, 0x1_0000_0000);
        vstd::arithmetic::div_mod::lemma_small_mod((m + 0x1_0000_0000) as nat, 0x1_0000_0000);
    } else {
        vstd::arithmetic::div_mod::lemma_small_mod(m as nat, 0x1_0000_0000);
    }
}

/// OP is the cross product IR x D of IR = (IR1, IR2, IR3) with the rotation matrix
/// diagonal D = (RT11, RT22, RT33): MAC1..3 hold its components, shifted right 12 with
/// sf. Unshifted, the result is orthogonal to both IR and D.
pub proof fn law_op_is_cross_product(r: Regs, instr: u32)
    requires
        r.data.len() == 32,
        r.ctrl.len() == 32,
        instr % 0x40 == 0x0C,
    ensures
        ({
            let n = command_spec(r, instr);
            let sf = (instr / 0x8_0000) % 2;
            let k: int = if sf == 1 { 0x1000 } else { 1 };
            let d1 = s16(r.ctrl[0]);
            let d2 = s16(r.ctrl[2] / 0x10000);
            let d3 = s16(r.ctrl[4]);
            let i1 = s16(r.data[9]);
            let i2 = s16(r.data[10]);
            let i3 = s16(r.data[11]);
            let m1 = s32(n.data[25]);
            let m2 = s32(n.data[26]);
            let m3 = s32(n.data[27]);
            &&& m1 == (i3 * d2 - i2 * d3) / k
            &&& m2 == (i1 * d3 - i3 * d1) / k
            &&& m3 == (i2 * d1 - i1 * d2) / k
            &&& sf == 0 ==> d1 * m1 + d2 * m2 + d3 * m3 == 0 && i1 * m1 + i2 * m2 + i3 * m3 == 0
        }),
{
    lemma_pow2_values();
    let sf = (instr / 0x8_0000) % 2;
    let lm = (instr / 0x400) % 2 == 1;
    let r0 = Regs { data: r.data, ctrl: r.ctrl.update(31, 0) };
    let d1 = s16(r.ctrl[0]);
    let d2 = s16(r.ctrl[2] / 0x10000);
    let d3 = s16(r.ctrl[4]);
    let i1 = s16(r.data[9]);
    let i2 = s16(r.data[10]);
    let i3 = s16(r.data[11]);
    assert(r0.ctrl[0] == r.ctrl[0] && r0.ctrl[2] == r.ctrl[2] && r0.ctrl[4] == r.ctrl[4]);
    lemma_s16_product(i3, d2);
    lemma_s16_product(i2, d3);
    lemma_s16_product(i1, d3);
    lemma_s16_product(i3, d1);
    lemma_s16_product(i2, d1);
    lemma_s16_product(i1, d2);
    let v1 = i3 * d2 - i2 * d3;
    let v2 = i1 * d3 - i3 * d1;
    let v3 = i2 * d1 - i1 * d2;
    lemma_sext44_small(v1);
    lemma_sext44_small(v2);
    lemma_sext44_small(v3);
    let k: int = if sf == 1 { 0x1000 } else { 1 };
    let w1 = v1 / k;
    let w2 = v2 / k;
    let w3 = v3 / k;
    assert(-0x8000_0000 <= w1 < 0x8000_0000 && -0x8000_0000 <= w2 < 0x8000_0000
        && -0x8000_0000 <= w3 < 0x8000_0000) by (nonlinear_arith)
        requires
            -0x8000_0000 <= v1 < 0x8000_0000,
            -0x8000_0000 <= v2 < 0x8000_0000,
            -0x8000_0000 <= v3 < 0x8000_0000,
            k == 1 || k == 0x1000,
            w1 == v1 / k,
            w2 == v2 / k,
            w3 == v3 / k,
    ;
    lemma_s32_wrap32(w1);
    lemma_s32_wrap32(w2);
    lemma_s32_wrap32(w3);
    assert(shr(v1, (sf * 12) as nat) == w1);
    assert(shr(v2, (sf * 12) as nat) == w2);
    assert(shr(v3, (sf * 12) as nat) == w3);
    let out = op_spec(r0, sf, lm);
    assert(out.data[25] == wrap32(w1) && out.data[26] == wrap32(w2) && out.data[27] == wrap32(w3));
    assert(command_spec(r, instr).data == out.data);
    if sf == 0 {
        lemma_cross_orthogonal(i1, i2, i3, d1, d2, d3);
    }
}

/// NCLIP gives twice the signed area of the screen triangle SXY0, SXY1, SXY2 (when it
/// fits in MAC0): swapping two vertices changes its sign, and a degenerate triangle
/// with two equal vertices gives 0.
pub proof fn law_nclip_signed_area(r: Regs, instr: u32)
    requires
        r.data.len() == 32,
        r.ctrl.len() == 32,
        instr % 0x40 == 0x06,
    ensures
        ({
            let sx0 = s16(r.data[12]);
            let sx1 = s16(r.data[13]);
            let sx2 = s16(r.data[14]);
            let sy0 = s16(r.data[12] / 0x10000);
            let sy1 = s16(r.data[13] / 0x10000);
            let sy2 = s16(r.data[14] / 0x10000);
            let area2 = (sx1 - sx0) * (sy2 - sy0) - (sx2 - sx0) * (sy1 - sy0);
            let swapped = Regs { data: r.data.update(12, r.data[13]).update(13, r.data[12]), ctrl: r.ctrl };
            -0x8000_0000 <= area2 < 0x8000_0000 && -0x8000_0000 <= -area2 < 0x8000_0000 ==> {
                &&& s32(command_spec(r, instr).data[24]) == area2
                &&& s32(command_spec(swapped, instr).data[24]) == -area2
                &&& r.data[12] == r.data[13] ==> s32(command_spec(r, instr).data[24]) == 0
            }
        }),
{
    let sx0 = s16(r.data[12]);
    let sx1 = s16(r.data[13]);
    let sx2 = s16(r.data[14]);
    let sy0 = s16(r.data[12] / 0x10000);
    let sy1 = s16(r.data[13] / 0x10000);
    let sy2 = s16(r.data[14] / 0x10000);
    let area2 = (sx1 - sx0) * (sy2 - sy0) - (sx2 - sx0) * (sy1 - sy0);
    let v = sx0 * sy1 + sx1 * sy2 + sx2 * sy0 - sx0 * sy2 - sx1 * sy0 - sx2 * sy1;
    assert(v == area2) by (nonlinear_arith)
        requires
            v == sx0 * sy1 + sx1 * sy2 + sx2 * sy0 - sx0 * sy2 - sx1 * sy0 - sx2 * sy1,
            area2 == (sx1 - sx0) * (sy2 - sy0) - (sx2 - sx0) * (sy1 - sy0),
    ;
    let vs = sx1 * sy0 + sx0 * sy2 + sx2 * sy1 - sx1 * sy2 - sx0 * sy1 - sx2 * sy0;
    assert(vs == -area2) by (nonlinear_arith)
        requires
            vs == sx1 * sy0 + sx0 * sy2 + sx2 * sy1 - sx1 * sy2 - sx0 * sy1 - sx2 * sy0,
            area2 == (sx1 - sx0) * (sy2 - sy0) - (sx2 - sx0) * (sy1 - sy0),
    ;
    if -0x8000_0000 <= area2 < 0x8000_0000 && -0x8000_0000 <= -area2 < 0x8000_0000 {
        lemma_sext32_small(v);
        lemma_sext32_small(vs);
        lemma_s32_wrap32(v);
        lemma_s32_wrap32(vs);
        let swapped = Regs { data: r.data.update(12, r.data[13]).update(13, r.data[12]), ctrl: r.ctrl };
        assert(swapped.data[12] == r.data[13] && swapped.data[13] == r.data[12] && swapped.data[14] == r.data[14]);
        if r.data[12] == r.data[13] {
            assert(area2 == 0) by (nonlinear_arith)
                requires
                    sx0 == sx1,
                    sy0 == sy1,
                    area2 == (sx1 - sx0) * (sy2 - sy0) - (sx2 - sx0) * (sy1 - sy0),
            ;
        }
    }
}

/// A value inside 32 bits is its own 32-bit sign extension.
proof fn lemma_sext32_small(v: int)
    requires
        -0x8000_0000 <= v < 0x8000_0000,
    ensures
        sext(v, 32) == v,
{
    lemma_pow2_values();
    let p = pow2n(32);
    if v >= 0 {
        vstd::arithmetic::div_mod::lemma_small_mod(v as nat, p as nat);
    } else {
        vstd::arithmetic::div_mod::lemma_mod_add_multiples_vanish(v, p);
        vstd::arithmetic::div_mod::lemma_small_mod((v + p) as nat, p as nat);
    }
}

/// Data register numbers whose reads and writes sign-extend bits 0..15.
pub open spec fn data_signed(reg: u8) -> bool {
    reg == 1 || reg == 3 || reg == 5 || reg == 8 || reg == 9 || reg == 10 || reg == 11
}

/// Data register numbers that hold 16 bits (OTZ, SZ0..SZ3).
pub open spec fn data_unsigned16(reg: u8) -> bool {
    reg == 7 || reg == 16 || reg == 17 || reg == 18 || reg == 19
}

/// Control register numbers that sign-extend bits 0..15.
pub open spec fn ctrl_signed(reg: u8) -> bool {
    reg == 4 || reg == 12 || reg == 20 || reg == 26 || reg == 27 || reg == 29 || reg == 30
}

/// A saturated 5-bit colour channel of IRGB: IR/80h clamped to 0..1Fh.
pub open spec fn irgb_channel(v: u32) -> int {
    clamp(s32(v) / 0x80, 0, 0x1F)
}

/// The number of leading bits of `v` equal to its sign bit (LZCR).
pub open spec fn leading_sign_bits(v: u32) -> nat {
    if v >= 0x8000_0000 {
        leading_zeros32((!v) as u32)
    } else {
        leading_zeros32(v)
    }
}

pub open spec fn leading_zeros32(v: u32) -> nat
    decreases 32nat,
{
    lz_from(v, 32)
}

/// Leading zeros of the low `width` bits of `v`.
pub open spec fn lz_from(v: u32, width: nat) -> nat
    decreases width,
{
    if width == 0 {
        0
    } else if (v as int / pow2n((width - 1) as nat)) % 2 == 1 {
        0
    } else {
        1 + lz_from(v, (width - 1) as nat)
    }
}

/// What MFC2 of data register `reg` reads.
pub open spec fn read_data_spec(data: Seq<u32>, reg: u8) -> u32 {
    if data_signed(reg) {
        wrap32(s16(data[reg as int]))
    } else if data_unsigned16(reg) {
        data[reg as int] % 0x10000
    } else if reg == 15 {
        data[14]
    } else if reg == 28 || reg == 29 {
        (irgb_channel(data[9]) + irgb_channel(data[10]) * 0x20 + irgb_channel(data[11])
            * 0x400) as u32
    } else if reg == 31 {
        leading_sign_bits(data[30]) as u32
    } else {
        data[reg as int]
    }
}

/// The data registers after MTC2 of `value` to register `reg`.
pub open spec fn write_data_spec(data: Seq<u32>, reg: u8, value: u32) -> Seq<u32> {
    if reg == 15 {
        data.update(12, data[13]).update(13, data[14]).update(14, value)
    } else if reg == 28 {
        data.update(9, ((value % 0x20) * 0x80) as u32).update(
            10,
            (((value / 0x20) % 0x20) * 0x80) as u32,
        ).update(11, (((value / 0x400) % 0x20) * 0x80) as u32)
    } else if reg == 29 || reg == 31 {
        data
    } else if data_signed(reg) {
        data.update(reg as int, wrap32(s16(value)))
    } else if data_unsigned16(reg) {
        data.update(reg as int, value % 0x10000)
    } else {
        data.update(reg as int, value)
    }
}

pub open spec fn control_value(reg: u8, value: u32) -> u32 {
    if ctrl_signed(reg) {
        wrap32(s16(value))
    } else {
        value
    }
}

impl Gte {
    pub open spec fn regs(&self) -> Regs {
        Regs { data: self.data@, ctrl: self.ctrl@ }
    }

    pub fn new() -> (g: Self)
        ensures
            g.data@ == Seq::new(32, |i: int| 0u32),
            g.ctrl@ == Seq::new(32, |i: int| 0u32),
            g.op_counts@ == Seq::new(64, |i: int| 0u32),
    {
        let g = Gte { data: [0; 32], ctrl: [0; 32], op_counts: [0; 64] };
        assert(g.data@ =~= Seq::new(32, |i: int| 0u32));
        assert(g.ctrl@ =~= Seq::new(32, |i: int| 0u32));
        assert(g.op_counts@ =~= Seq::new(64, |i: int| 0u32));
        g
    }

    pub fn read_data(&self, reg: u8) -> (r: u32)
        requires
            reg < 32,
        ensures
            r == read_data_spec(self.data@, reg),
    {
        let i = reg as usize;
        if reg == 1 || reg == 3 || reg == 5 || reg == 8 || reg == 9 || reg == 10 || reg == 11 {
            to_word(lo16(self.data[i]))
        } else if reg == 7 || reg == 16 || reg == 17 || reg == 18 || reg == 19 {
            self.data[i] % 0x10000
        } else if reg == 15 {
            self.data[14]
        } else if reg == 28 || reg == 29 {
            self.irgb()
        } else if reg == 31 {
            self.lzcr()
        } else {
            self.data[i]
        }
    }

    pub fn write_data(&mut self, reg: u8, value: u32)
        requires
            reg < 32,
        ensures
            final(self).data@ == write_data_spec(old(self).data@, reg, value),
            final(self).ctrl == old(self).ctrl,
            final(self).op_counts == old(self).op_counts,
    {
        let i = reg as usize;
        if reg == 15 {
            self.data[12] = self.data[13];
            self.data[13] = self.data[14];
            self.data[14] = value;
        } else if reg == 28 {
            self.data[9] = (value % 0x20) * 0x80;
            self.data[10] = ((value / 0x20) % 0x20) * 0x80;
            self.data[11] = ((value / 0x400) % 0x20) * 0x80;
        } else if reg == 29 || reg == 31 {
        } else if reg == 1 || reg == 3 || reg == 5 || reg == 8 || reg == 9 || reg == 10 || reg
            == 11 {
            self.data[i] = to_word(lo16(value));
        } else if reg == 7 || reg == 16 || reg == 17 || reg == 18 || reg == 19 {
            self.data[i] = value % 0x10000;
        } else {
            self.data[i] = value;
        }
        proof {
            assert(self.data@ =~= write_data_spec(old(self).data@, reg, value));
        }
    }

    pub fn read_control(&self, reg: u8) -> (r: u32)
        requires
            reg < 32,
        ensures
            r == control_value(reg, self.ctrl@[reg as int]),
    {
        let v = self.ctrl[reg as usize];
        if reg == 4 || reg == 12 || reg == 20 || reg == 26 || reg == 27 || reg == 29 || reg == 30 {
            to_word(lo16(v))
        } else {
            v
        }
    }

    pub fn write_control(&mut self, reg: u8, value: u32)
        requires
            reg < 32,
        ensures
            final(self).ctrl@ == old(self).ctrl@.update(reg as int, control_value(reg, value)),
            final(self).data == old(self).data,
            final(self).op_counts == old(self).op_counts,
    {
        let v = if reg == 4 || reg == 12 || reg == 20 || reg == 26 || reg == 27 || reg == 29
            || reg == 30 {
            to_word(lo16(value))
        } else {
            value
        };
        self.ctrl[reg as usize] = v;
    }

    /// Run the command word `instr` (COP2 imm25).
    #[verifier::spinoff_prover]
    #[verifier::rlimit(60)]
    pub fn command(&mut self, instr: u32)
        ensures
            final(self).regs() == command_spec(old(self).regs(), instr),
            final(self).op_counts@ == old(self).op_counts@.update(
                (instr % 0x40) as int,
                if old(self).op_counts[(instr % 0x40) as int] == u32::MAX {
                    u32::MAX
                } else {
                    (old(self).op_counts[(instr % 0x40) as int] + 1) as u32
                },
            ),
    {
        let op = instr % 0x40;
        let sf = (instr / 0x8_0000) % 2;
        let lm = (instr / 0x400) % 2 == 1;
        self.ctrl[31] = 0;
        let c = self.op_counts[op as usize];
        self.op_counts[op as usize] = if c == u32::MAX {
            u32::MAX
        } else {
            c + 1
        };
        if op == 0x01 {
            self.rtp_vector(0, sf, lm);
        } else if op == 0x06 {
            self.nclip();
        } else if op == 0x0C {
            self.op(sf, lm);
        } else if op == 0x10 {
            self.dpcs(sf, lm);
        } else if op == 0x11 {
            self.intpl(sf, lm);
        } else if op == 0x12 {
            self.mvmva(instr, sf, lm);
        } else if op == 0x13 {
            self.ncd_vector(0, sf, lm);
        } else if op == 0x14 {
            self.cdp(sf, lm);
        } else if op == 0x16 {
            self.ncd_vector(0, sf, lm);
            self.ncd_vector(1, sf, lm);
            self.ncd_vector(2, sf, lm);
        } else if op == 0x1B {
            self.ncc_vector(0, sf, lm);
        } else if op == 0x1C {
            self.cc(sf, lm);
        } else if op == 0x1E {
            self.nc_vector(0, sf, lm);
            self.push_color();
        } else if op == 0x20 {
            self.nc_vector(0, sf, lm);
            self.push_color();
            self.nc_vector(1, sf, lm);
            self.push_color();
            self.nc_vector(2, sf, lm);
            self.push_color();
        } else if op == 0x28 {
            self.sqr(sf);
        } else if op == 0x29 {
            self.dcpl(sf, lm);
        } else if op == 0x2A {
            self.dpct_once(sf, lm);
            self.dpct_once(sf, lm);
            self.dpct_once(sf, lm);
        } else if op == 0x2D {
            self.avsz3();
        } else if op == 0x2E {
            self.avsz4();
        } else if op == 0x30 {
            self.rtp_vector(0, sf, lm);
            self.rtp_vector(1, sf, lm);
            self.rtp_vector(2, sf, lm);
        } else if op == 0x3D {
            self.gpf(sf, lm);
        } else if op == 0x3E {
            self.gpl(sf, lm);
        } else if op == 0x3F {
            self.ncc_vector(0, sf, lm);
            self.ncc_vector(1, sf, lm);
            self.ncc_vector(2, sf, lm);
        }
        let f = self.ctrl[31];
        if f & 0x7F87_E000 != 0 {
            self.ctrl[31] = f | 0x8000_0000;
        }
        proof {
            assert(self.regs().data =~= command_spec(old(self).regs(), instr).data);
            assert(self.regs().ctrl =~= command_spec(old(self).regs(), instr).ctrl);
        }
    }

    fn irgb_ch(v: u32) -> (r: u32)
        ensures
            r == irgb_channel(v),
    {
        let s = word_i(v);
        let q: i64 = if s >= 0 {
            s / 0x80
        } else {
            -((-s + 0x7F) / 0x80)
        };
        proof {
            if s < 0 {
                assert(-((-s + 0x7F) / 0x80) == s as int / 0x80) by {
                    vstd::arithmetic::div_mod::lemma_fundamental_div_mod(s as int, 0x80);
                    vstd::arithmetic::div_mod::lemma_fundamental_div_mod_converse(
                        -s + 0x7F,
                        0x80,
                        -(s as int / 0x80),
                        0x7F - s as int % 0x80,
                    );
                }
            }
        }
        if q < 0 {
            0
        } else if q > 0x1F {
            0x1F
        } else {
            q as u32
        }
    }

    fn irgb(&self) -> (r: u32)
        ensures
            r == (irgb_channel(self.data[9]) + irgb_channel(self.data[10]) * 0x20
                + irgb_channel(self.data[11]) * 0x400) as u32,
    {
        Self::irgb_ch(self.data[9]) + Self::irgb_ch(self.data[10]) * 0x20 + Self::irgb_ch(
            self.data[11],
        ) * 0x400
    }

    fn lzcr(&self) -> (r: u32)
        ensures
            r == leading_sign_bits(self.data[30]),
    {
        let v = self.data[30];
        let x = if v >= 0x8000_0000 {
            !v
        } else {
            v
        };
        count_leading_zeros(x)
    }

    fn flag(&mut self, bit: u32)
        requires
            bit < 32,
        ensures
            final(self).regs() == flag_spec(old(self).regs(), bit),
            final(self).op_counts == old(self).op_counts,
    {
        self.ctrl[31] = self.ctrl[31] | (1u32 << bit);
        proof {
            assert(self.regs().ctrl =~= flag_spec(old(self).regs(), bit).ctrl);
        }
    }

    fn set_data_word(&mut self, i: usize, v: u32)
        requires
            i < 32,
        ensures
            final(self).regs() == set_data(old(self).regs(), i as int, v),
            final(self).op_counts == old(self).op_counts,
    {
        self.data[i] = v;
        proof {
            assert(self.regs().data =~= set_data(old(self).regs(), i as int, v).data);
        }
    }

    /// Accumulate on MAC `axis`: overflow flags and truncation to the accumulator width.
    fn mac(&mut self, axis: u32, v: i64) -> (r: i64)
        requires
            axis <= 3,
            -0x1000_0000_0000_0000 <= v < 0x1000_0000_0000_0000,
        ensures
            (final(self).regs(), r as int) == mac_spec(old(self).regs(), axis, v as int),
            -0x800_0000_0000 <= r < 0x800_0000_0000,
            final(self).op_counts == old(self).op_counts,
    {
        if axis == 0 {
            if v > 0x7FFF_FFFF {
                self.flag(16);
            } else if v < -0x8000_0000 {
                self.flag(15);
            }
            sext32(v)
        } else {
            if v > 0x7FF_FFFF_FFFF {
                self.flag(31 - axis);
            } else if v < -0x800_0000_0000 {
                self.flag(28 - axis);
            }
            sext44(v)
        }
    }

    fn set_ir(&mut self, i: usize, mac: i64, lm: bool)
        requires
            i < 3,
            -0x1000_0000_0000_0000 <= mac < 0x1000_0000_0000_0000,
        ensures
            final(self).regs() == set_ir_spec(old(self).regs(), i as int, mac as int, lm),
            final(self).op_counts == old(self).op_counts,
    {
        let min: i64 = if lm {
            0
        } else {
            -0x8000
        };
        if mac > 0x7FFF {
            self.flag(24 - i as u32);
            self.set_data_word(9 + i, 0x7FFF);
        } else if mac < min {
            self.flag(24 - i as u32);
            self.set_data_word(9 + i, to_word(min));
        } else {
            self.set_data_word(9 + i, to_word(mac));
        }
    }

    fn set_ir0(&mut self, mac: i64)
        requires
            -0x1000_0000_0000_0000 <= mac < 0x1000_0000_0000_0000,
        ensures
            final(self).regs() == set_ir0_spec(old(self).regs(), mac as int),
            final(self).op_counts == old(self).op_counts,
    {
        if mac > 0x1000 {
            self.flag(12);
            self.set_data_word(8, 0x1000);
        } else if mac < 0 {
            self.flag(12);
            self.set_data_word(8, 0);
        } else {
            self.set_data_word(8, to_word(mac));
        }
    }

    fn set_otz(&mut self, v: i64)
        requires
            -0x1000_0000_0000_0000 <= v < 0x1000_0000_0000_0000,
        ensures
            final(self).regs() == set_otz_spec(old(self).regs(), v as int),
            final(self).op_counts == old(self).op_counts,
    {
        if v < 0 {
            self.flag(18);
            self.set_data_word(7, 0);
        } else if v > 0xFFFF {
            self.flag(18);
            self.set_data_word(7, 0xFFFF);
        } else {
            self.set_data_word(7, v as u32);
        }
    }

    /// MACi = acc SAR (sf*12), then IRi.
    fn store(&mut self, i: usize, acc: i64, sf: u32, lm: bool)
        requires
            i < 3,
            sf <= 1,
            -0x1000_0000_0000_0000 <= acc < 0x1000_0000_0000_0000,
        ensures
            final(self).regs() == store_spec(old(self).regs(), i as int, acc as int, sf, lm),
            final(self).op_counts == old(self).op_counts,
    {
        let shifted = shr_i(acc, sf * 12);
        self.set_data_word(25 + i, to_word(shifted));
        self.set_ir(i, shifted, lm);
    }

    /// One matrix row on the 44-bit bus.
    fn row(&mut self, axis: u32, t: i64, m0: i64, m1: i64, m2: i64, v0: i64, v1: i64, v2: i64) -> (r: i64)
        requires
            1 <= axis <= 3,
            -0x8000_0000 <= t < 0x8000_0000,
            -0x8000 <= m0 < 0x8000,
            -0x8000 <= m1 < 0x8000,
            -0x8000 <= m2 < 0x8000,
            -0x8000 <= v0 < 0x8000,
            -0x8000 <= v1 < 0x8000,
            -0x8000 <= v2 < 0x8000,
        ensures
            (final(self).regs(), r as int) == row_spec(
                old(self).regs(),
                axis,
                t as int,
                (m0 as int, m1 as int, m2 as int),
                (v0 as int, v1 as int, v2 as int),
            ),
            -0x800_0000_0000 <= r < 0x800_0000_0000,
            final(self).op_counts == old(self).op_counts,
    {
        proof {
            lemma_mul_small(m0 as int, v0 as int);
            lemma_mul_small(m1 as int, v1 as int);
            lemma_mul_small(m2 as int, v2 as int);
        }
        let a1 = self.mac(axis, t * 0x1000 + m0 * v0);
        let a2 = self.mac(axis, a1 + m1 * v1);
        self.mac(axis, a2 + m2 * v2)
    }

    fn rt_el(&self, row: usize, col: usize) -> (r: i64)
        requires
            row < 3,
            col < 3,
        ensures
            r == rt_el_spec(self.ctrl@, row as int, col as int),
            -0x8000 <= r < 0x8000,
    {
        let idx = row * 3 + col;
        let word = idx / 2;
        let v = self.ctrl[word];
        if idx % 2 == 0 || word == 4 {
            lo16(v)
        } else {
            hi16(v)
        }
    }

    fn mx_el(&self, mx: usize, row: usize, col: usize) -> (r: i64)
        requires
            row < 3,
            col < 3,
        ensures
            r == mx_el_spec(self.ctrl@, mx as int, row as int, col as int),
            -0x8000 <= r < 0x8000,
    {
        let base: usize = if mx == 1 {
            8
        } else if mx == 2 {
            16
        } else {
            0
        };
        let idx = row * 3 + col;
        let word = base + idx / 2;
        let v = self.ctrl[word];
        if idx == 8 || idx % 2 == 0 {
            lo16(v)
        } else {
            hi16(v)
        }
    }

    fn vx(&self, n: usize) -> (r: (i64, i64, i64))
        requires
            n < 3,
        ensures
            (r.0 as int, r.1 as int, r.2 as int) == vx_spec(self.data@, n as int),
            -0x8000 <= r.0 < 0x8000,
            -0x8000 <= r.1 < 0x8000,
            -0x8000 <= r.2 < 0x8000,
    {
        (lo16(self.data[n * 2]), hi16(self.data[n * 2]), lo16(self.data[n * 2 + 1]))
    }

    fn ir_vec(&self) -> (r: (i64, i64, i64))
        ensures
            (r.0 as int, r.1 as int, r.2 as int) == ir_vec_spec(self.data@),
            -0x8000 <= r.0 < 0x8000,
            -0x8000 <= r.1 < 0x8000,
            -0x8000 <= r.2 < 0x8000,
    {
        (lo16(self.data[9]), lo16(self.data[10]), lo16(self.data[11]))
    }

    /// Row `row` of matrix `mx` times `v` plus translation word `tw` (none when >= 32).
    fn mat_row(&mut self, row: usize, tw: usize, mx: usize, v: (i64, i64, i64), sf: u32, lm: bool)
        requires
            row < 3,
            sf <= 1,
            -0x8000 <= v.0 < 0x8000,
            -0x8000 <= v.1 < 0x8000,
            -0x8000 <= v.2 < 0x8000,
        ensures
            final(self).regs() == mat_row_spec(
                old(self).regs(),
                row as int,
                if tw < 32 {
                    s32(old(self).ctrl@[tw as int])
                } else {
                    0
                },
                mx_row(old(self).ctrl@, mx as int, row as int),
                (v.0 as int, v.1 as int, v.2 as int),
                sf,
                lm,
            ),
            final(self).op_counts == old(self).op_counts,
    {
        let t = if tw < 32 {
            word_i(self.ctrl[tw])
        } else {
            0
        };
        let m0 = self.mx_el(mx, row, 0);
        let m1 = self.mx_el(mx, row, 1);
        let m2 = self.mx_el(mx, row, 2);
        let acc = self.row(row as u32 + 1, t, m0, m1, m2, v.0, v.1, v.2);
        self.store(row, acc, sf, lm);
    }

    fn mul_mat_vec(&mut self, mx: usize, trans: bool, v: (i64, i64, i64), sf: u32, lm: bool)
        requires
            sf <= 1,
            mx == 1 || mx == 2,
            -0x8000 <= v.0 < 0x8000,
            -0x8000 <= v.1 < 0x8000,
            -0x8000 <= v.2 < 0x8000,
        ensures
            final(self).regs() == mul_mat_vec_spec(
                old(self).regs(),
                mx as int,
                if trans {
                    (13, 14, 15)
                } else {
                    (-1, -1, -1)
                },
                (v.0 as int, v.1 as int, v.2 as int),
                sf,
                lm,
            ),
            final(self).op_counts == old(self).op_counts,
    {
        let (t0, t1, t2): (usize, usize, usize) = if trans {
            (13, 14, 15)
        } else {
            (32, 32, 32)
        };
        self.mat_row(0, t0, mx, v, sf, lm);
        self.mat_row(1, t1, mx, v, sf, lm);
        self.mat_row(2, t2, mx, v, sf, lm);
    }

    fn nc_vector(&mut self, vec: usize, sf: u32, lm: bool)
        requires
            vec < 3,
            sf <= 1,
        ensures
            final(self).regs() == nc_vector_spec(old(self).regs(), vec as int, sf, lm),
            final(self).op_counts == old(self).op_counts,
    {
        let v = self.vx(vec);
        self.mul_mat_vec(1, false, v, sf, lm);
        let ir = self.ir_vec();
        self.mul_mat_vec(2, true, ir, sf, lm);
    }

    fn color_channel(&mut self, i: usize) -> (r: u32)
        requires
            i < 3,
        ensures
            (final(self).regs(), r as int) == color_channel(old(self).regs(), i as int),
            final(self).op_counts == old(self).op_counts,
    {
        let v = shr_i(word_i(self.data[25 + i]), 4);
        if v < 0 {
            self.flag(21 - i as u32);
            0
        } else if v > 0xFF {
            self.flag(21 - i as u32);
            0xFF
        } else {
            v as u32
        }
    }

    /// Push MAC1..3 into the colour FIFO as a colour (MAC SAR 4, saturated per channel).
    pub fn push_color(&mut self)
        ensures
            final(self).regs() == push_color_spec(old(self).regs()),
            final(self).op_counts == old(self).op_counts,
    {
        let cr = self.color_channel(0);
        let cg = self.color_channel(1);
        let cb = self.color_channel(2);
        let code = self.data[6] / 0x100_0000;
        let rgb = cr + cg * 0x100 + cb * 0x10000 + code * 0x100_0000;
        self.data[20] = self.data[21];
        self.data[21] = self.data[22];
        self.data[22] = rgb;
        proof {
            assert(self.regs().data =~= push_color_spec(old(self).regs()).data);
        }
    }

    fn color_bytes(w: u32) -> (r: (i64, i64, i64))
        ensures
            r.0 == byte_of(w, 0),
            r.1 == byte_of(w, 1),
            r.2 == byte_of(w, 2),
            0 <= r.0 < 0x100,
            0 <= r.1 < 0x100,
            0 <= r.2 < 0x100,
    {
        proof {
            lemma_pow2_values();
            reveal_with_fuel(pow2n, 17);
        }
        ((w % 0x100) as i64, ((w / 0x100) % 0x100) as i64, ((w / 0x10000) % 0x100) as i64)
    }

    /// (R*IR1, G*IR2, B*IR3) << 4 of colour word `w` and the current IR.
    fn color_ir(&self, w: u32) -> (r: (i64, i64, i64))
        ensures
            (r.0 as int, r.1 as int, r.2 as int) == color_times_ir(w, ir_vec_spec(self.data@)),
            -0x1000_0000 <= r.0 < 0x1000_0000,
            -0x1000_0000 <= r.1 < 0x1000_0000,
            -0x1000_0000 <= r.2 < 0x1000_0000,
    {
        let (r, g, b) = Self::color_bytes(w);
        let ir = self.ir_vec();
        proof {
            lemma_mul_bounded(r as int, ir.0 as int, 0x100, 0x8000);
            lemma_mul_bounded(g as int, ir.1 as int, 0x100, 0x8000);
            lemma_mul_bounded(b as int, ir.2 as int, 0x100, 0x8000);
        }
        (r * ir.0 * 16, g * ir.1 * 16, b * ir.2 * 16)
    }

    fn interpolate_color(&mut self, m: (i64, i64, i64), sf: u32, lm: bool)
        requires
            sf <= 1,
            -0x1000_0000 <= m.0 < 0x1000_0000,
            -0x1000_0000 <= m.1 < 0x1000_0000,
            -0x1000_0000 <= m.2 < 0x1000_0000,
        ensures
            final(self).regs() == interpolate_spec(
                old(self).regs(),
                (m.0 as int, m.1 as int, m.2 as int),
                sf,
                lm,
            ),
            final(self).op_counts == old(self).op_counts,
    {
        let ir0 = lo16(self.data[8]);
        self.interp_first(0, m.0, sf);
        self.interp_first(1, m.1, sf);
        self.interp_first(2, m.2, sf);
        self.interp_second(0, m.0, ir0, sf, lm);
        self.interp_second(1, m.1, ir0, sf, lm);
        self.interp_second(2, m.2, ir0, sf, lm);
    }

    fn interp_first(&mut self, i: usize, mac_in: i64, sf: u32)
        requires
            i < 3,
            sf <= 1,
            -0x1000_0000 <= mac_in < 0x1000_0000,
        ensures
            final(self).regs() == interp_first(old(self).regs(), i as int, mac_in as int, sf),
            final(self).op_counts == old(self).op_counts,
    {
        let fc = word_i(self.ctrl[21 + i]);
        let acc = self.mac(i as u32 + 1, fc * 0x1000 - mac_in);
        self.store(i, acc, sf, false);
    }

    fn interp_second(&mut self, i: usize, mac_in: i64, ir0: i64, sf: u32, lm: bool)
        requires
            i < 3,
            sf <= 1,
            -0x1000_0000 <= mac_in < 0x1000_0000,
            -0x8000 <= ir0 < 0x8000,
        ensures
            final(self).regs() == interp_second(
                old(self).regs(),
                i as int,
                mac_in as int,
                ir0 as int,
                sf,
                lm,
            ),
            final(self).op_counts == old(self).op_counts,
    {
        let ir = lo16(self.data[9 + i]);
        proof {
            lemma_mul_small(ir as int, ir0 as int);
        }
        let acc = self.mac(i as u32 + 1, mac_in + ir * ir0);
        self.store(i, acc, sf, lm);
    }

    fn mac_store(&mut self, i: usize, v: i64, sf: u32, lm: bool)
        requires
            i < 3,
            sf <= 1,
            -0x1000_0000_0000_0000 <= v < 0x1000_0000_0000_0000,
        ensures
            final(self).regs() == mac_store(old(self).regs(), i as int, v as int, sf, lm),
            final(self).op_counts == old(self).op_counts,
    {
        let acc = self.mac(i as u32 + 1, v);
        self.store(i, acc, sf, lm);
    }

    fn mac_store3(&mut self, m: (i64, i64, i64), sf: u32, lm: bool)
        requires
            sf <= 1,
            -0x1000_0000_0000_0000 <= m.0 < 0x1000_0000_0000_0000,
            -0x1000_0000_0000_0000 <= m.1 < 0x1000_0000_0000_0000,
            -0x1000_0000_0000_0000 <= m.2 < 0x1000_0000_0000_0000,
        ensures
            final(self).regs() == mac_store3(
                old(self).regs(),
                (m.0 as int, m.1 as int, m.2 as int),
                sf,
                lm,
            ),
            final(self).op_counts == old(self).op_counts,
    {
        self.mac_store(0, m.0, sf, lm);
        self.mac_store(1, m.1, sf, lm);
        self.mac_store(2, m.2, sf, lm);
    }

    fn ncd_vector(&mut self, vec: usize, sf: u32, lm: bool)
        requires
            vec < 3,
            sf <= 1,
        ensures
            final(self).regs() == ncd_vector_spec(old(self).regs(), vec as int, sf, lm),
            final(self).op_counts == old(self).op_counts,
    {
        self.nc_vector(vec, sf, lm);
        let m = self.color_ir(self.data[6]);
        self.interpolate_color(m, sf, lm);
        self.push_color();
    }

    fn ncc_vector(&mut self, vec: usize, sf: u32, lm: bool)
        requires
            vec < 3,
            sf <= 1,
        ensures
            final(self).regs() == ncc_vector_spec(old(self).regs(), vec as int, sf, lm),
            final(self).op_counts == old(self).op_counts,
    {
        self.nc_vector(vec, sf, lm);
        let m = self.color_ir(self.data[6]);
        self.mac_store3(m, sf, lm);
        self.push_color();
    }

    fn lcm_ir_bk(&mut self, sf: u32, lm: bool)
        requires
            sf <= 1,
        ensures
            final(self).regs() == lcm_ir_bk_spec(old(self).regs(), sf, lm),
            final(self).op_counts == old(self).op_counts,
    {
        let ir = self.ir_vec();
        self.mul_mat_vec(2, true, ir, sf, lm);
    }

    fn cc(&mut self, sf: u32, lm: bool)
        requires
            sf <= 1,
        ensures
            final(self).regs() == cc_spec(old(self).regs(), sf, lm),
            final(self).op_counts == old(self).op_counts,
    {
        self.lcm_ir_bk(sf, lm);
        let m = self.color_ir(self.data[6]);
        self.mac_store3(m, sf, lm);
        self.push_color();
    }

    fn cdp(&mut self, sf: u32, lm: bool)
        requires
            sf <= 1,
        ensures
            final(self).regs() == cdp_spec(old(self).regs(), sf, lm),
            final(self).op_counts == old(self).op_counts,
    {
        self.lcm_ir_bk(sf, lm);
        let m = self.color_ir(self.data[6]);
        self.interpolate_color(m, sf, lm);
        self.push_color();
    }

    fn color16(w: u32) -> (r: (i64, i64, i64))
        ensures
            (r.0 as int, r.1 as int, r.2 as int) == color_shl16(w),
            0 <= r.0 < 0x100_0000,
            0 <= r.1 < 0x100_0000,
            0 <= r.2 < 0x100_0000,
    {
        let (r, g, b) = Self::color_bytes(w);
        (r * 0x10000, g * 0x10000, b * 0x10000)
    }

    fn dpcs(&mut self, sf: u32, lm: bool)
        requires
            sf <= 1,
        ensures
            final(self).regs() == dpcs_spec(old(self).regs(), sf, lm),
            final(self).op_counts == old(self).op_counts,
    {
        let m = Self::color16(self.data[6]);
        self.interpolate_color(m, sf, lm);
        self.push_color();
    }

    fn dpct_once(&mut self, sf: u32, lm: bool)
        requires
            sf <= 1,
        ensures
            final(self).regs() == dpct_once_spec(old(self).regs(), sf, lm),
            final(self).op_counts == old(self).op_counts,
    {
        let m = Self::color16(self.data[20]);
        self.interpolate_color(m, sf, lm);
        self.push_color();
    }

    fn intpl(&mut self, sf: u32, lm: bool)
        requires
            sf <= 1,
        ensures
            final(self).regs() == intpl_spec(old(self).regs(), sf, lm),
            final(self).op_counts == old(self).op_counts,
    {
        let ir = self.ir_vec();
        self.interpolate_color((ir.0 * 0x1000, ir.1 * 0x1000, ir.2 * 0x1000), sf, lm);
        self.push_color();
    }

    fn dcpl(&mut self, sf: u32, lm: bool)
        requires
            sf <= 1,
        ensures
            final(self).regs() == dcpl_spec(old(self).regs(), sf, lm),
            final(self).op_counts == old(self).op_counts,
    {
        let m = self.color_ir(self.data[6]);
        self.interpolate_color(m, sf, lm);
        self.push_color();
    }

    fn gpf(&mut self, sf: u32, lm: bool)
        requires
            sf <= 1,
        ensures
            final(self).regs() == gpf_spec(old(self).regs(), sf, lm),
            final(self).op_counts == old(self).op_counts,
    {
        let ir0 = lo16(self.data[8]);
        let ir = self.ir_vec();
        proof {
            lemma_mul_small(ir.0 as int, ir0 as int);
            lemma_mul_small(ir.1 as int, ir0 as int);
            lemma_mul_small(ir.2 as int, ir0 as int);
        }
        self.mac_store3((ir.0 * ir0, ir.1 * ir0, ir.2 * ir0), sf, lm);
        self.push_color();
    }

    fn gpl_channel(&mut self, i: usize, ir0: i64, sf: u32, lm: bool)
        requires
            i < 3,
            sf <= 1,
            -0x8000 <= ir0 < 0x8000,
        ensures
            final(self).regs() == gpl_channel(old(self).regs(), i as int, ir0 as int, sf, lm),
            final(self).op_counts == old(self).op_counts,
    {
        proof {
            lemma_pow2_values();
        }
        let ir = lo16(self.data[9 + i]);
        let m = word_i(self.data[25 + i]);
        let mac_old: i64 = if sf == 1 {
            m * 0x1000
        } else {
            m
        };
        proof {
            lemma_mul_small(ir as int, ir0 as int);
        }
        self.mac_store(i, ir * ir0 + mac_old, sf, lm);
    }

    fn gpl(&mut self, sf: u32, lm: bool)
        requires
            sf <= 1,
        ensures
            final(self).regs() == gpl_spec(old(self).regs(), sf, lm),
            final(self).op_counts == old(self).op_counts,
    {
        let ir0 = lo16(self.data[8]);
        self.gpl_channel(0, ir0, sf, lm);
        self.gpl_channel(1, ir0, sf, lm);
        self.gpl_channel(2, ir0, sf, lm);
        self.push_color();
    }

    fn sqr_channel(&mut self, i: usize, sf: u32)
        requires
            i < 3,
            sf <= 1,
        ensures
            final(self).regs() == sqr_channel(old(self).regs(), i as int, sf),
            final(self).op_counts == old(self).op_counts,
    {
        let ir = lo16(self.data[9 + i]);
        proof {
            lemma_mul_small(ir as int, ir as int);
        }
        self.mac_store(i, ir * ir, sf, false);
    }

    fn sqr(&mut self, sf: u32)
        requires
            sf <= 1,
        ensures
            final(self).regs() == sqr_spec(old(self).regs(), sf),
            final(self).op_counts == old(self).op_counts,
    {
        self.sqr_channel(0, sf);
        self.sqr_channel(1, sf);
        self.sqr_channel(2, sf);
    }

    fn op(&mut self, sf: u32, lm: bool)
        requires
            sf <= 1,
        ensures
            final(self).regs() == op_spec(old(self).regs(), sf, lm),
            final(self).op_counts == old(self).op_counts,
    {
        let d1 = lo16(self.ctrl[0]);
        let d2 = hi16(self.ctrl[2]);
        let d3 = lo16(self.ctrl[4]);
        let (ir1, ir2, ir3) = self.ir_vec();
        proof {
            lemma_mul_small(ir3 as int, d2 as int);
            lemma_mul_small(ir2 as int, d3 as int);
            lemma_mul_small(ir1 as int, d3 as int);
            lemma_mul_small(ir3 as int, d1 as int);
            lemma_mul_small(ir2 as int, d1 as int);
            lemma_mul_small(ir1 as int, d2 as int);
        }
        let a1 = self.mac(1, ir3 * d2 - ir2 * d3);
        let a2 = self.mac(2, ir1 * d3 - ir3 * d1);
        let a3 = self.mac(3, ir2 * d1 - ir1 * d2);
        let m1 = shr_i(a1, sf * 12);
        let m2 = shr_i(a2, sf * 12);
        let m3 = shr_i(a3, sf * 12);
        self.set_data_word(25, to_word(m1));
        self.set_data_word(26, to_word(m2));
        self.set_data_word(27, to_word(m3));
        self.set_ir(0, m1, lm);
        self.set_ir(1, m2, lm);
        self.set_ir(2, m3, lm);
    }

    fn nclip(&mut self)
        ensures
            final(self).regs() == nclip_spec(old(self).regs()),
            final(self).op_counts == old(self).op_counts,
    {
        let sx0 = lo16(self.data[12]);
        let sx1 = lo16(self.data[13]);
        let sx2 = lo16(self.data[14]);
        let sy0 = hi16(self.data[12]);
        let sy1 = hi16(self.data[13]);
        let sy2 = hi16(self.data[14]);
        proof {
            lemma_mul_small(sx0 as int, sy1 as int);
            lemma_mul_small(sx1 as int, sy2 as int);
            lemma_mul_small(sx2 as int, sy0 as int);
            lemma_mul_small(sx0 as int, sy2 as int);
            lemma_mul_small(sx1 as int, sy0 as int);
            lemma_mul_small(sx2 as int, sy1 as int);
        }
        let m = self.mac(
            0,
            sx0 * sy1 + sx1 * sy2 + sx2 * sy0 - sx0 * sy2 - sx1 * sy0 - sx2 * sy1,
        );
        self.set_data_word(24, to_word(m));
    }

    fn avsz3(&mut self)
        ensures
            final(self).regs() == avsz3_spec(old(self).regs()),
            final(self).op_counts == old(self).op_counts,
    {
        let zsf3 = lo16(self.ctrl[29]);
        let sum = (self.data[17] % 0x10000) as i64 + (self.data[18] % 0x10000) as i64 + (
        self.data[19] % 0x10000) as i64;
        proof {
            lemma_mul_bounded(zsf3 as int, sum as int, 0x8000, 0x30000);
        }
        let m = self.mac(0, zsf3 * sum);
        self.set_data_word(24, to_word(m));
        let v = shr_i(m, 12);
        self.set_otz(v);
    }

    fn avsz4(&mut self)
        ensures
            final(self).regs() == avsz4_spec(old(self).regs()),
            final(self).op_counts == old(self).op_counts,
    {
        let zsf4 = lo16(self.ctrl[30]);
        let sum = (self.data[16] % 0x10000) as i64 + (self.data[17] % 0x10000) as i64 + (
        self.data[18] % 0x10000) as i64 + (self.data[19] % 0x10000) as i64;
        proof {
            lemma_mul_bounded(zsf4 as int, sum as int, 0x8000, 0x40000);
        }
        let m = self.mac(0, zsf4 * sum);
        self.set_data_word(24, to_word(m));
        let v = shr_i(m, 12);
        self.set_otz(v);
    }

    fn sat_screen(&mut self, v: i64, bit: u32) -> (r: i64)
        requires
            bit < 32,
        ensures
            (final(self).regs(), r as int) == sat_screen(old(self).regs(), v as int, bit),
            -0x400 <= r <= 0x3FF,
            final(self).op_counts == old(self).op_counts,
    {
        if v < -0x400 {
            self.flag(bit);
            -0x400
        } else if v > 0x3FF {
            self.flag(bit);
            0x3FF
        } else {
            v
        }
    }

    /// The front half of RTPS: rotate and translate, MAC1..3, IR1..3.
    fn rtp_front(&mut self, vec: usize, sf: u32, lm: bool) -> (z: i64)
        requires
            vec < 3,
            sf <= 1,
        ensures
            ({
                let r = old(self).regs();
                let v = vx_spec(r.data, vec as int);
                let (r1, x) = row_spec(r, 1, s32(r.ctrl[5]), (rt_el_spec(r.ctrl, 0, 0), rt_el_spec(r.ctrl, 0, 1), rt_el_spec(r.ctrl, 0, 2)), v);
                let (r2, y) = row_spec(r1, 2, s32(r1.ctrl[6]), (rt_el_spec(r1.ctrl, 1, 0), rt_el_spec(r1.ctrl, 1, 1), rt_el_spec(r1.ctrl, 1, 2)), v);
                let (r3, zz) = row_spec(r2, 3, s32(r2.ctrl[7]), (rt_el_spec(r2.ctrl, 2, 0), rt_el_spec(r2.ctrl, 2, 1), rt_el_spec(r2.ctrl, 2, 2)), v);
                let sh = (sf * 12) as nat;
                let r4 = set_ir_spec(set_data(r3, 25, wrap32(shr(x, sh))), 0, shr(x, sh), lm);
                let r5 = set_ir_spec(set_data(r4, 26, wrap32(shr(y, sh))), 1, shr(y, sh), lm);
                let mac3 = shr(zz, sh);
                let r6 = set_data(r5, 27, wrap32(mac3));
                let r7 = set_ir_spec(r6, 2, shr(zz, 12), false);
                let ir3 = clamp(mac3, if lm { 0 } else { -0x8000 }, 0x7FFF);
                &&& final(self).regs() == set_data(r7, 11, wrap32(ir3))
                &&& z as int == zz
            }),
            -0x800_0000_0000 <= z < 0x800_0000_0000,
            final(self).op_counts == old(self).op_counts,
    {
        let (vx, vy, vz) = self.vx(vec);
        let t0 = word_i(self.ctrl[5]);
        let m00 = self.rt_el(0, 0);
        let m01 = self.rt_el(0, 1);
        let m02 = self.rt_el(0, 2);
        let x = self.row(1, t0, m00, m01, m02, vx, vy, vz);
        let t1 = word_i(self.ctrl[6]);
        let m10 = self.rt_el(1, 0);
        let m11 = self.rt_el(1, 1);
        let m12 = self.rt_el(1, 2);
        let y = self.row(2, t1, m10, m11, m12, vx, vy, vz);
        let t2 = word_i(self.ctrl[7]);
        let m20 = self.rt_el(2, 0);
        let m21 = self.rt_el(2, 1);
        let m22 = self.rt_el(2, 2);
        let z = self.row(3, t2, m20, m21, m22, vx, vy, vz);
        let sh = sf * 12;
        let xs = shr_i(x, sh);
        self.set_data_word(25, to_word(xs));
        self.set_ir(0, xs, lm);
        let ys = shr_i(y, sh);
        self.set_data_word(26, to_word(ys));
        self.set_ir(1, ys, lm);
        let mac3 = shr_i(z, sh);
        self.set_data_word(27, to_word(mac3));
        let z12 = shr_i(z, 12);
        self.set_ir(2, z12, false);
        let lo: i64 = if lm {
            0
        } else {
            -0x8000
        };
        let ir3 = if mac3 < lo {
            lo
        } else if mac3 > 0x7FFF {
            0x7FFF
        } else {
            mac3
        };
        self.set_data_word(11, to_word(ir3));
        z
    }

    /// Push SZ3 from MAC3 (saturated 0..FFFFh, FLAG 18) and divide H by it.
    fn rtp_depth(&mut self, z: i64) -> (n: i64)
        requires
            -0x800_0000_0000 <= z < 0x800_0000_0000,
        ensures
            ({
                let r8 = old(self).regs();
                let sz_raw = shr(z as int, 12);
                let r9 = if sz_raw < 0 || sz_raw > 0xFFFF {
                    flag_spec(r8, 18)
                } else {
                    r8
                };
                let sz = clamp(sz_raw, 0, 0xFFFF);
                let r10 = Regs {
                    data: r9.data.update(16, r9.data[17]).update(17, r9.data[18]).update(18, r9.data[19]).update(19, sz as u32),
                    ctrl: r9.ctrl,
                };
                let h = r10.ctrl[26] as int % 0x10000;
                let r11 = if h >= sz * 2 {
                    Regs { data: r10.data, ctrl: r10.ctrl.update(31, r10.ctrl[31] | 0x8002_0000u32) }
                } else {
                    r10
                };
                &&& final(self).regs() == r11
                &&& n as int == unr_divide_spec(h, sz)
            }),
            0 <= n <= 0x1FFFF,
            final(self).op_counts == old(self).op_counts,
    {
        let z12 = shr_i(z, 12);
        if z12 < 0 || z12 > 0xFFFF {
            self.flag(18);
        }
        let sz: i64 = if z12 < 0 {
            0
        } else if z12 > 0xFFFF {
            0xFFFF
        } else {
            z12
        };
        self.data[16] = self.data[17];
        self.data[17] = self.data[18];
        self.data[18] = self.data[19];
        self.data[19] = sz as u32;
        let mut f = self.ctrl[31];
        let n = unr_divide((self.ctrl[26] % 0x10000) as u16, sz as u16, &mut f);
        self.ctrl[31] = f;
        proof {
            let r8 = old(self).regs();
            let r9 = if z12 < 0 || z12 > 0xFFFF {
                flag_spec(r8, 18)
            } else {
                r8
            };
            let r10 = Regs {
                data: r9.data.update(16, r9.data[17]).update(17, r9.data[18]).update(18, r9.data[19]).update(19, sz as u32),
                ctrl: r9.ctrl,
            };
            let h = r10.ctrl[26] as int % 0x10000;
            if h >= sz * 2 {
                assert(self.regs().ctrl =~= r10.ctrl.update(31, r10.ctrl[31] | 0x8002_0000u32));
            } else {
                assert(self.regs().ctrl =~= r10.ctrl);
            }
            assert(self.regs().data =~= r10.data);
        }
        n as i64
    }

    /// The back half of RTPS: screen XY from n*IR+OF, SXY FIFO push, depth cue MAC0/IR0.
    fn rtp_screen(&mut self, n: i64)
        requires
            0 <= n <= 0x1FFFF,
        ensures
            ({
                let r11 = old(self).regs();
                let (r12, sx_mac) = mac_spec(r11, 0, n * s16(r11.data[9]) + s32(r11.ctrl[24]));
                let (r13, sy_mac) = mac_spec(r12, 0, n * s16(r12.data[10]) + s32(r12.ctrl[25]));
                let (r14, sx) = sat_screen(r13, shr(sx_mac, 16), 14);
                let (r15, sy) = sat_screen(r14, shr(sy_mac, 16), 13);
                let r16 = Regs {
                    data: r15.data.update(12, r15.data[13]).update(13, r15.data[14]).update(
                        14,
                        wrap32(sy * 0x10000 + sx % 0x10000),
                    ),
                    ctrl: r15.ctrl,
                };
                let (r17, mac0) = mac_spec(r16, 0, n * s16(r16.ctrl[27]) + s32(r16.ctrl[28]));
                final(self).regs() == set_ir0_spec(set_data(r17, 24, wrap32(mac0)), shr(mac0, 12))
            }),
            final(self).op_counts == old(self).op_counts,
    {
        let ir1 = lo16(self.data[9]);
        let ofx = word_i(self.ctrl[24]);
        proof {
            lemma_mul_bounded(n as int, ir1 as int, 0x20000, 0x8000);
        }
        let sx_mac = self.mac(0, n * ir1 + ofx);
        let ir2 = lo16(self.data[10]);
        let ofy = word_i(self.ctrl[25]);
        proof {
            lemma_mul_bounded(n as int, ir2 as int, 0x20000, 0x8000);
        }
        let sy_mac = self.mac(0, n * ir2 + ofy);
        let sx = self.sat_screen(shr_i(sx_mac, 16), 14);
        let sy = self.sat_screen(shr_i(sy_mac, 16), 13);
        let ghost r15 = self.regs();
        let sxm: i64 = if sx < 0 {
            sx + 0x10000
        } else {
            sx
        };
        assert(sxm == sx as int % 0x10000);
        let w = to_word(sy * 0x10000 + sxm);
        self.data[12] = self.data[13];
        self.data[13] = self.data[14];
        self.data[14] = w;
        proof {
            let r16 = Regs {
                data: r15.data.update(12, r15.data[13]).update(13, r15.data[14]).update(
                    14,
                    wrap32(sy * 0x10000 + sx % 0x10000),
                ),
                ctrl: r15.ctrl,
            };
            assert(self.regs().data =~= r16.data);
            assert(self.regs().ctrl =~= r16.ctrl);
        }
        let dqa = lo16(self.ctrl[27]);
        let dqb = word_i(self.ctrl[28]);
        proof {
            lemma_mul_bounded(n as int, dqa as int, 0x20000, 0x8000);
        }
        let mac0 = self.mac(0, n * dqa + dqb);
        self.set_data_word(24, to_word(mac0));
        self.set_ir0(shr_i(mac0, 12));
    }

    fn rtp_vector(&mut self, vec: usize, sf: u32, lm: bool)
        requires
            vec < 3,
            sf <= 1,
        ensures
            final(self).regs() == rtp_spec(old(self).regs(), vec as int, sf, lm),
            final(self).op_counts == old(self).op_counts,
    {
        let z = self.rtp_front(vec, sf, lm);
        let n = self.rtp_depth(z);
        self.rtp_screen(n);
    }

    fn mvmva_row(
        &mut self,
        row: usize,
        cv: u32,
        t: i64,
        m: (i64, i64, i64),
        v: (i64, i64, i64),
        sf: u32,
        lm: bool,
    )
        requires
            row < 3,
            sf <= 1,
            -0x8000_0000 <= t < 0x8000_0000,
            -0x8000 <= m.0 < 0x8000,
            -0x8000 <= m.1 < 0x8000,
            -0x8000 <= m.2 < 0x8000,
            -0x8000 <= v.0 < 0x8000,
            -0x8000 <= v.1 < 0x8000,
            -0x8000 <= v.2 < 0x8000,
        ensures
            final(self).regs() == mvmva_row(
                old(self).regs(),
                row as int,
                cv as int,
                t as int,
                (m.0 as int, m.1 as int, m.2 as int),
                (v.0 as int, v.1 as int, v.2 as int),
                sf,
                lm,
            ),
            final(self).op_counts == old(self).op_counts,
    {
        let axis = row as u32 + 1;
        proof {
            lemma_mul_small(m.0 as int, v.0 as int);
            lemma_mul_small(m.1 as int, v.1 as int);
            lemma_mul_small(m.2 as int, v.2 as int);
        }
        if cv == 2 {
            let _ = self.mac(axis, t * 0x1000 + m.0 * v.0);
            let acc = self.mac(axis, m.1 * v.1 + m.2 * v.2);
            self.store(row, acc, sf, lm);
        } else {
            let acc = self.row(axis, t, m.0, m.1, m.2, v.0, v.1, v.2);
            self.store(row, acc, sf, lm);
        }
    }

    fn mx_row_exec(&self, mx: usize, row: usize) -> (r: (i64, i64, i64))
        requires
            row < 3,
        ensures
            (r.0 as int, r.1 as int, r.2 as int) == mx_row(self.ctrl@, mx as int, row as int),
            -0x8000 <= r.0 < 0x8000,
            -0x8000 <= r.1 < 0x8000,
            -0x8000 <= r.2 < 0x8000,
    {
        (self.mx_el(mx, row, 0), self.mx_el(mx, row, 1), self.mx_el(mx, row, 2))
    }

    fn mvmva(&mut self, instr: u32, sf: u32, lm: bool)
        requires
            sf <= 1,
        ensures
            final(self).regs() == mvmva_spec(old(self).regs(), instr, sf, lm),
            final(self).op_counts == old(self).op_counts,
    {
        let mx = ((instr / 0x2_0000) % 4) as usize;
        let vsel = ((instr / 0x8000) % 4) as usize;
        let cv = (instr / 0x2000) % 4;
        let v = if vsel <= 2 {
            self.vx(vsel)
        } else {
            self.ir_vec()
        };
        let (m0, m1, m2) = if mx == 3 {
            let red = ((self.data[6] % 0x100) * 0x10) as i64;
            let ir0 = lo16(self.data[8]);
            let rt13 = self.rt_el(0, 2);
            let rt22 = self.rt_el(1, 1);
            ((-red, red, ir0), (rt13, rt13, rt13), (rt22, rt22, rt22))
        } else {
            (self.mx_row_exec(mx, 0), self.mx_row_exec(mx, 1), self.mx_row_exec(mx, 2))
        };
        let (t0, t1, t2) = if cv == 0 {
            (word_i(self.ctrl[5]), word_i(self.ctrl[6]), word_i(self.ctrl[7]))
        } else if cv == 1 {
            (word_i(self.ctrl[13]), word_i(self.ctrl[14]), word_i(self.ctrl[15]))
        } else if cv == 2 {
            (word_i(self.ctrl[21]), word_i(self.ctrl[22]), word_i(self.ctrl[23]))
        } else {
            (0, 0, 0)
        };
        self.mvmva_row(0, cv, t0, m0, v, sf, lm);
        self.mvmva_row(1, cv, t1, m1, v, sf, lm);
        self.mvmva_row(2, cv, t2, m2, v, sf, lm);
    }
}

proof fn lemma_mul_small(a: int, b: int)
    requires
        -0x8000 <= a <= 0x8000,
        -0x8000 <= b <= 0x8000,
    ensures
        -0x4000_0000 <= a * b <= 0x4000_0000,
{
    lemma_mul_bounded(a, b, 0x8000, 0x8000);
}

proof fn lemma_mul_bounded(a: int, b: int, ma: int, mb: int)
    requires
        -ma <= a <= ma,
        -mb <= b <= mb,
    ensures
        -(ma * mb) <= a * b <= ma * mb,
{
    assert(-(ma * mb) <= a * b <= ma * mb) by (nonlinear_arith)
        requires
            -ma <= a <= ma,
            -mb <= b <= mb,
    ;
}

/// Leading zero bits of a word.
fn count_leading_zeros(v: u32) -> (r: u32)
    ensures
        r == leading_zeros32(v),
{
    let mut w: u32 = 32;
    let mut p: u32 = 0x8000_0000;
    let mut n: u32 = 0;
    proof {
        reveal_with_fuel(pow2n, 33);
    }
    while w > 0 && (v / p) % 2 == 0
        invariant
            w <= 32,
            n + w == 32,
            w > 0 ==> p as int == pow2n((w - 1) as nat) && p > 0,
            n + lz_from(v, w as nat) == leading_zeros32(v),
        decreases w,
    {
        proof {
            assert(lz_from(v, w as nat) == 1 + lz_from(v, (w - 1) as nat));
            if w > 1 {
                assert(pow2n((w - 1) as nat) == 2 * pow2n((w - 2) as nat));
            }
        }
        n = n + 1;
        w = w - 1;
        p = p / 2;
    }
    n
}

/// One entry of the UNR reciprocal table.
fn unr_entry_exec(i: u64) -> (r: u64)
    requires
        i <= 256,
    ensures
        r == unr_entry(i as int),
        r <= 0xFF,
{
    let q = (0x40000u64 / (i + 0x100) + 1) / 2;
    proof {
        vstd::arithmetic::div_mod::lemma_div_is_ordered_by_denominator(
            0x40000,
            0x100,
            i as int + 0x100,
        );
    }
    if q > 0x101 {
        q - 0x101
    } else {
        0
    }
}

/// The UNR perspective divide: (H*20000h/SZ + 1)/2 by reciprocal table and two Newton steps,
/// saturated at 1FFFFh. `H >= SZ*2` saturates and sets FLAG bits 17 and 31.
pub fn unr_divide(h: u16, sz: u16, flag: &mut u32) -> (n: u32)
    ensures
        n == unr_divide_spec(h as int, sz as int),
        n <= 0x1FFFF,
        *final(flag) == (if h as int >= sz as int * 2 {
            old(flag) | 0x8002_0000u32
        } else {
            *old(flag)
        }),
{
    if h as u32 >= sz as u32 * 2 {
        *flag = *flag | 0x8002_0000;
        return 0x1FFFF;
    }
    let mut d: u64 = sz as u64;
    let mut p: u64 = 1;
    let ghost mut z: nat = 0;
    proof {
        reveal_with_fuel(pow2n, 2);
    }
    while d < 0x8000
        invariant
            0 < d < 0x10000,
            d == sz as int * p,
            p as int == pow2n(z),
            1 <= p <= d,
            sz >= 1,
            normalize16(d as int, z) == normalize16(sz as int, 0),
        decreases 0x10000 - d,
    {
        proof {
            assert(2 * d == sz as int * (2 * p)) by (nonlinear_arith)
                requires
                    d == sz as int * p,
            ;
        }
        d = d * 2;
        p = p * 2;
        proof {
            z = z + 1;
        }
    }
    proof {
        assert(normalize16(d as int, z) == (d as int, z));
        lemma_mul_bounded(h as int, p as int, 0x10000, 0x10000);
        assert(h as int * p < 2 * d) by (nonlinear_arith)
            requires
                h < sz * 2,
                d == sz as int * p,
                p >= 1,
        ;
    }
    let n: u64 = h as u64 * p;
    let u: u64 = unr_entry_exec((d - 0x7FC0) / 0x80) + 0x101;
    proof {
        lemma_mul_bounded(d as int, u as int, 0x10000, 0x200);
        assert(d * u <= 0xFFFF * 0x200) by (nonlinear_arith)
            requires
                d <= 0xFFFF,
                0 <= u <= 0x200,
                d >= 0,
        ;
    }
    let d2: u64 = (0x200_0080 - d * u) / 0x100;
    proof {
        assert(d2 * u <= 0x20000 * 0x200) by (nonlinear_arith)
            requires
                d2 <= 0x20000,
                0 <= u <= 0x200,
        ;
    }
    let d3: u64 = (0x80 + d2 * u) / 0x100;
    proof {
        assert(n * d3 <= 0x20000 * 0x40001) by (nonlinear_arith)
            requires
                n <= 0x20000,
                d3 <= 0x40001,
        ;
    }
    let q: u64 = (n * d3 + 0x8000) / 0x10000;
    if q > 0x1FFFF {
        0x1FFFF
    } else {
        q as u32
    }
}

} // verus!
