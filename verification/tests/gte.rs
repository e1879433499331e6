use rsx::gte::{unr_divide, Gte};
fn identity_rtps(sf: bool) -> Gte {
    let mut g = Gte::new();
    // RT = identity in 3.12 (0x1000 = 1.0).
    g.write_control(0, 0x1000);
    g.write_control(2, 0x1000);
    g.write_control(4, 0x1000);
    g.write_control(7, 5888); // TRZ
    g.write_control(24, 320 << 16); // OFX
    g.write_control(25, 240 << 16); // OFY
    g.write_control(26, 0x200); // H
    g.write_data(0, 0);
    g.write_data(1, 0);
    let cmd = 0x01 | if sf { 1 << 19 } else { 0 };
    g.command(cmd);
    g
}

#[test]
fn rtpt_sxy_fifo_is_v0_then_v1_then_v2() {
    // After RTPT, SXY0/1/2 are the three projected verts in order (SPX FIFO).
    let mut g = Gte::new();
    g.write_control(0, 0x1000);
    g.write_control(2, 0x1000);
    g.write_control(4, 0x1000);
    g.write_control(7, 500);
    g.write_control(26, 500);
    g.write_data(0, 10); // V0 X=10
    g.write_data(1, 0);
    g.write_data(2, 20 | (30u32 << 16)); // V1
    g.write_data(3, 0);
    g.write_data(4, 40); // V2 X=40
    g.write_data(5, 0);
    g.command(0x30 | (1 << 19));
    let sxy0 = g.read_data(12) as i16;
    let sxy1 = g.read_data(13) as i16;
    let sxy2 = g.read_data(14) as i16;
    assert!(
        (sxy0 - 10).abs() <= 1 && (sxy1 - 20).abs() <= 1 && (sxy2 - 40).abs() <= 1,
        "RTPT SXY FIFO V0,V1,V2 got {sxy0},{sxy1},{sxy2}"
    );
}

#[test]
fn nclip_ccw_area_is_positive_mac0() {
    // SPX: MAC0 = SX0*SY1 + SX1*SY2 + SX2*SY0 - SX0*SY2 - SX1*SY0 - SX2*SY1
    let mut g = Gte::new();
    g.write_data(12, 0); // SXY0 = (0,0)
    g.write_data(13, 10); // SXY1 = (10,0)
    g.write_data(14, 10u32 << 16); // SXY2 = (0,10)
    g.command(0x06);
    assert_eq!(g.read_data(24) as i32, 100, "CCW NCLIP MAC0");
}

#[test]
fn rtps_sz3_is_mac3_after_the_12bit_shift() {
    // SPX: IR3 = MAC3 = (TRZ*1000h + …) SAR (sf*12);
    //      SZ3 = MAC3 SAR ((1-sf)*12). With V=0 that is TRZ, not TRZ<<12.
    let g = identity_rtps(true);
    let sz3 = g.read_data(19) & 0xFFFF;
    assert_eq!(
        sz3,
        5888,
        "RTPS sf=1 SZ3 must be TRZ (got {sz3:#X}, FLAG={:08X})",
        g.read_control(31)
    );
    let g0 = identity_rtps(false);
    let sz0 = g0.read_data(19) & 0xFFFF;
    assert_eq!(sz0, 5888, "RTPS sf=0 SZ3 must also be TRZ (got {sz0:#X})");
}

#[test]
fn rtps_screen_y_is_n_times_ir2_plus_ofy() {
    // Identity RT, VY=80, TRZ=H=500, OFY=0, sf=1 → SY ≈ 80 (1:1 at the
    // projection plane). A 2× scale here would put title Crash at Y=422.
    let mut g = Gte::new();
    g.write_control(0, 0x1000);
    g.write_control(2, 0x1000);
    g.write_control(4, 0x1000);
    g.write_control(7, 500);
    g.write_control(24, 0);
    g.write_control(25, 0);
    g.write_control(26, 500);
    g.write_data(0, 80u32 << 16); // VY=80
    g.write_data(1, 0);
    g.command(0x01 | (1 << 19));
    let sy = (g.read_data(14) >> 16) as i16;
    assert_eq!(g.read_data(19) & 0xFFFF, 500, "SZ3");
    assert!(
        (sy - 80).abs() <= 1,
        "RTPS SY must be ~VY when H=SZ (got SY={sy}, FLAG={:08X})",
        g.read_control(31)
    );
}

#[test]
fn perspective_divide_uses_unr_not_integer_reciprocal() {
    let mut flag = 0;
    // SPX: FE3Fh/7F20h UNR-saturates to 1FFFFh without FLAG.17.
    // Naive 32-bit reciprocal is 1FFFEh.
    assert_eq!(unr_divide(0xFE3F, 0x7F20, &mut flag), 0x1FFFF);
    assert_eq!(flag, 0, "UNR sat to 1FFFFh must not set divide overflow");
    flag = 0;
    assert_eq!(unr_divide(0x200, 0x100, &mut flag), 0x1FFFF);
    assert_ne!(flag & (1 << 17), 0, "H >= SZ*2 saturates and sets FLAG.17");
}

#[test]
fn avsz3_otz_is_zsf3_times_sz_sum_shifted_12() {
    let mut g = Gte::new();
    g.write_data(17, 0x0100);
    g.write_data(18, 0x0200);
    g.write_data(19, 0x0300);
    g.write_control(29, 0x1000);
    g.command(0x2D);
    assert_eq!(
        g.read_data(7),
        0x0600,
        "AVSZ3 OTZ = ZSF3*(SZ1+SZ2+SZ3)>>12 (got {:#X})",
        g.read_data(7)
    );
}

#[test]
fn avsz4_otz_is_zsf4_times_sz_sum_shifted_12() {
    let mut g = Gte::new();
    g.write_data(16, 0x0100);
    g.write_data(17, 0x0100);
    g.write_data(18, 0x0100);
    g.write_data(19, 0x0100);
    g.write_control(30, 0x1000);
    g.command(0x2E);
    assert_eq!(
        g.read_data(7),
        0x0400,
        "AVSZ4 OTZ = ZSF4*(SZ0+SZ1+SZ2+SZ3)>>12 (got {:#X})",
        g.read_data(7)
    );
}

#[test]
fn mvmva_cv_none_does_not_add_translation() {
    // PSY-Q rtir12: mx=RT, v=IR, cv=None, sf=1. TR must not leak into IR.
    let mut g = Gte::new();
    g.write_control(0, 0x1000); // R11=1
    g.write_control(2, 0x1000); // R22=1
    g.write_control(4, 0x1000); // R33=1
    g.write_control(5, 100);
    g.write_control(6, 200);
    g.write_control(7, 300);
    g.write_data(9, 0x1000);
    g.write_data(10, 0x1000);
    g.write_data(11, 0x1000);
    // sf=1, mx=0, v=3 (IR), cv=3 (none), op=MVMVA
    g.command(0x01 << 19 | 3 << 15 | 3 << 13 | 0x12);
    assert_eq!(g.read_data(9) as i16, 0x1000, "IR1");
    assert_eq!(g.read_data(10) as i16, 0x1000, "IR2");
    assert_eq!(g.read_data(11) as i16, 0x1000, "IR3");
}

#[test]
fn mvmva_mx3_uses_garbage_matrix() {
    // SPX: mx=3 is -R*10h, +R*10h, IR0 / RT13,RT13,RT13 / RT22,RT22,RT22.
    let mut g = Gte::new();
    g.write_data(6, 0x10); // R=16 → ±0x100
    g.write_data(8, 0x20); // IR0
    g.write_control(1, 0x0003); // RT13=3
    g.write_control(2, 0x0004); // RT22=4
    g.write_data(0, 1 | (1 << 16)); // V0 = (1,1,?)
    g.write_data(1, 1);
    g.command(0x01 << 19 | 3 << 17 | 0x12); // sf=1, mx=3, v=V0, cv=TR=0
                                            // MAC1 = ((-0x100)*1 + 0x100*1 + 0x20*1) >> 12 = 0x20 >> 12 = 0
    assert_eq!(g.read_data(9) as i16, 0, "IR1 garbage row0");
    // MAC2 = (3+3+3)>>12 = 0
    assert_eq!(g.read_data(10) as i16, 0, "IR2 garbage row1");
    // MAC3 = (4+4+4)>>12 = 0
    assert_eq!(g.read_data(11) as i16, 0, "IR3 garbage row2");
}

#[test]
fn cc_multiplies_lcm_ir_then_rgb() {
    let mut g = Gte::new();
    // LCM = identity 0x1000, BK=0, IR=1.0, RGB=0x80 → FIFO 0x80.
    g.write_control(16, 0x1000);
    g.write_control(18, 0x1000);
    g.write_control(20, 0x1000);
    g.write_data(9, 0x1000);
    g.write_data(10, 0x1000);
    g.write_data(11, 0x1000);
    g.write_data(6, 0x80 | (0x80 << 8) | (0x80 << 16) | (0x30 << 24));
    g.command(0x01 << 19 | 1 << 10 | 0x1C); // sf=1 lm=1 CC
    let rgb = g.read_data(22);
    assert_eq!(rgb & 0xFF, 0x80, "CC R {rgb:#X}");
    assert_eq!((rgb >> 8) & 0xFF, 0x80, "CC G");
    assert_eq!((rgb >> 16) & 0xFF, 0x80, "CC B");
    assert_eq!(rgb >> 24, 0x30, "CC CODE");
}

#[test]
fn rtps_mac_overflow_sets_flag_a3() {
    // TRZ at i32::MAX, R33=VZ=0x7FFF: MAC3 exceeds 43 bits → FLAG.28 and bit 31.
    let mut g = Gte::new();
    g.write_control(4, 0x7FFF);
    g.write_control(7, 0x7FFF_FFFF);
    g.write_data(1, 0x7FFF);
    g.command(0x01 | (1 << 19));
    let f = g.read_control(31);
    assert_ne!(f & (1 << 28), 0, "A3 FLAG.28");
    assert_ne!(f & (1 << 31), 0, "error FLAG.31");
}

#[test]
fn mvmva_rtv0tr_applies_translation() {
    // PSY-Q rtv0tr: sf=1 mx=RT v=V0 cv=TR. Identity RT, TR=(10,20,30), V=0 → IR=TR.
    let mut g = Gte::new();
    g.write_control(0, 0x1000);
    g.write_control(2, 0x1000);
    g.write_control(4, 0x1000);
    g.write_control(5, 10);
    g.write_control(6, 20);
    g.write_control(7, 30);
    g.command(0x0480_012); // rtv0tr
    assert_eq!(g.read_data(25) as i32, 10, "MAC1");
    assert_eq!(g.read_data(26) as i32, 20, "MAC2");
    assert_eq!(g.read_data(27) as i32, 30, "MAC3");
}

#[test]
fn mvmva_rtv0_identity_is_the_vector() {
    // PSY-Q rtv0: sf=1 mx=RT v=V0 cv=None. Identity RT, V=(100,-50,25) → IR=V.
    let mut g = Gte::new();
    g.write_control(0, 0x1000);
    g.write_control(2, 0x1000);
    g.write_control(4, 0x1000);
    g.write_data(0, 100u32 | ((-50i16 as u16 as u32) << 16));
    g.write_data(1, 25);
    g.command(0x01 << 19 | 3 << 13 | 0x12); // sf=1, cv=None, v=V0
    assert_eq!(g.read_data(9) as i16, 100, "IR1");
    assert_eq!(g.read_data(10) as i16, -50, "IR2");
    assert_eq!(g.read_data(11) as i16, 25, "IR3");
}

#[test]
fn rtps_ir0_saturate_sets_flag_12() {
    // DQA large, H=SZ so n saturates: IR0 = (n*DQA+DQB)>>12 exceeds 1000h.
    let mut g = Gte::new();
    g.write_control(0, 0x1000);
    g.write_control(2, 0x1000);
    g.write_control(4, 0x1000);
    g.write_control(7, 500);
    g.write_control(26, 500);
    g.write_control(27, 0x7FFF); // DQA
    g.write_control(28, 0);
    g.command(0x01 | (1 << 19));
    let f = g.read_control(31);
    assert_eq!(g.read_data(8) as i16, 0x1000, "IR0 sat to 1000h");
    assert_ne!(f & (1 << 12), 0, "FLAG.12 IR0 sat");
}

#[test]
fn rtps_screen_mac0_overflow_sets_flag_16() {
    // OFX at i32::MAX plus n*IR1 exceeds 31-bit MAC0 → FLAG.16.
    let mut g = Gte::new();
    g.write_control(0, 0x1000);
    g.write_control(2, 0x1000);
    g.write_control(4, 0x1000);
    g.write_control(7, 1);
    g.write_control(24, i32::MAX as u32);
    g.write_control(26, 0x7FFF);
    g.write_data(0, 0x7FFF);
    g.command(0x01 | (1 << 19));
    let f = g.read_control(31);
    assert_ne!(f & (1 << 16), 0, "FLAG.16 MAC0+ {f:#010X}");
    assert_ne!(f & (1 << 31), 0, "error FLAG.31");
}

#[test]
fn avsz3_otz_overflow_sets_flag_18() {
    let mut g = Gte::new();
    g.write_control(29, 0x7FFF); // ZSF3
    g.write_data(17, 0xFFFF);
    g.write_data(18, 0xFFFF);
    g.write_data(19, 0xFFFF);
    g.command(0x2D);
    let f = g.read_control(31);
    assert_eq!(g.read_data(7) & 0xFFFF, 0xFFFF);
    assert_ne!(f & (1 << 18), 0, "FLAG.18 OTZ sat {f:#010X}");
    assert_ne!(f & (1 << 31), 0, "error FLAG.31");
}

#[test]
fn intpl_ir0_zero_keeps_ir_in_color_fifo() {
    // IR=0x800, IR0=0, FC=0, sf=1: color = (IR<<12 >> 12) >> 4 = 0x80.
    let mut g = Gte::new();
    g.write_data(9, 0x800);
    g.write_data(10, 0x800);
    g.write_data(11, 0x800);
    g.write_data(8, 0);
    g.write_control(21, 0);
    g.write_control(22, 0);
    g.write_control(23, 0);
    g.write_data(6, 0x30 << 24);
    g.command(0x11 | (1 << 19));
    let rgb = g.read_data(22);
    assert_eq!(rgb & 0xFF, 0x80, "R {rgb:#010X}");
    assert_eq!((rgb >> 8) & 0xFF, 0x80, "G");
    assert_eq!((rgb >> 16) & 0xFF, 0x80, "B");
}

#[test]
fn intpl_far_from_ir_saturates_ir1_flag_24() {
    // IR1 = -0x8000, FC=0, sf=1: (0 - (IR<<12))>>12 = +0x8000 → FLAG.24.
    // Stage 2 with IR0=0 writes IR1 back to -8000h, but the sat flag stays.
    let mut g = Gte::new();
    g.write_data(9, (-0x8000i16) as u16 as u32);
    g.write_data(10, 0);
    g.write_data(11, 0);
    g.write_data(8, 0);
    g.write_control(21, 0);
    g.write_control(22, 0);
    g.write_control(23, 0);
    g.command(0x11 | (1 << 19));
    let f = g.read_control(31);
    assert_ne!(f & (1 << 24), 0, "FLAG.24 IR1 sat {f:#010X}");
}

#[test]
fn push_color_uses_arithmetic_shift_4() {
    // Negative MAC2 = -17. Toward-zero /16 is 0; SAR 4 is -2 → sat to 0 and FLAG.20.
    let mut g = Gte::new();
    g.write_data(25, 0x80 * 16); // R → 0x80
    g.write_data(26, (-17i32) as u32);
    g.write_data(27, 0x80 * 16);
    g.write_data(6, 0x30 << 24);
    g.push_color();
    let rgb = g.read_data(22);
    assert_eq!(rgb & 0xFF, 0x80, "R");
    assert_eq!((rgb >> 8) & 0xFF, 0, "G sat from negative SAR 4");
    assert_eq!((rgb >> 16) & 0xFF, 0x80, "B");
    assert_ne!(g.read_control(31) & (1 << 20), 0, "FLAG.20 G sat");
}

#[test]
fn gpl_mac_overflow_sets_flag_a1() {
    // SPX: GPL does MAC = (MAC << sf*12) + IR*IR0 on the 44-bit bus.
    // MAC1 = 7FFFFFFFh << 12 plus 7FFFh*7FFFh exceeds +43-bit → FLAG.30.
    let mut g = Gte::new();
    g.write_data(25, 0x7FFF_FFFF);
    g.write_data(9, 0x7FFF);
    g.write_data(10, 0);
    g.write_data(11, 0);
    g.write_data(8, 0x7FFF);
    g.command(0x3E | (1 << 19));
    let f = g.read_control(31);
    assert_ne!(f & (1 << 30), 0, "A1 FLAG.30 {f:#010X}");
    assert_ne!(f & (1 << 31), 0, "error FLAG.31");
}

#[test]
fn nccs_does_not_push_unmodulated_color() {
    // SPX NCCS: LLM*V, BK+LCM*IR, then RGB*IR, one FIFO push.
    // Pushing after the LCM step as well leaves RGB2 as V0's colour after a
    // following NCCT V1/V2, so Crash Gouraud reads mixed unmodulated slots.
    let mut g = Gte::new();
    g.write_control(8, 0x1000); // L11
    g.write_control(10, 0x1000); // L22
    g.write_control(12, 0x1000); // L33
    g.write_control(16, 0x1000); // LR1
    g.write_control(18, 0x1000); // LG2
    g.write_control(20, 0x1000); // LB3
    g.write_data(6, 0x20_40_80 | (0x30 << 24));
    g.write_data(0, 0x1000); // V0 X
    g.write_data(1, 0);
    g.write_data(2, 0x1000 << 16); // V1 Y
    g.write_data(3, 0);
    g.write_data(4, 0);
    g.write_data(5, 0x1000); // V2 Z
    g.command(0x3F | (1 << 19) | (1 << 10)); // NCCT sf=1 lm=1
    let rgb0 = g.read_data(20);
    let rgb1 = g.read_data(21);
    let rgb2 = g.read_data(22);
    assert_ne!(rgb0 & 0xFF_FFFF, rgb1 & 0xFF_FFFF, "V0 vs V1 colours");
    assert_ne!(rgb1 & 0xFF_FFFF, rgb2 & 0xFF_FFFF, "V1 vs V2 colours");
    assert_ne!(rgb0 & 0xFF_FFFF, rgb2 & 0xFF_FFFF, "V0 vs V2 colours");
    assert_eq!((rgb0 >> 24) & 0xFF, 0x30, "code in RGB0");
    // V0 is X-axis: only R should be lit. An extra LCM push would shift that
    // into RGB1 and leave RGB0 as V1 (G-axis).
    assert!(
        rgb0 & 0xFF > 0 && (rgb0 >> 8) & 0xFF == 0 && (rgb0 >> 16) & 0xFF == 0,
        "NCCT RGB0 must be V0 (R) not a shifted FIFO slot (RGB0={rgb0:#010X} RGB1={rgb1:#010X} RGB2={rgb2:#010X})"
    );
}

#[test]
fn rtps_screen_xy_uses_wrapped_mac0() {
    // SPX: SX = (n*IR1+OFX) as 32-bit MAC0 SAR 16. H>=SZ*2 saturates n to
    // 1FFFFh; 1FFFFh*7FFFh exceeds 32 bits, so the wrap is observable.
    let mut g = Gte::new();
    g.write_control(0, 0x1000);
    g.write_control(2, 0x1000);
    g.write_control(4, 0x1000);
    g.write_control(7, 0x100); // TRZ = SZ
    g.write_control(26, 0x200); // H = 2*SZ → n = 1FFFFh
    g.write_data(0, 0x7FFF); // VX
    g.write_data(1, 0);
    g.command(0x01 | (1 << 19));
    let sx = g.read_data(14) as i16;
    assert!(
        sx < 0,
        "wrapped MAC0 SAR 16 must be negative (got SX={sx}, FLAG={:08X})",
        g.read_control(31)
    );
}

#[test]
fn gpf_shifts_ir_times_ir0() {
    // IR=0x800, IR0=0x1000, sf=1 → MAC = (0x800*0x1000)>>12 = 0x800, colour 0x80.
    let mut g = Gte::new();
    g.write_data(9, 0x800);
    g.write_data(10, 0x800);
    g.write_data(11, 0x800);
    g.write_data(8, 0x1000);
    g.write_data(6, 0x30 << 24);
    g.command(0x3D | (1 << 19));
    assert_eq!(g.read_data(25) as i32, 0x800, "MAC1");
    assert_eq!(g.read_data(9) as i16, 0x800, "IR1");
    let rgb = g.read_data(22);
    assert_eq!(rgb & 0xFF, 0x80, "GPF colour R {rgb:#X}");
}
