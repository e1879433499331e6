use rsx::gpu::Gpu;
use rsx::DisplayArea;

fn settle(gpu: &mut Gpu) {
    gpu.tick(4_000_000, 0, false);
}

fn upload_clut(gpu: &mut Gpu, x: u32, y: u32, colors: [u16; 16]) {
    gpu.gp0(0xA0 << 24);
    gpu.gp0(x | (y << 16));
    gpu.gp0(16 | (1 << 16));
    for pair in colors.chunks(2) {
        gpu.gp0(u32::from(pair[0]) | (u32::from(pair[1]) << 16));
    }
    settle(gpu);
}

fn peek(gpu: &mut Gpu, x: u32, y: u32, w: u32, h: u32) -> DisplayArea {
    settle(gpu);
    gpu.vram_rect(x, y, w, h)
}

#[test]
fn fill_stays_busy_one_cycle_per_pixel() {
    let mut gpu = Gpu::new();
    gpu.gp0(0xE3_0000_00);
    gpu.gp0(0xE4_0000_00 | 1023 | (511 << 10));
    gpu.gp0(0x02 << 24);
    gpu.gp0(0);
    gpu.gp0(16 | (16 << 16));
    gpu.tick(3, 0, false);
    assert!(gpu.busy(), "16×16 fill must not finish in the issue cycles");
    let stat = gpu.stat();
    assert_eq!(stat & (1 << 26), 0, "GPUSTAT.26 clear while drawing");
    gpu.tick(16, 0, false);
    assert!(
        !gpu.busy(),
        "Fill VRAM is one cycle per 16-pixel unit (16×16 = 16 cycles)"
    );
}

fn scan_field(gpu: &mut Gpu) {
    for line in 0..243 {
        gpu.tick(1, line, false);
    }
    for line in 243..263 {
        gpu.tick(1, line, true);
    }
}

#[test]
fn interlaced_480_latches_both_fields() {
    let mut gpu = Gpu::new();
    gpu.gp1(0x08 << 24 | 7); // 640×480
    gpu.gp1(0x05 << 24); // start (0,0)
    gpu.gp1(0x03 << 24); // display on
    gpu.gp0(0xE3_0000_00);
    gpu.gp0(0xE4_0000_00 | 1023 | (511 << 10));
    gpu.gp0(0x02 << 24 | 0x0000F8);
    gpu.gp0(400u32 << 16);
    gpu.gp0(16 | (16 << 16));
    settle(&mut gpu);
    scan_field(&mut gpu);
    let first = gpu.display_area();
    assert_eq!((first.width, first.height), (640, 480));
    scan_field(&mut gpu);
    let pix = gpu.display_area();
    let p = pix.pixels[400 * 640 + 8] & 0x7FFF;
    assert_eq!(
        p, 0x001F,
        "480i must latch VRAM y=400 into the Display area after both fields (got {p:#06X})"
    );
    let top = pix.pixels[0] & 0x7FFF;
    assert_eq!(top, 0, "y=0 was not filled, must stay black");
}

#[test]
fn fifo_holds_sixteen_words() {
    let mut gpu = Gpu::new();
    for i in 0..16 {
        assert!(!gpu.fifo_full(), "fifo filled early at {i}");
        gpu.gp0(0xE1 << 24);
    }
    assert!(gpu.fifo_full());
    assert_eq!(
        gpu.stat() & (1 << 28),
        0,
        "GPUSTAT.28 clear while FIFO is not empty"
    );
}

#[test]
fn draw_offset_does_not_take_fifo_space() {
    let mut gpu = Gpu::new();
    for _ in 0..16 {
        gpu.gp0(0xE1 << 24);
    }
    assert!(gpu.fifo_full());
    gpu.gp0(0xE5 << 24);
    assert!(
        gpu.fifo_full(),
        "E3–E5 must not evict or occupy a FIFO slot"
    );
    gpu.gp0(0xE3_0000_00);
    gpu.gp0(0xE4 << 24 | 1023 | (511 << 10));
    assert!(gpu.fifo_full());
    assert_eq!(gpu.draw_env().2, 0);
    assert_eq!(gpu.draw_env().4, 1023);
}

#[test]
fn seventeenth_gp0_word_waits_instead_of_dropping() {
    let mut gpu = Gpu::new();
    for _ in 0..16 {
        gpu.gp0(0xE1 << 24);
    }
    assert!(gpu.fifo_full());
    gpu.gp0(0xE1 << 24 | 0xF);
    gpu.tick(32, 0, false);
    assert!(!gpu.busy());
    assert_eq!(gpu.stat() & 0xF, 0xF, "last E1 must still run");
}

#[test]
fn untextured_rect_stays_busy_one_cycle_per_pixel() {
    let mut gpu = Gpu::new();
    gpu.gp0(0xE3_0000_00);
    gpu.gp0(0xE4_0000_00 | 1023 | (511 << 10));
    gpu.gp0(0x60 << 24 | 0x00F800);
    gpu.gp0(0);
    gpu.gp0(8 | (8 << 16));
    gpu.tick(3, 0, false);
    assert!(gpu.busy(), "8×8 rect must not finish in the issue cycles");
    gpu.tick(8 * 8, 0, false);
    assert!(!gpu.busy(), "untextured rect is one cycle per pixel");
}

#[test]
fn textured_rect_stays_busy_two_cycles_per_pixel() {
    let mut gpu = Gpu::new();
    gpu.gp0(0xE3_0000_00);
    gpu.gp0(0xE4_0000_00 | 1023 | (511 << 10));
    let mut clut = [0u16; 16];
    clut[1] = 0x7FFF;
    upload_clut(&mut gpu, 0, 0, clut);
    gpu.gp0(0xA0 << 24);
    gpu.gp0(64);
    gpu.gp0(2 | (8 << 16));
    for _ in 0..8 {
        gpu.gp0(0x1111_1111);
    }
    settle(&mut gpu);
    gpu.gp0(0xE1 << 24 | 1); // 4-bit page at x=64
    gpu.tick(1, 0, false);
    gpu.gp0(0x64 << 24 | 0x808080);
    gpu.gp0(0);
    gpu.gp0(0); // uv 0,0 clut 0
    gpu.gp0(8 | (8 << 16));
    gpu.tick(4, 0, false);
    assert!(
        gpu.busy(),
        "textured 8×8 must not finish in the issue cycles"
    );
    gpu.tick(8 * 8, 0, false);
    assert!(
        gpu.busy(),
        "textured commands cost two cycles per written pixel"
    );
    gpu.tick(8 * 8 + 8, 0, false);
    assert!(!gpu.busy());
}

#[test]
fn polygon_command_word_clears_gpustat_bit28() {
    let mut gpu = Gpu::new();
    gpu.gp0(0x20 << 24 | 0x0000F8);
    gpu.tick(1, 0, false);
    assert_eq!(
        gpu.stat() & (1 << 28),
        0,
        "SPX: bit 28 clears on the polygon command word, before vertices"
    );
    assert_eq!(
        gpu.stat() & (1 << 26),
        0,
        "GPUSTAT.26 clear while assembling"
    );
}

#[test]
fn textured_quad_samples_4bit_clut() {
    let mut gpu = Gpu::new();
    gpu.gp0(0xE3_0000_00);
    gpu.gp0(0xE4_0000_00 | 639 | (479 << 10));
    let mut clut = [0u16; 16];
    clut[1] = 0x7FFF;
    clut[2] = 0x001F;
    upload_clut(&mut gpu, 192, 480, clut);
    // 4-bit page at x=832 (page 0xD): 8×8 texels of index 1 (0x1111 per halfword).
    gpu.gp0(0xA0 << 24);
    gpu.gp0(832);
    gpu.gp0(2 | (8 << 16));
    for _ in 0..8 {
        gpu.gp0(0x1111_1111);
    }

    // GP0(2C) 8×8 sprite at (10,10), UVs covering the two texels.
    gpu.gp0(0x2C80_8080);
    gpu.gp0(10 | (10 << 16));
    gpu.gp0((0x780C << 16) | 0x0000); // clut (192,480), uv 0,0
    gpu.gp0(18 | (10 << 16));
    gpu.gp0((0x000D << 16) | 0x0008); // page 0xD, uv 8,0
    gpu.gp0(10 | (18 << 16));
    gpu.gp0(0x0008_00);
    gpu.gp0(18 | (18 << 16));
    gpu.gp0(0x0008_08);

    let pix = peek(&mut gpu, 10, 10, 8, 8);
    let lit = pix.pixels.iter().filter(|p| **p & 0x7FFF != 0).count();
    assert!(
        lit > 8,
        "4-bit 2C sprite must plot CLUT colors (lit={lit} pixels={:04X?})",
        pix.pixels
    );
    assert!(
        pix.pixels.iter().any(|p| *p & 0x7FFF == 0x7FFF)
            || pix.pixels.iter().any(|p| *p & 0x7FFF == 0x001F),
        "sprite pixels should include CLUT entries 1 or 2 ({:04X?})",
        pix.pixels
    );
}

#[test]
fn textured_quad_covers_bios_sce_sprite() {
    let mut gpu = Gpu::new();
    gpu.gp0(0xE3_0000_00);
    gpu.gp0(0xE4_0000_00 | 639 | (479 << 10));
    let mut clut = [0u16; 16];
    clut[1] = 0x7FFF;
    upload_clut(&mut gpu, 192, 480, clut);
    // Page 0xD at x=832: 60 halfwords × 48 rows of index 1 (240×48 4-bit texels).
    gpu.gp0(0xA0 << 24);
    gpu.gp0(832);
    gpu.gp0(60 | (48 << 16));
    for _ in 0..((60 * 48 + 1) / 2) {
        gpu.gp0(0x1111_1111);
    }
    gpu.gp0(0x2C80_8080);
    gpu.gp0(200 | (56 << 16));
    gpu.gp0((0x780C << 16) | 0x0000);
    gpu.gp0(440 | (56 << 16));
    gpu.gp0((0x000D << 16) | 239);
    gpu.gp0(200 | (104 << 16));
    gpu.gp0(47 << 8);
    gpu.gp0(440 | (104 << 16));
    gpu.gp0(239 | (47 << 8));
    let pix = peek(&mut gpu, 200, 56, 240, 48);
    let lit = pix.pixels.iter().filter(|p| **p & 0x7FFF == 0x7FFF).count();
    assert!(
        lit > 5_000,
        "BIOS-sized 2C sprite must cover the dest rect (lit={lit} / 11520)"
    );
}

fn xy(x: i32, y: i32) -> u32 {
    (x as u16 as u32) | ((y as u16 as u32) << 16)
}

/// 11-bit X/Y with unused bits 11–15 / 27–31 set (would parse as i16 ≈ −2038).
fn xy_unused_junk(x: i32, y: i32) -> u32 {
    let x11 = (x as u32) & 0x7FF;
    let y11 = (y as u32) & 0x7FF;
    (x11 | 0xF800) | ((y11 | 0xF800) << 16)
}

fn clip(gpu: &mut Gpu, x1: i32, y1: i32, x2: i32, y2: i32) {
    gpu.gp0(0xE3 << 24 | (x1 as u32 & 0x3FF) | ((y1 as u32 & 0x1FF) << 10));
    gpu.gp0(0xE4 << 24 | (x2 as u32 & 0x3FF) | ((y2 as u32 & 0x1FF) << 10));
}

fn offset(gpu: &mut Gpu, x: i32, y: i32) {
    gpu.gp0(0xE5 << 24 | (x as u32 & 0x7FF) | ((y as u32 & 0x7FF) << 11));
}

fn red_count(pixels: &[u16]) -> usize {
    pixels.iter().filter(|p| *p & 0x7FFF == 0x001F).count()
}

fn blue_count(pixels: &[u16]) -> usize {
    pixels.iter().filter(|p| *p & 0x7FFF == 0x7C00).count()
}

#[test]
fn vertex_xy_ignores_unused_bits_that_would_sign_extend_as_i16() {
    let mut gpu = Gpu::new();
    clip(&mut gpu, 0, 0, 1023, 511);
    offset(&mut gpu, 0, 0);
    // GP0(20) red triangle at (10,10)-(20,10)-(10,20). Junk bits make i16 X = −2038.
    gpu.gp0(0x20 << 24 | 0x0000F8);
    gpu.gp0(xy_unused_junk(10, 10));
    gpu.gp0(xy_unused_junk(20, 10));
    gpu.gp0(xy_unused_junk(10, 20));
    let pix = peek(&mut gpu, 10, 10, 10, 10);
    let lit = red_count(&pix.pixels);
    assert!(
        lit > 8,
        "signed 11-bit verts must plot at (10,10), not the i16 junk (lit={lit})"
    );
}

#[test]
fn drawing_offset_is_added_then_truncated_to_signed_11bit() {
    // vertex −600 + offset −512 = −1112, trunc11 → 936. Without trunc the
    // pixel is clipped (x < 0).
    let mut gpu = Gpu::new();
    clip(&mut gpu, 0, 0, 1023, 511);
    offset(&mut gpu, -512, 0);
    gpu.gp0(0x20 << 24 | 0x0000F8);
    gpu.gp0(xy(-600, 10));
    gpu.gp0(xy(-580, 10));
    gpu.gp0(xy(-600, 30));
    let pix = peek(&mut gpu, 930, 10, 20, 20);
    let lit = red_count(&pix.pixels);
    assert!(
        lit > 8,
        "offset then trunc11 must land the triangle at x≈936 (lit={lit})"
    );
}

#[test]
fn both_polygon_windings_plot() {
    let mut gpu = Gpu::new();
    clip(&mut gpu, 0, 0, 1023, 511);
    offset(&mut gpu, 0, 0);
    // CCW red.
    gpu.gp0(0x20 << 24 | 0x0000F8);
    gpu.gp0(xy(20, 10));
    gpu.gp0(xy(40, 10));
    gpu.gp0(xy(20, 30));
    // CW blue over the same triangle.
    gpu.gp0(0x20 << 24 | 0xF80000);
    gpu.gp0(xy(20, 10));
    gpu.gp0(xy(20, 30));
    gpu.gp0(xy(40, 10));
    let pix = peek(&mut gpu, 20, 10, 20, 20);
    let blue = blue_count(&pix.pixels);
    assert!(
        blue > 8,
        "GPU draws both windings; CW overdraw must leave blue (blue={blue})"
    );
}

#[test]
fn quad_splits_as_vertices_1_2_3_then_2_3_4() {
    let mut gpu = Gpu::new();
    clip(&mut gpu, 0, 0, 1023, 511);
    offset(&mut gpu, 0, 0);
    gpu.gp0(0x28 << 24 | 0x0000F8);
    gpu.gp0(xy(10, 10));
    gpu.gp0(xy(20, 10));
    gpu.gp0(xy(10, 20));
    gpu.gp0(xy(50, 50));
    let first = peek(&mut gpu, 11, 11, 4, 4);
    let second = peek(&mut gpu, 42, 42, 8, 8);
    let lit_first = red_count(&first.pixels);
    let lit_second = red_count(&second.pixels);
    assert!(
        lit_first > 0,
        "first tri (v0,v1,v2) must fill near (10,10) (lit={lit_first})"
    );
    assert!(
        lit_second > 0,
        "second tri (v1,v2,v3) must fill near v3 (50,50) (lit={lit_second})"
    );
}

#[test]
fn oversized_polygon_is_not_rendered() {
    // SPX: max vertex distance 1023 x, 511 y. A 600-px-tall tri is dropped;
    // a 500-px-tall tri is drawn.
    let mut gpu = Gpu::new();
    clip(&mut gpu, 0, 0, 1023, 511);
    offset(&mut gpu, 0, 0);
    gpu.gp0(0x20 << 24 | 0x0000F8);
    gpu.gp0(xy(20, -300));
    gpu.gp0(xy(40, -300));
    gpu.gp0(xy(20, 300));
    assert_eq!(
        red_count(&peek(&mut gpu, 0, 0, 64, 64).pixels),
        0,
        "triangle taller than 511 must not plot"
    );
    gpu.gp0(0x20 << 24 | 0x0000F8);
    gpu.gp0(xy(80, -100));
    gpu.gp0(xy(100, -100));
    gpu.gp0(xy(80, 400));
    let lit = red_count(&peek(&mut gpu, 80, 0, 24, 64).pixels);
    assert!(
        lit > 8,
        "triangle within 511 vertical must still plot (lit={lit})"
    );
}

#[test]
fn gouraud_triangle_interpolates_per_vertex_rgb() {
    let mut gpu = Gpu::new();
    clip(&mut gpu, 0, 0, 1023, 511);
    offset(&mut gpu, 0, 0);
    gpu.gp0(0x30 << 24 | 0x0000F8); // v0 red
    gpu.gp0(xy(0, 0));
    gpu.gp0(0x0000F8); // v1 red (same)
    gpu.gp0(xy(40, 0));
    gpu.gp0(0xF80000); // v2 blue
    gpu.gp0(xy(0, 40));
    let pix = peek(&mut gpu, 2, 20, 8, 8);
    let mixed = pix.pixels.iter().any(|p| {
        let r = p & 0x1F;
        let b = (p >> 10) & 0x1F;
        r > 2 && b > 2
    });
    assert!(
        mixed,
        "GP0(30h) must interpolate red and blue (got {:04X?})",
        pix.pixels
    );
}

#[test]
fn textured_gouraud_blends_texel_by_vertex_rgb() {
    // SPX: blended textured polys multiply texel by vertex colour / 80h.
    // White CLUT texel * 40h must land near half brightness, not stay 7FFF.
    let mut gpu = Gpu::new();
    clip(&mut gpu, 0, 0, 1023, 511);
    offset(&mut gpu, 0, 0);
    let mut clut = [0u16; 16];
    clut[1] = 0x7FFF;
    upload_clut(&mut gpu, 0, 0, clut);
    gpu.gp0(0xA0 << 24);
    gpu.gp0(64); // page 1 at x=64
    gpu.gp0(2 | (8 << 16));
    for _ in 0..8 {
        gpu.gp0(0x1111_1111);
    }
    gpu.gp0(0x34 << 24 | 0x00404040);
    gpu.gp0(xy(10, 10));
    gpu.gp0(0x0000); // uv 0,0 clut (0,0)
    gpu.gp0(0x00404040);
    gpu.gp0(xy(26, 10));
    gpu.gp0((1 << 16) | 0x0008); // tpage 1, uv 8,0
    gpu.gp0(0x00404040);
    gpu.gp0(xy(10, 26));
    gpu.gp0(0x0008_00);
    let pix = peek(&mut gpu, 12, 12, 8, 8);
    let half = pix
        .pixels
        .iter()
        .filter(|p| {
            let r = *p & 0x1F;
            let g = (*p >> 5) & 0x1F;
            let b = (*p >> 10) & 0x1F;
            r > 4 && r < 0x1C && g > 4 && g < 0x1C && b > 4 && b < 0x1C
        })
        .count();
    assert!(
        half > 4,
        "GP0(34h) 40h blend must dim a white texel (got {:04X?})",
        pix.pixels
    );
}

#[test]
fn texture_blend_is_command_bit24_not_rgb_lsb() {
    // SPX bit24: 0=blended. RGB.0 of 41h must not switch the poly to raw.
    let mut gpu = Gpu::new();
    clip(&mut gpu, 0, 0, 1023, 511);
    offset(&mut gpu, 0, 0);
    let mut clut = [0u16; 16];
    clut[1] = 0x7FFF;
    upload_clut(&mut gpu, 0, 0, clut);
    gpu.gp0(0xA0 << 24);
    gpu.gp0(64);
    gpu.gp0(2 | (8 << 16));
    for _ in 0..8 {
        gpu.gp0(0x1111_1111);
    }
    gpu.gp0(0x34 << 24 | 0x00404041);
    gpu.gp0(xy(10, 10));
    gpu.gp0(0x0000);
    gpu.gp0(0x00404041);
    gpu.gp0(xy(26, 10));
    gpu.gp0((1 << 16) | 0x0008);
    gpu.gp0(0x00404041);
    gpu.gp0(xy(10, 26));
    gpu.gp0(0x0008_00);
    let pix = peek(&mut gpu, 12, 12, 8, 8);
    let half = pix
        .pixels
        .iter()
        .filter(|p| {
            let r = *p & 0x1F;
            r > 4 && r < 0x1C
        })
        .count();
    assert!(
        half > 4,
        "GP0(34h) with odd RGB.0 must still blend (got {:04X?})",
        pix.pixels
    );
}

#[test]
fn polygon_excludes_lower_right_vertex_coordinates() {
    // SPX: displayed up to <excluding> lower-right coordinates.
    let mut gpu = Gpu::new();
    clip(&mut gpu, 0, 0, 1023, 511);
    offset(&mut gpu, 0, 0);
    gpu.gp0(0x20 << 24 | 0x0000F8);
    gpu.gp0(xy(10, 10));
    gpu.gp0(xy(14, 10));
    gpu.gp0(xy(10, 14));
    let right = red_count(&peek(&mut gpu, 14, 10, 1, 4).pixels);
    let bottom = red_count(&peek(&mut gpu, 10, 14, 4, 1).pixels);
    let interior = red_count(&peek(&mut gpu, 10, 10, 3, 3).pixels);
    assert_eq!(right, 0, "x=max vertex must not plot");
    assert_eq!(bottom, 0, "y=max vertex must not plot");
    assert!(interior > 0, "interior of the triangle must still plot");
}

#[test]
fn quad_split_leaves_no_holes_on_the_shared_diagonal() {
    // SPX: a quad is triangles (v1,v2,v3) and (v2,v3,v4). Lower-right
    // coordinates are excluded, so [2,10)×[2,10) must be solid.
    let mut gpu = Gpu::new();
    clip(&mut gpu, 0, 0, 1023, 511);
    offset(&mut gpu, 0, 0);
    gpu.gp0(0x20 << 24 | 0x0000F8);
    gpu.gp0(xy(2, 2));
    gpu.gp0(xy(10, 2));
    gpu.gp0(xy(2, 10));
    gpu.gp0(0x20 << 24 | 0x0000F8);
    gpu.gp0(xy(10, 2));
    gpu.gp0(xy(2, 10));
    gpu.gp0(xy(10, 10));
    let pix = peek(&mut gpu, 2, 2, 8, 8);
    let missing = pix.pixels.iter().filter(|p| *p & 0x7FFF == 0).count();
    assert_eq!(
        missing, 0,
        "shared diagonal must not leave holes ({missing} of 64 unfilled)"
    );
}

#[test]
fn clockwise_pair_sharing_a_diagonal_leaves_no_holes() {
    // Both triangles clockwise (area < 0). Crash title keeps negative
    // NCLIP, so the face mesh is this case. SPX only excludes the
    // lower-right vertex coordinates; a pixel on the shared edge is in.
    let mut gpu = Gpu::new();
    clip(&mut gpu, 0, 0, 1023, 511);
    offset(&mut gpu, 0, 0);
    gpu.gp0(0x20 << 24 | 0x0000F8);
    gpu.gp0(xy(2, 2));
    gpu.gp0(xy(2, 10));
    gpu.gp0(xy(10, 2));
    gpu.gp0(0x20 << 24 | 0x0000F8);
    gpu.gp0(xy(10, 2));
    gpu.gp0(xy(2, 10));
    gpu.gp0(xy(10, 10));
    let pix = peek(&mut gpu, 2, 2, 8, 8);
    let missing = pix.pixels.iter().filter(|p| *p & 0x7FFF == 0).count();
    assert_eq!(
        missing, 0,
        "clockwise shared diagonal must not leave holes ({missing} of 64 unfilled)"
    );
}

#[test]
fn semi_trans_mode0_averages_back_and_forward() {
    // SPX mode 0: 0.5×B + 0.5×F per 5-bit channel.
    let mut gpu = Gpu::new();
    clip(&mut gpu, 0, 0, 1023, 511);
    offset(&mut gpu, 0, 0);
    gpu.gp0(0xE1 << 24); // texpage, semi mode 0
    gpu.gp0(0x02 << 24 | 0xF80000); // fill blue
    gpu.gp0(0);
    gpu.gp0(32 | (32 << 16));
    gpu.gp0(0x22 << 24 | 0x0000F8); // semi-trans red tri
    gpu.gp0(xy(2, 2));
    gpu.gp0(xy(20, 2));
    gpu.gp0(xy(2, 20));
    let p = peek(&mut gpu, 4, 4, 1, 1).pixels[0] & 0x7FFF;
    let r = p & 0x1F;
    let b = (p >> 10) & 0x1F;
    assert!(
        r > 8 && r < 24 && b > 8 && b < 24,
        "mode 0 must mix red and blue (got {p:#06X})"
    );
}

#[test]
fn textured_semi_without_stp_stays_opaque() {
    // SPX: textured semi-trans with texel bit15=0 is opaque, not averaged.
    let mut gpu = Gpu::new();
    clip(&mut gpu, 0, 0, 1023, 511);
    offset(&mut gpu, 0, 0);
    gpu.gp0(0xE1 << 24);
    gpu.gp0(0x02 << 24 | 0xF80000);
    gpu.gp0(0);
    gpu.gp0(32 | (32 << 16));
    let mut clut = [0u16; 16];
    clut[1] = 0x001F; // red, STP=0
    upload_clut(&mut gpu, 0, 0, clut);
    gpu.gp0(0xA0 << 24);
    gpu.gp0(64);
    gpu.gp0(2 | (8 << 16));
    for _ in 0..8 {
        gpu.gp0(0x1111_1111);
    }
    gpu.gp0(0x26 << 24 | 0x808080); // textured semi tri, blended
    gpu.gp0(xy(2, 2));
    gpu.gp0(0x0000);
    gpu.gp0(xy(18, 2));
    gpu.gp0((1 << 16) | 0x0008);
    gpu.gp0(xy(2, 18));
    gpu.gp0(0x0008_00);
    let p = peek(&mut gpu, 4, 4, 1, 1).pixels[0] & 0x7FFF;
    assert_eq!(
        p, 0x001F,
        "STP=0 texel must stay opaque red, not mix ({p:#06X})"
    );
}

#[test]
fn gouraud_dither_changes_a_pixel() {
    // SPX: dither (texpage bit 9) applies to Gouraud polys.
    let mut without = Gpu::new();
    clip(&mut without, 0, 0, 1023, 511);
    offset(&mut without, 0, 0);
    without.gp0(0xE1 << 24);
    without.gp0(0x30 << 24 | 0x0000F8);
    without.gp0(xy(0, 0));
    without.gp0(0x0000F8);
    without.gp0(xy(8, 0));
    without.gp0(0xF80000);
    without.gp0(xy(0, 8));
    let mut with = Gpu::new();
    clip(&mut with, 0, 0, 1023, 511);
    offset(&mut with, 0, 0);
    with.gp0(0xE1 << 24 | (1 << 9));
    with.gp0(0x30 << 24 | 0x0000F8);
    with.gp0(xy(0, 0));
    with.gp0(0x0000F8);
    with.gp0(xy(8, 0));
    with.gp0(0xF80000);
    with.gp0(xy(0, 8));
    let a = peek(&mut without, 1, 3, 4, 4).pixels;
    let b = peek(&mut with, 1, 3, 4, 4).pixels;
    assert_ne!(a, b, "dither bit must change Gouraud pixels");
}

#[test]
fn texture_window_offset_is_anded_with_mask() {
    // SPX: UV = (UV AND NOT (mask*8)) OR ((offset AND mask)*8).
    // Mask 0 and offset 1 must leave UV unchanged (not OR offset*8).
    let mut gpu = Gpu::new();
    clip(&mut gpu, 0, 0, 1023, 511);
    offset(&mut gpu, 0, 0);
    let mut clut = [0u16; 16];
    clut[1] = 0x001F;
    upload_clut(&mut gpu, 0, 480, clut);
    gpu.gp0(0xA0 << 24);
    gpu.gp0(0);
    gpu.gp0(2 | (1 << 16));
    gpu.gp0(0x0000_0001);
    gpu.gp0(0xE2 << 24 | 1u32 << 10); // mask=0, offset_x=1
    gpu.gp0(0xE1 << 24);
    gpu.gp0(0x65 << 24 | 0x808080); // raw textured rect
    gpu.gp0(xy(8, 8));
    gpu.gp0((480u32 << 6) << 16); // uv 0,0 clut y=480
    gpu.gp0(8 | (8 << 16));
    let p = peek(&mut gpu, 8, 8, 1, 1).pixels[0] & 0x7FFF;
    assert_eq!(
        p, 0x001F,
        "E2 offset without mask must not remap UV 0 (got {p:#06X})"
    );
}

#[test]
fn gpustat_25_follows_gp1_04h_dma_direction() {
    let mut gpu = Gpu::new();
    gpu.gp1(0x04 << 24);
    assert_eq!(
        gpu.stat() & (1 << 25),
        0,
        "GP1(04h)=0: GPUSTAT.25 is always 0"
    );
    gpu.gp1(0x04 << 24 | 1);
    assert_ne!(
        gpu.stat() & (1 << 25),
        0,
        "GP1(04h)=1: FIFO half-empty DRQ when FIFO is empty"
    );
    for _ in 0..9 {
        gpu.gp0(0x01 << 24);
    }
    assert_eq!(
        gpu.stat() & (1 << 25),
        0,
        "GP1(04h)=1: DRQ clear when FIFO is more than half full"
    );
    gpu.gp1(0x01 << 24);
    gpu.gp1(0x04 << 24 | 2);
    assert_eq!(
        (gpu.stat() >> 25) & 1,
        (gpu.stat() >> 28) & 1,
        "GP1(04h)=2: GPUSTAT.25 same as FIFO empty (bit 28)"
    );
    gpu.gp1(0x04 << 24 | 3);
    assert_eq!(
        (gpu.stat() >> 25) & 1,
        (gpu.stat() >> 27) & 1,
        "GP1(04h)=3: GPUSTAT.25 same as VRAM-to-CPU ready (bit 27)"
    );
}

#[test]
fn gp0_a0_keeps_gpustat_26_while_it_still_wants_gp0_words() {
    let mut gpu = Gpu::new();
    gpu.gp0(0xA0 << 24);
    gpu.gp0(0);
    gpu.gp0(4 | (4 << 16));
    gpu.tick(16, 0, false);
    assert_ne!(
        gpu.stat() & (1 << 26),
        0,
        "GPUSTAT.26 stays set while GP0(A0) still wants GP0 words"
    );
    gpu.gp0(0);
    gpu.tick(4, 0, false);
    assert_ne!(
        gpu.stat() & (1 << 26),
        0,
        "GPUSTAT.26 stays set after a partial A0 payload"
    );
}

#[test]
fn gpustat_31_toggles_per_scanline_in_240_per_frame_in_480_zero_in_vblank() {
    let mut gpu = Gpu::new();
    gpu.tick(1, 0, false);
    assert_eq!(gpu.stat() >> 31, 0, "240-line even scanline: GPUSTAT.31=0");
    gpu.tick(1, 1, false);
    assert_eq!(gpu.stat() >> 31, 1, "240-line odd scanline: GPUSTAT.31=1");
    gpu.tick(1, 243, true);
    assert_eq!(gpu.stat() >> 31, 0, "GPUSTAT.31 is 0 in vblank");

    let mut gpu = Gpu::new();
    gpu.gp1(0x08 << 24 | 4);
    gpu.tick(1, 0, false);
    assert_eq!(gpu.stat() >> 31, 0, "480-line first field even");
    gpu.tick(1, 1, false);
    assert_eq!(gpu.stat() >> 31, 0, "480-line does not toggle per scanline");
    gpu.tick(1, 243, true);
    assert_eq!(gpu.stat() >> 31, 0, "480-line vblank: GPUSTAT.31=0");
    gpu.tick(1, 0, false);
    assert_eq!(gpu.stat() >> 31, 1, "480-line next field: GPUSTAT.31=1");
}

#[test]
fn gp1_00h_reset_gpustat_is_14802000h() {
    let mut gpu = Gpu::new();
    gpu.gp1(0x08 << 24 | 7);
    gpu.gp1(0x04 << 24 | 2);
    gpu.gp1(0);
    assert_eq!(
        gpu.stat(),
        0x1480_2000,
        "GP1(00h) must restore GPUSTAT 14802000h (got {:08X})",
        gpu.stat()
    );
}

#[test]
fn gpustat_bit13_is_one_when_vertical_interlace_is_off() {
    let mut gpu = Gpu::new();
    assert_ne!(
        gpu.stat() & (1 << 13),
        0,
        "GPUSTAT.13 is 1 when GP1(08h) interlace is off"
    );
    gpu.gp1(0x08 << 24 | (1 << 5) | 4);
    gpu.tick(1, 0, false);
    assert_eq!(
        gpu.stat() & (1 << 13),
        0,
        "GPUSTAT.13 follows the interlace field when GP1(08h).5 is on"
    );
}

fn draw_4bpp_dot(gpu: &mut Gpu, clut_y: u32) {
    gpu.gp0(0xE1 << 24);
    gpu.gp0(0x65 << 24 | 0x808080);
    gpu.gp0(xy(8, 8));
    gpu.gp0((clut_y << 6) << 16);
    gpu.gp0(1 | (1 << 16));
    settle(gpu);
}

#[test]
fn gp0_01h_discards_clut_cache_fill_does_not() {
    let mut gpu = Gpu::new();
    clip(&mut gpu, 0, 0, 1023, 511);
    offset(&mut gpu, 0, 0);
    let mut clut = [0u16; 16];
    clut[1] = 0x001F;
    upload_clut(&mut gpu, 0, 480, clut);
    gpu.gp0(0xA0 << 24);
    gpu.gp0(0);
    gpu.gp0(2 | (1 << 16));
    gpu.gp0(0x0000_0001);
    settle(&mut gpu);
    draw_4bpp_dot(&mut gpu, 480);
    assert_eq!(peek(&mut gpu, 8, 8, 1, 1).pixels[0] & 0x7FFF, 0x001F);
    clut[1] = 0x03E0;
    upload_clut(&mut gpu, 0, 480, clut);
    gpu.gp0(0x02 << 24 | 0x0000F8);
    gpu.gp0(400u32 << 16);
    gpu.gp0(16 | (16 << 16));
    settle(&mut gpu);
    draw_4bpp_dot(&mut gpu, 480);
    assert_eq!(
        peek(&mut gpu, 8, 8, 1, 1).pixels[0] & 0x7FFF,
        0x001F,
        "Fill and CLUT COPY leave the CLUT cache; textured draw still samples the old palette"
    );
    gpu.gp0(0x01 << 24);
    settle(&mut gpu);
    draw_4bpp_dot(&mut gpu, 480);
    assert_eq!(
        peek(&mut gpu, 8, 8, 1, 1).pixels[0] & 0x7FFF,
        0x03E0,
        "GP0(01h) discards CLUT cache so the new VRAM palette is sampled"
    );
}

#[test]
fn gp0_1fh_sets_gpustat_24_gp1_02h_clears_it() {
    let mut gpu = Gpu::new();
    gpu.gp0(0x1F << 24);
    settle(&mut gpu);
    assert_ne!(gpu.stat() & (1 << 24), 0, "GP0(1Fh) sets GPUSTAT.24");
    assert!(gpu.irq_line());
    gpu.gp1(0x02 << 24);
    assert_eq!(gpu.stat() & (1 << 24), 0, "GP1(02h) acks GPUSTAT.24");
    assert!(!gpu.irq_line());
}

#[test]
fn gp1_08h_24bpp_and_display_range_and_2mb() {
    let mut gpu = Gpu::new();
    gpu.gp1(0x08 << 24 | (1 << 4) | 1);
    assert_ne!(gpu.stat() & (1 << 21), 0, "GP1(08h) bit4 sets GPUSTAT.21");
    gpu.gp1(0x03 << 24);
    gpu.gp1(0x05 << 24);
    gpu.tick(1, 0, false);
    assert!(
        gpu.display_area().bpp24,
        "Display area is 24-bit when GP1(08h) bit4 is set"
    );
    gpu.gp1(0x06 << 24 | 0x200 | ((0x200 + 320 * 8) << 12));
    gpu.gp1(0x07 << 24 | 10 | (110 << 10));
    assert_eq!(gpu.display_range(), (0x200, 0x200 + 320 * 8, 10, 110));
    gpu.gp1(0x03 << 24);
    for line in 0..120 {
        gpu.tick(1, line, false);
    }
    assert_eq!(
        gpu.display_area().height,
        100,
        "GP1(07h) Y2-Y1 is the Display height"
    );
    gpu.gp1(0x09 << 24 | 1);
    assert_eq!(
        gpu.vram_rect(0, 512, 1, 1).pixels[0],
        0x7FFF,
        "GP1(09h) 2MB: VRAM Y>=200h is open bus 7FFFh"
    );
}
