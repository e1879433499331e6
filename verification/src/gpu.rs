//! GPU: GP0 command FIFO, GP1 control, GPUSTAT, VRAM and the CRT latch.
use vstd::prelude::*;

use crate::display::DisplayArea;
use crate::bits::{lemma_halves, lemma_rgb24, lemma_u16_fields, lemma_u32_fields};
use crate::texcache::TexCache;

verus! {

pub const VRAM_W: usize = 1024;

pub const VRAM_H: usize = 512;

pub const FIFO_WORDS: usize = 16;

/// A VRAM transfer in progress: GP0(A0h) CPU-to-VRAM or GP0(C0h) VRAM-to-CPU.
/// `pos` counts the halfwords moved so far; the next one is at
/// (`x` + `pos` mod `w`, `y` + `pos` / `w`).
#[derive(Clone, Copy)]
pub struct Transfer {
    pub x: u32,
    pub y: u32,
    pub w: u32,
    pub h: u32,
    pub remaining: u32,
    pub to_vram: bool,
    pub pos: u32,
}

impl Transfer {
    pub open spec fn wf(&self) -> bool {
        &&& self.x < 1024
        &&& self.y < 512
        &&& 1 <= self.w <= 1024
        &&& 1 <= self.h <= 512
        &&& 1 <= self.remaining
        &&& self.pos + 2 * self.remaining <= self.w * self.h + 1
    }

    /// VRAM column of the halfword `pos` places into the transfer.
    pub open spec fn col(&self, pos: int) -> int {
        self.x + pos % (self.w as int)
    }

    /// VRAM row of the halfword `pos` places into the transfer.
    pub open spec fn row(&self, pos: int) -> int {
        self.y + pos / (self.w as int)
    }
}

/// GP1-controlled display registers.
#[derive(Clone, Copy)]
pub struct DisplayRegs {
    pub x: u32,
    pub y: u32,
    pub hres: u32,
    pub vres: u32,
    pub enabled: bool,
    pub interlace: bool,
    pub disp_24: bool,
    pub range_x1: u32,
    pub range_x2: u32,
    pub range_y1: u32,
    pub range_y2: u32,
    pub vram_2m: bool,
    pub dma_dir: u8,
    pub irq: bool,
}

/// GP0(E1h..E6h) drawing environment, plus the texture page and CLUT that
/// textured primitives latch.
#[derive(Clone, Copy)]
pub struct DrawEnv {
    pub draw_x1: i32,
    pub draw_y1: i32,
    pub draw_x2: i32,
    pub draw_y2: i32,
    pub off_x: i32,
    pub off_y: i32,
    pub tex_x: u8,
    pub tex_y: u8,
    pub tex_page: u32,
    pub clut_x: u32,
    pub clut_y: u32,
    pub dither: bool,
    pub draw_to_display: bool,
    pub mask_set: bool,
    pub mask_check: bool,
    pub win_mask_x: u32,
    pub win_mask_y: u32,
    pub win_off_x: u32,
    pub win_off_y: u32,
}

impl DrawEnv {
    pub open spec fn wf(&self) -> bool {
        &&& 0 <= self.draw_x1 <= 1023
        &&& 0 <= self.draw_x2 <= 1023
        &&& 0 <= self.draw_y1 <= 511
        &&& 0 <= self.draw_y2 <= 511
        &&& -1024 <= self.off_x <= 1023
        &&& -1024 <= self.off_y <= 1023
        &&& self.tex_x < 16
        &&& self.tex_y < 2
        &&& self.clut_x < 1024
        &&& self.clut_y < 512
        &&& self.win_mask_x < 32
        &&& self.win_mask_y < 32
        &&& self.win_off_x < 32
        &&& self.win_off_y < 32
    }

    /// Whether (x, y) lies in the drawing area set by GP0(E3h)/GP0(E4h).
    pub open spec fn in_area(&self, x: int, y: int) -> bool {
        self.draw_x1 <= x <= self.draw_x2 && self.draw_y1 <= y <= self.draw_y2
    }
}

pub struct Gpu {
    pub vram: Vec<u16>,
    pub gp0_cmd: Option<u8>,
    pub gp0_buf: Vec<u32>,
    pub gpuread: u32,
    pub stat: u32,
    pub env: DrawEnv,
    pub disp: DisplayRegs,
    pub tex_cache: TexCache,
    pub clut_cache: Option<(u32, u32, [u16; 16])>,
    pub transfer: Option<Transfer>,
    pub gp0_count: u64,
    pub gp1_count: u64,
    pub gp0_cmds: Vec<u8>,
    pub gp0_words: Vec<u32>,
    pub gp1_cmds: Vec<u32>,
    pub odd_frame: bool,
    pub in_vblank: bool,
    /// CRT: last latched field. `display_area` is this, not live VRAM.
    pub crt: Vec<u16>,
    pub crt_w: u32,
    pub crt_h: u32,
    pub crt_line: u32,
    pub fifo: std::collections::VecDeque<u32>,
    pub draw_busy: u32,
    pub plot_cost: u32,
    pub plotting: bool,
    pub block28: bool,
    pub scanline: u32,
}

/// `v` when `b`, else 0: one field of a status word.
pub open spec fn flag(b: bool, v: int) -> int {
    if b {
        v
    } else {
        0
    }
}

/// The GPUSTAT horizontal-resolution field for a display width.
pub open spec fn hres_bits(hres: u32) -> int {
    if hres == 256 {
        0
    } else if hres == 320 {
        0x20000
    } else if hres == 512 {
        0x40000
    } else if hres == 640 {
        0x60000
    } else if hres == 368 {
        0x10000
    } else {
        0x20000
    }
}

/// The power-on display registers.
pub open spec fn initial_disp() -> DisplayRegs {
    DisplayRegs {
        x: 0,
        y: 0,
        hres: 256,
        vres: 240,
        enabled: false,
        interlace: false,
        disp_24: false,
        range_x1: 0x200,
        range_x2: 0xC00,
        range_y1: 0x10,
        range_y2: 0x100,
        vram_2m: false,
        dma_dir: 0,
        irq: false,
    }
}

/// The power-on drawing environment.
pub open spec fn initial_env() -> DrawEnv {
    DrawEnv {
        draw_x1: 0,
        draw_y1: 0,
        draw_x2: 1023,
        draw_y2: 511,
        off_x: 0,
        off_y: 0,
        tex_x: 0,
        tex_y: 0,
        tex_page: 0,
        clut_x: 0,
        clut_y: 0,
        dither: false,
        draw_to_display: false,
        mask_set: false,
        mask_check: false,
        win_mask_x: 0,
        win_mask_y: 0,
        win_off_x: 0,
        win_off_y: 0,
    }
}

/// Index of VRAM halfword (x, y); coordinates wrap at 1024 × 512.
pub open spec fn vidx(x: int, y: int) -> int {
    (y % 512) * 1024 + (x % 1024)
}

pub proof fn lemma_vidx(x: int, y: int)
    requires
        x >= 0,
        y >= 0,
    ensures
        0 <= vidx(x, y) < VRAM_W * VRAM_H,
        vidx(x, y) % 1024 == x % 1024,
        vidx(x, y) / 1024 == y % 512,
{
    let r = y % 512;
    let c = x % 1024;
    assert(0 <= r * 1024 + c < 1024 * 512) by (nonlinear_arith)
        requires
            0 <= r < 512,
            0 <= c < 1024,
    ;
    assert((r * 1024 + c) % 1024 == c && (r * 1024 + c) / 1024 == r) by (nonlinear_arith)
        requires
            0 <= r < 512,
            0 <= c < 1024,
    ;
}

/// 16^k for the four nibble positions of a halfword.
pub open spec fn pow2_4(k: int) -> int {
    if k == 0 {
        1
    } else if k == 1 {
        16
    } else if k == 2 {
        256
    } else {
        4096
    }
}

/// The push of a bounded log: `v` is kept only while the log holds fewer than `cap` entries.
pub open spec fn log_push<T>(log: Seq<T>, v: T, cap: nat) -> Seq<T> {
    if log.len() < cap {
        log.push(v)
    } else {
        log
    }
}

/// The display registers after GP1 command `cmd` with parameter `p`.
pub open spec fn disp_after_gp1(d: DisplayRegs, cmd: u32, p: u32) -> DisplayRegs {
    if cmd == 0x02 {
        DisplayRegs { irq: false, ..d }
    } else if cmd == 0x03 {
        DisplayRegs { enabled: p & 1 == 0, ..d }
    } else if cmd == 0x04 {
        DisplayRegs { dma_dir: (p & 3) as u8, ..d }
    } else if cmd == 0x05 {
        DisplayRegs { x: p & 0x3FF, y: (p >> 10u32) & 0x1FF, ..d }
    } else if cmd == 0x06 {
        DisplayRegs { range_x1: p & 0xFFF, range_x2: (p >> 12u32) & 0xFFF, ..d }
    } else if cmd == 0x07 {
        DisplayRegs { range_y1: p & 0x3FF, range_y2: (p >> 10u32) & 0x3FF, ..d }
    } else if cmd == 0x08 {
        DisplayRegs {
            hres: if p & 0x40 != 0 {
                368
            } else if p & 3 == 0 {
                256
            } else if p & 3 == 1 {
                320
            } else if p & 3 == 2 {
                512
            } else {
                640
            },
            vres: if p & 4 != 0 {
                480
            } else {
                240
            },
            interlace: p & 0x20 != 0,
            disp_24: p & 0x10 != 0,
            ..d
        }
    } else if cmd == 0x09 {
        DisplayRegs { vram_2m: p & 1 != 0, ..d }
    } else {
        d
    }
}

/// GPUREAD after GP1(10h) with parameter `p`: a drawing-environment register, or unchanged.
pub open spec fn gpuread_after_gp1(env: DrawEnv, old: u32, p: u32) -> int {
    let sel = p & 7;
    if sel == 2 {
        0
    } else if sel == 3 {
        env.draw_x1 + env.draw_y1 * 1024
    } else if sel == 4 {
        env.draw_x2 + env.draw_y2 * 1024
    } else if sel == 5 {
        (env.off_x as int) % 2048 + ((env.off_y as int) % 2048) * 2048
    } else if sel == 7 {
        2
    } else {
        old as int
    }
}

/// The GP1 commands that bring GPUSTAT up to date.
pub open spec fn gp1_updates_stat(cmd: u32) -> bool {
    cmd == 0x02 || cmd == 0x03 || cmd == 0x04 || cmd == 0x08
}

/// A signed 11-bit field as an integer.
pub open spec fn signed11(v: int) -> int {
    if v >= 1024 {
        v - 2048
    } else {
        v
    }
}

/// The drawing environment after GP0(E1h..E6h) with command word `p`.
pub open spec fn env_after_gp0(e: DrawEnv, cmd: u8, p: u32) -> DrawEnv {
    if cmd == 0xE1 {
        DrawEnv {
            tex_x: (p & 0xF) as u8,
            tex_y: ((p >> 4u32) & 1) as u8,
            tex_page: p,
            dither: p & 0x200 != 0,
            draw_to_display: p & 0x400 != 0,
            ..e
        }
    } else if cmd == 0xE2 {
        DrawEnv {
            win_mask_x: p & 0x1F,
            win_mask_y: (p >> 5u32) & 0x1F,
            win_off_x: (p >> 10u32) & 0x1F,
            win_off_y: (p >> 15u32) & 0x1F,
            ..e
        }
    } else if cmd == 0xE3 {
        DrawEnv { draw_x1: (p & 0x3FF) as i32, draw_y1: ((p >> 10u32) & 0x1FF) as i32, ..e }
    } else if cmd == 0xE4 {
        DrawEnv { draw_x2: (p & 0x3FF) as i32, draw_y2: ((p >> 10u32) & 0x1FF) as i32, ..e }
    } else if cmd == 0xE5 {
        DrawEnv {
            off_x: signed11((p & 0x7FF) as int) as i32,
            off_y: signed11(((p >> 11u32) & 0x7FF) as int) as i32,
            ..e
        }
    } else if cmd == 0xE6 {
        DrawEnv { mask_set: p & 1 != 0, mask_check: p & 2 != 0, ..e }
    } else {
        e
    }
}

/// Words in a GP0 command (for a polyline, the fewest before its terminator).
pub open spec fn gp0_len_spec(cmd: u8) -> int {
    if cmd == 0x02 {
        3
    } else if 0x20 <= cmd <= 0x3F {
        let verts: int = if cmd & 0x08 != 0 { 4 } else { 3 };
        1 + verts + (if cmd & 0x10 != 0 { verts - 1 } else { 0 }) + (if cmd & 0x04 != 0 {
            verts
        } else {
            0
        })
    } else if 0x40 <= cmd <= 0x5F {
        if cmd & 0x08 != 0 {
            3
        } else if cmd & 0x10 != 0 {
            4
        } else {
            3
        }
    } else if 0x60 <= cmd <= 0x7F {
        2 + (if cmd & 0x04 != 0 { 1int } else { 0 }) + (if (cmd >> 3u8) & 3 == 0 { 1int } else { 0 })
    } else if cmd == 0x80 {
        4
    } else if cmd == 0xA0 || cmd == 0xC0 {
        3
    } else {
        1
    }
}

/// The halfword-pair the FIFO word `w` carries: low half first.
pub open spec fn lo16(w: u32) -> u16 {
    (w % 0x10000) as u16
}

pub open spec fn hi16(w: u32) -> u16 {
    (w / 0x10000) as u16
}

/// RGB555 of a 24-bit GP0 colour, each channel cut to its top five bits.
pub open spec fn color555(c: u32) -> int {
    (c % 256) / 8 + ((c / 256) % 256) / 8 * 32 + ((c / 65536) % 256) / 8 * 1024
}

/// GP0(02h) fill rectangle: x rounded down to 16, width rounded up to 16.
pub open spec fn fill_x(xy: u32) -> int {
    (xy % 1024) / 16 * 16
}

pub open spec fn fill_y(xy: u32) -> int {
    (xy as int / 0x10000) % 512
}

pub open spec fn fill_w(wh: u32) -> int {
    ((wh % 1024 + 15) / 16) * 16
}

pub open spec fn fill_h(wh: u32) -> int {
    (wh as int / 0x10000) % 512
}

/// Whether VRAM pixel (cx, cy) is among the first `rows` full rows, or the first
/// `cols` pixels of the next row, of a w-wide fill at (x, y). Rows past 511 wrap,
/// and are dropped in 2 MB mode.
pub open spec fn fill_done(
    x: int,
    y: int,
    w: int,
    rows: int,
    cols: int,
    cx: int,
    cy: int,
    skip2m: bool,
) -> bool {
    let dr = (cy - y) % 512;
    let dc = (cx - x) % 1024;
    (dr < rows || (dr == rows && dc < cols)) && dc < w && !(skip2m && y + dr >= 512)
}

/// Draw time of a fill: one cycle per 16-pixel unit.
pub open spec fn fill_units(w: int, h: int) -> int {
    (if w / 16 > 1 { w / 16 } else { 1 }) * (if h > 1 { h } else { 1 })
}

pub open spec fn sat_add_u32(a: int, b: int) -> int {
    if a + b > u32::MAX { u32::MAX as int } else { a + b }
}

/// Rectangle extent of a VRAM transfer or copy: 1..=1024 wide, 1..=512 high.
pub open spec fn xfer_w(wh: u32) -> int {
    ((wh as int - 1) % 1024) + 1
}

pub open spec fn xfer_h(wh: u32) -> int {
    ((wh as int / 0x10000 - 1) % 512) + 1
}

proof fn lemma_wrap_offset(y: int, r: int, m: int)
    requires
        0 <= r < m,
        m > 0,
    ensures
        ((y + r) % m - y) % m == r,
{
    vstd::arithmetic::div_mod::lemma_mod_add_multiples_vanish(r, m);
    vstd::arithmetic::div_mod::lemma_fundamental_div_mod(y + r, m);
    vstd::arithmetic::div_mod::lemma_mod_multiples_vanish(-((y + r) / m), r, m);
    vstd::arithmetic::div_mod::lemma_small_mod(r as nat, m as nat);
    assert((y + r) % m - y == r - m * ((y + r) / m));
    assert((r - m * ((y + r) / m)) % m == (m * (-((y + r) / m)) + r) % m) by (nonlinear_arith);
}

/// VRAM after writing `val` at (x, y), as GP0 drawing does: nothing past row 511
/// in 2 MB mode, and nothing onto a masked pixel while mask checking is on.
pub open spec fn vram_write(v: Seq<u16>, mask_check: bool, vram_2m: bool, x: int, y: int, val: u16) -> Seq<u16> {
    if (vram_2m && y >= 512) || (mask_check && v[vidx(x, y)] >= 0x8000) {
        v
    } else {
        v.update(vidx(x, y), val)
    }
}

/// VRAM `v` after the first `x` pixels of row `y` of a copy from (sx, sy) to (dx, dy):
/// each pixel is read from VRAM as it stands and written as a drawing write lands.
pub open spec fn copy_row(
    v: Seq<u16>,
    mask_check: bool,
    vram_2m: bool,
    sx: int,
    sy: int,
    dx: int,
    dy: int,
    y: int,
    x: int,
) -> Seq<u16>
    decreases x,
{
    if x <= 0 {
        v
    } else {
        let u = copy_row(v, mask_check, vram_2m, sx, sy, dx, dy, y, x - 1);
        vram_write(
            u,
            mask_check,
            vram_2m,
            (dx + x - 1) % 1024,
            (dy + y) % 512,
            u[vidx((sx + x - 1) % 1024, (sy + y) % 512)],
        )
    }
}

/// VRAM `v` after the first `h` rows, each `w` pixels wide, of a copy from (sx, sy) to
/// (dx, dy), row by row.
pub open spec fn copy_rect(
    v: Seq<u16>,
    mask_check: bool,
    vram_2m: bool,
    sx: int,
    sy: int,
    dx: int,
    dy: int,
    w: int,
    h: int,
) -> Seq<u16>
    decreases h,
{
    if h <= 0 {
        v
    } else {
        copy_row(
            copy_rect(v, mask_check, vram_2m, sx, sy, dx, dy, w, h - 1),
            mask_check,
            vram_2m,
            sx,
            sy,
            dx,
            dy,
            h - 1,
            w,
        )
    }
}

/// Whether VRAM pixel (cx, cy) lies in the w × h rectangle at (x, y), wrapping at the edges.
pub open spec fn in_rect(x: int, y: int, w: int, h: int, cx: int, cy: int) -> bool {
    (cx - x) % 1024 < w && (cy - y) % 512 < h
}

/// A texture coordinate after the GP0(E2h) window: (uv AND NOT (mask × 8)) OR ((offset AND mask) × 8).
pub open spec fn window(uv: u8, mask: u32, off: u32) -> int {
    (((uv as u32) & (!(mask << 3u32) & 0xFF)) | (((off & mask) << 3u32) & 0xFF)) as int
}

/// The drawing area and offset are the same in both environments.
pub open spec fn same_area(a: DrawEnv, b: DrawEnv) -> bool {
    &&& a.draw_x1 == b.draw_x1
    &&& a.draw_y1 == b.draw_y1
    &&& a.draw_x2 == b.draw_x2
    &&& a.draw_y2 == b.draw_y2
    &&& a.off_x == b.off_x
    &&& a.off_y == b.off_y
    &&& a.mask_set == b.mask_set
    &&& a.mask_check == b.mask_check
    &&& a.win_mask_x == b.win_mask_x
    &&& a.win_mask_y == b.win_mask_y
    &&& a.win_off_x == b.win_off_x
    &&& a.win_off_y == b.win_off_y
}

/// A polygon vertex: screen x, y, 24-bit colour, texture u, v.
pub type Vertex = (i32, i32, u32, u8, u8);

pub open spec fn vertex_ok(v: Vertex) -> bool {
    -1024 <= v.0 <= 1023 && -1024 <= v.1 <= 1023
}

pub open spec fn min3(a: int, b: int, c: int) -> int {
    if a <= b && a <= c { a } else if b <= c { b } else { c }
}

pub open spec fn max3(a: int, b: int, c: int) -> int {
    if a >= b && a >= c { a } else if b >= c { b } else { c }
}

/// Whether pixel (x, y) is in the box a triangle may cover: from the least vertex
/// coordinate up to but excluding the greatest.
pub open spec fn in_tri_box(a: Vertex, b: Vertex, c: Vertex, x: int, y: int) -> bool {
    min3(a.0 as int, b.0 as int, c.0 as int) <= x < max3(a.0 as int, b.0 as int, c.0 as int)
        && min3(a.1 as int, b.1 as int, c.1 as int) <= y < max3(a.1 as int, b.1 as int, c.1 as int)
}

/// Whether the words of `buf` complete GP0 command `cmd`: a polyline ends at its
/// 5000_5000h terminator (after at least two vertices), anything else at its length.
pub open spec fn gp0_ready_spec(cmd: u8, buf: Seq<u32>) -> bool {
    if 0x40 <= cmd <= 0x5F && cmd & 0x08 != 0 && buf.len() > 0 {
        buf.last() & 0xF000_F000 == 0x5000_5000 && buf.len() >= 3
    } else {
        buf.len() >= gp0_len_spec(cmd)
    }
}

/// What taking GP0 word `word` into the command buffer does, from `o` to `n`: a new
/// command word that is a no-op (00h, 04h..1Eh) starts nothing; otherwise the word
/// opens or extends the buffer, and the command runs (and is done) once its words
/// are all in.
pub open spec fn assembled(o: Gpu, n: Gpu, word: u32) -> bool {
    let cmd = (word / 0x100_0000) as u8;
    let starting = o.gp0_cmd is None;
    let c = if starting { cmd } else { o.gp0_cmd.unwrap() };
    let buf = if starting { seq![word] } else { o.gp0_buf@.push(word) };
    if starting && (cmd == 0 || (0x04 <= cmd && cmd <= 0x1E)) {
        n.gp0_cmd is None && n.gp0_buf@ == o.gp0_buf@
    } else if gp0_ready_spec(c, buf) {
        n.gp0_cmd is None
    } else {
        n.gp0_cmd == Some(c) && n.gp0_buf@ == buf
    }
}

/// What a GP0 word does to the GPU from `o` to `n`: counted and logged; GP0(E3h..E5h)
/// set the drawing environment at once, a command-word NOP is dropped, and any other
/// word enters the FIFO (behind what is queued when there is room).
pub open spec fn gp0_effect(o: Gpu, n: Gpu, word: u32) -> bool {
    &&& n.gp0_count == (o.gp0_count + 1) % 0x1_0000_0000_0000_0000
    &&& n.gp0_words@ == log_push(o.gp0_words@, word, 96)
    &&& {
        let cmd = (word / 0x100_0000) as u8;
        let immediate = 0xE3 <= cmd <= 0xE5 && o.gp0_cmd is None
            && o.transfer is None;
        let nop = !immediate && o.gp0_cmd is None && o.transfer is None
            && o.fifo@.len() == 0 && (cmd == 0 || 0x04 <= cmd <= 0x1E);
        if immediate {
            &&& n.env == env_after_gp0(o.env, cmd, word)
            &&& n.vram@ == o.vram@
            &&& n.same_queue(&o)
            &&& n.disp == o.disp
            &&& n.stat_synced()
        } else if nop {
            &&& n.env == o.env
            &&& n.vram@ == o.vram@
            &&& n.same_queue(&o)
            &&& n.disp == o.disp
            &&& n.stat == o.stat
        } else {
            &&& n.fifo@.len() >= 1
            &&& n.fifo@.last() == word
            &&& n.stat_synced()
            &&& o.fifo@.len() < FIFO_WORDS ==> {
                &&& n.fifo@ == o.fifo@.push(word)
                &&& n.vram@ == o.vram@
                &&& n.env == o.env
                &&& n.disp == o.disp
                &&& n.gp0_cmd == o.gp0_cmd
                &&& n.transfer == o.transfer
                &&& n.draw_busy == o.draw_busy
            }
        }
    }
}

/// What taking word `word` off the FIFO does, from `o` to `n`: during a transfer into
/// VRAM its two halves land at the next two positions; otherwise it is assembled into
/// the command buffer (see `assembled`), and a command whose words are all in runs.
pub open spec fn word_accepted(o: Gpu, n: Gpu, word: u32) -> bool {
    &&& !(o.transfer matches Some(t) && t.to_vram) ==> assembled(o, n, word)
    &&& (o.transfer matches Some(t) && t.to_vram) ==> ({
        let t = o.transfer.unwrap();
        let mc = o.env.mask_check;
        let m2 = o.disp.vram_2m;
        n.vram@ == vram_write(
            vram_write(o.vram@, mc, m2, t.col(t.pos as int), t.row(t.pos as int), lo16(word)),
            mc,
            m2,
            t.col(t.pos + 1),
            t.row(t.pos + 1),
            hi16(word),
        )
    })
}

/// Commands that draw pixel by pixel, costing draw time per written pixel.
pub open spec fn is_raster(cmd: u8) -> bool {
    (0x20 <= cmd <= 0x7F) || cmd == 0x80
}

/// Whether GP0 command `cmd`, with words `buf`, may change VRAM index `i`:
/// primitives only inside the drawing area, a fill only its rectangle, a copy
/// only its destination; nothing else writes VRAM.
pub open spec fn may_change(old: &Gpu, cmd: u8, buf: Seq<u32>, i: int) -> bool {
    if 0x20 <= cmd <= 0x7F {
        old.env.in_area(i % 1024, i / 1024)
    } else if cmd == 0x02 {
        fill_done(
            fill_x(buf[1]),
            fill_y(buf[1]),
            fill_w(buf[2]),
            fill_h(buf[2]),
            0,
            i % 1024,
            i / 1024,
            old.disp.vram_2m,
        )
    } else if cmd == 0x80 {
        in_rect(
            (buf[2] % 1024) as int,
            (buf[2] as int / 0x10000) % 512,
            xfer_w(buf[3]),
            xfer_h(buf[3]),
            i % 1024,
            i / 1024,
        )
    } else {
        false
    }
}

/// Displayed width: GP1(08h) resolution, at most 640.
pub open spec fn vis_w_spec(d: DisplayRegs) -> int {
    if d.hres < 1 { 1 } else if d.hres > 640 { 640 } else { d.hres as int }
}

/// Displayed height: 480 for interlaced 480-line mode, else the GP1(07h) range, at most 480.
pub open spec fn vis_h_spec(d: DisplayRegs) -> int {
    let range_h = if d.range_y2 > d.range_y1 { d.range_y2 - d.range_y1 } else { 0 };
    let v = if d.vres < 1 { 1 } else if d.vres > 480 { 480 } else { d.vres as int };
    if d.vres >= 480 {
        v
    } else if range_h > 0 {
        if range_h > 480 { 480 } else { range_h }
    } else {
        v
    }
}

/// How many halfwords of `v[0..n)` have a non-zero colour (bits 0..14).
pub open spec fn lit_count(v: Seq<u16>, n: int) -> nat
    decreases n,
{
    if n <= 0 {
        0
    } else {
        lit_count(v, n - 1) + (if v[n - 1] % 0x8000 != 0 { 1nat } else { 0 })
    }
}

/// The flag bits of a GP0 polygon or rectangle command word, as bits of its command byte.
proof fn lemma_cmd_bits(cmd: u32)
    by (bit_vector)
    ensures
        (cmd & 0x1000_0000 != 0) == (((cmd >> 24u32) as u8) & 0x10 != 0),
        (cmd & 0x0800_0000 != 0) == (((cmd >> 24u32) as u8) & 0x08 != 0),
        (cmd & 0x0400_0000 != 0) == (((cmd >> 24u32) as u8) & 0x04 != 0),
        ((cmd >> 27u32) & 3) == ((((cmd >> 24u32) as u8) >> 3u8) & 3),
        (cmd >> 27u32) & 3 < 4,
        (cmd >> 24u32) as u8 == cmd / 0x100_0000,
{
}

/// GP0(02h) parameters: the RGB555 colour and the rectangle, as `fill` uses them.
fn fill_params(color: u32, xy: u32, wh: u32) -> (r: (u16, u32, u32, u32, u32))
    ensures
        r.0 == color555(color),
        r.1 == fill_x(xy),
        r.2 == fill_y(xy),
        r.3 == fill_w(wh),
        r.4 == fill_h(wh),
        r.1 < 1024,
        r.2 < 512,
        r.3 <= 1024,
        r.4 < 512,
{
    let r = ((color % 256) / 8) as u16;
    let g = (((color / 256) % 256) / 8) as u16;
    let b = (((color / 65536) % 256) / 8) as u16;
    let pix: u16 = r + g * 32 + b * 1024;
    let x: u32 = (xy % 1024) / 16 * 16;
    let y: u32 = (xy / 0x10000) % 512;
    let w: u32 = ((wh % 1024 + 15) / 16) * 16;
    let h: u32 = (wh / 0x10000) % 512;
    (pix, x, y, w, h)
}

/// The texture window keeps a coordinate within a byte.
proof fn lemma_window(u: u32, m: u32, o: u32)
    by (bit_vector)
    requires
        u < 256,
    ensures
        ((u & (!(m << 3u32) & 0xFF)) | (((o & m) << 3u32) & 0xFF)) < 256,
{
}

fn fl(b: bool, v: u32) -> (r: u32)
    ensures
        r == flag(b, v as int),
{
    if b {
        v
    } else {
        0
    }
}

impl Gpu {
    /// The well-formedness of a GPU between GP0 words.
    pub open spec fn wf(&self) -> bool {
        self.inv() && !self.plotting
    }

    /// The well-formedness that also holds while a primitive is being drawn.
    pub open spec fn inv(&self) -> bool {
        &&& self.vram.len() == VRAM_W * VRAM_H
        &&& self.tex_cache.wf()
        &&& self.fifo@.len() <= FIFO_WORDS
        &&& self.env.wf()
        &&& self.disp.dma_dir < 4
        &&& self.disp.x < 1024
        &&& self.disp.y < 512
        &&& 1 <= self.plot_cost <= 2
        &&& self.crt_w <= 640
        &&& self.crt_h <= 480
        &&& self.crt.len() == self.crt_w * self.crt_h
        &&& (self.gp0_cmd is None ==> self.gp0_buf.len() == 0)
        &&& (self.gp0_cmd matches Some(c) ==> self.gp0_buf.len() >= 1 && self.gp0_buf@[0]
            / 0x100_0000 == c)
        &&& (self.transfer matches Some(t) ==> t.wf())
        &&& self.gp0_cmds.len() <= 64
        &&& self.gp0_words.len() <= 96
        &&& self.gp1_cmds.len() <= 64
    }

    /// The halfword a read of VRAM (x, y) gives: open bus 7FFFh past row 511 in 2 MB mode.
    pub open spec fn read_half_spec(&self, x: int, y: int) -> u16 {
        if self.disp.vram_2m && y >= 512 {
            0x7FFF
        } else {
            self.vram@[vidx(x, y)]
        }
    }

    /// Whether a write to VRAM (x, y) lands: not past row 511 in 2 MB mode, and not
    /// onto a masked pixel while mask checking is on.
    pub open spec fn write_lands(&self, x: int, y: int) -> bool {
        !(self.disp.vram_2m && y >= 512) && !(self.env.mask_check && self.vram@[vidx(x, y)]
            >= 0x8000)
    }

    /// A texture halfword as the cache gives it: the cached copy if there is one, else VRAM.
    pub open spec fn cached_spec(&self, x: int, y: int) -> u16 {
        match self.tex_cache.entry(x, y) {
            Some(c) => c,
            None => self.read_half_spec(x, y),
        }
    }

    /// CLUT entry `index` as the CLUT cache gives it: the cached palette when it was
    /// loaded from the current CLUT address, else VRAM.
    pub open spec fn clut_spec(&self, index: int) -> u16 {
        match self.clut_cache {
            Some((cx, cy, pal)) => if cx == self.env.clut_x && cy == self.env.clut_y {
                pal@[index]
            } else {
                self.read_half_spec(self.env.clut_x + index, self.env.clut_y as int)
            },
            None => self.read_half_spec(self.env.clut_x + index, self.env.clut_y as int),
        }
    }

    /// The texel at (u, v) of the current texture page, through the texture window,
    /// as 4-bit CLUT, 8-bit CLUT or 15-bit direct colour. The CLUT cache holds 16
    /// entries, so an 8-bit index reads entry (index mod 16).
    pub open spec fn sample_spec(&self, u: u8, v: u8) -> u16 {
        let page = self.env.tex_page;
        let tx = (page % 16) * 64;
        let ty = ((page / 16) % 2) * 256;
        let mode = (page / 128) % 4;
        let uu = window(u, self.env.win_mask_x, self.env.win_off_x);
        let vv = window(v, self.env.win_mask_y, self.env.win_off_y);
        if mode == 0 {
            let t = self.cached_spec(tx + uu / 4, ty + vv);
            self.clut_spec((t as int / pow2_4(uu % 4)) % 16)
        } else if mode == 1 {
            let t = self.cached_spec(tx + uu / 2, ty + vv);
            self.clut_spec(((t as int / (if uu % 2 == 1 { 256int } else { 1 })) % 256) % 16)
        } else {
            self.read_half_spec(tx + uu, ty + vv)
        }
    }

    /// Whether a plot of `color` at (x, y) draws: inside the drawing area, and for a
    /// textured primitive not a fully transparent (0000h/8000h) texel.
    pub open spec fn plot_draws(&self, x: int, y: int, color: u16, textured: bool) -> bool {
        self.env.in_area(x, y) && !(textured && color % 0x8000 == 0)
    }

    /// The halfword a plot writes: semi-transparent blending with what is there
    /// (textured pixels only when their STP bit is set), then the mask bit if
    /// GP0(E6h) asks to set it.
    pub open spec fn plot_color(&self, x: int, y: int, color: u16, textured: bool, semi: bool) -> u16 {
        let do_semi = semi && (!textured || color >= 0x8000);
        let c = (color % 0x8000) as u16;
        let c2 = if do_semi {
            crate::raster::blend_semi_spec(
                self.read_half_spec(x, y),
                c,
                ((self.env.tex_page / 32) % 4) as int,
            ) as u16
        } else {
            c
        };
        if self.env.mask_set {
            (c2 + 0x8000) as u16
        } else {
            c2
        }
    }

    /// A 24-bit display pixel at (x, y): three bytes from row y, packed RGB888.
    pub open spec fn read_24_spec(&self, x: int, y: int) -> int {
        let byte = y * 2048 + x * 3;
        crate::raster::rgb555_spec(
            self.byte_at(byte, y),
            self.byte_at(byte + 1, y),
            self.byte_at(byte + 2, y),
            0,
        )
    }

    /// Byte `off` of VRAM row `y`, as 24-bit display mode reads it.
    pub open spec fn byte_at(&self, off: int, y: int) -> int {
        let h = self.read_half_spec((off / 2) % 1024, y);
        if off % 2 == 0 {
            h as int % 256
        } else {
            h as int / 256
        }
    }

    /// Whether GP0 is waiting for more words of a command.
    pub open spec fn need_params(&self) -> bool {
        self.gp0_cmd is Some
    }

    /// GP0 is idle: nothing to draw, nothing queued, no command half-assembled.
    pub open spec fn idle(&self) -> bool {
        self.draw_busy == 0 && self.fifo@.len() == 0 && !self.need_params()
    }

    /// GPUSTAT.26: ready to receive a command word.
    pub open spec fn ready_cmd(&self) -> bool {
        match self.transfer {
            Some(t) => t.to_vram,
            None => !(self.need_params() || self.draw_busy > 0),
        }
    }

    /// GPUSTAT.27: ready to send VRAM to the CPU.
    pub open spec fn ready_vram_read(&self) -> bool {
        self.transfer matches Some(t) && !t.to_vram
    }

    /// GPUSTAT.28: ready to receive a DMA block (write FIFO empty).
    pub open spec fn ready_dma(&self) -> bool {
        self.idle() && match self.transfer {
            None => true,
            Some(t) => t.to_vram && !self.block28,
        }
    }

    /// GPUSTAT.25: the DMA request line for the current direction.
    pub open spec fn dma_request(&self) -> bool {
        if self.disp.dma_dir == 1 {
            self.fifo@.len() <= FIFO_WORDS / 2
        } else if self.disp.dma_dir == 2 {
            self.ready_dma()
        } else if self.disp.dma_dir == 3 {
            self.ready_vram_read()
        } else {
            false
        }
    }

    /// GPUSTAT.31: the odd/even line the CRT is scanning (0 during vblank).
    pub open spec fn odd_line(&self) -> bool {
        !self.in_vblank && if self.disp.vres >= 480 {
            self.odd_frame
        } else {
            self.scanline % 2 == 1
        }
    }

    /// GPUSTAT bits 0..12: the texture page and drawing flags.
    pub open spec fn env_stat(&self) -> int {
        (self.env.tex_x as int) + flag(self.env.tex_y == 1, 0x10) + ((self.env.tex_page & 0x1E0) as int)
            + flag(self.env.dither, 0x200) + flag(self.env.draw_to_display, 0x400) + flag(
            self.env.mask_set,
            0x800,
        ) + flag(self.env.mask_check, 0x1000)
    }

    /// GPUSTAT bits 13..24 and 29..30: the display registers.
    pub open spec fn disp_stat(&self) -> int {
        flag(!self.disp.interlace || self.odd_frame, 0x2000) + hres_bits(self.disp.hres) + flag(
            self.disp.vres >= 480,
            0x8_0000,
        ) + flag(self.disp.disp_24, 0x20_0000) + flag(!self.disp.enabled, 0x80_0000) + flag(
            self.disp.irq,
            0x100_0000,
        ) + (self.disp.dma_dir as int) * 0x2000_0000
    }

    /// GPUSTAT bits 25..28 and 31: readiness, DMA request and the scanned line.
    pub open spec fn ready_stat(&self) -> int {
        flag(self.dma_request(), 0x200_0000) + flag(self.ready_cmd(), 0x400_0000) + flag(
            self.ready_vram_read(),
            0x800_0000,
        ) + flag(self.ready_dma(), 0x1000_0000) + flag(self.odd_line(), 0x8000_0000)
    }

    /// GPUSTAT, field by field.
    pub open spec fn stat_spec(&self) -> int {
        self.env_stat() + self.disp_stat() + self.ready_stat()
    }

    /// GPUSTAT and the DMA-block flag agree with the other fields.
    pub open spec fn stat_synced(&self) -> bool {
        &&& self.stat == self.stat_spec()
        &&& (self.idle() && self.transfer is None ==> !self.block28)
    }

    pub open spec fn same_memory(&self, other: &Gpu) -> bool {
        &&& self.vram@ == other.vram@
        &&& self.tex_cache == other.tex_cache
        &&& self.clut_cache == other.clut_cache
    }

    pub open spec fn same_crt(&self, other: &Gpu) -> bool {
        &&& self.crt@ == other.crt@
        &&& self.crt_w == other.crt_w
        &&& self.crt_h == other.crt_h
        &&& self.crt_line == other.crt_line
        &&& self.odd_frame == other.odd_frame
        &&& self.in_vblank == other.in_vblank
        &&& self.scanline == other.scanline
    }

    pub open spec fn same_queue(&self, other: &Gpu) -> bool {
        &&& self.gp0_cmd == other.gp0_cmd
        &&& self.gp0_buf@ == other.gp0_buf@
        &&& self.fifo@ == other.fifo@
        &&& self.draw_busy == other.draw_busy
        &&& self.transfer == other.transfer
        &&& self.plotting == other.plotting
        &&& self.plot_cost == other.plot_cost
    }

    pub open spec fn same_log(&self, other: &Gpu) -> bool {
        &&& self.gp0_count == other.gp0_count
        &&& self.gp1_count == other.gp1_count
        &&& self.gp0_cmds@ == other.gp0_cmds@
        &&& self.gp0_words@ == other.gp0_words@
        &&& self.gp1_cmds@ == other.gp1_cmds@
    }

    /// The state right after power-on or GP1(00h).
    pub open spec fn is_initial(&self) -> bool {
        &&& self.wf()
        &&& self.stat_synced()
        &&& self.stat == 0x1480_2000
        &&& forall|i: int| 0 <= i < VRAM_W * VRAM_H ==> #[trigger] self.vram@[i] == 0
        &&& forall|x: int, y: int|
            TexCache::in_range(x, y) ==> #[trigger] self.tex_cache.entry(x, y) is None
        &&& self.clut_cache is None
        &&& self.env == initial_env()
        &&& self.disp == initial_disp()
        &&& self.gp0_cmd is None
        &&& self.transfer is None
        &&& self.fifo@.len() == 0
        &&& self.draw_busy == 0
        &&& !self.block28
        &&& !self.plotting
        &&& self.plot_cost == 1
        &&& self.gpuread == 0
        &&& self.gp0_count == 0
        &&& self.gp1_count == 0
        &&& self.gp0_cmds@.len() == 0
        &&& self.gp0_words@.len() == 0
        &&& self.gp1_cmds@.len() == 0
        &&& !self.odd_frame
        &&& !self.in_vblank
        &&& self.crt@.len() == 0
        &&& self.crt_w == 0
        &&& self.crt_h == 0
        &&& self.crt_line == u32::MAX
        &&& self.scanline == 0
    }

    pub fn new() -> (g: Self)
        ensures
            g.is_initial(),
    {
        let mut g = Gpu {
            vram: vec![0u16; VRAM_W * VRAM_H],
            gp0_cmd: None,
            gp0_buf: Vec::new(),
            gpuread: 0,
            stat: 0x1480_2000,
            env: DrawEnv {
                draw_x1: 0,
                draw_y1: 0,
                draw_x2: 1023,
                draw_y2: 511,
                off_x: 0,
                off_y: 0,
                tex_x: 0,
                tex_y: 0,
                tex_page: 0,
                clut_x: 0,
                clut_y: 0,
                dither: false,
                draw_to_display: false,
                mask_set: false,
                mask_check: false,
                win_mask_x: 0,
                win_mask_y: 0,
                win_off_x: 0,
                win_off_y: 0,
            },
            disp: DisplayRegs {
                x: 0,
                y: 0,
                hres: 256,
                vres: 240,
                enabled: false,
                interlace: false,
                disp_24: false,
                range_x1: 0x200,
                range_x2: 0x200 + 256 * 10,
                range_y1: 0x10,
                range_y2: 0x10 + 240,
                vram_2m: false,
                dma_dir: 0,
                irq: false,
            },
            tex_cache: TexCache::new(),
            clut_cache: None,
            transfer: None,
            gp0_count: 0,
            gp1_count: 0,
            gp0_cmds: Vec::new(),
            gp0_words: Vec::new(),
            gp1_cmds: Vec::new(),
            odd_frame: false,
            in_vblank: false,
            crt: Vec::new(),
            crt_w: 0,
            crt_h: 0,
            crt_line: u32::MAX,
            fifo: std::collections::VecDeque::new(),
            draw_busy: 0,
            plot_cost: 1,
            plotting: false,
            block28: false,
            scanline: 0,
        };
        g.update_stat();
        proof {
            lemma_u32_fields(0);
        }
        g
    }

    /// Bring GPUSTAT (and the DMA-block flag) up to date with the other fields.
    #[verifier::rlimit(50)]
    fn update_stat(&mut self)
        requires
            old(self).wf(),
        ensures
            final(self).wf(),
            final(self).stat_synced(),
            final(self).block28 == (old(self).block28 && !(old(self).idle() && old(self).transfer is None)),
            final(self).same_memory(&*old(self)),
            final(self).same_crt(&*old(self)),
            final(self).same_queue(&*old(self)),
            final(self).same_log(&*old(self)),
            final(self).env == old(self).env,
            final(self).disp == old(self).disp,
            final(self).gpuread == old(self).gpuread,
    {
        let idle = self.draw_busy == 0 && self.fifo.len() == 0 && self.gp0_cmd.is_none();
        if idle && self.transfer.is_none() {
            self.block28 = false;
        }
        let e = self.env_bits();
        let d = self.disp_bits();
        let r = self.ready_bits();
        self.stat = e + d + r;
    }

    fn env_bits(&self) -> (s: u32)
        requires
            self.env.wf(),
        ensures
            s == self.env_stat(),
            s < 0x2000,
    {
        let tp = self.env.tex_page;
        let page = tp & 0x1E0;
        proof {
            lemma_u32_fields(tp);
        }
        self.env.tex_x as u32 + fl(self.env.tex_y == 1, 0x10) + page + fl(self.env.dither, 0x200)
            + fl(self.env.draw_to_display, 0x400) + fl(self.env.mask_set, 0x800) + fl(
            self.env.mask_check,
            0x1000,
        )
    }

    fn disp_bits(&self) -> (s: u32)
        requires
            self.disp.dma_dir < 4,
        ensures
            s == self.disp_stat(),
            s <= 0x61AE_2000,
    {
        let hres: u32 = if self.disp.hres == 256 {
            0
        } else if self.disp.hres == 320 {
            0x20000
        } else if self.disp.hres == 512 {
            0x40000
        } else if self.disp.hres == 640 {
            0x60000
        } else if self.disp.hres == 368 {
            0x10000
        } else {
            0x20000
        };
        fl(!self.disp.interlace || self.odd_frame, 0x2000) + hres + fl(
            self.disp.vres >= 480,
            0x8_0000,
        ) + fl(self.disp.disp_24, 0x20_0000) + fl(!self.disp.enabled, 0x80_0000) + fl(
            self.disp.irq,
            0x100_0000,
        ) + (self.disp.dma_dir as u32) * 0x2000_0000
    }

    fn ready_bits(&self) -> (s: u32)
        ensures
            s == self.ready_stat(),
            s <= 0x9E00_0000,
    {
        let idle = self.draw_busy == 0 && self.fifo.len() == 0 && self.gp0_cmd.is_none();
        let need_params = self.gp0_cmd.is_some();
        let drawing = self.draw_busy > 0;
        let (ready_cmd, ready_read, ready_dma) = match &self.transfer {
            Some(t) => (t.to_vram, !t.to_vram, idle && t.to_vram && !self.block28),
            None => (!(need_params || drawing), false, idle),
        };
        let dma_request = if self.disp.dma_dir == 1 {
            self.fifo.len() <= FIFO_WORDS / 2
        } else if self.disp.dma_dir == 2 {
            ready_dma
        } else if self.disp.dma_dir == 3 {
            ready_read
        } else {
            false
        };
        let odd_line = !self.in_vblank && if self.disp.vres >= 480 {
            self.odd_frame
        } else {
            self.scanline % 2 == 1
        };
        fl(dma_request, 0x200_0000) + fl(ready_cmd, 0x400_0000) + fl(ready_read, 0x800_0000) + fl(
            ready_dma,
            0x1000_0000,
        ) + fl(odd_line, 0x8000_0000)
    }

    pub fn stat(&self) -> (s: u32)
        ensures
            s == self.stat,
    {
        self.stat
    }

    pub fn irq_line(&self) -> (b: bool)
        ensures
            b == self.disp.irq,
    {
        self.disp.irq
    }

    pub fn display_range(&self) -> (r: (u32, u32, u32, u32))
        ensures
            r == (self.disp.range_x1, self.disp.range_x2, self.disp.range_y1, self.disp.range_y2),
    {
        (self.disp.range_x1, self.disp.range_x2, self.disp.range_y1, self.disp.range_y2)
    }

    pub fn fifo_full(&self) -> (b: bool)
        ensures
            b == (self.fifo@.len() >= FIFO_WORDS),
    {
        self.fifo.len() >= FIFO_WORDS
    }

    pub fn fifo_is_empty(&self) -> (b: bool)
        ensures
            b == (self.fifo@.len() == 0),
    {
        self.fifo.len() == 0
    }

    pub fn fifo_space(&self) -> (n: u32)
        requires
            self.wf(),
        ensures
            n == FIFO_WORDS - self.fifo@.len(),
    {
        (FIFO_WORDS - self.fifo.len()) as u32
    }

    pub fn fifo_len(&self) -> (n: usize)
        ensures
            n == self.fifo@.len(),
    {
        self.fifo.len()
    }

    pub fn draw_remaining(&self) -> (n: u32)
        ensures
            n == self.draw_busy,
    {
        self.draw_busy
    }

    pub fn assembling(&self) -> (b: bool)
        ensures
            b == (self.gp0_cmd is Some || self.transfer is Some),
    {
        self.gp0_cmd.is_some() || self.transfer.is_some()
    }

    pub fn busy(&self) -> (b: bool)
        ensures
            b == (self.draw_busy > 0 || self.gp0_cmd is Some || self.transfer is Some),
    {
        self.draw_busy > 0 || self.gp0_cmd.is_some() || self.transfer.is_some()
    }
}


impl Gpu {
    pub fn read_half(&self, x: u32, y: u32) -> (h: u16)
        requires
            self.inv(),
        ensures
            h == self.read_half_spec(x as int, y as int),
    {
        if self.disp.vram_2m && y >= 512 {
            return 0x7FFF;
        }
        proof {
            lemma_vidx(x as int, y as int);
        }
        self.vram[((y % 512) as usize) * VRAM_W + (x % 1024) as usize]
    }

    fn write_half(&mut self, x: u32, y: u32, v: u16)
        requires
            old(self).inv(),
        ensures
            final(self).inv(),
            final(self).vram@ == vram_write(
                old(self).vram@,
                old(self).env.mask_check,
                old(self).disp.vram_2m,
                x as int,
                y as int,
                v,
            ),
            final(self).draw_busy == if old(self).write_lands(x as int, y as int)
                && old(self).plotting {
                if old(self).draw_busy + old(self).plot_cost > u32::MAX {
                    u32::MAX as int
                } else {
                    old(self).draw_busy + old(self).plot_cost
                }
            } else {
                old(self).draw_busy as int
            },
            final(self).tex_cache == old(self).tex_cache,
            final(self).clut_cache == old(self).clut_cache,
            final(self).same_crt(&*old(self)),
            final(self).same_log(&*old(self)),
            final(self).env == old(self).env,
            final(self).disp == old(self).disp,
            final(self).gp0_cmd == old(self).gp0_cmd,
            final(self).gp0_buf@ == old(self).gp0_buf@,
            final(self).fifo@ == old(self).fifo@,
            final(self).transfer == old(self).transfer,
            final(self).plotting == old(self).plotting,
            final(self).plot_cost == old(self).plot_cost,
            final(self).stat == old(self).stat,
            final(self).block28 == old(self).block28,
            final(self).gpuread == old(self).gpuread,
    {
        if self.disp.vram_2m && y >= 512 {
            return;
        }
        proof {
            lemma_vidx(x as int, y as int);
        }
        let i = ((y % 512) as usize) * VRAM_W + (x % 1024) as usize;
        if self.env.mask_check && self.vram[i] >= 0x8000 {
            return;
        }
        if self.plotting {
            self.draw_busy = self.draw_busy.saturating_add(self.plot_cost);
        }
        self.vram.set(i, v);
    }

    pub fn gp1(&mut self, word: u32)
        requires
            old(self).wf(),
        ensures
            final(self).wf(),
            ({
                let cmd = (word >> 24u32) & 0x3F;
                let p = word & 0xFF_FFFF;
                if cmd == 0 {
                    final(self).is_initial()
                } else {
                    &&& final(self).gp1_count == (old(self).gp1_count + 1) % 0x1_0000_0000_0000_0000
                    &&& final(self).gp1_cmds@ == log_push(old(self).gp1_cmds@, word, 64)
                    &&& final(self).gp0_count == old(self).gp0_count
                    &&& final(self).gp0_cmds@ == old(self).gp0_cmds@
                    &&& final(self).gp0_words@ == old(self).gp0_words@
                    &&& final(self).disp == disp_after_gp1(old(self).disp, cmd, p)
                    &&& final(self).env == old(self).env
                    &&& final(self).same_memory(&*old(self))
                    &&& final(self).same_crt(&*old(self))
                    &&& final(self).gpuread == if cmd == 0x10 {
                        gpuread_after_gp1(old(self).env, old(self).gpuread, p)
                    } else {
                        old(self).gpuread as int
                    }
                    &&& if cmd == 1 {
                        &&& final(self).gp0_cmd is None
                        &&& final(self).gp0_buf@.len() == 0
                        &&& final(self).fifo@.len() == 0
                        &&& final(self).draw_busy == 0
                        &&& !final(self).block28
                        &&& final(self).transfer == old(self).transfer
                        &&& final(self).plotting == old(self).plotting
                        &&& final(self).plot_cost == old(self).plot_cost
                        &&& final(self).stat == old(self).stat
                    } else {
                        &&& final(self).same_queue(&*old(self))
                        &&& if gp1_updates_stat(cmd) {
                            final(self).stat_synced()
                        } else {
                            final(self).stat == old(self).stat && final(self).block28
                                == old(self).block28
                        }
                    }
                }
            }),
    {
        self.gp1_count = self.gp1_count.wrapping_add(1);
        if self.gp1_cmds.len() < 64 {
            self.gp1_cmds.push(word);
        }
        let cmd = (word >> 24u32) & 0x3F;
        let p = word & 0xFF_FFFF;
        if cmd == 0x00 {
            *self = Self::new();
        } else if cmd == 0x01 {
            self.gp0_buf.clear();
            self.gp0_cmd = None;
            self.fifo.clear();
            self.draw_busy = 0;
            self.block28 = false;
        } else if cmd == 0x10 {
            self.gp1_gpuread(p);
        } else {
            self.gp1_regs(cmd, p);
        }
    }

    /// GP1(02h..09h): display registers and the IRQ acknowledge.
    #[verifier::rlimit(30)]
    fn gp1_regs(&mut self, cmd: u32, p: u32)
        requires
            old(self).wf(),
            cmd != 0 && cmd != 1 && cmd != 0x10,
        ensures
            final(self).wf(),
            final(self).disp == disp_after_gp1(old(self).disp, cmd, p),
            final(self).env == old(self).env,
            final(self).same_memory(&*old(self)),
            final(self).same_crt(&*old(self)),
            final(self).same_queue(&*old(self)),
            final(self).same_log(&*old(self)),
            final(self).gpuread == old(self).gpuread,
            if gp1_updates_stat(cmd) {
                final(self).stat_synced()
            } else {
                final(self).stat == old(self).stat && final(self).block28 == old(self).block28
            },
    {
        if cmd == 0x02 {
            self.disp.irq = false;
            self.update_stat();
        } else if cmd == 0x03 {
            self.disp.enabled = p & 1 == 0;
            self.update_stat();
        } else if cmd == 0x04 {
            self.disp.dma_dir = (p & 3) as u8;
            proof {
                lemma_u32_fields(p);
            }
            self.update_stat();
        } else if cmd == 0x05 {
            proof {
                lemma_u32_fields(p);
                lemma_u32_fields(p >> 10u32);
            }
            self.disp.x = p & 0x3FF;
            self.disp.y = (p >> 10u32) & 0x1FF;
        } else if cmd == 0x08 {
            let hres: u32 = if p & 0x40 != 0 {
                368
            } else {
                let m = p & 3;
                if m == 0 {
                    256
                } else if m == 1 {
                    320
                } else if m == 2 {
                    512
                } else {
                    640
                }
            };
            self.disp.hres = hres;
            self.disp.vres = if p & 4 != 0 {
                480
            } else {
                240
            };
            self.disp.interlace = p & 0x20 != 0;
            self.disp.disp_24 = p & 0x10 != 0;
            self.update_stat();
        } else if cmd == 0x06 {
            self.disp.range_x1 = p & 0xFFF;
            self.disp.range_x2 = (p >> 12u32) & 0xFFF;
        } else if cmd == 0x07 {
            self.disp.range_y1 = p & 0x3FF;
            self.disp.range_y2 = (p >> 10u32) & 0x3FF;
        } else if cmd == 0x09 {
            self.disp.vram_2m = p & 1 != 0;
        }
    }

    /// GP1(10h): latch a drawing-environment register into GPUREAD.
    fn gp1_gpuread(&mut self, p: u32)
        requires
            old(self).wf(),
        ensures
            final(self).wf(),
            final(self).gpuread == gpuread_after_gp1(old(self).env, old(self).gpuread, p),
            final(self).disp == old(self).disp,
            final(self).env == old(self).env,
            final(self).same_memory(&*old(self)),
            final(self).same_crt(&*old(self)),
            final(self).same_queue(&*old(self)),
            final(self).same_log(&*old(self)),
            final(self).stat == old(self).stat,
            final(self).block28 == old(self).block28,
    {
        let sel = p & 7;
        if sel == 2 {
            self.gpuread = 0;
        } else if sel == 3 {
            self.gpuread = (self.env.draw_x1 as u32) + (self.env.draw_y1 as u32) * 1024;
        } else if sel == 4 {
            self.gpuread = (self.env.draw_x2 as u32) + (self.env.draw_y2 as u32) * 1024;
        } else if sel == 5 {
            let ox = self.env.off_x;
            let oy = self.env.off_y;
            self.gpuread = ((ox + 2048) % 2048) as u32 + (((oy + 2048) % 2048) as u32) * 2048;
        } else if sel == 7 {
            self.gpuread = 2;
        }
    }
}


impl Gpu {
    /// GP0(E1h..E6h).
    fn exec_env(&mut self, cmd: u8, p: u32)
        requires
            old(self).wf(),
            0xE1 <= cmd <= 0xE6,
        ensures
            final(self).wf(),
            final(self).env == env_after_gp0(old(self).env, cmd, p),
            final(self).disp == old(self).disp,
            final(self).same_memory(&*old(self)),
            final(self).same_crt(&*old(self)),
            final(self).same_queue(&*old(self)),
            final(self).same_log(&*old(self)),
            final(self).gpuread == old(self).gpuread,
            if cmd == 0xE1 || cmd == 0xE6 {
                final(self).stat_synced()
            } else {
                final(self).stat == old(self).stat && final(self).block28 == old(self).block28
            },
    {
        if cmd == 0xE1 {
            self.env.tex_x = (p & 0xF) as u8;
            self.env.tex_y = ((p >> 4u32) & 1) as u8;
            proof {
                lemma_u32_fields(p);
                lemma_u32_fields(p >> 4u32);
            }
            self.env.tex_page = p;
            self.env.dither = p & 0x200 != 0;
            self.env.draw_to_display = p & 0x400 != 0;
            self.update_stat();
        } else if cmd == 0xE2 {
            self.env.win_mask_x = p & 0x1F;
            self.env.win_mask_y = (p >> 5u32) & 0x1F;
            self.env.win_off_x = (p >> 10u32) & 0x1F;
            self.env.win_off_y = (p >> 15u32) & 0x1F;
            proof {
                lemma_u32_fields(p);
                lemma_u32_fields(p >> 5u32);
                lemma_u32_fields(p >> 10u32);
                lemma_u32_fields(p >> 15u32);
            }
        } else if cmd == 0xE3 {
            proof {
                lemma_u32_fields(p);
                lemma_u32_fields(p >> 10u32);
            }
            self.env.draw_x1 = (p & 0x3FF) as i32;
            self.env.draw_y1 = ((p >> 10u32) & 0x1FF) as i32;
        } else if cmd == 0xE4 {
            proof {
                lemma_u32_fields(p);
                lemma_u32_fields(p >> 10u32);
            }
            self.env.draw_x2 = (p & 0x3FF) as i32;
            self.env.draw_y2 = ((p >> 10u32) & 0x1FF) as i32;
        } else if cmd == 0xE5 {
            proof {
                lemma_u32_fields(p);
                lemma_u32_fields(p >> 11u32);
            }
            self.env.off_x = crate::raster::sign11(p & 0x7FF);
            self.env.off_y = crate::raster::sign11((p >> 11u32) & 0x7FF);
        } else {
            self.env.mask_set = p & 1 != 0;
            self.env.mask_check = p & 2 != 0;
            self.update_stat();
        }
    }

    /// GP0(02h): fill a rectangle of VRAM with one colour, ignoring the drawing
    /// area and offset.
    #[verifier::rlimit(40)]
    fn fill(&mut self, color: u32, xy: u32, wh: u32)
        requires
            old(self).wf(),
            !old(self).plotting,
        ensures
            final(self).wf(),
            forall|i: int|
                0 <= i < VRAM_W * VRAM_H ==> #[trigger] final(self).vram@[i] == if fill_done(
                    fill_x(xy),
                    fill_y(xy),
                    fill_w(wh),
                    fill_h(wh),
                    0,
                    i % 1024,
                    i / 1024,
                    old(self).disp.vram_2m,
                ) && !(old(self).env.mask_check && old(self).vram@[i] >= 0x8000) {
                    color555(color) as u16
                } else {
                    old(self).vram@[i]
                },
            final(self).draw_busy == sat_add_u32(
                old(self).draw_busy as int,
                fill_units(fill_w(wh), fill_h(wh)),
            ),
            final(self).tex_cache == old(self).tex_cache,
            final(self).clut_cache == old(self).clut_cache,
            final(self).same_crt(&*old(self)),
            final(self).same_log(&*old(self)),
            final(self).env == old(self).env,
            final(self).disp == old(self).disp,
            final(self).gp0_cmd == old(self).gp0_cmd,
            final(self).gp0_buf@ == old(self).gp0_buf@,
            final(self).fifo@ == old(self).fifo@,
            final(self).transfer == old(self).transfer,
            final(self).plotting == old(self).plotting,
            final(self).plot_cost == old(self).plot_cost,
            final(self).stat == old(self).stat,
            final(self).block28 == old(self).block28,
            final(self).gpuread == old(self).gpuread,
    {
        let (pix, x, y, w, h) = fill_params(color, xy, wh);
        let ghost old_vram = self.vram@;
        let ghost skip = self.disp.vram_2m;
        let ghost mc = self.env.mask_check;
        let mut row: u32 = 0;
        while row < h
            invariant
                self.wf(),
                !self.plotting,
                x == fill_x(xy),
                y == fill_y(xy),
                w == fill_w(wh),
                h == fill_h(wh),
                x < 1024,
                y < 512,
                w <= 1024,
                h < 512,
                row <= h,
                skip == self.disp.vram_2m,
                mc == self.env.mask_check,
                pix == color555(color),
                old_vram.len() == VRAM_W * VRAM_H,
                forall|i: int|
                    0 <= i < VRAM_W * VRAM_H ==> #[trigger] self.vram@[i] == if fill_done(
                        x as int,
                        y as int,
                        w as int,
                        row as int,
                        0,
                        i % 1024,
                        i / 1024,
                        skip,
                    ) && !(mc && old_vram[i] >= 0x8000) {
                        pix
                    } else {
                        old_vram[i]
                    },
                self.draw_busy == old(self).draw_busy,
                self.tex_cache == old(self).tex_cache,
                self.clut_cache == old(self).clut_cache,
                self.same_crt(&*old(self)),
                self.same_log(&*old(self)),
                self.env == old(self).env,
                self.disp == old(self).disp,
                self.gp0_cmd == old(self).gp0_cmd,
                self.gp0_buf@ == old(self).gp0_buf@,
                self.fifo@ == old(self).fifo@,
                self.transfer == old(self).transfer,
                self.plot_cost == old(self).plot_cost,
                self.stat == old(self).stat,
                self.block28 == old(self).block28,
                self.gpuread == old(self).gpuread,
            decreases h - row,
        {
            let mut col: u32 = 0;
            while col < w
                invariant
                    self.wf(),
                    !self.plotting,
                    x < 1024,
                    y < 512,
                    w <= 1024,
                    row < h,
                    h < 512,
                    col <= w,
                    skip == self.disp.vram_2m,
                    mc == self.env.mask_check,
                    old_vram.len() == VRAM_W * VRAM_H,
                    forall|i: int|
                        0 <= i < VRAM_W * VRAM_H ==> #[trigger] self.vram@[i] == if fill_done(
                            x as int,
                            y as int,
                            w as int,
                            row as int,
                            col as int,
                            i % 1024,
                            i / 1024,
                            skip,
                        ) && !(mc && old_vram[i] >= 0x8000) {
                            pix
                        } else {
                            old_vram[i]
                        },
                    self.draw_busy == old(self).draw_busy,
                    self.tex_cache == old(self).tex_cache,
                    self.clut_cache == old(self).clut_cache,
                    self.same_crt(&*old(self)),
                    self.same_log(&*old(self)),
                    self.env == old(self).env,
                    self.disp == old(self).disp,
                    self.gp0_cmd == old(self).gp0_cmd,
                    self.gp0_buf@ == old(self).gp0_buf@,
                    self.fifo@ == old(self).fifo@,
                    self.transfer == old(self).transfer,
                    self.plot_cost == old(self).plot_cost,
                    self.stat == old(self).stat,
                    self.block28 == old(self).block28,
                    self.gpuread == old(self).gpuread,
                decreases w - col,
            {
                let ghost before = self.vram@;
                let xx = x + col;
                let yy = y + row;
                let ghost j = vidx(xx as int, yy as int);
                proof {
                    lemma_vidx(xx as int, yy as int);
                    lemma_wrap_offset(x as int, col as int, 1024);
                    lemma_wrap_offset(y as int, row as int, 512);
                }
                self.write_half(xx, yy, pix);
                proof {
                    assert(j % 1024 == (x + col) % 1024);
                    assert(j / 1024 == (y + row) % 512);
                    assert forall|i: int|
                        0 <= i < VRAM_W * VRAM_H implies #[trigger] self.vram@[i] == if fill_done(
                        x as int,
                        y as int,
                        w as int,
                        row as int,
                        col + 1,
                        i % 1024,
                        i / 1024,
                        skip,
                    ) && !(mc && old_vram[i] >= 0x8000) {
                        pix
                    } else {
                        old_vram[i]
                    } by {
                        if i == j {
                            assert(!fill_done(x as int, y as int, w as int, row as int, col as int, i % 1024, i / 1024, skip));
                            assert(before[i] == old_vram[i]);
                        } else {
                            let dr = (i / 1024 - y) % 512;
                            let dc = (i % 1024 - x) % 1024;
                            assert(0 <= i % 1024 < 1024 && 0 <= i / 1024 < 512);
                            if dr == row && dc == col {
                                assert(i == (i / 1024) * 1024 + i % 1024);
                                assert(i % 1024 == (x + col) % 1024) by {
                                    lemma_wrap_offset(x as int, col as int, 1024);
                                }
                                assert(i / 1024 == (y + row) % 512) by {
                                    lemma_wrap_offset(y as int, row as int, 512);
                                }
                            }
                        }
                    }
                }
                col += 1;
            }
            proof {
                assert forall|i: int|
                    0 <= i < VRAM_W * VRAM_H implies #[trigger] self.vram@[i] == if fill_done(
                    x as int,
                    y as int,
                    w as int,
                    row + 1,
                    0,
                    i % 1024,
                    i / 1024,
                    skip,
                ) && !(mc && old_vram[i] >= 0x8000) {
                    pix
                } else {
                    old_vram[i]
                } by {
                    assert(fill_done(x as int, y as int, w as int, row as int, w as int, i % 1024, i / 1024, skip)
                        == fill_done(x as int, y as int, w as int, row + 1, 0, i % 1024, i / 1024, skip));
                }
            }
            row += 1;
        }
        let units_w: u32 = if w / 16 > 1 {
            w / 16
        } else {
            1
        };
        let units_h: u32 = if h > 1 {
            h
        } else {
            1
        };
        assert(units_w * units_h <= 64 * 512) by (nonlinear_arith)
            requires
                units_w <= 64,
                units_h <= 512,
        ;
        self.draw_busy = self.draw_busy.saturating_add(units_w * units_h);
    }
}


impl Gpu {
    /// GP0(80h): copy a rectangle within VRAM, row by row, wrapping at the edges.
    #[verifier::rlimit(100)]
    #[verifier::spinoff_prover]
    fn vram_copy(&mut self, src: u32, dst: u32, wh: u32)
        requires
            old(self).inv(),
        ensures
            final(self).inv(),
            forall|i: int|
                0 <= i < VRAM_W * VRAM_H && #[trigger] final(self).vram@[i] != old(self).vram@[i]
                    ==> in_rect(
                    (dst % 1024) as int,
                    (dst as int / 0x10000) % 512,
                    xfer_w(wh),
                    xfer_h(wh),
                    i % 1024,
                    i / 1024,
                ),
            final(self).draw_busy >= old(self).draw_busy,
            final(self).tex_cache == old(self).tex_cache,
            final(self).clut_cache == old(self).clut_cache,
            final(self).same_crt(&*old(self)),
            final(self).same_log(&*old(self)),
            final(self).env == old(self).env,
            final(self).disp == old(self).disp,
            final(self).gp0_cmd == old(self).gp0_cmd,
            final(self).gp0_buf@ == old(self).gp0_buf@,
            final(self).fifo@ == old(self).fifo@,
            final(self).transfer == old(self).transfer,
            final(self).plotting == old(self).plotting,
            final(self).plot_cost == old(self).plot_cost,
            final(self).stat == old(self).stat,
            final(self).block28 == old(self).block28,
            final(self).gpuread == old(self).gpuread,
            final(self).vram@ == copy_rect(
                old(self).vram@,
                old(self).env.mask_check,
                old(self).disp.vram_2m,
                (src % 1024) as int,
                (src as int / 0x10000) % 512,
                (dst % 1024) as int,
                (dst as int / 0x10000) % 512,
                xfer_w(wh),
                xfer_h(wh),
            ),
    {
        let sx = src & 0x3FF;
        let sy = (src >> 16u32) & 0x1FF;
        let dx = dst & 0x3FF;
        let dy = (dst >> 16u32) & 0x1FF;
        proof {
            lemma_xfer_extent(wh);
        }
        let w = (wh.wrapping_sub(1) & 0x3FF) + 1;
        let h = ((wh >> 16u32).wrapping_sub(1) & 0x1FF) + 1;
        proof {
            lemma_u32_fields(src);
            lemma_u32_fields(src >> 16u32);
            lemma_u32_fields(dst);
            lemma_u32_fields(dst >> 16u32);
        }
        let ghost old_vram = self.vram@;
        let mut y: u32 = 0;
        while y < h
            invariant
                self.inv(),
                sx < 1024,
                sy < 512,
                dx == dst % 1024,
                dy == (dst as int / 0x10000) % 512,
                w == xfer_w(wh),
                h == xfer_h(wh),
                1 <= w <= 1024,
                1 <= h <= 512,
                y <= h,
                old_vram == old(self).vram@,
                sx == src % 1024,
                sy == (src as int / 0x10000) % 512,
                self.vram@ == copy_rect(
                    old_vram,
                    old(self).env.mask_check,
                    old(self).disp.vram_2m,
                    sx as int,
                    sy as int,
                    dx as int,
                    dy as int,
                    w as int,
                    y as int,
                ),
                forall|i: int|
                    0 <= i < VRAM_W * VRAM_H && #[trigger] self.vram@[i] != old_vram[i] ==> in_rect(
                        dx as int,
                        dy as int,
                        w as int,
                        h as int,
                        i % 1024,
                        i / 1024,
                    ),
                self.draw_busy >= old(self).draw_busy,
                self.tex_cache == old(self).tex_cache,
                self.clut_cache == old(self).clut_cache,
                self.same_crt(&*old(self)),
                self.same_log(&*old(self)),
                self.env == old(self).env,
                self.disp == old(self).disp,
                self.gp0_cmd == old(self).gp0_cmd,
                self.gp0_buf@ == old(self).gp0_buf@,
                self.fifo@ == old(self).fifo@,
                self.transfer == old(self).transfer,
                self.plotting == old(self).plotting,
                self.plot_cost == old(self).plot_cost,
                self.stat == old(self).stat,
                self.block28 == old(self).block28,
                self.gpuread == old(self).gpuread,
            decreases h - y,
        {
            let mut x: u32 = 0;
            while x < w
                invariant
                    self.inv(),
                    sx < 1024,
                    sy < 512,
                    dx < 1024,
                    dy < 512,
                    1 <= w <= 1024,
                    1 <= h <= 512,
                    y < h,
                    x <= w,
                    self.vram@ == copy_row(
                        copy_rect(
                            old_vram,
                            old(self).env.mask_check,
                            old(self).disp.vram_2m,
                            sx as int,
                            sy as int,
                            dx as int,
                            dy as int,
                            w as int,
                            y as int,
                        ),
                        old(self).env.mask_check,
                        old(self).disp.vram_2m,
                        sx as int,
                        sy as int,
                        dx as int,
                        dy as int,
                        y as int,
                        x as int,
                    ),
                    forall|i: int|
                        0 <= i < VRAM_W * VRAM_H && #[trigger] self.vram@[i] != old_vram[i]
                            ==> in_rect(dx as int, dy as int, w as int, h as int, i % 1024, i / 1024),
                    self.draw_busy >= old(self).draw_busy,
                    self.tex_cache == old(self).tex_cache,
                    self.clut_cache == old(self).clut_cache,
                    self.same_crt(&*old(self)),
                    self.same_log(&*old(self)),
                    self.env == old(self).env,
                    self.disp == old(self).disp,
                    self.gp0_cmd == old(self).gp0_cmd,
                    self.gp0_buf@ == old(self).gp0_buf@,
                    self.fifo@ == old(self).fifo@,
                    self.transfer == old(self).transfer,
                    self.plotting == old(self).plotting,
                    self.plot_cost == old(self).plot_cost,
                    self.stat == old(self).stat,
                    self.block28 == old(self).block28,
                    self.gpuread == old(self).gpuread,
                decreases w - x,
            {
                let p = self.read_half((sx + x) % 1024, (sy + y) % 512);
                let tx = (dx + x) % 1024;
                let ty = (dy + y) % 512;
                proof {
                    lemma_vidx(tx as int, ty as int);
                    lemma_wrap_offset(dx as int, x as int, 1024);
                    lemma_wrap_offset(dy as int, y as int, 512);
                }
                let ghost row0 = copy_rect(
                    old_vram,
                    old(self).env.mask_check,
                    old(self).disp.vram_2m,
                    sx as int,
                    sy as int,
                    dx as int,
                    dy as int,
                    w as int,
                    y as int,
                );
                let ghost before = self.vram@;
                self.write_half(tx, ty, p);
                proof {
                    assert(p == before[vidx(((sx + x) % 1024) as int, ((sy + y) % 512) as int)]);
                    assert(self.vram@ == copy_row(
                        row0,
                        old(self).env.mask_check,
                        old(self).disp.vram_2m,
                        sx as int,
                        sy as int,
                        dx as int,
                        dy as int,
                        y as int,
                        x + 1,
                    ));
                }
                x += 1;
            }
            y += 1;
        }
    }

    /// GP0(A0h)/GP0(C0h): start a VRAM transfer of the rectangle at `xy`, size `wh`.
    fn begin_transfer(&mut self, to_vram: bool, xy: u32, wh: u32)
        requires
            old(self).wf(),
        ensures
            final(self).wf(),
            final(self).transfer == Some(
                Transfer {
                    x: xy % 1024,
                    y: (xy / 0x10000) % 512,
                    w: xfer_w(wh) as u32,
                    h: xfer_h(wh) as u32,
                    remaining: ((xfer_w(wh) * xfer_h(wh) + 1) / 2) as u32,
                    to_vram,
                    pos: 0,
                },
            ),
            final(self).stat_synced(),
            final(self).same_memory(&*old(self)),
            final(self).same_crt(&*old(self)),
            final(self).same_log(&*old(self)),
            final(self).env == old(self).env,
            final(self).disp == old(self).disp,
            final(self).gp0_cmd == old(self).gp0_cmd,
            final(self).gp0_buf@ == old(self).gp0_buf@,
            final(self).fifo@ == old(self).fifo@,
            final(self).draw_busy == old(self).draw_busy,
            final(self).plotting == old(self).plotting,
            final(self).plot_cost == old(self).plot_cost,
            final(self).gpuread == old(self).gpuread,
    {
        let x = xy & 0x3FF;
        let y = (xy >> 16u32) & 0x1FF;
        proof {
            lemma_xfer_extent(wh);
        }
        let w = (wh.wrapping_sub(1) & 0x3FF) + 1;
        let h = ((wh >> 16u32).wrapping_sub(1) & 0x1FF) + 1;
        proof {
            lemma_u32_fields(xy);
            lemma_u32_fields(xy >> 16u32);
        }
        assert(w * h <= 1024 * 512) by (nonlinear_arith)
            requires
                1 <= w <= 1024,
                1 <= h <= 512,
        ;
        assert(1 <= w * h) by (nonlinear_arith)
            requires
                1 <= w,
                1 <= h,
        ;
        let words = (w * h + 1) / 2;
        self.transfer = Some(Transfer { x, y, w, h, remaining: words, to_vram, pos: 0 });
        self.update_stat();
    }

    /// One GP0 word of a CPU-to-VRAM transfer: its low half, then its high half.
    fn transfer_write(&mut self, word: u32)
        requires
            old(self).wf(),
            old(self).transfer matches Some(t) && t.to_vram,
            !old(self).plotting,
        ensures
            final(self).wf(),
            ({
                let t = old(self).transfer.unwrap();
                let mc = old(self).env.mask_check;
                let m2 = old(self).disp.vram_2m;
                let mid = vram_write(
                    old(self).vram@,
                    mc,
                    m2,
                    t.col(t.pos as int),
                    t.row(t.pos as int),
                    lo16(word),
                );
                &&& final(self).vram@ == vram_write(
                    mid,
                    mc,
                    m2,
                    t.col(t.pos + 1),
                    t.row(t.pos + 1),
                    hi16(word),
                )
                &&& if t.remaining == 1 {
                    &&& final(self).transfer is None
                    &&& forall|x: int, y: int|
                        TexCache::in_range(x, y) ==> #[trigger] final(self).tex_cache.entry(x, y)
                            is None
                    &&& final(self).stat_synced()
                } else {
                    &&& final(self).transfer == Some(
                        Transfer { pos: (t.pos + 2) as u32, remaining: (t.remaining - 1) as u32, ..t },
                    )
                    &&& final(self).tex_cache == old(self).tex_cache
                    &&& final(self).stat == old(self).stat
                    &&& final(self).block28 == old(self).block28
                }
            }),
            final(self).clut_cache == old(self).clut_cache,
            final(self).same_crt(&*old(self)),
            final(self).same_log(&*old(self)),
            final(self).env == old(self).env,
            final(self).disp == old(self).disp,
            final(self).gp0_cmd == old(self).gp0_cmd,
            final(self).gp0_buf@ == old(self).gp0_buf@,
            final(self).fifo@ == old(self).fifo@,
            final(self).draw_busy == old(self).draw_busy,
            final(self).plotting == old(self).plotting,
            final(self).plot_cost == old(self).plot_cost,
            final(self).gpuread == old(self).gpuread,
    {
        let t = self.transfer.unwrap();
        proof {
            lemma_transfer_pos(t, t.pos as int);
            lemma_transfer_pos(t, t.pos + 1);
        }
        let x0 = t.x + t.pos % t.w;
        let y0 = t.y + t.pos / t.w;
        let x1 = t.x + (t.pos + 1) % t.w;
        let y1 = t.y + (t.pos + 1) / t.w;
        self.write_half(x0, y0, (word & 0xFFFF) as u16);
        self.write_half(x1, y1, (word >> 16u32) as u16);
        proof {
            lemma_halves(word);
        }
        if t.remaining == 1 {
            self.tex_cache.clear();
            self.transfer = None;
            self.update_stat();
        } else {
            self.transfer = Some(Transfer { pos: t.pos + 2, remaining: t.remaining - 1, ..t });
        }
    }

    /// GPUREAD: the next word of a VRAM-to-CPU transfer, else the latched register.
    pub fn read_gpuread(&mut self) -> (v: u32)
        requires
            old(self).wf(),
        ensures
            final(self).wf(),
            old(self).ready_vram_read() ==> {
                let t = old(self).transfer.unwrap();
                &&& v == old(self).read_half_spec(t.col(t.pos as int), t.row(t.pos as int))
                    + old(self).read_half_spec(t.col(t.pos + 1), t.row(t.pos + 1)) * 0x10000
                &&& final(self).transfer == if t.remaining == 1 {
                    None
                } else {
                    Some(
                        Transfer {
                            pos: (t.pos + 2) as u32,
                            remaining: (t.remaining - 1) as u32,
                            ..t
                        },
                    )
                }
                &&& final(self).stat_synced()
            },
            !old(self).ready_vram_read() ==> {
                &&& v == old(self).gpuread
                &&& final(self).transfer == old(self).transfer
                &&& final(self).stat == old(self).stat
                &&& final(self).block28 == old(self).block28
            },
            final(self).same_memory(&*old(self)),
            final(self).same_crt(&*old(self)),
            final(self).same_log(&*old(self)),
            final(self).env == old(self).env,
            final(self).disp == old(self).disp,
            final(self).gp0_cmd == old(self).gp0_cmd,
            final(self).gp0_buf@ == old(self).gp0_buf@,
            final(self).fifo@ == old(self).fifo@,
            final(self).draw_busy == old(self).draw_busy,
            final(self).plotting == old(self).plotting,
            final(self).plot_cost == old(self).plot_cost,
            final(self).gpuread == old(self).gpuread,
    {
        if self.transfer.is_none() {
            return self.gpuread;
        }
        let t = self.transfer.unwrap();
        if t.to_vram {
            return self.gpuread;
        }
        proof {
            lemma_transfer_pos(t, t.pos as int);
            lemma_transfer_pos(t, t.pos + 1);
        }
        let lo = self.read_half(t.x + t.pos % t.w, t.y + t.pos / t.w);
        let hi = self.read_half(t.x + (t.pos + 1) % t.w, t.y + (t.pos + 1) / t.w);
        if t.remaining == 1 {
            self.transfer = None;
        } else {
            self.transfer = Some(Transfer { pos: t.pos + 2, remaining: t.remaining - 1, ..t });
        }
        self.update_stat();
        lo as u32 + (hi as u32) * 0x10000
    }

    /// DMA channel 2 reading from the GPU: the same as a GPUREAD load.
    pub fn dma_read(&mut self) -> (v: u32)
        requires
            old(self).wf(),
        ensures
            final(self).wf(),
            old(self).ready_vram_read() ==> {
                let t = old(self).transfer.unwrap();
                &&& v == old(self).read_half_spec(t.col(t.pos as int), t.row(t.pos as int))
                    + old(self).read_half_spec(t.col(t.pos + 1), t.row(t.pos + 1)) * 0x10000
                &&& final(self).stat_synced()
            },
            !old(self).ready_vram_read() ==> v == old(self).gpuread && final(self).transfer
                == old(self).transfer,
            final(self).same_memory(&*old(self)),
            final(self).env == old(self).env,
            final(self).disp == old(self).disp,
    {
        self.read_gpuread()
    }
}

proof fn lemma_wrap_dec(v: u32)
    by (bit_vector)
    ensures
        v % 1024 == 0 ==> v.wrapping_sub(1) & 0x3FF == 1023,
        v % 1024 != 0 ==> v.wrapping_sub(1) & 0x3FF == (v - 1) % 1024,
        v % 512 == 0 ==> v.wrapping_sub(1) & 0x1FF == 511,
        v % 512 != 0 ==> v.wrapping_sub(1) & 0x1FF == (v - 1) % 512,
        (v >> 16u32) == v / 0x10000,
{
}

proof fn lemma_xfer_extent(wh: u32)
    ensures
        (wh.wrapping_sub(1) & 0x3FF) + 1 == xfer_w(wh),
        ((wh >> 16u32).wrapping_sub(1) & 0x1FF) + 1 == xfer_h(wh),
        1 <= xfer_w(wh) <= 1024,
        1 <= xfer_h(wh) <= 512,
{
    lemma_wrap_dec(wh);
    let hi = wh >> 16u32;
    lemma_wrap_dec(hi);
    if wh % 1024 == 0 {
        assert((wh as int - 1) % 1024 == 1023);
    }
    if hi % 512 == 0 {
        assert((hi as int - 1) % 512 == 511);
    }
}

proof fn lemma_transfer_pos(t: Transfer, pos: int)
    requires
        t.wf(),
        0 <= pos <= t.pos + 1,
    ensures
        0 <= t.col(pos) < 2048,
        0 <= t.row(pos) < 2048,
        pos % (t.w as int) < t.w,
        t.pos + 2 <= 1024 * 512 + 1,
{
    assert(pos / (t.w as int) <= pos) by (nonlinear_arith)
        requires
            t.w >= 1,
            pos >= 0,
    ;
    assert(t.w * t.h <= 1024 * 512) by (nonlinear_arith)
        requires
            1 <= t.w <= 1024,
            1 <= t.h <= 512,
    ;
    assert(pos / (t.w as int) <= t.h + 1) by (nonlinear_arith)
        requires
            t.w >= 1,
            pos >= 0,
            pos <= t.w * t.h + 1,
    ;
}


impl Gpu {
    fn cached_half(&mut self, x: u32, y: u32) -> (h: u16)
        requires
            old(self).inv(),
            TexCache::in_range(x as int, y as int),
        ensures
            final(self).inv(),
            h == old(self).cached_spec(x as int, y as int),
            final(self).tex_cache.entry(x as int, y as int) == Some(h),
            forall|x2: int, y2: int|
                TexCache::in_range(x2, y2) && (x2 != x || y2 != y) ==> final(self).tex_cache.entry(
                    x2,
                    y2,
                ) == old(self).tex_cache.entry(x2, y2),
            final(self).vram@ == old(self).vram@,
            final(self).clut_cache == old(self).clut_cache,
            final(self).same_crt(&*old(self)),
            final(self).same_queue(&*old(self)),
            final(self).same_log(&*old(self)),
            final(self).env == old(self).env,
            final(self).disp == old(self).disp,
            final(self).stat == old(self).stat,
            final(self).block28 == old(self).block28,
            final(self).gpuread == old(self).gpuread,
    {
        match self.tex_cache.get(x, y) {
            Some(c) => c,
            None => {
                let p = self.read_half(x, y);
                self.tex_cache.insert(x, y, p);
                p
            },
        }
    }

    fn cached_clut(&mut self, index: u32) -> (c: u16)
        requires
            old(self).inv(),
            index < 256,
        ensures
            final(self).inv(),
            c == old(self).clut_spec((index % 16) as int),
            final(self).vram@ == old(self).vram@,
            final(self).tex_cache == old(self).tex_cache,
            final(self).same_crt(&*old(self)),
            final(self).same_queue(&*old(self)),
            final(self).same_log(&*old(self)),
            final(self).env == old(self).env,
            final(self).disp == old(self).disp,
            final(self).stat == old(self).stat,
            final(self).block28 == old(self).block28,
            final(self).gpuread == old(self).gpuread,
            final(self).clut_cache matches Some((cx, cy, pal)) && cx == old(self).env.clut_x && cy
                == old(self).env.clut_y && forall|i: int|
                0 <= i < 16 ==> #[trigger] pal@[i] == old(self).clut_spec(i),
    {
        let kx = self.env.clut_x;
        let ky = self.env.clut_y;
        match self.clut_cache {
            Some((cx, cy, pal)) => {
                if cx == kx && cy == ky {
                    return pal[(index % 16) as usize];
                }
            },
            None => {},
        }
        let mut pal = [0u16; 16];
        let mut i: u32 = 0;
        while i < 16
            invariant
                self.inv(),
                i <= 16,
                kx == self.env.clut_x,
                ky == self.env.clut_y,
                kx < 1024,
                ky < 512,
                self.clut_cache == old(self).clut_cache,
                self.vram@ == old(self).vram@,
                self.disp == old(self).disp,
                forall|j: int| 0 <= j < i ==> #[trigger] pal@[j] == old(self).read_half_spec(kx + j, ky as int),
            decreases 16 - i,
        {
            pal[i as usize] = self.read_half(kx + i, ky);
            i += 1;
        }
        let v = pal[(index % 16) as usize];
        self.clut_cache = Some((kx, ky, pal));
        v
    }

    /// Sample the current texture page at (u, v).
    fn sample_tex(&mut self, u: u8, v: u8) -> (t: u16)
        requires
            old(self).inv(),
        ensures
            final(self).inv(),
            t == old(self).sample_spec(u, v),
            final(self).vram@ == old(self).vram@,
            final(self).same_crt(&*old(self)),
            final(self).same_queue(&*old(self)),
            final(self).same_log(&*old(self)),
            final(self).env == old(self).env,
            final(self).disp == old(self).disp,
            final(self).stat == old(self).stat,
            final(self).block28 == old(self).block28,
            final(self).gpuread == old(self).gpuread,
    {
        let page = self.env.tex_page;
        let tx = (page % 16) * 64;
        let ty = ((page / 16) % 2) * 256;
        let mode = (page / 128) % 4;
        let mx = self.env.win_mask_x;
        let my = self.env.win_mask_y;
        let ox = self.env.win_off_x;
        let oy = self.env.win_off_y;
        let uu = ((u as u32) & (!(mx << 3u32) & 0xFF)) | (((ox & mx) << 3u32) & 0xFF);
        let vv = ((v as u32) & (!(my << 3u32) & 0xFF)) | (((oy & my) << 3u32) & 0xFF);
        proof {
            lemma_window(u as u32, mx, ox);
            lemma_window(v as u32, my, oy);
        }
        if mode == 0 {
            let t = self.cached_half(tx + uu / 4, ty + vv);
            let sh = (uu % 4) * 4;
            let idx = (t >> (sh as u16)) & 0xF;
            proof {
                let k = uu % 4;
                assert(k == 0 ==> sh == 0);
                assert(k == 1 ==> sh == 4);
                assert(k == 2 ==> sh == 8);
                assert(k == 3 ==> sh == 12);
                assert(idx == (t as int / pow2_4(k as int)) % 16) by {
                    lemma_u16_fields(t);
                    lemma_u16_fields(t >> 4u16);
                    lemma_u16_fields(t >> 8u16);
                    lemma_u16_fields(t >> 12u16);
                }
            }
            let r = self.cached_clut(idx as u32);
            r
        } else if mode == 1 {
            let t = self.cached_half(tx + uu / 2, ty + vv);
            let idx = if uu % 2 == 1 {
                (t >> 8u16) & 0xFF
            } else {
                t & 0xFF
            };
            assert(idx == (t as int / (if uu % 2 == 1 { 256int } else { 1 })) % 256) by {
                lemma_u16_fields(t);
                lemma_u16_fields(t >> 8u16);
            }
            self.cached_clut(idx as u32)
        } else {
            self.read_half(tx + uu, ty + vv)
        }
    }
}


proof fn lemma_interp_range(w0: int, w1: int, w2: int, a: int, b: int, c: int)
    requires
        (w0 >= 0 && w1 >= 0 && w2 >= 0) || (w0 <= 0 && w1 <= 0 && w2 <= 0),
        w0 + w1 + w2 != 0,
        0 <= a <= 255,
        0 <= b <= 255,
        0 <= c <= 255,
    ensures
        0 <= crate::raster::interp_spec(w0, w1, w2, a, b, c, w0 + w1 + w2) <= 255,
{
    let n = w0 * a + w1 * b + w2 * c;
    let s = w0 + w1 + w2;
    if w0 >= 0 && w1 >= 0 && w2 >= 0 {
        assert(0 <= n <= 255 * s) by (nonlinear_arith)
            requires
                w0 >= 0,
                w1 >= 0,
                w2 >= 0,
                0 <= a <= 255,
                0 <= b <= 255,
                0 <= c <= 255,
                n == w0 * a + w1 * b + w2 * c,
                s == w0 + w1 + w2,
        ;
        assert(n / s <= 255) by (nonlinear_arith)
            requires
                0 <= n <= 255 * s,
                s > 0,
        ;
    } else {
        assert(255 * s <= n <= 0) by (nonlinear_arith)
            requires
                w0 <= 0,
                w1 <= 0,
                w2 <= 0,
                0 <= a <= 255,
                0 <= b <= 255,
                0 <= c <= 255,
                n == w0 * a + w1 * b + w2 * c,
                s == w0 + w1 + w2,
        ;
        assert((-n) / (-s) <= 255) by (nonlinear_arith)
            requires
                0 <= -n <= 255 * (-s),
                -s > 0,
        ;
    }
}

impl Gpu {
    /// A GP0 vertex word: signed 11-bit X and Y plus the drawing offset, wrapped to 11 bits.
    pub open spec fn vertex_spec(&self, word: u32) -> (int, int) {
        (
            crate::raster::wrap11(signed11((word % 2048) as int) + self.env.off_x),
            crate::raster::wrap11(signed11(((word / 0x10000) % 2048) as int) + self.env.off_y),
        )
    }

    fn vertex_xy(&self, word: u32) -> (r: (i32, i32))
        requires
            self.env.wf(),
        ensures
            r.0 == self.vertex_spec(word).0,
            r.1 == self.vertex_spec(word).1,
            -1024 <= r.0 <= 1023,
            -1024 <= r.1 <= 1023,
    {
        proof {
            lemma_u32_fields(word);
            lemma_u32_fields(word >> 16u32);
        }
        let x = crate::raster::trunc11(crate::raster::sign11(word & 0x7FF) + self.env.off_x);
        let y = crate::raster::trunc11(
            crate::raster::sign11((word >> 16u32) & 0x7FF) + self.env.off_y,
        );
        (x, y)
    }

    fn plot(&mut self, x: i32, y: i32, color: u16, textured: bool, semi: bool)
        requires
            old(self).inv(),
        ensures
            final(self).inv(),
            final(self).vram@ == if old(self).plot_draws(x as int, y as int, color, textured) {
                vram_write(
                    old(self).vram@,
                    old(self).env.mask_check,
                    old(self).disp.vram_2m,
                    x as int,
                    y as int,
                    old(self).plot_color(x as int, y as int, color, textured, semi),
                )
            } else {
                old(self).vram@
            },
            final(self).draw_busy >= old(self).draw_busy,
            final(self).tex_cache == old(self).tex_cache,
            final(self).clut_cache == old(self).clut_cache,
            final(self).same_crt(&*old(self)),
            final(self).same_log(&*old(self)),
            final(self).env == old(self).env,
            final(self).disp == old(self).disp,
            final(self).gp0_cmd == old(self).gp0_cmd,
            final(self).gp0_buf@ == old(self).gp0_buf@,
            final(self).fifo@ == old(self).fifo@,
            final(self).transfer == old(self).transfer,
            final(self).plotting == old(self).plotting,
            final(self).plot_cost == old(self).plot_cost,
            final(self).stat == old(self).stat,
            final(self).block28 == old(self).block28,
            final(self).gpuread == old(self).gpuread,
    {
        if x < self.env.draw_x1 || x > self.env.draw_x2 || y < self.env.draw_y1 || y
            > self.env.draw_y2 {
            return;
        }
        proof {
            lemma_u16_fields(color);
        }
        if textured && color & 0x7FFF == 0 {
            return;
        }
        let do_semi = semi && (!textured || color & 0x8000 != 0);

        let mut c = color & 0x7FFF;
        if do_semi {
            let dst = self.read_half(x as u32, y as u32);
            let tp = self.env.tex_page;
            proof {
                lemma_u32_fields(tp);
                lemma_u32_fields(tp >> 5u32);
            }
            c = crate::raster::blend_semi(dst, c, (tp >> 5u32) & 3);
        }
        if self.env.mask_set {
            c = c + 0x8000;
        }
        self.write_half(x as u32, y as u32, c);
    }
}


impl Gpu {
    /// The vram-and-busy part of every drawing step's frame: everything but VRAM,
    /// the texture caches, the draw time and the latched texture page is untouched.
    pub open spec fn raster_frame(&self, old: &Gpu) -> bool {
        &&& self.draw_busy >= old.draw_busy
        &&& self.same_crt(old)
        &&& self.same_log(old)
        &&& self.env == old.env
        &&& self.disp == old.disp
        &&& self.gp0_cmd == old.gp0_cmd
        &&& self.gp0_buf@ == old.gp0_buf@
        &&& self.fifo@ == old.fifo@
        &&& self.transfer == old.transfer
        &&& self.plotting == old.plotting
        &&& self.plot_cost == old.plot_cost
        &&& self.stat == old.stat
        &&& self.block28 == old.block28
        &&& self.gpuread == old.gpuread
    }

    /// One more pixel of a flat triangle row: pixel (x, y) takes the value plotting it
    /// over the old VRAM gives, where the triangle draws it; every other pixel stays.
    proof fn lemma_tri_step(
        o: Gpu,
        cur: Gpu,
        n: Gpu,
        a: Vertex,
        b: Vertex,
        c: Vertex,
        x: int,
        y: int,
        blend: bool,
        semi: bool,
        dither: bool,
    )
        requires
            0 <= x < 1024,
            0 <= y < 512,
            o.vram@.len() == VRAM_W * VRAM_H,
            cur.vram@.len() == VRAM_W * VRAM_H,
            cur.env == o.env,
            cur.disp == o.disp,
            n.vram@ == if tri_drawn(o.env, a, b, c, x, y) {
                cur.plotted(x, y, cur.tri_color(a, b, c, x, y, false, blend, dither), false, semi)
            } else {
                cur.vram@
            },
            forall|i: int|
                0 <= i < VRAM_W * VRAM_H ==> #[trigger] cur.vram@[i] == if tri_drawn(o.env, a, b, c, i % 1024, i / 1024)
                    && (i / 1024 < y || (i / 1024 == y && i % 1024 < x)) {
                    o.plotted(i % 1024, i / 1024, o.tri_color(a, b, c, i % 1024, i / 1024, false, blend, dither), false, semi)[i]
                } else {
                    o.vram@[i]
                },
        ensures
            forall|i: int|
                0 <= i < VRAM_W * VRAM_H ==> #[trigger] n.vram@[i] == if tri_drawn(o.env, a, b, c, i % 1024, i / 1024)
                    && (i / 1024 < y || (i / 1024 == y && i % 1024 < x + 1)) {
                    o.plotted(i % 1024, i / 1024, o.tri_color(a, b, c, i % 1024, i / 1024, false, blend, dither), false, semi)[i]
                } else {
                    o.vram@[i]
                },
    {
        reveal(Gpu::plotted);
        reveal(Gpu::tri_color);
        lemma_vidx(x, y);
        let q = vidx(x, y);
        assert(q == y * 1024 + x);
        assert forall|i: int| 0 <= i < VRAM_W * VRAM_H implies #[trigger] n.vram@[i] == if tri_drawn(o.env, a, b, c, i % 1024, i / 1024)
            && (i / 1024 < y || (i / 1024 == y && i % 1024 < x + 1)) {
            o.plotted(i % 1024, i / 1024, o.tri_color(a, b, c, i % 1024, i / 1024, false, blend, dither), false, semi)[i]
        } else {
            o.vram@[i]
        } by {
            if i == q {
                assert(cur.vram@[q] == o.vram@[q]);
            } else {
                assert(i % 1024 != x || i / 1024 != y) by {
                    vstd::arithmetic::div_mod::lemma_fundamental_div_mod(i, 1024);
                }
                assert(n.vram@[i] == cur.vram@[i]);
            }
        }
    }

    /// Rasterize one triangle: every pixel centre inside or on an edge, up to but
    /// excluding the greatest vertex x and y, within the drawing area.
    #[verifier::rlimit(60)]
    #[verifier::spinoff_prover]
    fn tri(
        &mut self,
        a: Vertex,
        b: Vertex,
        c: Vertex,
        textured: bool,
        blend: bool,
        semi: bool,
        dither: bool,
    )
        requires
            old(self).inv(),
            vertex_ok(a),
            vertex_ok(b),
            vertex_ok(c),
        ensures
            final(self).inv(),
            final(self).raster_frame(&*old(self)),
            forall|i: int|
                0 <= i < VRAM_W * VRAM_H && #[trigger] final(self).vram@[i] != old(self).vram@[i]
                    ==> old(self).env.in_area(i % 1024, i / 1024) && in_tri_box(
                    a,
                    b,
                    c,
                    i % 1024,
                    i / 1024,
                ),
            !textured ==> forall|i: int|
                0 <= i < VRAM_W * VRAM_H ==> #[trigger] final(self).vram@[i] == if tri_drawn(old(self).env, a, b, c, i % 1024, i / 1024) {
                    old(self).plotted(i % 1024, i / 1024, old(self).tri_color(a, b, c, i % 1024, i / 1024, false, blend, dither), false, semi)[i]
                } else {
                    old(self).vram@[i]
                },
    {
        let ghost old_vram = self.vram@;
        let lo_x = if a.0 <= b.0 && a.0 <= c.0 { a.0 } else if b.0 <= c.0 { b.0 } else { c.0 };
        let hi_x = if a.0 >= b.0 && a.0 >= c.0 { a.0 } else if b.0 >= c.0 { b.0 } else { c.0 };
        let lo_y = if a.1 <= b.1 && a.1 <= c.1 { a.1 } else if b.1 <= c.1 { b.1 } else { c.1 };
        let hi_y = if a.1 >= b.1 && a.1 >= c.1 { a.1 } else if b.1 >= c.1 { b.1 } else { c.1 };
        let minx = if lo_x > self.env.draw_x1 { lo_x } else { self.env.draw_x1 };
        let maxx = if hi_x < self.env.draw_x2 { hi_x } else { self.env.draw_x2 };
        let miny = if lo_y > self.env.draw_y1 { lo_y } else { self.env.draw_y1 };
        let maxy = if hi_y < self.env.draw_y2 { hi_y } else { self.env.draw_y2 };
        let area = crate::raster::orient(a.0, a.1, b.0, b.1, c.0, c.1);
        if area == 0 {
            return;
        }
        // Polygons spanning more than 1023 x or 511 y between vertices are not rendered.
        if hi_x - lo_x > 1023 || hi_y - lo_y > 511 {
            return;
        }
        let mut y = miny;
        while y <= maxy
            invariant
                self.inv(),
                self.raster_frame(&*old(self)),
                old_vram == old(self).vram@,
                vertex_ok(a),
                vertex_ok(b),
                vertex_ok(c),
                lo_x == min3(a.0 as int, b.0 as int, c.0 as int),
                hi_x == max3(a.0 as int, b.0 as int, c.0 as int),
                lo_y == min3(a.1 as int, b.1 as int, c.1 as int),
                hi_y == max3(a.1 as int, b.1 as int, c.1 as int),
                minx >= lo_x,
                minx >= self.env.draw_x1,
                maxx <= self.env.draw_x2,
                maxy <= self.env.draw_y2,
                y >= lo_y,
                y >= self.env.draw_y1,
                maxy <= 511,
                area != 0,
                forall|i: int|
                    0 <= i < VRAM_W * VRAM_H && #[trigger] self.vram@[i] != old_vram[i]
                        ==> self.env.in_area(i % 1024, i / 1024) && in_tri_box(a, b, c, i % 1024, i / 1024),
                area == crate::raster::orient_spec(a.0 as int, a.1 as int, b.0 as int, b.1 as int, c.0 as int, c.1 as int),
                hi_x - lo_x <= 1023,
                hi_y - lo_y <= 511,
                old_vram.len() == VRAM_W * VRAM_H,
                maxx == (if hi_x < self.env.draw_x2 { hi_x } else { self.env.draw_x2 }),
                maxy == (if hi_y < self.env.draw_y2 { hi_y } else { self.env.draw_y2 }),
                minx == (if lo_x > self.env.draw_x1 { lo_x } else { self.env.draw_x1 }),
                !textured ==> forall|i: int|
                    0 <= i < VRAM_W * VRAM_H ==> #[trigger] self.vram@[i] == if tri_drawn(old(self).env, a, b, c, i % 1024, i / 1024)
                        && i / 1024 < y {
                        old(self).plotted(i % 1024, i / 1024, old(self).tri_color(a, b, c, i % 1024, i / 1024, false, blend, dither), false, semi)[i]
                    } else {
                        old_vram[i]
                    },
            decreases maxy + 1 - y,
        {
            if y < hi_y {
                let mut x = minx;
                while x <= maxx
                    invariant
                        self.inv(),
                        self.raster_frame(&*old(self)),
                        old_vram == old(self).vram@,
                        vertex_ok(a),
                        vertex_ok(b),
                        vertex_ok(c),
                        lo_x == min3(a.0 as int, b.0 as int, c.0 as int),
                        hi_x == max3(a.0 as int, b.0 as int, c.0 as int),
                        lo_y == min3(a.1 as int, b.1 as int, c.1 as int),
                        hi_y == max3(a.1 as int, b.1 as int, c.1 as int),
                        x >= lo_x,
                        x >= self.env.draw_x1,
                        maxx <= self.env.draw_x2,
                        maxx <= 1023,
                        lo_y <= y < hi_y,
                        self.env.draw_y1 <= y <= self.env.draw_y2,
                        area != 0,
                        forall|i: int|
                            0 <= i < VRAM_W * VRAM_H && #[trigger] self.vram@[i] != old_vram[i]
                                ==> self.env.in_area(i % 1024, i / 1024) && in_tri_box(a, b, c, i % 1024, i / 1024),
                        area == crate::raster::orient_spec(a.0 as int, a.1 as int, b.0 as int, b.1 as int, c.0 as int, c.1 as int),
                        hi_x - lo_x <= 1023,
                        hi_y - lo_y <= 511,
                        old_vram.len() == VRAM_W * VRAM_H,
                        maxx == (if hi_x < self.env.draw_x2 { hi_x } else { self.env.draw_x2 }),
                        !textured ==> forall|i: int|
                            0 <= i < VRAM_W * VRAM_H ==> #[trigger] self.vram@[i] == if tri_drawn(old(self).env, a, b, c, i % 1024, i / 1024)
                                && (i / 1024 < y || (i / 1024 == y && i % 1024 < x)) {
                                old(self).plotted(i % 1024, i / 1024, old(self).tri_color(a, b, c, i % 1024, i / 1024, false, blend, dither), false, semi)[i]
                            } else {
                                old_vram[i]
                            },
                    decreases maxx + 1 - x,
                {
                    let ghost cur = *self;
                    if x < hi_x {
                        self.tri_pixel(a, b, c, x, y, area, textured, blend, semi, dither);
                    }
                    proof {
                        if !textured {
                            Gpu::lemma_tri_step(*old(self), cur, *self, a, b, c, x as int, y as int, blend, semi, dither);
                        }
                    }
                    x += 1;
                }
            }
            y += 1;
        }
    }

    /// One pixel of `tri`: the edge test, then colour, texture and plot.
    #[verifier::rlimit(60)]
    fn tri_pixel(
        &mut self,
        a: Vertex,
        b: Vertex,
        c: Vertex,
        x: i32,
        y: i32,
        area: i32,
        textured: bool,
        blend: bool,
        semi: bool,
        dither: bool,
    )
        requires
            old(self).inv(),
            vertex_ok(a),
            vertex_ok(b),
            vertex_ok(c),
            area != 0,
            old(self).env.in_area(x as int, y as int),
            in_tri_box(a, b, c, x as int, y as int),
        ensures
            final(self).inv(),
            final(self).raster_frame(&*old(self)),
            forall|i: int|
                0 <= i < VRAM_W * VRAM_H && #[trigger] final(self).vram@[i] != old(self).vram@[i]
                    ==> i == vidx(x as int, y as int),
            !tri_covers(a, b, c, x as int, y as int, area as int) ==> final(self).vram@ == old(
                self,
            ).vram@,
            tri_covers(a, b, c, x as int, y as int, area as int) ==> final(self).vram@ == old(
                self,
            ).plotted(
                x as int,
                y as int,
                old(self).tri_color(a, b, c, x as int, y as int, textured, blend, dither),
                textured,
                semi,
            ),
    {
        let w0 = crate::raster::orient(b.0, b.1, c.0, c.1, x, y);
        let w1 = crate::raster::orient(c.0, c.1, a.0, a.1, x, y);
        let w2 = crate::raster::orient(a.0, a.1, b.0, b.1, x, y);
        // A pixel on an edge (weight 0) is inside, whatever the winding.
        proof {
            reveal(tri_covers);
        }
        if (w0 != 0 && (w0 < 0) != (area < 0)) || (w1 != 0 && (w1 < 0) != (area < 0)) || (w2 != 0
            && (w2 < 0) != (area < 0)) {
            return;
        }
        let sum = w0 + w1 + w2;
        if sum == 0 {
            return;
        }
        proof {
            lemma_interp_range(w0 as int, w1 as int, w2 as int, (a.2 % 256) as int, (b.2 % 256) as int, (c.2 % 256) as int);
            lemma_interp_range(w0 as int, w1 as int, w2 as int, ((a.2 / 256) % 256) as int, ((b.2 / 256) % 256) as int, ((c.2 / 256) % 256) as int);
            lemma_interp_range(w0 as int, w1 as int, w2 as int, ((a.2 / 65536) % 256) as int, ((b.2 / 65536) % 256) as int, ((c.2 / 65536) % 256) as int);
            lemma_interp_range(w0 as int, w1 as int, w2 as int, a.3 as int, b.3 as int, c.3 as int);
            lemma_interp_range(w0 as int, w1 as int, w2 as int, a.4 as int, b.4 as int, c.4 as int);
            let (ca, cb, cc) = (a.2, b.2, c.2);
            lemma_rgb24(ca);
            lemma_rgb24(cb);
            lemma_rgb24(cc);
        }
        let vr = crate::raster::interp(w0, w1, w2, a.2 & 0xFF, b.2 & 0xFF, c.2 & 0xFF, sum) as u32;
        let vg = crate::raster::interp(
            w0,
            w1,
            w2,
            (a.2 >> 8u32) & 0xFF,
            (b.2 >> 8u32) & 0xFF,
            (c.2 >> 8u32) & 0xFF,
            sum,
        ) as u32;
        let vb = crate::raster::interp(
            w0,
            w1,
            w2,
            (a.2 >> 16u32) & 0xFF,
            (b.2 >> 16u32) & 0xFF,
            (c.2 >> 16u32) & 0xFF,
            sum,
        ) as u32;
        let color = if textured {
            let u = crate::raster::interp(w0, w1, w2, a.3 as u32, b.3 as u32, c.3 as u32, sum);
            let v = crate::raster::interp(w0, w1, w2, a.4 as u32, b.4 as u32, c.4 as u32, sum);
            let tex = self.sample_tex(u as u8, v as u8);
            if blend {
                crate::raster::blend_texel_dither(tex, vr, vg, vb, x, y, dither)
            } else {
                tex
            }
        } else {
            crate::raster::rgb888_to_555_dither(vr, vg, vb, x, y, dither)
        };
        proof {
            reveal(tri_interp);
            reveal(Gpu::tri_color);
            assert(color == old(self).tri_color(a, b, c, x as int, y as int, textured, blend, dither));
        }
        let ghost mid = self.vram@;
        self.plot(x, y, color, textured, semi);
        proof {
            lemma_vidx(x as int, y as int);
            reveal(Gpu::plotted);
        }
    }
}


/// How far right of column `x` VRAM index `i` lies, wrapping at the edge.
pub open spec fn wrap_dx(x: int, i: int) -> int {
    (i % 1024 - x) % 1024
}

/// How far below row `y` VRAM index `i` lies, wrapping at the edge.
pub open spec fn wrap_dy(y: int, i: int) -> int {
    (i / 1024 - y) % 512
}

/// The (width, height) of a GP0(60h..7Fh) rectangle: 1, 8 or 16 square by the size
/// bits, else the size word after the position (and texture) words.
pub open spec fn rect_size(buf: Seq<u32>) -> (int, int) {
    let cmd = buf[0];
    let size = (cmd >> 27u32) & 3;
    if size == 1 {
        (1, 1)
    } else if size == 2 {
        (8, 8)
    } else if size == 3 {
        (16, 16)
    } else {
        let wh = buf[if cmd & 0x0400_0000 != 0 { 3int } else { 2 }];
        ((wh & 0x3FF) as int, ((wh >> 16u32) & 0x1FF) as int)
    }
}

/// The 15-bit colour of a flat GP0 command word.
pub open spec fn cmd_pixel(cmd: u32) -> u16 {
    let color = cmd & 0xFF_FFFF;
    crate::raster::rgb555_spec(
        (color & 0xFF) as int,
        ((color >> 8u32) & 0xFF) as int,
        ((color >> 16u32) & 0xFF) as int,
        0,
    ) as u16
}

/// The halfword a line plots with colour `pix`: no blending, the mask bit on request.
pub open spec fn line_color(env: DrawEnv, pix: u16) -> u16 {
    if env.mask_set {
        ((pix % 0x8000) + 0x8000) as u16
    } else {
        (pix % 0x8000) as u16
    }
}

/// A segment from (x0, y0) to (x1, y1) draws its first end when the segment is short
/// enough to draw, the end is in the drawing area, and the write lands there.
pub open spec fn line_start_drawn(g: Gpu, x0: int, y0: int, x1: int, y1: int) -> bool {
    &&& (if x0 > x1 { x0 - x1 } else { x1 - x0 }) <= 1023
    &&& (if y0 > y1 { y0 - y1 } else { y1 - y0 }) <= 511
    &&& g.env.in_area(x0, y0)
    &&& !(g.disp.vram_2m && y0 >= 512)
    &&& !(g.env.mask_check && g.vram@[vidx(x0, y0)] >= 0x8000)
}

/// The fields of a line's halfword are those of its colour.
proof fn lemma_line_color_fields(env: DrawEnv, pix: u16)
    requires
        pix < 0x8000,
    ensures
        line_color(env, pix) % 32 == pix % 32,
        (line_color(env, pix) / 32) % 32 == (pix / 32) % 32,
        (line_color(env, pix) / 1024) % 32 == pix / 1024,
        (line_color(env, pix) >= 0x8000) == env.mask_set,
{
}

/// What GP0(40h..5Fh) leaves, from `o` to `n`: every pixel it changes holds the line
/// colour of the command word's colour, and the first vertex is drawn when the first
/// segment is drawn at all.
#[verifier::opaque]
pub open spec fn line_done(o: Gpu, n: Gpu) -> bool {
    let buf = o.gp0_buf@;
    let lc = line_color(o.env, cmd_pixel(buf[0]));
    let p0 = o.vertex_spec(buf[1]);
    let p1 = o.vertex_spec(buf[2]);
    &&& forall|i: int|
        0 <= i < VRAM_W * VRAM_H && #[trigger] n.vram@[i] != o.vram@[i] ==> n.vram@[i] == lc
    &&& (buf.len() == 3 || buf[2] & 0xF000_F000 != 0x5000_5000) && line_start_drawn(o, p0.0, p0.1, p1.0, p1.1)
        ==> n.vram@[vidx(p0.0, p0.1)] == lc
}

/// A mono line's pixels carry the command word's colour: red from byte 0, green from
/// byte 1, blue from byte 2, each cut to 5 bits; only the mask bit may be added.
pub proof fn law_mono_line_colour(o: Gpu, n: Gpu)
    requires
        line_done(o, n),
    ensures
        forall|i: int|
            0 <= i < VRAM_W * VRAM_H && #[trigger] n.vram@[i] != o.vram@[i] ==> {
                &&& n.vram@[i] % 32 == (o.gp0_buf@[0] % 256) / 8
                &&& (n.vram@[i] / 32) % 32 == ((o.gp0_buf@[0] / 256) % 256) / 8
                &&& (n.vram@[i] / 1024) % 32 == ((o.gp0_buf@[0] / 0x1_0000) % 256) / 8
                &&& (n.vram@[i] >= 0x8000) == o.env.mask_set
            },
{
    let c = o.gp0_buf@[0];
    lemma_cmd_pixel_fields(c);
    let pix = cmd_pixel(c);
    let lc = line_color(o.env, pix);
    lemma_line_color_fields(o.env, pix);
    reveal(line_done);
    assert forall|i: int|
        0 <= i < VRAM_W * VRAM_H && #[trigger] n.vram@[i] != o.vram@[i] implies {
            &&& n.vram@[i] % 32 == (o.gp0_buf@[0] % 256) / 8
            &&& (n.vram@[i] / 32) % 32 == ((o.gp0_buf@[0] / 256) % 256) / 8
            &&& (n.vram@[i] / 1024) % 32 == ((o.gp0_buf@[0] / 0x1_0000) % 256) / 8
            &&& (n.vram@[i] >= 0x8000) == o.env.mask_set
        } by {
        assert(n.vram@[i] == lc);
    }
}

/// The 15-bit colour of a command word, field by field.
pub proof fn lemma_cmd_pixel_fields(c: u32)
    ensures
        cmd_pixel(c) < 0x8000,
        cmd_pixel(c) % 32 == (c % 256) / 8,
        (cmd_pixel(c) / 32) % 32 == ((c / 256) % 256) / 8,
        cmd_pixel(c) / 1024 == ((c / 0x1_0000) % 256) / 8,
{
    let color = c & 0xFF_FFFF;
    crate::bits::lemma_rgb24(color);
    assert((color & 0xFF) == c % 256 && ((color >> 8u32) & 0xFF) == (c / 256) % 256
        && ((color >> 16u32) & 0xFF) == (c / 0x1_0000) % 256) by (bit_vector)
        requires
            color == c & 0xFF_FFFF,
    ;
    let r = (c % 256) as int;
    let g = ((c / 256) % 256) as int;
    let b = ((c / 0x1_0000) % 256) as int;
    assert(crate::raster::ch5(r, 0) == r / 8);
    assert(crate::raster::ch5(g, 0) == g / 8);
    assert(crate::raster::ch5(b, 0) == b / 8);
}

/// Interpolating one value at every vertex gives that value back.
proof fn lemma_interp_constant(w0: int, w1: int, w2: int, ch: int)
    requires
        w0 + w1 + w2 != 0,
        0 <= ch,
    ensures
        crate::raster::interp_spec(w0, w1, w2, ch, ch, ch, w0 + w1 + w2) == ch,
{
    let sum = w0 + w1 + w2;
    let n = w0 * ch + w1 * ch + w2 * ch;
    assert(n == sum * ch) by (nonlinear_arith)
        requires
            n == w0 * ch + w1 * ch + w2 * ch,
            sum == w0 + w1 + w2,
    ;
    if sum > 0 {
        assert(n >= 0) by (nonlinear_arith)
            requires
                n == sum * ch,
                sum > 0,
                ch >= 0,
        ;
        assert(n / sum == ch) by (nonlinear_arith)
            requires
                n == sum * ch,
                sum > 0,
        ;
    } else {
        assert(n <= 0 && -n == (-sum) * ch) by (nonlinear_arith)
            requires
                n == sum * ch,
                sum < 0,
                ch >= 0,
        ;
        assert((-n) / (-sum) == ch) by (nonlinear_arith)
            requires
                -n == (-sum) * ch,
                sum < 0,
        ;
        if ch == 0 {
            assert(n == 0);
        }
    }
}

/// A flat (one-colour) untextured triangle paints every pixel it draws, undithered,
/// in exactly the colour a flat rectangle of that colour would: red from byte 0,
/// green from byte 1, blue from byte 2.
pub proof fn law_flat_triangle_colour(a: Vertex, b: Vertex, c: Vertex, x: int, y: int)
    requires
        a.2 == b.2,
        b.2 == c.2,
        a.2 < 0x100_0000,
        tri_weights(a, b, c, x, y).0 + tri_weights(a, b, c, x, y).1 + tri_weights(a, b, c, x, y).2 != 0,
    ensures
        tri_flat_color(a, b, c, x, y, false) == cmd_pixel(a.2),
{
    reveal(tri_interp);
    let w = tri_weights(a, b, c, x, y);
    let col = a.2;
    assert((col & 0xFF_FFFF) == col) by (bit_vector)
        requires
            col < 0x100_0000,
    ;
    lemma_interp_constant(w.0, w.1, w.2, (col & 0xFF) as int);
    lemma_interp_constant(w.0, w.1, w.2, ((col >> 8u32) & 0xFF) as int);
    lemma_interp_constant(w.0, w.1, w.2, ((col >> 16u32) & 0xFF) as int);
}

/// Column and row offsets pin down a VRAM index.
proof fn lemma_wrap_back(x: int, y: int, i: int)
    requires
        0 <= i < VRAM_W * VRAM_H,
    ensures
        vidx(x + wrap_dx(x, i), y + wrap_dy(y, i)) == i,
{
    let c = i % 1024;
    let r = i / 1024;
    assert(0 <= r < 512);
    vstd::arithmetic::div_mod::lemma_fundamental_div_mod(c - x, 1024);
    vstd::arithmetic::div_mod::lemma_fundamental_div_mod(r - y, 512);
    let dx = wrap_dx(x, i);
    let dy = wrap_dy(y, i);
    assert(x + dx == c - 1024 * ((c - x) / 1024));
    assert(y + dy == r - 512 * ((r - y) / 512));
    vstd::arithmetic::div_mod::lemma_mod_multiples_vanish(-((c - x) / 1024), c, 1024);
    vstd::arithmetic::div_mod::lemma_mod_multiples_vanish(-((r - y) / 512), r, 512);
    assert((c - 1024 * ((c - x) / 1024)) % 1024 == c % 1024) by (nonlinear_arith)
        requires
            (1024 * (-((c - x) / 1024)) + c) % 1024 == c % 1024,
    ;
    assert((r - 512 * ((r - y) / 512)) % 512 == r % 512) by (nonlinear_arith)
        requires
            (512 * (-((r - y) / 512)) + r) % 512 == r % 512,
    ;
    vstd::arithmetic::div_mod::lemma_small_mod(c as nat, 1024);
    vstd::arithmetic::div_mod::lemma_small_mod(r as nat, 512);
    vstd::arithmetic::div_mod::lemma_fundamental_div_mod(i, 1024);
}

/// The offsets of the VRAM index of (x + dx, y + dy) are dx and dy.
proof fn lemma_wrap_to(x: int, y: int, dx: int, dy: int)
    requires
        0 <= dx < 1024,
        0 <= dy < 512,
    ensures
        0 <= vidx(x + dx, y + dy) < VRAM_W * VRAM_H,
        wrap_dx(x, vidx(x + dx, y + dy)) == dx,
        wrap_dy(y, vidx(x + dx, y + dy)) == dy,
{
    let c = (x + dx) % 1024;
    let r = (y + dy) % 512;
    assert(0 <= r * 1024 + c < 1024 * 512) by (nonlinear_arith)
        requires
            0 <= r < 512,
            0 <= c < 1024,
    ;
    assert((r * 1024 + c) % 1024 == c && (r * 1024 + c) / 1024 == r) by (nonlinear_arith)
        requires
            0 <= r < 512,
            0 <= c < 1024,
    ;
    lemma_wrap_offset(x, dx, 1024);
    lemma_wrap_offset(y, dy, 512);
}

/// The three edge weights of pixel (x, y) against triangle a, b, c.
pub open spec fn tri_weights(a: Vertex, b: Vertex, c: Vertex, x: int, y: int) -> (int, int, int) {
    (
        crate::raster::orient_spec(b.0 as int, b.1 as int, c.0 as int, c.1 as int, x, y),
        crate::raster::orient_spec(c.0 as int, c.1 as int, a.0 as int, a.1 as int, x, y),
        crate::raster::orient_spec(a.0 as int, a.1 as int, b.0 as int, b.1 as int, x, y),
    )
}

/// Whether the triangle covers pixel (x, y): no weight of the wrong sign for the
/// winding given by `area` (a weight of 0, on an edge, counts as inside), and the
/// weights do not sum to 0.
#[verifier::opaque]
pub open spec fn tri_covers(a: Vertex, b: Vertex, c: Vertex, x: int, y: int, area: int) -> bool {
    let w = tri_weights(a, b, c, x, y);
    &&& !(w.0 != 0 && (w.0 < 0) != (area < 0))
    &&& !(w.1 != 0 && (w.1 < 0) != (area < 0))
    &&& !(w.2 != 0 && (w.2 < 0) != (area < 0))
    &&& w.0 + w.1 + w.2 != 0
}

/// A vertex attribute interpolated at pixel (x, y) by the edge weights.
#[verifier::opaque]
pub open spec fn tri_interp(a: Vertex, b: Vertex, c: Vertex, x: int, y: int, va: int, vb: int, vc: int) -> int {
    let w = tri_weights(a, b, c, x, y);
    crate::raster::interp_spec(w.0, w.1, w.2, va, vb, vc, w.0 + w.1 + w.2)
}

/// VRAM `v` after plotting `color` at (x, y) under drawing environment `env` and
/// display registers `disp`: in the drawing area (an all-zero texel is transparent),
/// semi-transparency blends with what is there, the mask bit is set on request, and
/// the write lands as `vram_write` says.
pub open spec fn plotted_in(
    v: Seq<u16>,
    env: DrawEnv,
    disp: DisplayRegs,
    x: int,
    y: int,
    color: u16,
    textured: bool,
    semi: bool,
) -> Seq<u16> {
    if env.in_area(x, y) && !(textured && color % 0x8000 == 0) {
        let do_semi = semi && (!textured || color >= 0x8000);
        let c = (color % 0x8000) as u16;
        let back = if disp.vram_2m && y >= 512 {
            0x7FFFu16
        } else {
            v[vidx(x, y)]
        };
        let c2 = if do_semi {
            crate::raster::blend_semi_spec(back, c, ((env.tex_page / 32) % 4) as int) as u16
        } else {
            c
        };
        let out = if env.mask_set {
            (c2 + 0x8000) as u16
        } else {
            c2
        };
        vram_write(v, env.mask_check, disp.vram_2m, x, y, out)
    } else {
        v
    }
}

/// The colour an untextured triangle gives pixel (x, y): the interpolated vertex
/// colour, dithered to 15 bits when `dither`.
pub open spec fn tri_flat_color(a: Vertex, b: Vertex, c: Vertex, x: int, y: int, dither: bool) -> u16 {
    let vr = tri_interp(a, b, c, x, y, (a.2 & 0xFF) as int, (b.2 & 0xFF) as int, (c.2 & 0xFF) as int);
    let vg = tri_interp(
        a,
        b,
        c,
        x,
        y,
        ((a.2 >> 8u32) & 0xFF) as int,
        ((b.2 >> 8u32) & 0xFF) as int,
        ((c.2 >> 8u32) & 0xFF) as int,
    );
    let vb = tri_interp(
        a,
        b,
        c,
        x,
        y,
        ((a.2 >> 16u32) & 0xFF) as int,
        ((b.2 >> 16u32) & 0xFF) as int,
        ((c.2 >> 16u32) & 0xFF) as int,
    );
    crate::raster::rgb555_spec(vr, vg, vb, crate::raster::dither_or_zero(x, y, dither)) as u16
}

/// VRAM `v` after an untextured triangle a, b, c: each pixel the triangle draws takes
/// its plotted colour over `v`, every other pixel stays.
pub open spec fn tri_vram(
    v: Seq<u16>,
    env: DrawEnv,
    disp: DisplayRegs,
    a: Vertex,
    b: Vertex,
    c: Vertex,
    semi: bool,
    dither: bool,
) -> Seq<u16> {
    Seq::new(
        v.len(),
        |i: int|
            if tri_drawn(env, a, b, c, i % 1024, i / 1024) {
                plotted_in(
                    v,
                    env,
                    disp,
                    i % 1024,
                    i / 1024,
                    tri_flat_color(a, b, c, i % 1024, i / 1024, dither),
                    false,
                    semi,
                )[i]
            } else {
                v[i]
            },
    )
}

/// Whether a triangle draws pixel (x, y) in drawing environment `env`: the triangle
/// has area and spans at most 1023 by 511, and the pixel is in the drawing area, in
/// the box up to (excluding) the greatest vertex x and y, and covered.
pub open spec fn tri_drawn(env: DrawEnv, a: Vertex, b: Vertex, c: Vertex, x: int, y: int) -> bool {
    let area = crate::raster::orient_spec(a.0 as int, a.1 as int, b.0 as int, b.1 as int, c.0 as int, c.1 as int);
    &&& area != 0
    &&& max3(a.0 as int, b.0 as int, c.0 as int) - min3(a.0 as int, b.0 as int, c.0 as int) <= 1023
    &&& max3(a.1 as int, b.1 as int, c.1 as int) - min3(a.1 as int, b.1 as int, c.1 as int) <= 511
    &&& env.in_area(x, y)
    &&& in_tri_box(a, b, c, x, y)
    &&& tri_covers(a, b, c, x, y, area)
}

impl Gpu {
    /// The colour a triangle gives pixel (x, y): the interpolated vertex colour,
    /// dithered to 15 bits, or the texel at the interpolated (u, v), modulated by that
    /// colour when blending.
    #[verifier::opaque]
    pub open spec fn tri_color(
        &self,
        a: Vertex,
        b: Vertex,
        c: Vertex,
        x: int,
        y: int,
        textured: bool,
        blend: bool,
        dither: bool,
    ) -> u16 {
        let vr = tri_interp(a, b, c, x, y, (a.2 & 0xFF) as int, (b.2 & 0xFF) as int, (c.2 & 0xFF) as int);
        let vg = tri_interp(
            a,
            b,
            c,
            x,
            y,
            ((a.2 >> 8u32) & 0xFF) as int,
            ((b.2 >> 8u32) & 0xFF) as int,
            ((c.2 >> 8u32) & 0xFF) as int,
        );
        let vb = tri_interp(
            a,
            b,
            c,
            x,
            y,
            ((a.2 >> 16u32) & 0xFF) as int,
            ((b.2 >> 16u32) & 0xFF) as int,
            ((c.2 >> 16u32) & 0xFF) as int,
        );
        let d = crate::raster::dither_or_zero(x, y, dither);
        if textured {
            let u = tri_interp(a, b, c, x, y, a.3 as int, b.3 as int, c.3 as int);
            let v = tri_interp(a, b, c, x, y, a.4 as int, b.4 as int, c.4 as int);
            let tex = self.sample_spec(u as u8, v as u8);
            if blend {
                crate::raster::blend_texel_spec(tex, vr, vg, vb, d) as u16
            } else {
                tex
            }
        } else {
            crate::raster::rgb555_spec(vr, vg, vb, d) as u16
        }
    }

    /// VRAM after plotting `color` at (x, y).
    #[verifier::opaque]
    pub open spec fn plotted(&self, x: int, y: int, color: u16, textured: bool, semi: bool) -> Seq<u16> {
        if self.plot_draws(x, y, color, textured) {
            vram_write(
                self.vram@,
                self.env.mask_check,
                self.disp.vram_2m,
                x,
                y,
                self.plot_color(x, y, color, textured, semi),
            )
        } else {
            self.vram@
        }
    }
}

/// Turn `tri`'s per-pixel result for an untextured triangle into `tri_vram`.
proof fn lemma_tri_vram(o: Gpu, n: Gpu, a: Vertex, b: Vertex, c: Vertex, blend: bool, semi: bool, dither: bool)
    requires
        o.vram@.len() == VRAM_W * VRAM_H,
        n.vram@.len() == VRAM_W * VRAM_H,
        forall|i: int|
            0 <= i < VRAM_W * VRAM_H ==> #[trigger] n.vram@[i] == if tri_drawn(o.env, a, b, c, i % 1024, i / 1024) {
                o.plotted(i % 1024, i / 1024, o.tri_color(a, b, c, i % 1024, i / 1024, false, blend, dither), false, semi)[i]
            } else {
                o.vram@[i]
            },
    ensures
        n.vram@ == tri_vram(o.vram@, o.env, o.disp, a, b, c, semi, dither),
{
    let t = tri_vram(o.vram@, o.env, o.disp, a, b, c, semi, dither);
    assert forall|i: int| 0 <= i < VRAM_W * VRAM_H implies n.vram@[i] == t[i] by {
        o.lemma_plotted_in(i % 1024, i / 1024, o.tri_color(a, b, c, i % 1024, i / 1024, false, blend, dither), false, semi);
        o.lemma_tri_flat(a, b, c, i % 1024, i / 1024, blend, dither);
    }
    assert(n.vram@ =~= t);
}

/// Vertex `k` of a GP0(20h..3Fh) polygon in buffer `g.gp0_buf`: its position (offset by
/// the drawing offset), its colour (the command's, or its own word when Gouraud), and
/// its texture coordinates when textured.
pub open spec fn poly_vertex(g: Gpu, k: int) -> Vertex {
    let buf = g.gp0_buf@;
    let cmd = buf[0];
    let gouraud = cmd & 0x1000_0000 != 0;
    let textured = cmd & 0x0400_0000 != 0;
    let base = k + (if textured { k } else { 0 }) + (if gouraud && k > 0 { k - 1 } else { 0 });
    let own = k > 0 && gouraud;
    let color = if own { buf[base + 1] & 0xFF_FFFF } else { cmd & 0xFF_FFFF };
    let xyi = if own { base + 2 } else { base + 1 };
    let p = g.vertex_spec(buf[xyi]);
    let uv = buf[xyi + 1];
    if textured {
        (p.0 as i32, p.1 as i32, color, (uv & 0xFF) as u8, ((uv >> 8u32) & 0xFF) as u8)
    } else {
        (p.0 as i32, p.1 as i32, color, 0u8, 0u8)
    }
}

/// VRAM after the untextured GP0(20h..3Fh) polygon in `o`'s buffer: the triangle of
/// vertices 1..3, then for a quad the triangle of vertices 2..4 over it.
pub open spec fn poly_vram(o: Gpu) -> Seq<u16> {
    let cmd = o.gp0_buf@[0];
    let semi = cmd & 0x0200_0000 != 0;
    let dither = o.env.dither && cmd & 0x1000_0000 != 0;
    let first = tri_vram(o.vram@, o.env, o.disp, poly_vertex(o, 0), poly_vertex(o, 1), poly_vertex(o, 2), semi, dither);
    if cmd & 0x0800_0000 != 0 {
        tri_vram(first, o.env, o.disp, poly_vertex(o, 1), poly_vertex(o, 2), poly_vertex(o, 3), semi, dither)
    } else {
        first
    }
}

impl Gpu {
    /// Plotting on the GPU is plotting on its VRAM under its environment.
    pub proof fn lemma_plotted_in(&self, x: int, y: int, color: u16, textured: bool, semi: bool)
        ensures
            self.plotted(x, y, color, textured, semi) == plotted_in(
                self.vram@,
                self.env,
                self.disp,
                x,
                y,
                color,
                textured,
                semi,
            ),
    {
        reveal(Gpu::plotted);
    }

    /// An untextured triangle's colour reads nothing of the GPU.
    pub proof fn lemma_tri_flat(&self, a: Vertex, b: Vertex, c: Vertex, x: int, y: int, blend: bool, dither: bool)
        ensures
            self.tri_color(a, b, c, x, y, false, blend, dither) == tri_flat_color(a, b, c, x, y, dither),
    {
        reveal(Gpu::tri_color);
        reveal(tri_interp);
    }
}

impl Gpu {
    /// Everything a drawing command may change: VRAM inside the drawing area, the
    /// texture caches, the draw time and the latched texture page and CLUT.
    pub open spec fn draw_frame(&self, old: &Gpu) -> bool {
        &&& forall|i: int|
            0 <= i < VRAM_W * VRAM_H && #[trigger] self.vram@[i] != old.vram@[i]
                ==> old.env.in_area(i % 1024, i / 1024)
        &&& self.draw_busy >= old.draw_busy
        &&& same_area(self.env, old.env)
        &&& self.same_crt(old)
        &&& self.same_log(old)
        &&& self.disp == old.disp
        &&& self.gp0_cmd == old.gp0_cmd
        &&& self.gp0_buf@ == old.gp0_buf@
        &&& self.fifo@ == old.fifo@
        &&& self.transfer == old.transfer
        &&& self.plotting == old.plotting
        &&& self.plot_cost == old.plot_cost
        &&& self.stat == old.stat
        &&& self.block28 == old.block28
        &&& self.gpuread == old.gpuread
    }

    /// GP0(20h..3Fh): a flat or Gouraud, textured or not, triangle or quad. A quad is
    /// the triangles (v1, v2, v3) and (v2, v3, v4).
    #[verifier::rlimit(40)]
    fn polygon(&mut self)
        requires
            old(self).inv(),
            old(self).gp0_buf.len() >= 1,
            0x20 <= old(self).gp0_buf@[0] / 0x100_0000 <= 0x3F,
            old(self).gp0_buf.len() >= gp0_len_spec((old(self).gp0_buf@[0] / 0x100_0000) as u8),
        ensures
            final(self).inv(),
            final(self).draw_frame(&*old(self)),
            old(self).gp0_buf@[0] & 0x0400_0000 == 0 ==> final(self).vram@ == poly_vram(*old(self)),
    {
        let cmd = self.gp0_buf[0];
        let gouraud = cmd & 0x1000_0000 != 0;
        let quad = cmd & 0x0800_0000 != 0;
        let textured = cmd & 0x0400_0000 != 0;
        proof {
            let c8 = (cmd / 0x100_0000) as u8;
            lemma_cmd_bits(cmd);
        }
        let nvert: usize = if quad {
            4
        } else {
            3
        };
        let color0 = cmd & 0xFF_FFFF;
        let ghost old_vram = self.vram@;
        let mut verts = [(0i32, 0i32, 0u32, 0u8, 0u8); 4];
        let mut idx: usize = 0;
        let mut i: usize = 0;
        while i < nvert
            invariant
                self.inv(),
                i <= nvert,
                nvert == (if quad { 4usize } else { 3 }),
                idx == i + (if textured { i } else { 0 }) + (if gouraud && i > 0 { i - 1 } else { 0 }),
                self.gp0_buf.len() >= 1 + nvert + (if gouraud { nvert - 1 } else { 0 }) + (if textured { nvert } else { 0 }),
                self.vram@ == old_vram,
                old_vram == old(self).vram@,
                self.draw_busy == old(self).draw_busy,
                same_area(self.env, old(self).env),
                self.same_crt(&*old(self)),
                self.same_log(&*old(self)),
                self.disp == old(self).disp,
                self.gp0_cmd == old(self).gp0_cmd,
                self.gp0_buf@ == old(self).gp0_buf@,
                self.fifo@ == old(self).fifo@,
                self.transfer == old(self).transfer,
                self.plotting == old(self).plotting,
                self.plot_cost == old(self).plot_cost,
                self.stat == old(self).stat,
                self.block28 == old(self).block28,
                self.gpuread == old(self).gpuread,
                self.tex_cache == old(self).tex_cache,
                self.clut_cache == old(self).clut_cache,
                forall|k: int| 0 <= k < i ==> vertex_ok(#[trigger] verts@[k]),
                forall|k: int| 0 <= k < i ==> #[trigger] verts@[k] == poly_vertex(*old(self), k),
                cmd == old(self).gp0_buf@[0],
                color0 == cmd & 0xFF_FFFF,
                gouraud == (cmd & 0x1000_0000 != 0),
                textured == (cmd & 0x0400_0000 != 0),
                !textured ==> self.env == old(self).env,
            decreases nvert - i,
        {
            let ghost base: int = idx as int;
            let color = if i == 0 || !gouraud {
                color0
            } else {
                idx += 1;
                self.gp0_buf[idx] & 0xFF_FFFF
            };
            idx += 1;
            let xy = self.gp0_buf[idx];
            let ghost xyi: int = idx as int;
            let (x, y) = self.vertex_xy(xy);
            proof {
                assert(self.vertex_spec(xy) == old(self).vertex_spec(xy));
            }
            let mut u: u8 = 0;
            let mut v: u8 = 0;
            if textured {
                idx += 1;
                let uv = self.gp0_buf[idx];
                u = (uv & 0xFF) as u8;
                v = ((uv >> 8u32) & 0xFF) as u8;
                if i == 0 {
                    let clut = uv >> 16u32;
                    proof {
                        lemma_u32_fields(clut);
                        lemma_u32_fields(clut >> 6u32);
                    }
                    self.env.clut_x = (clut & 0x3F) * 16;
                    self.env.clut_y = (clut >> 6u32) & 0x1FF;
                }
                if i == 1 {
                    let page = uv >> 16u32;
                    self.env.tex_page = page;
                    self.env.tex_x = (page & 0xF) as u8;
                    self.env.tex_y = ((page >> 4u32) & 1) as u8;
                    proof {
                        lemma_u32_fields(page);
                        lemma_u32_fields(page >> 4u32);
                    }
                    self.env.dither = page & 0x200 != 0;
                }
            }
            verts[i] = (x, y, color, u, v);
            proof {
                let o = *old(self);
                let k = i as int;
                assert(base == k + (if textured { k } else { 0 }) + (if gouraud && k > 0 { k - 1 } else { 0 }));
                assert(textured ==> u == (o.gp0_buf@[xyi + 1] & 0xFF) as u8 && v == ((o.gp0_buf@[xyi + 1] >> 8u32) & 0xFF) as u8);
                let own = k > 0 && gouraud;
                assert(xyi == (if own { base + 2 } else { base + 1 }));
                assert(xy == o.gp0_buf@[xyi]);
                assert(color == (if own { o.gp0_buf@[base + 1] & 0xFF_FFFF } else { o.gp0_buf@[0] & 0xFF_FFFF }));
                assert(x as int == o.vertex_spec(xy).0);
                assert(x == (o.vertex_spec(xy).0) as i32);
                assert(y == (o.vertex_spec(xy).1) as i32);
                assert(verts@[k] == poly_vertex(o, k));
            }
            i += 1;
        }
        let blend = textured && cmd & 0x0100_0000 == 0;
        let semi = cmd & 0x0200_0000 != 0;
        let dither = self.env.dither && (gouraud || blend);
        let ghost e0 = self.env;
        let ghost g0 = *self;
        self.tri(verts[0], verts[1], verts[2], textured, blend, semi, dither);
        let ghost g1 = *self;
        proof {
            if !textured {
                lemma_tri_vram(g0, g1, verts@[0], verts@[1], verts@[2], blend, semi, dither);
            }
        }
        if quad {
            self.tri(verts[1], verts[2], verts[3], textured, blend, semi, dither);
            proof {
                if !textured {
                    lemma_tri_vram(g1, *self, verts@[1], verts@[2], verts@[3], blend, semi, dither);
                }
            }
        }
        proof {
            assert forall|j: int|
                0 <= j < VRAM_W * VRAM_H && #[trigger] self.vram@[j] != old(self).vram@[j]
                    implies old(self).env.in_area(j % 1024, j / 1024) by {
            }
        }
    }

    /// Bresenham line from (x0, y0) to (x1, y1), both ends plotted.
    #[verifier::rlimit(40)]
    fn draw_line(&mut self, x0: i32, y0: i32, x1: i32, y1: i32, color: u16)
        requires
            old(self).inv(),
            -1024 <= x0 <= 1023,
            -1024 <= y0 <= 1023,
            -1024 <= x1 <= 1023,
            -1024 <= y1 <= 1023,
        ensures
            final(self).inv(),
            final(self).raster_frame(&*old(self)),
            final(self).tex_cache == old(self).tex_cache,
            final(self).clut_cache == old(self).clut_cache,
            forall|i: int|
                0 <= i < VRAM_W * VRAM_H && #[trigger] final(self).vram@[i] != old(self).vram@[i]
                    ==> old(self).env.in_area(i % 1024, i / 1024),
            forall|i: int|
                0 <= i < VRAM_W * VRAM_H && #[trigger] final(self).vram@[i] != old(self).vram@[i]
                    ==> final(self).vram@[i] == line_color(old(self).env, color),
            line_start_drawn(*old(self), x0 as int, y0 as int, x1 as int, y1 as int)
                ==> final(self).vram@[vidx(x0 as int, y0 as int)] == line_color(old(self).env, color),
    {
        let ax = if x0 > x1 { x0 - x1 } else { x1 - x0 };
        let ay = if y0 > y1 { y0 - y1 } else { y1 - y0 };
        if ax > 1023 || ay > 511 {
            return;
        }
        let dx = ax;
        let sx: i32 = if x0 < x1 {
            1
        } else {
            -1
        };
        let dy = -ay;
        let sy: i32 = if y0 < y1 {
            1
        } else {
            -1
        };
        let mut err = dx + dy;
        let mut x = x0;
        let mut y = y0;
        let ghost mut a: int = 0;
        let ghost mut b: int = 0;
        let ghost mut pp: int = dx as int;
        let ghost mut qq: int = ay as int;
        let ghost old_vram = self.vram@;
        let ghost lc = line_color(old(self).env, color);
        let ghost q0 = vidx(x0 as int, y0 as int);
        let ghost mut first_done = false;
        loop
            invariant
                forall|i: int|
                    0 <= i < VRAM_W * VRAM_H && #[trigger] self.vram@[i] != old_vram[i]
                        ==> self.vram@[i] == lc,
                lc == line_color(old(self).env, color),
                q0 == vidx(x0 as int, y0 as int),
                !first_done ==> self.vram@ == old_vram && x == x0 && y == y0,
                first_done ==> (line_start_drawn(*old(self), x0 as int, y0 as int, x1 as int, y1 as int)
                    ==> self.vram@[q0] == lc),
                self.inv(),
                self.raster_frame(&*old(self)),
                old_vram == old(self).vram@,
                0 <= dx <= 1023,
                0 <= ay <= 511,
                dy == -ay,
                dx == (if x0 > x1 { x0 - x1 } else { x1 - x0 }),
                ay == (if y0 > y1 { y0 - y1 } else { y1 - y0 }),
                sx == (if x0 < x1 { 1int } else { -1int }),
                sy == (if y0 < y1 { 1int } else { -1int }),
                0 <= a <= dx,
                0 <= b <= ay,
                x == (if x0 < x1 { x0 + a } else { x0 - a }),
                y == (if y0 < y1 { y0 + b } else { y0 - b }),
                self.tex_cache == old(self).tex_cache,
                self.clut_cache == old(self).clut_cache,
                pp == dx * (b + 1),
                qq == ay * (a + 1),
                err == pp - qq,
                -1024 <= x0 <= 1023,
                -1024 <= y0 <= 1023,
                forall|i: int|
                    0 <= i < VRAM_W * VRAM_H && #[trigger] self.vram@[i] != old_vram[i]
                        ==> self.env.in_area(i % 1024, i / 1024),
            ensures
                line_start_drawn(*old(self), x0 as int, y0 as int, x1 as int, y1 as int)
                    ==> self.vram@[vidx(x0 as int, y0 as int)] == line_color(old(self).env, color),
                forall|i: int|
                    0 <= i < VRAM_W * VRAM_H && #[trigger] self.vram@[i] != old_vram[i]
                        ==> self.vram@[i] == line_color(old(self).env, color),
            decreases (dx - a) + (ay - b),
        {
            let ghost cur = self.vram@;
            self.plot(x, y, color, false, false);
            proof {
                if self.env.in_area(x as int, y as int) {
                    lemma_vidx(x as int, y as int);
                }
                assert(self.plot_color(x as int, y as int, color, false, false) == lc);
                assert forall|i: int|
                    0 <= i < VRAM_W * VRAM_H && #[trigger] self.vram@[i] != old_vram[i]
                        implies self.vram@[i] == lc by {
                    if self.vram@[i] != cur[i] {
                        assert(i == vidx(x as int, y as int));
                    }
                }
                if line_start_drawn(*old(self), x0 as int, y0 as int, x1 as int, y1 as int) {
                    lemma_vidx(x0 as int, y0 as int);
                    if first_done {
                        assert(cur[q0] == lc);
                        if self.vram@[q0] != cur[q0] {
                            assert(q0 == vidx(x as int, y as int));
                        }
                    } else {
                        assert(cur == old(self).vram@);
                        assert(self.vram@[q0] == lc);
                    }
                }
                first_done = true;
            }
            if x == x1 && y == y1 {
                break;
            }
            proof {
                assert(dx * (b + 1) <= 1023 * 512 && ay * (a + 1) <= 511 * 1024) by (nonlinear_arith)
                    requires
                        0 <= dx <= 1023,
                        0 <= ay <= 511,
                        0 <= a <= dx,
                        0 <= b <= ay,
                ;
                if a == dx && b < ay {
                    assert(2 * (dx * (b + 1) - ay * (a + 1)) < -ay) by (nonlinear_arith)
                        requires
                            a == dx,
                            0 <= b < ay,
                            dx >= 0,
                    ;
                }
                if b == ay && a < dx {
                    assert(2 * (dx * (b + 1) - ay * (a + 1)) > dx) by (nonlinear_arith)
                        requires
                            b == ay,
                            0 <= a < dx,
                            ay >= 0,
                    ;
                }
                assert(x == x1 <==> a == dx);
                assert(y == y1 <==> b == ay);
            }
            let e2 = 2 * err;
            let ghost a0 = a;
            let ghost b0 = b;
            if e2 >= dy {
                err += dy;
                x += sx;
                proof {
                    a = a + 1;
                    qq = qq + ay;
                    assert(ay * (a + 1) == ay * a + ay) by (nonlinear_arith);
                    assert(ay * a == ay * (a0 + 1)) by (nonlinear_arith)
                        requires
                            a == a0 + 1,
                    ;
                }
            }
            if e2 <= dx {
                err += dx;
                y += sy;
                proof {
                    b = b + 1;
                    pp = pp + dx;
                    assert(dx * (b + 1) == dx * b + dx) by (nonlinear_arith);
                    assert(dx * b == dx * (b0 + 1)) by (nonlinear_arith)
                        requires
                            b == b0 + 1,
                    ;
                }
            }
        }
    }

    /// GP0(40h..5Fh): a line or polyline in the first vertex colour.
    fn line(&mut self)
        requires
            old(self).inv(),
            old(self).gp0_buf.len() >= 3,
        ensures
            final(self).inv(),
            final(self).draw_frame(&*old(self)),
            line_done(*old(self), *final(self)),
    {
        let color = self.gp0_buf[0] & 0xFF_FFFF;
        proof {
            lemma_rgb24(color);
        }
        let pix = crate::raster::rgb888_to_555(
            color & 0xFF,
            (color >> 8u32) & 0xFF,
            (color >> 16u32) & 0xFF,
        );
        let mut prev = self.gp0_buf[1];
        let mut i: usize = 2;
        let ghost old_vram = self.vram@;
        let ghost buf = old(self).gp0_buf@;
        let ghost lc = line_color(old(self).env, cmd_pixel(buf[0]));
        let ghost p0 = old(self).vertex_spec(buf[1]);
        let ghost p1 = old(self).vertex_spec(buf[2]);
        let ghost start = line_start_drawn(*old(self), p0.0, p0.1, p1.0, p1.1);
        proof {
            assert(pix == cmd_pixel(buf[0]));
        }
        while i < self.gp0_buf.len()
            invariant
                self.inv(),
                self.raster_frame(&*old(self)),
                self.tex_cache == old(self).tex_cache,
                self.clut_cache == old(self).clut_cache,
                old_vram == old(self).vram@,
                2 <= i <= self.gp0_buf.len(),
                forall|k: int|
                    0 <= k < VRAM_W * VRAM_H && #[trigger] self.vram@[k] != old_vram[k]
                        ==> self.env.in_area(k % 1024, k / 1024),
                forall|k: int|
                    0 <= k < VRAM_W * VRAM_H && #[trigger] self.vram@[k] != old_vram[k]
                        ==> self.vram@[k] == lc,
                self.gp0_buf@ == buf,
                buf == old(self).gp0_buf@,
                buf.len() >= 3,
                lc == line_color(old(self).env, cmd_pixel(buf[0])),
                pix == cmd_pixel(buf[0]),
                p0 == old(self).vertex_spec(buf[1]),
                p1 == old(self).vertex_spec(buf[2]),
                start == line_start_drawn(*old(self), p0.0, p0.1, p1.0, p1.1),
                i == 2 ==> self.vram@ == old_vram && prev == buf[1],
                i > 2 ==> (start ==> self.vram@[vidx(p0.0, p0.1)] == lc),
            ensures
                i > 2 || buf[2] & 0xF000_F000 == 0x5000_5000,
                i > 2 ==> (start ==> self.vram@[vidx(p0.0, p0.1)] == lc),
                i == 2 ==> self.vram@ == old_vram,
                forall|k: int|
                    0 <= k < VRAM_W * VRAM_H && #[trigger] self.vram@[k] != old_vram[k]
                        ==> self.vram@[k] == lc,
                forall|k: int|
                    0 <= k < VRAM_W * VRAM_H && #[trigger] self.vram@[k] != old_vram[k]
                        ==> self.env.in_area(k % 1024, k / 1024),
                self.inv(),
                self.raster_frame(&*old(self)),
                self.tex_cache == old(self).tex_cache,
                self.clut_cache == old(self).clut_cache,
                self.gp0_buf@ == buf,
            decreases self.gp0_buf.len() - i,
        {
            let word = self.gp0_buf[i];
            if word & 0xF000_F000 == 0x5000_5000 {
                break;
            }
            let (ax, ay) = self.vertex_xy(prev);
            let (bx, by) = self.vertex_xy(word);
            let ghost before = *self;
            self.draw_line(ax, ay, bx, by, pix);
            proof {
                assert(before.vertex_spec(prev) == old(self).vertex_spec(prev));
                assert(before.vertex_spec(word) == old(self).vertex_spec(word));
                assert forall|k: int|
                    0 <= k < VRAM_W * VRAM_H && #[trigger] self.vram@[k] != old_vram[k]
                        implies self.vram@[k] == lc by {
                    if self.vram@[k] == before.vram@[k] {
                    }
                }
                if start {
                    lemma_vidx(p0.0, p0.1);
                    if i == 2 {
                        assert(before.vram@ == old(self).vram@);
                        assert(line_start_drawn(before, ax as int, ay as int, bx as int, by as int));
                    } else {
                        assert(before.vram@[vidx(p0.0, p0.1)] == lc);
                    }
                }
            }
            prev = word;
            i += 1;
        }
        if self.gp0_buf.len() == 3 {
            let a = self.gp0_buf[1];
            let b = self.gp0_buf[2];
            let (ax, ay) = self.vertex_xy(a);
            let (bx, by) = self.vertex_xy(b);
            let ghost before = *self;
            self.draw_line(ax, ay, bx, by, pix);
            proof {
                assert(before.vertex_spec(a) == old(self).vertex_spec(a));
                assert(before.vertex_spec(b) == old(self).vertex_spec(b));
                assert forall|k: int|
                    0 <= k < VRAM_W * VRAM_H && #[trigger] self.vram@[k] != old_vram[k]
                        implies self.vram@[k] == lc by {
                    if self.vram@[k] == before.vram@[k] {
                    }
                }
                if start {
                    lemma_vidx(p0.0, p0.1);
                    if before.vram@ == old(self).vram@ {
                        assert(line_start_drawn(before, ax as int, ay as int, bx as int, by as int));
                    } else {
                        assert(before.vram@[vidx(p0.0, p0.1)] == lc);
                    }
                    assert(self.vram@[vidx(p0.0, p0.1)] == lc);
                }
            }
        }
        proof {
            if (buf.len() == 3 || buf[2] & 0xF000_F000 != 0x5000_5000) && start {
                assert(self.vram@[vidx(p0.0, p0.1)] == lc);
            }
        }
        proof {
            reveal(line_done);
        }
    }
}


/// One more pixel of a flat rectangle row: the pixel at offsets (xx, yy) takes the
/// value plotting it over the old VRAM gives, every other pixel stays.
proof fn lemma_rect_step(
    o: Gpu,
    cur: Gpu,
    n: Gpu,
    x: int,
    y: int,
    w: int,
    yy: int,
    xx: int,
    pix: u16,
    semi: bool,
)
    requires
        0 <= xx < w <= 1023,
        0 <= yy < 512,
        o.vram@.len() == VRAM_W * VRAM_H,
        cur.vram@.len() == VRAM_W * VRAM_H,
        cur.env == o.env,
        cur.disp == o.disp,
        n.vram@ == cur.plotted(x + xx, y + yy, pix, false, semi),
        forall|i: int|
            0 <= i < VRAM_W * VRAM_H ==> #[trigger] cur.vram@[i] == if wrap_dx(x, i) < w && (wrap_dy(
                y,
                i,
            ) < yy || (wrap_dy(y, i) == yy && wrap_dx(x, i) < xx)) {
                o.plotted(x + wrap_dx(x, i), y + wrap_dy(y, i), pix, false, semi)[i]
            } else {
                o.vram@[i]
            },
    ensures
        forall|i: int|
            0 <= i < VRAM_W * VRAM_H ==> #[trigger] n.vram@[i] == if wrap_dx(x, i) < w && (wrap_dy(
                y,
                i,
            ) < yy || (wrap_dy(y, i) == yy && wrap_dx(x, i) < xx + 1)) {
                o.plotted(x + wrap_dx(x, i), y + wrap_dy(y, i), pix, false, semi)[i]
            } else {
                o.vram@[i]
            },
{
    reveal(Gpu::plotted);
    let q = vidx(x + xx, y + yy);
    lemma_wrap_to(x, y, xx, yy);
    assert forall|i: int| 0 <= i < VRAM_W * VRAM_H implies #[trigger] n.vram@[i] == if wrap_dx(x, i)
        < w && (wrap_dy(y, i) < yy || (wrap_dy(y, i) == yy && wrap_dx(x, i) < xx + 1)) {
        o.plotted(x + wrap_dx(x, i), y + wrap_dy(y, i), pix, false, semi)[i]
    } else {
        o.vram@[i]
    } by {
        lemma_wrap_back(x, y, i);
        if i == q {
            assert(cur.vram@[q] == o.vram@[q]);
        } else {
            assert(n.vram@[i] == cur.vram@[i]);
        }
    }
}

impl Gpu {
    /// GP0(60h..7Fh): a rectangle (sprite) of variable or fixed 1/8/16 size.
    #[verifier::rlimit(100)]
    #[verifier::spinoff_prover]
    fn rectangle(&mut self)
        requires
            old(self).inv(),
            old(self).gp0_buf.len() >= 1,
            0x60 <= old(self).gp0_buf@[0] / 0x100_0000 <= 0x7F,
            old(self).gp0_buf.len() >= gp0_len_spec((old(self).gp0_buf@[0] / 0x100_0000) as u8),
        ensures
            final(self).inv(),
            final(self).draw_frame(&*old(self)),
            ({
                let buf = old(self).gp0_buf@;
                let p = old(self).vertex_spec(buf[1]);
                let wh = rect_size(buf);
                let semi = buf[0] & 0x0200_0000 != 0;
                buf[0] & 0x0400_0000 == 0 ==> forall|i: int|
                    0 <= i < VRAM_W * VRAM_H ==> #[trigger] final(self).vram@[i] == if wrap_dx(p.0, i)
                        < wh.0 && wrap_dy(p.1, i) < wh.1 {
                        old(self).plotted(
                            p.0 + wrap_dx(p.0, i),
                            p.1 + wrap_dy(p.1, i),
                            cmd_pixel(buf[0]),
                            false,
                            semi,
                        )[i]
                    } else {
                        old(self).vram@[i]
                    }
            }),
    {
        let cmd = self.gp0_buf[0];
        let size = (cmd >> 27u32) & 3;
        let textured = cmd & 0x0400_0000 != 0;
        proof {
            lemma_cmd_bits(cmd);

            let c8 = (cmd / 0x100_0000) as u8;
            assert(c8 as int == cmd / 0x100_0000);
            assert(gp0_len_spec(c8) == 2 + (if textured { 1int } else { 0 }) + (if size == 0 { 1int } else { 0 }));
        }
        let color = cmd & 0xFF_FFFF;
        let xy = self.gp0_buf[1];
        let (x, y) = self.vertex_xy(xy);
        let mut idx: usize = 2;
        let mut u0: u8 = 0;
        let mut v0: u8 = 0;
        if textured {
            let uv = self.gp0_buf[idx];
            idx += 1;
            let clut = uv >> 16u32;
            proof {
                lemma_u32_fields(clut);
                lemma_u32_fields(clut >> 6u32);
            }
            self.env.clut_x = (clut & 0x3F) * 16;
            self.env.clut_y = (clut >> 6u32) & 0x1FF;
            u0 = (uv & 0xFF) as u8;
            v0 = ((uv >> 8u32) & 0xFF) as u8;
        }
        let (w, h): (i32, i32) = if size == 1 {
            (1, 1)
        } else if size == 2 {
            (8, 8)
        } else if size == 3 {
            (16, 16)
        } else {
            let wh = self.gp0_buf[idx];
            proof {
                lemma_u32_fields(wh);
                lemma_u32_fields(wh >> 16u32);
            }
            ((wh & 0x3FF) as i32, ((wh >> 16u32) & 0x1FF) as i32)
        };
        proof {
            lemma_rgb24(color);
        }
        let r = color & 0xFF;
        let g = (color >> 8u32) & 0xFF;
        let b = (color >> 16u32) & 0xFF;
        let pix = crate::raster::rgb888_to_555(r, g, b);
        let blend = textured && cmd & 0x0100_0000 == 0;
        let semi = cmd & 0x0200_0000 != 0;
        let ghost old_vram = self.vram@;
        let ghost e0 = self.env;
        proof {
            assert(pix == cmd_pixel(cmd));
            assert(w == rect_size(old(self).gp0_buf@).0 && h == rect_size(old(self).gp0_buf@).1);
        }
        let mut yy: i32 = 0;
        while yy < h
            invariant
                self.inv(),
                0 <= h <= 511,
                0 <= w <= 1023,
                -1024 <= x <= 1023,
                -1024 <= y <= 1023,
                r <= 255,
                g <= 255,
                b <= 255,
                0 <= yy <= h,
                same_area(self.env, old(self).env),
                self.draw_busy >= old(self).draw_busy,
                self.same_crt(&*old(self)),
                self.same_log(&*old(self)),
                self.disp == old(self).disp,
                self.gp0_cmd == old(self).gp0_cmd,
                self.gp0_buf@ == old(self).gp0_buf@,
                self.fifo@ == old(self).fifo@,
                self.transfer == old(self).transfer,
                self.plotting == old(self).plotting,
                self.plot_cost == old(self).plot_cost,
                self.stat == old(self).stat,
                self.block28 == old(self).block28,
                self.gpuread == old(self).gpuread,
                old_vram == old(self).vram@,
                forall|i: int|
                    0 <= i < VRAM_W * VRAM_H && #[trigger] self.vram@[i] != old_vram[i]
                        ==> old(self).env.in_area(i % 1024, i / 1024),
                !textured ==> self.env == old(self).env,
                old_vram.len() == VRAM_W * VRAM_H,
                !textured ==> forall|i: int|
                    0 <= i < VRAM_W * VRAM_H ==> #[trigger] self.vram@[i] == if wrap_dx(x as int, i) < w
                        && wrap_dy(y as int, i) < yy {
                        old(self).plotted(
                            x + wrap_dx(x as int, i),
                            y + wrap_dy(y as int, i),
                            pix,
                            false,
                            semi,
                        )[i]
                    } else {
                        old_vram[i]
                    },
            decreases h - yy,
        {
            let mut xx: i32 = 0;
            while xx < w
                invariant
                    self.inv(),
                    0 <= h <= 511,
                    0 <= w <= 1023,
                    -1024 <= x <= 1023,
                    -1024 <= y <= 1023,
                    r <= 255,
                    g <= 255,
                    b <= 255,
                    0 <= yy < h,
                    0 <= xx <= w,
                    same_area(self.env, old(self).env),
                    self.draw_busy >= old(self).draw_busy,
                    self.same_crt(&*old(self)),
                    self.same_log(&*old(self)),
                    self.disp == old(self).disp,
                    self.gp0_cmd == old(self).gp0_cmd,
                    self.gp0_buf@ == old(self).gp0_buf@,
                    self.fifo@ == old(self).fifo@,
                    self.transfer == old(self).transfer,
                    self.plotting == old(self).plotting,
                    self.plot_cost == old(self).plot_cost,
                    self.stat == old(self).stat,
                    self.block28 == old(self).block28,
                    self.gpuread == old(self).gpuread,
                    old_vram == old(self).vram@,
                    forall|i: int|
                        0 <= i < VRAM_W * VRAM_H && #[trigger] self.vram@[i] != old_vram[i]
                            ==> old(self).env.in_area(i % 1024, i / 1024),
                    !textured ==> self.env == old(self).env,
                    old_vram.len() == VRAM_W * VRAM_H,
                    !textured ==> forall|i: int|
                        0 <= i < VRAM_W * VRAM_H ==> #[trigger] self.vram@[i] == if wrap_dx(x as int, i)
                            < w && (wrap_dy(y as int, i) < yy || (wrap_dy(y as int, i) == yy && wrap_dx(
                            x as int,
                            i,
                        ) < xx)) {
                            old(self).plotted(
                                x + wrap_dx(x as int, i),
                                y + wrap_dy(y as int, i),
                                pix,
                                false,
                                semi,
                            )[i]
                        } else {
                            old_vram[i]
                        },
                decreases w - xx,
            {
                let c = if textured {
                    let tex = self.sample_tex(
                        u0.wrapping_add((xx % 256) as u8),
                        v0.wrapping_add((yy % 256) as u8),
                    );
                    if blend {
                        crate::raster::blend_texel(tex, r, g, b)
                    } else {
                        tex
                    }
                } else {
                    pix
                };
                let px = x + xx;
                let py = y + yy;
                let ghost cur = *self;
                self.plot(px, py, c, textured, semi);
                proof {
                    if self.env.in_area(px as int, py as int) {
                        lemma_vidx(px as int, py as int);
                    }
                    if !textured {
                        assert(self.vram@ == cur.plotted(px as int, py as int, pix, false, semi)) by {
                            reveal(Gpu::plotted);
                        }
                        lemma_rect_step(*old(self), cur, *self, x as int, y as int, w as int, yy as int, xx as int, pix, semi);
                    }
                }
                xx += 1;
            }
            yy += 1;
        }
    }
}


fn gp0_len(cmd: u8) -> (n: usize)
    ensures
        n == gp0_len_spec(cmd),
{
    if cmd == 0x02 {
        3
    } else if 0x20 <= cmd && cmd <= 0x3F {
        let verts: usize = if cmd & 0x08 != 0 {
            4
        } else {
            3
        };
        1 + verts + (if cmd & 0x10 != 0 {
            verts - 1
        } else {
            0
        }) + (if cmd & 0x04 != 0 {
            verts
        } else {
            0
        })
    } else if 0x40 <= cmd && cmd <= 0x5F {
        if cmd & 0x08 != 0 {
            3
        } else if cmd & 0x10 != 0 {
            4
        } else {
            3
        }
    } else if 0x60 <= cmd && cmd <= 0x7F {
        2 + (if cmd & 0x04 != 0 {
            1
        } else {
            0
        }) + (if (cmd >> 3u8) & 3 == 0 {
            1
        } else {
            0
        })
    } else if cmd == 0x80 {
        4
    } else if cmd == 0xA0 || cmd == 0xC0 {
        3
    } else {
        1
    }
}

impl Gpu {
    fn gp0_ready(&self) -> (b: bool)
        requires
            self.wf(),
            self.gp0_cmd is Some,
        ensures
            b == gp0_ready_spec(self.gp0_cmd.unwrap(), self.gp0_buf@),
    {
        let cmd = self.gp0_cmd.unwrap();
        if 0x40 <= cmd && cmd <= 0x5F && cmd & 0x08 != 0 && self.gp0_buf.len() > 0 {
            let last = self.gp0_buf[self.gp0_buf.len() - 1];
            return last & 0xF000_F000 == 0x5000_5000 && self.gp0_buf.len() >= 3;
        }
        self.gp0_buf.len() >= gp0_len(cmd)
    }

    /// Run the assembled GP0 command `cmd`.
    #[verifier::rlimit(40)]
    fn exec_gp0(&mut self, cmd: u8)
        requires
            old(self).inv(),
            old(self).gp0_cmd == Some(cmd),
            gp0_ready_spec(cmd, old(self).gp0_buf@),
            old(self).plotting == is_raster(cmd),
        ensures
            final(self).inv(),
            forall|i: int|
                0 <= i < VRAM_W * VRAM_H && #[trigger] final(self).vram@[i] != old(self).vram@[i]
                    ==> may_change(&*old(self), cmd, old(self).gp0_buf@, i),
            final(self).draw_busy >= old(self).draw_busy,
            final(self).gp0_cmd == old(self).gp0_cmd,
            final(self).gp0_buf@ == old(self).gp0_buf@,
            final(self).fifo@ == old(self).fifo@,
            final(self).plotting == old(self).plotting,
            final(self).plot_cost == old(self).plot_cost,
            final(self).same_crt(&*old(self)),
            final(self).same_log(&*old(self)),
            final(self).gpuread == old(self).gpuread,
            0xE1 <= cmd <= 0xE6 ==> final(self).env == env_after_gp0(
                old(self).env,
                cmd,
                old(self).gp0_buf@[0],
            ),
            cmd == 0x1F ==> final(self).disp == (DisplayRegs { irq: true, ..old(self).disp }),
            cmd != 0x1F ==> final(self).disp == old(self).disp,
            (cmd == 0xA0 || cmd == 0xC0) ==> (final(self).transfer matches Some(t) && t.to_vram
                == (cmd == 0xA0) && t.pos == 0),
            !(cmd == 0xA0 || cmd == 0xC0) ==> final(self).transfer == old(self).transfer,
            cmd == 0x01 ==> final(self).clut_cache is None && forall|x: int, y: int|
                TexCache::in_range(x, y) ==> #[trigger] final(self).tex_cache.entry(x, y) is None,
            cmd == 0x02 ==> ({
                let buf = old(self).gp0_buf@;
                forall|i: int|
                    0 <= i < VRAM_W * VRAM_H ==> #[trigger] final(self).vram@[i] == if fill_done(
                        fill_x(buf[1]),
                        fill_y(buf[1]),
                        fill_w(buf[2]),
                        fill_h(buf[2]),
                        0,
                        i % 1024,
                        i / 1024,
                        old(self).disp.vram_2m,
                    ) && !(old(self).env.mask_check && old(self).vram@[i] >= 0x8000) {
                        color555(buf[0]) as u16
                    } else {
                        old(self).vram@[i]
                    }
            }),
            0x20 <= cmd <= 0x3F && old(self).gp0_buf@[0] & 0x0400_0000 == 0 ==> final(self).vram@
                == poly_vram(*old(self)),
            0x40 <= cmd <= 0x5F ==> line_done(*old(self), *final(self)),
            cmd == 0x80 ==> final(self).vram@ == copy_rect(
                old(self).vram@,
                old(self).env.mask_check,
                old(self).disp.vram_2m,
                (old(self).gp0_buf@[1] % 1024) as int,
                (old(self).gp0_buf@[1] as int / 0x10000) % 512,
                (old(self).gp0_buf@[2] % 1024) as int,
                (old(self).gp0_buf@[2] as int / 0x10000) % 512,
                xfer_w(old(self).gp0_buf@[3]),
                xfer_h(old(self).gp0_buf@[3]),
            ),
            0x60 <= cmd <= 0x7F && old(self).gp0_buf@[0] & 0x0400_0000 == 0 ==> ({
                let buf = old(self).gp0_buf@;
                let p = old(self).vertex_spec(buf[1]);
                let wh = rect_size(buf);
                let semi = buf[0] & 0x0200_0000 != 0;
                forall|i: int|
                    0 <= i < VRAM_W * VRAM_H ==> #[trigger] final(self).vram@[i] == if wrap_dx(p.0, i)
                        < wh.0 && wrap_dy(p.1, i) < wh.1 {
                        old(self).plotted(
                            p.0 + wrap_dx(p.0, i),
                            p.1 + wrap_dy(p.1, i),
                            cmd_pixel(buf[0]),
                            false,
                            semi,
                        )[i]
                    } else {
                        old(self).vram@[i]
                    }
            }),
    {
        proof {
            assert(gp0_len_spec(cmd) >= 1);
        }
        if cmd == 0x01 {
            self.tex_cache.clear();
            self.clut_cache = None;
        } else if cmd == 0x1F {
            self.disp.irq = true;
            self.update_stat();
        } else if cmd == 0x02 {
            let c = self.gp0_buf[0];
            let xy = self.gp0_buf[1];
            let wh = self.gp0_buf[2];
            self.fill(c, xy, wh);
        } else if 0x20 <= cmd && cmd <= 0x3F {
            self.polygon();
        } else if 0x40 <= cmd && cmd <= 0x5F {
            self.line();
        } else if 0x60 <= cmd && cmd <= 0x7F {
            self.rectangle();
        } else if cmd == 0x80 {
            self.tex_cache.clear();
            let src = self.gp0_buf[1];
            let dst = self.gp0_buf[2];
            let wh = self.gp0_buf[3];
            self.vram_copy(src, dst, wh);
        } else if cmd == 0xA0 || cmd == 0xC0 {
            let xy = self.gp0_buf[1];
            let wh = self.gp0_buf[2];
            self.begin_transfer(cmd == 0xA0, xy, wh);
        } else if 0xE1 <= cmd && cmd <= 0xE6 {
            let p = self.gp0_buf[0];
            self.exec_env(cmd, p);
        }
    }
}


impl Gpu {
    /// Take one word off the FIFO: transfer data, or a command word or parameter.
    fn accept_word(&mut self, word: u32)
        requires
            old(self).wf(),
        ensures
            final(self).wf(),
            final(self).fifo@ == old(self).fifo@,
            final(self).same_crt(&*old(self)),
            final(self).gp0_count == old(self).gp0_count,
            final(self).gp1_count == old(self).gp1_count,
            final(self).gp0_words@ == old(self).gp0_words@,
            final(self).gp1_cmds@ == old(self).gp1_cmds@,
            final(self).gpuread == old(self).gpuread,
            final(self).disp == (DisplayRegs { irq: final(self).disp.irq, ..old(self).disp }),
            word_accepted(*old(self), *final(self), word),
    {
        match self.transfer {
            Some(t) => {
                if t.to_vram {
                    self.transfer_write(word);
                    return;
                }
            },
            None => {},
        }
        self.assemble(word);
    }

    /// A command word, or a parameter of the command being assembled.
    fn assemble(&mut self, word: u32)
        requires
            old(self).wf(),
        ensures
            final(self).wf(),
            final(self).fifo@ == old(self).fifo@,
            final(self).same_crt(&*old(self)),
            final(self).gp0_count == old(self).gp0_count,
            final(self).gp1_count == old(self).gp1_count,
            final(self).gp0_words@ == old(self).gp0_words@,
            final(self).gp1_cmds@ == old(self).gp1_cmds@,
            final(self).gpuread == old(self).gpuread,
            final(self).disp == (DisplayRegs { irq: final(self).disp.irq, ..old(self).disp }),
            assembled(*old(self), *final(self), word),
    {
        proof {
            lemma_cmd_bits(word);
        }
        if self.gp0_cmd.is_none() {
            let cmd = (word >> 24u32) as u8;
            if self.gp0_cmds.len() < 64 {
                self.gp0_cmds.push(cmd);
            }
            if cmd == 0 || (0x04 <= cmd && cmd <= 0x1E) {
                return;
            }
            self.gp0_cmd = Some(cmd);
            if 0x20 <= cmd && cmd <= 0x5F {
                self.block28 = true;
            }
            self.gp0_buf.clear();
            self.gp0_buf.push(word);
            assert(self.gp0_buf@ =~= seq![word]);
            proof {
                lemma_halves(word);
                lemma_u32_fields(word);
            }
        } else {
            self.gp0_buf.push(word);
        }
        if self.gp0_ready() {
            self.run_command();
        }
    }

    /// Execute the command whose words are all in.
    fn run_command(&mut self)
        requires
            old(self).wf(),
            old(self).gp0_cmd is Some,
            gp0_ready_spec(old(self).gp0_cmd.unwrap(), old(self).gp0_buf@),
        ensures
            final(self).wf(),
            final(self).fifo@ == old(self).fifo@,
            final(self).same_crt(&*old(self)),
            final(self).gp0_count == old(self).gp0_count,
            final(self).gp1_count == old(self).gp1_count,
            final(self).gp0_words@ == old(self).gp0_words@,
            final(self).gp1_cmds@ == old(self).gp1_cmds@,
            final(self).gpuread == old(self).gpuread,
            final(self).disp == (DisplayRegs { irq: final(self).disp.irq, ..old(self).disp }),
            final(self).gp0_cmd is None,
    {
        let cmd = self.gp0_cmd.unwrap();
        // Fill is a 16-pixel burst, not fragment raster. Raster primitives take
        // one cycle per written pixel (two if textured).
        let raster = (0x20 <= cmd && cmd <= 0x7F) || cmd == 0x80;
        self.plotting = raster;
        self.plot_cost = if raster && cmd & 4 != 0 && 0x20 <= cmd && cmd <= 0x7F {
            2
        } else {
            1
        };
        self.exec_gp0(cmd);
        self.plotting = false;
        if raster || cmd == 0x02 {
            if self.draw_busy < 1 {
                self.draw_busy = 1;
            }
            self.block28 = true;
        }
        self.gp0_cmd = None;
        self.gp0_buf.clear();
    }

    /// Spend `cycles` on drawing and on the words waiting in the FIFO.
    fn run_fifo(&mut self, cycles: u32)
        requires
            old(self).wf(),
        ensures
            final(self).wf(),
            final(self).fifo@.len() <= old(self).fifo@.len(),
            final(self).fifo@ == old(self).fifo@.subrange(
                old(self).fifo@.len() - final(self).fifo@.len(),
                old(self).fifo@.len() as int,
            ),
            final(self).same_crt(&*old(self)),
            final(self).disp == (DisplayRegs { irq: final(self).disp.irq, ..old(self).disp }),
            final(self).gp0_count == old(self).gp0_count,
            final(self).gp0_words@ == old(self).gp0_words@,
            final(self).gp1_count == old(self).gp1_count,
            final(self).gp1_cmds@ == old(self).gp1_cmds@,
            cycles == 1 && old(self).draw_busy > 0 ==> {
                &&& final(self).draw_busy == old(self).draw_busy - 1
                &&& final(self).fifo@ == old(self).fifo@
                &&& final(self).vram@ == old(self).vram@
            },
            cycles == 1 && old(self).draw_busy == 0 && old(self).fifo@.len() > 0
                ==> final(self).fifo@ == old(self).fifo@.drop_first(),
            cycles == 1 && old(self).draw_busy == 0 && old(self).fifo@.len() > 0 ==> word_accepted(
                *old(self),
                *final(self),
                old(self).fifo@[0],
            ),
            old(self).fifo@.len() == 0 ==> {
                &&& final(self).draw_busy == old(self).draw_busy - (if cycles
                    < old(self).draw_busy {
                    cycles as int
                } else {
                    old(self).draw_busy as int
                })
                &&& final(self).vram@ == old(self).vram@
                &&& final(self).env == old(self).env
                &&& final(self).gp0_cmd == old(self).gp0_cmd
                &&& final(self).transfer == old(self).transfer
            },
    {
        let mut left = cycles;
        let ghost start = self.fifo@;
        while left > 0
            invariant
                self.wf(),
                left <= cycles,
                self.fifo@.len() <= start.len(),
                start == old(self).fifo@,
                self.fifo@ == start.subrange(start.len() - self.fifo@.len(), start.len() as int),
                self.same_crt(&*old(self)),
                self.disp == (DisplayRegs { irq: self.disp.irq, ..old(self).disp }),
                self.gp0_count == old(self).gp0_count,
                self.gp0_words@ == old(self).gp0_words@,
                self.gp1_count == old(self).gp1_count,
                self.gp1_cmds@ == old(self).gp1_cmds@,
                cycles == 1 && old(self).draw_busy > 0 && left == 1 ==> self.draw_busy == old(
                    self,
                ).draw_busy && self.fifo@ == start && self.vram@ == old(self).vram@,
                cycles == 1 && old(self).draw_busy > 0 && left == 0 ==> self.draw_busy == old(
                    self,
                ).draw_busy - 1 && self.fifo@ == start && self.vram@ == old(self).vram@,
                cycles == 1 && old(self).draw_busy == 0 && left == 1 ==> self.fifo@ == start
                    && self.draw_busy == 0,
                cycles == 1 && old(self).draw_busy == 0 && start.len() > 0 && left == 0
                    ==> self.fifo@ == start.drop_first(),
                cycles == 1 && old(self).draw_busy == 0 && start.len() > 0 && left == 0
                    ==> word_accepted(*old(self), *self, start[0]),
                left == cycles ==> *self == *old(self),
                start.len() == 0 ==> {
                    &&& self.fifo@.len() == 0
                    &&& self.draw_busy + (cycles - left) == old(self).draw_busy || (
                    self.draw_busy == 0 && left < cycles && old(self).draw_busy <= cycles - left)
                    &&& self.vram@ == old(self).vram@
                    &&& self.env == old(self).env
                    &&& self.gp0_cmd == old(self).gp0_cmd
                    &&& self.transfer == old(self).transfer
                },
            ensures
                left == 0 || (self.draw_busy == 0 && self.fifo@.len() == 0),
            decreases left,
        {
            if self.draw_busy > 0 {
                let n = if self.draw_busy < left {
                    self.draw_busy
                } else {
                    left
                };
                self.draw_busy = self.draw_busy - n;
                left = left - n;
                if self.draw_busy == 0 {
                    self.block28 = false;
                }
                continue ;
            }
            if self.fifo.len() > 0 {
                let ghost before = self.fifo@;
                let ghost at_pop = *self;
                let w = self.fifo.pop_front().unwrap();
                proof {
                    assert(self.fifo@ == before.drop_first());
                    assert(self.fifo@ == start.subrange(start.len() - self.fifo@.len(), start.len() as int));
                }
                let ghost popped = *self;
                self.accept_word(w);
                proof {
                    if left == cycles {
                        assert(w == before[0]);
                        assert(popped.transfer == at_pop.transfer && popped.gp0_cmd == at_pop.gp0_cmd
                            && popped.gp0_buf@ == at_pop.gp0_buf@ && popped.env == at_pop.env
                            && popped.disp == at_pop.disp && popped.vram@ == at_pop.vram@);
                    }
                }
                left = left - 1;
                continue ;
            }
            break ;
        }
        proof {
            if start.len() == 0 {
                if cycles < old(self).draw_busy {
                } else {
                }
            }
        }
    }
}


proof fn lemma_row_major(w: int, h: int, r: int, c: int)
    requires
        0 <= r < h,
        0 <= c < w,
    ensures
        0 <= r * w + c < w * h,
        forall|r2: int, c2: int|
            0 <= r2 < h && 0 <= c2 < w && (r2 != r || c2 != c) ==> #[trigger] (r2 * w + c2) != r
                * w + c,
{
    assert(0 <= r * w + c < w * h) by (nonlinear_arith)
        requires
            0 <= r < h,
            0 <= c < w,
    ;
    assert forall|r2: int, c2: int|
        0 <= r2 < h && 0 <= c2 < w && (r2 != r || c2 != c) implies #[trigger] (r2 * w + c2) != r
        * w + c by {
        if r2 < r {
            assert(r2 * w + c2 < r * w + c) by (nonlinear_arith)
                requires
                    r2 < r,
                    0 <= c2 < w,
                    0 <= c,
            ;
        } else if r2 > r {
            assert(r2 * w + c2 > r * w + c) by (nonlinear_arith)
                requires
                    r2 > r,
                    0 <= c < w,
                    0 <= c2,
            ;
        }
    }
}

impl Gpu {
    fn vis_w(&self) -> (w: u32)
        ensures
            w == vis_w_spec(self.disp),
            1 <= w <= 640,
    {
        let h = self.disp.hres;
        if h < 1 {
            1
        } else if h > 640 {
            640
        } else {
            h
        }
    }

    fn vis_h(&self) -> (h: u32)
        ensures
            h == vis_h_spec(self.disp),
            1 <= h <= 480,
    {
        let d = self.disp;
        let range_h = if d.range_y2 > d.range_y1 {
            d.range_y2 - d.range_y1
        } else {
            0
        };
        let v = if d.vres < 1 {
            1
        } else if d.vres > 480 {
            480
        } else {
            d.vres
        };
        if d.vres >= 480 {
            v
        } else if range_h > 0 {
            if range_h > 480 {
                480
            } else {
                range_h
            }
        } else {
            v
        }
    }

    /// Size the CRT buffer to the displayed w × h.
    fn size_crt(&mut self, w: u32, h: u32)
        requires
            old(self).wf(),
            1 <= w <= 640,
            1 <= h <= 480,
        ensures
            final(self).wf(),
            final(self).crt_w == w,
            final(self).crt_h == h,
            old(self).crt_w == w && old(self).crt_h == h ==> final(self).crt@ == old(self).crt@,
            final(self).vram@ == old(self).vram@,
            final(self).disp == old(self).disp,
            final(self).crt_line == old(self).crt_line,
            final(self).odd_frame == old(self).odd_frame,
            final(self).in_vblank == old(self).in_vblank,
            final(self).scanline == old(self).scanline,
            final(self).same_queue(&*old(self)),
            final(self).same_log(&*old(self)),
            final(self).tex_cache == old(self).tex_cache,
            final(self).clut_cache == old(self).clut_cache,
            final(self).env == old(self).env,
            final(self).stat == old(self).stat,
            final(self).block28 == old(self).block28,
            final(self).gpuread == old(self).gpuread,
    {
        if self.crt_w != w || self.crt_h != h {
            self.crt_w = w;
            self.crt_h = h;
            assert(w * h <= 640 * 480) by (nonlinear_arith)
                requires
                    w <= 640,
                    h <= 480,
            ;
            self.crt.resize((w * h) as usize, 0);
        }
    }

    /// Latch scanline `line` of the display area into the CRT buffer (240-line modes).
    fn latch_line(&mut self, line: u32)
        requires
            old(self).wf(),
        ensures
            final(self).wf(),
            final(self).crt_line == line,
            final(self).crt_w == vis_w_spec(old(self).disp),
            final(self).crt_h == vis_h_spec(old(self).disp),
            vis_h_spec(old(self).disp) < 480 && line < vis_h_spec(old(self).disp) ==> forall|x: int|
                0 <= x < vis_w_spec(old(self).disp) ==> #[trigger] final(self).crt@[line * vis_w_spec(
                    old(self).disp,
                ) + x] == old(self).read_half_spec(
                    old(self).disp.x + x,
                    old(self).disp.y + line,
                ),
            final(self).vram@ == old(self).vram@,
            final(self).disp == old(self).disp,
            final(self).odd_frame == old(self).odd_frame,
            final(self).in_vblank == old(self).in_vblank,
            final(self).scanline == old(self).scanline,
            final(self).same_queue(&*old(self)),
            final(self).same_log(&*old(self)),
            final(self).tex_cache == old(self).tex_cache,
            final(self).clut_cache == old(self).clut_cache,
            final(self).env == old(self).env,
            final(self).stat == old(self).stat,
            final(self).block28 == old(self).block28,
            final(self).gpuread == old(self).gpuread,
    {
        let w = self.vis_w();
        let h = self.vis_h();
        self.size_crt(w, h);
        // 480i is latched whole at vblank.
        if h < 480 && line < h {
            proof {
                lemma_row_major(w as int, h as int, line as int, 0);
            }
            assert(line * w <= 480 * 640) by (nonlinear_arith)
                requires
                    line < 480,
                    w <= 640,
            ;
            let row = (line * w) as usize;
            let mut x: u32 = 0;
            while x < w
                invariant
                    self.wf(),
                    1 <= w <= 640,
                    1 <= h <= 480,
                    line < h,
                    row == line * w,
                    w == self.crt_w,
                    h == self.crt_h,
                    x <= w,
                    self.vram@ == old(self).vram@,
                    self.disp == old(self).disp,
                    self.crt_line == old(self).crt_line,
                    self.odd_frame == old(self).odd_frame,
                    self.in_vblank == old(self).in_vblank,
                    self.scanline == old(self).scanline,
                    self.same_queue(&*old(self)),
                    self.same_log(&*old(self)),
                    self.tex_cache == old(self).tex_cache,
                    self.clut_cache == old(self).clut_cache,
                    self.env == old(self).env,
                    self.stat == old(self).stat,
                    self.block28 == old(self).block28,
                    self.gpuread == old(self).gpuread,
                    forall|k: int|
                        0 <= k < x ==> #[trigger] self.crt@[row + k] == old(self).read_half_spec(
                            old(self).disp.x + k,
                            old(self).disp.y + line,
                        ),
                decreases w - x,
            {
                proof {
                    lemma_row_major(w as int, h as int, line as int, x as int);
                }
                let v = self.read_half(self.disp.x + x, self.disp.y + line);
                let ghost before = self.crt@;
                self.crt.set(row + x as usize, v);
                proof {
                    assert forall|k: int|
                        0 <= k < x + 1 implies #[trigger] self.crt@[row + k] == old(self).read_half_spec(
                        old(self).disp.x + k,
                        old(self).disp.y + line,
                    ) by {
                        if k < x {
                            assert(self.crt@[row + k] == before[row + k]);
                        }
                    }
                }
                x += 1;
            }
        }
        self.crt_line = line;
    }

    /// 24-bit display pixel (x, y): bytes 3x..3x+2 of row y, as RGB555.
    fn read_24(&self, x: u32, y: u32) -> (p: u16)
        requires
            self.inv(),
            x < 2048,
            y < 1024,
        ensures
            p == self.read_24_spec(x as int, y as int),
    {
        let byte: usize = (y as usize) * 2048 + (x as usize) * 3;
        let r = self.byte_of(byte, y);
        let g = self.byte_of(byte + 1, y);
        let b = self.byte_of(byte + 2, y);
        crate::raster::rgb888_to_555(r, g, b)
    }

    fn byte_of(&self, off: usize, y: u32) -> (b: u32)
        requires
            self.inv(),
            off < 0x40_0000,
        ensures
            b == self.byte_at(off as int, y as int),
            b <= 255,
    {
        let half = self.read_half(((off / 2) % 1024) as u32, y);
        if off % 2 == 0 {
            (half % 256) as u32
        } else {
            (half / 256) as u32
        }
    }

    /// Latch the whole display area at the start of vblank.
    #[verifier::rlimit(30)]
    fn latch_frame(&mut self)
        requires
            old(self).wf(),
        ensures
            final(self).wf(),
            old(self).disp.enabled ==> {
                &&& final(self).crt_w == vis_w_spec(old(self).disp)
                &&& final(self).crt_h == vis_h_spec(old(self).disp)
                &&& final(self).crt_line == u32::MAX
                &&& forall|y: int, x: int|
                    0 <= y < vis_h_spec(old(self).disp) && 0 <= x < vis_w_spec(old(self).disp)
                        ==> #[trigger] final(self).crt@[y * vis_w_spec(old(self).disp) + x] == if old(
                        self,
                    ).disp.disp_24 {
                        old(self).read_24_spec(old(self).disp.x + x, old(self).disp.y + y)
                    } else {
                        old(self).read_half_spec(old(self).disp.x + x, old(self).disp.y + y) as int
                    }
            },
            !old(self).disp.enabled ==> final(self).same_crt(&*old(self)),
            final(self).vram@ == old(self).vram@,
            final(self).disp == old(self).disp,
            final(self).odd_frame == old(self).odd_frame,
            final(self).in_vblank == old(self).in_vblank,
            final(self).scanline == old(self).scanline,
            final(self).same_queue(&*old(self)),
            final(self).same_log(&*old(self)),
            final(self).tex_cache == old(self).tex_cache,
            final(self).clut_cache == old(self).clut_cache,
            final(self).env == old(self).env,
            final(self).stat == old(self).stat,
            final(self).block28 == old(self).block28,
            final(self).gpuread == old(self).gpuread,
    {
        if !self.disp.enabled {
            return;
        }
        let w = self.vis_w();
        let h = self.vis_h();
        self.size_crt(w, h);
        let ghost g0 = *old(self);
        let mut y: u32 = 0;
        while y < h
            invariant
                self.wf(),
                1 <= w <= 640,
                1 <= h <= 480,
                w == self.crt_w,
                h == self.crt_h,
                w == vis_w_spec(g0.disp),
                h == vis_h_spec(g0.disp),
                y <= h,
                g0 == *old(self),
                self.vram@ == g0.vram@,
                self.disp == g0.disp,
                self.crt_line == g0.crt_line,
                self.odd_frame == g0.odd_frame,
                self.in_vblank == g0.in_vblank,
                self.scanline == g0.scanline,
                self.same_queue(&g0),
                self.same_log(&g0),
                self.tex_cache == g0.tex_cache,
                self.clut_cache == g0.clut_cache,
                self.env == g0.env,
                self.stat == g0.stat,
                self.block28 == g0.block28,
                self.gpuread == g0.gpuread,
                forall|r: int, c: int|
                    0 <= r < y && 0 <= c < w ==> #[trigger] self.crt@[r * w + c] == if g0.disp.disp_24 {
                        g0.read_24_spec(g0.disp.x + c, g0.disp.y + r)
                    } else {
                        g0.read_half_spec(g0.disp.x + c, g0.disp.y + r) as int
                    },
            decreases h - y,
        {
            let mut x: u32 = 0;
            while x < w
                invariant
                    self.wf(),
                    1 <= w <= 640,
                    1 <= h <= 480,
                    w == self.crt_w,
                    h == self.crt_h,
                    y < h,
                    x <= w,
                    self.vram@ == g0.vram@,
                    self.disp == g0.disp,
                    self.crt_line == g0.crt_line,
                    self.odd_frame == g0.odd_frame,
                    self.in_vblank == g0.in_vblank,
                    self.scanline == g0.scanline,
                    self.same_queue(&g0),
                    self.same_log(&g0),
                    self.tex_cache == g0.tex_cache,
                    self.clut_cache == g0.clut_cache,
                    self.env == g0.env,
                    self.stat == g0.stat,
                    self.block28 == g0.block28,
                    self.gpuread == g0.gpuread,
                    forall|r: int, c: int|
                        (0 <= r < y && 0 <= c < w) || (r == y && 0 <= c < x) ==> #[trigger] self.crt@[r * w + c] == if g0.disp.disp_24 {
                            g0.read_24_spec(g0.disp.x + c, g0.disp.y + r)
                        } else {
                            g0.read_half_spec(g0.disp.x + c, g0.disp.y + r) as int
                        },
                decreases w - x,
            {
                proof {
                    lemma_row_major(w as int, h as int, y as int, x as int);
                }
                let dx = self.disp.x + x;
                let dy = self.disp.y + y;
                let v = if self.disp.disp_24 {
                    self.read_24(dx, dy)
                } else {
                    self.read_half(dx, dy)
                };
                assert(y * w + x < 640 * 480) by (nonlinear_arith)
                    requires
                        y < h,
                        x < w,
                        w <= 640,
                        h <= 480,
                ;
                let i = (y * w + x) as usize;
                let ghost before = self.crt@;
                self.crt.set(i, v);
                proof {
                    assert forall|r: int, c: int|
                        (0 <= r < y && 0 <= c < w) || (r == y && 0 <= c < x + 1) implies #[trigger] self.crt@[r * w + c] == if g0.disp.disp_24 {
                        g0.read_24_spec(g0.disp.x + c, g0.disp.y + r)
                    } else {
                        g0.read_half_spec(g0.disp.x + c, g0.disp.y + r) as int
                    } by {
                        lemma_row_major(w as int, h as int, y as int, x as int);
                        if r == y && c == x {
                        } else {
                            lemma_row_major(w as int, h as int, r, c);
                            assert(r * w + c != y * w + x);
                            assert(self.crt@[r * w + c] == before[r * w + c]);
                        }
                    }
                }
                x += 1;
            }
            y += 1;
        }
        self.crt_line = u32::MAX;
    }
}


impl Gpu {
    /// Advance the GPU by `cycles` while the CRT is on scanline `line` (`vblank` during
    /// the vertical blank): draw, drain the FIFO, latch the display area.
    pub fn tick(&mut self, cycles: u32, line: u32, vblank: bool)
        requires
            old(self).wf(),
        ensures
            final(self).wf(),
            final(self).stat_synced(),
            final(self).in_vblank == vblank,
            final(self).scanline == line,
            final(self).odd_frame == if vblank && !old(self).in_vblank {
                !old(self).odd_frame
            } else {
                old(self).odd_frame
            },
            final(self).disp == (DisplayRegs { irq: final(self).disp.irq, ..old(self).disp }),
            final(self).fifo@.len() <= old(self).fifo@.len(),
            final(self).gp0_count == old(self).gp0_count,
            final(self).gp0_words@ == old(self).gp0_words@,
            final(self).gp1_count == old(self).gp1_count,
            final(self).gp1_cmds@ == old(self).gp1_cmds@,
            cycles == 1 && old(self).draw_busy > 0 ==> {
                &&& final(self).draw_busy == old(self).draw_busy - 1
                &&& final(self).fifo@ == old(self).fifo@
                &&& final(self).vram@ == old(self).vram@
            },
            cycles == 1 && old(self).draw_busy == 0 && old(self).fifo@.len() > 0
                ==> final(self).fifo@ == old(self).fifo@.drop_first(),
            cycles == 1 && old(self).draw_busy == 0 && old(self).fifo@.len() > 0 ==> word_accepted(
                *old(self),
                *final(self),
                old(self).fifo@[0],
            ),
            old(self).fifo@.len() == 0 ==> {
                &&& final(self).draw_busy == old(self).draw_busy - (if cycles
                    < old(self).draw_busy {
                    cycles as int
                } else {
                    old(self).draw_busy as int
                })
                &&& final(self).vram@ == old(self).vram@
                &&& final(self).env == old(self).env
                &&& final(self).gp0_cmd == old(self).gp0_cmd
                &&& final(self).transfer == old(self).transfer
            },
            !vblank && old(self).disp.enabled && line != old(self).crt_line && vis_h_spec(
                old(self).disp,
            ) < 480 && line < vis_h_spec(old(self).disp) ==> forall|x: int|
                0 <= x < vis_w_spec(old(self).disp) ==> #[trigger] final(self).crt@[line
                    * vis_w_spec(old(self).disp) + x] == final(self).read_half_spec(
                    old(self).disp.x + x,
                    old(self).disp.y + line,
                ),
            vblank && !old(self).in_vblank && old(self).disp.enabled ==> forall|y: int, x: int|
                0 <= y < vis_h_spec(old(self).disp) && 0 <= x < vis_w_spec(old(self).disp)
                    ==> #[trigger] final(self).crt@[y * vis_w_spec(old(self).disp) + x] == if old(
                    self,
                ).disp.disp_24 {
                    final(self).read_24_spec(old(self).disp.x + x, old(self).disp.y + y)
                } else {
                    final(self).read_half_spec(old(self).disp.x + x, old(self).disp.y + y) as int
                },
    {
        self.run_fifo(cycles);
        if !vblank && self.disp.enabled && line != self.crt_line {
            self.latch_line(line);
        }
        if vblank && !self.in_vblank {
            self.odd_frame = !self.odd_frame;
            self.latch_frame();
        }
        self.in_vblank = vblank;
        self.scanline = line;
        self.update_stat();
    }

    /// A word written to GP0 (1F801810h). GP0(E3h..E5h) run at once when no command is
    /// being assembled; a NOP is dropped when the FIFO is idle; anything else waits
    /// for FIFO space, drawing meanwhile, and is queued.
    pub fn gp0(&mut self, word: u32)
        requires
            old(self).wf(),
        ensures
            final(self).wf(),
            gp0_effect(*old(self), *final(self), word),
    {
        self.gp0_count = self.gp0_count.wrapping_add(1);
        if self.gp0_words.len() < 96 {
            self.gp0_words.push(word);
        }
        let cmd = (word >> 24u32) as u8;
        proof {
            lemma_halves(word);
            lemma_u32_fields(word);
        }
        // GP0(E3h..E5h) take no FIFO space; they run immediately. A parameter of a
        // command being assembled is not a command.
        if 0xE3 <= cmd && cmd <= 0xE5 && self.gp0_cmd.is_none() && self.transfer.is_none() {
            self.exec_env(cmd, word);
            self.update_stat();
            return;
        }
        // GP0(00h) and 04h..1Eh are NOPs only as command words, not as parameters.
        if self.gp0_cmd.is_none() && self.transfer.is_none() && self.fifo.len() == 0 && (cmd == 0
            || (0x04 <= cmd && cmd <= 0x1E)) {
            return;
        }
        while self.fifo.len() >= FIFO_WORDS
            invariant
                self.wf(),
                self.gp0_count == (old(self).gp0_count + 1) % 0x1_0000_0000_0000_0000,
                self.gp0_words@ == log_push(old(self).gp0_words@, word, 96),
                old(self).fifo@.len() < FIFO_WORDS ==> {
                    &&& self.fifo@ == old(self).fifo@
                    &&& self.vram@ == old(self).vram@
                    &&& self.env == old(self).env
                    &&& self.disp == old(self).disp
                    &&& self.gp0_cmd == old(self).gp0_cmd
                    &&& self.transfer == old(self).transfer
                    &&& self.draw_busy == old(self).draw_busy
                },
            decreases self.fifo@.len(), self.draw_busy,
        {
            self.tick(1, 0, false);
        }
        self.fifo.push_back(word);
        self.update_stat();
    }

    /// DMA channel 2 writing to the GPU: the same as a GP0 store.
    pub fn dma_write(&mut self, word: u32)
        requires
            old(self).wf(),
        ensures
            final(self).wf(),
            gp0_effect(*old(self), *final(self), word),
    {
        self.gp0(word);
    }

    pub fn reset(&mut self)
        ensures
            final(self).is_initial(),
    {
        *self = Self::new();
    }
}


impl Gpu {
    /// The Display area as the CRT last latched it (black while the display is off).
    pub fn display_area(&self) -> (d: DisplayArea)
        requires
            self.wf(),
        ensures
            d.width == vis_w_spec(self.disp),
            d.height == vis_h_spec(self.disp),
            d.bpp24 == self.disp.disp_24,
            d.pixels.len() == d.width * d.height,
            if self.disp.enabled && self.crt_w == d.width && self.crt_h == d.height {
                d.pixels@ == self.crt@
            } else {
                forall|i: int| 0 <= i < d.pixels.len() ==> #[trigger] d.pixels@[i] == 0
            },
    {
        let w = self.vis_w();
        let h = self.vis_h();
        assert(w * h <= 640 * 480) by (nonlinear_arith)
            requires
                w <= 640,
                h <= 480,
        ;
        if self.disp.enabled && self.crt_w == w && self.crt_h == h && self.crt.len() == (w * h) as usize {
            let mut pixels: Vec<u16> = Vec::new();
            let mut i: usize = 0;
            while i < self.crt.len()
                invariant
                    i <= self.crt.len(),
                    pixels@ == self.crt@.subrange(0, i as int),
                decreases self.crt.len() - i,
            {
                pixels.push(self.crt[i]);
                i += 1;
            }
            assert(pixels@ == self.crt@);
            return DisplayArea { width: w, height: h, pixels, bpp24: self.disp.disp_24 };
        }
        DisplayArea {
            width: w,
            height: h,
            pixels: vec![0u16; (w * h) as usize],
            bpp24: self.disp.disp_24,
        }
    }

    /// A w × h rectangle of live VRAM at (x, y), wrapping at the edges.
    pub fn vram_rect(&self, x: u32, y: u32, w: u32, h: u32) -> (d: DisplayArea)
        requires
            self.wf(),
            x + w <= u32::MAX,
            y + h <= u32::MAX,
            w * h <= usize::MAX,
        ensures
            d.width == w,
            d.height == h,
            d.bpp24 == self.disp.disp_24,
            d.pixels.len() == w * h,
            forall|r: int, c: int|
                0 <= r < h && 0 <= c < w ==> #[trigger] d.pixels@[r * w + c]
                    == self.read_half_spec(x + c, y + r),
    {
        let mut pixels: Vec<u16> = Vec::new();
        let mut yy: u32 = 0;
        while yy < h
            invariant
                self.wf(),
                x + w <= u32::MAX,
                y + h <= u32::MAX,
                w * h <= usize::MAX,
                yy <= h,
                pixels.len() == yy * w,
                forall|r: int, c: int|
                    0 <= r < yy && 0 <= c < w ==> #[trigger] pixels@[r * w + c]
                        == self.read_half_spec(x + c, y + r),
            decreases h - yy,
        {
            let mut xx: u32 = 0;
            while xx < w
                invariant
                    self.wf(),
                    x + w <= u32::MAX,
                    y + h <= u32::MAX,
                    w * h <= usize::MAX,
                    yy < h,
                    xx <= w,
                    pixels.len() == yy * w + xx,
                    forall|r: int, c: int|
                        ((0 <= r < yy && 0 <= c < w) || (r == yy && 0 <= c < xx)) ==> #[trigger] pixels@[r * w + c]
                            == self.read_half_spec(x + c, y + r),
                decreases w - xx,
            {
                proof {
                    lemma_row_major(w as int, h as int, yy as int, xx as int);
                    assert(yy * w + xx < w * h);
                }
                let ghost before = pixels@;
                pixels.push(self.read_half(x + xx, y + yy));
                proof {
                    assert forall|r: int, c: int|
                        ((0 <= r < yy && 0 <= c < w) || (r == yy && 0 <= c < xx + 1)) implies #[trigger] pixels@[r * w + c]
                        == self.read_half_spec(x + c, y + r) by {
                        lemma_row_major(w as int, h as int, yy as int, xx as int);
                        if !(r == yy && c == xx) {
                            lemma_row_major(w as int, h as int, r, c);
                            assert(r * w + c < yy * w + xx) by (nonlinear_arith)
                                requires
                                    (0 <= r < yy && 0 <= c < w) || (r == yy && 0 <= c < xx),
                            ;
                            assert(pixels@[r * w + c] == before[r * w + c]);
                        }
                    }
                }
                xx += 1;
            }
            proof {
                assert((yy + 1) * w == yy * w + w) by (nonlinear_arith);
            }
            yy += 1;
        }
        assert(pixels.len() == w * h) by (nonlinear_arith)
            requires
                pixels.len() == yy * w,
                yy == h,
        ;
        DisplayArea { width: w, height: h, pixels, bpp24: self.disp.disp_24 }
    }

    /// How many VRAM halfwords have a non-zero colour.
    pub fn lit_texels(&self) -> (n: usize)
        requires
            self.wf(),
        ensures
            n == lit_count(self.vram@, self.vram@.len() as int),
    {
        let mut n: usize = 0;
        let mut i: usize = 0;
        while i < self.vram.len()
            invariant
                i <= self.vram.len(),
                self.vram.len() == VRAM_W * VRAM_H,
                n == lit_count(self.vram@, i as int),
                n <= i,
            decreases self.vram.len() - i,
        {
            if self.vram[i] & 0x7FFF != 0 {
                n += 1;
            }
            let p = self.vram[i];
            proof {
                lemma_u16_fields(p);
            }
            i += 1;
        }
        n
    }

    /// The bounding box (x0, y0, x1, y1), inclusive, of the VRAM halfwords with a
    /// non-zero colour; None when there are none.
    pub fn lit_bbox(&self) -> (r: Option<(u32, u32, u32, u32)>)
        requires
            self.wf(),
        ensures
            r is None <==> forall|i: int| 0 <= i < VRAM_W * VRAM_H ==> #[trigger] self.vram@[i] % 0x8000 == 0,
            r matches Some((x0, y0, x1, y1)) ==> {
                &&& forall|i: int|
                    0 <= i < VRAM_W * VRAM_H && #[trigger] self.vram@[i] % 0x8000 != 0 ==> x0 <= i
                        % 1024 <= x1 && y0 <= i / 1024 <= y1
                &&& exists|i: int| 0 <= i < VRAM_W * VRAM_H && #[trigger] self.vram@[i] % 0x8000 != 0 && i % 1024 == x0
                &&& exists|i: int| 0 <= i < VRAM_W * VRAM_H && #[trigger] self.vram@[i] % 0x8000 != 0 && i % 1024 == x1
                &&& exists|i: int| 0 <= i < VRAM_W * VRAM_H && #[trigger] self.vram@[i] % 0x8000 != 0 && i / 1024 == y0
                &&& exists|i: int| 0 <= i < VRAM_W * VRAM_H && #[trigger] self.vram@[i] % 0x8000 != 0 && i / 1024 == y1
            },
    {
        let mut minx: u32 = 1024;
        let mut miny: u32 = 512;
        let mut maxx: u32 = 0;
        let mut maxy: u32 = 0;
        let mut any = false;
        let ghost mut wx0: int = 0;
        let ghost mut wx1: int = 0;
        let ghost mut wy0: int = 0;
        let ghost mut wy1: int = 0;
        let mut i: usize = 0;
        while i < self.vram.len()
            invariant
                i <= self.vram.len(),
                self.vram.len() == VRAM_W * VRAM_H,
                !any ==> forall|j: int| 0 <= j < i ==> #[trigger] self.vram@[j] % 0x8000 == 0,
                forall|j: int|
                    0 <= j < i && #[trigger] self.vram@[j] % 0x8000 != 0 ==> minx <= j % 1024 <= maxx
                        && miny <= j / 1024 <= maxy,
                any ==> 0 <= wx0 < i && self.vram@[wx0] % 0x8000 != 0 && wx0 % 1024 == minx,
                any ==> 0 <= wx1 < i && self.vram@[wx1] % 0x8000 != 0 && wx1 % 1024 == maxx,
                any ==> 0 <= wy0 < i && self.vram@[wy0] % 0x8000 != 0 && wy0 / 1024 == miny,
                any ==> 0 <= wy1 < i && self.vram@[wy1] % 0x8000 != 0 && wy1 / 1024 == maxy,
            decreases self.vram.len() - i,
        {
            let p = self.vram[i];
            proof {
                lemma_u16_fields(p);
            }
            if p & 0x7FFF != 0 {
                let x = (i % 1024) as u32;
                let y = (i / 1024) as u32;
                if !any {
                    minx = x;
                    maxx = x;
                    miny = y;
                    maxy = y;
                    proof {
                        wx0 = i as int;
                        wx1 = i as int;
                        wy0 = i as int;
                        wy1 = i as int;
                    }
                } else {
                    if x < minx {
                        minx = x;
                        proof {
                            wx0 = i as int;
                        }
                    }
                    if y < miny {
                        miny = y;
                        proof {
                            wy0 = i as int;
                        }
                    }
                    if x > maxx {
                        maxx = x;
                        proof {
                            wx1 = i as int;
                        }
                    }
                    if y > maxy {
                        maxy = y;
                        proof {
                            wy1 = i as int;
                        }
                    }
                }
                any = true;
            }
            i += 1;
        }
        proof {
            if any {
                assert(self.vram@[wx0] % 0x8000 != 0);
                assert(self.vram@[wx1] % 0x8000 != 0);
                assert(self.vram@[wy0] % 0x8000 != 0);
                assert(self.vram@[wy1] % 0x8000 != 0);
            }
        }
        if any {
            Some((minx, miny, maxx, maxy))
        } else {
            None
        }
    }

    /// (display x, display y, width, height, enabled).
    pub fn display_origin(&self) -> (r: (u32, u32, u32, u32, bool))
        ensures
            r == (self.disp.x, self.disp.y, self.disp.hres, self.disp.vres, self.disp.enabled),
    {
        (self.disp.x, self.disp.y, self.disp.hres, self.disp.vres, self.disp.enabled)
    }

    /// (offset x, offset y, area x1, y1, x2, y2).
    pub fn draw_env(&self) -> (r: (i32, i32, i32, i32, i32, i32))
        ensures
            r == (
                self.env.off_x,
                self.env.off_y,
                self.env.draw_x1,
                self.env.draw_y1,
                self.env.draw_x2,
                self.env.draw_y2,
            ),
    {
        (
            self.env.off_x,
            self.env.off_y,
            self.env.draw_x1,
            self.env.draw_y1,
            self.env.draw_x2,
            self.env.draw_y2,
        )
    }
}

} // verus!
