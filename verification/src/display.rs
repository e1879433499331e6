//! The picture the GPU outputs, and the crystal that paces everything.
use vstd::prelude::*;

verus! {

/// SCPH-1001 NTSC master crystal. Vblank (263×2160) and SPU 44100 (÷768) derive from this.
pub const CPU_HZ: u64 = 33_868_800;

/// NTSC cycles per scanline.
pub const CYCLES_PER_LINE: u64 = 2160;

/// NTSC scanlines per frame, including vblank.
pub const LINES_PER_FRAME: u32 = 263;

/// A rectangle of RGB555 pixels, row-major.
#[derive(Clone, Debug)]
pub struct DisplayArea {
    pub width: u32,
    pub height: u32,
    /// RGB555 pixels, row-major.
    pub pixels: Vec<u16>,
    /// GP1(08h) bit 4, Display Area Color Depth.
    pub bpp24: bool,
}

/// The 5-bit channel of an RGB555 pixel that starts at bit `shift`.
pub open spec fn channel5(p: u16, shift: u16) -> int {
    ((p as int) / pow2_16(shift)) % 32
}

/// 2^shift for the three channel positions of RGB555.
pub open spec fn pow2_16(shift: u16) -> int {
    if shift == 0 {
        1
    } else if shift == 5 {
        32
    } else {
        1024
    }
}

/// The 8-bit value a 5-bit channel expands to: the channel shifted up by three.
pub open spec fn expand5(p: u16, shift: u16) -> u8 {
    (channel5(p, shift) * 8) as u8
}

impl DisplayArea {
    /// 8-bit RGB, row-major, 3 bytes per pixel. The Debugger captures this.
    pub fn to_rgb888(&self) -> (rgb: Vec<u8>)
        requires
            self.pixels.len() * 3 <= usize::MAX,
        ensures
            rgb.len() == 3 * self.pixels.len(),
            forall|i: int|
                0 <= i < self.pixels.len() ==> {
                    &&& #[trigger] rgb@[3 * i] == expand5(self.pixels@[i], 0)
                    &&& rgb@[3 * i + 1] == expand5(self.pixels@[i], 5)
                    &&& rgb@[3 * i + 2] == expand5(self.pixels@[i], 10)
                },
    {
        let mut rgb: Vec<u8> = Vec::new();
        let mut i: usize = 0;
        while i < self.pixels.len()
            invariant
                i <= self.pixels.len(),
                self.pixels.len() * 3 <= usize::MAX,
                rgb.len() == 3 * i,
                forall|k: int|
                    0 <= k < i ==> {
                        &&& #[trigger] rgb@[3 * k] == expand5(self.pixels@[k], 0)
                        &&& rgb@[3 * k + 1] == expand5(self.pixels@[k], 5)
                        &&& rgb@[3 * k + 2] == expand5(self.pixels@[k], 10)
                    },
            decreases self.pixels.len() - i,
        {
            let p = self.pixels[i];
            let ghost prev = rgb@;
            rgb.push(((p % 32) * 8) as u8);
            rgb.push((((p / 32) % 32) * 8) as u8);
            rgb.push((((p / 1024) % 32) * 8) as u8);
            assert forall|k: int| 0 <= k < i + 1 implies {
                &&& #[trigger] rgb@[3 * k] == expand5(self.pixels@[k], 0)
                &&& rgb@[3 * k + 1] == expand5(self.pixels@[k], 5)
                &&& rgb@[3 * k + 2] == expand5(self.pixels@[k], 10)
            } by {
                if k < i {
                    assert(rgb@[3 * k] == prev[3 * k]);
                    assert(rgb@[3 * k + 1] == prev[3 * k + 1]);
                    assert(rgb@[3 * k + 2] == prev[3 * k + 2]);
                }
            }
            i += 1;
        }
        rgb
    }
}

/// Guest cycles in `nanos` of wall time at `CPU_HZ`, before saturation.
pub open spec fn cycles_in_nanos_spec(nanos: u128) -> int {
    let prod = if nanos * (CPU_HZ as int) > u128::MAX { u128::MAX as int } else { nanos * (
    CPU_HZ as int) };
    let n = prod / 1_000_000_000;
    if n > u64::MAX {
        u64::MAX as int
    } else {
        n
    }
}

/// Guest cycles that elapse in `nanos` of wall time at `CPU_HZ`.
pub fn cycles_in_nanos(nanos: u128) -> (c: u64)
    ensures
        c == cycles_in_nanos_spec(nanos),
{
    let prod = match nanos.checked_mul(CPU_HZ as u128) {
        Some(p) => p,
        None => u128::MAX,
    };
    let n = prod / 1_000_000_000;
    if n > u64::MAX as u128 {
        u64::MAX
    } else {
        n as u64
    }
}

} // verus!
