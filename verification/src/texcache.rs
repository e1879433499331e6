//! The GPU texture cache: halfwords of VRAM remembered by texture address until
//! the cache is flushed. Addresses reach past VRAM's width (an 8-bit page at
//! x = 960 spans 128 halfwords), so the cache has its own geometry.
use vstd::prelude::*;

verus! {

pub const TEXCACHE_COLS: usize = 1088;

pub const TEXCACHE_ROWS: usize = 512;

pub struct TexCache {
    /// 0 for an empty slot, else 10000h plus the cached halfword.
    slots: Vec<u32>,
    /// Every slot that is not empty, so a flush touches only those.
    keys: Vec<u32>,
}

pub open spec fn slot_index(x: int, y: int) -> int {
    y * TEXCACHE_COLS + x
}

impl TexCache {
    pub closed spec fn wf(&self) -> bool {
        &&& self.slots.len() == TEXCACHE_COLS * TEXCACHE_ROWS
        &&& forall|i: int|
            0 <= i < self.slots.len() ==> (#[trigger] self.slots@[i] == 0 || (0x10000
                <= self.slots@[i] < 0x20000))
        &&& forall|i: int|
            0 <= i < self.slots.len() && #[trigger] self.slots@[i] != 0 ==> self.keys@.contains(
                i as u32,
            )
        &&& forall|k: int| 0 <= k < self.keys.len() ==> #[trigger] self.keys@[k] < self.slots.len()
    }

    /// What the cache holds for texture address (x, y), if anything.
    pub closed spec fn entry(&self, x: int, y: int) -> Option<u16> {
        let s = self.slots@[slot_index(x, y)];
        if s == 0 {
            None
        } else {
            Some((s - 0x10000) as u16)
        }
    }

    pub open spec fn in_range(x: int, y: int) -> bool {
        0 <= x < TEXCACHE_COLS && 0 <= y < TEXCACHE_ROWS
    }

    proof fn lemma_index(x: int, y: int)
        requires
            Self::in_range(x, y),
        ensures
            0 <= slot_index(x, y) < TEXCACHE_COLS * TEXCACHE_ROWS,
            forall|x2: int, y2: int|
                Self::in_range(x2, y2) && (x2 != x || y2 != y) ==> slot_index(x2, y2)
                    != slot_index(x, y),
    {
        assert forall|x2: int, y2: int|
            Self::in_range(x2, y2) && (x2 != x || y2 != y) implies slot_index(x2, y2)
            != slot_index(x, y) by {
            if y2 == y {
            } else if y2 < y {
                assert(y2 * 1088 + 1088 <= y * 1088) by (nonlinear_arith)
                    requires
                        y2 < y,
                ;
            } else {
                assert(y * 1088 + 1088 <= y2 * 1088) by (nonlinear_arith)
                    requires
                        y < y2,
                ;
            }
        }
        assert(y * 1088 + x < 1088 * 512) by (nonlinear_arith)
            requires
                0 <= x < 1088,
                0 <= y < 512,
        ;
    }

    pub fn new() -> (c: Self)
        ensures
            c.wf(),
            forall|x: int, y: int| Self::in_range(x, y) ==> c.entry(x, y) is None,
    {
        let c = TexCache { slots: vec![0u32; TEXCACHE_COLS * TEXCACHE_ROWS], keys: Vec::new() };
        proof {
            assert forall|x: int, y: int| Self::in_range(x, y) implies c.entry(x, y) is None by {
                Self::lemma_index(x, y);
            }
        }
        c
    }

    pub fn get(&self, x: u32, y: u32) -> (r: Option<u16>)
        requires
            self.wf(),
            Self::in_range(x as int, y as int),
        ensures
            r == self.entry(x as int, y as int),
    {
        proof {
            Self::lemma_index(x as int, y as int);
        }
        let s = self.slots[(y as usize) * TEXCACHE_COLS + (x as usize)];
        if s == 0 {
            None
        } else {
            Some((s - 0x10000) as u16)
        }
    }

    pub fn insert(&mut self, x: u32, y: u32, v: u16)
        requires
            old(self).wf(),
            Self::in_range(x as int, y as int),
        ensures
            final(self).wf(),
            final(self).entry(x as int, y as int) == Some(v),
            forall|x2: int, y2: int|
                Self::in_range(x2, y2) && (x2 != x || y2 != y) ==> final(self).entry(x2, y2)
                    == old(self).entry(x2, y2),
    {
        proof {
            Self::lemma_index(x as int, y as int);
        }
        let i = (y as usize) * TEXCACHE_COLS + (x as usize);
        if self.slots[i] == 0 {
            self.keys.push(i as u32);
        }
        self.slots.set(i, 0x10000 + v as u32);
        proof {
            assert forall|x2: int, y2: int|
                Self::in_range(x2, y2) && (x2 != x || y2 != y) implies self.entry(x2, y2)
                == old(self).entry(x2, y2) by {
                Self::lemma_index(x as int, y as int);
            }
            assert forall|j: int|
                0 <= j < self.slots.len() && #[trigger] self.slots@[j] != 0 implies self.keys@.contains(
                j as u32,
            ) by {
                if j != i {
                    assert(old(self).slots@[j] != 0);
                    let k = choose|k: int| 0 <= k < old(self).keys.len() && old(self).keys@[k] == j as u32;
                    assert(self.keys@[k] == j as u32);
                } else if old(self).slots@[j] == 0 {
                    assert(self.keys@[self.keys.len() - 1] == j as u32);
                } else {
                    let k = choose|k: int| 0 <= k < old(self).keys.len() && old(self).keys@[k] == j as u32;
                    assert(self.keys@[k] == j as u32);
                }
            }
        }
    }

    /// Flush: every address is empty afterwards.
    pub fn clear(&mut self)
        requires
            old(self).wf(),
        ensures
            final(self).wf(),
            forall|x: int, y: int| Self::in_range(x, y) ==> final(self).entry(x, y) is None,
    {
        let mut j: usize = 0;
        while j < self.keys.len()
            invariant
                j <= self.keys.len(),
                self.slots.len() == TEXCACHE_COLS * TEXCACHE_ROWS,
                forall|k: int| 0 <= k < self.keys.len() ==> #[trigger] self.keys@[k] < self.slots.len(),
                forall|i: int|
                    0 <= i < self.slots.len() ==> (#[trigger] self.slots@[i] == 0 || (0x10000
                        <= self.slots@[i] < 0x20000)),
                forall|i: int|
                    0 <= i < self.slots.len() && #[trigger] self.slots@[i] != 0 ==> exists|k: int|
                        j <= k < self.keys.len() && self.keys@[k] == i as u32,
            decreases self.keys.len() - j,
        {
            let i = self.keys[j] as usize;
            let ghost before = self.slots@;
            self.slots.set(i, 0);
            proof {
                assert forall|i2: int|
                    0 <= i2 < self.slots.len() && #[trigger] self.slots@[i2] != 0 implies exists|k: int|
                    j + 1 <= k < self.keys.len() && self.keys@[k] == i2 as u32 by {
                    assert(before[i2] != 0);
                    let k = choose|k: int| j <= k < self.keys.len() && self.keys@[k] == i2 as u32;
                    assert(k != j);
                }
            }
            j += 1;
        }
        self.keys.clear();
        proof {
            assert forall|x: int, y: int| Self::in_range(x, y) implies self.entry(x, y) is None by {
                Self::lemma_index(x, y);
            }
        }
    }
}

} // verus!
