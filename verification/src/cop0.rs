//! COP0: SR, CAUSE, EPC and the other R3000A system-control registers.
use vstd::prelude::*;

verus! {

pub const EXC_INT: u8 = 0x00;

pub const EXC_ADEL: u8 = 0x04;

pub const EXC_ADES: u8 = 0x05;

pub const EXC_IBE: u8 = 0x06;

pub const EXC_DBE: u8 = 0x07;

pub const EXC_SYS: u8 = 0x08;

pub const EXC_BP: u8 = 0x09;

pub const EXC_RI: u8 = 0x0A;

pub const EXC_CPU: u8 = 0x0B;

pub const EXC_OVF: u8 = 0x0C;

/// Reset value of SR: BEV set.
pub const SR_RESET: u32 = 0x0040_0000;

#[derive(Clone, Copy)]
pub struct Cop0 {
    pub sr: u32,
    pub cause: u32,
    pub epc: u32,
    pub badvaddr: u32,
    pub prid: u32,
    pub bpc: u32,
    pub bda: u32,
    pub tar: u32,
    pub dcic: u32,
    pub bdam: u32,
    pub bpcm: u32,
}

/// An access to a COP0 register number that does not exist.
#[derive(Clone, Copy, PartialEq, Eq, Structural, Debug)]
pub enum Cop0Error {
    Reserved,
}

pub open spec fn cop0_reset_state() -> Cop0 {
    Cop0 {
        sr: SR_RESET,
        cause: 0,
        epc: 0,
        badvaddr: 0,
        prid: 2,
        bpc: 0,
        bda: 0,
        tar: 0,
        dcic: 0,
        bdam: 0,
        bpcm: 0,
    }
}

/// What MFC0 of register `rd` reads, or `None` for a reserved register.
pub open spec fn cop0_read_spec(c: Cop0, rd: u8) -> Option<u32> {
    if rd == 3 {
        Some(c.bpc)
    } else if rd == 5 {
        Some(c.bda)
    } else if rd == 6 {
        Some(c.tar)
    } else if rd == 7 {
        Some(c.dcic)
    } else if rd == 8 {
        Some(c.badvaddr)
    } else if rd == 9 {
        Some(c.bdam)
    } else if rd == 11 {
        Some(c.bpcm)
    } else if rd == 12 {
        Some(c.sr)
    } else if rd == 13 {
        Some(c.cause)
    } else if rd == 14 {
        Some(c.epc)
    } else if rd == 15 {
        Some(c.prid)
    } else if 16 <= rd <= 31 {
        Some(0x20)
    } else {
        None
    }
}

/// Registers that MTC0 may address (writes to 16..31 are ignored; 6, 8, 14 and 15
/// are read-only and refuse the write).
pub open spec fn cop0_writable(rd: u8) -> bool {
    rd == 3 || rd == 5 || rd == 7 || rd == 9 || rd == 11 || rd == 12 || rd == 13 || (16 <= rd
        <= 31)
}

/// COP0 after MTC0 of `value` to register `rd` (which exists).
pub open spec fn cop0_write_spec(c: Cop0, rd: u8, value: u32) -> Cop0 {
    if rd == 3 {
        Cop0 { bpc: value, ..c }
    } else if rd == 5 {
        Cop0 { bda: value, ..c }
    } else if rd == 7 {
        Cop0 { dcic: value, ..c }
    } else if rd == 9 {
        Cop0 { bdam: value, ..c }
    } else if rd == 11 {
        Cop0 { bpcm: value, ..c }
    } else if rd == 12 {
        Cop0 { sr: value & 0xF4FF_FFFF, ..c }
    } else if rd == 13 {
        Cop0 { cause: (c.cause & !0x300u32) | (value & 0x300), ..c }
    } else {
        c
    }
}

/// The exception vector for the current BEV bit.
pub open spec fn exception_vector(sr: u32) -> u32 {
    if sr & 0x0040_0000 != 0 {
        0xBFC0_0180
    } else {
        0x8000_0080
    }
}

impl Cop0 {
    pub fn new() -> (r: Self)
        ensures
            r == cop0_reset_state(),
    {
        Cop0 {
            sr: SR_RESET,
            cause: 0,
            epc: 0,
            badvaddr: 0,
            prid: 2,
            bpc: 0,
            bda: 0,
            tar: 0,
            dcic: 0,
            bdam: 0,
            bpcm: 0,
        }
    }

    pub fn reset(&mut self)
        ensures
            *final(self) == cop0_reset_state(),
    {
        *self = Cop0::new();
    }

    /// SR.22: boot exception vectors in ROM.
    pub fn bev(&self) -> (r: bool)
        ensures
            r == (self.sr & 0x0040_0000 != 0),
    {
        self.sr & 0x0040_0000 != 0
    }

    /// SR.0: current interrupt enable.
    pub fn iec(&self) -> (r: bool)
        ensures
            r == (self.sr & 1 != 0),
    {
        self.sr & 1 != 0
    }

    /// SR.8..15: interrupt mask.
    pub fn im(&self) -> (r: u32)
        ensures
            r == (self.sr >> 8) & 0xFF,
    {
        (self.sr >> 8) & 0xFF
    }

    /// SR.16: isolate cache.
    pub fn isolate_cache(&self) -> (r: bool)
        ensures
            r == (self.sr & 0x0001_0000 != 0),
    {
        self.sr & 0x0001_0000 != 0
    }

    /// SR.30: COP2 usable.
    pub fn cu2(&self) -> (r: bool)
        ensures
            r == (self.sr & 0x4000_0000 != 0),
    {
        self.sr & 0x4000_0000 != 0
    }

    pub fn read(&self, rd: u8) -> (r: Result<u32, Cop0Error>)
        ensures
            r == (match cop0_read_spec(*self, rd) {
                Some(v) => Ok::<u32, Cop0Error>(v),
                None => Err(Cop0Error::Reserved),
            }),
    {
        if rd == 3 {
            Ok(self.bpc)
        } else if rd == 5 {
            Ok(self.bda)
        } else if rd == 6 {
            Ok(self.tar)
        } else if rd == 7 {
            Ok(self.dcic)
        } else if rd == 8 {
            Ok(self.badvaddr)
        } else if rd == 9 {
            Ok(self.bdam)
        } else if rd == 11 {
            Ok(self.bpcm)
        } else if rd == 12 {
            Ok(self.sr)
        } else if rd == 13 {
            Ok(self.cause)
        } else if rd == 14 {
            Ok(self.epc)
        } else if rd == 15 {
            Ok(self.prid)
        } else if 16 <= rd && rd <= 31 {
            Ok(0x20)
        } else {
            Err(Cop0Error::Reserved)
        }
    }

    pub fn write(&mut self, rd: u8, value: u32) -> (r: Result<(), Cop0Error>)
        ensures
            r is Ok <==> cop0_writable(rd),
            cop0_writable(rd) ==> *final(self) == cop0_write_spec(*old(self), rd, value),
            !cop0_writable(rd) ==> *final(self) == *old(self),
    {
        if rd == 3 {
            self.bpc = value;
        } else if rd == 5 {
            self.bda = value;
        } else if rd == 7 {
            self.dcic = value;
        } else if rd == 9 {
            self.bdam = value;
        } else if rd == 11 {
            self.bpcm = value;
        } else if rd == 12 {
            self.sr = value & 0xF4FF_FFFF;
        } else if rd == 13 {
            // software IRQ bits 8-9 are writable
            self.cause = (self.cause & !0x300u32) | (value & 0x300);
        } else if 16 <= rd && rd <= 31 {
        } else {
            return Err(Cop0Error::Reserved);
        }
        Ok(())
    }

    /// RFE: pop the interrupt-enable / kernel-mode stack (SR bits 0..5) by two.
    pub fn rfe(&mut self)
        ensures
            *final(self) == (Cop0 {
                sr: (old(self).sr & !0xFu32) | (((old(self).sr & 0x3F) >> 2) & 0xF),
                ..*old(self)
            }),
    {
        let mode = self.sr & 0x3F;
        self.sr = (self.sr & !0xFu32) | ((mode >> 2) & 0xF);
    }

    /// Enter an exception: EPC, CAUSE (code, coprocessor, branch delay), push the SR stack.
    /// Returns the handler address.
    pub fn enter_exception(&mut self, epc: u32, code: u8, bd: bool, ce: u8) -> (handler: u32)
        ensures
            handler == exception_vector(old(self).sr),
            *final(self) == (Cop0 {
                epc,
                cause: if bd {
                    ((code as u32) << 2) | ((ce as u32) << 28) | 0x8000_0000u32
                } else {
                    ((code as u32) << 2) | ((ce as u32) << 28)
                },
                sr: (old(self).sr & !0x3Fu32) | (((old(self).sr & 0x3F) << 2) & 0x3F),
                ..*old(self)
            }),
    {
        let bev = self.bev();
        self.epc = epc;
        let mut cause: u32 = ((code as u32) << 2) | ((ce as u32) << 28);
        if bd {
            cause = cause | 0x8000_0000;
        }
        self.cause = cause;
        let mode = self.sr & 0x3F;
        self.sr = (self.sr & !0x3Fu32) | ((mode << 2) & 0x3F);
        if bev {
            0xBFC0_0180
        } else {
            0x8000_0080
        }
    }

    /// CAUSE.10 follows the interrupt controller's pending line.
    pub fn set_ip_hw(&mut self, pending: bool)
        ensures
            *final(self) == (Cop0 {
                cause: if pending {
                    old(self).cause | 0x400
                } else {
                    old(self).cause & !0x400u32
                },
                ..*old(self)
            }),
    {
        if pending {
            self.cause = self.cause | 0x400;
        } else {
            self.cause = self.cause & !0x400u32;
        }
    }
}

/// An exception followed by RFE restores the interrupt-enable / kernel-mode pairs
/// that were current and previous (SR bits 0..3); bits 4..5 keep the pair popped
/// into them, and every other SR bit is unchanged.
pub proof fn law_rfe_undoes_exception_entry(sr: u32)
    ensures
        ({
            let entered = (sr & !0x3Fu32) | (((sr & 0x3F) << 2) & 0x3F);
            let back = (entered & !0xFu32) | (((entered & 0x3F) >> 2) & 0xF);
            &&& back & 0xF == sr & 0xF
            &&& back == (sr & !0x30u32) | ((sr & 0xC) << 2)
        }),
{
    assert(({
        let entered = (sr & !0x3Fu32) | (((sr & 0x3F) << 2) & 0x3F);
        let back = (entered & !0xFu32) | (((entered & 0x3F) >> 2) & 0xF);
        &&& back & 0xF == sr & 0xF
        &&& back == (sr & !0x30u32) | ((sr & 0xC) << 2)
    })) by (bit_vector);
}

} // verus!
