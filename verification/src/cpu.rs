//! The R3000A interpreter: fetch through the instruction cache, load delay slots, branch
//! delay slots, exceptions and the COP0/GTE coprocessors.
use vstd::prelude::*;

use crate::bus::{access_time_spec, aligned, in_bios, in_ram, needs_bus, phys_spec, Bus};
use crate::dma::{put_word, word_off, RAM_SIZE};
use crate::cop0::{cop0_read_spec, cop0_writable, cop0_write_spec, Cop0, EXC_ADEL, EXC_ADES, EXC_BP, EXC_IBE, EXC_INT, EXC_OVF, EXC_RI, EXC_SYS};
use crate::gte::{command_spec, control_value, read_data_spec, write_data_spec, Gte};

verus! {

pub const ICACHE_LINES: usize = 256;

/// One 16-byte instruction cache line: its tag, per-word valid bits and words.
#[derive(Clone, Copy)]
pub struct ICacheLine {
    pub tag: u32,
    pub valid: u8,
    pub data: [u32; 4],
}

pub struct Cpu {
    pub gpr: [u32; 32],
    pub pc: u32,
    pub next_pc: u32,
    pub current_pc: u32,
    pub hi: u32,
    pub lo: u32,
    pub cop0: Cop0,
    pub gte: Gte,
    pub pending_load: Option<(u8, u32)>,
    pub last_write: Option<u8>,
    pub incoming_load: Option<(u8, u32)>,
    pub branch_delay: bool,
    pub in_delay: bool,
    pub icache: Vec<ICacheLine>,
    pub last_exception: Option<(u8, u32, u32)>,
    pub exception_log: Vec<(u8, u32, u32)>,
}

/// Register 0 reads as zero and ignores writes.
pub open spec fn gpr_after(g: Seq<u32>, i: u8, v: u32) -> Seq<u32> {
    if i == 0 {
        g
    } else {
        g.update(i as int, v)
    }
}

/// The sign-extended 16-bit immediate of an instruction.
pub open spec fn simm_spec(instr: u32) -> u32 {
    if instr % 0x1_0000 >= 0x8000 {
        (instr % 0x1_0000 + 0xFFFF_0000) as u32
    } else {
        (instr % 0x1_0000) as u32
    }
}

/// The result of an I-type ALU instruction (ADDIU, SLTI, SLTIU, ANDI, ORI, XORI, LUI)
/// on source value `s`; ADDI when it does not overflow.
pub open spec fn imm_alu_spec(op: u32, s: u32, instr: u32) -> u32 {
    let imm = instr % 0x1_0000;
    let simm = simm_spec(instr);
    if op == 0x08 || op == 0x09 {
        ((s as int + simm as int) % 0x1_0000_0000) as u32
    } else if op == 0x0A {
        if (s as i32) < (simm as i32) {
            1
        } else {
            0
        }
    } else if op == 0x0B {
        if s < simm {
            1
        } else {
            0
        }
    } else if op == 0x0C {
        s & (imm as u32)
    } else if op == 0x0D {
        s | (imm as u32)
    } else if op == 0x0E {
        s ^ (imm as u32)
    } else {
        (imm * 0x1_0000) as u32
    }
}

/// ANDI, ORI and XORI take their immediate zero-extended: ANDI never sets a bit above
/// bit 15, and ORI and XORI leave the source's upper half as it was; in the low half
/// each combines the source with the instruction's low 16 bits.
pub proof fn law_logical_immediates_zero_extend(s: u32, instr: u32)
    ensures
        imm_alu_spec(0x0C, s, instr) <= 0xFFFF,
        imm_alu_spec(0x0C, s, instr) == s & instr & 0xFFFF,
        imm_alu_spec(0x0D, s, instr) & 0xFFFF_0000 == s & 0xFFFF_0000,
        imm_alu_spec(0x0D, s, instr) & 0xFFFF == (s | instr) & 0xFFFF,
        imm_alu_spec(0x0E, s, instr) & 0xFFFF_0000 == s & 0xFFFF_0000,
        imm_alu_spec(0x0E, s, instr) & 0xFFFF == (s ^ instr) & 0xFFFF,
{
    let imm: u32 = (instr % 0x1_0000) as u32;
    assert(imm == instr & 0xFFFF) by (bit_vector)
        requires
            imm == instr % 0x1_0000,
    ;
    assert({
        &&& s & imm <= 0xFFFF
        &&& s & imm == s & instr & 0xFFFF
        &&& (s | imm) & 0xFFFF_0000 == s & 0xFFFF_0000
        &&& (s | imm) & 0xFFFF == (s | instr) & 0xFFFF
        &&& (s ^ imm) & 0xFFFF_0000 == s & 0xFFFF_0000
        &&& (s ^ imm) & 0xFFFF == (s ^ instr) & 0xFFFF
    }) by (bit_vector)
        requires
            imm == instr & 0xFFFF,
    ;
}

/// The arithmetic immediates take their 16-bit immediate sign-extended: ADDIU adds it
/// modulo 2^32 and SLTIU compares unsigned against it (as a 32-bit value); LUI puts
/// the immediate in the upper half with the lower half clear.
pub proof fn law_arithmetic_immediates_sign_extend(s: u32, instr: u32)
    ensures
        ({
            let i = instr as int % 0x1_0000;
            let e: int = if i >= 0x8000 { i - 0x1_0000 } else { i };
            let eu: int = if e < 0 { e + 0x1_0000_0000 } else { e };
            &&& imm_alu_spec(0x09, s, instr) == (s as int + e) % 0x1_0000_0000
            &&& imm_alu_spec(0x0B, s, instr) == (if (s as int) < eu { 1int } else { 0 })
            &&& imm_alu_spec(0x0F, s, instr) % 0x1_0000 == 0
            &&& imm_alu_spec(0x0F, s, instr) / 0x1_0000 == i
        }),
{
    let i = instr as int % 0x1_0000;
    let simm = simm_spec(instr);
    assert(simm as int == (if i >= 0x8000 { i + 0xFFFF_0000 } else { i }));
    if i >= 0x8000 {
        assert((s as int + simm as int) % 0x1_0000_0000 == (s as int + (i - 0x1_0000)) % 0x1_0000_0000) by {
            vstd::arithmetic::div_mod::lemma_mod_add_multiples_vanish(s as int + (i - 0x1_0000), 0x1_0000_0000);
        }
    }
}

/// ADDI overflows: the signed sum leaves the 32-bit range.
pub open spec fn addi_overflows(s: u32, instr: u32) -> bool {
    let sum = (s as i32) as int + (simm_spec(instr) as i32) as int;
    sum < -0x8000_0000 || sum > 0x7FFF_FFFF
}

fn simm_of(instr: u32) -> (r: u32)
    ensures
        r == simm_spec(instr),
{
    let imm = instr % 0x1_0000;
    if imm >= 0x8000 {
        imm + 0xFFFF_0000
    } else {
        imm
    }
}

/// The I-type ALU result, as the instruction computes it.
pub fn imm_alu(op: u32, s: u32, instr: u32) -> (r: u32)
    ensures
        r == imm_alu_spec(op, s, instr),
{
    let imm = instr % 0x1_0000;
    let simm = simm_of(instr);
    if op == 0x08 || op == 0x09 {
        s.wrapping_add(simm)
    } else if op == 0x0A {
        if (s as i32) < (simm as i32) {
            1
        } else {
            0
        }
    } else if op == 0x0B {
        if s < simm {
            1
        } else {
            0
        }
    } else if op == 0x0C {
        s & imm
    } else if op == 0x0D {
        s | imm
    } else if op == 0x0E {
        s ^ imm
    } else {
        imm * 0x1_0000
    }
}

/// Signed 32-bit division as the R3000A does it: by zero gives -1 or 1 and the
/// dividend as remainder, 80000000h / -1 gives 80000000h remainder 0.
pub open spec fn div_spec(n: i32, d: i32) -> (u32, u32) {
    if d == 0 {
        ((if n >= 0 {
            0xFFFF_FFFFu32
        } else {
            1u32
        }), n as u32)
    } else if n == i32::MIN && d == -1 {
        (0x8000_0000u32, 0u32)
    } else {
        let q = if (n < 0) != (d < 0) {
            -(abs_int(n as int) / abs_int(d as int))
        } else {
            abs_int(n as int) / abs_int(d as int)
        };
        ((q as i32) as u32, ((n as int - q * d as int) as i32) as u32)
    }
}

pub open spec fn abs_int(x: int) -> int {
    if x < 0 {
        -x
    } else {
        x
    }
}

/// (LO, HI) of DIV.
pub fn div_signed(n: i32, d: i32) -> (r: (u32, u32))
    ensures
        r == div_spec(n, d),
{
    if d == 0 {
        (if n >= 0 {
            0xFFFF_FFFF
        } else {
            1
        }, n as u32)
    } else if n == i32::MIN && d == -1 {
        (0x8000_0000, 0)
    } else {
        let an: u64 = if n < 0 {
            (-(n as i64)) as u64
        } else {
            n as u64
        };
        let ad: u64 = if d < 0 {
            (-(d as i64)) as u64
        } else {
            d as u64
        };
        let uq: u64 = an / ad;
        assert(uq <= an) by (nonlinear_arith)
            requires
                ad >= 1,
                uq == an / ad,
        ;
        let q: i64 = if (n < 0) != (d < 0) {
            -(uq as i64)
        } else {
            uq as i64
        };
        assert(uq * ad <= an) by (nonlinear_arith)
            requires
                ad >= 1,
                uq == an / ad,
        ;
        assert(q * (d as i64) == uq * ad || q * (d as i64) == -(uq * ad)) by (nonlinear_arith)
            requires
                q == uq || q == -uq,
                ad == d || ad == -d,
        ;
        let r: i64 = n as i64 - q * d as i64;
        (#[verifier::truncate] (q as i32) as u32, #[verifier::truncate] (r as i32) as u32)
    }
}

/// The value a SPECIAL register-ALU function (SLL, SRL, SRA, SLLV, SRLV, SRAV, ADDU,
/// SUBU, AND, OR, XOR, NOR, SLT, SLTU) computes from rs = `a`, rt = `b` and the shift
/// amount `sa`.
pub open spec fn reg_alu_spec(fn_: u32, a: u32, b: u32, sa: u32) -> u32 {
    if fn_ == 0x00 {
        b << sa
    } else if fn_ == 0x02 {
        b >> sa
    } else if fn_ == 0x03 {
        ((b as i32) >> sa) as u32
    } else if fn_ == 0x04 {
        b << (a % 32)
    } else if fn_ == 0x06 {
        b >> (a % 32)
    } else if fn_ == 0x07 {
        ((b as i32) >> (a % 32)) as u32
    } else if fn_ == 0x21 {
        a.wrapping_add(b)
    } else if fn_ == 0x23 {
        a.wrapping_sub(b)
    } else if fn_ == 0x24 {
        a & b
    } else if fn_ == 0x25 {
        a | b
    } else if fn_ == 0x26 {
        a ^ b
    } else if fn_ == 0x27 {
        !(a | b)
    } else if fn_ == 0x2A {
        if (a as i32) < (b as i32) {
            1
        } else {
            0
        }
    } else {
        if a < b {
            1
        } else {
            0
        }
    }
}

/// SUBU undoes ADDU and the other way round; AND, OR and XOR of a value with itself
/// give it, it, and 0; NOR is the complement of OR; a left shift then a logical right
/// shift by the same amount keeps the low bits; SLT and SLTU agree when both operands
/// have the same sign bit.
pub proof fn law_register_alu(a: u32, b: u32, sa: u32)
    requires
        sa < 32,
    ensures
        reg_alu_spec(0x21, reg_alu_spec(0x23, a, b, sa), b, sa) == a,
        reg_alu_spec(0x23, reg_alu_spec(0x21, a, b, sa), b, sa) == a,
        reg_alu_spec(0x24, a, a, sa) == a,
        reg_alu_spec(0x25, a, a, sa) == a,
        reg_alu_spec(0x26, a, a, sa) == 0,
        reg_alu_spec(0x27, a, b, sa) | reg_alu_spec(0x25, a, b, sa) == 0xFFFF_FFFF,
        reg_alu_spec(0x27, a, b, sa) & reg_alu_spec(0x25, a, b, sa) == 0,
        reg_alu_spec(0x02, 0, reg_alu_spec(0x00, 0, b, sa), sa) == b & (0xFFFF_FFFFu32 >> sa),
        (a < 0x8000_0000) == (b < 0x8000_0000) ==> reg_alu_spec(0x2A, a, b, sa) == reg_alu_spec(
            0x2B,
            a,
            b,
            sa,
        ),
        reg_alu_spec(0x2B, a, b, sa) == (if a < b { 1u32 } else { 0 }),
{
    assert(a.wrapping_sub(b).wrapping_add(b) == a && a.wrapping_add(b).wrapping_sub(b) == a);
    assert((a & a) == a && (a | a) == a && (a ^ a) == 0 && (!(a | b)) | (a | b) == 0xFFFF_FFFF
        && (!(a | b)) & (a | b) == 0) by (bit_vector);
    assert(((b << sa) >> sa) == b & (0xFFFF_FFFFu32 >> sa)) by (bit_vector)
        requires
            sa < 32,
    ;
    if (a < 0x8000_0000) == (b < 0x8000_0000) {
        assert(((a as i32) < (b as i32)) == (a < b)) by (bit_vector)
            requires
                (a < 0x8000_0000) == (b < 0x8000_0000),
        ;
    }
}

/// The SPECIAL functions that only compute a value for rd.
pub open spec fn is_reg_alu(fn_: u32) -> bool {
    ||| fn_ == 0x00 || fn_ == 0x02 || fn_ == 0x03
    ||| fn_ == 0x04 || fn_ == 0x06 || fn_ == 0x07
    ||| fn_ == 0x21 || fn_ == 0x23 || fn_ == 0x24 || fn_ == 0x25 || fn_ == 0x26 || fn_ == 0x27
    ||| fn_ == 0x2A || fn_ == 0x2B
}

/// The exact signed result of ADD (20h) or SUB (22h).
pub open spec fn add_sub_exact(fn_: u32, a: u32, b: u32) -> int {
    if fn_ == 0x20 {
        (a as i32) as int + (b as i32) as int
    } else {
        (a as i32) as int - (b as i32) as int
    }
}

/// ADD or SUB overflows: the signed result leaves the 32-bit range.
pub open spec fn add_sub_overflows(fn_: u32, a: u32, b: u32) -> bool {
    add_sub_exact(fn_, a, b) < -0x8000_0000 || add_sub_exact(fn_, a, b) > 0x7FFF_FFFF
}

/// (HI, LO) of MULT: the signed 64-bit product.
pub open spec fn mult_spec(a: u32, b: u32) -> (u32, u32) {
    let u = ((a as i32) as int * (b as i32) as int) as u64;
    ((u / 0x1_0000_0000) as u32, (u % 0x1_0000_0000) as u32)
}

/// (HI, LO) of MULTU: the unsigned 64-bit product.
pub open spec fn multu_spec(a: u32, b: u32) -> (u32, u32) {
    ((a as int * b as int / 0x1_0000_0000) as u32, (a as int * b as int % 0x1_0000_0000) as u32)
}

/// (LO, HI) of DIVU: by zero gives FFFFFFFFh and the dividend as remainder.
pub open spec fn divu_spec(a: u32, b: u32) -> (u32, u32) {
    if b == 0 {
        (0xFFFF_FFFFu32, a)
    } else {
        (a / b, a % b)
    }
}

/// What a SPECIAL instruction with fields (rs, rt, rd, sa, funct) does to the general
/// registers, HI and LO, from `o` to `n` (the jumps, SYSCALL and BREAK aside): ALU
/// results into rd, HI/LO moves, multiply and divide, and ADD/SUB trapping on overflow
/// without writing rd.
pub open spec fn special_effect(o: Cpu, n: Cpu, rs: u8, rt: u8, rd: u8, sa: u8, fn_: u32) -> bool {
    let a = o.gpr[rs as int];
    let b = o.gpr[rt as int];
    &&& is_reg_alu(fn_) ==> n.gpr@ == gpr_after(o.gpr@, rd, reg_alu_spec(fn_, a, b, sa as u32))
        && n.hi == o.hi && n.lo == o.lo
    &&& fn_ == 0x10 ==> n.gpr@ == gpr_after(o.gpr@, rd, o.hi)
    &&& fn_ == 0x12 ==> n.gpr@ == gpr_after(o.gpr@, rd, o.lo)
    &&& fn_ == 0x11 ==> n.hi == a && n.lo == o.lo && n.gpr == o.gpr
    &&& fn_ == 0x13 ==> n.lo == a && n.hi == o.hi && n.gpr == o.gpr
    &&& fn_ == 0x18 ==> (n.hi, n.lo) == mult_spec(a, b) && n.gpr == o.gpr
    &&& fn_ == 0x19 ==> (n.hi, n.lo) == multu_spec(a, b) && n.gpr == o.gpr
    &&& fn_ == 0x1A ==> (n.lo, n.hi) == div_spec(a as i32, b as i32) && n.gpr == o.gpr
    &&& fn_ == 0x1B ==> (n.lo, n.hi) == divu_spec(a, b) && n.gpr == o.gpr
    &&& (fn_ == 0x20 || fn_ == 0x22) && !add_sub_overflows(fn_, a, b) ==> n.gpr@ == gpr_after(
        o.gpr@,
        rd,
        (add_sub_exact(fn_, a, b) as i32) as u32,
    )
    &&& (fn_ == 0x20 || fn_ == 0x22) && add_sub_overflows(fn_, a, b) ==> n.last_exception == Some(
        (EXC_OVF, o.current_pc, o.cop0.cause),
    ) && n.gpr == o.gpr
}

/// The register value LWL (22h) or LWR (26h) leaves: the aligned memory word `word`
/// merged into `cur` by the address's byte offset `k`.
pub open spec fn lwlr_spec(op: u32, k: u32, cur: u32, word: u32) -> u32 {
    if op == 0x22 {
        if k == 0 {
            (cur & 0x00FF_FFFF) | (word << 24u32)
        } else if k == 1 {
            (cur & 0x0000_FFFF) | (word << 16u32)
        } else if k == 2 {
            (cur & 0x0000_00FF) | (word << 8u32)
        } else {
            word
        }
    } else {
        if k == 0 {
            word
        } else if k == 1 {
            (cur & 0xFF00_0000) | (word >> 8u32)
        } else if k == 2 {
            (cur & 0xFFFF_0000) | (word >> 16u32)
        } else {
            (cur & 0xFFFF_FF00) | (word >> 24u32)
        }
    }
}

/// The word SWL (2Ah) or SWR (2Eh) stores: register value `v` merged into the aligned
/// memory word `mem` by the address's byte offset `k`.
pub open spec fn swlr_spec(op: u32, k: u32, v: u32, mem: u32) -> u32 {
    if op == 0x2A {
        if k == 0 {
            (mem & 0xFFFF_FF00) | (v >> 24u32)
        } else if k == 1 {
            (mem & 0xFFFF_0000) | (v >> 16u32)
        } else if k == 2 {
            (mem & 0xFF00_0000) | (v >> 8u32)
        } else {
            v
        }
    } else {
        if k == 0 {
            v
        } else if k == 1 {
            (mem & 0x0000_00FF) | (v << 8u32)
        } else if k == 2 {
            (mem & 0x0000_FFFF) | (v << 16u32)
        } else {
            (mem & 0x00FF_FFFF) | (v << 24u32)
        }
    }
}

/// The value an unaligned load merges with: a load landing in `rt` this instruction,
/// else the register.
pub open spec fn merge_base_spec(c: Cpu, rt: u8) -> u32 {
    match c.incoming_load {
        Some((r, v)) => if r == rt {
            v
        } else {
            c.gpr[rt as int]
        },
        None => c.gpr[rt as int],
    }
}

/// What a load or store (opcode `op`, register `rt`, effective address `addr`) does to
/// the CPU while the cache is not isolated: misaligned LW/LH/LHU trap with AdEL and
/// misaligned SW/SH with AdES, recording the address and writing no register; an
/// aligned LW from RAM delays the RAM word of `b` into rt.
pub open spec fn cpu_mem_effect(o: Cpu, n: Cpu, b: Bus, op: u32, rt: u8, addr: u32) -> bool {
    let live = o.cop0.sr & 0x0001_0000 == 0;
    let adel = Some((EXC_ADEL, o.current_pc, o.cop0.cause));
    let ades = Some((EXC_ADES, o.current_pc, o.cop0.cause));
    &&& (live && ((op == 0x23 && addr % 4 != 0) || ((op == 0x21 || op == 0x25) && addr % 2 != 0)))
        ==> n.last_exception == adel && n.cop0.badvaddr == addr && n.gpr == o.gpr
    &&& (live && ((op == 0x2B && addr % 4 != 0) || (op == 0x29 && addr % 2 != 0))) ==> n.last_exception
        == ades && n.cop0.badvaddr == addr && n.gpr == o.gpr
    &&& (live && op == 0x23 && addr % 4 == 0 && rt != 0 && in_ram(aligned(addr))) ==> n.pending_load
        == Some((rt, b.ram_word_spec(aligned(addr)) as u32))
    &&& (live && (op == 0x20 || op == 0x24) && rt != 0 && in_ram(phys_spec(addr))) ==> n.pending_load
        == Some((rt, load_byte(op, b.ram@[phys_spec(addr) as int % RAM_SIZE as int])))
    &&& ((op == 0x22 || op == 0x26) && rt != 0 && o.incoming_load is None && in_ram(aligned(addr)))
        ==> n.pending_load == Some(
        (rt, lwlr_spec(op, addr % 4, o.gpr[rt as int], b.ram_word_spec(aligned(addr)) as u32)),
    )
    &&& (live && (op == 0x21 || op == 0x25) && addr % 2 == 0 && rt != 0 && in_ram(aligned(addr)))
        ==> n.pending_load == Some(
        (
            rt,
            load_half(
                op,
                if (phys_spec(addr) / 2) % 2 == 1 {
                    b.ram_word_spec(aligned(addr)) / 0x1_0000
                } else {
                    b.ram_word_spec(aligned(addr)) % 0x1_0000
                },
            ),
        ),
    )
}

/// The register value of a loaded byte: LB sign-extends, LBU zero-extends.
pub open spec fn load_byte(op: u32, v: u8) -> u32 {
    if op == 0x20 && v >= 0x80 {
        (v + 0xFFFF_FF00) as u32
    } else {
        v as u32
    }
}

/// The register value of a loaded halfword: LH sign-extends, LHU zero-extends.
pub open spec fn load_half(op: u32, h: int) -> u32 {
    if op == 0x21 && h >= 0x8000 {
        (h + 0xFFFF_0000) as u32
    } else {
        h as u32
    }
}

/// A load or store as `cpu_mem_effect` says, and on the bus: a misaligned store writes
/// nothing, an aligned SW to RAM stores rt's word.
pub open spec fn memory_effect(o: Cpu, n: Cpu, ob: Bus, nb: Bus, op: u32, rt: u8, addr: u32) -> bool {
    let live = o.cop0.sr & 0x0001_0000 == 0;
    &&& cpu_mem_effect(o, n, ob, op, rt, addr)
    &&& (live && ((op == 0x2B && addr % 4 != 0) || (op == 0x29 && addr % 2 != 0))) ==> nb.ram == ob.ram
    &&& (live && op == 0x2B && addr % 4 == 0 && in_ram(aligned(addr))) ==> nb.ram@ == put_word(
        ob.ram@,
        word_off(aligned(addr)),
        o.gpr[rt as int],
    )
    &&& ((op == 0x22 || op == 0x26) && rt != 0 && in_ram(aligned(addr))) ==> n.pending_load == Some(
        (rt, lwlr_spec(op, addr % 4, merge_base_spec(o, rt), ob.ram_word_spec(aligned(addr)) as u32)),
    )
    &&& ((op == 0x2A || op == 0x2E) && in_ram(aligned(addr))) ==> nb.ram@ == put_word(
        ob.ram@,
        word_off(aligned(addr)),
        swlr_spec(op, addr % 4, o.gpr[rt as int], ob.ram_word_spec(aligned(addr)) as u32),
    )
}

/// What executing `instr` from `o` leaves in `n`, as far as the CPU goes: I-type ALU
/// results (ADDI trapping on overflow), the SPECIAL group, and loads and stores.
pub open spec fn instr_effect(o: Cpu, n: Cpu, b: Bus, instr: u32) -> bool {
    let op = instr / 0x400_0000;
    let rs = (instr / 0x20_0000) % 32;
    let rt = (instr / 0x1_0000) % 32;
    &&& (0x09 <= op <= 0x0F || (op == 0x08 && !addi_overflows(o.gpr[rs as int], instr))) ==> n.gpr@
        == gpr_after(o.gpr@, rt as u8, imm_alu_spec(op, o.gpr[rs as int], instr))
    &&& (op == 0x08 && addi_overflows(o.gpr[rs as int], instr)) ==> n.last_exception == Some(
        (EXC_OVF, o.current_pc, o.cop0.cause),
    ) && n.gpr == o.gpr
    &&& op == 0 ==> special_effect(
        o,
        n,
        rs as u8,
        rt as u8,
        ((instr / 0x800) % 32) as u8,
        ((instr / 0x40) % 32) as u8,
        instr % 0x40,
    )
    &&& 0x20 <= op <= 0x3A ==> cpu_mem_effect(
        o,
        n,
        b,
        op,
        rt as u8,
        o.gpr[rs as int].wrapping_add(simm_spec(instr)),
    )
    &&& op == 0x10 ==> cop0_effect(o, n, rs, rt as u8, ((instr / 0x800) % 32) as u8, instr)
    &&& op == 0x12 ==> cop2_effect(o, n, rs, rt as u8, ((instr / 0x800) % 32) as u8, instr)
}

/// What a COP0 instruction (rs field `rs`) does: MFC0 delays the register's value
/// into rt, MTC0 writes rt's value to a writable register, RFE pops the mode stack;
/// reserved registers and functions trap with RI.
pub open spec fn cop0_effect(o: Cpu, n: Cpu, rs: u32, rt: u8, rd: u8, instr: u32) -> bool {
    let ri = Some((EXC_RI, o.current_pc, o.cop0.cause));
    &&& rs == 0x00 ==> (match cop0_read_spec(o.cop0, rd) {
        Some(v) => rt != 0 ==> n.pending_load == Some((rt, v)),
        None => n.last_exception == ri,
    })
    &&& rs == 0x04 ==> (if cop0_writable(rd) {
        n.cop0 == cop0_write_spec(o.cop0, rd, o.gpr[rt as int])
    } else {
        n.last_exception == ri
    })
    &&& (rs == 0x10 && instr % 0x40 == 0x10) ==> n.cop0 == (Cop0 {
        sr: (o.cop0.sr & !0xFu32) | (((o.cop0.sr & 0x3F) >> 2) & 0xF),
        ..o.cop0
    })
}

/// What a COP2 instruction does: a command (bit 25) runs the GTE; MFC2 and CFC2 delay
/// a data or control register into rt; MTC2 and CTC2 write rt's value.
pub open spec fn cop2_effect(o: Cpu, n: Cpu, rs: u32, rt: u8, rd: u8, instr: u32) -> bool {
    let cmd = (instr / 0x200_0000) % 2 == 1;
    &&& cmd ==> n.gte.regs() == command_spec(o.gte.regs(), instr)
    &&& (!cmd && rs == 0x00 && rt != 0) ==> n.pending_load == Some(
        (rt, read_data_spec(o.gte.data@, rd)),
    )
    &&& (!cmd && rs == 0x02 && rt != 0) ==> n.pending_load == Some(
        (rt, control_value(rd, o.gte.ctrl@[rd as int])),
    )
    &&& (!cmd && rs == 0x04) ==> n.gte.data@ == write_data_spec(o.gte.data@, rd, o.gpr[rt as int])
    &&& (!cmd && rs == 0x06) ==> n.gte.ctrl@ == o.gte.ctrl@.update(
        rd as int,
        control_value(rd, o.gpr[rt as int]),
    )
}

/// Cause with the interrupt controller's output sampled into IP2.
pub open spec fn cause_sampled(c: Cpu, b: Bus) -> u32 {
    if b.irq.stat & b.irq.mask != 0 {
        c.cop0.cause | 0x400
    } else {
        c.cop0.cause & !0x400u32
    }
}

/// The next step takes the interrupt: enabled in SR, one enabled and pending in the
/// sampled Cause, and not in a branch delay slot.
pub open spec fn takes_interrupt(c: Cpu, b: Bus) -> bool {
    &&& c.cop0.sr & 1 != 0
    &&& (cause_sampled(c, b) & c.cop0.sr & 0xFF00) != 0
    &&& !c.branch_delay
}

/// The CPU as the next instruction starts: at its PC, in a delay slot if a branch was
/// taken, IP2 sampled.
pub open spec fn at_next(c: Cpu, b: Bus) -> Cpu {
    Cpu {
        current_pc: c.pc,
        in_delay: c.branch_delay,
        branch_delay: false,
        cop0: Cop0 { cause: cause_sampled(c, b), ..c.cop0 },
        ..c
    }
}

/// The RAM or BIOS word at a CPU address (None for other regions).
pub open spec fn mem_word(b: Bus, addr: u32) -> Option<u32> {
    if in_ram(aligned(addr)) {
        Some(b.ram_word_spec(aligned(addr)) as u32)
    } else if in_bios(aligned(addr)) {
        Some(b.bios_word_spec(aligned(addr)) as u32)
    } else {
        None
    }
}

/// The instruction word a fetch at `current_pc` returns, where RAM, the BIOS or the
/// I-cache determines it: uncached (KSEG1, cache isolated or I-cache off) it is
/// memory; cached, a valid line with the right tag gives its copy, and a miss refills
/// the line from memory.
pub open spec fn fetch_spec(c: Cpu, b: Bus) -> Option<u32> {
    let addr = c.current_pc;
    if addr / 0x2000_0000 == 5 || c.cop0.sr & 0x0001_0000 != 0 || b.cache_ctrl & 0x800 == 0 {
        mem_word(b, addr)
    } else {
        let phys = addr % 0x2000_0000;
        let l = c.icache@[((phys / 16) % 256) as int];
        let w = (phys / 4) % 4;
        if l.tag == phys / 0x1000 && (l.valid as int / bit4_spec(w as int)) % 2 == 1 {
            Some(l.data[w as int])
        } else {
            mem_word(b, addr)
        }
    }
}

/// The word a line refill reads for the missing word is the word at the address.
proof fn lemma_refill_addr(addr: u32)
    ensures
        (addr / 16 * 16) + 4 * ((addr % 0x2000_0000 / 4) % 4) == addr / 4 * 4,
        aligned(((addr / 16 * 16) + 4 * ((addr % 0x2000_0000 / 4) % 4)) as u32) == aligned(addr),
{
    assert((addr / 16 * 16) + 4 * ((addr % 0x2000_0000 / 4) % 4) == addr / 4 * 4) by (bit_vector);
    let x: u32 = (addr / 4 * 4) as u32;
    assert(x == addr / 4 * 4);
    assert((if x / 0x2000_0000 == 4 || x / 0x2000_0000 == 5 {
        x % 0x2000_0000
    } else {
        x
    }) / 4 * 4 == (if addr / 0x2000_0000 == 4 || addr / 0x2000_0000 == 5 {
        addr % 0x2000_0000
    } else {
        addr
    }) / 4 * 4) by (bit_vector)
        requires
            x == addr / 4 * 4,
    ;
}

/// `instr_effect` reads of the starting CPU only its registers, PC and COP0, and of
/// the bus only RAM.
proof fn lemma_instr_effect_frame(o1: Cpu, o2: Cpu, n: Cpu, b1: Bus, b2: Bus, instr: u32)
    requires
        instr_effect(o1, n, b1, instr),
        o1.gpr == o2.gpr,
        o1.hi == o2.hi,
        o1.lo == o2.lo,
        o1.current_pc == o2.current_pc,
        o1.cop0 == o2.cop0,
        o1.gte == o2.gte,
        o1.incoming_load is None,
        b1.ram@ == b2.ram@,
    ensures
        instr_effect(o2, n, b2, instr),
{
}

/// A conditional branch (BEQ, BNE, BLEZ, BGTZ) on rs = `a` and rt = `b` is taken.
pub open spec fn branch_taken(op: u32, a: u32, b: u32) -> bool {
    if op == 0x04 {
        a == b
    } else if op == 0x05 {
        a != b
    } else if op == 0x06 {
        (a as i32) <= 0
    } else {
        (a as i32) > 0
    }
}

/// BLTZ/BGEZ (and the linking forms) with rt field `rt` is taken on rs = `a`.
pub open spec fn bcond_taken(rt: u32, a: u32) -> bool {
    if rt % 2 == 1 {
        (a as i32) >= 0
    } else {
        (a as i32) < 0
    }
}

/// What a branch or jump `instr` does from `o` to `n`, where `slot` is the address
/// of its delay slot and `after` the instruction after that: the next PC is the
/// target when taken (else `after`), and the linking forms put slot + 4 in their
/// link register.
pub open spec fn control_effect(o: Cpu, n: Cpu, instr: u32, slot: u32, after: u32) -> bool {
    let op = instr / 0x400_0000;
    let rs = (instr / 0x20_0000) % 32;
    let rt = (instr / 0x1_0000) % 32;
    let rd = (instr / 0x800) % 32;
    let a = o.gpr[rs as int];
    let b = o.gpr[rt as int];
    let target = slot.wrapping_add(simm_spec(instr).wrapping_mul(4));
    &&& 0x04 <= op <= 0x07 ==> n.branch_delay && n.gpr == o.gpr && n.next_pc == (if branch_taken(
        op,
        a,
        b,
    ) {
        target
    } else {
        after
    })
    &&& op == 0x01 ==> n.branch_delay && n.next_pc == (if bcond_taken(rt, a) {
        target
    } else {
        after
    }) && ((rt / 16) % 2 == 1 ==> n.gpr@ == gpr_after(o.gpr@, 31, slot.wrapping_add(4))) && ((rt
        / 16) % 2 == 0 ==> n.gpr == o.gpr)
    &&& (op == 0x02 || op == 0x03) ==> n.branch_delay && n.next_pc == (slot / 0x1000_0000)
        * 0x1000_0000 + (instr % 0x400_0000) * 4 && (op == 0x03 ==> n.gpr@ == gpr_after(
        o.gpr@,
        31,
        slot.wrapping_add(4),
    )) && (op == 0x02 ==> n.gpr == o.gpr)
    &&& (op == 0 && (instr % 0x40 == 0x08 || instr % 0x40 == 0x09)) ==> n.branch_delay && n.next_pc
        == a && (instr % 0x40 == 0x09 ==> n.gpr@ == gpr_after(o.gpr@, rd as u8, slot.wrapping_add(4)))
        && (instr % 0x40 == 0x08 ==> n.gpr == o.gpr)
}

/// `control_effect` reads of the starting CPU only its registers.
proof fn lemma_control_effect_frame(o1: Cpu, o2: Cpu, n: Cpu, instr: u32, slot: u32, after: u32)
    requires
        control_effect(o1, n, instr, slot, after),
        o1.gpr == o2.gpr,
    ensures
        control_effect(o2, n, instr, slot, after),
{
}

/// The bus clock `n` cycles on, held at the top.
pub open spec fn sat_add(c: u64, n: int) -> u64 {
    if c + n > u64::MAX {
        u64::MAX
    } else {
        (c + n) as u64
    }
}

/// Cycles the fetch of the instruction at `current_pc` holds the CPU, the issue cycle
/// included: an uncached fetch pays the word's access time, a cache hit one cycle,
/// and a miss the access time of each word the refill reads.
pub open spec fn fetch_cost_spec(c: Cpu, b: Bus) -> int {
    let addr = c.current_pc;
    let phys = (addr % 0x2000_0000) as u32;
    let t = access_time_spec(b.memctrl@, phys);
    if addr / 0x2000_0000 == 5 || c.cop0.sr & 0x0001_0000 != 0 || b.cache_ctrl & 0x800 == 0 {
        t
    } else {
        let l = c.icache@[((phys / 16) % 256) as int];
        let w = (phys / 4) % 4;
        if l.tag == phys / 0x1000 && (l.valid as int / bit4_spec(w as int)) % 2 == 1 {
            1
        } else {
            (4 - w) * t
        }
    }
}

/// Whether `instr` is a GTE command (COP2 with bit 25 set): one that runs before an
/// interrupt taken on it.
pub open spec fn is_cop2_command(instr: u32) -> bool {
    instr / 0x400_0000 == 0x12 && (instr / 0x200_0000) % 2 == 1
}

/// Whether `instr` reads memory into a register (LB, LH, LWL, LW, LBU, LHU, LWR, LWC2).
pub open spec fn is_load(instr: u32) -> bool {
    let op = instr / 0x400_0000;
    (0x20 <= op <= 0x26) || op == 0x32
}

/// The physical address a load or store of `instr` reaches from CPU `c`.
pub open spec fn mem_target(c: Cpu, instr: u32) -> u32 {
    phys_spec(c.gpr[((instr / 0x20_0000) % 32) as int].wrapping_add(simm_spec(instr)))
}

/// Cycles a load's data read holds the bus (0 for other instructions).
pub open spec fn load_cost_spec(c: Cpu, b: Bus, instr: u32) -> int {
    if is_load(instr) {
        access_time_spec(b.memctrl@, mem_target(c, instr))
    } else {
        0
    }
}

/// Whether a load must first wait for a DMA transfer to give the bus back: it reads
/// RAM or an I/O port while a channel has a job.
pub open spec fn load_stalls(c: Cpu, b: Bus, instr: u32) -> bool {
    &&& is_load(instr)
    &&& needs_bus(mem_target(c, instr))
    &&& exists|ch: int| 0 <= ch < 7 && #[trigger] b.dma.jobs[ch] is Some
}

/// 2^i for a bit of a 4-bit mask.
pub open spec fn bit4_spec(i: int) -> int {
    if i == 0 {
        1
    } else if i == 1 {
        2
    } else if i == 2 {
        4
    } else {
        8
    }
}

fn bit4(i: usize) -> (b: u8)
    requires
        i < 4,
    ensures
        b == bit4_spec(i as int),
{
    if i == 0 {
        1
    } else if i == 1 {
        2
    } else if i == 2 {
        4
    } else {
        8
    }
}

/// A 4-bit valid mask with bit `i` set.
fn set_bit4(v: u8, i: usize) -> (r: u8)
    requires
        v < 16,
        i < 4,
    ensures
        r < 16,
        (r as int / bit4_spec(i as int)) % 2 == 1,
{
    let b = bit4(i);
    if (v / b) % 2 == 1 {
        v
    } else {
        assert((v as int + b as int) / (b as int) == v as int / (b as int) + 1) by (nonlinear_arith)
            requires
                b > 0,
        ;
        assert(v + b < 16) by (nonlinear_arith)
            requires
                v < 16,
                (v / b) % 2 == 0,
                b == 1 || b == 2 || b == 4 || b == 8,
        ;
        v + b
    }
}

/// The I-cache line that holds CPU address `addr`.
pub open spec fn icache_line(addr: u32) -> int {
    (((addr % 0x2000_0000) / 16) % 256) as int
}

/// Line `n` is line `c` after an isolated store of `value` at `addr`: tag and valid
/// bits in tag-test mode (BIU bit 2), else the addressed word.
pub open spec fn icache_stored(c: ICacheLine, n: ICacheLine, bcc: u32, addr: u32, value: u32) -> bool {
    let phys = addr % 0x2000_0000;
    if (bcc / 4) % 2 == 1 {
        n.tag == phys / 0x1000 && n.valid == value % 16 && n.data == c.data
    } else {
        n.tag == c.tag && n.valid == c.valid && n.data@ == c.data@.update(((phys / 4) % 4) as int, value)
    }
}

impl Cpu {
    /// The I-cache has its 256 lines, and register 0 holds zero.
    pub open spec fn wf(&self) -> bool {
        &&& self.icache.len() == ICACHE_LINES
        &&& self.gpr[0] == 0
    }

    /// The CPU at reset: fetching from BFC00000h, registers clear, COP0 at its reset
    /// state (BEV set, interrupts off), no load or branch in flight, the I-cache empty.
    pub open spec fn at_reset(&self) -> bool {
        &&& self.pc == 0xBFC0_0000
        &&& self.next_pc == 0xBFC0_0004
        &&& self.current_pc == 0xBFC0_0000
        &&& forall|i: int| 0 <= i < 32 ==> self.gpr[i] == 0
        &&& self.hi == 0
        &&& self.lo == 0
        &&& self.cop0 == crate::cop0::cop0_reset_state()
        &&& self.pending_load is None
        &&& self.last_write is None
        &&& self.incoming_load is None
        &&& !self.branch_delay
        &&& !self.in_delay
        &&& self.last_exception is None
        &&& forall|i: int| 0 <= i < ICACHE_LINES ==> (#[trigger] self.icache@[i]).valid == 0
    }

    pub fn new() -> (c: Cpu)
        ensures
            c.wf(),
            c.at_reset(),
            c.pc == 0xBFC0_0000,
            c.next_pc == 0xBFC0_0004,
            forall|i: int| 0 <= i < 32 ==> c.gpr[i] == 0,
            c.last_exception is None,
            c.exception_log@.len() == 0,
    {
        let mut icache: Vec<ICacheLine> = Vec::new();
        let mut i: usize = 0;
        while i < ICACHE_LINES
            invariant
                i <= ICACHE_LINES,
                icache.len() == i,
                forall|k: int| 0 <= k < i ==> (#[trigger] icache@[k]).valid == 0,
            decreases ICACHE_LINES - i,
        {
            icache.push(ICacheLine { tag: 0, valid: 0, data: [0; 4] });
            i += 1;
        }
        Cpu {
            gpr: [0; 32],
            pc: 0xBFC0_0000,
            next_pc: 0xBFC0_0004,
            current_pc: 0xBFC0_0000,
            hi: 0,
            lo: 0,
            cop0: Cop0::new(),
            gte: Gte::new(),
            pending_load: None,
            last_write: None,
            incoming_load: None,
            branch_delay: false,
            in_delay: false,
            icache,
            last_exception: None,
            exception_log: Vec::new(),
        }
    }

    pub fn reset(&mut self)
        ensures
            final(self).wf(),
            final(self).at_reset(),
            final(self).pc == 0xBFC0_0000,
            forall|i: int| 0 <= i < 32 ==> final(self).gpr[i] == 0,
            final(self).last_exception is None,
    {
        *self = Cpu::new();
    }

    pub fn pc(&self) -> (v: u32)
        ensures
            v == self.pc,
    {
        self.pc
    }

    /// General register `i`; an index past 31 reads register `i % 32`.
    pub fn gpr(&self, i: u8) -> (v: u32)
        ensures
            v == self.gpr[i as int % 32],
    {
        self.gpr[(i % 32) as usize]
    }

    pub fn last_exception(&self) -> (e: Option<(u8, u32, u32)>)
        ensures
            e == self.last_exception,
    {
        self.last_exception
    }

    pub fn sr(&self) -> (v: u32)
        ensures
            v == self.cop0.sr,
    {
        self.cop0.sr
    }

    pub fn badvaddr(&self) -> (v: u32)
        ensures
            v == self.cop0.badvaddr,
    {
        self.cop0.badvaddr
    }

    /// The value of GTE control register `reg` (0..31).
    pub fn gte_control(&self, reg: u8) -> (v: u32)
        requires
            reg < 32,
        ensures
            v == crate::gte::control_value(reg, self.gte.ctrl@[reg as int]),
    {
        self.gte.read_control(reg)
    }

    /// How many times each GTE command opcode ran.
    pub fn gte_op_counts(&self) -> (c: [u32; 64])
        ensures
            c == self.gte.op_counts,
    {
        self.gte.op_counts
    }

    fn set_gpr(&mut self, i: u8, v: u32)
        requires
            i < 32,
        ensures
            final(self).gpr@ == gpr_after(old(self).gpr@, i, v),
            i != 0 ==> final(self).last_write == Some(i),
            i == 0 ==> final(self).last_write == old(self).last_write,
            final(self).pc == old(self).pc,
            final(self).next_pc == old(self).next_pc,
            final(self).cop0 == old(self).cop0,
            final(self).icache == old(self).icache,
            final(self).pending_load == old(self).pending_load,
            final(self).incoming_load == old(self).incoming_load,
            final(self).hi == old(self).hi,
            final(self).lo == old(self).lo,
            final(self).gte == old(self).gte,
            final(self).last_exception == old(self).last_exception,
            final(self).exception_log == old(self).exception_log,
            final(self).branch_delay == old(self).branch_delay,
            final(self).in_delay == old(self).in_delay,
            final(self).current_pc == old(self).current_pc,
    {
        if i != 0 {
            self.gpr[i as usize] = v;
            self.last_write = Some(i);
        }
    }

    fn delay_load(&mut self, rt: u8, value: u32)
        requires
            rt < 32,
        ensures
            final(self).gpr[0] == old(self).gpr[0],
            rt != 0 ==> final(self).pending_load == Some((rt, value)) && final(self).last_write
                == Some(rt),
            rt == 0 ==> final(self).pending_load == old(self).pending_load,
            final(self).gpr == old(self).gpr,
            final(self).icache == old(self).icache,
            final(self).pc == old(self).pc,
            final(self).next_pc == old(self).next_pc,
    {
        if rt != 0 {
            self.pending_load = Some((rt, value));
            self.last_write = Some(rt);
        }
    }

    /// Enter exception `code`: record it, save EPC (back one word in a delay slot) and
    /// jump to the handler.
    fn exception(&mut self, code: u8, ce: u8)
        requires
            code < 32,
            ce < 4,
        ensures
            final(self).last_exception == Some((code, old(self).current_pc, old(self).cop0.cause)),
            final(self).pc == crate::cop0::exception_vector(old(self).cop0.sr),
            final(self).cop0.epc == (if old(self).in_delay {
                old(self).current_pc.wrapping_sub(4)
            } else {
                old(self).current_pc
            }),
            final(self).gpr == old(self).gpr,
            final(self).icache == old(self).icache,
            !final(self).branch_delay,
            !final(self).in_delay,
            final(self).pc % 4 == 0,
            final(self).cop0.sr & 1 == 0,
            final(self).cop0.badvaddr == old(self).cop0.badvaddr,
            final(self).pending_load == old(self).pending_load,
            final(self).gte == old(self).gte,
    {
        self.last_exception = Some((code, self.current_pc, self.cop0.cause));
        if code != EXC_INT && code != EXC_SYS && self.exception_log.len() < 24 {
            self.exception_log.push((code, self.current_pc, self.gpr[31]));
        }
        let mut epc = self.current_pc;
        let bd = self.in_delay;
        if bd {
            epc = epc.wrapping_sub(4);
        }
        let sr0 = self.cop0.sr;
        let handler = self.cop0.enter_exception(epc, code, bd, ce);
        assert(((sr0 & !0x3Fu32) | (((sr0 & 0x3F) << 2) & 0x3F)) & 1 == 0) by (bit_vector);
        self.pc = handler;
        self.next_pc = handler.wrapping_add(4);
        self.branch_delay = false;
        self.in_delay = false;
    }

    /// The instruction at `current_pc`: straight from the bus when uncached (KSEG1, cache
    /// isolated or I-cache off), else through the line, refilled from the missing word on.
    fn fetch(&mut self, bus: &mut Bus) -> (w: Option<u32>)
        requires
            old(self).wf(),
            old(bus).wf(),
        ensures
            final(self).wf(),
            final(bus).wf(),
            final(bus).ram == old(bus).ram,
            final(bus).bios == old(bus).bios,
            final(bus).cycles == old(bus).cycles,
            final(bus).vblanks == old(bus).vblanks,
            final(bus).cache_ctrl == old(bus).cache_ctrl,
            final(bus).irq.mask == old(bus).irq.mask,
            final(self).gpr == old(self).gpr,
            final(self).pc == old(self).pc,
            final(self).next_pc == old(self).next_pc,
            final(self).current_pc == old(self).current_pc,
            final(self).cop0 == old(self).cop0,
            final(self).gte == old(self).gte,
            final(self).in_delay == old(self).in_delay,
            final(self).branch_delay == old(self).branch_delay,
            final(self).pending_load == old(self).pending_load,
            final(self).last_exception == old(self).last_exception,
            w is Some,
            fetch_spec(*old(self), *old(bus)) matches Some(x) ==> w == Some(x),
            final(bus).memctrl == old(bus).memctrl,
            final(bus).dma == old(bus).dma,
            final(self).hi == old(self).hi,
            final(self).lo == old(self).lo,
    {
        let addr = self.current_pc;
        let cached = addr / 0x2000_0000 != 5;
        let icache_on = bus.cache_ctrl() & 0x800 != 0;
        if !cached || self.cop0.isolate_cache() || !icache_on {
            return bus.read32(addr);
        }
        let phys = addr % 0x2000_0000;
        let line = ((phys / 16) % 256) as usize;
        let word = ((phys / 4) % 4) as usize;
        let tag = phys / 0x1000;
        let mut c = self.icache[line];
        if c.tag != tag || (c.valid / bit4(word)) % 2 == 0 {
            c.tag = tag;
            c.valid = 0;
            let base = addr / 16 * 16;
            let mut i: usize = word;
            while i < 4
                invariant
                    word <= i <= 4,
                    bus.wf(),
                    bus.ram == old(bus).ram,
                    bus.bios == old(bus).bios,
                    bus.cycles == old(bus).cycles,
                    bus.vblanks == old(bus).vblanks,
                    bus.cache_ctrl == old(bus).cache_ctrl,
                    bus.irq.mask == old(bus).irq.mask,
                    bus.memctrl == old(bus).memctrl,
                    bus.dma == old(bus).dma,
                    c.valid < 16,
                    self.wf(),
                    self.icache == old(self).icache,
                    self.gpr == old(self).gpr,
                    self.cop0 == old(self).cop0,
                    base == addr / 16 * 16,
                    word == (addr % 0x2000_0000 / 4) % 4,
                    i > word ==> (mem_word(*old(bus), addr) matches Some(x) ==> c.data[word as int] == x),
                decreases 4 - i,
            {
                proof {
                    if i == word {
                        lemma_refill_addr(addr);
                    }
                }
                match bus.read32(base.wrapping_add((i as u32) * 4)) {
                    Some(w) => {
                        c.data[i] = w;
                        c.valid = set_bit4(c.valid, i);
                    },
                    None => {
                        return None;
                    },
                }
                i += 1;
            }
            self.icache.set(line, c);
        }
        Some(self.icache[line].data[word])
    }

    /// Cycles the fetch at `current_pc` will take.
    fn fetch_cost(&self, bus: &Bus) -> (n: u32)
        requires
            self.wf(),
        ensures
            n == fetch_cost_spec(*self, *bus),
            1 <= n <= 1024,
    {
        let addr = self.current_pc;
        let phys = addr % 0x2000_0000;
        let t = bus.access_time(phys);
        let icache_on = bus.cache_ctrl() & 0x800 != 0;
        if addr / 0x2000_0000 == 5 || self.cop0.isolate_cache() || !icache_on {
            return t;
        }
        let line = ((phys / 16) % 256) as usize;
        let word = ((phys / 4) % 4) as usize;
        let c = self.icache[line];
        if c.tag == phys / 0x1000 && (c.valid / bit4(word)) % 2 == 1 {
            1
        } else {
            let k: u32 = 4 - word as u32;
            assert(1 <= k * t <= 1024) by (nonlinear_arith)
                requires
                    1 <= k <= 4,
                    1 <= t <= 256,
            ;
            k * t
        }
    }

    /// The bus time of a load's data read; a read of RAM or an I/O port first waits,
    /// a cycle at a time, until no DMA channel holds the bus.
    fn load_cost(&self, bus: &mut Bus, instr: u32) -> (n: u32)
        requires
            self.wf(),
            old(bus).wf(),
        ensures
            final(bus).wf(),
            n == load_cost_spec(*self, *old(bus), instr),
            n <= 256,
            final(bus).memctrl == old(bus).memctrl,
            final(bus).bios == old(bus).bios,
            final(bus).cache_ctrl == old(bus).cache_ctrl,
            final(bus).irq.mask == old(bus).irq.mask,
            final(bus).cycles >= old(bus).cycles,
            final(bus).vblanks >= old(bus).vblanks,
            !load_stalls(*self, *old(bus), instr) ==> *final(bus) == *old(bus),
    {
        let op = instr / 0x400_0000;
        if !((0x20 <= op && op <= 0x26) || op == 0x32) {
            return 0;
        }
        let rs = ((instr / 0x20_0000) % 32) as usize;
        let p = crate::bus::phys(self.gpr[rs].wrapping_add(simm_of(instr)));
        let t = bus.access_time(p);
        assert(p == mem_target(*self, instr));
        assert(is_load(instr));
        if p < 0x80_0000 || (0x1F80_1000 <= p && p <= 0x1F80_2FFF) {
            assert(needs_bus(p));
            let mut waited: u32 = 0;
            while bus.dma_busy() && waited < 0x1000_0000
                invariant
                    bus.wf(),
                    bus.memctrl == old(bus).memctrl,
                    bus.bios == old(bus).bios,
                    bus.cache_ctrl == old(bus).cache_ctrl,
                    bus.irq.mask == old(bus).irq.mask,
                    bus.cycles >= old(bus).cycles,
                    bus.vblanks >= old(bus).vblanks,
                    needs_bus(p),
                    p == mem_target(*self, instr),
                    is_load(instr),
                    waited > 0 ==> load_stalls(*self, *old(bus), instr),
                    waited == 0 ==> *bus == *old(bus),
                decreases 0x1000_0000 - waited,
            {
                bus.tick(1);
                waited = waited + 1;
            }
        }
        t
    }

    /// Run one instruction (or take the interrupt before it), then clock the bus for
    /// the fetch and, for a load, its data read. A load lands after the next
    /// instruction unless that one wrote the register.
    pub fn step(&mut self, bus: &mut Bus)
        requires
            old(self).wf(),
            old(bus).wf(),
        ensures
            final(self).wf(),
            final(bus).wf(),
            final(bus).bios == old(bus).bios,
            (final(bus).cycles == old(bus).cycles && final(bus).vblanks == old(bus).vblanks
                && final(self).pc % 4 == 0 && final(self).cop0.sr & 1 == 0) || final(bus).cycles
                >= sat_add(old(bus).cycles, 1),
            old(self).pc % 4 == 0 && old(self).cop0.sr & 1 == 0 ==> final(bus).cycles >= sat_add(
                old(bus).cycles,
                1,
            ),
            old(self).pc % 4 == 0 && old(self).cop0.sr & 1 == 0 ==> (fetch_spec(
                at_next(*old(self), *old(bus)),
                *old(bus),
            ) matches Some(instr) ==> (!load_stalls(at_next(*old(self), *old(bus)), *old(bus), instr)
                ==> final(bus).cycles == sat_add(
                old(bus).cycles,
                fetch_cost_spec(at_next(*old(self), *old(bus)), *old(bus)) + load_cost_spec(
                    at_next(*old(self), *old(bus)),
                    *old(bus),
                    instr,
                ),
            ))),
            (match old(self).pending_load {
                Some((r, v)) => 0 < r < 32 ==> (final(self).pending_load == old(self).pending_load
                    || final(self).last_write == Some(r) || final(self).gpr[r as int] == v),
                None => true,
            }),
            takes_interrupt(*old(self), *old(bus)) ==> final(self).last_exception == Some(
                (EXC_INT, old(self).pc, cause_sampled(*old(self), *old(bus))),
            ) && final(self).gpr == old(self).gpr,
            takes_interrupt(*old(self), *old(bus)) ==> final(self).pc == crate::cop0::exception_vector(
                old(self).cop0.sr,
            ) && final(self).cop0.epc == old(self).pc,
            takes_interrupt(*old(self), *old(bus)) && old(self).pc % 4 == 0 ==> (fetch_spec(
                at_next(*old(self), *old(bus)),
                *old(bus),
            ) matches Some(instr) ==> (is_cop2_command(instr) ==> final(self).gte.regs()
                == command_spec(old(self).gte.regs(), instr)) && (!is_cop2_command(instr)
                ==> final(self).gte == old(self).gte)),
            (!takes_interrupt(*old(self), *old(bus)) && old(self).pc % 4 == 0 && old(
                self).pending_load is None) ==> (fetch_spec(at_next(*old(self), *old(bus)), *old(bus)) matches Some(
                instr) ==> (!load_stalls(at_next(*old(self), *old(bus)), *old(bus), instr) ==> instr_effect(at_next(*old(self), *old(bus)), *final(self), *old(bus), instr))
                && control_effect(
                at_next(*old(self), *old(bus)),
                *final(self),
                instr,
                old(self).next_pc,
                old(self).next_pc.wrapping_add(4),
            )),
    {
        self.in_delay = self.branch_delay;
        self.branch_delay = false;
        self.current_pc = self.pc;
        let pending = bus.irq().pending_for_cop0();
        self.cop0.set_ip_hw(pending);
        let irq = self.cop0.iec() && (self.cop0.cause & self.cop0.sr & 0xFF00) != 0;
        if irq && !self.in_delay {
            if self.current_pc % 4 == 0 {
                match self.fetch(bus) {
                    Some(instr) => {
                        if instr / 0x400_0000 == 0x12 && (instr / 0x200_0000) % 2 == 1 {
                            self.gte.command(instr);
                        }
                    },
                    None => {},
                }
            }
            self.exception(EXC_INT, 0);
            return ;
        }
        if self.current_pc % 4 != 0 {
            self.cop0.badvaddr = self.current_pc;
            self.exception(EXC_ADEL, 0);
            return ;
        }
        let ghost start = *self;
        let ghost bus0 = *bus;
        proof {
            assert(start.current_pc == old(self).pc);
            assert(start.cop0 == at_next(*old(self), *old(bus)).cop0);
        }
        let fcost = self.fetch_cost(bus);
        let instr = match self.fetch(bus) {
            Some(w) => w,
            None => {
                self.exception(EXC_IBE, 0);
                return ;
            },
        };
        self.pc = self.next_pc;
        self.next_pc = self.next_pc.wrapping_add(4);
        let incoming = self.pending_load;
        self.pending_load = None;
        self.incoming_load = incoming;
        self.last_write = None;
        let ghost bus_f = *bus;
        let lcost = self.load_cost(bus, instr);
        let ghost before = *self;
        let ghost bus1 = *bus;
        self.decode_execute(bus, instr);
        proof {
            if before.incoming_load is None && bus1 == bus_f {
                lemma_instr_effect_frame(before, at_next(*old(self), *old(bus)), *self, bus1, *old(bus), instr);
            }
            lemma_control_effect_frame(
                before,
                at_next(*old(self), *old(bus)),
                *self,
                instr,
                before.pc,
                before.next_pc,
            );
        }
        match incoming {
            Some((reg, val)) => {
                if self.last_write != Some(reg) && reg != 0 && reg < 32 {
                    self.gpr[reg as usize] = val;
                }
            },
            None => {},
        }
        bus.tick(fcost + lcost);
    }

    fn decode_execute(&mut self, bus: &mut Bus, instr: u32)
        requires
            old(self).wf(),
            old(bus).wf(),
        ensures
            final(self).wf(),
            final(bus).wf(),
            final(bus).bios == old(bus).bios,
            ({
                let op = instr / 0x400_0000;
                let rs = (instr / 0x20_0000) % 32;
                let rt = (instr / 0x1_0000) % 32;
                (0x09 <= op <= 0x0F || (op == 0x08 && !addi_overflows(old(self).gpr[rs as int], instr)))
                    ==> final(self).gpr@ == gpr_after(
                    old(self).gpr@,
                    rt as u8,
                    imm_alu_spec(op, old(self).gpr[rs as int], instr),
                ) && final(self).next_pc == old(self).next_pc
            }),
            ({
                let op = instr / 0x400_0000;
                let rs = (instr / 0x20_0000) % 32;
                op == 0x08 && addi_overflows(old(self).gpr[rs as int], instr) ==> final(
                    self).last_exception == Some((EXC_OVF, old(self).current_pc, old(self).cop0.cause))
                    && final(self).gpr == old(self).gpr
            }),
            0x20 <= instr / 0x400_0000 <= 0x3A ==> memory_effect(
                *old(self),
                *final(self),
                *old(bus),
                *final(bus),
                instr / 0x400_0000,
                ((instr / 0x1_0000) % 32) as u8,
                old(self).gpr[((instr / 0x20_0000) % 32) as int].wrapping_add(simm_spec(instr)),
            ),
            instr / 0x400_0000 == 0 ==> special_effect(
                *old(self),
                *final(self),
                ((instr / 0x20_0000) % 32) as u8,
                ((instr / 0x1_0000) % 32) as u8,
                ((instr / 0x800) % 32) as u8,
                ((instr / 0x40) % 32) as u8,
                instr % 0x40,
            ),
            instr_effect(*old(self), *final(self), *old(bus), instr),
            control_effect(*old(self), *final(self), instr, old(self).pc, old(self).next_pc),
            final(bus).cycles == old(bus).cycles,
            final(bus).vblanks == old(bus).vblanks,
    {
        let op = instr / 0x400_0000;
        let rs = ((instr / 0x20_0000) % 32) as u8;
        let rt = ((instr / 0x1_0000) % 32) as u8;
        let rd = ((instr / 0x800) % 32) as u8;
        let sa = ((instr / 0x40) % 32) as u8;
        let fn_ = instr % 0x40;
        let simm = simm_of(instr);
        let target = instr % 0x400_0000;
        if op == 0x00 {
            self.special(bus, rs, rt, rd, sa, fn_);
        } else if op == 0x01 {
            self.bcond(rs, rt, simm);
        } else if op == 0x02 {
            self.jump(target, false);
        } else if op == 0x03 {
            self.jump(target, true);
        } else if op == 0x04 {
            let take = self.gpr[rs as usize] == self.gpr[rt as usize];
            self.branch(take, simm);
        } else if op == 0x05 {
            let take = self.gpr[rs as usize] != self.gpr[rt as usize];
            self.branch(take, simm);
        } else if op == 0x06 {
            let take = (self.gpr[rs as usize] as i32) <= 0;
            self.branch(take, simm);
        } else if op == 0x07 {
            let take = (self.gpr[rs as usize] as i32) > 0;
            self.branch(take, simm);
        } else if op == 0x08 {
            let a = self.gpr[rs as usize] as i32;
            let b = simm as i32;
            let sum: i64 = a as i64 + b as i64;
            if sum < -0x8000_0000 || sum > 0x7FFF_FFFF {
                self.exception(EXC_OVF, 0);
            } else {
                let v = imm_alu(op, self.gpr[rs as usize], instr);
                self.set_gpr(rt, v);
            }
        } else if 0x09 <= op && op <= 0x0F {
            let v = imm_alu(op, self.gpr[rs as usize], instr);
            self.set_gpr(rt, v);
        } else if op == 0x10 {
            self.cop0_op(rs, rt, rd, instr);
        } else if op == 0x12 {
            self.cop2_op(rs, rt, rd, instr);
        } else if op >= 0x20 && op <= 0x3A {
            let addr = self.gpr[rs as usize].wrapping_add(simm);
            self.memory_op(bus, op, rt, addr);
        } else {
            self.exception(EXC_RI, 0);
        }
    }

    /// SPECIAL (opcode 0): shifts, jumps by register, SYSCALL/BREAK, HI/LO, multiply,
    /// divide and the register ALU, with overflow traps on ADD/SUB.
    fn special(&mut self, bus: &mut Bus, rs: u8, rt: u8, rd: u8, sa: u8, fn_: u32)
        requires
            old(self).wf(),
            old(bus).wf(),
            rs < 32,
            rt < 32,
            rd < 32,
            sa < 32,
        ensures
            final(self).wf(),
            final(bus).wf(),
            final(bus).bios == old(bus).bios,
            special_effect(*old(self), *final(self), rs, rt, rd, sa, fn_),
            (fn_ == 0x08 || fn_ == 0x09) ==> final(self).branch_delay && final(self).next_pc == old(
                self).gpr[rs as int] && (fn_ == 0x09 ==> final(self).gpr@ == gpr_after(
                old(self).gpr@,
                rd,
                old(self).pc.wrapping_add(4),
            )) && (fn_ == 0x08 ==> final(self).gpr == old(self).gpr),
            final(bus).cycles == old(bus).cycles,
            final(bus).vblanks == old(bus).vblanks,
    {
        let a = self.gpr[rs as usize];
        let b = self.gpr[rt as usize];
        if fn_ == 0x00 {
            self.set_gpr(rd, b << (sa as u32));
        } else if fn_ == 0x02 {
            self.set_gpr(rd, b >> (sa as u32));
        } else if fn_ == 0x03 {
            self.set_gpr(rd, ((b as i32) >> (sa as u32)) as u32);
        } else if fn_ == 0x04 {
            self.set_gpr(rd, b << (a % 32));
        } else if fn_ == 0x06 {
            self.set_gpr(rd, b >> (a % 32));
        } else if fn_ == 0x07 {
            self.set_gpr(rd, ((b as i32) >> (a % 32)) as u32);
        } else if fn_ == 0x08 {
            self.jr(a, None);
        } else if fn_ == 0x09 {
            self.jr(a, Some(rd));
        } else if fn_ == 0x0C {
            self.exception(EXC_SYS, 0);
        } else if fn_ == 0x0D {
            self.exception(EXC_BP, 0);
        } else if fn_ == 0x10 {
            let h = self.hi;
            self.set_gpr(rd, h);
        } else if fn_ == 0x11 {
            self.hi = a;
        } else if fn_ == 0x12 {
            let l = self.lo;
            self.set_gpr(rd, l);
        } else if fn_ == 0x13 {
            self.lo = a;
        } else if fn_ == 0x18 {
            let x = a as i32 as i64;
            let y = b as i32 as i64;
            assert(-0x8000_0000 * 0x8000_0000 <= x * y <= 0x8000_0000 * 0x8000_0000) by (
            nonlinear_arith)
                requires
                    -0x8000_0000 <= x <= 0x7FFF_FFFF,
                    -0x8000_0000 <= y <= 0x7FFF_FFFF,
            ;
            let r = x * y;
            let u = r as u64;
            self.lo = (u % 0x1_0000_0000) as u32;
            self.hi = (u / 0x1_0000_0000) as u32;
        } else if fn_ == 0x19 {
            let x = a as u64;
            let y = b as u64;
            assert(x * y <= 0xFFFF_FFFF * 0xFFFF_FFFF) by (nonlinear_arith)
                requires
                    x <= 0xFFFF_FFFF,
                    y <= 0xFFFF_FFFF,
            ;
            let r = x * y;
            self.lo = (r % 0x1_0000_0000) as u32;
            self.hi = (r / 0x1_0000_0000) as u32;
        } else if fn_ == 0x1A {
            let (lo, hi) = div_signed(a as i32, b as i32);
            self.lo = lo;
            self.hi = hi;
        } else if fn_ == 0x1B {
            if b == 0 {
                self.hi = a;
                self.lo = 0xFFFF_FFFF;
            } else {
                self.lo = a / b;
                self.hi = a % b;
            }
        } else if fn_ == 0x20 || fn_ == 0x22 {
            let x = a as i32 as i64;
            let y = b as i32 as i64;
            let r: i64 = if fn_ == 0x20 {
                x + y
            } else {
                x - y
            };
            if r < -0x8000_0000 || r > 0x7FFF_FFFF {
                self.exception(EXC_OVF, 0);
            } else {
                self.set_gpr(rd, r as i32 as u32);
            }
        } else if fn_ == 0x21 {
            self.set_gpr(rd, a.wrapping_add(b));
        } else if fn_ == 0x23 {
            self.set_gpr(rd, a.wrapping_sub(b));
        } else if fn_ == 0x24 {
            self.set_gpr(rd, a & b);
        } else if fn_ == 0x25 {
            self.set_gpr(rd, a | b);
        } else if fn_ == 0x26 {
            self.set_gpr(rd, a ^ b);
        } else if fn_ == 0x27 {
            self.set_gpr(rd, !(a | b));
        } else if fn_ == 0x2A {
            self.set_gpr(
                rd,
                if (a as i32) < (b as i32) {
                    1
                } else {
                    0
                },
            );
        } else if fn_ == 0x2B {
            self.set_gpr(
                rd,
                if a < b {
                    1
                } else {
                    0
                },
            );
        } else {
            self.exception(EXC_RI, 0);
        }
    }

    /// BLTZ/BGEZ and their linking forms (rt bit 4 links, bit 0 selects >= 0).
    fn bcond(&mut self, rs: u8, rt: u8, simm: u32)
        requires
            old(self).wf(),
            rs < 32,
        ensures
            final(self).gpr[0] == old(self).gpr[0],
            final(self).wf(),
            final(self).branch_delay,
            final(self).next_pc == (if bcond_taken(rt as u32, old(self).gpr[rs as int]) {
                old(self).pc.wrapping_add(simm.wrapping_mul(4))
            } else {
                old(self).next_pc
            }),
            (rt / 16) % 2 == 1 ==> final(self).gpr@ == gpr_after(old(self).gpr@, 31, old(self).pc.wrapping_add(4)),
            (rt / 16) % 2 == 0 ==> final(self).gpr == old(self).gpr,
    {
        let s = self.gpr[rs as usize] as i32;
        let link = (rt / 16) % 2 == 1;
        let ge = rt % 2 == 1;
        let take = if ge {
            s >= 0
        } else {
            s < 0
        };
        if link {
            let r = self.pc.wrapping_add(4);
            self.set_gpr(31, r);
        }
        self.branch(take, simm);
    }

    /// A taken branch goes to the delay slot's address plus the offset in words.
    fn branch(&mut self, take: bool, simm: u32)
        ensures
            final(self).gpr[0] == old(self).gpr[0],
            final(self).branch_delay,
            take ==> final(self).next_pc == old(self).pc.wrapping_add(simm.wrapping_mul(4)),
            !take ==> final(self).next_pc == old(self).next_pc,
            final(self).gpr == old(self).gpr,
            final(self).pc == old(self).pc,
            final(self).icache == old(self).icache,
    {
        self.branch_delay = true;
        if take {
            self.next_pc = self.pc.wrapping_add(simm.wrapping_mul(4));
        }
    }

    /// J/JAL: the target within the delay slot's 256 MiB segment.
    fn jump(&mut self, target: u32, link: bool)
        requires
            target < 0x400_0000,
        ensures
            final(self).gpr[0] == old(self).gpr[0],
            final(self).branch_delay,
            final(self).next_pc == (old(self).pc / 0x1000_0000) * 0x1000_0000 + target * 4,
            link ==> final(self).gpr@ == gpr_after(old(self).gpr@, 31, old(self).pc.wrapping_add(4)),
            !link ==> final(self).gpr == old(self).gpr,
            final(self).icache == old(self).icache,
    {
        self.branch_delay = true;
        if link {
            let r = self.pc.wrapping_add(4);
            self.set_gpr(31, r);
        }
        self.next_pc = (self.pc / 0x1000_0000) * 0x1000_0000 + target * 4;
    }

    /// JR/JALR.
    fn jr(&mut self, dest: u32, link: Option<u8>)
        requires
            link matches Some(r) ==> r < 32,
        ensures
            final(self).gpr[0] == old(self).gpr[0],
            final(self).branch_delay,
            final(self).next_pc == dest,
            final(self).icache == old(self).icache,
            link matches Some(r) ==> final(self).gpr@ == gpr_after(old(self).gpr@, r, old(self).pc.wrapping_add(4)),
            link is None ==> final(self).gpr == old(self).gpr,
    {
        self.branch_delay = true;
        match link {
            Some(rd) => {
                let r = self.pc.wrapping_add(4);
                self.set_gpr(rd, r);
            },
            None => {},
        }
        self.next_pc = dest;
    }

    fn cop0_op(&mut self, rs: u8, rt: u8, rd: u8, instr: u32)
        requires
            old(self).wf(),
            rs < 32,
            rt < 32,
            rd < 32,
        ensures
            final(self).gpr[0] == old(self).gpr[0],
            final(self).wf(),
            cop0_effect(*old(self), *final(self), rs as u32, rt, rd, instr),
    {
        if rs == 0x00 {
            match self.cop0.read(rd) {
                Ok(v) => self.delay_load(rt, v),
                Err(_) => self.exception(EXC_RI, 0),
            }
        } else if rs == 0x04 {
            let v = self.gpr[rt as usize];
            if self.cop0.write(rd, v).is_err() {
                self.exception(EXC_RI, 0);
            }
        } else if rs == 0x10 {
            if instr % 0x40 == 0x10 {
                self.cop0.rfe();
            } else {
                self.exception(EXC_RI, 0);
            }
        } else {
            self.exception(EXC_RI, 0);
        }
    }

    fn cop2_op(&mut self, rs: u8, rt: u8, rd: u8, instr: u32)
        requires
            old(self).wf(),
            rs < 32,
            rt < 32,
            rd < 32,
        ensures
            final(self).gpr[0] == old(self).gpr[0],
            final(self).wf(),
            cop2_effect(*old(self), *final(self), rs as u32, rt, rd, instr),
    {
        if (instr / 0x200_0000) % 2 == 1 {
            self.gte.command(instr);
            return ;
        }
        if rs == 0x00 {
            let v = self.gte.read_data(rd);
            self.delay_load(rt, v);
        } else if rs == 0x02 {
            let v = self.gte.read_control(rd);
            self.delay_load(rt, v);
        } else if rs == 0x04 {
            let v = self.gpr[rt as usize];
            self.gte.write_data(rd, v);
        } else if rs == 0x06 {
            let v = self.gpr[rt as usize];
            self.gte.write_control(rd, v);
        } else {
            self.exception(EXC_RI, 2);
        }
    }

    /// The value a load into `rt` merges with: a load still landing in `rt`, else `rt`.
    fn merge_base(&self, rt: u8) -> (v: u32)
        requires
            rt < 32,
        ensures
            v == merge_base_spec(*self, rt),
    {
        match self.incoming_load {
            Some((r, v)) => if r == rt {
                v
            } else {
                self.gpr[rt as usize]
            },
            None => self.gpr[rt as usize],
        }
    }

    /// Loads and stores (LB..SWC2); misaligned halfword and word accesses raise AdEL/AdES.
    fn memory_op(&mut self, bus: &mut Bus, op: u32, rt: u8, addr: u32)
        requires
            old(self).wf(),
            old(bus).wf(),
            rt < 32,
        ensures
            final(self).wf(),
            final(bus).wf(),
            final(bus).bios == old(bus).bios,
            final(bus).cycles == old(bus).cycles,
            final(bus).vblanks == old(bus).vblanks,
            memory_effect(*old(self), *final(self), *old(bus), *final(bus), op, rt, addr),
    {
        if op == 0x20 || op == 0x24 || op == 0x21 || op == 0x25 || op == 0x23 {
            if self.cop0.isolate_cache() {
                self.delay_load(rt, 0);
                return ;
            }
            if op == 0x20 || op == 0x24 {
                let v = match bus.read8(addr) {
                    Some(b) => b,
                    None => 0,
                };
                let x: u32 = if op == 0x20 && v >= 0x80 {
                    v as u32 + 0xFFFF_FF00
                } else {
                    v as u32
                };
                self.delay_load(rt, x);
            } else if op == 0x21 || op == 0x25 {
                if addr % 2 != 0 {
                    self.cop0.badvaddr = addr;
                    self.exception(EXC_ADEL, 0);
                    return ;
                }
                let v = match bus.read16(addr) {
                    Some(h) => h,
                    None => 0,
                };
                let x: u32 = if op == 0x21 && v >= 0x8000 {
                    v as u32 + 0xFFFF_0000
                } else {
                    v as u32
                };
                self.delay_load(rt, x);
            } else {
                if addr % 4 != 0 {
                    self.cop0.badvaddr = addr;
                    self.exception(EXC_ADEL, 0);
                    return ;
                }
                let v = match bus.read32(addr) {
                    Some(w) => w,
                    None => 0,
                };
                self.delay_load(rt, v);
            }
        } else if op == 0x28 || op == 0x29 || op == 0x2B {
            let value = self.gpr[rt as usize];
            if self.cop0.isolate_cache() {
                let bcc = bus.cache_ctrl();
                self.store_icache(bcc, addr, value);
                return ;
            }
            if op == 0x28 {
                bus.write8(addr, (value % 0x100) as u8);
            } else if op == 0x29 {
                if addr % 2 != 0 {
                    self.cop0.badvaddr = addr;
                    self.exception(EXC_ADES, 0);
                    return ;
                }
                bus.write16(addr, (value % 0x1_0000) as u16);
            } else {
                if addr % 4 != 0 {
                    self.cop0.badvaddr = addr;
                    self.exception(EXC_ADES, 0);
                    return ;
                }
                bus.write32(addr, value);
            }
        } else if op == 0x22 || op == 0x26 {
            proof {
                lemma_refill_addr(addr);
            }
            let aligned = addr / 4 * 4;
            let word = match bus.read32(aligned) {
                Some(w) => w,
                None => 0,
            };
            let cur = self.merge_base(rt);
            let k = addr % 4;
            let result: u32 = if op == 0x22 {
                if k == 0 {
                    (cur & 0x00FF_FFFF) | (word << 24u32)
                } else if k == 1 {
                    (cur & 0x0000_FFFF) | (word << 16u32)
                } else if k == 2 {
                    (cur & 0x0000_00FF) | (word << 8u32)
                } else {
                    word
                }
            } else {
                if k == 0 {
                    word
                } else if k == 1 {
                    (cur & 0xFF00_0000) | (word >> 8u32)
                } else if k == 2 {
                    (cur & 0xFFFF_0000) | (word >> 16u32)
                } else {
                    (cur & 0xFFFF_FF00) | (word >> 24u32)
                }
            };
            self.delay_load(rt, result);
        } else if op == 0x2A || op == 0x2E {
            proof {
                lemma_refill_addr(addr);
            }
            let aligned = addr / 4 * 4;
            let mem = match bus.read32(aligned) {
                Some(w) => w,
                None => 0,
            };
            let v = self.gpr[rt as usize];
            let k = addr % 4;
            let out: u32 = if op == 0x2A {
                if k == 0 {
                    (mem & 0xFFFF_FF00) | (v >> 24u32)
                } else if k == 1 {
                    (mem & 0xFFFF_0000) | (v >> 16u32)
                } else if k == 2 {
                    (mem & 0xFF00_0000) | (v >> 8u32)
                } else {
                    v
                }
            } else {
                if k == 0 {
                    v
                } else if k == 1 {
                    (mem & 0x0000_00FF) | (v << 8u32)
                } else if k == 2 {
                    (mem & 0x0000_FFFF) | (v << 16u32)
                } else {
                    (mem & 0x00FF_FFFF) | (v << 24u32)
                }
            };
            bus.write32(aligned, out);
        } else if op == 0x32 {
            if addr % 4 != 0 {
                self.cop0.badvaddr = addr;
                self.exception(EXC_ADEL, 0);
                return ;
            }
            let v = match bus.read32(addr) {
                Some(w) => w,
                None => 0,
            };
            self.gte.write_data(rt, v);
        } else if op == 0x3A {
            if addr % 4 != 0 {
                self.cop0.badvaddr = addr;
                self.exception(EXC_ADES, 0);
                return ;
            }
            let v = self.gte.read_data(rt);
            bus.write32(addr, v);
        } else {
            self.exception(EXC_RI, 0);
        }
    }

    /// A store with the cache isolated lands in the I-cache: a tag and valid bits in
    /// tag-test mode (BIU bit 2), else the addressed word.
    fn store_icache(&mut self, bcc: u32, addr: u32, value: u32)
        requires
            old(self).wf(),
        ensures
            final(self).gpr[0] == old(self).gpr[0],
            final(self).wf(),
            final(self).gpr == old(self).gpr,
            final(self).icache@.len() == old(self).icache@.len(),
            forall|i: int|
                0 <= i < ICACHE_LINES && i != icache_line(addr) ==> final(self).icache@[i] == old(
                    self,
                ).icache@[i],
            icache_stored(
                old(self).icache@[icache_line(addr)],
                final(self).icache@[icache_line(addr)],
                bcc,
                addr,
                value,
            ),
            final(self).pc == old(self).pc,
            final(self).cop0 == old(self).cop0,
    {
        let phys = addr % 0x2000_0000;
        let line = ((phys / 16) % 256) as usize;
        let word = ((phys / 4) % 4) as usize;
        let mut c = self.icache[line];
        if (bcc / 4) % 2 == 1 {
            c.tag = phys / 0x1000;
            c.valid = (value % 16) as u8;
        } else {
            c.data[word] = value;
        }
        self.icache.set(line, c);
    }
}

} // verus!
