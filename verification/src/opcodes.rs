use crate::utils::{sext, signed16, Condition};
use vstd::arithmetic::power2::{
    lemma2_to64, lemma_pow2_adds, lemma_pow2_pos, lemma_pow2_strictly_increases, pow2,
};
use vstd::bits::{
    lemma_u16_low_bits_mask_is_mod, lemma_u16_shr_is_div, lemma_u32_shl_is_mul, low_bits_mask,
};
use vstd::prelude::*;

verus! {

/// The value of the bit field of `w` that starts at bit `lo` and is `width`
/// bits wide (bit 0 is the least significant).
pub open spec fn field(w: u16, lo: nat, width: nat) -> int {
    (w as int / pow2(lo) as int) % pow2(width) as int
}

/// A three-bit register field starting at bit `lo`.
pub open spec fn reg_field(w: u16, lo: nat) -> i16 {
    field(w, lo, 3) as i16
}

/// A sign-extended immediate or offset field starting at bit `lo`.
pub open spec fn sfield(w: u16, lo: nat, width: nat) -> i16 {
    signed16(field(w, lo, width) as u16, width)
}

/// Extract bits `hi` down to `lo` of `v`, inclusive, zero-extended.
pub fn bits(v: u16, hi: u16, lo: u16) -> (r: i16)
    requires
        lo <= hi <= 15,
        hi - lo < 15,
    ensures
        0 <= r < pow2((hi - lo + 1) as nat),
        r as int == field(v, lo as nat, (hi - lo + 1) as nat),
        r == field(v, lo as nat, (hi - lo + 1) as nat) as i16,
{
    let width = hi - lo + 1;
    proof {
        // 2 << (width - 1) is 2^width, so the mask keeps exactly `width` bits.
        lemma2_to64();
        lemma_u32_shl_is_mul(2u32, (hi - lo) as u32);
        lemma_pow2_adds((hi - lo) as nat, 1);
        if (width as nat) < 15 {
            lemma_pow2_strictly_increases(width as nat, 15);
        }
    }
    let mask32: u32 = (2u32 << (hi - lo) as u32) - 1;
    proof {
        assert(mask32 == low_bits_mask(width as nat));
    }
    let mask: u16 = mask32 as u16;
    let shifted: u16 = v >> lo;
    proof {
        lemma_u16_shr_is_div(v, lo);
        lemma_u16_low_bits_mask_is_mod(shifted, width as nat);
        lemma_pow2_pos(width as nat);
    }
    let r: u16 = shifted & mask;
    r as i16
}

/// A decoded LC-3 instruction: one variant per opcode, with the
/// register/immediate forms of ADD and AND and the JSR/JSRR forms kept as
/// distinct variants.
#[derive(Debug, PartialEq, Eq, Structural)]
pub enum Inst {
    ADD { dr: i16, sr1: i16, sr2: i16 },
    ADDi { dr: i16, sr1: i16, imm: i16 },
    AND { dr: i16, sr1: i16, sr2: i16 },
    ANDi { dr: i16, sr: i16, imm: i16 },
    BR { cond: Condition, pc_offset: i16 },
    JMP { base_r: i16 },
    JSR { pc_offset: i16 },
    JSRr { base_r: i16 },
    LD { dr: i16, pc_offset: i16 },
    LDI { dr: i16, pc_offset: i16 },
    LDR { dr: i16, base_r: i16, offset: i16 },
    LEA { dr: i16, pc_offset: i16 },
    NOT { dr: i16, sr: i16 },
    /// The unused opcode slot 0b1101, architecturally reserved. Decoding it
    /// succeeds; executing it is a fatal capability gap, like RTI.
    Reserved,
    RTI,
    ST { sr: i16, pc_offset: i16 },
    STI { sr: i16, pc_offset: i16 },
    STR { sr: i16, base_r: i16, offset: i16 },
    TRAP { trap_vect: i16 },
}

/// The instruction denoted by the 16-bit word `w`: bits 15..12 select the
/// opcode, and the remaining bits are read as the operand fields of that
/// opcode. Total: every word decodes to some instruction.
pub open spec fn decode(w: u16) -> Inst {
    let op = field(w, 12, 4);
    if op == 0b0001 {
        if field(w, 5, 1) == 0 {
            Inst::ADD { dr: reg_field(w, 9), sr1: reg_field(w, 6), sr2: reg_field(w, 0) }
        } else {
            Inst::ADDi { dr: reg_field(w, 9), sr1: reg_field(w, 6), imm: sfield(w, 0, 5) }
        }
    } else if op == 0b0101 {
        if field(w, 5, 1) == 0 {
            Inst::AND { dr: reg_field(w, 9), sr1: reg_field(w, 6), sr2: reg_field(w, 0) }
        } else {
            Inst::ANDi { dr: reg_field(w, 9), sr: reg_field(w, 6), imm: sfield(w, 0, 5) }
        }
    } else if op == 0b0000 {
        Inst::BR {
            cond: Condition {
                n: field(w, 11, 1) == 1,
                z: field(w, 10, 1) == 1,
                p: field(w, 9, 1) == 1,
            },
            pc_offset: sfield(w, 0, 9),
        }
    } else if op == 0b1100 {
        Inst::JMP { base_r: reg_field(w, 6) }
    } else if op == 0b0100 {
        if field(w, 11, 1) == 0 {
            Inst::JSRr { base_r: reg_field(w, 6) }
        } else {
            Inst::JSR { pc_offset: sfield(w, 0, 11) }
        }
    } else if op == 0b0010 {
        Inst::LD { dr: reg_field(w, 9), pc_offset: sfield(w, 0, 9) }
    } else if op == 0b1010 {
        Inst::LDI { dr: reg_field(w, 9), pc_offset: sfield(w, 0, 9) }
    } else if op == 0b0110 {
        Inst::LDR { dr: reg_field(w, 9), base_r: reg_field(w, 6), offset: sfield(w, 0, 6) }
    } else if op == 0b1110 {
        Inst::LEA { dr: reg_field(w, 9), pc_offset: sfield(w, 0, 9) }
    } else if op == 0b1001 {
        Inst::NOT { dr: reg_field(w, 9), sr: reg_field(w, 6) }
    } else if op == 0b1000 {
        Inst::RTI
    } else if op == 0b0011 {
        Inst::ST { sr: reg_field(w, 9), pc_offset: sfield(w, 0, 9) }
    } else if op == 0b1011 {
        Inst::STI { sr: reg_field(w, 9), pc_offset: sfield(w, 0, 9) }
    } else if op == 0b0111 {
        Inst::STR { sr: reg_field(w, 9), base_r: reg_field(w, 6), offset: sfield(w, 0, 6) }
    } else if op == 0b1101 {
        Inst::Reserved
    } else {
        Inst::TRAP { trap_vect: field(w, 0, 8) as i16 }
    }
}

impl From<u16> for Inst {
    /// Decode a raw 16-bit word into an instruction.
    fn from(raw: u16) -> (inst: Inst) {
        let op_code = bits(raw, 15, 12);
        proof {
            lemma2_to64();
        }
        match op_code {
            0b0001 => match bits(raw, 5, 5) {
                0 => Inst::ADD {
                    dr: bits(raw, 11, 9),
                    sr1: bits(raw, 8, 6),
                    sr2: bits(raw, 2, 0),
                },
                _ => Inst::ADDi {
                    dr: bits(raw, 11, 9),
                    sr1: bits(raw, 8, 6),
                    imm: sext(bits(raw, 4, 0), 5),
                },
            },
            0b0101 => match bits(raw, 5, 5) {
                0 => Inst::AND {
                    dr: bits(raw, 11, 9),
                    sr1: bits(raw, 8, 6),
                    sr2: bits(raw, 2, 0),
                },
                _ => Inst::ANDi {
                    dr: bits(raw, 11, 9),
                    sr: bits(raw, 8, 6),
                    imm: sext(bits(raw, 4, 0), 5),
                },
            },
            0b0000 => Inst::BR {
                cond: Condition {
                    n: bits(raw, 11, 11) == 1,
                    z: bits(raw, 10, 10) == 1,
                    p: bits(raw, 9, 9) == 1,
                },
                pc_offset: sext(bits(raw, 8, 0), 9),
            },
            0b1100 => Inst::JMP { base_r: bits(raw, 8, 6) },
            0b0100 => match bits(raw, 11, 11) {
                0 => Inst::JSRr { base_r: bits(raw, 8, 6) },
                _ => Inst::JSR { pc_offset: sext(bits(raw, 10, 0), 11) },
            },
            0b0010 => Inst::LD { dr: bits(raw, 11, 9), pc_offset: sext(bits(raw, 8, 0), 9) },
            0b1010 => Inst::LDI { dr: bits(raw, 11, 9), pc_offset: sext(bits(raw, 8, 0), 9) },
            0b0110 => Inst::LDR {
                dr: bits(raw, 11, 9),
                base_r: bits(raw, 8, 6),
                offset: sext(bits(raw, 5, 0), 6),
            },
            0b1110 => Inst::LEA { dr: bits(raw, 11, 9), pc_offset: sext(bits(raw, 8, 0), 9) },
            0b1001 => Inst::NOT { dr: bits(raw, 11, 9), sr: bits(raw, 8, 6) },
            0b1000 => Inst::RTI,
            0b0011 => Inst::ST { sr: bits(raw, 11, 9), pc_offset: sext(bits(raw, 8, 0), 9) },
            0b1011 => Inst::STI { sr: bits(raw, 11, 9), pc_offset: sext(bits(raw, 8, 0), 9) },
            0b0111 => Inst::STR {
                sr: bits(raw, 11, 9),
                base_r: bits(raw, 8, 6),
                offset: sext(bits(raw, 5, 0), 6),
            },
            0b1101 => Inst::Reserved,
            _ => Inst::TRAP { trap_vect: bits(raw, 7, 0) },
        }
    }
}

impl vstd::std_specs::convert::FromSpecImpl<u16> for Inst {
    open spec fn obeys_from_spec() -> bool {
        true
    }

    open spec fn from_spec(w: u16) -> Inst {
        decode(w)
    }
}

impl Inst {
    /// Every register field names one of the eight registers, and a trap
    /// vector fits in eight bits. Decoded instructions always satisfy this.
    pub open spec fn wf(self) -> bool {
        match self {
            Inst::ADD { dr, sr1, sr2 } => 0 <= dr < 8 && 0 <= sr1 < 8 && 0 <= sr2 < 8,
            Inst::ADDi { dr, sr1, imm } => 0 <= dr < 8 && 0 <= sr1 < 8,
            Inst::AND { dr, sr1, sr2 } => 0 <= dr < 8 && 0 <= sr1 < 8 && 0 <= sr2 < 8,
            Inst::ANDi { dr, sr, imm } => 0 <= dr < 8 && 0 <= sr < 8,
            Inst::BR { cond, pc_offset } => true,
            Inst::JMP { base_r } => 0 <= base_r < 8,
            Inst::JSR { pc_offset } => true,
            Inst::JSRr { base_r } => 0 <= base_r < 8,
            Inst::LD { dr, pc_offset } => 0 <= dr < 8,
            Inst::LDI { dr, pc_offset } => 0 <= dr < 8,
            Inst::LDR { dr, base_r, offset } => 0 <= dr < 8 && 0 <= base_r < 8,
            Inst::LEA { dr, pc_offset } => 0 <= dr < 8,
            Inst::NOT { dr, sr } => 0 <= dr < 8 && 0 <= sr < 8,
            Inst::Reserved => true,
            Inst::RTI => true,
            Inst::ST { sr, pc_offset } => 0 <= sr < 8,
            Inst::STI { sr, pc_offset } => 0 <= sr < 8,
            Inst::STR { sr, base_r, offset } => 0 <= sr < 8 && 0 <= base_r < 8,
            Inst::TRAP { trap_vect } => 0 <= trap_vect < 256,
        }
    }

    /// The 4-bit opcode that selects this instruction.
    pub open spec fn opcode(self) -> u16 {
        match self {
            Inst::BR { .. } => 0b0000,
            Inst::ADD { .. } => 0b0001,
            Inst::ADDi { .. } => 0b0001,
            Inst::LD { .. } => 0b0010,
            Inst::ST { .. } => 0b0011,
            Inst::JSR { .. } => 0b0100,
            Inst::JSRr { .. } => 0b0100,
            Inst::AND { .. } => 0b0101,
            Inst::ANDi { .. } => 0b0101,
            Inst::LDR { .. } => 0b0110,
            Inst::STR { .. } => 0b0111,
            Inst::RTI => 0b1000,
            Inst::NOT { .. } => 0b1001,
            Inst::LDI { .. } => 0b1010,
            Inst::STI { .. } => 0b1011,
            Inst::JMP { .. } => 0b1100,
            Inst::Reserved => 0b1101,
            Inst::LEA { .. } => 0b1110,
            Inst::TRAP { .. } => 0b1111,
        }
    }
}

/// Decoding is total, and the decoded instruction's opcode is exactly the top
/// four bits of the word.
#[verifier::rlimit(50)]
pub proof fn lemma_decode_total(w: u16)
    ensures
        decode(w).opcode() == w >> 12,
{
    lemma2_to64();
    lemma_u16_shr_is_div(w, 12);
    assert(0 <= w as int / 4096 < 16) by (nonlinear_arith)
        requires
            0 <= w < 65536,
    ;
    assert(field(w, 12, 4) == w as int / 4096);
    assert(w >> 12 == w as int / 4096);
}

/// Every decoded instruction is well formed: its register fields are register
/// numbers and its trap vector fits in eight bits.
pub proof fn lemma_decode_wf(w: u16)
    ensures
        decode(w).wf(),
{
    lemma2_to64();
}

/// Decoding is a pure function of the word: two decodings of the same word
/// yield the same instruction.
pub proof fn lemma_decode_deterministic(w: u16, a: Inst, b: Inst)
    requires
        a == decode(w),
        b == decode(w),
    ensures
        a == b,
{
}

} // verus!
