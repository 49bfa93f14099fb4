//! The mathematical semantics of the machine: ghost views of the simulator
//! state and the console, and spec functions giving the exact effect of every
//! instruction, of one fetch/decode/execute step, and of a bounded run.

use crate::opcodes::{decode, Inst};
use crate::utils::{condition_for, exactly_one_flag, satisfies, Condition};
use vstd::prelude::*;

verus! {

/// Ghost view of the simulator state: 65536 memory words, eight registers,
/// the program counter, the condition flags, and the halt flag.
#[verifier::ext_equal]
pub struct MachineView {
    pub mem: Seq<u16>,
    pub regs: Seq<i16>,
    pub pc: u16,
    pub supervisor: bool,
    pub priority: u8,
    pub cond: Condition,
    pub halted: bool,
}

/// Ghost view of the console: the bytes still waiting to be read, and the
/// bytes written so far.
#[verifier::ext_equal]
pub struct ConsoleView {
    pub input: Seq<u8>,
    pub output: Seq<u8>,
}

/// A fatal condition that aborts the run loop: a capability the simulator
/// does not implement, exhausted console input, a PUTS string with no
/// terminating zero cell, or an exhausted step bound.
#[derive(Debug, PartialEq, Eq, Structural, Clone, Copy)]
pub enum Fault {
    /// RTI was executed; interrupt and supervisor handling is out of scope.
    Rti,
    /// The reserved opcode 0b1101 was executed.
    Reserved,
    /// A TRAP vector outside the implemented service table.
    UnknownTrap { vector: i16 },
    /// GETC was executed with no console input left.
    EndOfInput,
    /// PUTS reached the end of memory without finding a zero cell.
    UnterminatedString,
    /// The step bound was reached before the machine halted.
    StepLimit,
}

/// The unsigned 16-bit value with the same bits as the signed value `v`.
pub open spec fn as_u16(v: i16) -> u16 {
    (if v >= 0 {
        v as int
    } else {
        v + 0x10000
    }) as u16
}

/// The signed 16-bit value with the same bits as the unsigned value `w`.
pub open spec fn as_i16(w: u16) -> i16 {
    (if w < 0x8000 {
        w as int
    } else {
        w - 0x10000
    }) as i16
}

/// The low byte of a 16-bit word.
pub open spec fn low_byte(w: u16) -> u8 {
    (w % 256) as u8
}

/// Reinterpreting an unsigned word as signed is the truncating cast.
pub proof fn lemma_as_i16(w: u16)
    ensures
        w as i16 == as_i16(w),
{
    assert(w < 0x8000 ==> w as i16 == w) by (bit_vector);
    assert(w >= 0x8000 ==> w as i16 == w - 0x10000) by (bit_vector);
}

/// Reinterpreting a signed word as unsigned is the truncating cast.
pub proof fn lemma_as_u16(v: i16)
    ensures
        v as u16 == as_u16(v),
{
    assert(v >= 0 ==> v as u16 == v) by (bit_vector);
    assert(v < 0 ==> v as u16 == v + 0x10000) by (bit_vector);
}

/// Truncating a word to a byte keeps its low eight bits.
pub proof fn lemma_low_byte(w: u16)
    ensures
        w as u8 == low_byte(w),
{
    assert(w as u8 == (w % 256) as u8) by (bit_vector);
}

/// The bitwise complement of a signed 16-bit value; in two's complement
/// this is `-1 - v`.
pub open spec fn bitnot16(v: i16) -> i16 {
    (-1 - v) as i16
}

/// The machine complement operator computes `bitnot16`.
pub proof fn lemma_bitnot16(v: i16, r: i16)
    requires
        r == !v,
    ensures
        r == bitnot16(v),
{
    assert(r == !v ==> r == -1 - v) by (bit_vector);
}

/// Truncating a signed word to a byte keeps the low eight bits of its
/// unsigned reinterpretation.
pub proof fn lemma_low_byte_signed(v: i16)
    ensures
        v as u8 == low_byte(as_u16(v)),
{
    assert(v as u8 == (v as u16) as u8) by (bit_vector);
    lemma_as_u16(v);
    lemma_low_byte(v as u16);
}

impl MachineView {
    /// The value held by register `i`.
    pub open spec fn reg(self, i: i16) -> i16 {
        self.regs[i as int]
    }

    /// Write register `i` without touching the condition flags.
    pub open spec fn with_reg(self, i: i16, v: i16) -> MachineView {
        MachineView { regs: self.regs.update(i as int, v), ..self }
    }

    /// Write register `i` and classify the written value in the flags.
    pub open spec fn with_result(self, i: i16, v: i16) -> MachineView {
        MachineView {
            regs: self.regs.update(i as int, v),
            cond: condition_for(v),
            ..self
        }
    }

    /// Jump: replace the program counter.
    pub open spec fn with_pc(self, pc: u16) -> MachineView {
        MachineView { pc, ..self }
    }

    /// Store the word `w` at address `a`.
    pub open spec fn with_store(self, a: u16, w: u16) -> MachineView {
        MachineView { mem: self.mem.update(a as int, w), ..self }
    }

    /// Stop the machine.
    pub open spec fn with_halt(self) -> MachineView {
        MachineView { halted: true, ..self }
    }
}

/// The first address at or after `a` (scanning to the end of memory, without
/// wrapping) whose cell is zero, if there is one.
pub open spec fn string_end(mem: Seq<u16>, a: int) -> Option<int>
    decreases 65536 - a,
{
    if !(0 <= a < 65536) {
        None
    } else if mem[a] == 0 {
        Some(a)
    } else {
        string_end(mem, a + 1)
    }
}

/// The low bytes of the cells from `start` (inclusive) to `end` (exclusive).
pub open spec fn string_bytes(mem: Seq<u16>, start: int, end: int) -> Seq<u8> {
    Seq::new((end - start) as nat, |i: int| low_byte(mem[start + i]))
}

/// Which instructions update the condition flags.
pub open spec fn sets_condition(inst: Inst) -> bool {
    ||| inst is ADD
    ||| inst is ADDi
    ||| inst is AND
    ||| inst is ANDi
    ||| inst is NOT
    ||| inst is LD
    ||| inst is LDI
    ||| inst is LDR
    ||| inst is LEA
}

/// The destination register of an instruction that writes one.
pub open spec fn dest_reg(inst: Inst) -> i16 {
    match inst {
        Inst::ADD { dr, .. } => dr,
        Inst::ADDi { dr, .. } => dr,
        Inst::AND { dr, .. } => dr,
        Inst::ANDi { dr, .. } => dr,
        Inst::NOT { dr, .. } => dr,
        Inst::LD { dr, .. } => dr,
        Inst::LDI { dr, .. } => dr,
        Inst::LDR { dr, .. } => dr,
        Inst::LEA { dr, .. } => dr,
        _ => 0,
    }
}

/// The effect of executing one decoded instruction on the machine and the
/// console: either the next state, or the fault that aborts the run. The
/// program counter has already been advanced past the instruction, so
/// PC-relative offsets are relative to the next instruction.
pub open spec fn execute(m: MachineView, c: ConsoleView, inst: Inst) -> Result<
    (MachineView, ConsoleView),
    Fault,
> {
    match inst {
        Inst::ADD { dr, sr1, sr2 } => Ok(
            (m.with_result(dr, m.reg(sr1).wrapping_add(m.reg(sr2))), c),
        ),
        Inst::ADDi { dr, sr1, imm } => Ok((m.with_result(dr, m.reg(sr1).wrapping_add(imm)), c)),
        Inst::AND { dr, sr1, sr2 } => Ok((m.with_result(dr, m.reg(sr1) & m.reg(sr2)), c)),
        Inst::ANDi { dr, sr, imm } => Ok((m.with_result(dr, m.reg(sr) & imm), c)),
        Inst::NOT { dr, sr } => Ok((m.with_result(dr, bitnot16(m.reg(sr))), c)),
        Inst::BR { cond, pc_offset } => Ok(
            (
                if satisfies(m.cond, cond) {
                    m.with_pc(m.pc.wrapping_add(as_u16(pc_offset)))
                } else {
                    m
                },
                c,
            ),
        ),
        Inst::JMP { base_r } => Ok((m.with_pc(m.pc.wrapping_add(as_u16(m.reg(base_r)))), c)),
        Inst::JSR { pc_offset } => Ok(
            (m.with_reg(7, as_i16(m.pc)).with_pc(m.pc.wrapping_add(as_u16(pc_offset))), c),
        ),
        Inst::JSRr { base_r } => Ok(
            ({
                // The return address is saved first, so a jump through R7
                // reads the saved address, as the hardware order implies.
                let saved = m.with_reg(7, as_i16(m.pc));
                saved.with_pc(as_u16(saved.reg(base_r)))
            }, c),
        ),
        Inst::LD { dr, pc_offset } => Ok(
            (
                m.with_result(
                    dr,
                    as_i16(m.mem[m.pc.wrapping_add(as_u16(pc_offset)) as int]),
                ),
                c,
            ),
        ),
        Inst::LDI { dr, pc_offset } => Ok(
            ({
                let pointer = m.mem[m.pc.wrapping_add(as_u16(pc_offset)) as int];
                m.with_result(dr, as_i16(m.mem[pointer as int]))
            }, c),
        ),
        Inst::LDR { dr, base_r, offset } => Ok(
            (
                m.with_result(
                    dr,
                    as_i16(m.mem[as_u16(m.reg(base_r).wrapping_add(offset)) as int]),
                ),
                c,
            ),
        ),
        Inst::LEA { dr, pc_offset } => Ok(
            (m.with_result(dr, as_i16(m.pc.wrapping_add(as_u16(pc_offset)))), c),
        ),
        Inst::Reserved => Err(Fault::Reserved),
        Inst::RTI => Err(Fault::Rti),
        Inst::ST { sr, pc_offset } => Ok(
            (m.with_store(m.pc.wrapping_add(as_u16(pc_offset)), as_u16(m.reg(sr))), c),
        ),
        Inst::STI { sr, pc_offset } => Ok(
            ({
                let pointer = m.mem[m.pc.wrapping_add(as_u16(pc_offset)) as int];
                m.with_store(pointer, as_u16(m.reg(sr)))
            }, c),
        ),
        Inst::STR { sr, base_r, offset } => Ok(
            (
                m.with_store(as_u16(m.reg(base_r).wrapping_add(offset)), as_u16(m.reg(sr))),
                c,
            ),
        ),
        Inst::TRAP { trap_vect } => execute_trap(m, c, trap_vect),
    }
}

/// The effect of a TRAP instruction: dispatch on the vector to the console
/// services, HALT, or an unknown-trap fault.
pub open spec fn execute_trap(m: MachineView, c: ConsoleView, trap_vect: i16) -> Result<
    (MachineView, ConsoleView),
    Fault,
> {
    if trap_vect == 0x20 {
        // GETC: one input byte into R0, zero-extended, flags untouched.
        if c.input.len() == 0 {
            Err(Fault::EndOfInput)
        } else {
            Ok(
                (
                    m.with_reg(0, c.input[0] as i16),
                    ConsoleView { input: c.input.remove(0), output: c.output },
                ),
            )
        }
    } else if trap_vect == 0x21 {
        // OUT: the low byte of R0 to the output.
        Ok((m, ConsoleView { input: c.input, output: c.output.push(low_byte(as_u16(m.reg(0)))) }))
    } else if trap_vect == 0x22 {
        // PUTS: the low bytes of successive cells from the address in R0,
        // up to but not including the first zero cell.
        let start = as_u16(m.reg(0)) as int;
        match string_end(m.mem, start) {
            Option::None => Err(Fault::UnterminatedString),
            Option::Some(end) => Ok(
                (
                    m,
                    ConsoleView {
                        input: c.input,
                        output: c.output + string_bytes(m.mem, start, end),
                    },
                ),
            ),
        }
    } else if trap_vect == 0x25 {
        // HALT.
        Ok((m.with_halt(), c))
    } else {
        Err(Fault::UnknownTrap { vector: trap_vect })
    }
}

/// One step of the run loop: fetch the word at the program counter, advance
/// the program counter, decode, and execute. On a fault the machine keeps the
/// advanced program counter and is otherwise unchanged.
pub open spec fn step(m: MachineView, c: ConsoleView) -> (MachineView, ConsoleView, Result<
    (),
    Fault,
>) {
    let inst = decode(m.mem[m.pc as int]);
    let fetched = MachineView { pc: m.pc.wrapping_add(1), ..m };
    match execute(fetched, c, inst) {
        Ok(next) => (next.0, next.1, Ok(())),
        Err(f) => (fetched, c, Err(f)),
    }
}

/// A bounded run: step until the machine halts, a fault occurs, or `fuel`
/// steps have been taken without halting.
pub open spec fn run_from(m: MachineView, c: ConsoleView, fuel: nat) -> (MachineView, ConsoleView, Result<
    (),
    Fault,
>)
    decreases fuel,
{
    if m.halted {
        (m, c, Ok(()))
    } else if fuel == 0 {
        (m, c, Err(Fault::StepLimit))
    } else {
        let s = step(m, c);
        if s.2 is Ok {
            run_from(s.0, s.1, (fuel - 1) as nat)
        } else {
            s
        }
    }
}

/// After any instruction that sets condition codes, exactly one flag is true,
/// and it classifies the value just written to the destination register.
pub proof fn lemma_condition_codes_exclusive(
    m: MachineView,
    c: ConsoleView,
    inst: Inst,
    m2: MachineView,
    c2: ConsoleView,
)
    requires
        m.regs.len() == 8,
        inst.wf(),
        sets_condition(inst),
        execute(m, c, inst) == Ok::<(MachineView, ConsoleView), Fault>((m2, c2)),
    ensures
        exactly_one_flag(m2.cond),
        m2.cond == condition_for(m2.regs[dest_reg(inst) as int]),
{
    let dr = dest_reg(inst);
    assert(0 <= dr < 8);
    match inst {
        Inst::ADD { dr, .. } => {
            assert(m2.cond == condition_for(m2.regs[dr as int]));
        },
        Inst::ADDi { dr, .. } => {
            assert(m2.cond == condition_for(m2.regs[dr as int]));
        },
        Inst::AND { dr, .. } => {
            assert(m2.cond == condition_for(m2.regs[dr as int]));
        },
        Inst::ANDi { dr, .. } => {
            assert(m2.cond == condition_for(m2.regs[dr as int]));
        },
        Inst::NOT { dr, .. } => {
            assert(m2.cond == condition_for(m2.regs[dr as int]));
        },
        Inst::LD { dr, .. } => {
            assert(m2.cond == condition_for(m2.regs[dr as int]));
        },
        Inst::LDI { dr, .. } => {
            assert(m2.cond == condition_for(m2.regs[dr as int]));
        },
        Inst::LDR { dr, .. } => {
            assert(m2.cond == condition_for(m2.regs[dr as int]));
        },
        Inst::LEA { dr, .. } => {
            assert(m2.cond == condition_for(m2.regs[dr as int]));
        },
        _ => {
        },
    }
}

/// A branch whose mask tests only `negative` is taken exactly when the
/// current `negative` flag is set, whatever the other flags hold.
pub proof fn lemma_branch_negative_mask(
    m: MachineView,
    c: ConsoleView,
    off: i16,
    m2: MachineView,
    c2: ConsoleView,
)
    requires
        execute(
            m,
            c,
            Inst::BR { cond: (Condition { n: true, z: false, p: false }), pc_offset: off },
        ) == Ok::<(MachineView, ConsoleView), Fault>((m2, c2)),
    ensures
        m2.pc == (if m.cond.n {
            m.pc.wrapping_add(as_u16(off))
        } else {
            m.pc
        }),
        m2.mem == m.mem,
        m2.regs == m.regs,
        m2.cond == m.cond,
{
}

} // verus!
