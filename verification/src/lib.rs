//! A functional simulator for the LC-3 teaching architecture: a 16-bit
//! machine with 65536 words of memory, eight general-purpose registers, a
//! program counter, three condition-code flags, and a small set of software
//! traps for console I/O.
//!
//! The console is an injected collaborator, modelled as in-memory byte
//! buffers, so the whole fetch/decode/execute core is free of real I/O.

pub mod opcodes;
pub mod semantics;
pub mod utils;

use vstd::prelude::*;

use opcodes::Inst;
use semantics::{
    as_u16, execute, lemma_as_i16, lemma_as_u16, lemma_bitnot16, lemma_low_byte,
    lemma_low_byte_signed, run_from, step, string_bytes, string_end, ConsoleView, Fault,
    MachineView,
};
use utils::{condition_for, Condition};

verus! {

/// The console collaborator: the bytes still waiting to be read, and the
/// bytes written so far. A real terminal, or a test, fills `input` and
/// drains `output` around the run loop.
pub struct Console {
    pub input: Vec<u8>,
    pub output: Vec<u8>,
}

impl View for Console {
    type V = ConsoleView;

    open spec fn view(&self) -> ConsoleView {
        ConsoleView { input: self.input@, output: self.output@ }
    }
}

impl Console {
    /// A console with no pending input and nothing written yet.
    pub fn new() -> (c: Console)
        ensures
            c@ == (ConsoleView { input: Seq::<u8>::empty(), output: Seq::<u8>::empty() }),
    {
        Console { input: Vec::new(), output: Vec::new() }
    }
}

/// The simulator state: memory, registers, program counter, condition
/// flags, and the halt flag. The supervisor and priority fields exist for
/// architectural completeness and are not exercised by any instruction.
pub struct LC3 {
    pub memory: Vec<u16>,
    pub registers: Vec<i16>,
    pub pc: u16,
    pub supervisor: bool,
    pub priority: u8,
    pub condition: Condition,
    pub halted: bool,
}

impl View for LC3 {
    type V = MachineView;

    open spec fn view(&self) -> MachineView {
        MachineView {
            mem: self.memory@,
            regs: self.registers@,
            pc: self.pc,
            supervisor: self.supervisor,
            priority: self.priority,
            cond: self.condition,
            halted: self.halted,
        }
    }
}

/// The machine state every run starts from: zeroed memory and registers,
/// the program counter at 0x3000, all flags clear.
pub open spec fn initial_machine() -> MachineView {
    MachineView {
        mem: Seq::new(65536, |i: int| 0u16),
        regs: Seq::new(8, |i: int| 0i16),
        pc: 0x3000,
        supervisor: false,
        priority: 0,
        cond: Condition { n: false, z: false, p: false },
        halted: false,
    }
}

impl LC3 {
    /// The fixed shape of the machine: 65536 memory cells and 8 registers.
    pub open spec fn wf(self) -> bool {
        self.memory@.len() == 65536 && self.registers@.len() == 8
    }

    /// Classify `val` in the condition flags: exactly one of
    /// negative/zero/positive becomes true.
    fn set_condition(&mut self, val: i16)
        ensures
            final(self)@ == (MachineView { cond: condition_for(val), ..old(self)@ }),
    {
        self.condition.n = val < 0;
        self.condition.z = val == 0;
        self.condition.p = val > 0;
    }

    /// Apply one decoded instruction to the machine and the console,
    /// exactly as the instruction semantics `execute` describes: registers,
    /// memory, program counter and flags change in place, trap services read
    /// and write the console, and a fault leaves both untouched.
    pub fn run_instruction(&mut self, inst: Inst, console: &mut Console) -> (r: Result<(), Fault>)
        requires
            old(self).wf(),
            inst.wf(),
        ensures
            final(self).wf(),
            match execute(old(self)@, old(console)@, inst) {
                Ok(next) => r == Ok::<(), Fault>(()) && final(self)@ == next.0 && final(console)@ == next.1,
                Err(f) => r == Err::<(), Fault>(f) && final(self)@ == old(self)@
                    && final(console)@ == old(console)@,
            },
    {
        match inst {
            Inst::ADD { dr, sr1, sr2 } => {
                let v: i16 = self.registers[sr1 as usize].wrapping_add(
                    self.registers[sr2 as usize],
                );
                self.registers[dr as usize] = v;
                self.set_condition(v);
                Ok(())
            },
            Inst::ADDi { dr, sr1, imm } => {
                let v: i16 = self.registers[sr1 as usize].wrapping_add(imm);
                self.registers[dr as usize] = v;
                self.set_condition(v);
                Ok(())
            },
            Inst::AND { dr, sr1, sr2 } => {
                let v: i16 = self.registers[sr1 as usize] & self.registers[sr2 as usize];
                self.registers[dr as usize] = v;
                self.set_condition(v);
                Ok(())
            },
            Inst::ANDi { dr, sr, imm } => {
                let v: i16 = self.registers[sr as usize] & imm;
                self.registers[dr as usize] = v;
                self.set_condition(v);
                Ok(())
            },
            Inst::NOT { dr, sr } => {
                let v: i16 = !self.registers[sr as usize];
                proof {
                    lemma_bitnot16(self.registers@[sr as int], v);
                }
                self.registers[dr as usize] = v;
                self.set_condition(v);
                Ok(())
            },
            Inst::BR { cond, pc_offset } => {
                if self.condition.is_satisfied_by(&cond) {
                    proof {
                        lemma_as_u16(pc_offset);
                    }
                    self.pc = self.pc.wrapping_add(#[verifier::truncate] (pc_offset as u16));
                }
                Ok(())
            },
            Inst::JMP { base_r } => {
                let b: i16 = self.registers[base_r as usize];
                proof {
                    lemma_as_u16(b);
                }
                self.pc = self.pc.wrapping_add(#[verifier::truncate] (b as u16));
                Ok(())
            },
            Inst::JSR { pc_offset } => {
                proof {
                    lemma_as_i16(self.pc);
                    lemma_as_u16(pc_offset);
                }
                self.registers[7] = #[verifier::truncate] (self.pc as i16);
                self.pc = self.pc.wrapping_add(#[verifier::truncate] (pc_offset as u16));
                Ok(())
            },
            Inst::JSRr { base_r } => {
                proof {
                    lemma_as_i16(self.pc);
                }
                self.registers[7] = #[verifier::truncate] (self.pc as i16);
                let b: i16 = self.registers[base_r as usize];
                proof {
                    lemma_as_u16(b);
                }
                self.pc = #[verifier::truncate] (b as u16);
                Ok(())
            },
            Inst::LD { dr, pc_offset } => {
                proof {
                    lemma_as_u16(pc_offset);
                }
                let addr: u16 = self.pc.wrapping_add(#[verifier::truncate] (pc_offset as u16));
                let w: u16 = self.memory[addr as usize];
                proof {
                    lemma_as_i16(w);
                }
                let v: i16 = #[verifier::truncate] (w as i16);
                self.registers[dr as usize] = v;
                self.set_condition(v);
                Ok(())
            },
            Inst::LDI { dr, pc_offset } => {
                proof {
                    lemma_as_u16(pc_offset);
                }
                let addr: u16 = self.pc.wrapping_add(#[verifier::truncate] (pc_offset as u16));
                let pointer: u16 = self.memory[addr as usize];
                let w: u16 = self.memory[pointer as usize];
                proof {
                    lemma_as_i16(w);
                }
                let v: i16 = #[verifier::truncate] (w as i16);
                self.registers[dr as usize] = v;
                self.set_condition(v);
                Ok(())
            },
            Inst::LDR { dr, base_r, offset } => {
                let ea: i16 = self.registers[base_r as usize].wrapping_add(offset);
                proof {
                    lemma_as_u16(ea);
                }
                let w: u16 = self.memory[(#[verifier::truncate] (ea as u16)) as usize];
                proof {
                    lemma_as_i16(w);
                }
                let v: i16 = #[verifier::truncate] (w as i16);
                self.registers[dr as usize] = v;
                self.set_condition(v);
                Ok(())
            },
            Inst::LEA { dr, pc_offset } => {
                proof {
                    lemma_as_u16(pc_offset);
                }
                let addr: u16 = self.pc.wrapping_add(#[verifier::truncate] (pc_offset as u16));
                proof {
                    lemma_as_i16(addr);
                }
                let v: i16 = #[verifier::truncate] (addr as i16);
                self.registers[dr as usize] = v;
                self.set_condition(v);
                Ok(())
            },
            Inst::Reserved => Err(Fault::Reserved),
            Inst::RTI => Err(Fault::Rti),
            Inst::ST { sr, pc_offset } => {
                proof {
                    lemma_as_u16(pc_offset);
                    lemma_as_u16(self.registers@[sr as int]);
                }
                let addr: u16 = self.pc.wrapping_add(#[verifier::truncate] (pc_offset as u16));
                self.memory[addr as usize] = #[verifier::truncate] (
                self.registers[sr as usize] as u16);
                Ok(())
            },
            Inst::STI { sr, pc_offset } => {
                proof {
                    lemma_as_u16(pc_offset);
                    lemma_as_u16(self.registers@[sr as int]);
                }
                let addr: u16 = self.pc.wrapping_add(#[verifier::truncate] (pc_offset as u16));
                let pointer: u16 = self.memory[addr as usize];
                self.memory[pointer as usize] = #[verifier::truncate] (
                self.registers[sr as usize] as u16);
                Ok(())
            },
            Inst::STR { sr, base_r, offset } => {
                let ea: i16 = self.registers[base_r as usize].wrapping_add(offset);
                proof {
                    lemma_as_u16(ea);
                    lemma_as_u16(self.registers@[sr as int]);
                }
                self.memory[(#[verifier::truncate] (ea as u16)) as usize] = #[verifier::truncate] (
                self.registers[sr as usize] as u16);
                Ok(())
            },
            Inst::TRAP { trap_vect } => {
                if trap_vect == 0x20 {
                    // GETC: one input byte into R0, zero-extended.
                    if console.input.len() == 0 {
                        Err(Fault::EndOfInput)
                    } else {
                        let b: u8 = console.input.remove(0);
                        self.registers[0] = b as i16;
                        Ok(())
                    }
                } else if trap_vect == 0x21 {
                    // OUT: the low byte of R0 to the output.
                    proof {
                        lemma_low_byte_signed(self.registers@[0]);
                    }
                    let b: u8 = #[verifier::truncate] (self.registers[0] as u8);
                    console.output.push(b);
                    Ok(())
                } else if trap_vect == 0x22 {
                    // PUTS: write the low bytes of successive cells from the
                    // address in R0 until a zero cell is reached.
                    proof {
                        lemma_as_u16(self.registers@[0]);
                    }
                    let start: u16 = #[verifier::truncate] (self.registers[0] as u16);
                    let mut spot: u16 = start;
                    let mut buf: Vec<u8> = Vec::new();
                    loop
                        invariant
                            inst == (Inst::TRAP { trap_vect: 0x22 }),
                            self.wf(),
                            self@ == old(self)@,
                            console@ == old(console)@,
                            start == as_u16(old(self)@.regs[0]),
                            start <= spot <= 0xFFFF,
                            string_end(self@.mem, start as int) == string_end(
                                self@.mem,
                                spot as int,
                            ),
                            buf@ == string_bytes(self@.mem, start as int, spot as int),
                        ensures
                            spot <= 0xFFFF,
                            self@.mem[spot as int] == 0,
                            string_end(self@.mem, start as int) == Some(spot as int),
                            buf@ == string_bytes(self@.mem, start as int, spot as int),
                        decreases 65536 - spot,
                    {
                        let w: u16 = self.memory[spot as usize];
                        if w == 0 {
                            break ;
                        }
                        proof {
                            lemma_low_byte(w);
                        }
                        buf.push(#[verifier::truncate] (w as u8));
                        if spot == 0xFFFF {
                            proof {
                                assert(string_end(self@.mem, spot as int + 1) is None);
                                assert(string_end(self@.mem, spot as int) is None);
                                assert(string_end(self@.mem, start as int) is None);
                            }
                            return Err(Fault::UnterminatedString);
                        }
                        proof {
                            assert(string_end(self@.mem, spot as int) == string_end(
                                self@.mem,
                                spot as int + 1,
                            ));
                            assert(buf@ =~= string_bytes(
                                self@.mem,
                                start as int,
                                spot as int + 1,
                            ));
                        }
                        spot = spot + 1;
                    }
                    console.output.append(&mut buf);
                    proof {
                        assert(console@ =~= (ConsoleView {
                            input: old(console)@.input,
                            output: old(console)@.output + string_bytes(
                                old(self)@.mem,
                                start as int,
                                spot as int,
                            ),
                        }));
                    }
                    Ok(())
                } else if trap_vect == 0x25 {
                    // HALT.
                    self.halted = true;
                    Ok(())
                } else {
                    Err(Fault::UnknownTrap { vector: trap_vect })
                }
            },
        }
    }

    /// One step of the run loop: fetch the word at the program counter,
    /// advance the program counter, decode, execute.
    pub fn run_step(&mut self, console: &mut Console) -> (r: Result<(), Fault>)
        requires
            old(self).wf(),
        ensures
            final(self).wf(),
            final(self)@ == step(old(self)@, old(console)@).0,
            final(console)@ == step(old(self)@, old(console)@).1,
            r == step(old(self)@, old(console)@).2,
    {
        let w: u16 = self.memory[self.pc as usize];
        let inst = Inst::from(w);
        self.pc = self.pc.wrapping_add(1);
        proof {
            opcodes::lemma_decode_wf(w);
        }
        self.run_instruction(inst, console)
    }

    /// Step until the machine halts, a fault aborts the run, or `max_steps`
    /// steps have been taken; the result is exactly what the bounded-run
    /// semantics `run_from` gives.
    #[verifier::loop_isolation(false)]
    pub fn run(&mut self, console: &mut Console, max_steps: u64) -> (r: Result<(), Fault>)
        requires
            old(self).wf(),
        ensures
            final(self).wf(),
            final(self)@ == run_from(old(self)@, old(console)@, max_steps as nat).0,
            final(console)@ == run_from(old(self)@, old(console)@, max_steps as nat).1,
            r == run_from(old(self)@, old(console)@, max_steps as nat).2,
    {
        let mut remaining: u64 = max_steps;
        loop
            invariant
                self.wf(),
                remaining <= max_steps,
                run_from(old(self)@, old(console)@, max_steps as nat) == run_from(
                    self@,
                    console@,
                    remaining as nat,
                ),
            decreases remaining,
        {
            if self.halted {
                return Ok(());
            }
            if remaining == 0 {
                return Err(Fault::StepLimit);
            }
            let r = self.run_step(console);
            if let Err(f) = r {
                return Err(f);
            }
            remaining = remaining - 1;
        }
    }
}

impl Default for LC3 {
    /// A freshly powered machine: zeroed memory and registers, the program
    /// counter at 0x3000, flags clear, not halted.
    fn default() -> (vm: LC3)
        ensures
            vm.wf(),
            vm@ == initial_machine(),
    {
        let mut memory: Vec<u16> = Vec::new();
        while memory.len() < 65536
            invariant
                memory@.len() <= 65536,
                forall|i: int| 0 <= i < memory@.len() ==> memory@[i] == 0,
            decreases 65536 - memory@.len(),
        {
            memory.push(0);
        }
        let mut registers: Vec<i16> = Vec::new();
        while registers.len() < 8
            invariant
                registers@.len() <= 8,
                forall|i: int| 0 <= i < registers@.len() ==> registers@[i] == 0,
            decreases 8 - registers@.len(),
        {
            registers.push(0);
        }
        let vm = LC3 {
            memory,
            registers,
            pc: 0x3000,
            supervisor: false,
            priority: 0,
            condition: Condition::default(),
            halted: false,
        };
        proof {
            assert(vm@.mem =~= initial_machine().mem);
            assert(vm@.regs =~= initial_machine().regs);
            assert(vm@ =~= initial_machine());
        }
        vm
    }
}

} // verus!
