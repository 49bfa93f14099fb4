#![allow(non_upper_case_globals)]

use lc3_tools::opcodes::Inst;
use lc3_tools::semantics::Fault;
use lc3_tools::{Console, LC3};

const STEPS: u64 = 1_000_000;

const lab1part1: [u16; 19] = [
    0b0010_000_011111111,   // loads X to R0
    0b0010_001_011111111,   // loads Y to R1
    0b0101_011_011_1_00000, // clears R3
    0b1001_001_001_111111,  // makes R1 negative
    0b0001_001_001_1_00001,
    0b0001_011_000_0_00_001, // ADDS R0 to R1 and stores in R3
    0b0000_010_000000010,    // branches if zero
    0b0000_001_000000011,    // branches if positive
    0b0000_100_000000110,    // branches if negative
    0b0011_011_011111000,    // stores 0 to x3102
    0b1111_0000_00100101,    // halt
    0b0101_011_011_1_00000,  // clears R3
    0b1001_011_011_111111,   // changes R3 to -1
    0b0011_011_011110100,    // stores -1 to x3102
    0b1111_0000_00100101,    // halt
    0b0101_011_011_1_00000,  // clears R3
    0b0001_011_011_1_00001,  // ADDs one to R3
    0b0011_011_011110000,    // stores 1 to x3102
    0b1111_0000_00100101,    // halt
];

const lab1part2: [u16; 25] = [
    0b0101_001_001_1_00000,  // clears R1
    0b0101_100_100_1_00000,  // clears R4
    0b0001_100_100_1_01111,  // sets R4 to 15
    0b0001_100_100_1_00001,  // sets R4 to 16
    0b0010_000_011111011,    // loads x3100 to R0
    0b0001_000_000_1_00000,  // sets R0 to 0
    0b0000_010_000001111,    // branch
    0b0000_001_000000001,    // branch
    0b0000_100_000000111,    // branch
    0b0001_001_001_1_00001,  // ADD 1 to R1
    0b0001_000_000_0_00_000, // double R0
    0b0001_100_100_1_11111,  // decrement R4 by 1
    0b0000_001_111111000,    // branch
    0b0001_001_001_1_00000,  // decrement R1
    0b0011_001_011110010,    // store R1 to 0x3101
    0b1111_0000_00100101,    // halt
    0b0001_000_000_0_00_000, //double R0
    0b0001_100_100_1_11111,  // decrement R4
    0b0000_001_111110010,    // branch
    0b0001_001_001_1_00000,  // decrement R1
    0b0011_001_011101100,    // store R1
    0b1111_0000_00100101,    // halt
    0b0001_001_100_0_00_001, // ADD R4 to R1
    0b0011_001_011101001,    // store R1
    0b1111_0000_00100101,    // halt
];

fn load_lc3(mut vm: LC3, code: &[u16], start: usize) -> LC3 {
    for i in 0..code.len() {
        vm.memory[start + i] = code[i];
    }
    vm
}

#[test]
fn test_run_ee306_lab_1_part_1_tc_1() {
    let mut lc3 = load_lc3(LC3::default(), &lab1part1, 0x3000);
    lc3.memory[0x3100] = 12;
    lc3.memory[0x3101] = 10;
    let mut console = Console::new();
    lc3.run(&mut console, STEPS).unwrap();
    assert_eq!(lc3.memory[0x3102], 0xFFFF);
}

#[test]
fn test_run_ee306_lab_1_part_1_tc_2() {
    let mut lc3 = load_lc3(LC3::default(), &lab1part1, 0x3000);
    lc3.memory[0x3100] = !1 + 1;
    lc3.memory[0x3101] = !1 + 1;
    let mut console = Console::new();
    lc3.run(&mut console, STEPS).unwrap();
    assert_eq!(lc3.memory[0x3102], 0x0000);
}

#[test]
fn test_run_ee306_lab_1_part_1_tc_3() {
    let mut lc3 = load_lc3(LC3::default(), &lab1part1, 0x3000);
    lc3.memory[0x3100] = !10 + 1;
    lc3.memory[0x3101] = 10;
    let mut console = Console::new();
    lc3.run(&mut console, STEPS).unwrap();
    assert_eq!(lc3.memory[0x3102], 0x0001);
}

#[test]
fn test_run_ee306_lab_1_part_2_tc_1() {
    let mut lc3 = load_lc3(LC3::default(), &lab1part2, 0x3000);
    lc3.memory[0x3100] = 0xFFFF;
    let mut console = Console::new();
    lc3.run(&mut console, STEPS).unwrap();
    assert_eq!(lc3.memory[0x3101], 0);
}

#[test]
fn test_run_ee306_lab_1_part_2_tc_2() {
    let mut lc3 = load_lc3(LC3::default(), &lab1part2, 0x3000);
    lc3.memory[0x3100] = 0xF0FF;
    let mut console = Console::new();
    lc3.run(&mut console, STEPS).unwrap();
    for i in 0x3000..lc3.pc as usize {
        println!(
            "{:04x}: {:08b} {:?}",
            i,
            lc3.memory[i],
            Inst::from(lc3.memory[i])
        );
    }

    assert_eq!(lc3.memory[0x3101], 4);
}

#[test]
fn test_run_ee306_lab_1_part_2_tc_3() {
    let mut lc3 = load_lc3(LC3::default(), &lab1part2, 0x3000);
    lc3.memory[0x3100] = 0x0000;
    let mut console = Console::new();
    lc3.run(&mut console, STEPS).unwrap();
    assert_eq!(lc3.memory[0x3101], 16);
}

#[test]
fn test_add_wraparound_most_negative() {
    // ADD of 0x7FFF and 0x0001 wraps to 0x8000, the most negative value.
    let mut lc3 = LC3::default();
    lc3.registers[0] = 0x7FFF;
    lc3.registers[1] = 0x0001;
    lc3.memory[0x3000] = 0b0001_010_000_0_00_001; // ADD R2, R0, R1
    let mut console = Console::new();
    lc3.run_step(&mut console).unwrap();
    assert_eq!(lc3.registers[2], -32768);
    assert_eq!(lc3.registers[2] as u16, 0x8000);
    assert!(lc3.condition.n && !lc3.condition.z && !lc3.condition.p);
}

#[test]
fn test_condition_flags_exclusive() {
    let mut lc3 = LC3::default();
    let mut console = Console::new();

    // Negative result.
    lc3.registers[0] = -5;
    lc3.registers[1] = 2;
    lc3.memory[0x3000] = 0b0001_010_000_0_00_001; // ADD R2, R0, R1
    lc3.run_step(&mut console).unwrap();
    assert_eq!(
        (lc3.condition.n, lc3.condition.z, lc3.condition.p),
        (true, false, false)
    );

    // Zero result.
    lc3.registers[0] = -2;
    lc3.memory[0x3001] = 0b0001_010_000_0_00_001;
    lc3.run_step(&mut console).unwrap();
    assert_eq!(
        (lc3.condition.n, lc3.condition.z, lc3.condition.p),
        (false, true, false)
    );

    // Positive result.
    lc3.registers[0] = 40;
    lc3.memory[0x3002] = 0b0001_010_000_0_00_001;
    lc3.run_step(&mut console).unwrap();
    assert_eq!(
        (lc3.condition.n, lc3.condition.z, lc3.condition.p),
        (false, false, true)
    );
}

#[test]
fn test_branch_on_negative_mask() {
    // BRn is taken exactly when the negative flag is set, whatever the
    // other flags hold.
    let br_n_minus_two: u16 = 0b0000_100_111111110; // BRn #-2

    // Negative flag set: taken.
    let mut lc3 = LC3::default();
    let mut console = Console::new();
    lc3.condition.n = true;
    lc3.memory[0x3000] = br_n_minus_two;
    lc3.run_step(&mut console).unwrap();
    assert_eq!(lc3.pc, 0x2FFF); // 0x3001 - 2

    // Zero flag set, negative clear: not taken.
    let mut lc3 = LC3::default();
    lc3.condition.z = true;
    lc3.memory[0x3000] = br_n_minus_two;
    lc3.run_step(&mut console).unwrap();
    assert_eq!(lc3.pc, 0x3001);

    // Positive flag set, negative clear: not taken.
    let mut lc3 = LC3::default();
    lc3.condition.p = true;
    lc3.memory[0x3000] = br_n_minus_two;
    lc3.run_step(&mut console).unwrap();
    assert_eq!(lc3.pc, 0x3001);
}

#[test]
fn test_puts_getc_out_halt_scenario() {
    // LEA R0,<label>; PUTS; GETC; OUT; HALT with "hi\n" at the label:
    // the string appears on the output, one input byte is echoed, the
    // machine halts with the program counter just past the HALT.
    let mut lc3 = LC3::default();
    lc3.memory[0x3000] = 0b1110_000_000001001; // LEA R0, #9 -> 0x300A
    lc3.memory[0x3001] = 0xF022; // PUTS
    lc3.memory[0x3002] = 0xF020; // GETC
    lc3.memory[0x3003] = 0xF021; // OUT
    lc3.memory[0x3004] = 0xF025; // HALT
    lc3.memory[0x300A] = 'h' as u16;
    lc3.memory[0x300B] = 'i' as u16;
    lc3.memory[0x300C] = '\n' as u16;
    lc3.memory[0x300D] = '\0' as u16;

    let mut console = Console::new();
    console.input.push(b'A');
    lc3.run(&mut console, STEPS).unwrap();

    assert_eq!(console.output, b"hi\nA".to_vec());
    assert!(console.input.is_empty());
    assert!(lc3.halted);
    assert_eq!(lc3.pc, 0x3005);
}

#[test]
fn test_countdown_loop_scenario() {
    // Count from 10 down to 0 with ADDi/BRp, then store the counter:
    // the stored cell holds 0.
    let mut lc3 = LC3::default();
    lc3.memory[0x3000] = 0b0101_000_000_1_00000; // AND R0, R0, #0
    lc3.memory[0x3001] = 0b0001_000_000_1_01010; // ADD R0, R0, #10
    lc3.memory[0x3002] = 0b0001_000_000_1_11111; // ADD R0, R0, #-1
    lc3.memory[0x3003] = 0b0000_001_111111110; // BRp #-2
    lc3.memory[0x3004] = 0b0011_000_011111011; // ST R0, #251 -> 0x3100
    lc3.memory[0x3005] = 0xF025; // HALT
    lc3.memory[0x3100] = 0xDEAD;

    let mut console = Console::new();
    lc3.run(&mut console, STEPS).unwrap();
    assert_eq!(lc3.memory[0x3100], 0);
}

#[test]
fn test_getc_zero_extends() {
    let mut lc3 = LC3::default();
    lc3.memory[0x3000] = 0xF020; // GETC
    lc3.memory[0x3001] = 0xF025; // HALT
    let mut console = Console::new();
    console.input.push(0xFF);
    lc3.run(&mut console, STEPS).unwrap();
    assert_eq!(lc3.registers[0], 255);
}

#[test]
fn test_out_writes_low_byte() {
    let mut lc3 = LC3::default();
    lc3.registers[0] = 0x1234;
    lc3.memory[0x3000] = 0xF021; // OUT
    lc3.memory[0x3001] = 0xF025; // HALT
    let mut console = Console::new();
    lc3.run(&mut console, STEPS).unwrap();
    assert_eq!(console.output, vec![0x34]);
}

#[test]
fn test_puts_empty_string() {
    let mut lc3 = LC3::default();
    lc3.registers[0] = 0x4000;
    lc3.memory[0x3000] = 0xF022; // PUTS with memory[0x4000] == 0
    lc3.memory[0x3001] = 0xF025; // HALT
    let mut console = Console::new();
    lc3.run(&mut console, STEPS).unwrap();
    assert!(console.output.is_empty());
}

#[test]
fn test_rti_faults() {
    let mut lc3 = LC3::default();
    lc3.memory[0x3000] = 0b1000_000000000000; // RTI
    let mut console = Console::new();
    assert_eq!(lc3.run(&mut console, STEPS), Err(Fault::Rti));
    assert!(!lc3.halted);
}

#[test]
fn test_reserved_opcode_faults() {
    let mut lc3 = LC3::default();
    lc3.memory[0x3000] = 0b1101_000000000000;
    let mut console = Console::new();
    assert_eq!(lc3.run(&mut console, STEPS), Err(Fault::Reserved));
}

#[test]
fn test_unknown_trap_faults() {
    let mut lc3 = LC3::default();
    lc3.memory[0x3000] = 0xF033; // TRAP 0x33: not in the service table
    let mut console = Console::new();
    assert_eq!(
        lc3.run(&mut console, STEPS),
        Err(Fault::UnknownTrap { vector: 0x33 })
    );
}

#[test]
fn test_getc_without_input_faults() {
    let mut lc3 = LC3::default();
    lc3.memory[0x3000] = 0xF020; // GETC with nothing to read
    let mut console = Console::new();
    assert_eq!(lc3.run(&mut console, STEPS), Err(Fault::EndOfInput));
}

#[test]
fn test_unterminated_string_faults() {
    let mut lc3 = LC3::default();
    for addr in 0x4000..=0xFFFFusize {
        lc3.memory[addr] = 1;
    }
    lc3.registers[0] = 0x4000;
    let mut console = Console::new();
    let r = lc3.run_instruction(Inst::TRAP { trap_vect: 0x22 }, &mut console);
    assert_eq!(r, Err(Fault::UnterminatedString));
    assert!(console.output.is_empty());
}

#[test]
fn test_step_limit() {
    let mut lc3 = LC3::default();
    lc3.memory[0x3000] = 0b0001_000_000_1_00000; // ADD R0, R0, #0: sets z
    lc3.memory[0x3001] = 0b0000_111_111111110; // BRnzp #-2: loop forever
    let mut console = Console::new();
    assert_eq!(lc3.run(&mut console, 100), Err(Fault::StepLimit));
    assert!(!lc3.halted);
}

#[test]
fn test_halted_machine_stays_halted() {
    let mut lc3 = LC3::default();
    lc3.halted = true;
    lc3.memory[0x3000] = 0b1000_000000000000; // RTI: would fault if fetched
    let mut console = Console::new();
    assert_eq!(lc3.run(&mut console, STEPS), Ok(()));
    assert_eq!(lc3.pc, 0x3000);
}
