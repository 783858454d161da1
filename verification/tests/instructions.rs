use mock_cpu::cpu::CPU;
use mock_cpu::fault::Fault;
use mock_cpu::instruction::{decode, Instruction};
use mock_cpu::machine::Status;

#[test]
fn decode_reads_the_dispatch_table() {
    assert_eq!(decode(0x0000), Ok(Instruction::Halt));
    assert_eq!(decode(0x00EE), Ok(Instruction::Return));
    assert_eq!(decode(0x2100), Ok(Instruction::Call { addr: 0x100 }));
    assert_eq!(decode(0x2000), Ok(Instruction::Call { addr: 0x000 }));
    assert_eq!(decode(0x2FFF), Ok(Instruction::Call { addr: 0xFFF }));
    assert_eq!(decode(0x2ABC), Ok(Instruction::Call { addr: 0xABC }));
    assert_eq!(decode(0x8014), Ok(Instruction::Add { x: 0, y: 1 }));
    assert_eq!(decode(0x8124), Ok(Instruction::Add { x: 1, y: 2 }));
    assert_eq!(decode(0x8FE4), Ok(Instruction::Add { x: 15, y: 14 }));
    assert_eq!(decode(0x8004), Ok(Instruction::Add { x: 0, y: 0 }));
}

#[test]
fn decode_reports_unsupported_words_with_the_word() {
    for word in [
        0x0001u16, 0x00E0, 0x00EF, 0x00FE, 0x01EE, 0x0E0E, 0x1000, 0x1234, 0x3000, 0x7FFF,
        0x8000, 0x8010, 0x8015, 0x8123, 0x812E, 0x9004, 0xA2F0, 0xE0EE, 0xFFFF,
    ] {
        assert_eq!(decode(word), Err(Fault::UnsupportedOpcode(word)));
    }
}

#[test]
fn decode_agrees_with_the_table_on_every_word() {
    for word in 0..=u16::MAX {
        let c = word >> 12;
        let x = (word >> 8) & 0xF;
        let y = (word >> 4) & 0xF;
        let d = word & 0xF;
        let expected = if word == 0x0000 {
            Ok(Instruction::Halt)
        } else if word == 0x00EE {
            Ok(Instruction::Return)
        } else if c == 2 {
            Ok(Instruction::Call { addr: word - 0x2000 })
        } else if c == 8 && d == 4 {
            Ok(Instruction::Add { x: x as u8, y: y as u8 })
        } else {
            Err(Fault::UnsupportedOpcode(word))
        };
        assert_eq!(decode(word), expected);
    }
}

#[test]
fn fetch_reads_the_high_byte_first() {
    let mut cpu = CPU::new();
    assert_eq!(cpu.set_memory_by_slice(0..2, &[0x12, 0x34]), Ok(()));
    assert_eq!(cpu.get_opcode(), Ok(0x1234));
    assert_eq!(cpu.set_memory_by_slice(0..2, &[0xFF, 0x00]), Ok(()));
    assert_eq!(cpu.get_opcode(), Ok(0xFF00));
    assert_eq!(cpu.set_memory_by_slice(0..2, &[0x00, 0xFF]), Ok(()));
    assert_eq!(cpu.get_opcode(), Ok(0x00FF));
    // Fetching reads; it does not move the program counter.
    assert_eq!(cpu.program_counter(), 0);
}

#[test]
fn fetch_needs_both_bytes_inside_memory() {
    let mut cpu = CPU::new();
    assert_eq!(cpu.set_memory_by_slice(4094..4096, &[0xAB, 0xCD]), Ok(()));
    assert_eq!(cpu.call(4094), Ok(()));
    assert_eq!(cpu.get_opcode(), Ok(0xABCD));
    assert_eq!(cpu.call(4095), Ok(()));
    assert_eq!(cpu.get_opcode(), Err(Fault::AddressingFault));
    assert_eq!(cpu.call(4096), Ok(()));
    assert_eq!(cpu.get_opcode(), Err(Fault::AddressingFault));
    assert_eq!(cpu.call(0xFFFF), Ok(()));
    assert_eq!(cpu.get_opcode(), Err(Fault::AddressingFault));
}

#[test]
fn add_wraps_and_carries_for_every_pair_of_bytes() {
    for a in 0..=255u8 {
        for b in 0..=255u8 {
            let mut cpu = CPU::new();
            assert_eq!(cpu.set_register(3, a), Ok(()));
            assert_eq!(cpu.set_register(7, b), Ok(()));
            assert_eq!(cpu.add_xy(3, 7), Ok(()));
            let sum = a as u32 + b as u32;
            assert_eq!(cpu.get_register(3), Ok((sum % 256) as u8));
            assert_eq!(cpu.get_register(7), Ok(b));
            assert_eq!(cpu.get_register(15), Ok(if sum > 255 { 1 } else { 0 }));
        }
    }
}

#[test]
fn add_gives_exact_sums_and_carries() {
    let cases: [(u8, u8, u8, u8); 8] = [
        (0, 0, 0, 0),
        (5, 10, 15, 0),
        (255, 0, 255, 0),
        (255, 1, 0, 1),
        (128, 128, 0, 1),
        (200, 100, 44, 1),
        (255, 255, 254, 1),
        (127, 128, 255, 0),
    ];
    for (a, b, sum, carry) in cases {
        let mut cpu = CPU::new();
        assert_eq!(cpu.set_register(0, a), Ok(()));
        assert_eq!(cpu.set_register(1, b), Ok(()));
        assert_eq!(cpu.add_xy(0, 1), Ok(()));
        assert_eq!(cpu.get_register(0), Ok(sum));
        assert_eq!(cpu.get_register(15), Ok(carry));
    }
}

#[test]
fn add_clears_a_carry_left_by_an_earlier_add() {
    let mut cpu = CPU::new();
    assert_eq!(cpu.set_register(0, 250), Ok(()));
    assert_eq!(cpu.set_register(1, 10), Ok(()));
    assert_eq!(cpu.add_xy(0, 1), Ok(()));
    assert_eq!(cpu.get_register(0), Ok(4));
    assert_eq!(cpu.get_register(15), Ok(1));
    assert_eq!(cpu.add_xy(0, 1), Ok(()));
    assert_eq!(cpu.get_register(0), Ok(14));
    assert_eq!(cpu.get_register(15), Ok(0));
}

#[test]
fn add_of_a_register_to_itself_doubles_it() {
    let mut cpu = CPU::new();
    assert_eq!(cpu.set_register(4, 100), Ok(()));
    assert_eq!(cpu.add_xy(4, 4), Ok(()));
    assert_eq!(cpu.get_register(4), Ok(200));
    assert_eq!(cpu.get_register(15), Ok(0));
    assert_eq!(cpu.add_xy(4, 4), Ok(()));
    assert_eq!(cpu.get_register(4), Ok(144));
    assert_eq!(cpu.get_register(15), Ok(1));
}

#[test]
fn add_into_the_flag_register_leaves_the_carry_there() {
    let mut cpu = CPU::new();
    assert_eq!(cpu.set_register(15, 7), Ok(()));
    assert_eq!(cpu.set_register(0, 1), Ok(()));
    assert_eq!(cpu.add_xy(15, 0), Ok(()));
    assert_eq!(cpu.get_register(15), Ok(0));
    assert_eq!(cpu.set_register(15, 255), Ok(()));
    assert_eq!(cpu.add_xy(15, 0), Ok(()));
    assert_eq!(cpu.get_register(15), Ok(1));
    assert_eq!(cpu.get_register(0), Ok(1));
}

#[test]
fn add_from_the_flag_register_reads_it_before_the_carry_is_written() {
    let mut cpu = CPU::new();
    assert_eq!(cpu.set_register(15, 200), Ok(()));
    assert_eq!(cpu.set_register(2, 100), Ok(()));
    assert_eq!(cpu.add_xy(2, 15), Ok(()));
    assert_eq!(cpu.get_register(2), Ok(44));
    assert_eq!(cpu.get_register(15), Ok(1));
}

#[test]
fn add_changes_no_other_register() {
    let mut cpu = CPU::new();
    for index in 0..16 {
        assert_eq!(cpu.set_register(index, 10 * index as u8), Ok(()));
    }
    assert_eq!(cpu.add_xy(5, 6), Ok(()));
    for index in 0..15 {
        let expected = if index == 5 { 110 } else { 10 * index as u8 };
        assert_eq!(cpu.get_register(index), Ok(expected));
    }
    assert_eq!(cpu.get_register(15), Ok(0));
    assert_eq!(cpu.program_counter(), 0);
    assert_eq!(cpu.stack_pointer(), 0);
}

#[test]
fn add_with_a_register_index_out_of_range_is_an_addressing_fault() {
    let mut cpu = CPU::new();
    assert_eq!(cpu.set_register(0, 3), Ok(()));
    assert_eq!(cpu.set_register(15, 9), Ok(()));
    assert_eq!(cpu.add_xy(16, 0), Err(Fault::AddressingFault));
    assert_eq!(cpu.add_xy(0, 16), Err(Fault::AddressingFault));
    assert_eq!(cpu.add_xy(255, 255), Err(Fault::AddressingFault));
    assert_eq!(cpu.execute(Instruction::Add { x: 0, y: 200 }), Err(Fault::AddressingFault));
    assert_eq!(cpu.get_register(0), Ok(3));
    assert_eq!(cpu.get_register(15), Ok(9));
}

#[test]
fn call_saves_the_program_counter_and_jumps() {
    let mut cpu = CPU::new();
    assert_eq!(cpu.call(0x123), Ok(()));
    assert_eq!(cpu.program_counter(), 0x123);
    assert_eq!(cpu.stack_pointer(), 1);
    assert_eq!(cpu.call(0x456), Ok(()));
    assert_eq!(cpu.program_counter(), 0x456);
    assert_eq!(cpu.stack_pointer(), 2);
    assert_eq!(cpu.ret(), Ok(()));
    assert_eq!(cpu.program_counter(), 0x123);
    assert_eq!(cpu.stack_pointer(), 1);
    assert_eq!(cpu.ret(), Ok(()));
    assert_eq!(cpu.program_counter(), 0);
    assert_eq!(cpu.stack_pointer(), 0);
}

#[test]
fn return_after_call_restores_the_program_counter() {
    for from in [0u16, 2, 0x100, 0xFFE, 0xFFF, 0xFFFF] {
        for to in [0u16, 0x200, 0xFFF, 0xFFFF] {
            let mut cpu = CPU::new();
            assert_eq!(cpu.call(from), Ok(()));
            assert_eq!(cpu.program_counter(), from as usize);
            assert_eq!(cpu.call(to), Ok(()));
            assert_eq!(cpu.program_counter(), to as usize);
            assert_eq!(cpu.stack_pointer(), 2);
            assert_eq!(cpu.ret(), Ok(()));
            assert_eq!(cpu.program_counter(), from as usize);
            assert_eq!(cpu.stack_pointer(), 1);
        }
    }
}

#[test]
fn stack_pointer_counts_the_calls() {
    let mut cpu = CPU::new();
    for n in 0..16 {
        assert_eq!(cpu.stack_pointer(), n);
        assert_eq!(cpu.call(0x200 + 2 * n as u16), Ok(()));
    }
    assert_eq!(cpu.stack_pointer(), 16);
}

#[test]
fn call_on_a_full_stack_overflows_and_changes_nothing() {
    let mut cpu = CPU::new();
    assert_eq!(cpu.set_register(1, 11), Ok(()));
    for n in 0..16u16 {
        assert_eq!(cpu.call(0x200 + 2 * n), Ok(()));
    }
    assert_eq!(cpu.stack_pointer(), 16);
    assert_eq!(cpu.program_counter(), 0x21E);
    assert_eq!(cpu.call(0x400), Err(Fault::StackOverflow));
    assert_eq!(cpu.call(0x400), Err(Fault::StackOverflow));
    assert_eq!(cpu.execute(Instruction::Call { addr: 0x400 }), Err(Fault::StackOverflow));
    assert_eq!(cpu.stack_pointer(), 16);
    assert_eq!(cpu.program_counter(), 0x21E);
    assert_eq!(cpu.get_register(1), Ok(11));
    // The sixteen return addresses are all still there, newest first.
    for n in (0..16u16).rev() {
        assert_eq!(cpu.ret(), Ok(()));
        let expected = if n == 0 { 0 } else { 0x200 + 2 * (n - 1) };
        assert_eq!(cpu.program_counter(), expected as usize);
        assert_eq!(cpu.stack_pointer(), n as usize);
    }
    assert_eq!(cpu.ret(), Err(Fault::StackUnderflow));
}

#[test]
fn last_slot_of_the_stack_is_usable() {
    let mut cpu = CPU::new();
    for _ in 0..15 {
        assert_eq!(cpu.call(0x10), Ok(()));
    }
    assert_eq!(cpu.stack_pointer(), 15);
    assert_eq!(cpu.call(0x20), Ok(()));
    assert_eq!(cpu.stack_pointer(), 16);
    assert_eq!(cpu.program_counter(), 0x20);
    assert_eq!(cpu.ret(), Ok(()));
    assert_eq!(cpu.program_counter(), 0x10);
    assert_eq!(cpu.stack_pointer(), 15);
}

#[test]
fn return_on_an_empty_stack_underflows_and_changes_nothing() {
    let mut cpu = CPU::new();
    assert_eq!(cpu.set_register(1, 11), Ok(()));
    assert_eq!(cpu.ret(), Err(Fault::StackUnderflow));
    assert_eq!(cpu.execute(Instruction::Return), Err(Fault::StackUnderflow));
    assert_eq!(cpu.stack_pointer(), 0);
    assert_eq!(cpu.program_counter(), 0);
    assert_eq!(cpu.get_register(1), Ok(11));
    // After a call and its return the stack is empty again.
    assert_eq!(cpu.call(0x80), Ok(()));
    assert_eq!(cpu.ret(), Ok(()));
    assert_eq!(cpu.ret(), Err(Fault::StackUnderflow));
    assert_eq!(cpu.stack_pointer(), 0);
    assert_eq!(cpu.program_counter(), 0);
}

#[test]
fn execute_tells_halt_from_the_rest() {
    let mut cpu = CPU::new();
    assert_eq!(cpu.set_register(0, 1), Ok(()));
    assert_eq!(cpu.execute(Instruction::Add { x: 0, y: 0 }), Ok(Status::Running));
    assert_eq!(cpu.get_register(0), Ok(2));
    assert_eq!(cpu.execute(Instruction::Call { addr: 0x10 }), Ok(Status::Running));
    assert_eq!(cpu.program_counter(), 0x10);
    assert_eq!(cpu.execute(Instruction::Return), Ok(Status::Running));
    assert_eq!(cpu.program_counter(), 0);
    assert_eq!(cpu.execute(Instruction::Halt), Ok(Status::Halted));
    assert_eq!(cpu.program_counter(), 0);
    assert_eq!(cpu.stack_pointer(), 0);
    assert_eq!(cpu.get_register(0), Ok(2));
}
