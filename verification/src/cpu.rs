use crate::fault::Fault;
use crate::instruction::{decode, Instruction};
use crate::machine::{
    lemma_step_lowers_rank, Machine, Status, FLAG_REGISTER, MEMORY_SIZE, REGISTER_COUNT,
    STACK_CAPACITY,
};
use std::ops::Range;
use vstd::prelude::*;

verus! {

/// The processor: registers, memory, program counter and call stack, all of
/// fixed size and owned by this one value.
///
/// An instruction is a 16-bit word, stored high byte first, and read as four
/// 4-bit fields:
///
/// * `0x8xy4` adds register `y` to register `x` and leaves the carry in
///   register 15;
/// * `0x2nnn` calls the routine at address `nnn`;
/// * `0x00EE` returns to the instruction after the most recent call;
/// * `0x0000` halts.
///
/// The state of a processor `cpu` is the [`Machine`] `cpu@`, and it is always
/// in shape ([`Machine::wf`]): every method says so of the state that it
/// reads or leaves.
pub struct CPU {
    registers: [u8; REGISTER_COUNT],
    memory: [u8; MEMORY_SIZE],
    position_in_memory: usize,
    stack: [u16; STACK_CAPACITY],
    stack_pointer: usize,
}

impl View for CPU {
    type V = Machine;

    /// The state of the processor. Of the call stack only the occupied slots
    /// count.
    closed spec fn view(&self) -> Machine {
        Machine {
            registers: self.registers@,
            memory: self.memory@,
            pc: self.position_in_memory as int,
            stack: self.stack@.take(self.stack_pointer as int),
        }
    }
}

impl CPU {
    /// The stack pointer stays within the call stack, and the program
    /// counter within sixteen bits.
    #[verifier::type_invariant]
    spec fn inv(&self) -> bool {
        &&& self.stack_pointer <= STACK_CAPACITY
        &&& self.position_in_memory <= u16::MAX
    }

    /// A processor with every register, every byte of memory and the program
    /// counter at zero, and an empty call stack.
    pub fn new() -> (cpu: Self)
        ensures
            cpu@ == Machine::zeroed(),
            cpu@.wf(),
    {
        let cpu = Self {
            registers: [0; REGISTER_COUNT],
            memory: [0; MEMORY_SIZE],
            position_in_memory: 0,
            stack: [0; STACK_CAPACITY],
            stack_pointer: 0,
        };
        assert(cpu@.registers =~= Machine::zeroed().registers);
        assert(cpu@.memory =~= Machine::zeroed().memory);
        assert(cpu@.stack =~= Machine::zeroed().stack);
        cpu
    }

    /// Writes `value` into register `index`.
    ///
    /// Fails with an addressing fault, and changes nothing, if `index` is not
    /// below 16.
    pub fn set_register(&mut self, index: usize, value: u8) -> (r: Result<(), Fault>)
        ensures
            final(self)@.wf(),
            match old(self)@.write_register(index as int, value) {
                Ok(next) => r == Ok::<(), Fault>(()) && final(self)@ == next,
                Err(fault) => r == Err::<(), Fault>(fault) && final(self)@ == old(self)@,
            },
    {
        proof {
            use_type_invariant(&*self);
        }
        if index < REGISTER_COUNT {
            self.registers[index] = value;
            Ok(())
        } else {
            Err(Fault::AddressingFault)
        }
    }

    /// Reads register `index`.
    ///
    /// Fails with an addressing fault if `index` is not below 16.
    pub fn get_register(&self, index: usize) -> (r: Result<u8, Fault>)
        ensures
            self@.wf(),
            r == self@.read_register(index as int),
    {
        proof {
            use_type_invariant(self);
        }
        if index < REGISTER_COUNT {
            Ok(self.registers[index])
        } else {
            Err(Fault::AddressingFault)
        }
    }

    /// Writes `value` into the byte of memory at address `index`.
    ///
    /// Fails with an addressing fault, and changes nothing, if `index` is not
    /// below 4096.
    pub fn set_memory(&mut self, index: usize, value: u8) -> (r: Result<(), Fault>)
        ensures
            final(self)@.wf(),
            match old(self)@.write_byte(index as int, value) {
                Ok(next) => r == Ok::<(), Fault>(()) && final(self)@ == next,
                Err(fault) => r == Err::<(), Fault>(fault) && final(self)@ == old(self)@,
            },
    {
        proof {
            use_type_invariant(&*self);
        }
        if index < MEMORY_SIZE {
            self.memory[index] = value;
            Ok(())
        } else {
            Err(Fault::AddressingFault)
        }
    }

    /// Reads the byte of memory at address `index`.
    ///
    /// Fails with an addressing fault if `index` is not below 4096.
    pub fn get_memory(&self, index: usize) -> (r: Result<u8, Fault>)
        ensures
            self@.wf(),
            r == self@.read_byte(index as int),
    {
        proof {
            use_type_invariant(self);
        }
        if index < MEMORY_SIZE {
            Ok(self.memory[index])
        } else {
            Err(Fault::AddressingFault)
        }
    }

    /// Overwrites the addresses in `range` with the bytes of `slice`.
    ///
    /// Fails with an addressing fault, and changes nothing, if the range runs
    /// backwards, reaches past address 4096, or differs in length from
    /// `slice`.
    pub fn set_memory_by_slice(&mut self, range: Range<usize>, slice: &[u8]) -> (r: Result<
        (),
        Fault,
    >)
        ensures
            final(self)@.wf(),
            match old(self)@.load_range(range.start as int, range.end as int, slice@) {
                Ok(next) => r == Ok::<(), Fault>(()) && final(self)@ == next,
                Err(fault) => r == Err::<(), Fault>(fault) && final(self)@ == old(self)@,
            },
    {
        proof {
            use_type_invariant(&*self);
        }
        let start: usize = range.start;
        let end: usize = range.end;
        if !(start <= end && end <= MEMORY_SIZE && end - start == slice.len()) {
            return Err(Fault::AddressingFault);
        }
        let mut i: usize = 0;
        while i < slice.len()
            invariant
                i <= slice.len(),
                start + slice.len() == end,
                end <= MEMORY_SIZE,
                self.registers == old(self).registers,
                self.position_in_memory == old(self).position_in_memory,
                self.stack == old(self).stack,
                self.stack_pointer == old(self).stack_pointer,
                forall|a: int|
                    0 <= a < MEMORY_SIZE ==> self.memory@[a] == (if start <= a < start + i {
                        slice@[a - start]
                    } else {
                        old(self).memory@[a]
                    }),
            decreases slice.len() - i,
        {
            proof {
                use_type_invariant(&*self);
            }
            self.memory[start + i] = slice[i];
            i += 1;
        }
        assert(self@.memory =~= old(self)@.load_range(
            start as int,
            end as int,
            slice@,
        ).unwrap().memory);
        Ok(())
    }

    /// The program counter: the address of the next instruction.
    pub fn program_counter(&self) -> (pc: usize)
        ensures
            self@.wf(),
            pc == self@.pc,
    {
        proof {
            use_type_invariant(self);
        }
        self.position_in_memory
    }

    /// The stack pointer: the number of return addresses on the call stack.
    pub fn stack_pointer(&self) -> (sp: usize)
        ensures
            self@.wf(),
            sp == self@.stack.len(),
    {
        proof {
            use_type_invariant(self);
        }
        self.stack_pointer
    }

    /// Reads the instruction word at the program counter, high byte first.
    ///
    /// Fails with an addressing fault if the program counter is above 4094.
    pub fn get_opcode(&self) -> (r: Result<u16, Fault>)
        ensures
            self@.wf(),
            r == self@.fetch(),
    {
        proof {
            use_type_invariant(self);
        }
        let p: usize = self.position_in_memory;
        if p + 1 < MEMORY_SIZE {
            let op_byte1: u16 = self.memory[p] as u16;
            let op_byte2: u16 = self.memory[p + 1] as u16;
            assert(op_byte1 << 8 | op_byte2 == op_byte1 * 0x100 + op_byte2) by (bit_vector)
                requires
                    op_byte1 < 0x100,
                    op_byte2 < 0x100,
            ;
            Ok(op_byte1 << 8 | op_byte2)
        } else {
            Err(Fault::AddressingFault)
        }
    }

    /// Calls the routine at `addr`: saves the program counter on the call
    /// stack and continues at `addr`.
    ///
    /// Fails with a stack overflow, and changes nothing, if the call stack
    /// already holds 16 return addresses.
    pub fn call(&mut self, addr: u16) -> (r: Result<(), Fault>)
        ensures
            final(self)@.wf(),
            match old(self)@.call(addr) {
                Ok(next) => r == Ok::<(), Fault>(()) && final(self)@ == next,
                Err(fault) => r == Err::<(), Fault>(fault) && final(self)@ == old(self)@,
            },
    {
        proof {
            use_type_invariant(&*self);
        }
        let sp: usize = self.stack_pointer;
        if sp >= STACK_CAPACITY {
            return Err(Fault::StackOverflow);
        }
        self.stack[sp] = self.position_in_memory as u16;
        self.stack_pointer += 1;
        self.position_in_memory = addr as usize;
        assert(self@.stack =~= old(self)@.stack.push(old(self)@.pc as u16));
        Ok(())
    }

    /// Returns from a routine: takes the newest return address off the call
    /// stack and continues there.
    ///
    /// Fails with a stack underflow, and changes nothing, if the call stack
    /// is empty.
    pub fn ret(&mut self) -> (r: Result<(), Fault>)
        ensures
            final(self)@.wf(),
            match old(self)@.ret() {
                Ok(next) => r == Ok::<(), Fault>(()) && final(self)@ == next,
                Err(fault) => r == Err::<(), Fault>(fault) && final(self)@ == old(self)@,
            },
    {
        proof {
            use_type_invariant(&*self);
        }
        if self.stack_pointer == 0 {
            return Err(Fault::StackUnderflow);
        }
        self.stack_pointer -= 1;
        let call_addr: u16 = self.stack[self.stack_pointer];
        self.position_in_memory = call_addr as usize;
        assert(self@.stack =~= old(self)@.stack.drop_last());
        Ok(())
    }

    /// Adds register `y` to register `x`, wrapping at 256, and then sets
    /// register 15 to 1 if the sum did not fit in eight bits and to 0 if it
    /// did.
    ///
    /// Fails with an addressing fault, and changes nothing, if `x` or `y` is
    /// not below 16.
    pub fn add_xy(&mut self, x: u8, y: u8) -> (r: Result<(), Fault>)
        ensures
            final(self)@.wf(),
            match old(self)@.add_xy(x, y) {
                Ok(next) => r == Ok::<(), Fault>(()) && final(self)@ == next,
                Err(fault) => r == Err::<(), Fault>(fault) && final(self)@ == old(self)@,
            },
    {
        proof {
            use_type_invariant(&*self);
        }
        let x: usize = x as usize;
        let y: usize = y as usize;
        if x >= REGISTER_COUNT || y >= REGISTER_COUNT {
            return Err(Fault::AddressingFault);
        }
        let arg1: u8 = self.registers[x];
        let arg2: u8 = self.registers[y];
        let val: u8 = arg1.wrapping_add(arg2);
        let overflow: bool = val < arg1;
        self.registers[x] = val;
        // Register 15 tells whether the addition overflowed.
        if overflow {
            self.registers[FLAG_REGISTER] = 1;
        } else {
            self.registers[FLAG_REGISTER] = 0;
        }
        Ok(())
    }

    /// Carries out one decoded instruction. A fault changes nothing.
    pub fn execute(&mut self, instruction: Instruction) -> (r: Result<Status, Fault>)
        ensures
            final(self)@.wf(),
            final(self)@ == old(self)@.execute(instruction).0,
            r == old(self)@.execute(instruction).1,
    {
        proof {
            use_type_invariant(&*self);
        }
        let done: Result<(), Fault> = match instruction {
            Instruction::Halt => {
                return Ok(Status::Halted);
            },
            Instruction::Return => self.ret(),
            Instruction::Call { addr } => self.call(addr),
            Instruction::Add { x, y } => self.add_xy(x, y),
        };
        match done {
            Ok(()) => Ok(Status::Running),
            Err(fault) => Err(fault),
        }
    }

    /// One turn of the fetch-decode-execute cycle: reads the instruction at
    /// the program counter, moves the program counter past it, and carries
    /// the instruction out.
    ///
    /// A failed fetch changes nothing. After an unsupported instruction, a
    /// stack overflow or a stack underflow the program counter has moved past
    /// the instruction and nothing else has changed.
    pub fn step(&mut self) -> (r: Result<Status, Fault>)
        ensures
            final(self)@.wf(),
            final(self)@ == old(self)@.step().0,
            r == old(self)@.step().1,
    {
        proof {
            use_type_invariant(&*self);
        }
        let opcode: u16 = match self.get_opcode() {
            Ok(opcode) => opcode,
            Err(fault) => {
                return Err(fault);
            },
        };
        self.position_in_memory += 2;
        match decode(opcode) {
            Ok(instruction) => self.execute(instruction),
            Err(fault) => Err(fault),
        }
    }

    /// Steps the processor, from the current program counter on, until it
    /// halts or faults.
    ///
    /// Returns `Ok` after a halt instruction and the fault otherwise; either
    /// way the processor is left in the state that the last step produced.
    /// Every run ends: see [`Machine::rank`].
    pub fn run(&mut self) -> (r: Result<(), Fault>)
        ensures
            final(self)@.wf(),
            final(self)@ == old(self)@.run().0,
            r == old(self)@.run().1,
    {
        proof {
            use_type_invariant(&*self);
        }
        loop
            invariant
                self@.wf(),
                self@.run() == old(self)@.run(),
            decreases self@.rank(),
        {
            proof {
                if self@.step().1 == Ok::<Status, Fault>(Status::Running) {
                    lemma_step_lowers_rank(self@);
                }
            }
            match self.step() {
                Ok(Status::Running) => {},
                Ok(Status::Halted) => {
                    return Ok(());
                },
                Err(fault) => {
                    return Err(fault);
                },
            }
        }
    }
}

} // verus!
