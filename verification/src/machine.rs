use crate::fault::Fault;
use crate::instruction::{spec_decode, Instruction};
use vstd::prelude::*;

verus! {

/// Number of 8-bit registers.
pub const REGISTER_COUNT: usize = 16;

/// Number of bytes of memory.
pub const MEMORY_SIZE: usize = 0x1000;

/// Number of return addresses that the call stack can hold: calls nest
/// sixteen deep, and the seventeenth overflows.
pub const STACK_CAPACITY: usize = 16;

/// Index of the register that receives the carry of an addition.
pub const FLAG_REGISTER: usize = 0xF;

/// Whether the machine goes on after a step.
#[derive(Clone, Copy, Debug, PartialEq, Eq, Structural)]
pub enum Status {
    /// The next instruction is to be fetched.
    Running,
    /// A halt instruction was executed.
    Halted,
}

/// The state of the processor as a mathematical value.
pub struct Machine {
    /// The registers, by index.
    pub registers: Seq<u8>,
    /// The memory, by address.
    pub memory: Seq<u8>,
    /// The program counter: the address of the next instruction to fetch.
    pub pc: int,
    /// The return addresses on the call stack, oldest first. Its length is
    /// the stack pointer.
    pub stack: Seq<u16>,
}

impl Machine {
    /// The shape that every state of the processor has.
    pub open spec fn wf(self) -> bool {
        &&& self.registers.len() == REGISTER_COUNT
        &&& self.memory.len() == MEMORY_SIZE
        &&& self.stack.len() <= STACK_CAPACITY
        &&& 0 <= self.pc <= u16::MAX
    }

    /// The state of a new processor: everything zero, the call stack empty.
    pub open spec fn zeroed() -> Machine {
        Machine {
            registers: Seq::new(REGISTER_COUNT as nat, |i: int| 0u8),
            memory: Seq::new(MEMORY_SIZE as nat, |i: int| 0u8),
            pc: 0,
            stack: Seq::empty(),
        }
    }

    /// The value of register `index`, or an addressing fault if there is no
    /// such register.
    pub open spec fn read_register(self, index: int) -> Result<u8, Fault> {
        if 0 <= index < REGISTER_COUNT {
            Ok(self.registers[index])
        } else {
            Err(Fault::AddressingFault)
        }
    }

    /// The machine with `value` in register `index`, or an addressing fault
    /// if there is no such register.
    pub open spec fn write_register(self, index: int, value: u8) -> Result<Machine, Fault> {
        if 0 <= index < REGISTER_COUNT {
            Ok(Machine { registers: self.registers.update(index, value), ..self })
        } else {
            Err(Fault::AddressingFault)
        }
    }

    /// The byte at memory address `address`, or an addressing fault if the
    /// address lies outside the memory.
    pub open spec fn read_byte(self, address: int) -> Result<u8, Fault> {
        if 0 <= address < MEMORY_SIZE {
            Ok(self.memory[address])
        } else {
            Err(Fault::AddressingFault)
        }
    }

    /// The machine with `value` at memory address `address`, or an addressing
    /// fault if the address lies outside the memory.
    pub open spec fn write_byte(self, address: int, value: u8) -> Result<Machine, Fault> {
        if 0 <= address < MEMORY_SIZE {
            Ok(Machine { memory: self.memory.update(address, value), ..self })
        } else {
            Err(Fault::AddressingFault)
        }
    }

    /// The machine with the addresses `start .. end` overwritten by `bytes`.
    ///
    /// It is an addressing fault if the range runs backwards, reaches past
    /// the end of the memory, or differs in length from `bytes`.
    pub open spec fn load_range(self, start: int, end: int, bytes: Seq<u8>) -> Result<
        Machine,
        Fault,
    > {
        if 0 <= start <= end <= MEMORY_SIZE && end - start == bytes.len() {
            Ok(
                Machine {
                    memory: Seq::new(
                        self.memory.len(),
                        |a: int|
                            if start <= a < end {
                                bytes[a - start]
                            } else {
                                self.memory[a]
                            },
                    ),
                    ..self
                },
            )
        } else {
            Err(Fault::AddressingFault)
        }
    }

    /// The instruction word at `address`: the byte there is its high half,
    /// the byte after it its low half.
    ///
    /// It is an addressing fault if the two bytes do not both lie within the
    /// memory.
    pub open spec fn word_at(self, address: int) -> Result<u16, Fault> {
        if 0 <= address && address + 1 < MEMORY_SIZE {
            Ok((self.memory[address] * 0x100 + self.memory[address + 1]) as u16)
        } else {
            Err(Fault::AddressingFault)
        }
    }

    /// The instruction word at the program counter.
    pub open spec fn fetch(self) -> Result<u16, Fault> {
        self.word_at(self.pc)
    }

    /// The instruction that the word at `address` stands for.
    pub open spec fn instruction_at(self, address: int) -> Result<Instruction, Fault> {
        match self.word_at(address) {
            Ok(opcode) => spec_decode(opcode),
            Err(fault) => Err(fault),
        }
    }

    /// Call: the program counter goes onto the call stack, and `addr` becomes
    /// the program counter. A full stack is a stack overflow.
    pub open spec fn call(self, addr: u16) -> Result<Machine, Fault> {
        if self.stack.len() < STACK_CAPACITY {
            Ok(Machine { pc: addr as int, stack: self.stack.push(self.pc as u16), ..self })
        } else {
            Err(Fault::StackOverflow)
        }
    }

    /// Return: the newest return address leaves the call stack and becomes
    /// the program counter. An empty stack is a stack underflow.
    pub open spec fn ret(self) -> Result<Machine, Fault> {
        if self.stack.len() > 0 {
            Ok(Machine { pc: self.stack.last() as int, stack: self.stack.drop_last(), ..self })
        } else {
            Err(Fault::StackUnderflow)
        }
    }

    /// Add with carry: register `x` receives the low eight bits of the sum of
    /// registers `x` and `y`; then the flag register receives 1 if the sum
    /// exceeds eight bits, and 0 otherwise.
    ///
    /// The flag is written last, so with `x` the flag register itself the
    /// flag is what remains there.
    pub open spec fn add_xy(self, x: u8, y: u8) -> Result<Machine, Fault> {
        if x < REGISTER_COUNT && y < REGISTER_COUNT {
            let sum = self.registers[x as int] + self.registers[y as int];
            let carry = if sum > u8::MAX { 1u8 } else { 0u8 };
            Ok(
                Machine {
                    registers: self.registers.update(x as int, (sum % 0x100) as u8).update(
                        FLAG_REGISTER as int,
                        carry,
                    ),
                    ..self
                },
            )
        } else {
            Err(Fault::AddressingFault)
        }
    }

    /// The machine after a call to each of `addrs` in turn, or the fault of
    /// the first call that fails.
    pub open spec fn call_each(self, addrs: Seq<u16>) -> Result<Machine, Fault>
        decreases addrs.len(),
    {
        if addrs.len() == 0 {
            Ok(self)
        } else {
            match self.call_each(addrs.drop_last()) {
                Ok(called) => called.call(addrs.last()),
                Err(fault) => Err(fault),
            }
        }
    }

    /// The effect of one decoded instruction. A fault leaves the machine as
    /// it was.
    pub open spec fn execute(self, instruction: Instruction) -> (Machine, Result<Status, Fault>) {
        match instruction {
            Instruction::Halt => (self, Ok(Status::Halted)),
            Instruction::Return => match self.ret() {
                Ok(next) => (next, Ok(Status::Running)),
                Err(fault) => (self, Err(fault)),
            },
            Instruction::Call { addr } => match self.call(addr) {
                Ok(next) => (next, Ok(Status::Running)),
                Err(fault) => (self, Err(fault)),
            },
            Instruction::Add { x, y } => match self.add_xy(x, y) {
                Ok(next) => (next, Ok(Status::Running)),
                Err(fault) => (self, Err(fault)),
            },
        }
    }

    /// The machine with the program counter moved past one instruction.
    pub open spec fn advance(self) -> Machine {
        Machine { pc: self.pc + 2, ..self }
    }

    /// One turn of the fetch-decode-execute cycle.
    ///
    /// The program counter moves past the instruction before the instruction
    /// takes effect, so a call saves the address of the instruction after it.
    /// If the fetch fails the machine is left as it was; if the instruction
    /// is unsupported or its execution fails, the program counter has moved
    /// past it and nothing else has changed.
    pub open spec fn step(self) -> (Machine, Result<Status, Fault>) {
        match self.fetch() {
            Ok(opcode) => match spec_decode(opcode) {
                Ok(instruction) => self.advance().execute(instruction),
                Err(fault) => (self.advance(), Err(fault)),
            },
            Err(fault) => (self, Err(fault)),
        }
    }

    /// The machine stepped until it halts or faults: the state it ends in,
    /// and how it ended.
    pub open spec fn run(self) -> (Machine, Result<(), Fault>)
        decreases self.rank(),
        when self.wf()
    {
        let (next, outcome) = self.step();
        match outcome {
            Ok(Status::Running) => {
                proof {
                    lemma_step_lowers_rank(self);
                }
                next.run()
            },
            Ok(Status::Halted) => (next, Ok(())),
            Err(fault) => (next, Err(fault)),
        }
    }

    /// A number that every step lowers as long as the machine keeps running,
    /// which is why every run ends.
    ///
    /// Read the return addresses on the call stack, oldest first, and then
    /// the program counter, as the digits of a number in base 65536, each
    /// digit being the distance of the address from 65535. An addition and a
    /// call raise the address in one digit (a call also adds a less
    /// significant digit), and a return drops the last digit.
    pub open spec fn rank(self) -> nat {
        frames_rank(self.stack) + slack(self.pc) * weight(self.stack.len())
    }
}

/// The distance of `address` from the largest 16-bit address.
pub open spec fn slack(address: int) -> nat {
    if 0 <= address <= u16::MAX {
        (u16::MAX - address) as nat
    } else {
        0
    }
}

/// The weight of the digit at position `depth`: 65536 to the power of the
/// number of positions below it.
pub open spec fn weight(depth: nat) -> nat
    decreases STACK_CAPACITY - depth,
{
    if depth >= STACK_CAPACITY {
        1
    } else {
        0x10000 * weight(depth + 1)
    }
}

/// The part of a machine's rank that its call stack contributes.
pub open spec fn frames_rank(stack: Seq<u16>) -> nat
    decreases stack.len(),
{
    if stack.len() == 0 {
        0
    } else {
        frames_rank(stack.drop_last()) + slack(stack.last() as int) * weight(
            (stack.len() - 1) as nat,
        )
    }
}

/// Every digit position weighs at least one.
pub proof fn lemma_weight_positive(depth: nat)
    ensures
        weight(depth) >= 1,
    decreases STACK_CAPACITY - depth,
{
    if depth < STACK_CAPACITY {
        lemma_weight_positive(depth + 1);
    }
}

/// A step that keeps the machine running lowers its rank.
pub proof fn lemma_step_lowers_rank(m: Machine)
    requires
        m.wf(),
        m.step().1 == Ok::<Status, Fault>(Status::Running),
    ensures
        m.step().0.rank() < m.rank(),
{
    let depth = m.stack.len();
    let next = m.step().0;
    lemma_weight_positive(depth);
    // Moving the program counter past the instruction lowers its digit by 2.
    assert(slack(m.pc) * weight(depth) == slack(m.pc + 2) * weight(depth) + 2 * weight(depth))
        by (nonlinear_arith)
        requires
            slack(m.pc) == slack(m.pc + 2) + 2,
    ;
    match spec_decode(m.fetch().unwrap()).unwrap() {
        Instruction::Halt => {},
        Instruction::Add { .. } => {},
        Instruction::Return => {
            // The newest return address becomes the program counter and keeps
            // its digit; the digit of the old program counter is gone.
            assert(next.rank() == frames_rank(m.stack));
        },
        Instruction::Call { addr } => {
            // The lowered digit of the program counter stays as the digit of
            // the new return address; the digit that comes in below it is
            // worth less than one unit of it.
            assert(next.stack.drop_last() == m.stack);
            assert(slack(addr as int) * weight(depth + 1) <= 0xFFFF * weight(depth + 1))
                by (nonlinear_arith)
                requires
                    slack(addr as int) <= 0xFFFF,
            ;
        },
    }
}

} // verus!
