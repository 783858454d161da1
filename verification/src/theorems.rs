//! What holds of every machine, stated over the model and proved from its
//! definition.

use crate::fault::Fault;
use crate::instruction::{nibbles, spec_decode, Instruction};
use crate::machine::{lemma_step_lowers_rank, Machine, Status, FLAG_REGISTER, STACK_CAPACITY};
use vstd::prelude::*;

verus! {

/// Addition wraps and carries.
///
/// With `a` in register `x` and `b` in register `y`, an addition leaves
/// `(a + b) mod 256` in register `x`, and in register 15 it leaves 1 if
/// `a + b` exceeds 255 and 0 if it does not. No other register, and nothing
/// else of the machine, changes.
///
/// Register `x` must not be register 15 itself: there the carry, written
/// last, replaces the sum.
pub proof fn lemma_add_wraps_and_carries(m: Machine, x: u8, y: u8, a: u8, b: u8)
    requires
        m.wf(),
        x < 16,
        y < 16,
        x != FLAG_REGISTER,
        m.registers[x as int] == a,
        m.registers[y as int] == b,
    ensures
        m.add_xy(x, y) is Ok,
        m.add_xy(x, y).unwrap().registers[x as int] == (a + b) % 256,
        m.add_xy(x, y).unwrap().registers[FLAG_REGISTER as int] == (if a + b > 255 {
            1u8
        } else {
            0u8
        }),
        forall|i: int|
            0 <= i < 16 && i != x && i != FLAG_REGISTER ==> m.add_xy(x, y).unwrap().registers[i]
                == m.registers[i],
        m.add_xy(x, y).unwrap().memory == m.memory,
        m.add_xy(x, y).unwrap().pc == m.pc,
        m.add_xy(x, y).unwrap().stack == m.stack,
        m.add_xy(x, y).unwrap().wf(),
{
}

/// An addition into register 15 leaves only the carry there.
pub proof fn lemma_add_into_flag_register(m: Machine, y: u8)
    requires
        m.wf(),
        y < 16,
    ensures
        m.add_xy(15, y) is Ok,
        m.add_xy(15, y).unwrap().registers[FLAG_REGISTER as int] == (if m.registers[15]
            + m.registers[y as int] > 255 {
            1u8
        } else {
            0u8
        }),
{
}

/// A return undoes a call.
///
/// After a call, a return puts the machine back exactly as it was before the
/// call: the program counter is the one that the call saved, and the call
/// stack is as deep as before.
pub proof fn lemma_return_undoes_call(m: Machine, addr: u16)
    requires
        m.wf(),
        m.stack.len() < STACK_CAPACITY,
    ensures
        m.call(addr) is Ok,
        m.call(addr).unwrap().pc == addr,
        m.call(addr).unwrap().stack.len() == m.stack.len() + 1,
        m.call(addr).unwrap().ret() == Ok::<Machine, Fault>(m),
{
    let called = m.call(addr).unwrap();
    assert(called.stack.drop_last() =~= m.stack);
}

/// A call instruction followed at once by a return instruction resumes after
/// the call.
///
/// Let the instruction at the program counter be a call to `addr`, and the
/// instruction at `addr` a return. If the call stack has room, two steps
/// leave the machine as it was but for the program counter, which is 2
/// higher: the address of the instruction after the call. If the call stack
/// is full, the first step reports a stack overflow.
pub proof fn lemma_call_then_return_resumes_after_call(m: Machine, addr: u16)
    requires
        m.wf(),
        m.instruction_at(m.pc) == Ok::<Instruction, Fault>(Instruction::Call { addr }),
        m.instruction_at(addr as int) == Ok::<Instruction, Fault>(Instruction::Return),
    ensures
        m.stack.len() < STACK_CAPACITY ==> {
            &&& m.step().1 == Ok::<Status, Fault>(Status::Running)
            &&& m.step().0.pc == addr
            &&& m.step().0.step().1 == Ok::<Status, Fault>(Status::Running)
            &&& m.step().0.step().0 == m.advance()
        },
        m.stack.len() == STACK_CAPACITY ==> m.step() == (
            m.advance(),
            Err::<Status, Fault>(Fault::StackOverflow),
        ),
{
    if m.stack.len() < STACK_CAPACITY {
        lemma_return_undoes_call(m.advance(), addr);
    }
}

/// Calls nest as deep as the call stack has room, and no deeper.
///
/// Calls to each of `addrs` in turn all succeed if and only if the call stack
/// has room for that many return addresses, and then the stack is deeper by
/// their number. Starting from an empty stack, the stack pointer after `n`
/// calls is `n`. If there is not room for all of them, the outcome is a stack
/// overflow.
pub proof fn lemma_calls_nest_up_to_capacity(m: Machine, addrs: Seq<u16>)
    requires
        m.wf(),
    ensures
        m.stack.len() + addrs.len() <= STACK_CAPACITY ==> {
            &&& m.call_each(addrs) is Ok
            &&& m.call_each(addrs).unwrap().wf()
            &&& m.call_each(addrs).unwrap().stack.len() == m.stack.len() + addrs.len()
        },
        m.stack.len() + addrs.len() > STACK_CAPACITY ==> m.call_each(addrs) == Err::<
            Machine,
            Fault,
        >(Fault::StackOverflow),
    decreases addrs.len(),
{
    if addrs.len() > 0 {
        lemma_calls_nest_up_to_capacity(m, addrs.drop_last());
    }
}

/// A call on a full call stack is a stack overflow, and the instruction
/// leaves the machine as it was.
pub proof fn lemma_call_on_full_stack_overflows(m: Machine, addr: u16)
    requires
        m.stack.len() == STACK_CAPACITY,
    ensures
        m.call(addr) == Err::<Machine, Fault>(Fault::StackOverflow),
        m.execute(Instruction::Call { addr }) == (m, Err::<Status, Fault>(Fault::StackOverflow)),
{
}

/// A return on an empty call stack is a stack underflow, and the instruction
/// leaves the machine as it was.
pub proof fn lemma_return_on_empty_stack_underflows(m: Machine)
    requires
        m.stack.len() == 0,
    ensures
        m.ret() == Err::<Machine, Fault>(Fault::StackUnderflow),
        m.execute(Instruction::Return) == (m, Err::<Status, Fault>(Fault::StackUnderflow)),
{
}

/// A word that matches no row of the dispatch table is unsupported, and the
/// fault carries the word. No other word fails to decode, and decoding fails
/// in no other way.
pub proof fn lemma_unsupported_opcode_carries_word(opcode: u16)
    ensures
        spec_decode(opcode) is Err <==> {
            let (c, x, y, d) = nibbles(opcode);
            &&& (c, x, y, d) != (0u8, 0u8, 0u8, 0u8)
            &&& (c, x, y, d) != (0u8, 0u8, 0xEu8, 0xEu8)
            &&& c != 0x2
            &&& !(c == 0x8 && d == 0x4)
        },
        spec_decode(opcode) is Err ==> spec_decode(opcode) == Err::<Instruction, Fault>(
            Fault::UnsupportedOpcode(opcode),
        ),
{
}

/// A step that fetches an unsupported word moves the program counter past
/// it, changes nothing else, and reports the word.
pub proof fn lemma_step_on_unsupported_opcode(m: Machine, opcode: u16)
    requires
        m.fetch() == Ok::<u16, Fault>(opcode),
        spec_decode(opcode) is Err,
    ensures
        m.step() == (m.advance(), Err::<Status, Fault>(Fault::UnsupportedOpcode(opcode))),
{
}

/// The fields of a decoded instruction are those of its word: the register
/// indices of an addition are below 16, the target of a call is below 4096,
/// and the word can be put together again from them.
pub proof fn lemma_decoded_fields(opcode: u16)
    ensures
        match spec_decode(opcode) {
            Ok(Instruction::Halt) => opcode == 0x0000,
            Ok(Instruction::Return) => opcode == 0x00EE,
            Ok(Instruction::Call { addr }) => addr < 0x1000 && opcode == 0x2000 + addr,
            Ok(Instruction::Add { x, y }) => x < 16 && y < 16 && opcode == 0x8004 + 0x100 * x
                + 0x10 * y,
            Err(fault) => fault == Fault::UnsupportedOpcode(opcode),
        },
{
}

/// The word `0x2nnn` decodes to a call to `nnn`.
pub proof fn lemma_call_word_decodes(addr: u16)
    requires
        addr < 0x1000,
    ensures
        spec_decode((0x2000 + addr) as u16) == Ok::<Instruction, Fault>(
            Instruction::Call { addr },
        ),
{
}

/// The word `0x8xy4` decodes to the addition of register `y` to register `x`.
pub proof fn lemma_add_word_decodes(x: u8, y: u8)
    requires
        x < 16,
        y < 16,
    ensures
        spec_decode((0x8004 + 0x100 * x + 0x10 * y) as u16) == Ok::<Instruction, Fault>(
            Instruction::Add { x, y },
        ),
{
}

/// A step keeps the machine in shape: sixteen registers, 4096 bytes of
/// memory, at most sixteen return addresses on the call stack, and a program
/// counter of sixteen bits. It changes registers, call stack and program
/// counter only: the memory stays as it is.
pub proof fn lemma_step_keeps_shape_and_memory(m: Machine)
    requires
        m.wf(),
    ensures
        m.step().0.wf(),
        m.step().0.memory == m.memory,
{
}

/// A run ends in the step that halts or faults.
///
/// The state in which a run leaves the machine, and the way in which it
/// ends, are those of one last step: a step that halts, for a run that
/// succeeds, and a step that faults, with the same fault, for a run that
/// fails. The run leaves the machine in shape, and its memory as it was.
pub proof fn lemma_run_ends_in_last_step(m: Machine)
    requires
        m.wf(),
    ensures
        m.run().0.wf(),
        m.run().0.memory == m.memory,
        exists|last: Machine|
            {
                &&& last.wf()
                &&& last.memory == m.memory
                &&& #[trigger] last.step().0 == m.run().0
                &&& last.step().1 == match m.run().1 {
                    Ok(()) => Ok::<Status, Fault>(Status::Halted),
                    Err(fault) => Err::<Status, Fault>(fault),
                }
            },
    decreases m.rank(),
{
    if m.step().1 == Ok::<Status, Fault>(Status::Running) {
        lemma_step_lowers_rank(m);
        lemma_run_ends_in_last_step(m.step().0);
    }
}

} // verus!
