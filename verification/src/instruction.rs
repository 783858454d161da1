use crate::fault::Fault;
use vstd::prelude::*;

verus! {

/// A decoded instruction.
#[derive(Clone, Copy, Debug, PartialEq, Eq, Structural)]
pub enum Instruction {
    /// `0x0000`: stop the machine.
    Halt,
    /// `0x00EE`: resume after the most recent call.
    Return,
    /// `0x2nnn`: call the routine at address `nnn`.
    Call { addr: u16 },
    /// `0x8xy4`: add register `y` to register `x`, carry into register 15.
    Add { x: u8, y: u8 },
}

/// The four 4-bit fields of an instruction word, most significant first.
pub open spec fn nibbles(opcode: u16) -> (u8, u8, u8, u8) {
    (
        (opcode / 0x1000) as u8,
        ((opcode / 0x100) % 0x10) as u8,
        ((opcode / 0x10) % 0x10) as u8,
        (opcode % 0x10) as u8,
    )
}

/// The 12-bit immediate of an instruction word: its three low nibbles.
pub open spec fn immediate(opcode: u16) -> u16 {
    opcode % 0x1000
}

/// The dispatch table.
///
/// | fields          | instruction                     |
/// |-----------------|---------------------------------|
/// | `(0, 0, 0, 0)`  | `Halt`                          |
/// | `(0, 0, E, E)`  | `Return`                        |
/// | `(2, _, _, _)`  | `Call` to the 12-bit immediate  |
/// | `(8, x, y, 4)`  | `Add { x, y }`                  |
///
/// Every other word is unsupported, and the fault carries the word itself.
pub open spec fn spec_decode(opcode: u16) -> Result<Instruction, Fault> {
    let (c, x, y, d) = nibbles(opcode);
    if (c, x, y, d) == (0u8, 0u8, 0u8, 0u8) {
        Ok(Instruction::Halt)
    } else if (c, x, y, d) == (0u8, 0u8, 0xEu8, 0xEu8) {
        Ok(Instruction::Return)
    } else if c == 0x2 {
        Ok(Instruction::Call { addr: immediate(opcode) })
    } else if c == 0x8 && d == 0x4 {
        Ok(Instruction::Add { x, y })
    } else {
        Err(Fault::UnsupportedOpcode(opcode))
    }
}

/// Splits an instruction word into its fields and looks them up in the
/// dispatch table.
#[verifier::when_used_as_spec(spec_decode)]
pub fn decode(opcode: u16) -> (r: Result<Instruction, Fault>)
    ensures
        r == spec_decode(opcode),
{
    let c: u8 = ((opcode & 0xF000) >> 12) as u8;
    let x: u8 = ((opcode & 0x0F00) >> 8) as u8;
    let y: u8 = ((opcode & 0x00F0) >> 4) as u8;
    let d: u8 = (opcode & 0x000F) as u8;
    let nnn: u16 = opcode & 0x0FFF;
    assert(((opcode & 0xF000) >> 12) == opcode / 0x1000) by (bit_vector);
    assert(((opcode & 0x0F00) >> 8) == (opcode / 0x100) % 0x10) by (bit_vector);
    assert(((opcode & 0x00F0) >> 4) == (opcode / 0x10) % 0x10) by (bit_vector);
    assert((opcode & 0x000F) == opcode % 0x10) by (bit_vector);
    assert((opcode & 0x0FFF) == opcode % 0x1000) by (bit_vector);
    match (c, x, y, d) {
        (0, 0, 0, 0) => Ok(Instruction::Halt),
        (0, 0, 0xE, 0xE) => Ok(Instruction::Return),
        (0x2, _, _, _) => Ok(Instruction::Call { addr: nnn }),
        (0x8, _, _, 0x4) => Ok(Instruction::Add { x, y }),
        _ => Err(Fault::UnsupportedOpcode(opcode)),
    }
}

} // verus!
