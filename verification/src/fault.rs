use vstd::prelude::*;

verus! {

/// The conditions under which the machine refuses to go on.
///
/// Every one of them is reported to the caller as a value; none aborts the
/// process.
#[derive(Clone, Copy, Debug, PartialEq, Eq, Structural)]
pub enum Fault {
    /// A register index, a memory address or a memory range lies outside the
    /// machine.
    AddressingFault,
    /// A call was attempted while the call stack was full.
    StackOverflow,
    /// A return was attempted while the call stack was empty.
    StackUnderflow,
    /// The instruction word matches no entry of the dispatch table. The word
    /// is carried along for diagnostics.
    UnsupportedOpcode(u16),
}

} // verus!
