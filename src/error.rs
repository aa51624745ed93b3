use vstd::prelude::*;

verus! {

/// The ways in which executing one instruction can stop the program.
#[derive(Debug, Clone, Copy, PartialEq, Eq, Structural)]
pub enum Error {
    /// A call was made while the call stack already held its maximum depth.
    StackOverflow,
    /// The fetched word decodes to no instruction of the active variant.
    IllegalInstruction(u16),
    /// The program executed the extended-variant exit instruction.
    ProgramExited,
}

} // verus!
