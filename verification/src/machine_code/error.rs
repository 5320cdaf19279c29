use vstd::prelude::*;

verus! {

/// The input ended before the unit named `name` was complete.
#[derive(Clone, Copy, Debug, PartialEq, Eq)]
pub struct EndOfInput {
    pub name: &'static str,
}

/// The bytes are not as many as the unit has: `found` where `expected` are
/// needed.
#[derive(Clone, Copy, Debug, PartialEq, Eq, Structural)]
pub struct WrongLength {
    pub expected: usize,
    pub found: usize,
}

/// Why a register could not be read.
#[derive(Clone, Copy, Debug, PartialEq, Eq)]
pub enum RegisterDecompileError {
    /// The register's byte is missing.
    EndOfInput(EndOfInput),
    /// The byte is not the number of a register.
    WrongRegister { register: u8 },
}

/// The byte is not the code of any operation.
#[derive(Clone, Copy, Debug, PartialEq, Eq, Structural)]
pub struct WrongOpCode {
    pub op_code: u8,
}

/// Why an operation could not be read.
#[derive(Clone, Copy, Debug, PartialEq, Eq)]
pub enum OpDecompileError {
    /// The leading byte is not the code of any operation.
    WrongOpCode(WrongOpCode),
    /// The operand of a register operation could not be read.
    RegisterDecompileError(RegisterDecompileError),
    /// The code or the value that follows it is cut short.
    EndOfInput(EndOfInput),
}

/// Why a program could not be read.
#[derive(Clone, Copy, Debug, PartialEq, Eq)]
pub enum AssemblyDecompileError {
    /// One of its operations could not be read.
    OpDecompileError(OpDecompileError),
}

} // verus!
