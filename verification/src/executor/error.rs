use vstd::prelude::*;
use crate::machine_code::OpDecompileError;

verus! {

/// The input handle gave no line where one was needed.
#[derive(Clone, Copy, Debug, PartialEq, Eq, Structural)]
pub struct InputError;

/// The output handle took no more text.
#[derive(Clone, Copy, Debug, PartialEq, Eq, Structural)]
pub struct OutputError;

/// Why an execution stopped before its end.
#[derive(Clone, Copy, Debug, PartialEq, Eq)]
#[allow(inconsistent_fields)]
pub enum ExecutionError {
    /// An operation needed more operands than the stack held.
    StackUnderflow,
    /// A division or a remainder had zero as its divisor.
    DivisionByZero,
    /// Reading from the input failed.
    InputError { inner: InputError },
    /// Writing to the output failed.
    OutputError { inner: OutputError },
    /// The next operation of the program could not be read.
    OpReadError { inner: OpDecompileError },
}

} // verus!
