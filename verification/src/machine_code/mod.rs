//! The binary form of programs: a flat stream of operations with no header,
//! no length prefix and no terminator.

mod assembly;
mod error;
mod op;
mod op_code;
mod register;
mod value;

use vstd::prelude::*;

pub use assembly::{
    decode_program, encode_program, lemma_encode_program_push, lemma_program_round_trip,
};
pub use error::{
    AssemblyDecompileError, EndOfInput, OpDecompileError, RegisterDecompileError, WrongLength,
    WrongOpCode,
};
pub use op::{lemma_op_round_trip, read_op};
pub use op_code::{lemma_op_code_bijection, OpCode};
pub use register::lemma_register_round_trip;
pub use value::{be_bytes, be_value, bits, lemma_value_round_trip};

verus! {

/// A unit of the instruction model that can be written as bytes.
pub trait Compile {
    /// The bytes that stand for the unit.
    spec fn encoding(&self) -> Seq<u8>;

    /// Appends the unit's bytes to `output` and leaves what `output` held
    /// before in place.
    fn compile(&self, output: &mut Vec<u8>)
        ensures
            final(output)@ == old(output)@ + self.encoding(),
    ;
}

/// A unit read from the front of a byte slice, with the number of bytes it
/// took.
#[derive(Debug)]
pub struct DecompileResult<T> {
    pub bytes_read: usize,
    pub value: T,
}

/// A unit of the instruction model that can be read from bytes.
pub trait Decompile: Sized {
    type Error;

    /// Whether `result` is what reading one unit from the front of `bytes`
    /// gives.
    spec fn decoded(bytes: Seq<u8>, result: Result<DecompileResult<Self>, Self::Error>) -> bool;

    /// Reads one unit from the front of `bytes`.
    fn decompile(bytes: &[u8]) -> (r: Result<DecompileResult<Self>, Self::Error>)
        ensures
            Self::decoded(bytes@, r),
    ;
}

} // verus!
