use vstd::prelude::*;
use vstd::slice::slice_subrange;
use crate::models::{Op, Register, Value};
use super::{
    lemma_register_round_trip, lemma_value_round_trip, Compile, Decompile, DecompileResult,
    EndOfInput, OpCode, OpDecompileError, RegisterDecompileError,
};

verus! {

impl Op {
    /// The bytes of the operand that follows the code: four for a value, one
    /// for a register, none for the other operations.
    pub open spec fn operand_encoding(self) -> Seq<u8> {
        match self {
            Op::PushValue(v) => v.encoding(),
            Op::PushRegister(r) | Op::PopRegister(r) => r.encoding(),
            _ => Seq::empty(),
        }
    }

    /// What reading an operation from the front of `bytes` gives. The first
    /// byte names the kind, and the operand, where the kind has one, follows
    /// it. Bytes after the operation are not looked at.
    pub open spec fn decoding(bytes: Seq<u8>) -> Result<DecompileResult<Op>, OpDecompileError> {
        if bytes.len() == 0 {
            Err(OpDecompileError::EndOfInput(EndOfInput { name: "Op" }))
        } else {
            match OpCode::decoding(bytes[0]) {
                Err(e) => Err(OpDecompileError::WrongOpCode(e)),
                Ok(OpCode::Add) => Ok(DecompileResult { bytes_read: 1, value: Op::Add }),
                Ok(OpCode::Sub) => Ok(DecompileResult { bytes_read: 1, value: Op::Sub }),
                Ok(OpCode::Mul) => Ok(DecompileResult { bytes_read: 1, value: Op::Mul }),
                Ok(OpCode::Div) => Ok(DecompileResult { bytes_read: 1, value: Op::Div }),
                Ok(OpCode::Mod) => Ok(DecompileResult { bytes_read: 1, value: Op::Mod }),
                Ok(OpCode::Input) => Ok(DecompileResult { bytes_read: 1, value: Op::Input }),
                Ok(OpCode::Output) => Ok(DecompileResult { bytes_read: 1, value: Op::Output }),
                Ok(OpCode::Halt) => Ok(DecompileResult { bytes_read: 1, value: Op::Halt }),
                Ok(OpCode::PushValue) => match Value::decoding(bytes.skip(1)) {
                    Ok(v) => Ok(DecompileResult { bytes_read: 5, value: Op::PushValue(v.value) }),
                    Err(e) => Err(OpDecompileError::EndOfInput(e)),
                },
                Ok(OpCode::PushRegister) => match Register::decoding(bytes.skip(1)) {
                    Ok(r) => Ok(
                        DecompileResult { bytes_read: 2, value: Op::PushRegister(r.value) },
                    ),
                    Err(e) => Err(OpDecompileError::RegisterDecompileError(e)),
                },
                Ok(OpCode::PopRegister) => match Register::decoding(bytes.skip(1)) {
                    Ok(r) => Ok(DecompileResult { bytes_read: 2, value: Op::PopRegister(r.value) }),
                    Err(e) => Err(OpDecompileError::RegisterDecompileError(e)),
                },
            }
        }
    }
}

impl Compile for Op {
    open spec fn encoding(&self) -> Seq<u8> {
        seq![OpCode::of(*self).spec_byte()] + self.operand_encoding()
    }

    fn compile(&self, output: &mut Vec<u8>) {
        let op_code: u8 = OpCode::from(*self).byte();
        output.push(op_code);
        match self {
            Op::PushValue(v) => v.compile(output),
            Op::PushRegister(r) | Op::PopRegister(r) => r.compile(output),
            _ => (),
        }
        assert(output@ =~= old(output)@ + self.encoding());
    }
}

impl Decompile for Op {
    type Error = OpDecompileError;

    open spec fn decoded(bytes: Seq<u8>, result: Result<DecompileResult<Op>, OpDecompileError>) -> bool {
        &&& result == Op::decoding(bytes)
        &&& result matches Ok(d) ==> d.bytes_read == OpCode::of(d.value).spec_op_len()
            && 1 <= d.bytes_read <= bytes.len()
    }

    fn decompile(bytes: &[u8]) -> (r: Result<DecompileResult<Op>, OpDecompileError>) {
        if bytes.len() == 0 {
            return Err(OpDecompileError::EndOfInput(EndOfInput { name: "Op" }));
        }
        let op_code = match OpCode::try_from(bytes[0]) {
            Ok(code) => code,
            Err(e) => {
                return Err(OpDecompileError::WrongOpCode(e));
            },
        };
        let operand = slice_subrange(bytes, 1, bytes.len());
        assert(operand@ == bytes@.skip(1));
        let op = match op_code {
            OpCode::Add => Op::Add,
            OpCode::Sub => Op::Sub,
            OpCode::Mul => Op::Mul,
            OpCode::Div => Op::Div,
            OpCode::Mod => Op::Mod,
            OpCode::Input => Op::Input,
            OpCode::Output => Op::Output,
            OpCode::Halt => Op::Halt,
            OpCode::PushValue => match Value::decompile(operand) {
                Ok(v) => Op::PushValue(v.value),
                Err(e) => {
                    return Err(OpDecompileError::EndOfInput(e));
                },
            },
            OpCode::PushRegister => match Register::decompile(operand) {
                Ok(reg) => Op::PushRegister(reg.value),
                Err(e) => {
                    return Err(OpDecompileError::RegisterDecompileError(e));
                },
            },
            OpCode::PopRegister => match Register::decompile(operand) {
                Ok(reg) => Op::PopRegister(reg.value),
                Err(e) => {
                    return Err(OpDecompileError::RegisterDecompileError(e));
                },
            },
        };
        Ok(DecompileResult { value: op, bytes_read: OpCode::from(op).op_len() })
    }
}

/// Reads one operation from the front of `bytes` and gives it with the
/// number of bytes it took.
pub fn read_op(bytes: &[u8]) -> (r: Result<(Op, usize), OpDecompileError>)
    ensures
        match Op::decoding(bytes@) {
            Ok(d) => r == Ok::<(Op, usize), OpDecompileError>((d.value, d.bytes_read)),
            Err(e) => r == Err::<(Op, usize), OpDecompileError>(e),
        },
        r matches Ok(p) ==> p.1 == OpCode::of(p.0).spec_op_len() && 1 <= p.1 <= bytes@.len(),
{
    match Op::decompile(bytes) {
        Ok(d) => Ok((d.value, d.bytes_read)),
        Err(e) => Err(e),
    }
}

/// Reading back the bytes of an operation gives the operation and takes as
/// many bytes as were written: one for an operation without operand, two for
/// one with a register, five for one with a value. What follows the bytes
/// does not matter.
pub proof fn lemma_op_round_trip(op: Op, rest: Seq<u8>)
    ensures
        op.encoding().len() == OpCode::of(op).spec_op_len(),
        Op::decoding(op.encoding() + rest) == Ok::<DecompileResult<Op>, OpDecompileError>(
            DecompileResult { bytes_read: OpCode::of(op).spec_op_len(), value: op },
        ),
{
    let bytes = op.encoding() + rest;
    assert(bytes[0] == OpCode::of(op).spec_byte());
    assert(bytes.skip(1) =~= op.operand_encoding() + rest);
    match op {
        Op::PushValue(v) => {
            lemma_value_round_trip(v, rest);
        },
        Op::PushRegister(r) | Op::PopRegister(r) => {
            lemma_register_round_trip(r, rest);
        },
        _ => {},
    }
}

} // verus!
