use vstd::prelude::*;
use crate::models::Op;
use super::WrongOpCode;

verus! {

/// The kind of an operation: the byte that opens it in the binary form.
#[derive(Clone, Copy, Debug, PartialEq, Eq, Structural)]
pub enum OpCode {
    Add,
    Sub,
    Mul,
    Div,
    Mod,
    Input,
    Output,
    Halt,
    PushValue,
    PushRegister,
    PopRegister,
}

impl OpCode {
    /// The byte that stands for the code.
    pub open spec fn spec_byte(self) -> u8 {
        match self {
            OpCode::Add => 0,
            OpCode::Sub => 1,
            OpCode::Mul => 2,
            OpCode::Div => 3,
            OpCode::Mod => 4,
            OpCode::Input => 5,
            OpCode::Output => 6,
            OpCode::Halt => 7,
            OpCode::PushValue => 8,
            OpCode::PushRegister => 9,
            OpCode::PopRegister => 10,
        }
    }

    /// The byte that stands for the code.
    #[verifier::when_used_as_spec(spec_byte)]
    pub fn byte(self) -> (r: u8)
        ensures
            r == self.spec_byte(),
    {
        match self {
            OpCode::Add => 0,
            OpCode::Sub => 1,
            OpCode::Mul => 2,
            OpCode::Div => 3,
            OpCode::Mod => 4,
            OpCode::Input => 5,
            OpCode::Output => 6,
            OpCode::Halt => 7,
            OpCode::PushValue => 8,
            OpCode::PushRegister => 9,
            OpCode::PopRegister => 10,
        }
    }

    /// The number of bytes of an operation of this kind, its code included.
    pub open spec fn spec_op_len(&self) -> usize {
        match self {
            OpCode::PushValue => 5,
            OpCode::PushRegister | OpCode::PopRegister => 2,
            _ => 1,
        }
    }

    /// The number of bytes of an operation of this kind, its code included.
    #[verifier::when_used_as_spec(spec_op_len)]
    pub fn op_len(&self) -> (r: usize)
        ensures
            r == self.spec_op_len(),
    {
        match self {
            OpCode::PushValue => 5,
            OpCode::PushRegister | OpCode::PopRegister => 2,
            _ => 1,
        }
    }

    /// The kind of the operation `op`.
    pub open spec fn of(op: Op) -> OpCode {
        match op {
            Op::Add => OpCode::Add,
            Op::Sub => OpCode::Sub,
            Op::Mul => OpCode::Mul,
            Op::Div => OpCode::Div,
            Op::Mod => OpCode::Mod,
            Op::Input => OpCode::Input,
            Op::Output => OpCode::Output,
            Op::Halt => OpCode::Halt,
            Op::PushValue(_) => OpCode::PushValue,
            Op::PushRegister(_) => OpCode::PushRegister,
            Op::PopRegister(_) => OpCode::PopRegister,
        }
    }

    /// The kind of the operation `op`.
    #[verifier::when_used_as_spec(of)]
    pub fn from(op: Op) -> (r: OpCode)
        ensures
            r == OpCode::of(op),
    {
        match op {
            Op::Add => OpCode::Add,
            Op::Sub => OpCode::Sub,
            Op::Mul => OpCode::Mul,
            Op::Div => OpCode::Div,
            Op::Mod => OpCode::Mod,
            Op::Input => OpCode::Input,
            Op::Output => OpCode::Output,
            Op::Halt => OpCode::Halt,
            Op::PushValue(_) => OpCode::PushValue,
            Op::PushRegister(_) => OpCode::PushRegister,
            Op::PopRegister(_) => OpCode::PopRegister,
        }
    }

    /// The code that `byte` stands for, or the error that carries the byte
    /// where it stands for none.
    pub open spec fn decoding(byte: u8) -> Result<OpCode, WrongOpCode> {
        if byte == 0 {
            Ok(OpCode::Add)
        } else if byte == 1 {
            Ok(OpCode::Sub)
        } else if byte == 2 {
            Ok(OpCode::Mul)
        } else if byte == 3 {
            Ok(OpCode::Div)
        } else if byte == 4 {
            Ok(OpCode::Mod)
        } else if byte == 5 {
            Ok(OpCode::Input)
        } else if byte == 6 {
            Ok(OpCode::Output)
        } else if byte == 7 {
            Ok(OpCode::Halt)
        } else if byte == 8 {
            Ok(OpCode::PushValue)
        } else if byte == 9 {
            Ok(OpCode::PushRegister)
        } else if byte == 10 {
            Ok(OpCode::PopRegister)
        } else {
            Err(WrongOpCode { op_code: byte })
        }
    }

    /// The code that `byte` stands for. A byte above 10 stands for none and
    /// comes back in the error.
    pub fn try_from(byte: u8) -> (r: Result<OpCode, WrongOpCode>)
        ensures
            r == OpCode::decoding(byte),
            r matches Ok(code) ==> code.spec_byte() == byte,
            r is Ok <==> byte <= 10,
    {
        match byte {
            0 => Ok(OpCode::Add),
            1 => Ok(OpCode::Sub),
            2 => Ok(OpCode::Mul),
            3 => Ok(OpCode::Div),
            4 => Ok(OpCode::Mod),
            5 => Ok(OpCode::Input),
            6 => Ok(OpCode::Output),
            7 => Ok(OpCode::Halt),
            8 => Ok(OpCode::PushValue),
            9 => Ok(OpCode::PushRegister),
            10 => Ok(OpCode::PopRegister),
            x => Err(WrongOpCode { op_code: x }),
        }
    }
}

impl From<OpCode> for u8 {
    fn from(op_code: OpCode) -> (r: u8) {
        op_code.byte()
    }
}

impl vstd::std_specs::convert::FromSpecImpl<OpCode> for u8 {
    open spec fn obeys_from_spec() -> bool {
        true
    }

    open spec fn from_spec(op_code: OpCode) -> u8 {
        op_code.spec_byte()
    }
}

/// Codes and the bytes 0 to 10 stand for each other, one for one: the byte of
/// a code reads back as that code, and a byte that reads as a code is the
/// byte of that code.
pub proof fn lemma_op_code_bijection(code: OpCode, byte: u8)
    ensures
        code.spec_byte() <= 10,
        OpCode::decoding(code.spec_byte()) == Ok::<OpCode, WrongOpCode>(code),
        OpCode::decoding(byte) is Ok <==> byte <= 10,
        OpCode::decoding(byte) matches Ok(c) ==> c.spec_byte() == byte,
        OpCode::decoding(byte) matches Err(e) ==> e.op_code == byte,
{
}

} // verus!
