use vstd::prelude::*;
use crate::models::Register;
use super::{Compile, Decompile, DecompileResult, EndOfInput, RegisterDecompileError};

verus! {

impl Register {
    /// What reading a register from the front of `bytes` gives: the register
    /// whose number the first byte is, or the error that says why there is
    /// none.
    pub open spec fn decoding(bytes: Seq<u8>) -> Result<
        DecompileResult<Register>,
        RegisterDecompileError,
    > {
        if bytes.len() == 0 {
            Err(RegisterDecompileError::EndOfInput(EndOfInput { name: "Register" }))
        } else if bytes[0] == 0 {
            Ok(DecompileResult { bytes_read: 1, value: Register::A })
        } else if bytes[0] == 1 {
            Ok(DecompileResult { bytes_read: 1, value: Register::B })
        } else if bytes[0] == 2 {
            Ok(DecompileResult { bytes_read: 1, value: Register::C })
        } else if bytes[0] == 3 {
            Ok(DecompileResult { bytes_read: 1, value: Register::D })
        } else {
            Err(RegisterDecompileError::WrongRegister { register: bytes[0] })
        }
    }
}

impl Compile for Register {
    open spec fn encoding(&self) -> Seq<u8> {
        seq![self.spec_id()]
    }

    fn compile(&self, output: &mut Vec<u8>) {
        output.push(self.id());
        assert(output@ =~= old(output)@ + seq![self.spec_id()]);
    }
}

impl Decompile for Register {
    type Error = RegisterDecompileError;

    open spec fn decoded(
        bytes: Seq<u8>,
        result: Result<DecompileResult<Register>, RegisterDecompileError>,
    ) -> bool {
        result == Register::decoding(bytes)
    }

    fn decompile(bytes: &[u8]) -> (r: Result<DecompileResult<Register>, RegisterDecompileError>) {
        if bytes.len() == 0 {
            return Err(RegisterDecompileError::EndOfInput(EndOfInput { name: "Register" }));
        }
        let register = match bytes[0] {
            0 => Register::A,
            1 => Register::B,
            2 => Register::C,
            3 => Register::D,
            x => {
                return Err(RegisterDecompileError::WrongRegister { register: x });
            },
        };
        Ok(DecompileResult { bytes_read: 1, value: register })
    }
}

/// Reading back the byte of a register gives the register and takes one byte,
/// whatever follows it.
pub proof fn lemma_register_round_trip(r: Register, rest: Seq<u8>)
    ensures
        r.encoding().len() == 1,
        Register::decoding(r.encoding() + rest) == Ok::<
            DecompileResult<Register>,
            RegisterDecompileError,
        >(DecompileResult { bytes_read: 1, value: r }),
{
    assert((r.encoding() + rest)[0] == r.spec_id());
}

} // verus!
