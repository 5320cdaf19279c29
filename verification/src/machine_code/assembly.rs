use vstd::prelude::*;
use vstd::slice::slice_subrange;
use crate::models::{Assembly, Op, Statement};
use super::{
    lemma_op_round_trip, AssemblyDecompileError, Compile, Decompile, DecompileResult,
    OpDecompileError,
};

verus! {

/// The bytes of a sequence of statements: those of each operation, one after
/// the other.
pub open spec fn encode_program(statements: Seq<Statement>) -> Seq<u8>
    decreases statements.len(),
{
    if statements.len() == 0 {
        Seq::empty()
    } else {
        statements[0].spec_op().encoding() + encode_program(statements.drop_first())
    }
}

/// The statements that `bytes` stand for: operations are read one after the
/// other until no byte is left, and the first that cannot be read fails the
/// whole.
pub open spec fn decode_program(bytes: Seq<u8>) -> Result<Seq<Statement>, OpDecompileError>
    decreases bytes.len(),
{
    if bytes.len() == 0 {
        Ok(Seq::empty())
    } else {
        match Op::decoding(bytes) {
            Err(e) => Err(e),
            Ok(d) => match decode_program(bytes.skip(d.bytes_read as int)) {
                Err(e) => Err(e),
                Ok(rest) => Ok(seq![Statement::Op(d.value)] + rest),
            },
        }
    }
}

impl Compile for Assembly {
    open spec fn encoding(&self) -> Seq<u8> {
        encode_program(self@)
    }

    fn compile(&self, output: &mut Vec<u8>) {
        let statements = self.statements();
        let mut i: usize = 0;
        proof {
            assert(statements@.take(0) =~= Seq::<Statement>::empty());
        }
        while i < statements.len()
            invariant
                i <= statements.len(),
                statements@ == self@,
                output@ == old(output)@ + encode_program(statements@.take(i as int)),
            decreases statements.len() - i,
        {
            match statements[i] {
                Statement::Op(op) => op.compile(output),
            }
            proof {
                lemma_encode_program_push(statements@.take(i as int), statements@[i as int]);
                assert(statements@.take(i as int).push(statements@[i as int]) =~= statements@.take(
                    i + 1,
                ));
                assert(output@ =~= old(output)@ + encode_program(statements@.take(i + 1)));
            }
            i += 1;
        }
        assert(statements@.take(i as int) =~= statements@);
    }
}

impl Decompile for Assembly {
    type Error = AssemblyDecompileError;

    open spec fn decoded(
        bytes: Seq<u8>,
        result: Result<DecompileResult<Assembly>, AssemblyDecompileError>,
    ) -> bool {
        match decode_program(bytes) {
            Ok(statements) => result matches Ok(d) && d.value@ == statements && d.bytes_read
                == bytes.len(),
            Err(e) => result matches Err(f) && f == AssemblyDecompileError::OpDecompileError(e),
        }
    }

    fn decompile(bytes: &[u8]) -> (r: Result<DecompileResult<Assembly>, AssemblyDecompileError>) {
        let mut idx: usize = 0;
        let mut result: Vec<Statement> = Vec::new();
        assert(bytes@.skip(0) =~= bytes@);
        while idx < bytes.len()
            invariant
                idx <= bytes.len(),
                decode_program(bytes@) == (match decode_program(bytes@.skip(idx as int)) {
                    Ok(rest) => Ok::<Seq<Statement>, OpDecompileError>(result@ + rest),
                    Err(e) => Err(e),
                }),
            decreases bytes.len() - idx,
        {
            let remaining = slice_subrange(bytes, idx, bytes.len());
            assert(remaining@ =~= bytes@.skip(idx as int));
            let op = match Op::decompile(remaining) {
                Ok(op) => op,
                Err(e) => {
                    return Err(AssemblyDecompileError::OpDecompileError(e));
                },
            };
            proof {
                assert(bytes@.skip(idx as int).skip(op.bytes_read as int) =~= bytes@.skip(
                    idx + op.bytes_read,
                ));
                match decode_program(bytes@.skip(idx + op.bytes_read)) {
                    Ok(rest) => {
                        assert(result@ + (seq![Statement::Op(op.value)] + rest) =~= result@.push(
                            Statement::Op(op.value),
                        ) + rest);
                    },
                    Err(_) => {},
                }
            }
            result.push(Statement::Op(op.value));
            idx += op.bytes_read;
        }
        assert(result@ + Seq::<Statement>::empty() =~= result@);
        Ok(DecompileResult { value: Assembly::new(result), bytes_read: idx })
    }
}

/// The bytes of a program with one more statement at its end are the bytes of
/// the program followed by those of the statement's operation.
pub proof fn lemma_encode_program_push(statements: Seq<Statement>, last: Statement)
    ensures
        encode_program(statements.push(last)) == encode_program(statements)
            + last.spec_op().encoding(),
    decreases statements.len(),
{
    if statements.len() == 0 {
        assert(statements.push(last)[0] == last);
        assert(statements.push(last).drop_first() =~= Seq::<Statement>::empty());
        assert(encode_program(Seq::<Statement>::empty()) =~= Seq::<u8>::empty());
        assert(statements =~= Seq::<Statement>::empty());
        assert(encode_program(statements.push(last)) =~= last.spec_op().encoding());
        assert(encode_program(statements) + last.spec_op().encoding()
            =~= last.spec_op().encoding());
    } else {
        lemma_encode_program_push(statements.drop_first(), last);
        assert(statements.push(last).drop_first() =~= statements.drop_first().push(last));
        assert(encode_program(statements.push(last)) =~= encode_program(statements)
            + last.spec_op().encoding());
    }
}

/// Reading back the bytes of a program gives its statements, each equal to
/// the one written and in the same order.
pub proof fn lemma_program_round_trip(statements: Seq<Statement>)
    ensures
        decode_program(encode_program(statements)) == Ok::<Seq<Statement>, OpDecompileError>(
            statements,
        ),
    decreases statements.len(),
{
    if statements.len() == 0 {
        assert(statements =~= Seq::<Statement>::empty());
    } else {
        let op = statements[0].spec_op();
        let rest = encode_program(statements.drop_first());
        lemma_op_round_trip(op, rest);
        lemma_program_round_trip(statements.drop_first());
        let bytes = encode_program(statements);
        assert(bytes.skip(op.encoding().len() as int) =~= rest);
        assert(seq![Statement::Op(op)] + statements.drop_first() =~= statements);
    }
}

} // verus!
