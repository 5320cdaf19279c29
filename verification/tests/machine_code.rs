use stack_machine::machine_code::{
    read_op, AssemblyDecompileError, Compile, Decompile, EndOfInput, OpCode, OpDecompileError,
    RegisterDecompileError, WrongLength, WrongOpCode,
};
use stack_machine::models::{Assembly, Op, Register, Statement, Value};

fn test_compile_decompile(statements: Vec<Statement>) {
    let program = Assembly::new(statements);
    let mut machine_code = Vec::new();
    program.compile(&mut machine_code);
    let program_again = Assembly::decompile(machine_code.as_ref()).unwrap().value;
    assert_eq!(program.statements().len(), program_again.statements().len());
    let pairs_iter = program.statements().iter().zip(program_again.statements());
    for (left, right) in pairs_iter {
        let Statement::Op(left) = left;
        let Statement::Op(right) = right;
        assert_eq!(left, right);
    }
}

fn bytes_of(op: Op) -> Vec<u8> {
    let mut bytes = Vec::new();
    op.compile(&mut bytes);
    bytes
}

fn all_ops() -> Vec<Op> {
    let mut ops = vec![
        Op::Add,
        Op::Sub,
        Op::Mul,
        Op::Div,
        Op::Mod,
        Op::Input,
        Op::Output,
        Op::Halt,
    ];
    for v in [0, 1, -1, 42, 255, 256, -256, 65536, i32::MAX, i32::MIN, 0x1234_5678] {
        ops.push(Op::PushValue(Value(v)));
    }
    for r in [Register::A, Register::B, Register::C, Register::D] {
        ops.push(Op::PushRegister(r));
        ops.push(Op::PopRegister(r));
    }
    ops
}

#[test]
fn machine_code_from_bytes() {
    let value = Value::from(42);
    let bytes = Vec::from(value);
    let value_again = Value::try_from(&bytes[..]);
    assert_eq!(value, value_again.unwrap())
}

#[test]
fn from_wrong_sized_bytes() {
    let bytes: &[u8] = &[0; 5];
    assert!(Value::try_from(bytes).is_err());
}

#[test]
fn one_plus_three() {
    test_compile_decompile(vec![
        Statement::Op(Op::PushValue(Value(1))),
        Statement::Op(Op::PushValue(Value(2))),
        Statement::Op(Op::Add),
    ]);
}

#[test]
fn calculate_answer() {
    test_compile_decompile(vec![
        Statement::Op(Op::PushValue(Value(41))),
        Statement::Op(Op::PushValue(Value(1))),
        Statement::Op(Op::Add),
    ]);
}

#[test]
fn value_from_bytes() {
    let value = Value::from(42);
    let mut bytes = Vec::new();
    value.compile(&mut bytes);
    let value_again = Value::decompile(&bytes[..]).unwrap().value;
    assert_eq!(value, value_again)
}

#[test]
fn from_three_bytes() {
    let bytes: &[u8] = &[0; 3];
    assert!(Value::decompile(bytes).is_err());
}

#[test]
fn from_five_bytes() {
    let bytes: &[u8] = &[0; 5];
    assert_eq!(4, Value::decompile(bytes).unwrap().bytes_read);
}

#[test]
fn values_are_big_endian_twos_complement() {
    assert_eq!(Value(1).to_bytes(), vec![0, 0, 0, 1]);
    assert_eq!(Value(0x1234_5678).to_bytes(), vec![0x12, 0x34, 0x56, 0x78]);
    assert_eq!(Value(-1).to_bytes(), vec![255, 255, 255, 255]);
    assert_eq!(Value(-2).to_bytes(), vec![255, 255, 255, 254]);
    assert_eq!(Value(i32::MIN).to_bytes(), vec![128, 0, 0, 0]);
    assert_eq!(Value(i32::MAX).to_bytes(), vec![127, 255, 255, 255]);
    for v in [0, 1, -1, 77, -77, 1 << 24, -(1 << 24), i32::MIN, i32::MAX] {
        assert_eq!(Value(v).to_bytes(), v.to_be_bytes().to_vec());
        let decoded = Value::decompile(&v.to_be_bytes()).unwrap();
        assert_eq!(decoded.value, Value(v));
        assert_eq!(decoded.bytes_read, 4);
        assert_eq!(Value::try_from(&v.to_be_bytes()[..]), Ok(Value(v)));
    }
    assert_eq!(Value::try_from(&[0u8; 3][..]), Err(WrongLength { expected: 4, found: 3 }));
    assert_eq!(Value::try_from(&[0u8; 5][..]), Err(WrongLength { expected: 4, found: 5 }));
    assert_eq!(Value::try_from(&[][..]), Err(WrongLength { expected: 4, found: 0 }));
}

#[test]
fn value_end_of_input() {
    for n in 0..4 {
        let bytes = vec![1u8; n];
        assert_eq!(Value::decompile(&bytes).unwrap_err(), EndOfInput { name: "Value" });
    }
}

#[test]
fn compile_appends_to_what_is_there() {
    let mut bytes = vec![9u8, 9];
    Value(1).compile(&mut bytes);
    Register::C.compile(&mut bytes);
    Op::Halt.compile(&mut bytes);
    assert_eq!(bytes, vec![9, 9, 0, 0, 0, 1, 2, 7]);
}

#[test]
fn registers_are_one_byte() {
    let all = [Register::A, Register::B, Register::C, Register::D];
    for (i, r) in all.iter().enumerate() {
        let mut bytes = Vec::new();
        r.compile(&mut bytes);
        assert_eq!(bytes, vec![i as u8]);
        assert_eq!(u8::from(*r), i as u8);
        assert_eq!(r.id(), i as u8);
        let decoded = Register::decompile(&[i as u8, 200]).unwrap();
        assert_eq!(decoded.value, *r);
        assert_eq!(decoded.bytes_read, 1);
    }
    assert_eq!(
        Register::decompile(&[]).unwrap_err(),
        RegisterDecompileError::EndOfInput(EndOfInput { name: "Register" })
    );
    for b in [4u8, 5, 100, 255] {
        assert_eq!(
            Register::decompile(&[b]).unwrap_err(),
            RegisterDecompileError::WrongRegister { register: b }
        );
    }
}

#[test]
fn op_codes_are_zero_to_ten() {
    let codes = [
        OpCode::Add,
        OpCode::Sub,
        OpCode::Mul,
        OpCode::Div,
        OpCode::Mod,
        OpCode::Input,
        OpCode::Output,
        OpCode::Halt,
        OpCode::PushValue,
        OpCode::PushRegister,
        OpCode::PopRegister,
    ];
    for (i, code) in codes.iter().enumerate() {
        assert_eq!(code.byte(), i as u8);
        assert_eq!(u8::from(*code), i as u8);
        assert_eq!(OpCode::try_from(i as u8), Ok(*code));
        let len = match i {
            8 => 5,
            9 | 10 => 2,
            _ => 1,
        };
        assert_eq!(code.op_len(), len);
    }
    for b in 11..=255u8 {
        assert_eq!(OpCode::try_from(b), Err(WrongOpCode { op_code: b }));
    }
    assert_eq!(OpCode::from(Op::PushValue(Value(3))), OpCode::PushValue);
    assert_eq!(OpCode::from(Op::PopRegister(Register::A)), OpCode::PopRegister);
    assert_eq!(OpCode::from(Op::Halt), OpCode::Halt);
}

#[test]
fn ops_have_their_exact_bytes() {
    assert_eq!(bytes_of(Op::Add), vec![0]);
    assert_eq!(bytes_of(Op::Sub), vec![1]);
    assert_eq!(bytes_of(Op::Mul), vec![2]);
    assert_eq!(bytes_of(Op::Div), vec![3]);
    assert_eq!(bytes_of(Op::Mod), vec![4]);
    assert_eq!(bytes_of(Op::Input), vec![5]);
    assert_eq!(bytes_of(Op::Output), vec![6]);
    assert_eq!(bytes_of(Op::Halt), vec![7]);
    assert_eq!(bytes_of(Op::PushValue(Value(258))), vec![8, 0, 0, 1, 2]);
    assert_eq!(bytes_of(Op::PushRegister(Register::D)), vec![9, 3]);
    assert_eq!(bytes_of(Op::PopRegister(Register::B)), vec![10, 1]);
}

#[test]
fn every_op_survives_the_round_trip() {
    for op in all_ops() {
        let mut bytes = bytes_of(op);
        let len = bytes.len();
        assert_eq!(len, OpCode::from(op).op_len());
        bytes.extend_from_slice(&[200, 201]);
        let decoded = Op::decompile(&bytes).unwrap();
        assert_eq!(decoded.value, op);
        assert_eq!(decoded.bytes_read, len);
        assert_eq!(read_op(&bytes), Ok((op, len)));
    }
}

#[test]
fn whole_program_survives_the_round_trip() {
    let statements: Vec<Statement> = all_ops().into_iter().map(Statement::Op).collect();
    let program = Assembly::new(statements.clone());
    let mut bytes = Vec::new();
    program.compile(&mut bytes);
    let decoded = Assembly::decompile(&bytes).unwrap();
    assert_eq!(decoded.bytes_read, bytes.len());
    assert_eq!(decoded.value.statements(), &statements);
}

#[test]
fn empty_input_is_an_empty_program() {
    let decoded = Assembly::decompile(&[]).unwrap();
    assert_eq!(decoded.bytes_read, 0);
    assert!(decoded.value.statements().is_empty());
    let mut bytes = Vec::new();
    Assembly::new(Vec::new()).compile(&mut bytes);
    assert!(bytes.is_empty());
}

#[test]
fn byte_eleven_is_no_op_code() {
    assert_eq!(
        Op::decompile(&[11]).unwrap_err(),
        OpDecompileError::WrongOpCode(WrongOpCode { op_code: 11 })
    );
    assert_eq!(
        read_op(&[11]),
        Err(OpDecompileError::WrongOpCode(WrongOpCode { op_code: 11 }))
    );
    assert_eq!(
        Assembly::decompile(&[11]).unwrap_err(),
        AssemblyDecompileError::OpDecompileError(OpDecompileError::WrongOpCode(WrongOpCode {
            op_code: 11
        }))
    );
}

#[test]
fn truncated_ops_are_end_of_input() {
    assert_eq!(
        Op::decompile(&[]).unwrap_err(),
        OpDecompileError::EndOfInput(EndOfInput { name: "Op" })
    );
    assert_eq!(
        Op::decompile(&[8, 0, 0, 0]).unwrap_err(),
        OpDecompileError::EndOfInput(EndOfInput { name: "Value" })
    );
    assert_eq!(
        Op::decompile(&[9]).unwrap_err(),
        OpDecompileError::RegisterDecompileError(RegisterDecompileError::EndOfInput(EndOfInput {
            name: "Register"
        }))
    );
    assert_eq!(
        Op::decompile(&[10, 9]).unwrap_err(),
        OpDecompileError::RegisterDecompileError(RegisterDecompileError::WrongRegister {
            register: 9
        })
    );
    assert_eq!(
        Assembly::decompile(&[0, 8, 1]).unwrap_err(),
        AssemblyDecompileError::OpDecompileError(OpDecompileError::EndOfInput(EndOfInput {
            name: "Value"
        }))
    );
}
