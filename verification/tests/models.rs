use std::str::FromStr;

use stack_machine::models::{
    ordinal_ending, ArgumentParseError, Assembly, AssemblyParseError, LineWithError, Op, OpParseError,
    OpParseError::WrongOp, Register, Statement, StatementParseError, Value,
};

fn ops_of(assembly: &Assembly) -> Vec<Op> {
    assembly.statements().iter().map(|s| s.op()).collect()
}

#[test]
fn to_and_from_string() {
    let ops = [
        Op::Add,
        Op::Sub,
        Op::Mul,
        Op::Div,
        Op::Mod,
        Op::PushValue(Value::from(42)),
        Op::PushRegister(Register::A),
        Op::PopRegister(Register::C),
    ];

    for op in ops.iter() {
        let restored_op: Op = op.to_string().parse().unwrap();
        assert_eq!(*op, restored_op);
    }
}

#[test]
fn wrong_op_name() {
    assert_eq!(
        Op::from_str("PUSH 1 2 3").unwrap_err(),
        WrongOp {
            op: "PUSH".to_owned(),
            num_args: 3,
        }
    );

    assert_eq!(
        Op::from_str("HELLO WORLD THERE").unwrap_err(),
        WrongOp {
            op: "HELLO".to_owned(),
            num_args: 2,
        }
    );

    assert_eq!(
        Op::from_str("ADD 1").unwrap_err(),
        WrongOp {
            op: "ADD".to_owned(),
            num_args: 1,
        }
    );
}

#[test]
fn wrong_arguments_number() {
    assert_eq!(
        Op::from_str("ADD 1").unwrap_err(),
        OpParseError::WrongOp {
            op: "ADD".into(),
            num_args: 1,
        }
    );

    assert_eq!(
        Op::from_str("PUSH 1 2").unwrap_err(),
        OpParseError::WrongOp {
            op: "PUSH".into(),
            num_args: 2,
        }
    )
}

#[test]
fn failure_wrong_argument() {
    assert_eq!(
        Op::from_str("PUSH hello").unwrap_err(),
        OpParseError::WrongArguments {
            op: "PUSH",
            errors: vec![(1, ArgumentParseError::WrongRegisterOrValue("hello".into()))],
        }
    );

    assert_eq!(
        Op::from_str("POP x").unwrap_err(),
        OpParseError::WrongArguments {
            op: "POP",
            errors: vec![(1, ArgumentParseError::WrongRegister("x".into()))],
        }
    );
}

#[test]
fn every_mnemonic_is_read() {
    assert_eq!(Op::from_str("ADD"), Ok(Op::Add));
    assert_eq!(Op::from_str("SUB"), Ok(Op::Sub));
    assert_eq!(Op::from_str("MUL"), Ok(Op::Mul));
    assert_eq!(Op::from_str("DIV"), Ok(Op::Div));
    assert_eq!(Op::from_str("MOD"), Ok(Op::Mod));
    assert_eq!(Op::from_str("INPUT"), Ok(Op::Input));
    assert_eq!(Op::from_str("OUTPUT"), Ok(Op::Output));
    assert_eq!(Op::from_str("HALT"), Ok(Op::Halt));
    assert_eq!(Op::from_str("PUSH 17"), Ok(Op::PushValue(Value(17))));
    assert_eq!(Op::from_str("PUSH -17"), Ok(Op::PushValue(Value(-17))));
    assert_eq!(Op::from_str("PUSH +17"), Ok(Op::PushValue(Value(17))));
    assert_eq!(Op::from_str("PUSH B"), Ok(Op::PushRegister(Register::B)));
    assert_eq!(Op::from_str("POP D"), Ok(Op::PopRegister(Register::D)));
}

#[test]
fn case_and_white_space_do_not_matter() {
    assert_eq!(Op::from_str("  add  "), Ok(Op::Add));
    assert_eq!(Op::from_str("\tHaLt\r"), Ok(Op::Halt));
    assert_eq!(Op::from_str("push \t  c"), Ok(Op::PushRegister(Register::C)));
    assert_eq!(Op::from_str(" pOp\u{a0}a "), Ok(Op::PopRegister(Register::A)));
    assert_eq!(Op::from_str("Push   0007"), Ok(Op::PushValue(Value(7))));
}

#[test]
fn unknown_operation_names_mnemonic_and_argument_count() {
    assert_eq!(
        Op::from_str("FOO 1 2").unwrap_err(),
        WrongOp { op: "FOO".to_owned(), num_args: 2 }
    );
    assert_eq!(
        Op::from_str("foo").unwrap_err(),
        WrongOp { op: "FOO".to_owned(), num_args: 0 }
    );
    assert_eq!(Op::from_str("PUSH").unwrap_err(), WrongOp { op: "PUSH".to_owned(), num_args: 0 });
    assert_eq!(Op::from_str("POP").unwrap_err(), WrongOp { op: "POP".to_owned(), num_args: 0 });
    assert_eq!(
        Op::from_str("POP A B").unwrap_err(),
        WrongOp { op: "POP".to_owned(), num_args: 2 }
    );
    assert_eq!(Op::from_str("").unwrap_err(), WrongOp { op: String::new(), num_args: 0 });
    assert_eq!(Op::from_str(" \t ").unwrap_err(), WrongOp { op: String::new(), num_args: 0 });
}

#[test]
fn push_takes_integers_in_range_only() {
    assert_eq!(Op::from_str("PUSH 2147483647"), Ok(Op::PushValue(Value(i32::MAX))));
    assert_eq!(Op::from_str("PUSH -2147483648"), Ok(Op::PushValue(Value(i32::MIN))));
    assert_eq!(Op::from_str("PUSH -0"), Ok(Op::PushValue(Value(0))));
    assert_eq!(
        Op::from_str("PUSH 00000000000000000000000000012"),
        Ok(Op::PushValue(Value(12)))
    );
    for bad in [
        "2147483648", "-2147483649", "99999999999999999999999", "1.5", "--1", "+", "-", "1_0",
        "0X10", "0x10", "E", "e", "Hello",
    ] {
        assert_eq!(
            Op::from_str(&format!("PUSH {}", bad)).unwrap_err(),
            OpParseError::WrongArguments {
                op: "PUSH",
                errors: vec![(1, ArgumentParseError::WrongRegisterOrValue(bad.to_owned()))],
            }
        );
    }
    assert_eq!(
        Op::from_str("POP 1").unwrap_err(),
        OpParseError::WrongArguments {
            op: "POP",
            errors: vec![(1, ArgumentParseError::WrongRegister("1".to_owned()))],
        }
    );
}

#[test]
fn values_and_registers_parse_on_their_own() {
    assert_eq!(Value::from_str("42"), Ok(Value(42)));
    assert_eq!("-42".parse::<Value>(), Ok(Value(-42)));
    assert_eq!(Value::from_str(" 42"), Err(ArgumentParseError::WrongValue(" 42".to_owned())));
    assert_eq!(Value::from_str(""), Err(ArgumentParseError::WrongValue(String::new())));
    assert_eq!(Value::from_str("4a"), Err(ArgumentParseError::WrongValue("4a".to_owned())));
    assert_eq!(Register::from_str("A"), Ok(Register::A));
    assert_eq!(Register::from_str(" b\n"), Ok(Register::B));
    assert_eq!("c".parse::<Register>(), Ok(Register::C));
    assert_eq!(Register::from_str("D"), Ok(Register::D));
    assert_eq!(
        Register::from_str("  ab "),
        Err(ArgumentParseError::WrongRegister("  ab ".to_owned()))
    );
    assert_eq!(Register::from_str(""), Err(ArgumentParseError::WrongRegister(String::new())));
    assert_eq!(Value(5).value(), 5);
    assert_eq!(Value::default(), Value(0));
}

#[test]
fn rendering_is_canonical() {
    assert_eq!(Op::Add.to_string(), "ADD");
    assert_eq!(Op::Input.to_string(), "INPUT");
    assert_eq!(Op::Output.to_string(), "OUTPUT");
    assert_eq!(Op::Halt.to_string(), "HALT");
    assert_eq!(Op::PushValue(Value(42)).to_string(), "PUSH 42");
    assert_eq!(Op::PushValue(Value(-7)).to_string(), "PUSH -7");
    assert_eq!(Op::PushValue(Value(0)).to_string(), "PUSH 0");
    assert_eq!(Op::PushValue(Value(i32::MIN)).to_string(), "PUSH -2147483648");
    assert_eq!(Op::PushValue(Value(i32::MAX)).to_string(), "PUSH 2147483647");
    assert_eq!(Op::PushRegister(Register::B).to_string(), "PUSH B");
    assert_eq!(Op::PopRegister(Register::D).to_string(), "POP D");
    assert_eq!(Value(1000).to_string(), "1000");
    assert_eq!(Register::C.to_string(), "C");
    assert_eq!(Statement::Op(Op::Mod).to_string(), "MOD");
}

#[test]
fn program_text_round_trip() {
    let text = "push 5\n\n  pop a\nPUSH A\r\npush a\n   \nadd\noutput\nhalt";
    let assembly = Assembly::from_str(text).unwrap();
    let expected = vec![
        Op::PushValue(Value(5)),
        Op::PopRegister(Register::A),
        Op::PushRegister(Register::A),
        Op::PushRegister(Register::A),
        Op::Add,
        Op::Output,
        Op::Halt,
    ];
    assert_eq!(ops_of(&assembly), expected);
    let rendered = assembly.to_string();
    assert_eq!(rendered, "PUSH 5\nPOP A\nPUSH A\nPUSH A\nADD\nOUTPUT\nHALT\n");
    let again: Assembly = rendered.parse().unwrap();
    assert_eq!(ops_of(&again), expected);
    assert_eq!(again.statements(), assembly.statements());
}

#[test]
fn empty_text_is_an_empty_program() {
    assert!(Assembly::from_str("").unwrap().statements().is_empty());
    assert!(Assembly::from_str("\n\n  \n\t\n").unwrap().statements().is_empty());
    assert_eq!(Assembly::new(Vec::new()).to_string(), "");
}

#[test]
fn all_line_errors_are_reported_with_line_numbers() {
    let error = Assembly::from_str("FOO 1 2\nPOP x").unwrap_err();
    assert_eq!(
        error,
        AssemblyParseError {
            errors: vec![
                LineWithError {
                    line: 1,
                    error: StatementParseError::OpError(WrongOp {
                        op: "FOO".to_owned(),
                        num_args: 2
                    }),
                },
                LineWithError {
                    line: 2,
                    error: StatementParseError::OpError(OpParseError::WrongArguments {
                        op: "POP",
                        errors: vec![(1, ArgumentParseError::WrongRegister("x".to_owned()))],
                    }),
                },
            ],
        }
    );
}

#[test]
fn blank_lines_count_for_line_numbers() {
    let error = Assembly::from_str("add\n\n   \nbar\npush 1\n\npush q\n").unwrap_err();
    let lines: Vec<usize> = error.errors.iter().map(|e| e.line).collect();
    assert_eq!(lines, vec![4, 7]);
    assert_eq!(
        error.errors[1].error,
        StatementParseError::OpError(OpParseError::WrongArguments {
            op: "PUSH",
            errors: vec![(1, ArgumentParseError::WrongRegisterOrValue("q".to_owned()))],
        })
    );
    assert_eq!(
        Statement::from_str("bar").unwrap_err(),
        StatementParseError::OpError(WrongOp { op: "BAR".to_owned(), num_args: 0 })
    );
    assert_eq!(
        StatementParseError::from(WrongOp { op: "X".to_owned(), num_args: 1 }),
        StatementParseError::OpError(WrongOp { op: "X".to_owned(), num_args: 1 })
    );
}

#[test]
fn ordinals_have_their_endings() {
    let cases = [
        (0, "th"),
        (1, "st"),
        (2, "nd"),
        (3, "rd"),
        (4, "th"),
        (10, "th"),
        (11, "th"),
        (12, "th"),
        (13, "th"),
        (14, "th"),
        (21, "st"),
        (22, "nd"),
        (23, "rd"),
        (101, "st"),
        (111, "th"),
        (112, "th"),
        (113, "th"),
        (121, "st"),
        (1003, "rd"),
    ];
    for (n, ending) in cases {
        assert_eq!(ordinal_ending(n), ending, "{}", n);
    }
}

#[test]
fn errors_are_put_in_words() {
    assert_eq!(
        ArgumentParseError::WrongRegister("X".to_owned()).message(),
        "Expected register A, B, C or D, got: X"
    );
    assert_eq!(
        ArgumentParseError::WrongValue("1x".to_owned()).message(),
        "Expected integer with radix 10, got: 1x"
    );
    assert_eq!(
        ArgumentParseError::WrongRegisterOrValue("Q".to_owned()).message(),
        "Expected integer or register, got: Q"
    );
    assert_eq!(
        Op::from_str("FOO 1 2").unwrap_err().message(),
        "Unknown operation FOO with 2 arguments"
    );
    assert_eq!(
        Op::from_str("pop x").unwrap_err().message(),
        "Errors occured when parsing operation POP:\n  1st argument: Expected register A, B, C or D, got: x\n"
    );
    assert_eq!(
        Op::from_str("push 1.5").unwrap_err().message(),
        "Errors occured when parsing operation PUSH:\n  1st argument: Expected integer or register, got: 1.5\n"
    );
    let many = OpParseError::WrongArguments {
        op: "OP",
        errors: vec![
            (1, ArgumentParseError::WrongValue("a".to_owned())),
            (2, ArgumentParseError::WrongRegister("b".to_owned())),
            (3, ArgumentParseError::WrongValue("c".to_owned())),
            (11, ArgumentParseError::WrongValue("d".to_owned())),
            (21, ArgumentParseError::WrongValue("e".to_owned())),
            (usize::MAX, ArgumentParseError::WrongValue("f".to_owned())),
        ],
    };
    let last = format!("  {}th argument: ", usize::MAX);
    assert_eq!(
        many.message(),
        format!(
            "Errors occured when parsing operation OP:\n{}{}{}{}{}{}Expected integer with radix 10, got: f\n",
            "  1st argument: Expected integer with radix 10, got: a\n",
            "  2nd argument: Expected register A, B, C or D, got: b\n",
            "  3rd argument: Expected integer with radix 10, got: c\n",
            "  11th argument: Expected integer with radix 10, got: d\n",
            "  21st argument: Expected integer with radix 10, got: e\n",
            last
        )
    );
    assert_eq!(
        StatementParseError::OpError(WrongOp { op: "X".to_owned(), num_args: 0 }).message(),
        "Unknown operation X with 0 arguments"
    );
    let error = Assembly::from_str("FOO 1 2\n\nPOP x").unwrap_err();
    assert_eq!(
        error.message(),
        format!(
            "{}{}{}",
            "2 errors occured when parsing assembly:\n",
            "Line 1: Unknown operation FOO with 2 arguments\n",
            "Line 3: Errors occured when parsing operation POP:\n  1st argument: Expected register A, B, C or D, got: x\n\n"
        )
    );
    assert_eq!(
        AssemblyParseError { errors: Vec::new() }.message(),
        "0 errors occured when parsing assembly:\n"
    );
}

#[test]
fn results_are_parted_in_order() {
    let results: Vec<Result<i32, &str>> = vec![Ok(1), Err("a"), Ok(2), Ok(3), Err("b")];
    assert_eq!(
        stack_machine::models::partition_results(results),
        (vec![1], vec!["a", "b"])
    );
    let all: Vec<Result<i32, &str>> = vec![Ok(1), Ok(2), Ok(3)];
    assert_eq!(stack_machine::models::partition_results(all), (vec![1, 2, 3], Vec::new()));
    let late: Vec<Result<i32, &str>> = vec![Ok(1), Ok(2), Err("x"), Ok(3), Err("y"), Ok(4)];
    assert_eq!(stack_machine::models::partition_results(late), (vec![1, 2], vec!["x", "y"]));
    let early: Vec<Result<i32, &str>> = vec![Err("x"), Ok(3)];
    assert_eq!(stack_machine::models::partition_results(early), (Vec::new(), vec!["x"]));
    let none: Vec<Result<i32, &str>> = Vec::new();
    assert_eq!(stack_machine::models::partition_results(none), (Vec::new(), Vec::new()));
}

#[test]
fn letters_beyond_ascii_take_their_unicode_capitals() {
    assert_eq!(
        Op::from_str("\u{e9}t\u{e9} 1").unwrap_err(),
        WrongOp { op: "\u{c9}T\u{c9}".to_owned(), num_args: 1 }
    );
    assert_eq!(
        Op::from_str("stra\u{df}e").unwrap_err(),
        WrongOp { op: "STRASSE".to_owned(), num_args: 0 }
    );
    assert_eq!(Op::from_str("\u{131}nput"), Ok(Op::Input));
    assert_eq!(Op::from_str("pu\u{17f}h 12"), Ok(Op::PushValue(Value(12))));
    assert_eq!(
        Op::from_str("push \u{3b1}").unwrap_err(),
        OpParseError::WrongArguments {
            op: "PUSH",
            errors: vec![(1, ArgumentParseError::WrongRegisterOrValue("\u{3b1}".to_owned()))],
        }
    );
    assert_eq!(
        Register::from_str("\u{e9}"),
        Err(ArgumentParseError::WrongRegister("\u{e9}".to_owned()))
    );
    for line in ["push a", "Pop  d", "halt", "foo BAR", "PUSH 1X", "a\tB~C{D}"] {
        let ours = Op::from_str(line).map_err(|e| e.message());
        let name = line.split_whitespace().next().unwrap();
        let upper = Op::from_str(&line.replacen(name, &name.to_uppercase(), 1));
        assert_eq!(ours, upper.map_err(|e| e.message()));
    }
}

#[test]
fn arguments_are_kept_as_they_were_written() {
    assert_eq!(
        Op::from_str("push Hello").unwrap_err(),
        OpParseError::WrongArguments {
            op: "PUSH",
            errors: vec![(1, ArgumentParseError::WrongRegisterOrValue("Hello".to_owned()))],
        }
    );
    assert_eq!(
        Op::from_str("  pOp \t xY  ").unwrap_err(),
        OpParseError::WrongArguments {
            op: "POP",
            errors: vec![(1, ArgumentParseError::WrongRegister("xY".to_owned()))],
        }
    );
    assert_eq!(
        Op::from_str("foo bar Baz").unwrap_err(),
        WrongOp { op: "FOO".to_owned(), num_args: 2 }
    );
    assert_eq!(
        Op::from_str("push hello").unwrap_err().message(),
        "Errors occured when parsing operation PUSH:\n  1st argument: Expected integer or register, got: hello\n"
    );
    assert_eq!(Op::from_str("push b"), Ok(Op::PushRegister(Register::B)));
    assert_eq!(Op::from_str("POP c"), Ok(Op::PopRegister(Register::C)));
    assert_eq!(
        Op::from_name(&['P', 'U', 'S', 'H'], &[vec!['d']]),
        Ok(Op::PushRegister(Register::D))
    );
    assert_eq!(
        Op::from_name(&['p', 'u', 's', 'h'], &[vec!['d']]).unwrap_err(),
        WrongOp { op: "push".to_owned(), num_args: 1 }
    );
    assert_eq!(Op::from_name(&['H', 'A', 'L', 'T'], &[]), Ok(Op::Halt));
}
