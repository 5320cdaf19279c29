use vstd::prelude::*;
use vstd::slice::slice_subrange;
use crate::text::{capitals, chars_of, is_text, split_words, string_of, texts, to_capitals, words};
use super::{ArgumentFault, ArgumentParseError, OpFault, OpParseError, Register, Value};

verus! {

broadcast use vstd::string::group_string_axioms;

/// One instruction of the machine.
#[derive(Clone, Copy, Debug, PartialEq, Eq, Structural)]
pub enum Op {
    Add,
    Sub,
    Mul,
    Div,
    Mod,
    Input,
    Output,
    Halt,
    PushValue(Value),
    PushRegister(Register),
    PopRegister(Register),
}

/// What the argument of `PUSH` stands for: a value where it is an integer,
/// else a register where it names one. The error holds the position of the
/// argument, counted from 1, and its text as it was written.
pub open spec fn parse_push_spec(arg: Seq<char>) -> Result<Op, OpFault> {
    match Value::parsing(arg) {
        Ok(v) => Ok(Op::PushValue(v)),
        Err(_) => match Register::parsing(arg) {
            Ok(r) => Ok(Op::PushRegister(r)),
            Err(_) => Err(
                OpFault::WrongArguments {
                    op: "PUSH"@,
                    errors: seq![(1nat, ArgumentFault::WrongRegisterOrValue(arg))],
                },
            ),
        },
    }
}

/// What the argument of `POP` stands for: the register that it names. The
/// error holds the position of the argument, counted from 1, and its text as
/// it was written.
pub open spec fn parse_pop_spec(arg: Seq<char>) -> Result<Op, OpFault> {
    match Register::parsing(arg) {
        Ok(r) => Ok(Op::PopRegister(r)),
        Err(e) => Err(OpFault::WrongArguments { op: "POP"@, errors: seq![(1nat, e)] }),
    }
}

/// The operation without arguments that has the name `name`.
pub open spec fn nullary(name: Seq<char>) -> Option<Op> {
    if name == "ADD"@ {
        Some(Op::Add)
    } else if name == "SUB"@ {
        Some(Op::Sub)
    } else if name == "MUL"@ {
        Some(Op::Mul)
    } else if name == "DIV"@ {
        Some(Op::Div)
    } else if name == "MOD"@ {
        Some(Op::Mod)
    } else if name == "INPUT"@ {
        Some(Op::Input)
    } else if name == "OUTPUT"@ {
        Some(Op::Output)
    } else if name == "HALT"@ {
        Some(Op::Halt)
    } else {
        None
    }
}

/// The operation that has the name `name`, written in capitals, and the
/// arguments `args`. A name that is unknown, or known with another number of
/// arguments, gives the error that holds the name and the number of
/// arguments found.
pub open spec fn parse_named(name: Seq<char>, args: Seq<Seq<char>>) -> Result<Op, OpFault> {
    if args.len() == 0 && nullary(name) is Some {
        Ok(nullary(name).unwrap())
    } else if args.len() == 1 && name == "PUSH"@ {
        parse_push_spec(args[0])
    } else if args.len() == 1 && name == "POP"@ {
        parse_pop_spec(args[0])
    } else {
        Err(OpFault::WrongOp { op: name, num_args: args.len() })
    }
}

/// The operation that the words `w` stand for: the first, put in capitals,
/// is its name, and the others are its arguments as they were written. No
/// word at all counts as an empty name.
pub open spec fn parse_words(w: Seq<Seq<char>>) -> Result<Op, OpFault> {
    if w.len() == 0 {
        Err(OpFault::WrongOp { op: Seq::empty(), num_args: 0 })
    } else {
        parse_named(capitals(w[0]), w.skip(1))
    }
}

/// Reads the argument of `PUSH`.
fn parse_push(arg: &[char]) -> (r: Result<Op, OpParseError>)
    ensures
        match r {
            Ok(op) => parse_push_spec(arg@) == Ok::<Op, OpFault>(op),
            Err(e) => parse_push_spec(arg@) == Err::<Op, OpFault>(e@),
        },
{
    if let Ok(value) = Value::from_chars(arg) {
        Ok(Op::PushValue(value))
    } else if let Ok(register) = Register::from_chars(arg) {
        Ok(Op::PushRegister(register))
    } else {
        let mut errors: Vec<(usize, ArgumentParseError)> = Vec::new();
        errors.push((1, ArgumentParseError::WrongRegisterOrValue(string_of(arg))));
        let e = OpParseError::WrongArguments { op: "PUSH", errors };
        assert(e@ =~= parse_push_spec(arg@)->Err_0) by {
            assert(e@->WrongArguments_errors =~= seq![
                (1nat, ArgumentFault::WrongRegisterOrValue(arg@)),
            ]);
        }
        Err(e)
    }
}

/// Reads the argument of `POP`.
fn parse_pop(arg: &[char]) -> (r: Result<Op, OpParseError>)
    ensures
        match r {
            Ok(op) => parse_pop_spec(arg@) == Ok::<Op, OpFault>(op),
            Err(e) => parse_pop_spec(arg@) == Err::<Op, OpFault>(e@),
        },
{
    match Register::from_chars(arg) {
        Ok(register) => Ok(Op::PopRegister(register)),
        Err(err) => {
            let ghost fault = err@;
            let mut errors: Vec<(usize, ArgumentParseError)> = Vec::new();
            errors.push((1, err));
            let e = OpParseError::WrongArguments { op: "POP", errors };
            assert(e@ =~= parse_pop_spec(arg@)->Err_0) by {
                assert(e@->WrongArguments_errors =~= seq![(1nat, fault)]);
            }
            Err(e)
        },
    }
}

/// The operation without arguments that has the name `name`.
fn nullary_op(name: &[char]) -> (r: Option<Op>)
    ensures
        r == nullary(name@),
{
    if is_text(name, "ADD") {
        Some(Op::Add)
    } else if is_text(name, "SUB") {
        Some(Op::Sub)
    } else if is_text(name, "MUL") {
        Some(Op::Mul)
    } else if is_text(name, "DIV") {
        Some(Op::Div)
    } else if is_text(name, "MOD") {
        Some(Op::Mod)
    } else if is_text(name, "INPUT") {
        Some(Op::Input)
    } else if is_text(name, "OUTPUT") {
        Some(Op::Output)
    } else if is_text(name, "HALT") {
        Some(Op::Halt)
    } else {
        None
    }
}

impl Op {
    /// What reading the line `line` as an operation gives. White space of
    /// any length separates the name of the operation from its arguments.
    /// In the name small letters count as capitals; the arguments are taken
    /// as they were written.
    pub open spec fn parsing(line: Seq<char>) -> Result<Op, OpFault> {
        parse_words(words(line))
    }

    /// The name of the operation.
    pub open spec fn mnemonic(self) -> Seq<char> {
        match self {
            Op::Add => "ADD"@,
            Op::Sub => "SUB"@,
            Op::Mul => "MUL"@,
            Op::Div => "DIV"@,
            Op::Mod => "MOD"@,
            Op::Input => "INPUT"@,
            Op::Output => "OUTPUT"@,
            Op::Halt => "HALT"@,
            Op::PushValue(_) | Op::PushRegister(_) => "PUSH"@,
            Op::PopRegister(_) => "POP"@,
        }
    }

    /// The operation as text: its name and, after one space, its argument
    /// where it has one, a value in decimal notation and a register by its
    /// letter.
    pub open spec fn text(self) -> Seq<char> {
        match self {
            Op::PushValue(v) => self.mnemonic() + " "@ + v.text(),
            Op::PushRegister(r) | Op::PopRegister(r) => self.mnemonic() + " "@ + r.text(),
            _ => self.mnemonic(),
        }
    }

    /// Reads the characters `line` as an operation.
    pub fn from_chars(line: &[char]) -> (r: Result<Op, OpParseError>)
        ensures
            match r {
                Ok(op) => Op::parsing(line@) == Ok::<Op, OpFault>(op),
                Err(e) => Op::parsing(line@) == Err::<Op, OpFault>(e@),
            },
    {
        let w = split_words(line);
        if w.len() == 0 {
            return Err(OpParseError::WrongOp { op: String::new(), num_args: 0 });
        }
        assert(w@[0]@ == texts(w@)[0]);
        let name = to_capitals(w[0].as_slice());
        let args = slice_subrange(w.as_slice(), 1, w.len());
        assert(texts(args@) =~= texts(w@).skip(1));
        Op::from_name(name.as_slice(), args)
    }

    /// The operation that has the name `name`, written in capitals, and the
    /// arguments `args`.
    pub fn from_name(name: &[char], args: &[Vec<char>]) -> (r: Result<Op, OpParseError>)
        ensures
            match r {
                Ok(op) => parse_named(name@, texts(args@)) == Ok::<Op, OpFault>(op),
                Err(e) => parse_named(name@, texts(args@)) == Err::<Op, OpFault>(e@),
            },
    {
        assert(forall|i: int| 0 <= i < args@.len() ==> (#[trigger] args@[i])@ == texts(args@)[i]);
        if args.len() == 0 {
            if let Some(op) = nullary_op(name) {
                return Ok(op);
            }
        }
        if args.len() == 1 && is_text(name, "PUSH") {
            return parse_push(args[0].as_slice());
        }
        if args.len() == 1 && is_text(name, "POP") {
            return parse_pop(args[0].as_slice());
        }
        Err(OpParseError::WrongOp { op: string_of(name), num_args: args.len() })
    }

    /// Reads the line `s` as an operation.
    pub fn from_str(s: &str) -> (r: Result<Op, OpParseError>)
        ensures
            match r {
                Ok(op) => Op::parsing(s@) == Ok::<Op, OpFault>(op),
                Err(e) => Op::parsing(s@) == Err::<Op, OpFault>(e@),
            },
    {
        Op::from_chars(chars_of(s).as_slice())
    }

    /// The operation as text.
    pub fn to_string(&self) -> (r: String)
        ensures
            r@ == self.text(),
    {
        let mut r = String::new();
        match self {
            Op::Add => r.append("ADD"),
            Op::Sub => r.append("SUB"),
            Op::Mul => r.append("MUL"),
            Op::Div => r.append("DIV"),
            Op::Mod => r.append("MOD"),
            Op::Input => r.append("INPUT"),
            Op::Output => r.append("OUTPUT"),
            Op::Halt => r.append("HALT"),
            Op::PushValue(v) => {
                r.append("PUSH");
                r.append(" ");
                r.append(v.to_string().as_str());
            },
            Op::PushRegister(register) => {
                r.append("PUSH");
                r.append(" ");
                r.append(register.name());
            },
            Op::PopRegister(register) => {
                r.append("POP");
                r.append(" ");
                r.append(register.name());
            },
        }
        assert(r@ =~= self.text());
        r
    }
}

impl core::str::FromStr for Op {
    type Err = OpParseError;

    fn from_str(s: &str) -> (r: Result<Op, OpParseError>)
        ensures
            match r {
                Ok(op) => Op::parsing(s@) == Ok::<Op, OpFault>(op),
                Err(e) => Op::parsing(s@) == Err::<Op, OpFault>(e@),
            },
    {
        Op::from_str(s)
    }
}

} // verus!
