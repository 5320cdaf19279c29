use vstd::prelude::*;
use crate::text::{digits, push_number};

verus! {

/// Why an argument of an operation could not be read. Each case holds the
/// text that was found, as it was written.
#[derive(Debug, PartialEq, Eq)]
pub enum ArgumentParseError {
    /// A register was expected.
    WrongRegister(String),
    /// An integer was expected.
    WrongValue(String),
    /// A register or an integer was expected.
    WrongRegisterOrValue(String),
}

/// An `ArgumentParseError` as plain values.
pub enum ArgumentFault {
    WrongRegister(Seq<char>),
    WrongValue(Seq<char>),
    WrongRegisterOrValue(Seq<char>),
}

impl View for ArgumentParseError {
    type V = ArgumentFault;

    open spec fn view(&self) -> ArgumentFault {
        match self {
            ArgumentParseError::WrongRegister(text) => ArgumentFault::WrongRegister(text@),
            ArgumentParseError::WrongValue(text) => ArgumentFault::WrongValue(text@),
            ArgumentParseError::WrongRegisterOrValue(text) => ArgumentFault::WrongRegisterOrValue(
                text@,
            ),
        }
    }
}

/// Why a line could not be read as an operation.
#[derive(Debug, PartialEq, Eq)]
#[allow(inconsistent_fields)]
pub enum OpParseError {
    /// The operation `op` is known, but the arguments at the given positions
    /// are not what it takes. The first argument has the position 1.
    WrongArguments { op: &'static str, errors: Vec<(usize, ArgumentParseError)> },
    /// No operation has the name `op`, which is in capitals, and takes
    /// `num_args` arguments.
    WrongOp { op: String, num_args: usize },
}

/// An `OpParseError` as plain values.
pub enum OpFault {
    WrongArguments { op: Seq<char>, errors: Seq<(nat, ArgumentFault)> },
    WrongOp { op: Seq<char>, num_args: nat },
}

/// The argument errors of `errors` as plain values, in order.
pub open spec fn argument_faults(errors: Seq<(usize, ArgumentParseError)>) -> Seq<
    (nat, ArgumentFault),
> {
    Seq::new(errors.len(), |i: int| (errors[i].0 as nat, errors[i].1@))
}

impl View for OpParseError {
    type V = OpFault;

    open spec fn view(&self) -> OpFault {
        match self {
            OpParseError::WrongArguments { op, errors } => OpFault::WrongArguments {
                op: op@,
                errors: argument_faults(errors@),
            },
            OpParseError::WrongOp { op, num_args } => OpFault::WrongOp {
                op: op@,
                num_args: *num_args as nat,
            },
        }
    }
}

/// Why a line could not be read as a statement.
#[derive(Debug, PartialEq, Eq)]
pub enum StatementParseError {
    /// The line is no operation.
    OpError(OpParseError),
}

/// A `StatementParseError` as plain values.
pub enum StatementFault {
    OpError(OpFault),
}

impl View for StatementParseError {
    type V = StatementFault;

    open spec fn view(&self) -> StatementFault {
        match self {
            StatementParseError::OpError(e) => StatementFault::OpError(e@),
        }
    }
}

impl From<OpParseError> for StatementParseError {
    fn from(error: OpParseError) -> (r: StatementParseError) {
        StatementParseError::OpError(error)
    }
}

impl vstd::std_specs::convert::FromSpecImpl<OpParseError> for StatementParseError {
    open spec fn obeys_from_spec() -> bool {
        true
    }

    open spec fn from_spec(error: OpParseError) -> StatementParseError {
        StatementParseError::OpError(error)
    }
}

/// The error of one line of a program.
#[derive(Debug, PartialEq, Eq)]
pub struct LineWithError {
    /// The number of the line in the text. The first line has the number 1,
    /// and empty lines are counted.
    pub line: usize,
    /// What is wrong with the line.
    pub error: StatementParseError,
}

/// A `LineWithError` as plain values.
pub struct LineFault {
    pub line: nat,
    pub error: StatementFault,
}

impl View for LineWithError {
    type V = LineFault;

    open spec fn view(&self) -> LineFault {
        LineFault { line: self.line as nat, error: self.error@ }
    }
}

/// The line errors of `errors` as plain values, in order.
pub open spec fn line_faults(errors: Seq<LineWithError>) -> Seq<LineFault> {
    errors.map_values(|e: LineWithError| e@)
}

/// All the errors of a program text, in the order of their lines.
#[derive(Debug, PartialEq, Eq)]
pub struct AssemblyParseError {
    pub errors: Vec<LineWithError>,
}

impl View for AssemblyParseError {
    type V = Seq<LineFault>;

    open spec fn view(&self) -> Seq<LineFault> {
        line_faults(self.errors@)
    }
}

/// The ending that makes an ordinal of the number `n`: `st`, `nd` or `rd`
/// after a last digit of 1, 2 or 3, but `th` for the numbers that end in 11,
/// 12 or 13 and for all the others.
pub open spec fn ordinal_suffix(n: nat) -> Seq<char> {
    if 11 <= n % 100 <= 13 {
        "th"@
    } else if n % 10 == 1 {
        "st"@
    } else if n % 10 == 2 {
        "nd"@
    } else if n % 10 == 3 {
        "rd"@
    } else {
        "th"@
    }
}

/// The ending that makes an ordinal of the number `n`.
pub fn ordinal_ending(n: u128) -> (r: &'static str)
    ensures
        r@ == ordinal_suffix(n as nat),
{
    let tens = n % 100;
    let ones = n % 10;
    if 11 <= tens && tens <= 13 {
        "th"
    } else if ones == 1 {
        "st"
    } else if ones == 2 {
        "nd"
    } else if ones == 3 {
        "rd"
    } else {
        "th"
    }
}

impl ArgumentFault {
    /// The error in words: what was expected, and the text that was found.
    pub open spec fn message(self) -> Seq<char> {
        match self {
            ArgumentFault::WrongRegister(text) => "Expected register A, B, C or D, got: "@ + text,
            ArgumentFault::WrongValue(text) => "Expected integer with radix 10, got: "@ + text,
            ArgumentFault::WrongRegisterOrValue(text) => "Expected integer or register, got: "@
                + text,
        }
    }
}

impl ArgumentParseError {
    /// The error in words.
    pub fn message(&self) -> (r: String)
        ensures
            r@ == self@.message(),
    {
        let mut r = String::new();
        match self {
            ArgumentParseError::WrongRegister(text) => {
                r.append("Expected register A, B, C or D, got: ");
                r.append(text.as_str());
            },
            ArgumentParseError::WrongValue(text) => {
                r.append("Expected integer with radix 10, got: ");
                r.append(text.as_str());
            },
            ArgumentParseError::WrongRegisterOrValue(text) => {
                r.append("Expected integer or register, got: ");
                r.append(text.as_str());
            },
        }
        assert(r@ =~= self@.message());
        r
    }
}

/// One line for the argument at position `fault.0`: two spaces, the position
/// as an ordinal, and the error in words.
pub open spec fn argument_line(fault: (nat, ArgumentFault)) -> Seq<char> {
    "  "@ + digits(fault.0) + ordinal_suffix(fault.0) + " argument: "@ + fault.1.message()
        + "\n"@
}

/// The lines of all the argument errors, in order.
pub open spec fn argument_lines(faults: Seq<(nat, ArgumentFault)>) -> Seq<char>
    decreases faults.len(),
{
    if faults.len() == 0 {
        Seq::empty()
    } else {
        argument_lines(faults.drop_last()) + argument_line(faults.last())
    }
}

impl OpFault {
    /// The error in words. For a known operation: a heading that names it,
    /// and a line for each argument that is wrong. For an unknown one: its
    /// name and the number of arguments found.
    pub open spec fn message(self) -> Seq<char> {
        match self {
            OpFault::WrongArguments { op, errors } => "Errors occured when parsing operation "@
                + op + ":\n"@ + argument_lines(errors),
            OpFault::WrongOp { op, num_args } => "Unknown operation "@ + op + " with "@ + digits(
                num_args,
            ) + " arguments"@,
        }
    }
}

impl OpParseError {
    /// The error in words.
    pub fn message(&self) -> (r: String)
        ensures
            r@ == self@.message(),
    {
        let mut r = String::new();
        match self {
            OpParseError::WrongArguments { op, errors } => {
                r.append("Errors occured when parsing operation ");
                r.append(op);
                r.append(":\n");
                let ghost head = r@;
                let ghost faults = argument_faults(errors@);
                let mut i: usize = 0;
                assert(faults.take(0) =~= Seq::<(nat, ArgumentFault)>::empty());
                assert(r@ =~= head + argument_lines(faults.take(0)));
                while i < errors.len()
                    invariant
                        i <= errors.len(),
                        faults == argument_faults(errors@),
                        r@ == head + argument_lines(faults.take(i as int)),
                    decreases errors.len() - i,
                {
                    let ghost before = r@;
                    let number: u128 = errors[i].0 as u128;
                    r.append("  ");
                    push_number(&mut r, number);
                    r.append(ordinal_ending(number));
                    r.append(" argument: ");
                    r.append(errors[i].1.message().as_str());
                    r.append("\n");
                    proof {
                        let next = faults.take(i + 1);
                        assert(next.drop_last() =~= faults.take(i as int));
                        assert(next.last() == faults[i as int]);
                        assert(r@ =~= before + argument_line(faults[i as int]));
                        assert(r@ =~= head + argument_lines(next));
                    }
                    i += 1;
                }
                assert(faults.take(i as int) =~= faults);
            },
            OpParseError::WrongOp { op, num_args } => {
                r.append("Unknown operation ");
                r.append(op.as_str());
                r.append(" with ");
                push_number(&mut r, *num_args as u128);
                r.append(" arguments");
                assert(r@ =~= self@.message());
            },
        }
        r
    }
}

impl StatementFault {
    /// The error in words: that of the operation.
    pub open spec fn message(self) -> Seq<char> {
        match self {
            StatementFault::OpError(e) => e.message(),
        }
    }
}

impl StatementParseError {
    /// The error in words.
    pub fn message(&self) -> (r: String)
        ensures
            r@ == self@.message(),
    {
        match self {
            StatementParseError::OpError(e) => e.message(),
        }
    }
}

/// One line for the error of one line of a program: the number of the line,
/// and the error in words.
pub open spec fn fault_line(fault: LineFault) -> Seq<char> {
    "Line "@ + digits(fault.line) + ": "@ + fault.error.message() + "\n"@
}

/// The lines of all the line errors, in order.
pub open spec fn fault_lines(faults: Seq<LineFault>) -> Seq<char>
    decreases faults.len(),
{
    if faults.len() == 0 {
        Seq::empty()
    } else {
        fault_lines(faults.drop_last()) + fault_line(faults.last())
    }
}

/// All the errors of a program text in words: a heading with their number,
/// and a line for each.
pub open spec fn faults_message(faults: Seq<LineFault>) -> Seq<char> {
    digits(faults.len()) + " errors occured when parsing assembly:\n"@ + fault_lines(faults)
}

impl AssemblyParseError {
    /// The errors in words.
    pub fn message(&self) -> (r: String)
        ensures
            r@ == faults_message(self@),
    {
        let mut r = String::new();
        push_number(&mut r, self.errors.len() as u128);
        r.append(" errors occured when parsing assembly:\n");
        let ghost head = r@;
        let ghost faults = self@;
        let mut i: usize = 0;
        assert(faults.take(0) =~= Seq::<LineFault>::empty());
        assert(r@ =~= head + fault_lines(faults.take(0)));
        while i < self.errors.len()
            invariant
                i <= self.errors.len(),
                faults == self@,
                r@ == head + fault_lines(faults.take(i as int)),
            decreases self.errors.len() - i,
        {
            let ghost before = r@;
            r.append("Line ");
            push_number(&mut r, self.errors[i].line as u128);
            r.append(": ");
            r.append(self.errors[i].error.message().as_str());
            r.append("\n");
            proof {
                let next = faults.take(i + 1);
                assert(next.drop_last() =~= faults.take(i as int));
                assert(next.last() == self.errors@[i as int]@);
                assert(r@ =~= before + fault_line(faults[i as int]));
                assert(r@ =~= head + fault_lines(next));
            }
            i += 1;
        }
        assert(faults.take(i as int) =~= faults);
        r
    }
}

} // verus!
