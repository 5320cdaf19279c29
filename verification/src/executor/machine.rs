use std::collections::VecDeque;
use vstd::prelude::*;
use vstd::slice::slice_subrange;
use crate::machine_code::{Decompile, OpCode};
use crate::models::{Op, Value};
use crate::text::{chars_of, decimal, decimal_of, parse_i32, parse_number, push_chars};
use super::{ExecutionError, InputError, Registers, Stack};

verus! {

/// What the input operation writes before it reads its first line, unless
/// the machine is told otherwise.
pub const PROMPT: &'static str = "Enter number: ";

/// What the input operation writes before it reads another line, unless the
/// machine is told otherwise.
pub const RETRY: &'static str = "Try again: ";

/// How the input operation asks for a number.
#[derive(Debug)]
pub struct InputConfig {
    /// What is written before the first line is read.
    pub prompt: String,
    /// What is written before another line is read, after one that is no
    /// integer.
    pub retry: String,
    /// After how many retries the operation gives up; never, where there is
    /// no limit.
    pub max_retries: Option<usize>,
}

/// An `InputConfig` as plain values.
pub struct InputRules {
    pub prompt: Seq<char>,
    pub retry: Seq<char>,
    pub max_retries: Option<nat>,
}

impl View for InputConfig {
    type V = InputRules;

    open spec fn view(&self) -> InputRules {
        InputRules {
            prompt: self.prompt@,
            retry: self.retry@,
            max_retries: match self.max_retries {
                Some(m) => Some(m as nat),
                None => None,
            },
        }
    }
}

impl InputRules {
    /// The rules of a machine that was told nothing: the two standard
    /// messages, and no limit on the retries.
    pub open spec fn standard() -> InputRules {
        InputRules { prompt: PROMPT@, retry: RETRY@, max_retries: None }
    }

    /// Whether one more retry is allowed after `used` retries.
    pub open spec fn allows(self, used: nat) -> bool {
        match self.max_retries {
            Some(m) => used < m,
            None => true,
        }
    }

    /// The number of retries that `rejected` lines lead to: one for each,
    /// up to the limit.
    pub open spec fn retries_for(self, rejected: nat) -> nat {
        match self.max_retries {
            Some(m) => if rejected < m {
                rejected
            } else {
                m
            },
            None => rejected,
        }
    }
}

impl Default for InputConfig {
    fn default() -> (r: InputConfig)
        ensures
            r@ == InputRules::standard(),
    {
        InputConfig { prompt: PROMPT.to_owned(), retry: RETRY.to_owned(), max_retries: None }
    }
}

/// What became of a line that was handed to the input operation.
#[derive(Clone, Copy, Debug, PartialEq, Eq, Structural)]
pub enum LineOutcome {
    /// The line is an integer, which was pushed.
    Accepted,
    /// The line is no integer; the retry message was written, and another
    /// line is wanted.
    Retry,
    /// The line is no integer, and no retry is left.
    Failed,
}

/// What to do after an operation that succeeded.
#[derive(Clone, Copy, Debug, PartialEq, Eq, Structural)]
pub enum NextOperation {
    /// Go on with the operation that stands this many bytes further.
    Offset(isize),
    /// The program has ended.
    End,
}

/// One machine: its registers and stack, the lines that its input still
/// holds, the text that it has written to its output, and how its input
/// operation asks for a number. A line of input is held without the line
/// feed or carriage return that ended it: the input operation reads a line
/// as it stands, so that `42` is an integer and `42` with a line feed after it
/// is not.
pub struct Machine {
    pub registers: Registers,
    pub stack: Stack,
    pub input: VecDeque<String>,
    pub output: String,
    pub config: InputConfig,
}

/// The state of a machine as plain values.
pub struct State {
    /// What the four registers hold, in the order of their numbers.
    pub registers: Seq<i32>,
    /// The stack, its top last.
    pub stack: Seq<i32>,
    /// The lines not yet read, the next one first. Each is a line without the
    /// line feed or carriage return that ended it.
    pub input: Seq<Seq<char>>,
    /// All the text written so far.
    pub output: Seq<char>,
    /// How the input operation asks for a number.
    pub rules: InputRules,
}

impl View for Machine {
    type V = State;

    open spec fn view(&self) -> State {
        State {
            registers: self.registers@,
            stack: self.stack@,
            input: self.input@.map_values(|line: String| line@),
            output: self.output@,
            rules: self.config@,
        }
    }
}

/// The 32-bit integer that has the low 32 bits of `i` in two's complement.
pub open spec fn wrap(i: int) -> i32 {
    let m = i % 0x1_0000_0000;
    if m > i32::MAX {
        (m - 0x1_0000_0000) as i32
    } else {
        m as i32
    }
}

/// The quotient of `a` by `b`, rounded towards zero.
pub open spec fn trunc_div(a: int, b: int) -> int
    recommends
        b != 0,
{
    if a >= 0 && b > 0 {
        a / b
    } else if a < 0 && b < 0 {
        (-a) / (-b)
    } else if a < 0 {
        -((-a) / b)
    } else {
        -(a / (-b))
    }
}

/// The remainder that goes with `trunc_div`: it has the sign of `a`.
pub open spec fn trunc_rem(a: int, b: int) -> int
    recommends
        b != 0,
{
    if a >= 0 && b > 0 {
        a % b
    } else if a < 0 && b < 0 {
        -((-a) % (-b))
    } else if a < 0 {
        -((-a) % b)
    } else {
        a % (-b)
    }
}

/// What an arithmetic operation makes of `a` and `b`, where `a` was pushed
/// first. Results that do not fit in 32 bits wrap around. There is no result
/// for a division or a remainder by zero, nor for an operation that is not
/// arithmetic.
pub open spec fn arithmetic(op: Op, a: i32, b: i32) -> Option<i32> {
    match op {
        Op::Add => Some(wrap(a + b)),
        Op::Sub => Some(wrap(a - b)),
        Op::Mul => Some(wrap(a * b)),
        Op::Div => if b == 0 {
            None
        } else {
            Some(wrap(trunc_div(a as int, b as int)))
        },
        Op::Mod => if b == 0 {
            None
        } else {
            Some(wrap(trunc_rem(a as int, b as int)))
        },
        _ => None,
    }
}

/// The number of leading lines of `lines` that are no integers.
pub open spec fn rejected(lines: Seq<Seq<char>>) -> nat
    decreases lines.len(),
{
    if lines.len() == 0 || parse_i32(lines[0]) is Some {
        0
    } else {
        1 + rejected(lines.drop_first())
    }
}

/// The message `retry`, `count` times over.
pub open spec fn retries(retry: Seq<char>, count: nat) -> Seq<char>
    decreases count,
{
    if count == 0 {
        Seq::empty()
    } else {
        retries(retry, (count - 1) as nat) + retry
    }
}

/// The state after one operation, and what the operation reports.
///
/// An arithmetic operation pops the second operand, then the first, and
/// pushes the result; with fewer than two elements the stack is left empty
/// and the operation fails, and after a division by zero both operands are
/// gone. The input operation writes the prompt and reads lines until one is
/// an integer, which it pushes; after each other line it writes the retry
/// message and reads again. It fails when the lines run out, or when a line
/// is no integer and the retries that the rules allow are used up. The output
/// operation pops an integer and writes it in decimal notation, followed by
/// a line feed.
pub open spec fn step(s: State, op: Op) -> (State, Result<NextOperation, ExecutionError>) {
    match op {
        Op::Add | Op::Sub | Op::Mul | Op::Div | Op::Mod => {
            let n = s.stack.len() as int;
            if n < 2 {
                (State { stack: Seq::empty(), ..s }, Err(ExecutionError::StackUnderflow))
            } else {
                match arithmetic(op, s.stack[n - 2], s.stack[n - 1]) {
                    Some(v) => (
                        State { stack: s.stack.take(n - 2).push(v), ..s },
                        Ok(NextOperation::Offset(1)),
                    ),
                    None => (
                        State { stack: s.stack.take(n - 2), ..s },
                        Err(ExecutionError::DivisionByZero),
                    ),
                }
            }
        },
        Op::Input => {
            let k = rejected(s.input);
            let made = s.rules.retries_for(k);
            let output = s.output + s.rules.prompt + retries(s.rules.retry, made);
            if made < k {
                (
                    State { input: s.input.skip(made as int + 1), output, ..s },
                    Err(ExecutionError::InputError { inner: InputError }),
                )
            } else if k >= s.input.len() {
                (
                    State { input: Seq::empty(), output, ..s },
                    Err(ExecutionError::InputError { inner: InputError }),
                )
            } else {
                (
                    State {
                        stack: s.stack.push(parse_i32(s.input[k as int]).unwrap()),
                        input: s.input.skip(k as int + 1),
                        output,
                        ..s
                    },
                    Ok(NextOperation::Offset(1)),
                )
            }
        },
        Op::Output => if s.stack.len() == 0 {
            (s, Err(ExecutionError::StackUnderflow))
        } else {
            (
                State {
                    stack: s.stack.drop_last(),
                    output: s.output + decimal(s.stack.last() as int) + seq!['\n'],
                    ..s
                },
                Ok(NextOperation::Offset(1)),
            )
        },
        Op::Halt => (s, Ok(NextOperation::End)),
        Op::PushValue(v) => (State { stack: s.stack.push(v.0), ..s }, Ok(NextOperation::Offset(5))),
        Op::PushRegister(r) => (
            State { stack: s.stack.push(s.registers[r.spec_id() as int]), ..s },
            Ok(NextOperation::Offset(2)),
        ),
        Op::PopRegister(r) => if s.stack.len() == 0 {
            (s, Err(ExecutionError::StackUnderflow))
        } else {
            (
                State {
                    registers: s.registers.update(r.spec_id() as int, s.stack.last()),
                    stack: s.stack.drop_last(),
                    ..s
                },
                Ok(NextOperation::Offset(2)),
            )
        },
    }
}

/// The state after running the program `bytes`, and how the run ends.
///
/// Operations are read from the bytes one at a time, each only when the run
/// reaches it, and executed in order. The run ends well after a halt or when
/// no byte is left, and it ends with the error of the first operation that
/// cannot be read or fails.
pub open spec fn run(s: State, bytes: Seq<u8>) -> (State, Result<(), ExecutionError>)
    decreases bytes.len(),
{
    if bytes.len() == 0 {
        (s, Ok(()))
    } else {
        match Op::decoding(bytes) {
            Err(e) => (s, Err(ExecutionError::OpReadError { inner: e })),
            Ok(d) => {
                let (t, r) = step(s, d.value);
                match r {
                    Err(e) => (t, Err(e)),
                    Ok(NextOperation::End) => (t, Ok(())),
                    Ok(NextOperation::Offset(_)) => run(t, bytes.skip(d.bytes_read as int)),
                }
            },
        }
    }
}

/// Wrapping leaves an integer that fits in 32 bits as it is, and takes one
/// that is off by less than 2^32 back by 2^32.
proof fn lemma_wrap_in_range(i: int)
    ensures
        i32::MIN <= i <= i32::MAX ==> wrap(i) == i,
        i32::MAX < i <= i32::MAX + 0x1_0000_0000 ==> wrap(i) == i - 0x1_0000_0000,
        i32::MIN - 0x1_0000_0000 <= i < i32::MIN ==> wrap(i) == i + 0x1_0000_0000,
{
}

/// A quotient is no larger than its dividend, and a remainder is smaller
/// than its divisor.
proof fn lemma_quotient_bounds(a: int, b: int)
    requires
        b != 0,
    ensures
        a >= 0 ==> -a <= trunc_div(a, b) <= a,
        a < 0 ==> a <= trunc_div(a, b) <= -a,
        b > 0 ==> -b < trunc_rem(a, b) < b,
        b < 0 ==> b < trunc_rem(a, b) < -b,
        a >= 0 && b > 0 ==> trunc_div(a, b) == a / b && trunc_rem(a, b) == a % b,
        a < 0 && b < -1 ==> 2 * trunc_div(a, b) <= -a,
        b == -1 ==> trunc_div(a, b) == -a,
{
    let x: int = if a < 0 {
        -a
    } else {
        a
    };
    let d: int = if b < 0 {
        -b
    } else {
        b
    };
    assert(0 <= x / d <= x && 0 <= x % d < d) by (nonlinear_arith)
        requires
            x >= 0,
            d > 0,
    ;
    assert(d >= 2 ==> 2 * (x / d) <= x) by (nonlinear_arith)
        requires
            x >= 0,
            d > 0,
    ;
    assert(d == 1 ==> x / d == x) by (nonlinear_arith)
        requires
            x >= 0,
            d > 0,
    ;
}

/// What an arithmetic operation makes of `a` and `b`.
fn compute(op: Op, a: i32, b: i32) -> (r: Option<i32>)
    ensures
        r == arithmetic(op, a, b),
{
    proof {
        lemma_wrap_in_range(a as int + b as int);
        lemma_wrap_in_range(a as int - b as int);
        if b != 0 {
            lemma_quotient_bounds(a as int, b as int);
            lemma_wrap_in_range(trunc_div(a as int, b as int));
            lemma_wrap_in_range(trunc_rem(a as int, b as int));
        }
    }
    match op {
        Op::Add => {
            let r = a.wrapping_add(b);
            assert(r == wrap(a + b));
            Some(r)
        },
        Op::Sub => {
            let r = a.wrapping_sub(b);
            assert(r == wrap(a - b));
            Some(r)
        },
        Op::Mul => {
            let r = a.wrapping_mul(b);
            assert(r == wrap(a * b));
            Some(r)
        },
        Op::Div => if b == 0 {
            None
        } else if a == i32::MIN && b == -1 {
            assert(trunc_div(a as int, b as int) == 0x8000_0000);
            Some(i32::MIN)
        } else {
            let r = a.checked_div(b);
            assert(r == Some(wrap(trunc_div(a as int, b as int))));
            r
        },
        Op::Mod => if b == 0 {
            None
        } else if a == i32::MIN && b == -1 {
            assert(trunc_rem(a as int, b as int) == 0);
            Some(0)
        } else {
            let r = a.checked_rem(b);
            assert(r == Some(wrap(trunc_rem(a as int, b as int))));
            r
        },
        _ => None,
    }
}

impl Machine {
    /// A machine with all registers at zero and an empty stack, which reads
    /// the lines of `input` and writes after the text that `output` holds.
    /// Its input operation uses the standard messages and retries without
    /// limit.
    pub fn new(input: VecDeque<String>, output: String) -> (r: Machine)
        ensures
            r@ == (State {
                registers: seq![0i32, 0i32, 0i32, 0i32],
                stack: Seq::empty(),
                input: input@.map_values(|line: String| line@),
                output: output@,
                rules: InputRules::standard(),
            }),
    {
        Machine::with_config(input, output, InputConfig::default())
    }

    /// A machine like that of `new`, whose input operation asks for a number
    /// as `config` says.
    pub fn with_config(
        input: VecDeque<String>,
        output: String,
        config: InputConfig,
    ) -> (r: Machine)
        ensures
            r@ == (State {
                registers: seq![0i32, 0i32, 0i32, 0i32],
                stack: Seq::empty(),
                input: input@.map_values(|line: String| line@),
                output: output@,
                rules: config@,
            }),
    {
        Machine { registers: Registers::default(), stack: Stack::default(), input, output, config }
    }

    /// Runs the program `bytes` from its first byte.
    pub fn execute_program(&mut self, bytes: &[u8]) -> (r: Result<(), ExecutionError>)
        ensures
            final(self)@ == run(old(self)@, bytes@).0,
            r == run(old(self)@, bytes@).1,
    {
        let mut idx: usize = 0;
        assert(bytes@.skip(0) =~= bytes@);
        while idx < bytes.len()
            invariant
                idx <= bytes.len(),
                run(old(self)@, bytes@) == run(self@, bytes@.skip(idx as int)),
            decreases bytes.len() - idx,
        {
            let remaining = slice_subrange(bytes, idx, bytes.len());
            assert(remaining@ =~= bytes@.skip(idx as int));
            let op = match Op::decompile(remaining) {
                Ok(op) => op,
                Err(e) => {
                    return Err(ExecutionError::OpReadError { inner: e });
                },
            };
            match self.execute(op.value) {
                Err(e) => {
                    return Err(e);
                },
                Ok(NextOperation::End) => {
                    return Ok(());
                },
                Ok(NextOperation::Offset(_)) => {},
            }
            assert(bytes@.skip(idx as int).skip(op.bytes_read as int) =~= bytes@.skip(
                idx + op.bytes_read,
            ));
            idx += op.bytes_read;
        }
        Ok(())
    }

    /// Executes one operation.
    pub fn execute(&mut self, op: Op) -> (r: Result<NextOperation, ExecutionError>)
        ensures
            final(self)@ == step(old(self)@, op).0,
            r == step(old(self)@, op).1,
            r matches Ok(NextOperation::Offset(n)) ==> n == OpCode::of(op).spec_op_len(),
            r == Err::<NextOperation, ExecutionError>(ExecutionError::StackUnderflow)
                ==> final(self)@.registers == old(self)@.registers,
    {
        match op {
            Op::Add | Op::Sub | Op::Mul | Op::Div | Op::Mod => self.binary_fn(op),
            Op::Input => self.input(),
            Op::Output => self.output(),
            Op::Halt => Ok(NextOperation::End),
            Op::PushValue(Value(v)) => {
                self.stack.push(v);
                Ok(NextOperation::Offset(5))
            },
            Op::PushRegister(r) => {
                self.stack.push(self.registers[r]);
                Ok(NextOperation::Offset(2))
            },
            Op::PopRegister(r) => match self.stack.pop() {
                Ok(v) => {
                    self.registers.set(r, v);
                    Ok(NextOperation::Offset(2))
                },
                Err(e) => Err(e),
            },
        }
    }

    /// Executes the arithmetic operation `op`.
    fn binary_fn(&mut self, op: Op) -> (r: Result<NextOperation, ExecutionError>)
        requires
            op is Add || op is Sub || op is Mul || op is Div || op is Mod,
        ensures
            final(self)@ == step(old(self)@, op).0,
            r == step(old(self)@, op).1,
    {
        let b = match self.stack.pop() {
            Ok(b) => b,
            Err(e) => {
                assert(self.stack@ =~= Seq::<i32>::empty());
                return Err(e);
            },
        };
        let a = match self.stack.pop() {
            Ok(a) => a,
            Err(e) => {
                assert(self.stack@ =~= Seq::<i32>::empty());
                return Err(e);
            },
        };
        assert(self.stack@ =~= old(self).stack@.take(old(self).stack@.len() - 2));
        match compute(op, a, b) {
            Some(v) => {
                self.stack.push(v);
                Ok(NextOperation::Offset(1))
            },
            None => Err(ExecutionError::DivisionByZero),
        }
    }

    /// Writes the prompt of the input operation to the output.
    pub fn prompt(&mut self)
        ensures
            final(self)@ == (State {
                output: old(self)@.output + old(self)@.rules.prompt,
                ..old(self)@
            }),
    {
        self.output.append(self.config.prompt.as_str());
    }

    /// Takes one line of input for the input operation, after `used`
    /// retries. The line comes without the line feed or carriage return that
    /// ended it, and it is read as it stands: white space before or after
    /// the number makes it no integer. Where the line is an integer, it is
    /// pushed. Where it is not and one more retry is allowed, the retry
    /// message is written to the output. Where none is allowed, nothing
    /// changes.
    pub fn accept_line(&mut self, line: &str, used: usize) -> (r: LineOutcome)
        ensures
            match parse_i32(line@) {
                Some(v) => r == LineOutcome::Accepted && final(self)@ == (State {
                    stack: old(self)@.stack.push(v),
                    ..old(self)@
                }),
                None => if old(self)@.rules.allows(used as nat) {
                    r == LineOutcome::Retry && final(self)@ == (State {
                        output: old(self)@.output + old(self)@.rules.retry,
                        ..old(self)@
                    })
                } else {
                    r == LineOutcome::Failed && final(self)@ == old(self)@
                },
            },
    {
        let chars = chars_of(line);
        match parse_number(chars.as_slice()) {
            Some(v) => {
                self.stack.push(v);
                LineOutcome::Accepted
            },
            None => {
                let allowed = match self.config.max_retries {
                    Some(m) => used < m,
                    None => true,
                };
                if allowed {
                    self.output.append(self.config.retry.as_str());
                    LineOutcome::Retry
                } else {
                    LineOutcome::Failed
                }
            },
        }
    }

    /// Puts `line` at the end of the lines that the input holds. The line
    /// comes without the line feed or carriage return that ended it.
    pub fn feed_line(&mut self, line: String)
        ensures
            final(self)@ == (State { input: old(self)@.input.push(line@), ..old(self)@ }),
    {
        self.input.push_back(line);
        assert(self@.input =~= old(self)@.input.push(line@));
    }

    /// Hands out the text written so far and leaves the output empty.
    pub fn take_output(&mut self) -> (r: String)
        ensures
            r@ == old(self)@.output,
            final(self)@ == (State { output: Seq::empty(), ..old(self)@ }),
    {
        let mut text = String::new();
        core::mem::swap(&mut self.output, &mut text);
        text
    }

    /// Executes the input operation.
    fn input(&mut self) -> (r: Result<NextOperation, ExecutionError>)
        ensures
            final(self)@ == step(old(self)@, Op::Input).0,
            r == step(old(self)@, Op::Input).1,
    {
        let waiting: usize = self.input.len();
        self.prompt();
        let ghost lines = old(self)@.input;
        let ghost rules = old(self)@.rules;
        let mut used: usize = 0;
        assert(lines.skip(0) =~= lines);
        assert(self@.output =~= old(self)@.output + rules.prompt + retries(rules.retry, 0));
        loop
            invariant
                used <= lines.len() == waiting,
                lines == old(self)@.input,
                rules == old(self)@.rules,
                self@.rules == rules,
                self@.input == lines.skip(used as int),
                rejected(lines) == used + rejected(lines.skip(used as int)),
                rules.retries_for(used as nat) == used,
                self@.output == old(self)@.output + rules.prompt + retries(rules.retry, used as nat),
                self@.stack == old(self)@.stack,
                self@.registers == old(self)@.registers,
            decreases self.input@.len(),
        {
            let ghost before = self.input@;
            let line = match self.input.pop_front() {
                Some(line) => line,
                None => {
                    assert(self@.input =~= Seq::<Seq<char>>::empty());
                    return Err(ExecutionError::InputError { inner: InputError });
                },
            };
            proof {
                assert(before.len() > 0);
                assert(lines.skip(used as int).len() == before.len());
                assert(line@ == before.map_values(|line: String| line@)[0]);
                assert forall|i: int| 0 <= i < self.input@.len() implies (#[trigger] self@.input[i])
                    == lines.skip(used as int + 1)[i] by {
                    assert(self.input@[i] == before[i + 1]);
                    assert(before.map_values(|line: String| line@)[i + 1] == lines.skip(
                        used as int,
                    )[i + 1]);
                }
                assert(self@.input =~= lines.skip(used as int + 1));
                assert(lines.skip(used as int).drop_first() =~= lines.skip(used as int + 1));
            }
            match self.accept_line(line.as_str(), used) {
                LineOutcome::Accepted => {
                    return Ok(NextOperation::Offset(1));
                },
                LineOutcome::Failed => {
                    return Err(ExecutionError::InputError { inner: InputError });
                },
                LineOutcome::Retry => {
                    used = used + 1;
                },
            }
        }
    }

    /// Executes the output operation.
    fn output(&mut self) -> (r: Result<NextOperation, ExecutionError>)
        ensures
            final(self)@ == step(old(self)@, Op::Output).0,
            r == step(old(self)@, Op::Output).1,
    {
        let value = match self.stack.pop() {
            Ok(value) => value,
            Err(e) => {
                return Err(e);
            },
        };
        let mut text = decimal_of(value);
        text.push('\n');
        push_chars(&mut self.output, text.as_slice());
        assert(self@.output =~= old(self)@.output + decimal(value as int) + seq!['\n']);
        Ok(NextOperation::Offset(1))
    }
}

/// Running a program of no bytes ends well at once and changes nothing: the
/// stack of a fresh machine stays empty.
pub proof fn lemma_run_empty(s: State)
    ensures
        run(s, Seq::empty()) == (s, Ok::<(), ExecutionError>(())),
{
}

/// An operation that fails for want of operands leaves the registers as they
/// were.
pub proof fn lemma_underflow_keeps_registers(s: State, op: Op)
    requires
        step(s, op).1 == Err::<NextOperation, ExecutionError>(ExecutionError::StackUnderflow),
    ensures
        step(s, op).0.registers == s.registers,
{
}

} // verus!
