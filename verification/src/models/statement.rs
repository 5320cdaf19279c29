use vstd::prelude::*;
use super::{Op, StatementFault, StatementParseError};

verus! {

/// One line of a program. Today a statement is always an operation.
#[derive(Clone, Copy, Debug, PartialEq, Eq, Structural)]
pub enum Statement {
    Op(Op),
}

impl Statement {
    /// The operation that the statement holds.
    pub open spec fn spec_op(self) -> Op {
        match self {
            Statement::Op(op) => op,
        }
    }

    /// The operation that the statement holds.
    #[verifier::when_used_as_spec(spec_op)]
    pub fn op(self) -> (r: Op)
        ensures
            r == self.spec_op(),
    {
        match self {
            Statement::Op(op) => op,
        }
    }

    /// What reading the line `line` as a statement gives: its operation.
    pub open spec fn parsing(line: Seq<char>) -> Result<Statement, StatementFault> {
        match Op::parsing(line) {
            Ok(op) => Ok(Statement::Op(op)),
            Err(e) => Err(StatementFault::OpError(e)),
        }
    }

    /// The statement as text: that of its operation.
    pub open spec fn text(self) -> Seq<char> {
        self.spec_op().text()
    }

    /// Reads the characters `line` as a statement.
    pub fn from_chars(line: &[char]) -> (r: Result<Statement, StatementParseError>)
        ensures
            match r {
                Ok(s) => Statement::parsing(line@) == Ok::<Statement, StatementFault>(s),
                Err(e) => Statement::parsing(line@) == Err::<Statement, StatementFault>(e@),
            },
    {
        match Op::from_chars(line) {
            Ok(op) => Ok(Statement::Op(op)),
            Err(e) => Err(StatementParseError::OpError(e)),
        }
    }

    /// Reads the line `s` as a statement.
    pub fn from_str(s: &str) -> (r: Result<Statement, StatementParseError>)
        ensures
            match r {
                Ok(statement) => Statement::parsing(s@) == Ok::<Statement, StatementFault>(
                    statement,
                ),
                Err(e) => Statement::parsing(s@) == Err::<Statement, StatementFault>(e@),
            },
    {
        match Op::from_str(s) {
            Ok(op) => Ok(Statement::Op(op)),
            Err(e) => Err(StatementParseError::OpError(e)),
        }
    }

    /// The statement as text.
    pub fn to_string(&self) -> (r: String)
        ensures
            r@ == self.text(),
    {
        match self {
            Statement::Op(op) => op.to_string(),
        }
    }
}

impl core::str::FromStr for Statement {
    type Err = StatementParseError;

    fn from_str(s: &str) -> (r: Result<Statement, StatementParseError>)
        ensures
            match r {
                Ok(statement) => Statement::parsing(s@) == Ok::<Statement, StatementFault>(
                    statement,
                ),
                Err(e) => Statement::parsing(s@) == Err::<Statement, StatementFault>(e@),
            },
    {
        Statement::from_str(s)
    }
}

} // verus!
