//! The execution engine: registers, operand stack, input and output of one
//! machine, and the interpreter that runs operations against them.

mod error;
mod machine;
mod registers;
mod stack;

pub use error::{ExecutionError, InputError, OutputError};
pub use machine::{
    arithmetic, lemma_run_empty, lemma_underflow_keeps_registers, rejected, retries, run, step,
    trunc_div, trunc_rem, wrap, InputConfig, InputRules, LineOutcome, Machine, NextOperation, State,
    PROMPT, RETRY,
};
pub use registers::Registers;
pub use stack::Stack;
