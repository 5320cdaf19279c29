//! The instruction model: values, registers, operations, statements and
//! whole programs, together with their textual notation.

mod assembly;
mod error;
pub mod laws;
mod op;
mod register;
mod statement;
mod value;

pub use assembly::{
    failures, leading_successes, lemma_partition_views, line_results, partition_results,
    result_views, Assembly,
};
pub use error::{
    argument_faults, argument_line, argument_lines, fault_line, fault_lines, faults_message,
    line_faults, ordinal_ending, ordinal_suffix, ArgumentFault, ArgumentParseError,
    AssemblyParseError, LineFault, LineWithError, OpFault, OpParseError, StatementFault,
    StatementParseError,
};
pub use op::{nullary, parse_named, parse_pop_spec, parse_push_spec, parse_words, Op};
pub use register::Register;
pub use statement::Statement;
pub use value::Value;
