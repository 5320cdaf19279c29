//! A minimal stack-based virtual machine.
//!
//! - `models`: the instruction model (values, registers, operations,
//!   statements, programs) and its textual notation, one operation per line.
//! - `machine_code`: the binary form of programs, a flat stream of
//!   operations, with functions that write and read every unit of the model.
//! - `executor`: the machine itself, which runs single operations or a
//!   program given as machine code.
//! - `text`: what the notation is made of: white space, words, lines and
//!   decimal numbers.
//!
//! Every function states what it computes over plain values (integers and
//! sequences), and the laws that tie writing and reading together are proved:
//! what is written as bytes or as text reads back as what it was.

pub mod executor;
pub mod machine_code;
pub mod models;
pub mod text;
