use vstd::prelude::*;
use crate::text::{chars_of, decimal, decimal_of, parse_i32, parse_number, string_of};
use super::{ArgumentFault, ArgumentParseError};

verus! {

/// A literal operand: a signed 32-bit integer.
#[derive(Clone, Copy, Debug, PartialEq, Eq, Structural)]
pub struct Value(pub i32);

impl Value {
    /// The integer that this value wraps.
    pub fn value(self) -> (r: i32)
        ensures
            r == self.0,
    {
        self.0
    }
}

impl Value {
    /// What reading `s` as a value gives: the integer that `s` writes in
    /// decimal notation, or the error that holds `s`.
    pub open spec fn parsing(s: Seq<char>) -> Result<Value, ArgumentFault> {
        match parse_i32(s) {
            Some(v) => Ok(Value(v)),
            None => Err(ArgumentFault::WrongValue(s)),
        }
    }

    /// The decimal notation of the value.
    pub open spec fn text(self) -> Seq<char> {
        decimal(self.0 as int)
    }

    /// Reads the characters `s` as a value.
    pub fn from_chars(s: &[char]) -> (r: Result<Value, ArgumentParseError>)
        ensures
            match r {
                Ok(value) => Value::parsing(s@) == Ok::<Value, ArgumentFault>(value),
                Err(e) => Value::parsing(s@) == Err::<Value, ArgumentFault>(e@),
            },
    {
        match parse_number(s) {
            Some(v) => Ok(Value(v)),
            None => Err(ArgumentParseError::WrongValue(string_of(s))),
        }
    }

    /// Reads `s` as a value.
    pub fn from_str(s: &str) -> (r: Result<Value, ArgumentParseError>)
        ensures
            match r {
                Ok(value) => Value::parsing(s@) == Ok::<Value, ArgumentFault>(value),
                Err(e) => Value::parsing(s@) == Err::<Value, ArgumentFault>(e@),
            },
    {
        Value::from_chars(chars_of(s).as_slice())
    }

    /// The decimal notation of the value, as a string.
    pub fn to_string(&self) -> (r: String)
        ensures
            r@ == self.text(),
    {
        string_of(decimal_of(self.0).as_slice())
    }
}

impl core::str::FromStr for Value {
    type Err = ArgumentParseError;

    fn from_str(s: &str) -> (r: Result<Value, ArgumentParseError>)
        ensures
            match r {
                Ok(value) => Value::parsing(s@) == Ok::<Value, ArgumentFault>(value),
                Err(e) => Value::parsing(s@) == Err::<Value, ArgumentFault>(e@),
            },
    {
        Value::from_str(s)
    }
}

impl Default for Value {
    fn default() -> (r: Value)
        ensures
            r == Value(0),
    {
        Value(0)
    }
}

impl From<i32> for Value {
    fn from(x: i32) -> (r: Value) {
        Value(x)
    }
}

impl vstd::std_specs::convert::FromSpecImpl<i32> for Value {
    open spec fn obeys_from_spec() -> bool {
        true
    }

    open spec fn from_spec(x: i32) -> Value {
        Value(x)
    }
}

} // verus!
