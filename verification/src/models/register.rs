use vstd::prelude::*;
use crate::text::{chars_of, is_text, string_of, to_upper_text, trim, trimmed, upper_text};
use super::{ArgumentFault, ArgumentParseError};

verus! {

/// One of the four registers of the machine.
#[derive(Clone, Copy, Debug, PartialEq, Eq, Structural)]
pub enum Register {
    A,
    B,
    C,
    D,
}

impl Register {
    /// The zero-based number of the register.
    pub open spec fn spec_id(self) -> u8 {
        match self {
            Register::A => 0,
            Register::B => 1,
            Register::C => 2,
            Register::D => 3,
        }
    }

    /// The zero-based number of the register.
    #[verifier::when_used_as_spec(spec_id)]
    pub fn id(self) -> (r: u8)
        ensures
            r == self.spec_id(),
    {
        match self {
            Register::A => 0,
            Register::B => 1,
            Register::C => 2,
            Register::D => 3,
        }
    }
}

impl Register {
    /// The register that has the name `name`: one capital letter.
    pub open spec fn named(name: Seq<char>) -> Option<Register> {
        if name == "A"@ {
            Some(Register::A)
        } else if name == "B"@ {
            Some(Register::B)
        } else if name == "C"@ {
            Some(Register::C)
        } else if name == "D"@ {
            Some(Register::D)
        } else {
            None
        }
    }

    /// What reading `s` as a register gives. White space around the name is
    /// left out and small letters count as capitals; the error holds `s` as
    /// it was written.
    pub open spec fn parsing(s: Seq<char>) -> Result<Register, ArgumentFault> {
        match Register::named(upper_text(trim(s))) {
            Some(r) => Ok(r),
            None => Err(ArgumentFault::WrongRegister(s)),
        }
    }

    /// The name of the register: one capital letter.
    pub open spec fn text(self) -> Seq<char> {
        match self {
            Register::A => "A"@,
            Register::B => "B"@,
            Register::C => "C"@,
            Register::D => "D"@,
        }
    }

    /// Reads the characters `s` as a register.
    pub fn from_chars(s: &[char]) -> (r: Result<Register, ArgumentParseError>)
        ensures
            match r {
                Ok(register) => Register::parsing(s@) == Ok::<Register, ArgumentFault>(register),
                Err(e) => Register::parsing(s@) == Err::<Register, ArgumentFault>(e@),
            },
    {
        let name = to_upper_text(trimmed(s).as_slice());
        if is_text(name.as_slice(), "A") {
            Ok(Register::A)
        } else if is_text(name.as_slice(), "B") {
            Ok(Register::B)
        } else if is_text(name.as_slice(), "C") {
            Ok(Register::C)
        } else if is_text(name.as_slice(), "D") {
            Ok(Register::D)
        } else {
            Err(ArgumentParseError::WrongRegister(string_of(s)))
        }
    }

    /// Reads `s` as a register.
    pub fn from_str(s: &str) -> (r: Result<Register, ArgumentParseError>)
        ensures
            match r {
                Ok(register) => Register::parsing(s@) == Ok::<Register, ArgumentFault>(register),
                Err(e) => Register::parsing(s@) == Err::<Register, ArgumentFault>(e@),
            },
    {
        Register::from_chars(chars_of(s).as_slice())
    }

    /// The name of the register.
    pub fn name(self) -> (r: &'static str)
        ensures
            r@ == self.text(),
    {
        match self {
            Register::A => "A",
            Register::B => "B",
            Register::C => "C",
            Register::D => "D",
        }
    }

    /// The name of the register, as a string.
    pub fn to_string(&self) -> (r: String)
        ensures
            r@ == self.text(),
    {
        self.name().to_owned()
    }
}

impl core::str::FromStr for Register {
    type Err = ArgumentParseError;

    fn from_str(s: &str) -> (r: Result<Register, ArgumentParseError>)
        ensures
            match r {
                Ok(register) => Register::parsing(s@) == Ok::<Register, ArgumentFault>(register),
                Err(e) => Register::parsing(s@) == Err::<Register, ArgumentFault>(e@),
            },
    {
        Register::from_str(s)
    }
}

impl From<Register> for u8 {
    fn from(value: Register) -> (r: u8) {
        value.id()
    }
}

impl vstd::std_specs::convert::FromSpecImpl<Register> for u8 {
    open spec fn obeys_from_spec() -> bool {
        true
    }

    open spec fn from_spec(value: Register) -> u8 {
        value.spec_id()
    }
}

} // verus!
