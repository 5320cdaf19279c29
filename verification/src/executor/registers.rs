use vstd::prelude::*;
use crate::models::Register;

verus! {

/// The four registers of a machine.
#[derive(Debug)]
pub struct Registers {
    pub a: i32,
    pub b: i32,
    pub c: i32,
    pub d: i32,
}

impl View for Registers {
    type V = Seq<i32>;

    /// What the registers hold, in the order of their numbers.
    open spec fn view(&self) -> Seq<i32> {
        seq![self.a, self.b, self.c, self.d]
    }
}

impl Registers {
    /// Puts `value` into the register `index` and leaves the other three as
    /// they are.
    pub fn set(&mut self, index: Register, value: i32)
        ensures
            final(self)@ == old(self)@.update(index.spec_id() as int, value),
    {
        match index {
            Register::A => {
                self.a = value;
            },
            Register::B => {
                self.b = value;
            },
            Register::C => {
                self.c = value;
            },
            Register::D => {
                self.d = value;
            },
        }
        assert(self@ =~= old(self)@.update(index.spec_id() as int, value));
    }
}

impl core::ops::Index<Register> for Registers {
    type Output = i32;

    /// What the register `index` holds.
    fn index(&self, index: Register) -> (r: &i32)
        ensures
            *r == self@[index.spec_id() as int],
    {
        match index {
            Register::A => &self.a,
            Register::B => &self.b,
            Register::C => &self.c,
            Register::D => &self.d,
        }
    }
}

impl vstd::std_specs::core::IndexSpecImpl<Register> for Registers {
    open spec fn index_req(&self, index: &Register) -> bool {
        true
    }
}

impl core::ops::IndexMut<Register> for Registers {
    /// The place of the register `index`: what is put there is what the
    /// register holds afterwards, and the other three stay as they are.
    fn index_mut(&mut self, index: Register) -> (r: &mut i32)
        ensures
            *r == old(self)@[index.spec_id() as int],
            final(self)@ == old(self)@.update(index.spec_id() as int, *final(r)),
    {
        match index {
            Register::A => &mut self.a,
            Register::B => &mut self.b,
            Register::C => &mut self.c,
            Register::D => &mut self.d,
        }
    }
}

impl Default for Registers {
    fn default() -> (r: Registers)
        ensures
            r@ == seq![0i32, 0i32, 0i32, 0i32],
    {
        Registers { a: 0, b: 0, c: 0, d: 0 }
    }
}

} // verus!
