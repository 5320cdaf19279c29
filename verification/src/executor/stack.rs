use vstd::prelude::*;
use super::ExecutionError;

verus! {

/// The operand stack of a machine. The last element of its view is the top.
#[derive(Debug)]
pub struct Stack {
    data: Vec<i32>,
}

impl View for Stack {
    type V = Seq<i32>;

    closed spec fn view(&self) -> Seq<i32> {
        self.data@
    }
}

impl Stack {
    /// Puts `value` on top of the stack.
    pub fn push(&mut self, value: i32)
        ensures
            final(self)@ == old(self)@.push(value),
    {
        self.data.push(value);
    }

    /// Takes the top of the stack off and gives it. On an empty stack it
    /// fails and leaves the stack empty.
    pub fn pop(&mut self) -> (r: Result<i32, ExecutionError>)
        ensures
            old(self)@.len() == 0 ==> r == Err::<i32, ExecutionError>(
                ExecutionError::StackUnderflow,
            ) && final(self)@ == old(self)@,
            old(self)@.len() > 0 ==> r == Ok::<i32, ExecutionError>(old(self)@.last())
                && final(self)@ == old(self)@.drop_last(),
    {
        match self.data.pop() {
            Some(value) => Ok(value),
            None => Err(ExecutionError::StackUnderflow),
        }
    }

    /// The number of elements on the stack.
    pub fn len(&self) -> (r: usize)
        ensures
            r == self@.len(),
    {
        self.data.len()
    }
}

impl Default for Stack {
    fn default() -> (r: Stack)
        ensures
            r@ == Seq::<i32>::empty(),
    {
        Stack { data: Vec::new() }
    }
}

} // verus!
