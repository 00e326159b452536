//! A generic last-in-first-out container. The execution engine keeps
//! subroutine return addresses in one; popping an empty stack returns an
//! explicit `None`, which the caller treats as fatal.

use vstd::prelude::*;

verus! {

pub struct Stack<T> {
    pub vector: Vec<T>,
}

impl<T> Stack<T> {
    pub fn new() -> (s: Stack<T>)
        ensures
            s.vector@ == Seq::<T>::empty(),
    {
        Self { vector: Vec::new() }
    }

    pub fn push(&mut self, value: T)
        ensures
            final(self).vector@ == old(self).vector@.push(value),
    {
        self.vector.push(value);
    }

    pub fn pop(&mut self) -> (r: Option<T>)
        ensures
            old(self).vector@.len() == 0 ==> r is None && final(self).vector@ == old(self).vector@,
            old(self).vector@.len() > 0 ==> r == Some(old(self).vector@.last())
                && final(self).vector@ == old(self).vector@.drop_last(),
    {
        self.vector.pop()
    }
}

impl<T> Default for Stack<T> {
    fn default() -> (s: Stack<T>)
        ensures
            s.vector@ == Seq::<T>::empty(),
    {
        Self::new()
    }
}

} // verus!
