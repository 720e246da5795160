//! A stack over a vector: the top of the stack is the vector's last element.
use vstd::prelude::*;

verus! {

/// A stack. Its view lists the elements from the bottom to the top.
#[derive(Debug, PartialEq)]
pub struct Stack<T>(pub Vec<T>);

impl<T> View for Stack<T> {
    type V = Seq<T>;

    open spec fn view(&self) -> Seq<T> {
        self.0@
    }
}

impl<T> Stack<T> {
    /// The empty stack.
    pub fn new() -> (s: Stack<T>)
        ensures
            s@ == Seq::<T>::empty(),
    {
        Stack(Vec::new())
    }

    /// Creates a Stack from a Vec which is already "stacked",
    /// i.e., the "first element" conceptually is at the end of the Vec.
    pub fn from_stacked_vec(v: Vec<T>) -> (s: Stack<T>)
        ensures
            s@ == v@,
    {
        Stack(v)
    }

    /// Puts `value` on top.
    pub fn push(&mut self, value: T)
        ensures
            final(self)@ == old(self)@.push(value),
    {
        self.0.push(value)
    }

    /// Takes the top element off, if there is one.
    pub fn pop(&mut self) -> (top: Option<T>)
        ensures
            old(self)@.len() == 0 ==> top is None && final(self)@ == old(self)@,
            old(self)@.len() > 0 ==> top == Some(old(self)@.last()) && final(self)@ == old(
                self,
            )@.drop_last(),
    {
        self.0.pop()
    }

    /// The top element, if there is one.
    pub fn peek(&self) -> (top: Option<&T>)
        ensures
            self@.len() == 0 ==> top is None,
            self@.len() > 0 ==> top == Some(&self@.last()),
    {
        let n = self.0.len();
        if n == 0 {
            None
        } else {
            Some(&self.0[n - 1])
        }
    }

    /// The number of elements.
    pub fn len(&self) -> (n: usize)
        ensures
            n == self@.len(),
    {
        self.0.len()
    }
}

impl<T> Default for Stack<T> {
    fn default() -> (s: Stack<T>)
        ensures
            s@ == Seq::<T>::empty(),
    {
        Stack::new()
    }
}

} // verus!
