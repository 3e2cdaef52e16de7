use vstd::prelude::*;

verus! {

use crate::error::Error;

/// Law: the stack is LIFO. For any stack contents `s` — the result of any
/// sequence of pushes — pushing `v` and then popping returns `v` itself,
/// never a placeholder, and leaves exactly `s` behind: `pop`'s contract on
/// the nonempty stack `s.push(v)` yields `last` and `drop_last`, which this
/// lemma pins to `v` and `s`.
pub proof fn lemma_lifo(s: Seq<i64>, v: i64)
    ensures
        s.push(v).len() > 0,
        s.push(v).last() == v,
        s.push(v).drop_last() == s,
{
    assert(s.push(v).drop_last() =~= s);
}

/// LIFO storage of signed 64-bit integers with explicit underflow failure.
///
/// Viewed as a `Seq<i64>` whose last element is the top of the stack.
pub struct Stack {
    v: Vec<i64>,
}

impl View for Stack {
    type V = Seq<i64>;

    closed spec fn view(&self) -> Seq<i64> {
        self.v@
    }
}

impl Stack {
    /// An empty stack.
    pub fn new() -> (s: Self)
        ensures
            s@ == Seq::<i64>::empty(),
    {
        Stack { v: Vec::new() }
    }

    /// Appends `element` as the new top; always succeeds.
    pub fn push(&mut self, element: i64)
        ensures
            final(self)@ == old(self)@.push(element),
    {
        self.v.push(element);
    }

    /// Removes and returns the top element; fails with `StackUnderflow`
    /// (leaving the stack unchanged) when the stack is empty.
    pub fn pop(&mut self) -> (r: Result<i64, Error>)
        ensures
            old(self)@.len() > 0 ==> {
                &&& r == Ok::<i64, Error>(old(self)@.last())
                &&& final(self)@ == old(self)@.drop_last()
            },
            old(self)@.len() == 0 ==> {
                &&& r == Err::<i64, Error>(Error::StackUnderflow)
                &&& final(self)@ == old(self)@
            },
    {
        if let Some(v) = self.v.pop() {
            Ok(v)
        } else {
            Err(Error::StackUnderflow)
        }
    }

    /// Read-only view of the stored values, bottom-to-top order.
    pub fn contents(&self) -> (r: &Vec<i64>)
        ensures
            r@ == self@,
    {
        &self.v
    }

    /// The top element, or `-1` when the stack is empty; does not mutate.
    pub fn peek(&self) -> (r: i64)
        ensures
            self@.len() > 0 ==> r == self@.last(),
            self@.len() == 0 ==> r == -1,
    {
        if self.is_empty() {
            return -1;
        }
        self.v[self.v.len() - 1]
    }

    /// Whether the stack holds no elements.
    pub fn is_empty(&self) -> (r: bool)
        ensures
            r == (self@.len() == 0),
    {
        self.size() == 0
    }

    /// The number of stored elements.
    pub fn size(&self) -> (r: usize)
        ensures
            r == self@.len(),
    {
        self.v.len()
    }
}

} // verus!
