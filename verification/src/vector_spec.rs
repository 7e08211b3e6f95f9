//! A thin wrapper around `Vec` that gives the buffer queues of the driver —
//! the free pool, the in-use tables, and the delivered, outbound and used
//! queues — one shared, fully specified interface. Every transfer between
//! queues is a move of the element, never a copy.

use vstd::prelude::*;

verus! {

/// A growable sequence of owned elements; its abstract value is the sequence
/// of its elements in order.
pub struct VecWrapper<T: PartialEq> {
    pub v: Vec<T>,
}

impl<T: PartialEq> View for VecWrapper<T> {
    type V = Seq<T>;

    closed spec fn view(&self) -> Seq<T> {
        self.v@
    }
}

impl<T: PartialEq> VecWrapper<T> {
    pub fn new() -> (s: Self)
        ensures
            s@.len() == 0,
    {
        VecWrapper { v: Vec::new() }
    }

    pub fn len(&self) -> (n: usize)
        ensures
            n == self@.len(),
    {
        self.v.len()
    }

    pub fn index(&self, index: usize) -> (r: &T)
        requires
            index < self@.len(),
        ensures
            *r == self@[index as int],
    {
        &self.v[index]
    }

    pub fn index_mut(&mut self, index: usize) -> (r: &mut T)
        requires
            index < old(self)@.len(),
        ensures
            *r == old(self)@[index as int],
            final(self)@ == old(self)@.update(index as int, *final(r)),
    {
        &mut self.v[index]
    }

    /// Moves `value` into the slot at `index` and hands the previous occupant
    /// out: an ownership swap, so neither element is ever duplicated.
    pub fn replace(&mut self, index: usize, value: T) -> (prev: T)
        requires
            index < old(self)@.len(),
        ensures
            prev == old(self)@[index as int],
            final(self)@ == old(self)@.update(index as int, value),
    {
        let mut slot = value;
        core::mem::swap(&mut self.v[index], &mut slot);
        slot
    }

    pub fn push(&mut self, value: T)
        ensures
            final(self)@ == old(self)@.push(value),
    {
        self.v.push(value);
    }

    pub fn pop(&mut self) -> (r: Option<T>)
        ensures
            old(self)@.len() == 0 ==> r is None && final(self)@ == old(self)@,
            old(self)@.len() > 0 ==> {
                &&& r == Some(old(self)@.last())
                &&& final(self)@ == old(self)@.drop_last()
            },
    {
        self.v.pop()
    }

    /// Removes and returns the oldest element.
    pub fn remove_front(&mut self) -> (r: T)
        requires
            old(self)@.len() > 0,
        ensures
            r == old(self)@[0],
            final(self)@ == old(self)@.skip(1),
    {
        self.v.remove(0)
    }
}

} // verus!
