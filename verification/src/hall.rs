//! A hall: the fixed row of hooks of one unit.
use vstd::prelude::*;
use crate::model::Hook;

verus! {

/// A row of hooks whose number is fixed when the hall is built. Each hook is
/// empty or holds one animal, which it owns.
pub struct Hall<A> {
    hooks: Vec<Hook<A>>,
}

impl<A> View for Hall<A> {
    type V = Seq<Hook<A>>;

    /// The hooks of the hall, from index zero upwards.
    closed spec fn view(&self) -> Seq<Hook<A>> {
        self.hooks@
    }
}

impl<A> Hall<A> {
    /// A hall of `capacity` hooks, all of them empty.
    pub fn new(capacity: usize) -> (hall: Self)
        ensures
            hall@ == Seq::<Hook<A>>::new(capacity as nat, |i: int| None),
    {
        let mut hooks: Vec<Hook<A>> = Vec::new();
        let mut made: usize = 0;
        while made < capacity
            invariant
                made <= capacity,
                hooks@ == Seq::<Hook<A>>::new(made as nat, |i: int| None),
            decreases capacity - made,
        {
            hooks.push(None);
            made += 1;
        }
        Hall { hooks }
    }

    /// The hooks of the hall, to read.
    pub fn hooks(&self) -> (hooks: &Vec<Hook<A>>)
        ensures
            hooks@ == self@,
    {
        &self.hooks
    }

    /// Hangs `animal` on hook `index` and leaves the other hooks alone.
    pub(crate) fn hang(&mut self, index: usize, animal: Box<A>)
        requires
            index < old(self)@.len(),
        ensures
            final(self)@ == old(self)@.update(index as int, Some(animal)),
    {
        self.hooks[index] = Some(animal);
    }
}

} // verus!
