use std::marker::PhantomData;
use vstd::prelude::*;

verus! {

/// An opaque identity handed out by an [`IdPool`]; `T` names the identity space.
pub struct Id<T> {
    pub id: u64,
    pub parent: u64,
    pub _t: PhantomData<T>,
}

impl<T> Id<T> {
    /// Two identities are the same when they come from the same pool run and slot.
    pub fn same(&self, other: &Id<T>) -> (r: bool)
        ensures
            r == (self.id == other.id && self.parent == other.parent),
    {
        self.id == other.id && self.parent == other.parent
    }

    pub fn duplicate(&self) -> (r: Id<T>)
        ensures
            r.id == self.id,
            r.parent == self.parent,
    {
        Id { id: self.id, parent: self.parent, _t: PhantomData }
    }
}

/// Issues identities in increasing order, all tagged with the pool's nonce.
pub struct IdPool<T> {
    pub nonce: u64,
    pub last: u64,
    pub _t: PhantomData<T>,
}

impl<T> IdPool<T> {
    pub fn new(nonce: u64) -> (r: IdPool<T>)
        ensures
            r.nonce == nonce,
            r.last == 0,
    {
        IdPool { nonce, last: 0, _t: PhantomData }
    }

    /// Hands out the next identity of this pool.
    pub fn next(&mut self) -> (r: Id<T>)
        requires
            old(self).last < u64::MAX,
        ensures
            r.id == old(self).last,
            r.parent == old(self).nonce,
            final(self).last == old(self).last + 1,
            final(self).nonce == old(self).nonce,
    {
        let id = Id { id: self.last, parent: self.nonce, _t: PhantomData };
        self.last = self.last + 1;
        id
    }
}

} // verus!
