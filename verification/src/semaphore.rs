//! The build pool: a counting semaphore that gates every run of the build
//! tool.

use vstd::prelude::*;

verus! {

/// A counting semaphore as a plain value: how many permits there are and how
/// many of them are out. Waiting for a permit is left to whoever shares the
/// value between tasks.
#[derive(Debug)]
pub struct Semaphore {
    capacity: usize,
    in_use: usize,
}

impl Semaphore {
    #[verifier::type_invariant]
    spec fn inv(self) -> bool {
        self.in_use <= self.capacity
    }

    /// How many permits there are.
    pub closed spec fn capacity(&self) -> nat {
        self.capacity as nat
    }

    /// How many permits are out.
    pub closed spec fn in_use(&self) -> nat {
        self.in_use as nat
    }

    /// A semaphore with `count` permits, none of them out.
    pub fn init(count: usize) -> (r: Semaphore)
        ensures
            r.capacity() == count,
            r.in_use() == 0,
    {
        Semaphore { capacity: count, in_use: 0 }
    }

    /// How many permits there are.
    pub fn permits(&self) -> (r: usize)
        ensures
            r == self.capacity(),
            self.in_use() <= self.capacity(),
    {
        proof {
            use_type_invariant(self);
        }
        self.capacity
    }

    /// How many permits are out. Never more than there are.
    pub fn permits_in_use(&self) -> (r: usize)
        ensures
            r == self.in_use(),
            self.in_use() <= self.capacity(),
    {
        proof {
            use_type_invariant(self);
        }
        self.in_use
    }

    /// Takes one permit if one is left. Returns whether it did.
    pub fn acquire(&mut self) -> (taken: bool)
        ensures
            taken == (old(self).in_use() < old(self).capacity()),
            final(self).capacity() == old(self).capacity(),
            final(self).in_use() == old(self).in_use() + if taken {
                1nat
            } else {
                0nat
            },
            final(self).in_use() <= final(self).capacity(),
    {
        proof {
            use_type_invariant(&*self);
        }
        if self.in_use < self.capacity {
            self.in_use = self.in_use + 1;
            true
        } else {
            false
        }
    }

    /// Gives one permit back if any is out. Returns whether it did.
    pub fn release(&mut self) -> (given: bool)
        ensures
            given == (old(self).in_use() > 0),
            final(self).capacity() == old(self).capacity(),
            final(self).in_use() == old(self).in_use() - if given {
                1nat
            } else {
                0nat
            },
            final(self).in_use() <= final(self).capacity(),
    {
        proof {
            use_type_invariant(&*self);
        }
        if self.in_use > 0 {
            self.in_use = self.in_use - 1;
            true
        } else {
            false
        }
    }

    /// Runs `f` under one permit: takes a permit, runs `f`, gives the permit
    /// back and returns what `f` returned. Where no permit is left `f` does
    /// not run and `None` is returned. The semaphore is afterwards as it was.
    pub fn execute<F, R>(&mut self, f: F) -> (r: Option<R>) where F: FnOnce() -> R
        requires
            f.requires(()),
        ensures
            r is Some <==> old(self).in_use() < old(self).capacity(),
            r is Some ==> f.ensures((), r->Some_0),
            final(self).capacity() == old(self).capacity(),
            final(self).in_use() == old(self).in_use(),
    {
        if self.acquire() {
            let result = f();
            self.release();
            Some(result)
        } else {
            None
        }
    }
}

} // verus!
