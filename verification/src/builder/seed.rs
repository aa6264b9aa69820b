use vstd::prelude::*;

verus! {

/// A source of fresh graph ids: each id it hands out is larger than every
/// id it handed out before.
#[derive(Debug)]
pub struct Seed {
    next: u64,
}

impl Default for Seed {
    fn default() -> (r: Self)
        ensures
            r.next() == 1,
    {
        Seed { next: 1 }
    }
}

impl Seed {
    /// The next id to hand out.
    pub closed spec fn next(&self) -> u64 {
        self.next
    }

    /// Hands out one fresh id.
    pub fn generate(&mut self) -> (r: u64)
        requires
            old(self).next() < u64::MAX,
        ensures
            r == old(self).next(),
            final(self).next() == old(self).next() + 1,
    {
        self.allocate(1)
    }

    /// Hands out `len` fresh ids in a row and returns the first.
    pub fn allocate(&mut self, len: u64) -> (r: u64)
        requires
            old(self).next() + len <= u64::MAX,
        ensures
            r == old(self).next(),
            final(self).next() == old(self).next() + len,
    {
        let seed_origin = self.next;
        self.next = self.next + len;
        seed_origin
    }
}

} // verus!
