use vstd::prelude::*;

verus! {

/// The host state that scripts observe and mutate: a single counter.
pub struct World {
    i: i64,
}

impl World {
    /// The counter's current value.
    pub closed spec fn count(self) -> i64 {
        self.i
    }

    /// The world after one greeting: the counter advanced by one, unless it
    /// already holds the largest value.
    pub closed spec fn greeted(self) -> World {
        if self.i < i64::MAX {
            World { i: (self.i + 1) as i64 }
        } else {
            self
        }
    }

    /// A world whose counter starts at `i`.
    pub fn new(i: i64) -> (w: World)
        ensures
            w.count() == i,
    {
        World { i }
    }

    /// The counter's current value.
    pub fn i(&self) -> (r: i64)
        ensures
            r == self.count(),
    {
        self.i
    }

    /// Greets the world: advances the counter by one and returns the value it
    /// held before the call. The counter must not be at its largest value.
    pub fn say_hi(&mut self) -> (seen: i64)
        requires
            old(self).count() < i64::MAX,
        ensures
            seen == old(self).count(),
            final(self).count() == old(self).count() + 1,
            *final(self) == old(self).greeted(),
    {
        let seen = self.i;
        self.i = self.i + 1;
        seen
    }
}

/// A world is determined by its counter.
pub proof fn lemma_same_count(a: World, b: World)
    ensures
        a.count() == b.count() ==> a == b,
{
}

/// What one greeting does to the counter.
pub proof fn lemma_greeted(w: World)
    ensures
        w.count() < i64::MAX ==> w.greeted().count() == w.count() + 1,
        w.count() == i64::MAX ==> w.greeted() == w,
{
}

} // verus!
