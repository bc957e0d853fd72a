use vstd::prelude::*;

verus! {

/// The default concurrency cap when the caller names none.
pub const DEFAULT_LANES: u64 = 5;

/// The admission controller: a pool of `cap` permits, of which `active` are
/// currently held by running transfer units. A unit may start only while a
/// permit is free, so at no instant do more than `cap` units run.
#[derive(Debug, Clone, Copy)]
pub struct Admission {
    pub cap: u64,
    pub active: u64,
}

impl Admission {
    /// Exactly `cap` permits exist and no more can ever be held at once.
    pub open spec fn wf(self) -> bool {
        &&& self.cap >= 1
        &&& self.active <= self.cap
    }

    /// A fresh pool of `cap` permits, all free.
    pub fn new(cap: u64) -> (r: Admission)
        requires
            cap >= 1,
        ensures
            r == (Admission { cap, active: 0 }),
            r.wf(),
    {
        Admission { cap, active: 0 }
    }

    /// Hand out a permit exactly when one is free: the grant is refused
    /// precisely while all `cap` permits are held.
    pub fn try_acquire(&mut self) -> (granted: bool)
        requires
            old(self).wf(),
        ensures
            final(self).wf(),
            final(self).cap == old(self).cap,
            granted == (old(self).active < old(self).cap),
            granted ==> final(self).active == old(self).active + 1,
            !granted ==> final(self).active == old(self).active,
    {
        if self.active < self.cap {
            self.active = self.active + 1;
            true
        } else {
            false
        }
    }

    /// Return one held permit to the pool.
    pub fn release(&mut self)
        requires
            old(self).wf(),
            old(self).active >= 1,
        ensures
            final(self).wf(),
            final(self).cap == old(self).cap,
            final(self).active == old(self).active - 1,
    {
        self.active = self.active - 1;
    }

    /// Whether a permit is currently free.
    pub fn has_free_slot(&self) -> (b: bool)
        ensures
            b == (self.active < self.cap),
    {
        self.active < self.cap
    }
}

} // verus!
