//! The admission gate: a counter of held slots under a capacity.

use vstd::prelude::*;
use crate::error::QueueError;

verus! {

/// Counts the slots that running downloads hold. A slot is granted only
/// while fewer than `capacity` are held.
#[derive(Debug)]
pub struct AdmissionGate {
    capacity: u32,
    held: u32,
}

impl AdmissionGate {
    /// Largest number of slots that may be held at once.
    pub closed spec fn limit(&self) -> nat {
        self.capacity as nat
    }

    /// Number of slots held now.
    pub closed spec fn in_use(&self) -> nat {
        self.held as nat
    }

    /// The capacity is positive. Lowering the capacity may leave more slots
    /// held than it allows, so this does not bound `in_use`.
    pub open spec fn wf(&self) -> bool {
        self.limit() >= 1
    }

    /// Slots that can still be granted.
    pub open spec fn free(&self) -> nat {
        if self.in_use() < self.limit() {
            (self.limit() - self.in_use()) as nat
        } else {
            0
        }
    }

    /// A gate with no slot held. A capacity of zero is refused.
    pub fn new(capacity: u32) -> (r: Result<AdmissionGate, QueueError>)
        ensures
            capacity == 0 ==> r == Err::<AdmissionGate, QueueError>(QueueError::Config),
            capacity >= 1 ==> r is Ok && r->Ok_0.wf() && r->Ok_0.limit() == capacity
                && r->Ok_0.in_use() == 0,
    {
        if capacity == 0 {
            Err(QueueError::Config)
        } else {
            Ok(AdmissionGate { capacity, held: 0 })
        }
    }

    pub fn capacity(&self) -> (n: u32)
        ensures
            n == self.limit(),
    {
        self.capacity
    }

    pub fn held(&self) -> (n: u32)
        ensures
            n == self.in_use(),
    {
        self.held
    }

    pub fn available(&self) -> (n: u32)
        ensures
            n == self.free(),
    {
        if self.held < self.capacity {
            self.capacity - self.held
        } else {
            0
        }
    }

    /// Takes a slot if one is free. Never blocks.
    pub fn try_acquire(&mut self) -> (granted: bool)
        requires
            old(self).wf(),
        ensures
            final(self).wf(),
            final(self).limit() == old(self).limit(),
            granted == (old(self).in_use() < old(self).limit()),
            granted ==> final(self).in_use() == old(self).in_use() + 1,
            !granted ==> final(self).in_use() == old(self).in_use(),
    {
        if self.held < self.capacity {
            self.held = self.held + 1;
            true
        } else {
            false
        }
    }

    /// Gives a slot back. With no slot held nothing changes and the result
    /// is `false`: the caller released twice and should report it.
    pub fn release(&mut self) -> (released: bool)
        requires
            old(self).wf(),
        ensures
            final(self).wf(),
            final(self).limit() == old(self).limit(),
            released == (old(self).in_use() > 0),
            released ==> final(self).in_use() == old(self).in_use() - 1,
            !released ==> final(self).in_use() == 0,
    {
        if self.held > 0 {
            self.held = self.held - 1;
            true
        } else {
            false
        }
    }

    /// Changes the capacity and leaves the held slots as they are. A capacity
    /// of zero is refused and changes nothing.
    pub fn set_capacity(&mut self, capacity: u32) -> (r: Result<(), QueueError>)
        requires
            old(self).wf(),
        ensures
            final(self).wf(),
            final(self).in_use() == old(self).in_use(),
            capacity == 0 ==> r == Err::<(), QueueError>(QueueError::Config) && final(self).limit()
                == old(self).limit(),
            capacity >= 1 ==> r is Ok && final(self).limit() == capacity,
    {
        if capacity == 0 {
            Err(QueueError::Config)
        } else {
            self.capacity = capacity;
            Ok(())
        }
    }
}

} // verus!
