//! The limiter that bounds how many directory calls are outstanding
//! at once.

use vstd::prelude::*;

verus! {

/// A limiter as plain numbers: how many calls it admits at once, and how many
/// are outstanding.
pub struct LimiterView {
    pub capacity: nat,
    pub in_flight: nat,
}

/// What can be asked of a limiter.
pub enum LimiterOp {
    Acquire,
    Release,
}

impl LimiterView {
    /// A limiter with nothing outstanding.
    pub open spec fn fresh(capacity: nat) -> LimiterView {
        LimiterView { capacity, in_flight: 0 }
    }

    /// Whether a slot is free.
    pub open spec fn admits(self) -> bool {
        self.in_flight < self.capacity
    }

    /// The limiter after a call asked for a slot: one more is outstanding where
    /// a slot was free, nothing changes where none was.
    pub open spec fn acquire(self) -> LimiterView {
        if self.admits() {
            LimiterView { in_flight: self.in_flight + 1, ..self }
        } else {
            self
        }
    }

    /// The limiter after a call gave its slot back.
    pub open spec fn release(self) -> LimiterView {
        if self.in_flight > 0 {
            LimiterView { in_flight: (self.in_flight - 1) as nat, ..self }
        } else {
            self
        }
    }

    /// The limiter after one request.
    pub open spec fn apply(self, op: LimiterOp) -> LimiterView {
        match op {
            LimiterOp::Acquire => self.acquire(),
            LimiterOp::Release => self.release(),
        }
    }

    /// The limiter after a run of requests, in order.
    pub open spec fn after(self, ops: Seq<LimiterOp>) -> LimiterView
        decreases ops.len(),
    {
        if ops.len() == 0 {
            self
        } else {
            self.apply(ops[0]).after(ops.drop_first())
        }
    }
}

/// Whatever is asked of a limiter and in whatever order, it never has more
/// calls outstanding than its capacity, and its capacity stays as it was
/// made.
pub proof fn law_never_above_capacity(limiter: LimiterView, ops: Seq<LimiterOp>)
    requires
        limiter.in_flight <= limiter.capacity,
    ensures
        limiter.after(ops).in_flight <= limiter.capacity,
        limiter.after(ops).capacity == limiter.capacity,
    decreases ops.len(),
{
    if ops.len() > 0 {
        law_never_above_capacity(limiter.apply(ops[0]), ops.drop_first());
    }
}

/// A counting limiter of fixed capacity.
#[derive(Debug)]
pub struct Limiter {
    capacity: usize,
    in_flight: usize,
}

impl View for Limiter {
    type V = LimiterView;

    closed spec fn view(&self) -> LimiterView {
        LimiterView { capacity: self.capacity as nat, in_flight: self.in_flight as nat }
    }
}

impl Limiter {
    #[verifier::type_invariant]
    spec fn within_capacity(self) -> bool {
        self.in_flight <= self.capacity
    }

    /// A limiter that admits `capacity` calls at once, with none outstanding.
    pub fn new(capacity: usize) -> (limiter: Limiter)
        ensures
            limiter@ == LimiterView::fresh(capacity as nat),
    {
        Limiter { capacity, in_flight: 0 }
    }

    /// How many calls the limiter admits at once.
    pub fn capacity(&self) -> (r: usize)
        ensures
            r == self@.capacity,
    {
        self.capacity
    }

    /// How many calls are outstanding. It is never above the capacity.
    pub fn in_flight(&self) -> (r: usize)
        ensures
            r == self@.in_flight,
            r <= self@.capacity,
    {
        proof {
            use_type_invariant(self);
        }
        self.in_flight
    }

    /// Asks for a slot. Where one is free it is taken and the answer is
    /// `true`; where none is free nothing changes and the caller has to wait.
    pub fn try_acquire(&mut self) -> (admitted: bool)
        ensures
            admitted == old(self)@.admits(),
            final(self)@ == old(self)@.acquire(),
    {
        if self.in_flight < self.capacity {
            self.in_flight = self.in_flight + 1;
            true
        } else {
            false
        }
    }

    /// Gives a slot back. The answer says whether one was taken.
    pub fn release(&mut self) -> (released: bool)
        ensures
            released == (old(self)@.in_flight > 0),
            final(self)@ == old(self)@.release(),
    {
        if self.in_flight > 0 {
            proof {
                use_type_invariant(&*self);
            }
            self.in_flight = self.in_flight - 1;
            true
        } else {
            false
        }
    }
}

} // verus!
