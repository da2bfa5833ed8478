use vstd::prelude::*;

verus! {

/// Remaining outbound-fetch allowance for one activity's processing.
///
/// Each inbox delivery gets its own budget; it is never shared between
/// deliveries.  The remaining capacity only ever decreases, and resolution
/// aborts with `BudgetExceeded` once it is exhausted, which bounds recursive
/// fetch chains across the federated graph.
pub struct RequestBudget {
    remaining: u32,
}

impl RequestBudget {
    pub closed spec fn spec_remaining(&self) -> nat {
        self.remaining as nat
    }

    pub fn new(limit: u32) -> (r: RequestBudget)
        ensures
            r.spec_remaining() == limit as nat,
    {
        RequestBudget { remaining: limit }
    }

    pub fn remaining(&self) -> (r: u32)
        ensures
            r as nat == self.spec_remaining(),
    {
        self.remaining
    }

    /// Consume one unit if any remains; report whether a unit was available.
    pub fn try_consume(&mut self) -> (r: bool)
        ensures
            r == (old(self).spec_remaining() > 0),
            r ==> final(self).spec_remaining() == old(self).spec_remaining() - 1,
            !r ==> final(self).spec_remaining() == 0 && *final(self) == *old(self),
    {
        if self.remaining > 0 {
            self.remaining = self.remaining - 1;
            true
        } else {
            false
        }
    }
}

} // verus!
