use vstd::prelude::*;

verus! {

/// The most substeps the adaptive integrator takes within one frame: a
/// frame whose remaining time is not used up by then ends short.
pub const MAX_SUBSTEPS: u32 = 50000;

/// Counts the substeps of one frame and refuses any beyond `MAX_SUBSTEPS`.
pub struct SubstepCounter {
    taken: u32,
}

impl View for SubstepCounter {
    type V = nat;

    /// The number of substeps granted so far.
    closed spec fn view(&self) -> nat {
        self.taken as nat
    }
}

/// The count after one more request for a substep.
pub open spec fn request_step(taken: nat) -> nat {
    if taken < MAX_SUBSTEPS { taken + 1 } else { taken }
}

/// The count after `requests` more requests.
pub open spec fn after_requests(taken: nat, requests: nat) -> nat
    decreases requests,
{
    if requests == 0 {
        taken
    } else {
        after_requests(request_step(taken), (requests - 1) as nat)
    }
}

impl SubstepCounter {
    #[verifier::type_invariant]
    spec fn within_cap(self) -> bool {
        self.taken <= MAX_SUBSTEPS
    }

    /// A counter for a new frame: no substep taken yet.
    pub fn new() -> (c: SubstepCounter)
        ensures
            c@ == 0,
    {
        SubstepCounter { taken: 0 }
    }

    /// Asks for one more substep: granted, and counted, while fewer than
    /// `MAX_SUBSTEPS` have been granted; refused from then on.
    pub fn try_take(&mut self) -> (granted: bool)
        ensures
            granted == (old(self)@ < MAX_SUBSTEPS),
            final(self)@ == request_step(old(self)@),
            final(self)@ <= MAX_SUBSTEPS,
    {
        proof {
            use_type_invariant(&*self);
        }
        if self.taken < MAX_SUBSTEPS {
            self.taken = self.taken + 1;
            true
        } else {
            false
        }
    }

    /// The number of substeps granted so far.
    pub fn taken(&self) -> (n: u32)
        ensures
            n == self@,
            n <= MAX_SUBSTEPS,
    {
        proof {
            use_type_invariant(self);
        }
        self.taken
    }
}

/// However many substeps are requested, a counter grants them until
/// `MAX_SUBSTEPS` have been taken and none after: from `taken` granted,
/// `requests` more requests leave the count at the smaller of
/// `taken + requests` and `MAX_SUBSTEPS`.
pub proof fn lemma_substeps_capped(taken: nat, requests: nat)
    requires
        taken <= MAX_SUBSTEPS,
    ensures
        after_requests(taken, requests) == if taken + requests <= MAX_SUBSTEPS {
            taken + requests
        } else {
            MAX_SUBSTEPS as nat
        },
    decreases requests,
{
    if requests > 0 {
        lemma_substeps_capped(request_step(taken), (requests - 1) as nat);
    }
}

} // verus!
