//! Authorization proofs as explicit values.
//!
//! The host environment verifies which identities have cryptographically
//! approved the current invocation; the ledger only ever asks whether a
//! given identity is among them. An [`AuthProof`] carries that verified
//! set, so the authorization dependency is visible in every signature
//! instead of being an ambient capability.

use vstd::prelude::*;

use crate::errors::Error;

verus! {

/// The set of identities that have approved the current invocation.
pub struct AuthProof {
    approved: Vec<u64>,
}

impl AuthProof {
    /// The identities this proof covers.
    pub closed spec fn view(&self) -> Set<u64> {
        Set::new(|id: u64| self.approved@.contains(id))
    }

    /// A proof that covers no identity at all.
    pub fn new() -> (proof_of: Self)
        ensures
            proof_of@ == Set::<u64>::empty(),
    {
        let proof_of = AuthProof { approved: Vec::new() };
        proof { assert(proof_of@ =~= Set::<u64>::empty()); }
        proof_of
    }

    /// Extends the proof to cover `id` as well.
    pub fn grant(&mut self, id: u64)
        ensures
            final(self)@ == old(self)@.insert(id),
    {
        let ghost pre = self.approved@;
        self.approved.push(id);
        proof {
            assert forall|x: u64| self@.contains(x) <==> old(self)@.insert(id).contains(x) by {
                if self.approved@.contains(x) {
                    let k = choose|k: int| 0 <= k < self.approved@.len() && self.approved@[k] == x;
                    if k < pre.len() {
                        assert(pre[k] == x);
                    }
                }
                if pre.contains(x) {
                    let k = choose|k: int| 0 <= k < pre.len() && pre[k] == x;
                    assert(self.approved@[k] == x);
                }
                if x == id {
                    assert(self.approved@[pre.len() as int] == x);
                }
            }
            assert(self@ =~= old(self)@.insert(id));
        }
    }

    /// Succeeds exactly when `id` is among the approved identities;
    /// otherwise reports `Unauthorized`.
    pub fn require(&self, id: u64) -> (granted: Result<(), Error>)
        ensures
            granted is Ok <==> self@.contains(id),
            granted is Err ==> granted == Err::<(), Error>(Error::Unauthorized),
    {
        let n = self.approved.len();
        for i in 0..n
            invariant
                n == self.approved.len(),
                forall|j: int| 0 <= j < i ==> self.approved@[j] != id,
        {
            if self.approved[i] == id {
                return Ok(());
            }
        }
        assert(!self.approved@.contains(id));
        Err(Error::Unauthorized)
    }
}

} // verus!
