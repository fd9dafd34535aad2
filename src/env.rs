//! Accounts and the ledger context an operation runs in.
use vstd::prelude::*;

verus! {

/// An account identifier.
#[derive(Clone, Copy, Debug, PartialEq, Eq, Structural)]
pub struct Address {
    pub id: u64,
}

impl Address {
    pub fn new(id: u64) -> (r: Address)
        ensures
            r.id == id,
    {
        Address { id }
    }
}

/// What the host supplies to one operation: the current ledger sequence
/// number, the ledger timestamp, and the accounts whose authentication proof
/// accompanies the call (or every account, when signature checks are mocked).
pub struct Env {
    pub sequence: u32,
    pub timestamp: u64,
    pub all_authorized: bool,
    pub signers: Vec<Address>,
}

impl Env {
    /// The call carries a valid authentication proof from `a`.
    pub open spec fn authorizes(&self, a: Address) -> bool {
        self.all_authorized || self.signers@.contains(a)
    }

    /// A ledger at `sequence` and `timestamp` with no authenticated account.
    pub fn new(sequence: u32, timestamp: u64) -> (r: Env)
        ensures
            r.sequence == sequence,
            r.timestamp == timestamp,
            forall|a: Address| !r.authorizes(a),
    {
        Env { sequence, timestamp, all_authorized: false, signers: Vec::new() }
    }

    /// Treat every account as authenticated.
    pub fn mock_all_auths(&mut self)
        ensures
            final(self).sequence == old(self).sequence,
            final(self).timestamp == old(self).timestamp,
            forall|a: Address| final(self).authorizes(a),
    {
        self.all_authorized = true;
    }

    /// Add `a` to the authenticated accounts.
    pub fn authorize(&mut self, a: Address)
        ensures
            final(self).sequence == old(self).sequence,
            final(self).timestamp == old(self).timestamp,
            forall|b: Address| final(self).authorizes(b) == (old(self).authorizes(b) || b == a),
    {
        self.signers.push(a);
        assert forall|b: Address| final(self).authorizes(b) == (old(self).authorizes(b) || b == a) by {
            if old(self).signers@.contains(b) {
                let i = choose|i: int| 0 <= i < old(self).signers@.len() && old(self).signers@[i] == b;
                assert(self.signers@[i] == b);
            }
            if self.signers@.contains(b) && b != a {
                let i = choose|i: int| 0 <= i < self.signers@.len() && self.signers@[i] == b;
                assert(i < old(self).signers@.len());
                assert(old(self).signers@[i] == b);
            }
            if b == a {
                assert(self.signers@[self.signers@.len() - 1] == a);
            }
        }
    }

    /// Move the ledger clock.
    pub fn set_sequence(&mut self, sequence: u32)
        ensures
            final(self).sequence == sequence,
            final(self).timestamp == old(self).timestamp,
            forall|a: Address| final(self).authorizes(a) == old(self).authorizes(a),
    {
        self.sequence = sequence;
    }

    /// Whether the call is authenticated as `a`.
    pub fn authenticated_as(&self, a: Address) -> (r: bool)
        ensures
            r == self.authorizes(a),
    {
        if self.all_authorized {
            return true;
        }
        let mut i: usize = 0;
        while i < self.signers.len()
            invariant
                i <= self.signers@.len(),
                forall|j: int| 0 <= j < i ==> self.signers@[j] != a,
                !self.all_authorized,
            decreases self.signers@.len() - i,
        {
            if self.signers[i] == a {
                return true;
            }
            i = i + 1;
        }
        false
    }
}

} // verus!
