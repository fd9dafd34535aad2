//! The institution registry: which token contract each institution runs,
//! exchange rates between contracts, and checks on swaps recorded between
//! them. It moves no balances itself.
use vstd::prelude::*;
use crate::assoc::{as_map, has_key, keys_unique, lemma_index, lemma_push, lemma_update};
use crate::env::{Address, Env};
use crate::error::Error;

verus! {

/// Rates are fixed-point with this many units to one: a rate of 1_000_000
/// converts one for one.
pub const RATE_SCALE: i128 = 1_000_000;

/// `a / d`, rounded toward zero.
pub open spec fn div_toward_zero(a: int, d: int) -> int {
    if a >= 0 {
        a / d
    } else {
        -((-a) / d)
    }
}

/// What `amount_in` converts to at `rate`, rounded toward zero.
pub open spec fn swap_amount(amount_in: int, rate: int) -> int {
    div_toward_zero(amount_in * rate, RATE_SCALE as int)
}

#[derive(Clone, Copy, Debug, PartialEq, Eq, Structural)]
pub struct Institution {
    pub token_contract: Address,
    pub inst_admin: Address,
}

#[derive(Clone, Copy, Debug, PartialEq, Eq, Structural)]
pub struct RateKey {
    pub from_contract: Address,
    pub to_contract: Address,
}

/// The registry as a reader sees it: institutions in the order they were
/// registered, and the configured rates.
pub struct Registry {
    pub admin: Option<Address>,
    pub institutions: Seq<(u64, Institution)>,
    pub rates: Map<RateKey, i128>,
}

impl Registry {
    pub open spec fn institution(self, id: u64) -> Option<Institution> {
        if as_map(self.institutions).dom().contains(id) {
            Some(as_map(self.institutions)[id])
        } else {
            None
        }
    }

    pub open spec fn rate(self, from_contract: Address, to_contract: Address) -> Option<i128> {
        let k = RateKey { from_contract, to_contract };
        if self.rates.dom().contains(k) {
            Some(self.rates[k])
        } else {
            None
        }
    }

    pub open spec fn admin_error(self, env: Env) -> Option<Error> {
        if self.admin is None {
            Some(Error::NotInitialized)
        } else if !env.authorizes(self.admin->0) {
            Some(Error::Unauthorized)
        } else {
            None
        }
    }

    pub open spec fn register_error(self, env: Env, id: u64) -> Option<Error> {
        if self.admin_error(env) is Some {
            self.admin_error(env)
        } else if self.institution(id) is Some {
            Some(Error::InstitutionAlreadyRegistered)
        } else {
            None
        }
    }

    pub open spec fn set_rate_error(self, env: Env, rate: i128) -> Option<Error> {
        if self.admin_error(env) is Some {
            self.admin_error(env)
        } else if rate <= 0 {
            Some(Error::RateMustBePositive)
        } else {
            None
        }
    }

    /// The outcome of converting `amount_in` from one contract to another.
    pub open spec fn swap_result(self, from_contract: Address, to_contract: Address, amount_in: i128) -> Result<i128, Error> {
        match self.rate(from_contract, to_contract) {
            None => Err(Error::NoRateConfigured),
            Some(rate) => if i128::MIN <= amount_in * rate <= i128::MAX {
                Ok(swap_amount(amount_in as int, rate as int) as i128)
            } else {
                Err(Error::Overflow)
            },
        }
    }

    /// The outcome of recording a swap of `amount_in` for `amount_out`.
    pub open spec fn record_swap_result(
        self,
        env: Env,
        from_contract: Address,
        to_contract: Address,
        amount_in: i128,
        amount_out: i128,
    ) -> Result<i128, Error> {
        if self.admin_error(env) is Some {
            Err(self.admin_error(env)->0)
        } else if amount_in <= 0 {
            Err(Error::AmountMustBePositive)
        } else {
            match self.swap_result(from_contract, to_contract, amount_in) {
                Err(e) => Err(e),
                Ok(expected) => if expected == amount_out {
                    Ok(amount_out)
                } else {
                    Err(Error::AmountOutMismatch)
                },
            }
        }
    }
}

pub struct InstitutionHub {
    admin: Option<Address>,
    institutions: Vec<(u64, Institution)>,
    rates: Vec<(RateKey, i128)>,
}

impl View for InstitutionHub {
    type V = Registry;

    closed spec fn view(&self) -> Registry {
        Registry { admin: self.admin, institutions: self.institutions@, rates: as_map(self.rates@) }
    }
}

impl InstitutionHub {
    pub closed spec fn wf(&self) -> bool {
        &&& keys_unique(self.institutions@)
        &&& keys_unique(self.rates@)
    }

    fn find_institution(&self, id: u64) -> (r: Option<usize>)
        requires
            self.wf(),
        ensures
            match r {
                Some(i) => i < self.institutions@.len() && self@.institution(id) == Some(
                    self.institutions@[i as int].1,
                ),
                None => self@.institution(id) is None,
            },
    {
        let mut i: usize = 0;
        while i < self.institutions.len()
            invariant
                self.wf(),
                i <= self.institutions@.len(),
                forall|j: int| 0 <= j < i ==> #[trigger] self.institutions@[j].0 != id,
            decreases self.institutions@.len() - i,
        {
            if self.institutions[i].0 == id {
                proof {
                    lemma_index(self.institutions@, i as int);
                }
                return Some(i);
            }
            i = i + 1;
        }
        None
    }

    fn find_rate(&self, k: RateKey) -> (r: Option<usize>)
        ensures
            match r {
                Some(i) => i < self.rates@.len() && self.rates@[i as int].0 == k,
                None => !has_key(self.rates@, k),
            },
    {
        let mut i: usize = 0;
        while i < self.rates.len()
            invariant
                i <= self.rates@.len(),
                forall|j: int| 0 <= j < i ==> #[trigger] self.rates@[j].0 != k,
            decreases self.rates@.len() - i,
        {
            if self.rates[i].0 == k {
                return Some(i);
            }
            i = i + 1;
        }
        None
    }

    fn read_rate(&self, from_contract: Address, to_contract: Address) -> (r: Option<i128>)
        requires
            self.wf(),
        ensures
            r == self@.rate(from_contract, to_contract),
    {
        match self.find_rate(RateKey { from_contract, to_contract }) {
            Some(i) => {
                proof {
                    lemma_index(self.rates@, i as int);
                }
                Some(self.rates[i].1)
            },
            None => None,
        }
    }

    fn check_admin(&self, env: &Env) -> (r: Result<(), Error>)
        ensures
            match self@.admin_error(*env) {
                Some(e) => r == Err::<(), Error>(e),
                None => r == Ok::<(), Error>(()),
            },
    {
        match self.admin {
            None => Err(Error::NotInitialized),
            Some(a) => if env.authenticated_as(a) {
                Ok(())
            } else {
                Err(Error::Unauthorized)
            },
        }
    }

    /// An empty registry without an admin.
    pub fn new() -> (r: InstitutionHub)
        ensures
            r.wf(),
            r@.admin is None,
            r@.institutions.len() == 0,
            r@.rates == Map::<RateKey, i128>::empty(),
    {
        let r = InstitutionHub { admin: None, institutions: Vec::new(), rates: Vec::new() };
        assert(r@.rates =~= Map::<RateKey, i128>::empty());
        r
    }

    /// Sets the platform admin, once.
    pub fn initialize(&mut self, admin: Address) -> (r: Result<(), Error>)
        requires
            old(self).wf(),
        ensures
            final(self).wf(),
            old(self)@.admin is Some ==> r == Err::<(), Error>(Error::AlreadyInitialized) && final(self)@ == old(self)@,
            old(self)@.admin is None ==> r == Ok::<(), Error>(()) && final(self)@ == (Registry { admin: Some(admin), ..old(self)@ }),
    {
        if self.admin.is_some() {
            return Err(Error::AlreadyInitialized);
        }
        self.admin = Some(admin);
        Ok(())
    }

    pub fn admin(&self) -> (r: Result<Address, Error>)
        ensures
            match self@.admin {
                Some(a) => r == Ok::<Address, Error>(a),
                None => r == Err::<Address, Error>(Error::NotInitialized),
            },
    {
        match self.admin {
            Some(a) => Ok(a),
            None => Err(Error::NotInitialized),
        }
    }

    pub fn set_admin(&mut self, env: &Env, new_admin: Address) -> (r: Result<(), Error>)
        requires
            old(self).wf(),
        ensures
            final(self).wf(),
            match old(self)@.admin_error(*env) {
                Some(e) => r == Err::<(), Error>(e) && final(self)@ == old(self)@,
                None => r == Ok::<(), Error>(()) && final(self)@ == (Registry { admin: Some(new_admin), ..old(self)@ }),
            },
    {
        match self.check_admin(env) {
            Ok(()) => {},
            Err(e) => return Err(e),
        }
        self.admin = Some(new_admin);
        Ok(())
    }

    /// The admin registers institution `institution_id`, whose points run on
    /// `token_contract` under `inst_admin`.
    pub fn register_institution(
        &mut self,
        env: &Env,
        institution_id: u64,
        token_contract: Address,
        inst_admin: Address,
    ) -> (r: Result<(), Error>)
        requires
            old(self).wf(),
        ensures
            final(self).wf(),
            match old(self)@.register_error(*env, institution_id) {
                Some(e) => r == Err::<(), Error>(e) && final(self)@ == old(self)@,
                None => r == Ok::<(), Error>(()) && final(self)@ == (Registry {
                    institutions: old(self)@.institutions.push((institution_id, Institution { token_contract, inst_admin })),
                    ..old(self)@
                }),
            },
    {
        match self.check_admin(env) {
            Ok(()) => {},
            Err(e) => return Err(e),
        }
        match self.find_institution(institution_id) {
            Some(_) => return Err(Error::InstitutionAlreadyRegistered),
            None => {},
        }
        let ghost s = self.institutions@;
        let inst = Institution { token_contract, inst_admin };
        proof {
            assert(!has_key(s, institution_id));
            lemma_push(s, institution_id, inst);
        }
        self.institutions.push((institution_id, inst));
        Ok(())
    }

    pub fn get_institution(&self, institution_id: u64) -> (r: Result<Address, Error>)
        requires
            self.wf(),
        ensures
            match self@.institution(institution_id) {
                Some(inst) => r == Ok::<Address, Error>(inst.token_contract),
                None => r == Err::<Address, Error>(Error::InstitutionNotFound),
            },
    {
        match self.find_institution(institution_id) {
            Some(i) => Ok(self.institutions[i].1.token_contract),
            None => Err(Error::InstitutionNotFound),
        }
    }

    pub fn get_inst_admin(&self, institution_id: u64) -> (r: Result<Address, Error>)
        requires
            self.wf(),
        ensures
            match self@.institution(institution_id) {
                Some(inst) => r == Ok::<Address, Error>(inst.inst_admin),
                None => r == Err::<Address, Error>(Error::InstitutionNotFound),
            },
    {
        match self.find_institution(institution_id) {
            Some(i) => Ok(self.institutions[i].1.inst_admin),
            None => Err(Error::InstitutionNotFound),
        }
    }

    /// Every registered institution with its token contract, in order of
    /// registration.
    pub fn get_institutions(&self) -> (r: Vec<(u64, Address)>)
        ensures
            r@.len() == self@.institutions.len(),
            forall|i: int|
                0 <= i < r@.len() ==> #[trigger] r@[i] == (self@.institutions[i].0, self@.institutions[i].1.token_contract),
    {
        let mut r: Vec<(u64, Address)> = Vec::new();
        let mut i: usize = 0;
        while i < self.institutions.len()
            invariant
                i <= self.institutions@.len(),
                r@.len() == i,
                forall|j: int|
                    0 <= j < i ==> #[trigger] r@[j] == (self.institutions@[j].0, self.institutions@[j].1.token_contract),
            decreases self.institutions@.len() - i,
        {
            let (id, inst) = self.institutions[i];
            r.push((id, inst.token_contract));
            i = i + 1;
        }
        r
    }

    /// The admin sets the rate from `from_contract` to `to_contract`, in
    /// millionths.
    pub fn set_exchange_rate(&mut self, env: &Env, from_contract: Address, to_contract: Address, rate: i128) -> (r: Result<(), Error>)
        requires
            old(self).wf(),
        ensures
            final(self).wf(),
            match old(self)@.set_rate_error(*env, rate) {
                Some(e) => r == Err::<(), Error>(e) && final(self)@ == old(self)@,
                None => r == Ok::<(), Error>(()) && final(self)@ == (Registry {
                    rates: old(self)@.rates.insert(RateKey { from_contract, to_contract }, rate),
                    ..old(self)@
                }),
            },
    {
        match self.check_admin(env) {
            Ok(()) => {},
            Err(e) => return Err(e),
        }
        if rate <= 0 {
            return Err(Error::RateMustBePositive);
        }
        let k = RateKey { from_contract, to_contract };
        let ghost s = self.rates@;
        match self.find_rate(k) {
            Some(i) => {
                proof {
                    lemma_update(s, i as int, rate);
                }
                self.rates.set(i, (k, rate));
            },
            None => {
                proof {
                    lemma_push(s, k, rate);
                }
                self.rates.push((k, rate));
            },
        }
        assert(self@.rates == old(self)@.rates.insert(k, rate));
        Ok(())
    }

    /// The configured rate, or zero where none is.
    pub fn get_rate(&self, from_contract: Address, to_contract: Address) -> (r: i128)
        requires
            self.wf(),
        ensures
            r == match self@.rate(from_contract, to_contract) {
                Some(v) => v,
                None => 0,
            },
    {
        match self.read_rate(from_contract, to_contract) {
            Some(v) => v,
            None => 0,
        }
    }

    /// What `amount_in` on `from_contract` is worth on `to_contract`.
    pub fn calculate_swap(&self, from_contract: Address, to_contract: Address, amount_in: i128) -> (r: Result<i128, Error>)
        requires
            self.wf(),
        ensures
            r == self@.swap_result(from_contract, to_contract, amount_in),
    {
        let rate = match self.read_rate(from_contract, to_contract) {
            Some(v) => v,
            None => return Err(Error::NoRateConfigured),
        };
        match amount_in.checked_mul(rate) {
            Some(p) => Ok(p / RATE_SCALE),
            None => Err(Error::Overflow),
        }
    }

    /// The admin records a swap of `amount_in` for `amount_out` by `student`;
    /// `amount_out` must be what the configured rate gives.
    pub fn record_swap(
        &self,
        env: &Env,
        student: Address,
        from_contract: Address,
        to_contract: Address,
        amount_in: i128,
        amount_out: i128,
    ) -> (r: Result<i128, Error>)
        requires
            self.wf(),
        ensures
            r == self@.record_swap_result(*env, from_contract, to_contract, amount_in, amount_out),
    {
        match self.check_admin(env) {
            Ok(()) => {},
            Err(e) => return Err(e),
        }
        if amount_in <= 0 {
            return Err(Error::AmountMustBePositive);
        }
        let expected = match self.calculate_swap(from_contract, to_contract, amount_in) {
            Ok(v) => v,
            Err(e) => return Err(e),
        };
        if amount_out != expected {
            return Err(Error::AmountOutMismatch);
        }
        Ok(amount_out)
    }
}

} // verus!
