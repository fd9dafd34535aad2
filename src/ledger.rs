//! The abstract state of the points ledger and the transition each operation
//! makes on it.
use vstd::prelude::*;
use crate::env::{Address, Env};
use crate::error::Error;

verus! {

/// The pair an allowance is recorded under.
#[derive(Clone, Copy, Debug, PartialEq, Eq, Structural)]
pub struct AllowanceKey {
    pub from: Address,
    pub spender: Address,
}

/// A stored allowance: what is left to spend, and the last ledger sequence
/// number at which it can be spent.
#[derive(Clone, Copy, Debug, PartialEq, Eq, Structural)]
pub struct AllowanceValue {
    pub amount: i128,
    pub expiration_ledger: u32,
}

/// The notification a successful operation publishes.
#[derive(Clone, Copy, Debug, PartialEq, Eq, Structural)]
pub enum Event {
    Mint { admin: Address, to: Address, amount: i128 },
    Burn { from: Address, amount: i128 },
    Transfer { from: Address, to: Address, amount: i128 },
    Approve { from: Address, spender: Address, amount: i128, expiration_ledger: u32 },
}

/// The ledger as a reader sees it. An account without an entry in `balances`
/// holds zero; a pair without an entry in `allowances` holds a zero allowance
/// that expired at sequence zero.
pub struct Ledger {
    pub admin: Option<Address>,
    pub name: Seq<char>,
    pub symbol: Seq<char>,
    pub total_supply: i128,
    pub balances: Map<Address, i128>,
    pub allowances: Map<AllowanceKey, AllowanceValue>,
}

pub open spec fn allowance_key(from: Address, spender: Address) -> AllowanceKey {
    AllowanceKey { from, spender }
}

/// What an allowance record is worth at ledger sequence `sequence`.
pub open spec fn spendable(v: AllowanceValue, sequence: u32) -> i128 {
    if sequence > v.expiration_ledger {
        0
    } else {
        v.amount
    }
}

impl Ledger {
    pub open spec fn balance(self, a: Address) -> i128 {
        if self.balances.dom().contains(a) {
            self.balances[a]
        } else {
            0
        }
    }

    pub open spec fn allowance_record(self, from: Address, spender: Address) -> AllowanceValue {
        let k = allowance_key(from, spender);
        if self.allowances.dom().contains(k) {
            self.allowances[k]
        } else {
            AllowanceValue { amount: 0, expiration_ledger: 0 }
        }
    }

    /// The allowance `spender` may draw on from `from` at ledger `sequence`.
    pub open spec fn allowance(self, from: Address, spender: Address, sequence: u32) -> i128 {
        spendable(self.allowance_record(from, spender), sequence)
    }

    pub open spec fn with_balance(self, a: Address, v: int) -> Ledger {
        Ledger { balances: self.balances.insert(a, v as i128), ..self }
    }

    pub open spec fn with_supply(self, v: int) -> Ledger {
        Ledger { total_supply: v as i128, ..self }
    }

    pub open spec fn with_allowance(self, k: AllowanceKey, v: AllowanceValue) -> Ledger {
        Ledger { allowances: self.allowances.insert(k, v), ..self }
    }

    pub open spec fn initialize_error(self) -> Option<Error> {
        if self.admin is Some {
            Some(Error::AlreadyInitialized)
        } else {
            None
        }
    }

    pub open spec fn initialized(self, admin: Address, name: Seq<char>, symbol: Seq<char>) -> Ledger {
        Ledger { admin: Some(admin), name, symbol, total_supply: 0, ..self }
    }

    /// The fault of a call that needs the admin's authentication, if any.
    pub open spec fn admin_error(self, env: Env) -> Option<Error> {
        if self.admin is None {
            Some(Error::NotInitialized)
        } else if !env.authorizes(self.admin->0) {
            Some(Error::Unauthorized)
        } else {
            None
        }
    }

    pub open spec fn set_admin_error(self, env: Env) -> Option<Error> {
        self.admin_error(env)
    }

    pub open spec fn with_admin(self, new_admin: Address) -> Ledger {
        Ledger { admin: Some(new_admin), ..self }
    }

    pub open spec fn mint_error(self, env: Env, amount: i128) -> Option<Error> {
        if self.admin_error(env) is Some {
            self.admin_error(env)
        } else if amount <= 0 {
            Some(Error::AmountMustBePositive)
        } else if self.total_supply + amount > i128::MAX {
            Some(Error::Overflow)
        } else {
            None
        }
    }

    pub open spec fn minted(self, to: Address, amount: i128) -> Ledger {
        self.with_balance(to, self.balance(to) + amount).with_supply(self.total_supply + amount)
    }

    /// Removes `amount` from `from` and from the supply.
    pub open spec fn burned(self, from: Address, amount: i128) -> Ledger {
        self.with_balance(from, self.balance(from) - amount).with_supply(self.total_supply - amount)
    }

    pub open spec fn burn_error(self, env: Env, from: Address, amount: i128) -> Option<Error> {
        if !env.authorizes(from) {
            Some(Error::Unauthorized)
        } else if amount <= 0 {
            Some(Error::AmountMustBePositive)
        } else if self.balance(from) < amount {
            Some(Error::InsufficientBalance)
        } else {
            None
        }
    }

    pub open spec fn clawback_error(self, env: Env, from: Address, amount: i128) -> Option<Error> {
        if self.admin_error(env) is Some {
            self.admin_error(env)
        } else if amount <= 0 {
            Some(Error::AmountMustBePositive)
        } else if self.balance(from) < amount {
            Some(Error::InsufficientBalance)
        } else {
            None
        }
    }

    pub open spec fn transfer_error(self, env: Env, from: Address, amount: i128) -> Option<Error> {
        self.burn_error(env, from, amount)
    }

    /// Debits `from`, then credits `to` on the debited ledger.
    pub open spec fn transferred(self, from: Address, to: Address, amount: i128) -> Ledger {
        let debited = self.with_balance(from, self.balance(from) - amount);
        debited.with_balance(to, debited.balance(to) + amount)
    }

    /// The fault of a call in which `spender` draws `amount` from `from`'s
    /// allowance and balance, checked in this order: authentication, amount,
    /// expiry, allowance, balance.
    pub open spec fn spend_error(self, env: Env, spender: Address, from: Address, amount: i128) -> Option<Error> {
        let rec = self.allowance_record(from, spender);
        if !env.authorizes(spender) {
            Some(Error::Unauthorized)
        } else if amount <= 0 {
            Some(Error::AmountMustBePositive)
        } else if env.sequence > rec.expiration_ledger {
            Some(Error::AllowanceExpired)
        } else if rec.amount < amount {
            Some(Error::InsufficientAllowance)
        } else if self.balance(from) < amount {
            Some(Error::InsufficientBalance)
        } else {
            None
        }
    }

    /// Takes `amount` off the allowance of `spender` over `from`.
    pub open spec fn drawn(self, spender: Address, from: Address, amount: i128) -> Ledger {
        let rec = self.allowance_record(from, spender);
        self.with_allowance(
            allowance_key(from, spender),
            AllowanceValue { amount: (rec.amount - amount) as i128, expiration_ledger: rec.expiration_ledger },
        )
    }

    pub open spec fn approve_error(self, env: Env, from: Address, expiration_ledger: u32) -> Option<Error> {
        if !env.authorizes(from) {
            Some(Error::Unauthorized)
        } else if expiration_ledger < env.sequence {
            Some(Error::ExpirationInPast)
        } else {
            None
        }
    }

    pub open spec fn approved(self, from: Address, spender: Address, amount: i128, expiration_ledger: u32) -> Ledger {
        self.with_allowance(allowance_key(from, spender), AllowanceValue { amount, expiration_ledger })
    }
}

/// A debit beyond the balance is refused with `InsufficientBalance` once the
/// amount and the authentication checks pass, so no balance goes negative.
pub proof fn overdraft_is_refused(m: Ledger, env: Env, from: Address, amount: i128)
    requires
        amount > 0,
        env.authorizes(from),
        m.balance(from) < amount,
    ensures
        m.burn_error(env, from, amount) == Some(Error::InsufficientBalance),
        m.transfer_error(env, from, amount) == Some(Error::InsufficientBalance),
        m.admin_error(env) is None ==> m.clawback_error(env, from, amount) == Some(Error::InsufficientBalance),
{
}

/// Right after a successful `approve(from, spender, amount, expiration)`, the
/// allowance reads `amount` at any sequence up to `expiration` and zero after
/// it, with no further write.
pub proof fn approve_then_allowance(
    m: Ledger,
    env: Env,
    from: Address,
    spender: Address,
    amount: i128,
    expiration_ledger: u32,
    sequence: u32,
)
    requires
        m.approve_error(env, from, expiration_ledger) is None,
    ensures
        m.approved(from, spender, amount, expiration_ledger).allowance(from, spender, sequence) == if sequence
            <= expiration_ledger {
            amount
        } else {
            0
        },
{
}

/// A successful `transfer_from` lowers the stored allowance by exactly the
/// amount moved, keeps its expiry, and leaves it non-negative.
pub proof fn transfer_from_draws_allowance(
    m: Ledger,
    env: Env,
    spender: Address,
    from: Address,
    to: Address,
    amount: i128,
)
    requires
        m.spend_error(env, spender, from, amount) is None,
    ensures
        ({
            let after = m.drawn(spender, from, amount).transferred(from, to, amount);
            &&& after.allowance_record(from, spender).amount == m.allowance_record(from, spender).amount - amount
            &&& after.allowance_record(from, spender).amount >= 0
            &&& after.allowance_record(from, spender).expiration_ledger == m.allowance_record(
                from,
                spender,
            ).expiration_ledger
        }),
{
}

/// Asking for more than a live allowance holds is refused with
/// `InsufficientAllowance` once the amount and authentication checks pass.
pub proof fn overdrawn_allowance_is_refused(m: Ledger, env: Env, spender: Address, from: Address, amount: i128)
    requires
        amount > 0,
        env.authorizes(spender),
        env.sequence <= m.allowance_record(from, spender).expiration_ledger,
        m.allowance_record(from, spender).amount < amount,
    ensures
        m.spend_error(env, spender, from, amount) == Some(Error::InsufficientAllowance),
{
}

/// Once `initialize` has succeeded, a second call is refused with
/// `AlreadyInitialized`, whatever its arguments; the operation leaves the
/// state, admin and metadata included, as the first call set it.
pub proof fn initialize_only_once(
    m: Ledger,
    admin: Address,
    name: Seq<char>,
    symbol: Seq<char>,
)
    requires
        m.initialize_error() is None,
    ensures
        m.initialized(admin, name, symbol).initialize_error() == Some(Error::AlreadyInitialized),
        m.initialized(admin, name, symbol).admin == Some(admin),
        m.initialized(admin, name, symbol).name == name,
        m.initialized(admin, name, symbol).symbol == symbol,
{
}

} // verus!
