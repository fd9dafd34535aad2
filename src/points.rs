//! The points ledger: balances, total supply, time-bounded allowances and an
//! administrative account.
use vstd::prelude::*;
use crate::assoc::{as_map, has_key, keys_unique, lemma_index, lemma_push, lemma_update};
use crate::env::{Address, Env};
use crate::error::Error;
use crate::ledger::{AllowanceKey, AllowanceValue, Event, Ledger};

verus! {

/// The sum of the amounts in a list of balance entries.
pub open spec fn sum_of(s: Seq<(Address, i128)>) -> int
    decreases s.len(),
{
    if s.len() == 0 {
        0
    } else {
        sum_of(s.drop_last()) + s.last().1
    }
}

proof fn lemma_sum_push(s: Seq<(Address, i128)>, e: (Address, i128))
    ensures
        sum_of(s.push(e)) == sum_of(s) + e.1,
{
    assert(s.push(e).drop_last() =~= s);
}

proof fn lemma_sum_update(s: Seq<(Address, i128)>, i: int, e: (Address, i128))
    requires
        0 <= i < s.len(),
    ensures
        sum_of(s.update(i, e)) == sum_of(s) - s[i].1 + e.1,
    decreases s.len(),
{
    let t = s.update(i, e);
    if i == s.len() - 1 {
        assert(t.drop_last() =~= s.drop_last());
    } else {
        assert(t.drop_last() =~= s.drop_last().update(i, e));
        lemma_sum_update(s.drop_last(), i, e);
    }
}

/// With no negative entry, the sum bounds each entry.
proof fn lemma_sum_bounds(s: Seq<(Address, i128)>)
    requires
        forall|i: int| 0 <= i < s.len() ==> #[trigger] s[i].1 >= 0,
    ensures
        sum_of(s) >= 0,
        forall|i: int| 0 <= i < s.len() ==> #[trigger] s[i].1 <= sum_of(s),
    decreases s.len(),
{
    if s.len() > 0 {
        let d = s.drop_last();
        assert forall|i: int| 0 <= i < d.len() implies #[trigger] d[i].1 >= 0 by {
            assert(d[i] == s[i]);
        }
        lemma_sum_bounds(d);
        assert forall|i: int| 0 <= i < s.len() implies #[trigger] s[i].1 <= sum_of(s) by {
            if i < s.len() - 1 {
                assert(d[i] == s[i]);
            }
        }
    }
}

/// The points ledger. Balances and allowances are kept as lists of entries
/// with unique keys; an account or pair without an entry reads as zero.
pub struct SchoolPoints {
    admin: Option<Address>,
    name: String,
    symbol: String,
    total_supply: i128,
    balances: Vec<(Address, i128)>,
    allowances: Vec<(AllowanceKey, AllowanceValue)>,
}

impl View for SchoolPoints {
    type V = Ledger;

    closed spec fn view(&self) -> Ledger {
        Ledger {
            admin: self.admin,
            name: self.name@,
            symbol: self.symbol@,
            total_supply: self.total_supply,
            balances: as_map(self.balances@),
            allowances: as_map(self.allowances@),
        }
    }
}

impl SchoolPoints {
    /// The sum of the balances of all accounts.
    pub closed spec fn balance_sum(&self) -> int {
        sum_of(self.balances@)
    }

    /// The ledger's invariant: the supply is the sum of all balances, no
    /// balance is negative, and nothing was minted before initialization.
    pub closed spec fn wf(&self) -> bool {
        &&& keys_unique(self.balances@)
        &&& keys_unique(self.allowances@)
        &&& forall|i: int| 0 <= i < self.balances@.len() ==> #[trigger] self.balances@[i].1 >= 0
        &&& self.total_supply == sum_of(self.balances@)
        &&& self.admin is None ==> self.total_supply == 0
    }

    proof fn lemma_balance_bounded(&self, a: Address)
        requires
            keys_unique(self.balances@),
            forall|i: int| 0 <= i < self.balances@.len() ==> #[trigger] self.balances@[i].1 >= 0,
        ensures
            0 <= self@.balance(a) <= sum_of(self.balances@),
    {
        lemma_sum_bounds(self.balances@);
        if has_key(self.balances@, a) {
            let i = choose|i: int| 0 <= i < self.balances@.len() && #[trigger] self.balances@[i].0 == a;
            lemma_index(self.balances@, i);
        }
    }

    fn find_balance(&self, a: Address) -> (r: Option<usize>)
        ensures
            match r {
                Some(i) => i < self.balances@.len() && self.balances@[i as int].0 == a,
                None => !has_key(self.balances@, a),
            },
    {
        let mut i: usize = 0;
        while i < self.balances.len()
            invariant
                i <= self.balances@.len(),
                forall|j: int| 0 <= j < i ==> #[trigger] self.balances@[j].0 != a,
            decreases self.balances@.len() - i,
        {
            if self.balances[i].0 == a {
                return Some(i);
            }
            i = i + 1;
        }
        None
    }

    fn read_balance(&self, a: Address) -> (r: i128)
        requires
            keys_unique(self.balances@),
        ensures
            r == self@.balance(a),
    {
        match self.find_balance(a) {
            Some(i) => {
                proof {
                    lemma_index(self.balances@, i as int);
                }
                self.balances[i].1
            },
            None => 0,
        }
    }

    fn write_balance(&mut self, a: Address, v: i128)
        requires
            keys_unique(old(self).balances@),
        ensures
            keys_unique(final(self).balances@),
            final(self)@ == old(self)@.with_balance(a, v as int),
            sum_of(final(self).balances@) == sum_of(old(self).balances@) - old(self)@.balance(a) + v,
            (forall|i: int| 0 <= i < old(self).balances@.len() ==> #[trigger] old(self).balances@[i].1 >= 0)
                && v >= 0 ==> forall|i: int|
                0 <= i < final(self).balances@.len() ==> #[trigger] final(self).balances@[i].1 >= 0,
            final(self).admin == old(self).admin,
            final(self).total_supply == old(self).total_supply,
            final(self).allowances == old(self).allowances,
    {
        let ghost s = self.balances@;
        match self.find_balance(a) {
            Some(i) => {
                proof {
                    lemma_index(s, i as int);
                    lemma_update(s, i as int, v);
                    lemma_sum_update(s, i as int, (a, v));
                }
                self.balances.set(i, (a, v));
            },
            None => {
                proof {
                    lemma_push(s, a, v);
                    lemma_sum_push(s, (a, v));
                }
                self.balances.push((a, v));
            },
        }
        assert(self.balances@.len() == s.len() || self.balances@.len() == s.len() + 1);
        assert forall|i: int| 0 <= i < self.balances@.len() && i < s.len() && self.balances@[i].0 != a
            implies #[trigger] self.balances@[i] == s[i] by {}
        assert(self@.balances == old(self)@.balances.insert(a, v));
    }

    fn find_allowance(&self, k: AllowanceKey) -> (r: Option<usize>)
        ensures
            match r {
                Some(i) => i < self.allowances@.len() && self.allowances@[i as int].0 == k,
                None => !has_key(self.allowances@, k),
            },
    {
        let mut i: usize = 0;
        while i < self.allowances.len()
            invariant
                i <= self.allowances@.len(),
                forall|j: int| 0 <= j < i ==> #[trigger] self.allowances@[j].0 != k,
            decreases self.allowances@.len() - i,
        {
            if self.allowances[i].0 == k {
                return Some(i);
            }
            i = i + 1;
        }
        None
    }

    fn read_allowance(&self, from: Address, spender: Address) -> (r: AllowanceValue)
        requires
            keys_unique(self.allowances@),
        ensures
            r == self@.allowance_record(from, spender),
    {
        let k = AllowanceKey { from, spender };
        match self.find_allowance(k) {
            Some(i) => {
                proof {
                    lemma_index(self.allowances@, i as int);
                }
                self.allowances[i].1
            },
            None => AllowanceValue { amount: 0, expiration_ledger: 0 },
        }
    }

    fn write_allowance(&mut self, k: AllowanceKey, v: AllowanceValue)
        requires
            keys_unique(old(self).allowances@),
        ensures
            keys_unique(final(self).allowances@),
            final(self)@ == old(self)@.with_allowance(k, v),
            final(self).admin == old(self).admin,
            final(self).total_supply == old(self).total_supply,
            final(self).balances == old(self).balances,
    {
        let ghost s = self.allowances@;
        match self.find_allowance(k) {
            Some(i) => {
                proof {
                    lemma_update(s, i as int, v);
                }
                self.allowances.set(i, (k, v));
            },
            None => {
                proof {
                    lemma_push(s, k, v);
                }
                self.allowances.push((k, v));
            },
        }
        assert(self@.allowances == old(self)@.allowances.insert(k, v));
    }

    /// Takes `amount` from `from` and from the supply, with no check.
    fn burn_unchecked(&mut self, from: Address, amount: i128)
        requires
            old(self).wf(),
            0 < amount <= old(self)@.balance(from),
        ensures
            final(self).wf(),
            final(self)@ == old(self)@.burned(from, amount),
            final(self)@.balance(from) == old(self)@.balance(from) - amount,
            final(self)@.total_supply == old(self)@.total_supply - amount,
    {
        proof {
            self.lemma_balance_bounded(from);
        }
        let current = self.read_balance(from);
        self.write_balance(from, current - amount);
        self.total_supply = self.total_supply - amount;
    }

    /// Moves `amount` from `from` to `to`, with no check.
    fn transfer_unchecked(&mut self, from: Address, to: Address, amount: i128)
        requires
            old(self).wf(),
            0 < amount <= old(self)@.balance(from),
        ensures
            final(self).wf(),
            final(self)@ == old(self)@.transferred(from, to, amount),
            from != to ==> final(self)@.balance(from) == old(self)@.balance(from) - amount
                && final(self)@.balance(to) == old(self)@.balance(to) + amount,
            final(self)@.balance(from) >= 0,
            final(self)@.total_supply == old(self)@.total_supply,
    {
        let from_balance = self.read_balance(from);
        self.write_balance(from, from_balance - amount);
        proof {
            self.lemma_balance_bounded(to);
        }
        let to_balance = self.read_balance(to);
        self.write_balance(to, to_balance + amount);
    }

    /// An empty ledger that has not been initialized.
    pub fn new() -> (r: SchoolPoints)
        ensures
            r.wf(),
            r@.admin is None,
            r@.total_supply == 0,
            r@.balances == Map::<Address, i128>::empty(),
            r@.allowances == Map::<AllowanceKey, AllowanceValue>::empty(),
    {
        let r = SchoolPoints {
            admin: None,
            name: String::new(),
            symbol: String::new(),
            total_supply: 0,
            balances: Vec::new(),
            allowances: Vec::new(),
        };
        assert(r@.balances =~= Map::<Address, i128>::empty());
        assert(r@.allowances =~= Map::<AllowanceKey, AllowanceValue>::empty());
        r
    }

    /// Sets the admin, the name and the symbol, once.
    pub fn initialize(&mut self, admin: Address, name: String, symbol: String) -> (r: Result<(), Error>)
        requires
            old(self).wf(),
        ensures
            final(self).wf(),
            match old(self)@.initialize_error() {
                Some(e) => r == Err::<(), Error>(e) && final(self)@ == old(self)@,
                None => r == Ok::<(), Error>(()) && final(self)@ == old(self)@.initialized(admin, name@, symbol@),
            },
    {
        if self.admin.is_some() {
            return Err(Error::AlreadyInitialized);
        }
        self.admin = Some(admin);
        self.name = name;
        self.symbol = symbol;
        self.total_supply = 0;
        Ok(())
    }

    /// Points are indivisible.
    pub fn decimals(&self) -> (r: u32)
        ensures
            r == 0,
    {
        0
    }

    pub fn name(&self) -> (r: Result<String, Error>)
        ensures
            match self@.admin {
                Some(_) => r matches Ok(n) && n@ == self@.name,
                None => r == Err::<String, Error>(Error::NotInitialized),
            },
    {
        match self.admin {
            Some(_) => Ok(self.name.clone()),
            None => Err(Error::NotInitialized),
        }
    }

    pub fn symbol(&self) -> (r: Result<String, Error>)
        ensures
            match self@.admin {
                Some(_) => r matches Ok(n) && n@ == self@.symbol,
                None => r == Err::<String, Error>(Error::NotInitialized),
            },
    {
        match self.admin {
            Some(_) => Ok(self.symbol.clone()),
            None => Err(Error::NotInitialized),
        }
    }

    pub fn admin(&self) -> (r: Result<Address, Error>)
        ensures
            match self@.admin {
                Some(a) => r == Ok::<Address, Error>(a),
                None => r == Err::<Address, Error>(Error::NotInitialized),
            },
    {
        match self.admin {
            Some(a) => Ok(a),
            None => Err(Error::NotInitialized),
        }
    }

    pub fn total_supply(&self) -> (r: i128)
        ensures
            r == self@.total_supply,
    {
        self.total_supply
    }

    /// The balance of `id`; zero for an account never credited.
    pub fn balance(&self, id: Address) -> (r: i128)
        requires
            self.wf(),
        ensures
            r == self@.balance(id),
    {
        self.read_balance(id)
    }

    /// What `spender` may still draw from `from` at the current sequence:
    /// zero once the record has expired, with nothing written back.
    pub fn allowance(&self, env: &Env, from: Address, spender: Address) -> (r: i128)
        requires
            self.wf(),
        ensures
            r == self@.allowance(from, spender, env.sequence),
    {
        let v = self.read_allowance(from, spender);
        if env.sequence > v.expiration_ledger {
            0
        } else {
            v.amount
        }
    }

    /// The admin creates `amount` points for `to`.
    pub fn mint(&mut self, env: &Env, to: Address, amount: i128) -> (r: Result<Event, Error>)
        requires
            old(self).wf(),
        ensures
            final(self).wf(),
            match old(self)@.mint_error(*env, amount) {
                Some(e) => r == Err::<Event, Error>(e) && final(self)@ == old(self)@,
                None => r == Ok::<Event, Error>(Event::Mint { admin: old(self)@.admin->0, to, amount })
                    && final(self)@ == old(self)@.minted(to, amount)
                    && final(self)@.balance(to) == old(self)@.balance(to) + amount
                    && final(self)@.total_supply == old(self)@.total_supply + amount,
            },
    {
        let admin = match self.admin {
            Some(a) => a,
            None => return Err(Error::NotInitialized),
        };
        if !env.authenticated_as(admin) {
            return Err(Error::Unauthorized);
        }
        if amount <= 0 {
            return Err(Error::AmountMustBePositive);
        }
        if self.total_supply > i128::MAX - amount {
            return Err(Error::Overflow);
        }
        proof {
            self.lemma_balance_bounded(to);
        }
        let current = self.read_balance(to);
        self.write_balance(to, current + amount);
        self.total_supply = self.total_supply + amount;
        Ok(Event::Mint { admin, to, amount })
    }

    /// The holder `from` destroys `amount` of its own points.
    pub fn burn(&mut self, env: &Env, from: Address, amount: i128) -> (r: Result<Event, Error>)
        requires
            old(self).wf(),
        ensures
            final(self).wf(),
            match old(self)@.burn_error(*env, from, amount) {
                Some(e) => r == Err::<Event, Error>(e) && final(self)@ == old(self)@,
                None => r == Ok::<Event, Error>(Event::Burn { from, amount })
                    && final(self)@ == old(self)@.burned(from, amount)
                    && final(self)@.balance(from) == old(self)@.balance(from) - amount
                    && final(self)@.total_supply == old(self)@.total_supply - amount,
            },
    {
        if !env.authenticated_as(from) {
            return Err(Error::Unauthorized);
        }
        if amount <= 0 {
            return Err(Error::AmountMustBePositive);
        }
        if self.read_balance(from) < amount {
            return Err(Error::InsufficientBalance);
        }
        self.burn_unchecked(from, amount);
        Ok(Event::Burn { from, amount })
    }

    /// The admin destroys `amount` of the points of `from`.
    pub fn clawback(&mut self, env: &Env, from: Address, amount: i128) -> (r: Result<Event, Error>)
        requires
            old(self).wf(),
        ensures
            final(self).wf(),
            match old(self)@.clawback_error(*env, from, amount) {
                Some(e) => r == Err::<Event, Error>(e) && final(self)@ == old(self)@,
                None => r == Ok::<Event, Error>(Event::Burn { from, amount })
                    && final(self)@ == old(self)@.burned(from, amount)
                    && final(self)@.balance(from) == old(self)@.balance(from) - amount
                    && final(self)@.total_supply == old(self)@.total_supply - amount,
            },
    {
        let admin = match self.admin {
            Some(a) => a,
            None => return Err(Error::NotInitialized),
        };
        if !env.authenticated_as(admin) {
            return Err(Error::Unauthorized);
        }
        if amount <= 0 {
            return Err(Error::AmountMustBePositive);
        }
        if self.read_balance(from) < amount {
            return Err(Error::InsufficientBalance);
        }
        self.burn_unchecked(from, amount);
        Ok(Event::Burn { from, amount })
    }

    /// `from` moves `amount` of its points to `to`.
    pub fn transfer(&mut self, env: &Env, from: Address, to: Address, amount: i128) -> (r: Result<Event, Error>)
        requires
            old(self).wf(),
        ensures
            final(self).wf(),
            match old(self)@.transfer_error(*env, from, amount) {
                Some(e) => r == Err::<Event, Error>(e) && final(self)@ == old(self)@,
                None => r == Ok::<Event, Error>(Event::Transfer { from, to, amount })
                    && final(self)@ == old(self)@.transferred(from, to, amount)
                    && (from != to ==> final(self)@.balance(from) == old(self)@.balance(from) - amount
                        && final(self)@.balance(to) == old(self)@.balance(to) + amount)
                    && final(self)@.balance(from) >= 0
                    && final(self)@.total_supply == old(self)@.total_supply,
            },
    {
        if !env.authenticated_as(from) {
            return Err(Error::Unauthorized);
        }
        if amount <= 0 {
            return Err(Error::AmountMustBePositive);
        }
        if self.read_balance(from) < amount {
            return Err(Error::InsufficientBalance);
        }
        self.transfer_unchecked(from, to, amount);
        Ok(Event::Transfer { from, to, amount })
    }

    /// Checks a draw of `amount` by `spender` on the allowance and balance of
    /// `from`, and on success takes it off the allowance.
    fn draw(&mut self, env: &Env, spender: Address, from: Address, amount: i128) -> (r: Result<(), Error>)
        requires
            old(self).wf(),
        ensures
            final(self).wf(),
            match old(self)@.spend_error(*env, spender, from, amount) {
                Some(e) => r == Err::<(), Error>(e) && final(self)@ == old(self)@,
                None => r == Ok::<(), Error>(()) && final(self)@ == old(self)@.drawn(spender, from, amount)
                    && final(self)@.allowance_record(from, spender).amount == old(self)@.allowance_record(from, spender).amount - amount
                    && 0 < amount <= final(self)@.balance(from) && final(self)@.balance(from) == old(self)@.balance(from)
                    && final(self)@.total_supply == old(self)@.total_supply,
            },
    {
        if !env.authenticated_as(spender) {
            return Err(Error::Unauthorized);
        }
        if amount <= 0 {
            return Err(Error::AmountMustBePositive);
        }
        let av = self.read_allowance(from, spender);
        if env.sequence > av.expiration_ledger {
            return Err(Error::AllowanceExpired);
        }
        if av.amount < amount {
            return Err(Error::InsufficientAllowance);
        }
        if self.read_balance(from) < amount {
            return Err(Error::InsufficientBalance);
        }
        let rest = AllowanceValue { amount: av.amount - amount, expiration_ledger: av.expiration_ledger };
        self.write_allowance(AllowanceKey { from, spender }, rest);
        Ok(())
    }

    /// `spender` moves `amount` from `from` to `to`, drawing on its allowance.
    pub fn transfer_from(&mut self, env: &Env, spender: Address, from: Address, to: Address, amount: i128) -> (r: Result<Event, Error>)
        requires
            old(self).wf(),
        ensures
            final(self).wf(),
            match old(self)@.spend_error(*env, spender, from, amount) {
                Some(e) => r == Err::<Event, Error>(e) && final(self)@ == old(self)@,
                None => r == Ok::<Event, Error>(Event::Transfer { from, to, amount })
                    && final(self)@ == old(self)@.drawn(spender, from, amount).transferred(from, to, amount)
                    && final(self)@.allowance_record(from, spender).amount == old(self)@.allowance_record(from, spender).amount - amount
                    && (from != to ==> final(self)@.balance(from) == old(self)@.balance(from) - amount
                        && final(self)@.balance(to) == old(self)@.balance(to) + amount)
                    && final(self)@.total_supply == old(self)@.total_supply,
            },
    {
        match self.draw(env, spender, from, amount) {
            Ok(()) => {},
            Err(e) => return Err(e),
        }
        self.transfer_unchecked(from, to, amount);
        Ok(Event::Transfer { from, to, amount })
    }

    /// `spender` destroys `amount` of the points of `from`, drawing on its
    /// allowance.
    pub fn burn_from(&mut self, env: &Env, spender: Address, from: Address, amount: i128) -> (r: Result<Event, Error>)
        requires
            old(self).wf(),
        ensures
            final(self).wf(),
            match old(self)@.spend_error(*env, spender, from, amount) {
                Some(e) => r == Err::<Event, Error>(e) && final(self)@ == old(self)@,
                None => r == Ok::<Event, Error>(Event::Burn { from, amount })
                    && final(self)@ == old(self)@.drawn(spender, from, amount).burned(from, amount)
                    && final(self)@.allowance_record(from, spender).amount == old(self)@.allowance_record(from, spender).amount - amount
                    && final(self)@.balance(from) == old(self)@.balance(from) - amount
                    && final(self)@.total_supply == old(self)@.total_supply - amount,
            },
    {
        match self.draw(env, spender, from, amount) {
            Ok(()) => {},
            Err(e) => return Err(e),
        }
        self.burn_unchecked(from, amount);
        Ok(Event::Burn { from, amount })
    }

    /// `from` lets `spender` draw `amount` until ledger `expiration_ledger`,
    /// replacing any earlier allowance of the pair.
    pub fn approve(&mut self, env: &Env, from: Address, spender: Address, amount: i128, expiration_ledger: u32) -> (r: Result<Event, Error>)
        requires
            old(self).wf(),
        ensures
            final(self).wf(),
            match old(self)@.approve_error(*env, from, expiration_ledger) {
                Some(e) => r == Err::<Event, Error>(e) && final(self)@ == old(self)@,
                None => r == Ok::<Event, Error>(Event::Approve { from, spender, amount, expiration_ledger })
                    && final(self)@ == old(self)@.approved(from, spender, amount, expiration_ledger),
            },
    {
        if !env.authenticated_as(from) {
            return Err(Error::Unauthorized);
        }
        if expiration_ledger < env.sequence {
            return Err(Error::ExpirationInPast);
        }
        self.write_allowance(AllowanceKey { from, spender }, AllowanceValue { amount, expiration_ledger });
        Ok(Event::Approve { from, spender, amount, expiration_ledger })
    }

    /// The admin hands its role to `new_admin`.
    pub fn set_admin(&mut self, env: &Env, new_admin: Address) -> (r: Result<(), Error>)
        requires
            old(self).wf(),
        ensures
            final(self).wf(),
            match old(self)@.set_admin_error(*env) {
                Some(e) => r == Err::<(), Error>(e) && final(self)@ == old(self)@,
                None => r == Ok::<(), Error>(()) && final(self)@ == old(self)@.with_admin(new_admin),
            },
    {
        let admin = match self.admin {
            Some(a) => a,
            None => return Err(Error::NotInitialized),
        };
        if !env.authenticated_as(admin) {
            return Err(Error::Unauthorized);
        }
        self.admin = Some(new_admin);
        Ok(())
    }
}

/// Total supply always equals the sum of all balances, and no balance is
/// negative or above the supply. Every operation keeps `wf`, so this holds
/// after any sequence of calls, whether they succeed or fail.
pub proof fn supply_is_sum_of_balances(p: &SchoolPoints, a: Address)
    requires
        p.wf(),
    ensures
        p@.total_supply == p.balance_sum(),
        0 <= p@.balance(a) <= p@.total_supply,
        p@.total_supply >= 0,
{
    p.lemma_balance_bounded(a);
}

} // verus!
