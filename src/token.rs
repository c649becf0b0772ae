use std::collections::HashMap;
use vstd::prelude::*;

verus! {

broadcast use vstd::std_specs::hash::group_hash_axioms;

/// The ways in which an operation of the reward token can be refused.
#[derive(Copy, Clone, Debug, PartialEq, Eq, Structural)]
pub enum TokenError {
    AlreadyInitialized,
    NotInitialized,
    InsufficientBalance,
    /// A balance would leave the range of `i128`.
    Overflow,
}

/// The key under which the allowance that `from` grants `spender` is kept.
pub open spec fn allowance_key(from: u64, spender: u64) -> u128 {
    (from as int * 0x1_0000_0000_0000_0000 + spender as int) as u128
}

fn make_allowance_key(from: u64, spender: u64) -> (r: u128)
    ensures
        r == allowance_key(from, spender),
{
    (from as u128) * 0x1_0000_0000_0000_0000u128 + spender as u128
}

/// A minimal fungible token: balances and allowances per account, and an
/// admin who may mint.
pub struct LumiToken {
    pub admin: Option<u64>,
    pub balances: HashMap<u64, i128>,
    pub allowances: HashMap<u128, i128>,
}

impl LumiToken {
    pub open spec fn balance_of(&self, id: u64) -> i128 {
        if self.balances@.contains_key(id) {
            self.balances@[id]
        } else {
            0
        }
    }

    pub open spec fn allowance_of(&self, from: u64, spender: u64) -> i128 {
        let k = allowance_key(from, spender);
        if self.allowances@.contains_key(k) {
            self.allowances@[k]
        } else {
            0
        }
    }

    /// A token with no admin, no balances and no allowances.
    pub fn new() -> (r: Self)
        ensures
            r.admin is None,
            r.balances@ == Map::<u64, i128>::empty(),
            r.allowances@ == Map::<u128, i128>::empty(),
    {
        LumiToken { admin: None, balances: HashMap::new(), allowances: HashMap::new() }
    }

    /// Names the admin; a token that already has one is left as it was.
    pub fn initialize(&mut self, admin: u64) -> (r: Result<(), TokenError>)
        ensures
            old(self).admin is Some ==> r == Err::<(), TokenError>(TokenError::AlreadyInitialized)
                && *final(self) == *old(self),
            old(self).admin is None ==> r is Ok && final(self).admin == Some(admin)
                && final(self).balances@ == old(self).balances@ && final(self).allowances@ == old(
                self,
            ).allowances@,
    {
        if self.admin.is_some() {
            return Err(TokenError::AlreadyInitialized);
        }
        self.admin = Some(admin);
        Ok(())
    }

    /// Credits `amount` to `to`. The host has checked the admin's authority.
    pub fn mint(&mut self, to: u64, amount: i128) -> (r: Result<(), TokenError>)
        ensures
            old(self).admin is None ==> r == Err::<(), TokenError>(TokenError::NotInitialized)
                && *final(self) == *old(self),
            old(self).admin is Some && old(self).balance_of(to) + amount > i128::MAX ==> r == Err::<
                (),
                TokenError,
            >(TokenError::Overflow) && *final(self) == *old(self),
            old(self).admin is Some && old(self).balance_of(to) + amount < i128::MIN ==> r == Err::<
                (),
                TokenError,
            >(TokenError::Overflow) && *final(self) == *old(self),
            old(self).admin is Some && i128::MIN <= old(self).balance_of(to) + amount <= i128::MAX
                ==> r is Ok && final(self).balances@ == old(self).balances@.insert(
                to,
                (old(self).balance_of(to) + amount) as i128,
            ) && final(self).admin == old(self).admin && final(self).allowances@ == old(
                self,
            ).allowances@,
    {
        if self.admin.is_none() {
            return Err(TokenError::NotInitialized);
        }
        let held = self.balance(to);
        match held.checked_add(amount) {
            Some(b) => {
                self.balances.insert(to, b);
                Ok(())
            },
            None => Err(TokenError::Overflow),
        }
    }

    /// Destroys `amount` of `from`'s balance.
    pub fn burn(&mut self, from: u64, amount: i128) -> (r: Result<(), TokenError>)
        ensures
            old(self).balance_of(from) < amount ==> r == Err::<(), TokenError>(
                TokenError::InsufficientBalance,
            ) && *final(self) == *old(self),
            amount <= old(self).balance_of(from) && old(self).balance_of(from) - amount > i128::MAX
                ==> r == Err::<(), TokenError>(TokenError::Overflow) && *final(self) == *old(self),
            amount <= old(self).balance_of(from) && old(self).balance_of(from) - amount <= i128::MAX
                ==> r is Ok && final(self).balances@ == old(self).balances@.insert(
                from,
                (old(self).balance_of(from) - amount) as i128,
            ) && final(self).admin == old(self).admin && final(self).allowances@ == old(
                self,
            ).allowances@,
    {
        let held = self.balance(from);
        if held < amount {
            return Err(TokenError::InsufficientBalance);
        }
        match held.checked_sub(amount) {
            Some(b) => {
                self.balances.insert(from, b);
                Ok(())
            },
            None => Err(TokenError::Overflow),
        }
    }

    /// Moves `amount` from `from` to `to`. Either both balances change or
    /// neither does; a transfer to oneself leaves the balance as it was.
    pub fn transfer(&mut self, from: u64, to: u64, amount: i128) -> (r: Result<(), TokenError>)
        ensures
            final(self).admin == old(self).admin,
            final(self).allowances@ == old(self).allowances@,
            old(self).balance_of(from) < amount ==> r == Err::<(), TokenError>(
                TokenError::InsufficientBalance,
            ) && *final(self) == *old(self),
            amount <= old(self).balance_of(from) ==> {
                let left = old(self).balance_of(from) - amount;
                let arrived = if from == to {
                    old(self).balance_of(from) as int
                } else {
                    old(self).balance_of(to) + amount
                };
                &&& (left > i128::MAX || arrived > i128::MAX || arrived < i128::MIN) ==> r == Err::<
                    (),
                    TokenError,
                >(TokenError::Overflow) && *final(self) == *old(self)
                &&& (left <= i128::MAX && i128::MIN <= arrived <= i128::MAX) ==> r is Ok
                    && final(self).balances@ == old(self).balances@.insert(
                    from,
                    left as i128,
                ).insert(to, arrived as i128)
            },
    {
        let held = self.balance(from);
        if held < amount {
            return Err(TokenError::InsufficientBalance);
        }
        let left = match held.checked_sub(amount) {
            Some(b) => b,
            None => return Err(TokenError::Overflow),
        };
        let before = if from == to {
            left
        } else {
            self.balance(to)
        };
        let arrived = match before.checked_add(amount) {
            Some(b) => b,
            None => return Err(TokenError::Overflow),
        };
        self.balances.insert(from, left);
        self.balances.insert(to, arrived);
        Ok(())
    }

    pub fn balance(&self, id: u64) -> (r: i128)
        ensures
            r == self.balance_of(id),
    {
        match self.balances.get(&id) {
            Some(b) => *b,
            None => 0,
        }
    }

    pub fn allowance(&self, from: u64, spender: u64) -> (r: i128)
        ensures
            r == self.allowance_of(from, spender),
    {
        let k = make_allowance_key(from, spender);
        match self.allowances.get(&k) {
            Some(a) => *a,
            None => 0,
        }
    }

    /// Lets `spender` draw up to `amount` from `from`. The expiration ledger
    /// is accepted and not kept.
    pub fn approve(&mut self, from: u64, spender: u64, amount: i128, _expiration_ledger: u32)
        ensures
            final(self).allowances@ == old(self).allowances@.insert(
                allowance_key(from, spender),
                amount,
            ),
            final(self).allowance_of(from, spender) == amount,
            final(self).admin == old(self).admin,
            final(self).balances@ == old(self).balances@,
    {
        let k = make_allowance_key(from, spender);
        self.allowances.insert(k, amount);
    }
}

} // verus!
