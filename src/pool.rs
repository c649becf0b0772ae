use std::collections::HashMap;
use vstd::arithmetic::div_mod::{
    lemma_div_by_multiple, lemma_div_is_ordered, lemma_div_pos_is_pos, lemma_fundamental_div_mod,
    lemma_hoist_over_denominator, lemma_mod_pos_bound,
};
use vstd::prelude::*;

use crate::error::ContractError;

verus! {

broadcast use vstd::std_specs::hash::group_hash_axioms;

/// Basis points in one whole: a rate of this many points is 100%.
pub const BPS_DENOMINATOR: i128 = 10000;

/// Seconds in one day of loan duration.
pub const SECONDS_PER_DAY: u64 = 86400;

/// The pool's aggregate totals and its fixed interest rate.
#[derive(Copy, Clone, Debug, PartialEq, Eq, Structural)]
pub struct PoolState {
    pub total_deposited: i128,
    pub total_lent: i128,
    pub interest_rate_bps: u32,
}

/// What one lender has put into the pool, and when it last deposited.
#[derive(Copy, Clone, Debug, PartialEq, Eq, Structural)]
pub struct LenderRecord {
    pub amount: i128,
    pub deposit_timestamp: u64,
}

#[derive(Copy, Clone, Debug, PartialEq, Eq, Structural)]
pub enum LoanStatus {
    Active,
    Repaid,
    Defaulted,
}

#[derive(Copy, Clone, Debug, PartialEq, Eq, Structural)]
pub struct LoanRecord {
    pub borrower: u64,
    pub principal: i128,
    pub interest_owed: i128,
    pub due_timestamp: u64,
    pub status: LoanStatus,
}

/// A snapshot of the pool's totals, as reported to callers.
#[derive(Copy, Clone, Debug, PartialEq, Eq, Structural)]
pub struct PoolStats {
    pub total_deposited: i128,
    pub total_lent: i128,
    pub available: i128,
    pub interest_rate_bps: u32,
}

/// What the host must settle after a successful repayment: the amount to
/// move from the borrower into the pool, and the reward to mint to the
/// borrower when the loan was repaid on time.
#[derive(Copy, Clone, Debug, PartialEq, Eq, Structural)]
pub struct Repayment {
    pub amount_due: i128,
    pub reward: Option<i128>,
}

/// Interest owed on `amount` at `rate_bps` basis points, rounded down.
pub open spec fn interest_for(amount: int, rate_bps: int) -> int {
    amount * rate_bps / (BPS_DENOMINATOR as int)
}

/// The reward minted for an on-time repayment of `principal`.
pub open spec fn reward_for(principal: int) -> int {
    principal / 10
}

pub open spec fn zero_lender() -> LenderRecord {
    LenderRecord { amount: 0, deposit_timestamp: 0 }
}

/// The principal that loan `id` keeps out of the pool: its principal while
/// it is active, nothing otherwise.
pub open spec fn outstanding(loans: Map<u64, LoanRecord>, id: u64) -> int {
    if loans.contains_key(id) && loans[id].status == LoanStatus::Active {
        loans[id].principal as int
    } else {
        0
    }
}

/// The principal outstanding over the loans with ids below `n`.
pub open spec fn outstanding_below(loans: Map<u64, LoanRecord>, n: nat) -> int
    decreases n,
{
    if n == 0 {
        0
    } else {
        outstanding_below(loans, (n - 1) as nat) + outstanding(loans, (n - 1) as u64)
    }
}

/// With no loans recorded, nothing is outstanding.
pub proof fn lemma_outstanding_none(loans: Map<u64, LoanRecord>, n: nat)
    requires
        loans.is_empty(),
    ensures
        outstanding_below(loans, n) == 0,
    decreases n,
{
    if n > 0 {
        assert(!loans.contains_key((n - 1) as u64));
        lemma_outstanding_none(loans, (n - 1) as nat);
    }
}

/// Recording `v` under id `k` changes what is outstanding below `n` by what
/// `v` keeps out less what the record it replaces kept out, when `k` lies
/// below `n`, and leaves it alone otherwise.
pub proof fn lemma_outstanding_update(loans: Map<u64, LoanRecord>, k: u64, v: LoanRecord, n: nat)
    requires
        n <= u64::MAX as nat + 1,
    ensures
        outstanding_below(loans.insert(k, v), n) == outstanding_below(loans, n) + if (k as nat) < n {
            outstanding(loans.insert(k, v), k) - outstanding(loans, k)
        } else {
            0
        },
    decreases n,
{
    if n > 0 {
        lemma_outstanding_update(loans, k, v, (n - 1) as nat);
        if (n - 1) as u64 != k {
            assert(outstanding(loans.insert(k, v), (n - 1) as u64) == outstanding(loans, (n - 1) as u64));
        }
    }
}

/// When every recorded loan has a positive principal, what is outstanding
/// below `n` is at least what any one loan below `n` keeps out.
pub proof fn lemma_outstanding_covers(loans: Map<u64, LoanRecord>, k: u64, n: nat)
    requires
        (k as nat) < n <= u64::MAX as nat + 1,
        forall|id: u64| #[trigger] loans.contains_key(id) ==> loans[id].principal > 0,
    ensures
        outstanding_below(loans, n) >= outstanding(loans, k),
    decreases n,
{
    lemma_outstanding_nonneg(loans, (n - 1) as nat);
    if (n - 1) as nat > k as nat {
        lemma_outstanding_covers(loans, k, (n - 1) as nat);
    }
}

pub proof fn lemma_outstanding_nonneg(loans: Map<u64, LoanRecord>, n: nat)
    requires
        forall|id: u64| #[trigger] loans.contains_key(id) ==> loans[id].principal > 0,
    ensures
        outstanding_below(loans, n) >= 0,
    decreases n,
{
    if n > 0 {
        lemma_outstanding_nonneg(loans, (n - 1) as nat);
    }
}

/// The interest on a non-negative amount, computed in parts that stay within
/// the amount's own range, and never more than the amount itself.
pub proof fn lemma_interest_parts(amount: int, rate: int)
    requires
        amount >= 0,
        0 <= rate <= BPS_DENOMINATOR,
    ensures
        0 <= (amount / BPS_DENOMINATOR as int) * rate <= amount,
        0 <= (amount % BPS_DENOMINATOR as int) * rate <= BPS_DENOMINATOR * BPS_DENOMINATOR,
        (amount / BPS_DENOMINATOR as int) * rate + (amount % BPS_DENOMINATOR as int) * rate
            / BPS_DENOMINATOR as int == interest_for(amount, rate),
        0 <= interest_for(amount, rate) <= amount,
{
    let d: int = BPS_DENOMINATOR as int;
    let q = amount / d;
    let m = amount % d;
    lemma_fundamental_div_mod(amount, d);
    lemma_mod_pos_bound(amount, d);
    lemma_div_pos_is_pos(amount, d);
    assert(0 <= q * rate <= amount) by (nonlinear_arith)
        requires
            amount == d * q + m,
            0 <= m,
            q >= 0,
            0 <= rate <= d,
            d == 10000,
    ;
    assert(0 <= m * rate <= d * d) by (nonlinear_arith)
        requires
            0 <= m < d,
            0 <= rate <= d,
    ;
    assert(amount * rate == m * rate + (q * rate) * d) by (nonlinear_arith)
        requires
            amount == d * q + m,
    ;
    lemma_hoist_over_denominator(m * rate, q * rate, 10000);
    assert(0 <= amount * rate <= amount * d) by (nonlinear_arith)
        requires
            amount >= 0,
            0 <= rate <= d,
    ;
    lemma_div_is_ordered(amount * rate, amount * d, d);
    lemma_div_is_ordered(0, amount * rate, d);
    lemma_div_by_multiple(amount, d);
}

/// The lending pool: its totals, its lenders, its loans, and the index of
/// each borrower's active loan.
pub struct LumiLendPool {
    /// `None` until the pool is initialized.
    pub pool_state: Option<PoolState>,
    /// The asset that is lent, the price feed consulted on each loan, and the
    /// asset in which on-time repayment is rewarded.
    pub token: u64,
    pub oracle: u64,
    pub reward_token: u64,
    pub lenders: HashMap<u64, LenderRecord>,
    pub loans: HashMap<u64, LoanRecord>,
    /// Borrower to the id of that borrower's active loan.
    pub active_loans: HashMap<u64, u64>,
    pub next_loan_id: u64,
}

impl LumiLendPool {
    pub open spec fn initialized(&self) -> bool {
        self.pool_state is Some
    }

    pub open spec fn state(&self) -> PoolState {
        self.pool_state->Some_0
    }

    pub open spec fn lender(&self, account: u64) -> LenderRecord {
        if self.lenders@.contains_key(account) {
            self.lenders@[account]
        } else {
            zero_lender()
        }
    }

    pub open spec fn available(&self) -> int {
        self.state().total_deposited - self.state().total_lent
    }

    /// The pool's invariant.
    pub open spec fn wf(&self) -> bool {
        &&& self.next_loan_id >= 1
        &&& forall|id: u64| #[trigger]
            self.loans@.contains_key(id) ==> {
                &&& 1 <= id < self.next_loan_id
                &&& self.loans@[id].principal > 0
                &&& 0 <= self.loans@[id].interest_owed <= self.loans@[id].principal
            }
        &&& forall|b: u64| #[trigger]
            self.active_loans@.contains_key(b) ==> {
                &&& self.loans@.contains_key(self.active_loans@[b])
                &&& self.loans@[self.active_loans@[b]].borrower == b
                &&& self.loans@[self.active_loans@[b]].status == LoanStatus::Active
            }
        &&& forall|id: u64|
            #![trigger self.loans@[id]]
            self.loans@.contains_key(id) && self.loans@[id].status == LoanStatus::Active ==> {
                &&& self.active_loans@.contains_key(self.loans@[id].borrower)
                &&& self.active_loans@[self.loans@[id].borrower] == id
            }
        &&& forall|a: u64| #[trigger] self.lenders@.contains_key(a) ==> self.lenders@[a].amount >= 0
        &&& match self.pool_state {
            None => {
                &&& self.next_loan_id == 1
                &&& self.loans@.is_empty()
                &&& self.active_loans@.is_empty()
                &&& self.lenders@.is_empty()
            },
            Some(s) => {
                &&& 0 <= s.total_lent <= s.total_deposited
                &&& s.interest_rate_bps <= BPS_DENOMINATOR
                &&& s.total_lent == outstanding_below(self.loans@, self.next_loan_id as nat)
            },
        }
    }

    /// A pool that has not been initialized: it holds nothing.
    pub fn new() -> (r: Self)
        ensures
            r.wf(),
            !r.initialized(),
            r.next_loan_id == 1,
    {
        LumiLendPool {
            pool_state: None,
            token: 0,
            oracle: 0,
            reward_token: 0,
            lenders: HashMap::new(),
            loans: HashMap::new(),
            active_loans: HashMap::new(),
            next_loan_id: 1,
        }
    }

    /// Sets up the pool with empty totals and the given rate. A pool that is
    /// already set up is left exactly as it was.
    pub fn initialize(
        &mut self,
        token: u64,
        interest_rate_bps: u32,
        oracle: u64,
        reward_token: u64,
    ) -> (r: Result<(), ContractError>)
        requires
            old(self).wf(),
            interest_rate_bps <= BPS_DENOMINATOR,
        ensures
            final(self).wf(),
            final(self).next_loan_id == old(self).next_loan_id,
            old(self).initialized() ==> r == Err::<(), ContractError>(
                ContractError::AlreadyInitialized,
            ) && *final(self) == *old(self),
            !old(self).initialized() ==> {
                &&& r is Ok
                &&& final(self).pool_state == Some(
                    PoolState { total_deposited: 0, total_lent: 0, interest_rate_bps },
                )
                &&& final(self).token == token
                &&& final(self).oracle == oracle
                &&& final(self).reward_token == reward_token
                &&& final(self).lenders@ == old(self).lenders@
                &&& final(self).loans@ == old(self).loans@
                &&& final(self).active_loans@ == old(self).active_loans@
            },
    {
        if self.pool_state.is_some() {
            return Err(ContractError::AlreadyInitialized);
        }
        self.pool_state = Some(PoolState { total_deposited: 0, total_lent: 0, interest_rate_bps });
        self.token = token;
        self.oracle = oracle;
        self.reward_token = reward_token;
        self.next_loan_id = 1;
        proof {
            lemma_outstanding_none(self.loans@, 1);
        }
        Ok(())
    }

    /// The pool's totals; all zero before the pool is initialized.
    pub fn get_pool_stats(&self) -> (r: PoolStats)
        requires
            self.wf(),
        ensures
            match self.pool_state {
                None => r == PoolStats {
                    total_deposited: 0,
                    total_lent: 0,
                    available: 0,
                    interest_rate_bps: 0,
                },
                Some(s) => r == PoolStats {
                    total_deposited: s.total_deposited,
                    total_lent: s.total_lent,
                    available: (s.total_deposited - s.total_lent) as i128,
                    interest_rate_bps: s.interest_rate_bps,
                },
            },
    {
        match self.pool_state {
            None => PoolStats { total_deposited: 0, total_lent: 0, available: 0, interest_rate_bps: 0 },
            Some(s) => PoolStats {
                total_deposited: s.total_deposited,
                total_lent: s.total_lent,
                available: s.total_deposited - s.total_lent,
                interest_rate_bps: s.interest_rate_bps,
            },
        }
    }

    /// What `lender` has deposited; the zero record for an unknown account.
    pub fn get_lender_info(&self, lender: u64) -> (r: LenderRecord)
        ensures
            r == self.lender(lender),
    {
        match self.lenders.get(&lender) {
            Some(rec) => *rec,
            None => LenderRecord { amount: 0, deposit_timestamp: 0 },
        }
    }

    pub fn get_loan(&self, loan_id: u64) -> (r: Result<LoanRecord, ContractError>)
        ensures
            self.loans@.contains_key(loan_id) ==> r == Ok::<LoanRecord, ContractError>(
                self.loans@[loan_id],
            ),
            !self.loans@.contains_key(loan_id) ==> r == Err::<LoanRecord, ContractError>(
                ContractError::LoanNotFound,
            ),
    {
        match self.loans.get(&loan_id) {
            Some(rec) => Ok(*rec),
            None => Err(ContractError::LoanNotFound),
        }
    }

    /// Lends `amount` out of the pool to `from` for `duration_days` days,
    /// starting at time `now`, and returns the new loan's id. The host then
    /// consults the price feed and moves `amount` from the pool to `from`.
    pub fn request_loan(&mut self, from: u64, amount: i128, duration_days: u32, now: u64) -> (r:
        Result<u64, ContractError>)
        requires
            old(self).wf(),
            old(self).initialized(),
            amount > 0,
            now + duration_days * SECONDS_PER_DAY <= u64::MAX,
            old(self).next_loan_id < u64::MAX,
        ensures
            final(self).wf(),
            old(self).active_loans@.contains_key(from) ==> r == Err::<u64, ContractError>(
                ContractError::LoanAlreadyActive,
            ) && *final(self) == *old(self),
            !old(self).active_loans@.contains_key(from) && old(self).available() < amount ==> r
                == Err::<u64, ContractError>(ContractError::InsufficientPoolLiquidity) && *final(self)
                == *old(self),
            !old(self).active_loans@.contains_key(from) && amount <= old(self).available() ==> {
                let id = old(self).next_loan_id;
                let s = old(self).state();
                &&& r == Ok::<u64, ContractError>(id)
                &&& !old(self).loans@.contains_key(id)
                &&& final(self).next_loan_id == id + 1
                &&& final(self).pool_state == Some(
                    PoolState {
                        total_deposited: s.total_deposited,
                        total_lent: (s.total_lent + amount) as i128,
                        interest_rate_bps: s.interest_rate_bps,
                    },
                )
                &&& final(self).loans@ == old(self).loans@.insert(
                    id,
                    LoanRecord {
                        borrower: from,
                        principal: amount,
                        interest_owed: interest_for(amount as int, s.interest_rate_bps as int) as i128,
                        due_timestamp: (now + duration_days * SECONDS_PER_DAY) as u64,
                        status: LoanStatus::Active,
                    },
                )
                &&& final(self).active_loans@ == old(self).active_loans@.insert(from, id)
                &&& final(self).lenders@ == old(self).lenders@
                &&& final(self).token == old(self).token
                &&& final(self).oracle == old(self).oracle
                &&& final(self).reward_token == old(self).reward_token
            },
    {
        if self.active_loans.contains_key(&from) {
            return Err(ContractError::LoanAlreadyActive);
        }
        let mut s = self.pool_state.unwrap();
        if s.total_deposited - s.total_lent < amount {
            return Err(ContractError::InsufficientPoolLiquidity);
        }
        let rate = s.interest_rate_bps as i128;
        proof {
            lemma_interest_parts(amount as int, rate as int);
        }
        let interest_owed = amount / BPS_DENOMINATOR * rate + amount % BPS_DENOMINATOR * rate
            / BPS_DENOMINATOR;
        s.total_lent = s.total_lent + amount;
        self.pool_state = Some(s);
        let loan_id = self.next_loan_id;
        self.next_loan_id = loan_id + 1;
        let due_timestamp = now + (duration_days as u64) * SECONDS_PER_DAY;
        let rec = LoanRecord {
            borrower: from,
            principal: amount,
            interest_owed,
            due_timestamp,
            status: LoanStatus::Active,
        };
        let ghost old_loans = self.loans@;
        self.loans.insert(loan_id, rec);
        self.active_loans.insert(from, loan_id);
        proof {
            lemma_outstanding_update(old_loans, loan_id, rec, loan_id as nat);
            assert(outstanding(self.loans@, loan_id) == amount);
            assert(outstanding_below(self.loans@, self.next_loan_id as nat) == outstanding_below(
                self.loans@,
                loan_id as nat,
            ) + outstanding(self.loans@, loan_id));
        }
        Ok(loan_id)
    }

    /// Settles `from`'s repayment of loan `loan_id` at time `now`: the loan is
    /// marked repaid, its principal returns to the pool and its interest is
    /// added to the deposits. The result tells the host what to collect and
    /// what reward to mint.
    pub fn repay_loan(&mut self, from: u64, loan_id: u64, now: u64) -> (r: Result<
        Repayment,
        ContractError,
    >)
        requires
            old(self).wf(),
            old(self).initialized(),
            old(self).loans@.contains_key(loan_id) ==> old(self).state().total_deposited
                + old(self).loans@[loan_id].interest_owed <= i128::MAX,
        ensures
            final(self).wf(),
            final(self).next_loan_id == old(self).next_loan_id,
            !old(self).loans@.contains_key(loan_id) ==> r == Err::<Repayment, ContractError>(
                ContractError::LoanNotFound,
            ) && *final(self) == *old(self),
            old(self).loans@.contains_key(loan_id) && old(self).loans@[loan_id].borrower != from
                ==> r == Err::<Repayment, ContractError>(ContractError::Unauthorized) && *final(self)
                == *old(self),
            old(self).loans@.contains_key(loan_id) && old(self).loans@[loan_id].borrower == from
                && old(self).loans@[loan_id].status != LoanStatus::Active ==> r == Err::<
                Repayment,
                ContractError,
            >(ContractError::LoanNotActive) && *final(self) == *old(self),
            old(self).loans@.contains_key(loan_id) && old(self).loans@[loan_id].borrower == from
                && old(self).loans@[loan_id].status == LoanStatus::Active ==> {
                let loan = old(self).loans@[loan_id];
                let s = old(self).state();
                &&& r == Ok::<Repayment, ContractError>(
                    Repayment {
                        amount_due: (loan.principal + loan.interest_owed) as i128,
                        reward: if now <= loan.due_timestamp {
                            Some(reward_for(loan.principal as int) as i128)
                        } else {
                            None
                        },
                    },
                )
                &&& final(self).pool_state == Some(
                    PoolState {
                        total_deposited: (s.total_deposited + loan.interest_owed) as i128,
                        total_lent: (s.total_lent - loan.principal) as i128,
                        interest_rate_bps: s.interest_rate_bps,
                    },
                )
                &&& final(self).loans@ == old(self).loans@.insert(
                    loan_id,
                    LoanRecord { status: LoanStatus::Repaid, ..loan },
                )
                &&& final(self).active_loans@ == old(self).active_loans@.remove(from)
                &&& final(self).lenders@ == old(self).lenders@
                &&& final(self).token == old(self).token
                &&& final(self).oracle == old(self).oracle
                &&& final(self).reward_token == old(self).reward_token
            },
    {
        let mut loan = match self.loans.get(&loan_id) {
            Some(l) => *l,
            None => return Err(ContractError::LoanNotFound),
        };
        if loan.borrower != from {
            return Err(ContractError::Unauthorized);
        }
        if loan.status != LoanStatus::Active {
            return Err(ContractError::LoanNotActive);
        }
        let mut s = self.pool_state.unwrap();
        proof {
            lemma_outstanding_covers(self.loans@, loan_id, self.next_loan_id as nat);
        }
        let amount_due = loan.principal + loan.interest_owed;
        loan.status = LoanStatus::Repaid;
        let ghost old_loans = self.loans@;
        self.loans.insert(loan_id, loan);
        self.active_loans.remove(&from);
        s.total_lent = s.total_lent - loan.principal;
        s.total_deposited = s.total_deposited + loan.interest_owed;
        self.pool_state = Some(s);
        proof {
            lemma_outstanding_update(old_loans, loan_id, loan, self.next_loan_id as nat);
        }
        let reward = if now <= loan.due_timestamp {
            Some(loan.principal / 10)
        } else {
            None
        };
        Ok(Repayment { amount_due, reward })
    }

    /// Writes off loan `loan_id`, which is past its due time at `now`: the
    /// loan is marked defaulted and its principal leaves both totals. Anyone
    /// may call this.
    pub fn liquidate_defaulted(&mut self, loan_id: u64, now: u64) -> (r: Result<(), ContractError>)
        requires
            old(self).wf(),
            old(self).initialized(),
        ensures
            final(self).wf(),
            final(self).next_loan_id == old(self).next_loan_id,
            !old(self).loans@.contains_key(loan_id) ==> r == Err::<(), ContractError>(
                ContractError::LoanNotFound,
            ) && *final(self) == *old(self),
            old(self).loans@.contains_key(loan_id) && old(self).loans@[loan_id].status
                != LoanStatus::Active ==> r == Err::<(), ContractError>(ContractError::LoanNotActive)
                && *final(self) == *old(self),
            old(self).loans@.contains_key(loan_id) && old(self).loans@[loan_id].status
                == LoanStatus::Active && now <= old(self).loans@[loan_id].due_timestamp ==> r == Err::<
                (),
                ContractError,
            >(ContractError::NotYetDefaulted) && *final(self) == *old(self),
            old(self).loans@.contains_key(loan_id) && old(self).loans@[loan_id].status
                == LoanStatus::Active && now > old(self).loans@[loan_id].due_timestamp ==> {
                let loan = old(self).loans@[loan_id];
                let s = old(self).state();
                &&& r is Ok
                &&& final(self).pool_state == Some(
                    PoolState {
                        total_deposited: (s.total_deposited - loan.principal) as i128,
                        total_lent: (s.total_lent - loan.principal) as i128,
                        interest_rate_bps: s.interest_rate_bps,
                    },
                )
                &&& final(self).loans@ == old(self).loans@.insert(
                    loan_id,
                    LoanRecord { status: LoanStatus::Defaulted, ..loan },
                )
                &&& final(self).active_loans@ == old(self).active_loans@.remove(loan.borrower)
                &&& final(self).lenders@ == old(self).lenders@
                &&& final(self).token == old(self).token
                &&& final(self).oracle == old(self).oracle
                &&& final(self).reward_token == old(self).reward_token
            },
    {
        let mut loan = match self.loans.get(&loan_id) {
            Some(l) => *l,
            None => return Err(ContractError::LoanNotFound),
        };
        if loan.status != LoanStatus::Active {
            return Err(ContractError::LoanNotActive);
        }
        if now <= loan.due_timestamp {
            return Err(ContractError::NotYetDefaulted);
        }
        let mut s = self.pool_state.unwrap();
        proof {
            lemma_outstanding_covers(self.loans@, loan_id, self.next_loan_id as nat);
        }
        loan.status = LoanStatus::Defaulted;
        let ghost old_loans = self.loans@;
        self.loans.insert(loan_id, loan);
        self.active_loans.remove(&loan.borrower);
        s.total_deposited = s.total_deposited - loan.principal;
        s.total_lent = s.total_lent - loan.principal;
        self.pool_state = Some(s);
        proof {
            lemma_outstanding_update(old_loans, loan_id, loan, self.next_loan_id as nat);
        }
        Ok(())
    }

    /// Records `from`'s deposit of `amount` at time `now`. On success the host
    /// moves `amount` from `from` into the pool.
    pub fn deposit(&mut self, from: u64, amount: i128, now: u64) -> (r: Result<(), ContractError>)
        requires
            old(self).wf(),
            old(self).initialized(),
            old(self).state().total_deposited + amount <= i128::MAX,
            old(self).lender(from).amount + amount <= i128::MAX,
        ensures
            final(self).wf(),
            final(self).next_loan_id == old(self).next_loan_id,
            amount <= 0 ==> r == Err::<(), ContractError>(ContractError::InsufficientBalance)
                && *final(self) == *old(self),
            amount > 0 ==> {
                let s = old(self).state();
                &&& r is Ok
                &&& final(self).pool_state == Some(
                    PoolState {
                        total_deposited: (s.total_deposited + amount) as i128,
                        total_lent: s.total_lent,
                        interest_rate_bps: s.interest_rate_bps,
                    },
                )
                &&& final(self).lenders@ == old(self).lenders@.insert(
                    from,
                    LenderRecord {
                        amount: (old(self).lender(from).amount + amount) as i128,
                        deposit_timestamp: now,
                    },
                )
                &&& final(self).loans@ == old(self).loans@
                &&& final(self).active_loans@ == old(self).active_loans@
                &&& final(self).token == old(self).token
                &&& final(self).oracle == old(self).oracle
                &&& final(self).reward_token == old(self).reward_token
            },
    {
        if amount <= 0 {
            return Err(ContractError::InsufficientBalance);
        }
        let mut s = self.pool_state.unwrap();
        s.total_deposited = s.total_deposited + amount;
        self.pool_state = Some(s);
        let held = self.get_lender_info(from);
        self.lenders.insert(from, LenderRecord { amount: held.amount + amount, deposit_timestamp: now });
        Ok(())
    }

    /// Takes `amount` of `from`'s deposit back out of the pool. On success the
    /// host moves `amount` from the pool to `from`.
    pub fn withdraw(&mut self, from: u64, amount: i128) -> (r: Result<(), ContractError>)
        requires
            old(self).wf(),
            old(self).initialized(),
        ensures
            final(self).wf(),
            final(self).next_loan_id == old(self).next_loan_id,
            amount <= 0 || old(self).lender(from).amount < amount ==> r == Err::<(), ContractError>(
                ContractError::InsufficientBalance,
            ) && *final(self) == *old(self),
            0 < amount <= old(self).lender(from).amount && old(self).available() < amount ==> r
                == Err::<(), ContractError>(ContractError::InsufficientPoolLiquidity) && *final(self)
                == *old(self),
            0 < amount <= old(self).lender(from).amount && amount <= old(self).available() ==> {
                let s = old(self).state();
                &&& r is Ok
                &&& final(self).pool_state == Some(
                    PoolState {
                        total_deposited: (s.total_deposited - amount) as i128,
                        total_lent: s.total_lent,
                        interest_rate_bps: s.interest_rate_bps,
                    },
                )
                &&& final(self).lenders@ == old(self).lenders@.insert(
                    from,
                    LenderRecord {
                        amount: (old(self).lender(from).amount - amount) as i128,
                        deposit_timestamp: old(self).lender(from).deposit_timestamp,
                    },
                )
                &&& final(self).loans@ == old(self).loans@
                &&& final(self).active_loans@ == old(self).active_loans@
                &&& final(self).token == old(self).token
                &&& final(self).oracle == old(self).oracle
                &&& final(self).reward_token == old(self).reward_token
            },
    {
        if amount <= 0 {
            return Err(ContractError::InsufficientBalance);
        }
        let mut held = self.get_lender_info(from);
        if held.amount < amount {
            return Err(ContractError::InsufficientBalance);
        }
        let mut s = self.pool_state.unwrap();
        if s.total_deposited - s.total_lent < amount {
            return Err(ContractError::InsufficientPoolLiquidity);
        }
        s.total_deposited = s.total_deposited - amount;
        held.amount = held.amount - amount;
        self.pool_state = Some(s);
        self.lenders.insert(from, held);
        Ok(())
    }
}

/// In every well-formed initialized pool, nothing more is lent than has
/// been deposited, and nothing less than zero.
pub proof fn lemma_lent_within_deposits(pool: &LumiLendPool)
    requires
        pool.wf(),
        pool.initialized(),
    ensures
        0 <= pool.state().total_lent <= pool.state().total_deposited,
        pool.available() >= 0,
{
}

/// No borrower has two active loans at once.
pub proof fn lemma_one_active_loan(pool: &LumiLendPool, a: u64, b: u64)
    requires
        pool.wf(),
        pool.loans@.contains_key(a),
        pool.loans@.contains_key(b),
        pool.loans@[a].status == LoanStatus::Active,
        pool.loans@[b].status == LoanStatus::Active,
        pool.loans@[a].borrower == pool.loans@[b].borrower,
    ensures
        a == b,
{
}

/// A borrower appears in the active-loan index exactly when some loan of that
/// borrower is active, and the index then names that loan.
pub proof fn lemma_active_index_exact(pool: &LumiLendPool, borrower: u64)
    requires
        pool.wf(),
    ensures
        pool.active_loans@.contains_key(borrower) <==> exists|id: u64|
            #![trigger pool.loans@[id]]
            pool.loans@.contains_key(id) && pool.loans@[id].borrower == borrower
                && pool.loans@[id].status == LoanStatus::Active,
        forall|id: u64|
            #![trigger pool.loans@[id]]
            pool.loans@.contains_key(id) && pool.loans@[id].borrower == borrower
                && pool.loans@[id].status == LoanStatus::Active ==> pool.active_loans@[borrower]
                == id,
{
    if pool.active_loans@.contains_key(borrower) {
        let id = pool.active_loans@[borrower];
        assert(pool.loans@.contains_key(id) && pool.loans@[id].borrower == borrower
            && pool.loans@[id].status == LoanStatus::Active);
    }
}

/// Loan ids are never reused: every recorded id lies below the id that the
/// pool will issue next, so each new loan gets an id above all earlier ones.
pub proof fn lemma_loan_ids_fresh(pool: &LumiLendPool, issued: u64)
    requires
        pool.wf(),
        pool.loans@.contains_key(issued),
    ensures
        1 <= issued < pool.next_loan_id,
        !pool.loans@.contains_key(pool.next_loan_id),
{
}

} // verus!
