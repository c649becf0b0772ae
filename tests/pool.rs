use lumilend::{ContractError, LoanStatus, LumiLendPool, LumiToken, PoolStats, PriceOracle, Repayment};

const ADMIN: u64 = 1;
const POOL: u64 = 2;
const ORACLE: u64 = 3;
const TOKEN: u64 = 4;
const LENDER: u64 = 10;
const BORROWER: u64 = 11;

/// Plays the part of the host: runs each pool operation, settles the asset
/// movement it calls for, and turns a refusal into the host's panic.
struct Host {
    pool: LumiLendPool,
    token: LumiToken,
    oracle: PriceOracle,
    now: u64,
}

fn host<T>(r: Result<T, ContractError>) -> T {
    match r {
        Ok(v) => v,
        Err(e) => panic!("HostError: Error(Contract, #{})", e.code()),
    }
}

impl Host {
    fn deposit(&mut self, from: u64, amount: i128) {
        host(self.pool.deposit(from, amount, self.now));
        self.token.transfer(from, POOL, amount).unwrap();
    }

    fn withdraw(&mut self, from: u64, amount: i128) {
        host(self.pool.withdraw(from, amount));
        self.token.transfer(POOL, from, amount).unwrap();
    }

    fn request_loan(&mut self, from: u64, amount: i128, days: u32) -> u64 {
        let id = host(self.pool.request_loan(from, amount, days, self.now));
        let _price = self.oracle.get_price(&"XLM".to_string());
        self.token.transfer(POOL, from, amount).unwrap();
        id
    }

    fn repay_loan(&mut self, from: u64, loan_id: u64) -> Repayment {
        let rep = host(self.pool.repay_loan(from, loan_id, self.now));
        self.token.transfer(from, POOL, rep.amount_due).unwrap();
        rep
    }

    fn liquidate_defaulted(&mut self, loan_id: u64) {
        host(self.pool.liquidate_defaulted(loan_id, self.now));
    }
}

fn setup_test() -> Host {
    let mut pool = LumiLendPool::new();
    let mut token = LumiToken::new();
    token.initialize(ADMIN).unwrap();
    let mut oracle = PriceOracle::new();
    oracle.initialize();
    host(pool.initialize(TOKEN, 500, ORACLE, ORACLE));
    Host { pool, token, oracle, now: 1_000 }
}

#[test]
fn test_deposit_success() {
    let mut h = setup_test();
    h.token.mint(LENDER, 1000).unwrap();
    h.deposit(LENDER, 50);

    let stats = h.pool.get_pool_stats();
    assert_eq!(stats.total_deposited, 50);

    let lender_info = h.pool.get_lender_info(LENDER);
    assert_eq!(lender_info.amount, 50);
}

#[test]
fn test_borrow_success() {
    let mut h = setup_test();
    h.token.mint(LENDER, 1000).unwrap();
    h.deposit(LENDER, 50);

    let loan_id = h.request_loan(BORROWER, 20, 14);
    assert_eq!(loan_id, 1);

    let stats = h.pool.get_pool_stats();
    assert_eq!(stats.total_lent, 20);
    assert_eq!(stats.available, 30);

    let borrower_balance = h.token.balance(BORROWER);
    assert_eq!(borrower_balance, 20);
}

#[test]
fn test_repay_success() {
    let mut h = setup_test();
    h.token.mint(LENDER, 1000).unwrap();
    h.deposit(LENDER, 50);

    let loan_id = h.request_loan(BORROWER, 20, 14);

    h.token.mint(BORROWER, 5).unwrap();

    h.repay_loan(BORROWER, loan_id);

    let loan = h.pool.get_loan(loan_id).unwrap();
    assert_eq!(loan.status, LoanStatus::Repaid);

    let stats = h.pool.get_pool_stats();
    assert_eq!(stats.total_lent, 0);
    assert_eq!(stats.total_deposited, 51);
}

#[test]
#[should_panic(expected = "HostError: Error(Contract, #2)")]
fn test_borrow_exceeds_liquidity_fails() {
    let mut h = setup_test();
    h.token.mint(LENDER, 1000).unwrap();
    h.deposit(LENDER, 50);

    h.request_loan(BORROWER, 60, 14);
}

#[test]
#[should_panic(expected = "HostError: Error(Contract, #4)")]
fn test_double_borrow_fails() {
    let mut h = setup_test();
    h.token.mint(LENDER, 1000).unwrap();
    h.deposit(LENDER, 50);

    h.request_loan(BORROWER, 10, 14);
    h.request_loan(BORROWER, 10, 14);
}

#[test]
#[should_panic(expected = "HostError: Error(Contract, #8)")]
fn test_liquidate_before_due_fails() {
    let mut h = setup_test();
    h.token.mint(LENDER, 1000).unwrap();
    h.deposit(LENDER, 50);

    let loan_id = h.request_loan(BORROWER, 20, 14);

    h.liquidate_defaulted(loan_id);
}

fn stats(deposited: i128, lent: i128, rate: u32) -> PoolStats {
    PoolStats { total_deposited: deposited, total_lent: lent, available: deposited - lent, interest_rate_bps: rate }
}

#[test]
fn scenario_deposit_sets_stats() {
    let mut h = setup_test();
    h.token.mint(LENDER, 1000).unwrap();
    h.deposit(LENDER, 50);
    assert_eq!(h.pool.get_pool_stats(), stats(50, 0, 500));
    assert_eq!(h.token.balance(POOL), 50);
    assert_eq!(h.token.balance(LENDER), 950);
    assert_eq!(h.pool.get_lender_info(LENDER).deposit_timestamp, 1_000);
}

#[test]
fn scenario_borrow_records_loan() {
    let mut h = setup_test();
    h.token.mint(LENDER, 1000).unwrap();
    h.deposit(LENDER, 50);
    assert_eq!(h.request_loan(BORROWER, 20, 14), 1);
    assert_eq!(h.pool.get_pool_stats(), stats(50, 20, 500));
    let loan = h.pool.get_loan(1).unwrap();
    assert_eq!(loan.borrower, BORROWER);
    assert_eq!(loan.principal, 20);
    assert_eq!(loan.interest_owed, 1);
    assert_eq!(loan.due_timestamp, 1_000 + 14 * 86400);
    assert_eq!(loan.status, LoanStatus::Active);
    assert_eq!(h.token.balance(BORROWER), 20);
}

#[test]
fn scenario_repay_on_time_earns_reward() {
    let mut h = setup_test();
    h.token.mint(LENDER, 1000).unwrap();
    h.deposit(LENDER, 50);
    h.request_loan(BORROWER, 20, 14);
    h.token.mint(BORROWER, 5).unwrap();
    let rep = h.repay_loan(BORROWER, 1);
    assert_eq!(rep, Repayment { amount_due: 21, reward: Some(2) });
    assert_eq!(h.pool.get_pool_stats(), stats(51, 0, 500));
    assert_eq!(h.token.balance(BORROWER), 4);
    assert_eq!(h.token.balance(POOL), 51);
}

#[test]
fn repay_after_due_earns_no_reward() {
    let mut h = setup_test();
    h.token.mint(LENDER, 1000).unwrap();
    h.deposit(LENDER, 50);
    h.request_loan(BORROWER, 20, 1);
    h.now += 86400 + 1;
    h.token.mint(BORROWER, 5).unwrap();
    let rep = h.repay_loan(BORROWER, 1);
    assert_eq!(rep, Repayment { amount_due: 21, reward: None });
}

#[test]
fn repay_exactly_at_due_earns_reward() {
    let mut h = setup_test();
    h.token.mint(LENDER, 1000).unwrap();
    h.deposit(LENDER, 100);
    h.request_loan(BORROWER, 35, 1);
    h.now += 86400;
    h.token.mint(BORROWER, 5).unwrap();
    let rep = h.repay_loan(BORROWER, 1);
    assert_eq!(rep, Repayment { amount_due: 36, reward: Some(3) });
}

#[test]
fn scenario_borrow_beyond_liquidity_changes_nothing() {
    let mut h = setup_test();
    h.token.mint(LENDER, 1000).unwrap();
    h.deposit(LENDER, 50);
    assert_eq!(h.pool.request_loan(BORROWER, 60, 14, h.now), Err(ContractError::InsufficientPoolLiquidity));
    assert_eq!(h.pool.get_pool_stats(), stats(50, 0, 500));
    assert_eq!(h.pool.next_loan_id, 1);
    assert_eq!(h.pool.get_loan(1), Err(ContractError::LoanNotFound));
}

#[test]
fn scenario_second_loan_refused_while_active() {
    let mut h = setup_test();
    h.token.mint(LENDER, 1000).unwrap();
    h.deposit(LENDER, 50);
    h.request_loan(BORROWER, 20, 14);
    assert_eq!(h.pool.request_loan(BORROWER, 10, 14, h.now), Err(ContractError::LoanAlreadyActive));
    assert_eq!(h.pool.get_pool_stats(), stats(50, 20, 500));
}

#[test]
fn scenario_liquidation_waits_for_due_time() {
    let mut h = setup_test();
    h.token.mint(LENDER, 1000).unwrap();
    h.deposit(LENDER, 50);
    h.request_loan(BORROWER, 20, 14);
    let due = h.pool.get_loan(1).unwrap().due_timestamp;
    assert_eq!(h.pool.liquidate_defaulted(1, due), Err(ContractError::NotYetDefaulted));
    assert_eq!(h.pool.liquidate_defaulted(1, due + 1), Ok(()));
    assert_eq!(h.pool.get_loan(1).unwrap().status, LoanStatus::Defaulted);
    assert_eq!(h.pool.get_pool_stats(), stats(30, 0, 500));
    assert_eq!(h.pool.liquidate_defaulted(1, due + 2), Err(ContractError::LoanNotActive));
}

#[test]
fn second_initialize_fails_and_changes_nothing() {
    let mut h = setup_test();
    h.token.mint(LENDER, 1000).unwrap();
    h.deposit(LENDER, 50);
    assert_eq!(h.pool.initialize(7, 900, 8, 9), Err(ContractError::AlreadyInitialized));
    assert_eq!(h.pool.get_pool_stats(), stats(50, 0, 500));
    assert_eq!(h.pool.token, TOKEN);
    assert_eq!(h.pool.oracle, ORACLE);
    assert_eq!(h.pool.initialize(7, 900, 8, 9), Err(ContractError::AlreadyInitialized));
    assert_eq!(h.pool.get_lender_info(LENDER).amount, 50);
}

#[test]
fn stats_are_zero_before_initialize() {
    let pool = LumiLendPool::new();
    assert_eq!(pool.get_pool_stats(), stats(0, 0, 0));
    assert_eq!(pool.get_lender_info(LENDER).amount, 0);
    assert_eq!(pool.get_lender_info(LENDER).deposit_timestamp, 0);
}

#[test]
fn loan_ids_increase_and_are_not_reused() {
    let mut h = setup_test();
    h.token.mint(LENDER, 1000).unwrap();
    h.deposit(LENDER, 500);
    let a = h.request_loan(20, 10, 14);
    let b = h.request_loan(21, 10, 14);
    h.token.mint(20, 5).unwrap();
    h.repay_loan(20, a);
    let c = h.request_loan(20, 10, 14);
    assert_eq!((a, b, c), (1, 2, 3));
    assert_eq!(h.pool.get_loan(a).unwrap().status, LoanStatus::Repaid);
    assert_eq!(h.pool.get_loan(c).unwrap().status, LoanStatus::Active);
}

#[test]
fn lent_never_exceeds_deposited() {
    let mut h = setup_test();
    h.token.mint(LENDER, 1000).unwrap();
    h.deposit(LENDER, 100);
    h.request_loan(20, 60, 1);
    h.request_loan(21, 40, 1);
    let s = h.pool.get_pool_stats();
    assert_eq!(s, stats(100, 100, 500));
    assert_eq!(h.pool.request_loan(22, 1, 1, h.now), Err(ContractError::InsufficientPoolLiquidity));
    assert_eq!(h.pool.withdraw(LENDER, 1), Err(ContractError::InsufficientPoolLiquidity));
    h.now += 2 * 86400;
    h.liquidate_defaulted(1);
    let s = h.pool.get_pool_stats();
    assert_eq!(s, stats(40, 40, 500));
    assert!(0 <= s.total_lent && s.total_lent <= s.total_deposited);
}

#[test]
fn one_active_loan_per_borrower() {
    let mut h = setup_test();
    h.token.mint(LENDER, 1000).unwrap();
    h.deposit(LENDER, 100);
    h.request_loan(BORROWER, 10, 14);
    assert_eq!(h.pool.active_loans.get(&BORROWER), Some(&1));
    assert_eq!(h.pool.request_loan(BORROWER, 10, 14, h.now), Err(ContractError::LoanAlreadyActive));
    h.token.mint(BORROWER, 5).unwrap();
    h.repay_loan(BORROWER, 1);
    assert_eq!(h.pool.active_loans.get(&BORROWER), None);
    assert_eq!(h.request_loan(BORROWER, 10, 14), 2);
    assert_eq!(h.pool.active_loans.get(&BORROWER), Some(&2));
}

#[test]
fn deposit_of_nothing_is_refused() {
    let mut h = setup_test();
    assert_eq!(h.pool.deposit(LENDER, 0, 5), Err(ContractError::InsufficientBalance));
    assert_eq!(h.pool.deposit(LENDER, -3, 5), Err(ContractError::InsufficientBalance));
    assert_eq!(h.pool.get_pool_stats(), stats(0, 0, 500));
}

#[test]
fn repeated_deposits_accumulate_and_refresh_time() {
    let mut h = setup_test();
    h.token.mint(LENDER, 1000).unwrap();
    h.deposit(LENDER, 30);
    h.now = 2_000;
    h.deposit(LENDER, 12);
    let info = h.pool.get_lender_info(LENDER);
    assert_eq!(info.amount, 42);
    assert_eq!(info.deposit_timestamp, 2_000);
}

#[test]
fn withdraw_checks_and_effects() {
    let mut h = setup_test();
    h.token.mint(LENDER, 1000).unwrap();
    h.deposit(LENDER, 50);
    assert_eq!(h.pool.withdraw(LENDER, 0), Err(ContractError::InsufficientBalance));
    assert_eq!(h.pool.withdraw(LENDER, 51), Err(ContractError::InsufficientBalance));
    assert_eq!(h.pool.withdraw(99, 1), Err(ContractError::InsufficientBalance));
    h.request_loan(BORROWER, 40, 14);
    assert_eq!(h.pool.withdraw(LENDER, 11), Err(ContractError::InsufficientPoolLiquidity));
    h.withdraw(LENDER, 10);
    assert_eq!(h.pool.get_pool_stats(), stats(40, 40, 500));
    assert_eq!(h.pool.get_lender_info(LENDER).amount, 40);
    assert_eq!(h.token.balance(LENDER), 960);
}

#[test]
fn repay_refusals() {
    let mut h = setup_test();
    h.token.mint(LENDER, 1000).unwrap();
    h.deposit(LENDER, 50);
    assert_eq!(h.pool.repay_loan(BORROWER, 1, h.now), Err(ContractError::LoanNotFound));
    h.request_loan(BORROWER, 20, 14);
    assert_eq!(h.pool.repay_loan(LENDER, 1, h.now), Err(ContractError::Unauthorized));
    h.token.mint(BORROWER, 5).unwrap();
    h.repay_loan(BORROWER, 1);
    assert_eq!(h.pool.repay_loan(BORROWER, 1, h.now), Err(ContractError::LoanNotActive));
    assert_eq!(h.pool.liquidate_defaulted(1, u64::MAX), Err(ContractError::LoanNotActive));
    assert_eq!(h.pool.liquidate_defaulted(5, u64::MAX), Err(ContractError::LoanNotFound));
}

#[test]
fn interest_rounds_down() {
    let mut h = setup_test();
    h.token.mint(LENDER, 1000).unwrap();
    h.deposit(LENDER, 1000);
    h.request_loan(BORROWER, 199, 3);
    let loan = h.pool.get_loan(1).unwrap();
    assert_eq!(loan.interest_owed, 9);
    assert_eq!(loan.due_timestamp, 1_000 + 3 * 86400);
}

#[test]
fn interest_on_a_huge_loan_is_exact() {
    let mut pool = LumiLendPool::new();
    pool.initialize(TOKEN, 10000, ORACLE, ORACLE).unwrap();
    let big: i128 = i128::MAX - 7;
    pool.deposit(LENDER, big, 0).unwrap();
    assert_eq!(pool.request_loan(BORROWER, big, 0, 0), Ok(1));
    assert_eq!(pool.get_loan(1).unwrap().interest_owed, big);
    assert_eq!(pool.get_pool_stats().available, 0);
}

#[test]
fn zero_rate_owes_no_interest() {
    let mut pool = LumiLendPool::new();
    pool.initialize(TOKEN, 0, ORACLE, ORACLE).unwrap();
    pool.deposit(LENDER, 100, 0).unwrap();
    pool.request_loan(BORROWER, 100, 1, 0).unwrap();
    assert_eq!(pool.repay_loan(BORROWER, 1, 0), Ok(Repayment { amount_due: 100, reward: Some(10) }));
    assert_eq!(pool.get_pool_stats(), stats(100, 0, 0));
}

#[test]
fn error_codes_match_host_numbering() {
    let all = [
        ContractError::AlreadyInitialized,
        ContractError::InsufficientPoolLiquidity,
        ContractError::InsufficientBalance,
        ContractError::LoanAlreadyActive,
        ContractError::LoanNotFound,
        ContractError::LoanNotActive,
        ContractError::RepaymentTooLow,
        ContractError::NotYetDefaulted,
        ContractError::Unauthorized,
    ];
    for (i, e) in all.iter().enumerate() {
        assert_eq!(e.code() as usize, i + 1);
    }
}
