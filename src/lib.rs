//! A pooled lending ledger: lenders deposit a fungible asset into a shared
//! pool, borrowers take fixed-interest loans out of it, and each loan ends
//! either repaid or written off as defaulted.
//!
//! Accounts and contracts are identified by `u64` ids; the asset movements,
//! price lookups and reward mints that an operation calls for are carried
//! out by the host around this library.
pub mod error;
pub mod oracle;
pub mod pool;
pub mod token;

pub use error::ContractError;
pub use pool::{LenderRecord, LoanRecord, LoanStatus, LumiLendPool, PoolState, PoolStats, Repayment};
pub use token::{LumiToken, TokenError};
pub use oracle::{PriceEntry, PriceOracle};
