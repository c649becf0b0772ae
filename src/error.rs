use vstd::prelude::*;

verus! {

/// The ways in which an operation of the lending pool can be refused.
#[derive(Copy, Clone, Debug, PartialEq, Eq, PartialOrd, Ord, Structural)]
pub enum ContractError {
    AlreadyInitialized,
    InsufficientPoolLiquidity,
    InsufficientBalance,
    LoanAlreadyActive,
    LoanNotFound,
    LoanNotActive,
    /// Reserved for partial repayment; no operation produces it.
    RepaymentTooLow,
    NotYetDefaulted,
    Unauthorized,
}

impl ContractError {
    /// The numeric code under which the host reports this error.
    pub open spec fn spec_code(self) -> u32 {
        match self {
            ContractError::AlreadyInitialized => 1,
            ContractError::InsufficientPoolLiquidity => 2,
            ContractError::InsufficientBalance => 3,
            ContractError::LoanAlreadyActive => 4,
            ContractError::LoanNotFound => 5,
            ContractError::LoanNotActive => 6,
            ContractError::RepaymentTooLow => 7,
            ContractError::NotYetDefaulted => 8,
            ContractError::Unauthorized => 9,
        }
    }

    pub fn code(&self) -> (r: u32)
        ensures
            r == self.spec_code(),
    {
        match self {
            ContractError::AlreadyInitialized => 1,
            ContractError::InsufficientPoolLiquidity => 2,
            ContractError::InsufficientBalance => 3,
            ContractError::LoanAlreadyActive => 4,
            ContractError::LoanNotFound => 5,
            ContractError::LoanNotActive => 6,
            ContractError::RepaymentTooLow => 7,
            ContractError::NotYetDefaulted => 8,
            ContractError::Unauthorized => 9,
        }
    }
}

} // verus!
