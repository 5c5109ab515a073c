use vstd::prelude::*;
use vstd::string::*;

use crate::decimal::{decimal, u128_to_decimal};

verus! {

/// The generic failures the contract reports with a plain message.
#[derive(Clone, Copy, Debug, PartialEq, Eq, Structural)]
pub enum StdError {
    /// The owner has closed the airdrop.
    AirdropClosed,
    /// The vesting window has not opened yet.
    ClaimNotAllowed,
    /// The sender is not on the list of claim addresses.
    NoClaimForAddress,
    /// Nothing has vested beyond what the user already holds.
    NothingToClaim,
    /// The vesting window is empty while it is still running.
    InvalidVestingPeriod,
    /// The contract holds none of its token.
    InsufficientContractBalance,
    /// The address at this position of the request did not pass the chain's
    /// address validation.
    InvalidAddress { index: usize },
}

/// Everything an instantiation or an execution can fail with.
#[derive(Clone, Copy, Debug, PartialEq, Eq, Structural)]
pub enum ContractError {
    Std(StdError),
    Unauthorized {},
    FullyClaimed {},
    InsufficientBalance { required: u128, available: u128 },
    InvalidRewardPool { minimum: u128 },
}

/// The text of a generic failure, as the chain prints it.
pub open spec fn std_error_message(e: StdError) -> Seq<char> {
    match e {
        StdError::AirdropClosed => "Generic error: Airdrop is closed"@,
        StdError::ClaimNotAllowed => "Generic error: Claim not allowed"@,
        StdError::NoClaimForAddress => "Generic error: No claim for address"@,
        StdError::NothingToClaim => "Generic error: Nothing to claim"@,
        StdError::InvalidVestingPeriod => "Generic error: Invalid vesting period"@,
        StdError::InsufficientContractBalance => "Generic error: Insufficient contract balance"@,
        StdError::InvalidAddress { index } => "Generic error: Invalid input: address at position "@
            + decimal(index as nat),
    }
}

/// The text of a contract failure.
pub open spec fn contract_error_message(e: ContractError) -> Seq<char> {
    match e {
        ContractError::Std(s) => std_error_message(s),
        ContractError::Unauthorized {} => "Unauthorized"@,
        ContractError::FullyClaimed {} => "User has already fully claimed their rewards"@,
        ContractError::InsufficientBalance { required, available } =>
            "Insufficient contract balance: required "@ + decimal(required as nat)
                + ", available "@ + decimal(available as nat),
        ContractError::InvalidRewardPool { minimum } =>
            "Invalid total reward pool: must be at least "@ + decimal(minimum as nat),
    }
}

impl StdError {
    /// The message of this failure.
    pub fn message(&self) -> (s: String)
        ensures
            s@ == std_error_message(*self),
    {
        match self {
            StdError::AirdropClosed => String::from_str("Generic error: Airdrop is closed"),
            StdError::ClaimNotAllowed => String::from_str("Generic error: Claim not allowed"),
            StdError::NoClaimForAddress => String::from_str("Generic error: No claim for address"),
            StdError::NothingToClaim => String::from_str("Generic error: Nothing to claim"),
            StdError::InvalidVestingPeriod => String::from_str(
                "Generic error: Invalid vesting period",
            ),
            StdError::InsufficientContractBalance => String::from_str(
                "Generic error: Insufficient contract balance",
            ),
            StdError::InvalidAddress { index } => {
                let mut s = String::from_str("Generic error: Invalid input: address at position ");
                let n = u128_to_decimal(*index as u128);
                s.append(n.as_str());
                s
            },
        }
    }
}

impl ContractError {
    /// The message of this failure.
    pub fn message(&self) -> (s: String)
        ensures
            s@ == contract_error_message(*self),
    {
        match self {
            ContractError::Std(e) => e.message(),
            ContractError::Unauthorized {} => String::from_str("Unauthorized"),
            ContractError::FullyClaimed {} => String::from_str(
                "User has already fully claimed their rewards",
            ),
            ContractError::InsufficientBalance { required, available } => {
                let mut s = String::from_str("Insufficient contract balance: required ");
                let r = u128_to_decimal(*required);
                s.append(r.as_str());
                s.append(", available ");
                let a = u128_to_decimal(*available);
                s.append(a.as_str());
                s
            },
            ContractError::InvalidRewardPool { minimum } => {
                let mut s = String::from_str("Invalid total reward pool: must be at least ");
                let m = u128_to_decimal(*minimum);
                s.append(m.as_str());
                s
            },
        }
    }
}

impl From<StdError> for ContractError {
    fn from(e: StdError) -> (r: ContractError) {
        ContractError::Std(e)
    }
}

impl vstd::std_specs::convert::FromSpecImpl<StdError> for ContractError {
    open spec fn obeys_from_spec() -> bool {
        true
    }

    open spec fn from_spec(e: StdError) -> ContractError {
        ContractError::Std(e)
    }
}

} // verus!
