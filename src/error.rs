//! The faults an operation can end in. Each one aborts the whole call.
use vstd::prelude::*;

verus! {

#[derive(Clone, Copy, Debug, PartialEq, Eq, Structural)]
pub enum Error {
    /// The contract has no admin yet.
    NotInitialized,
    /// The call lacks the authentication proof of the account it needs.
    Unauthorized,
    AlreadyInitialized,
    AmountMustBePositive,
    InsufficientBalance,
    InsufficientAllowance,
    AllowanceExpired,
    ExpirationInPast,
    /// A result leaves the 128-bit range.
    Overflow,
    RateMustBePositive,
    NoRateConfigured,
    AmountOutMismatch,
    InstitutionAlreadyRegistered,
    InstitutionNotFound,
    BadgeNotFound,
    RecordNotFound,
}

impl Error {
    /// The short code under which the fault is reported.
    pub fn code(&self) -> (r: &'static str) {
        match self {
            Error::NotInitialized => "not_initialized",
            Error::Unauthorized => "unauthorized",
            Error::AlreadyInitialized => "already_initialized",
            Error::AmountMustBePositive => "amount_must_be_positive",
            Error::InsufficientBalance => "insufficient_balance",
            Error::InsufficientAllowance => "insufficient_allowance",
            Error::AllowanceExpired => "allowance_expired",
            Error::ExpirationInPast => "expiration_ledger_in_past",
            Error::Overflow => "overflow",
            Error::RateMustBePositive => "rate_must_be_positive",
            Error::NoRateConfigured => "no_rate_configured",
            Error::AmountOutMismatch => "amount_out_mismatch",
            Error::InstitutionAlreadyRegistered => "institution_already_registered",
            Error::InstitutionNotFound => "institution_not_found",
            Error::BadgeNotFound => "badge_not_found",
            Error::RecordNotFound => "record_not_found",
        }
    }
}

} // verus!
