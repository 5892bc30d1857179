//! The ways in which a wallet operation is refused.

use vstd::prelude::*;

verus! {

/// Why an operation was refused.
#[derive(Clone, Copy, Debug, PartialEq, Eq, Structural)]
pub enum WalletError {
    /// The wallet was set up with no owner.
    EmptyOwnerSet,
    /// The number of required confirmations is zero or exceeds the number of owners.
    InvalidThreshold,
    /// An owner is the null address.
    ZeroAddress,
    /// An owner is listed twice.
    DuplicateOwner,
    /// The caller is not an owner.
    Unauthorized,
    /// No transaction has the given id.
    NotFound,
    /// The transaction was executed before.
    AlreadyExecuted,
    /// The caller confirmed the transaction before.
    AlreadyConfirmed,
    /// Fewer owners have confirmed the transaction than are required.
    InsufficientConfirmations,
}

impl WalletError {
    /// The text that describes the error.
    pub open spec fn text(self) -> Seq<char> {
        match self {
            WalletError::EmptyOwnerSet => "Owners required"@,
            WalletError::InvalidThreshold => "Invalid required confirmations"@,
            WalletError::ZeroAddress => "Invalid owner address"@,
            WalletError::DuplicateOwner => "Duplicate owner"@,
            WalletError::Unauthorized => "Not an owner"@,
            WalletError::NotFound => "Transaction not found"@,
            WalletError::AlreadyExecuted => "Transaction already executed"@,
            WalletError::AlreadyConfirmed => "Transaction already confirmed"@,
            WalletError::InsufficientConfirmations => "Not enough confirmations"@,
        }
    }

    /// The text that describes the error.
    pub fn message(&self) -> (message: &'static str)
        ensures
            message@ == self.text(),
    {
        match self {
            WalletError::EmptyOwnerSet => "Owners required",
            WalletError::InvalidThreshold => "Invalid required confirmations",
            WalletError::ZeroAddress => "Invalid owner address",
            WalletError::DuplicateOwner => "Duplicate owner",
            WalletError::Unauthorized => "Not an owner",
            WalletError::NotFound => "Transaction not found",
            WalletError::AlreadyExecuted => "Transaction already executed",
            WalletError::AlreadyConfirmed => "Transaction already confirmed",
            WalletError::InsufficientConfirmations => "Not enough confirmations",
        }
    }
}

} // verus!
