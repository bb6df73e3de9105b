//! Why an invocation is refused.
use vstd::prelude::*;

verus! {

/// The reasons for which the contract refuses an invocation. A refusal ends the
/// transaction, which undoes whatever it had done.
#[derive(Clone, Copy, Debug, PartialEq, Eq, Structural)]
pub enum MigrationError {
    /// The contract has its configuration already.
    AlreadyInitialized,
    /// The contract has no configuration, or no running total, yet.
    NotInitialized,
    /// The deadline has passed.
    MigrationEnded,
    /// The amount to migrate is zero or less.
    AmountNotPositive,
    /// The amount of new tokens does not fit.
    AmountOverflow,
    /// The user's migrated amount does not fit.
    UserAmountOverflow,
    /// The number of indexed users does not fit.
    UserCountOverflow,
    /// The total migrated amount does not fit.
    TotalAmountOverflow,
    /// The deadline has not passed.
    WithdrawBeforeDeadline,
    /// The caller is not the admin.
    NotAdmin,
}

impl MigrationError {
    /// The text with which a transaction is aborted.
    pub open spec fn text(self) -> Seq<char> {
        match self {
            MigrationError::AlreadyInitialized => "Already initialized"@,
            MigrationError::NotInitialized => "Not initialized"@,
            MigrationError::MigrationEnded => "Migration period has ended"@,
            MigrationError::AmountNotPositive => "Amount must be positive"@,
            MigrationError::AmountOverflow => "Amount overflow"@,
            MigrationError::UserAmountOverflow => "User amount overflow"@,
            MigrationError::UserCountOverflow => "User count overflow"@,
            MigrationError::TotalAmountOverflow => "Total amount overflow"@,
            MigrationError::WithdrawBeforeDeadline => "Cannot withdraw before deadline"@,
            MigrationError::NotAdmin => "Only admin can run storage migration"@,
        }
    }

    /// The text with which a transaction is aborted.
    pub fn message(&self) -> (text: &'static str)
        ensures
            text@ == self.text(),
    {
        match self {
            MigrationError::AlreadyInitialized => "Already initialized",
            MigrationError::NotInitialized => "Not initialized",
            MigrationError::MigrationEnded => "Migration period has ended",
            MigrationError::AmountNotPositive => "Amount must be positive",
            MigrationError::AmountOverflow => "Amount overflow",
            MigrationError::UserAmountOverflow => "User amount overflow",
            MigrationError::UserCountOverflow => "User count overflow",
            MigrationError::TotalAmountOverflow => "Total amount overflow",
            MigrationError::WithdrawBeforeDeadline => "Cannot withdraw before deadline",
            MigrationError::NotAdmin => "Only admin can run storage migration",
        }
    }
}

} // verus!
