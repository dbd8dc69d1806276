//! The payout program: bulk payouts alone, with fees handled elsewhere.

use crate::accounts::{PaymentAccounts, SourceFault};
use crate::bulk::{start_payout, BulkFault, BulkRun, BulkState};
use crate::token::AccountMeta;
use vstd::prelude::*;

pub use crate::bulk::BulkSummary;

verus! {

/// The accounts that the instruction of the program names.
pub type BulkPayout = PaymentAccounts;

/// Why the program refuses an instruction.
#[derive(Clone, Copy, Debug, PartialEq, Eq, Structural)]
pub enum ErrorCode {
    InvalidTokenProgram,
    InvalidRecipientCount,
    InsufficientBalance,
    RecipientAmountTooSmall,
    MathOverflow,
    InvalidTokenAccountOwner,
    RecipientAccountNotWritable,
    IncorrectAccountCount,
    MintMismatch,
    DuplicateRecipientAccount,
    TotalAmountTooSmall,
    TotalAmountMismatch,
}

impl ErrorCode {
    /// The number by which clients know the error: errors count up from 6000.
    pub open spec fn spec_number(self) -> u32 {
        match self {
            ErrorCode::InvalidTokenProgram => 6000,
            ErrorCode::InvalidRecipientCount => 6001,
            ErrorCode::InsufficientBalance => 6002,
            ErrorCode::RecipientAmountTooSmall => 6003,
            ErrorCode::MathOverflow => 6004,
            ErrorCode::InvalidTokenAccountOwner => 6005,
            ErrorCode::RecipientAccountNotWritable => 6006,
            ErrorCode::IncorrectAccountCount => 6007,
            ErrorCode::MintMismatch => 6008,
            ErrorCode::DuplicateRecipientAccount => 6009,
            ErrorCode::TotalAmountTooSmall => 6010,
            ErrorCode::TotalAmountMismatch => 6011,
        }
    }

    /// The number by which clients know the error.
    pub fn number(self) -> (number: u32)
        ensures
            number == self.spec_number(),
    {
        match self {
            ErrorCode::InvalidTokenProgram => 6000,
            ErrorCode::InvalidRecipientCount => 6001,
            ErrorCode::InsufficientBalance => 6002,
            ErrorCode::RecipientAmountTooSmall => 6003,
            ErrorCode::MathOverflow => 6004,
            ErrorCode::InvalidTokenAccountOwner => 6005,
            ErrorCode::RecipientAccountNotWritable => 6006,
            ErrorCode::IncorrectAccountCount => 6007,
            ErrorCode::MintMismatch => 6008,
            ErrorCode::DuplicateRecipientAccount => 6009,
            ErrorCode::TotalAmountTooSmall => 6010,
            ErrorCode::TotalAmountMismatch => 6011,
        }
    }

    /// The text that explains the error.
    pub open spec fn spec_message(self) -> Seq<char> {
        match self {
            ErrorCode::InvalidTokenProgram => "Invalid token program"@,
            ErrorCode::InvalidRecipientCount => "Invalid number of recipients"@,
            ErrorCode::InsufficientBalance => "Insufficient balance for total_amount"@,
            ErrorCode::RecipientAmountTooSmall => "Per-recipient transfer amount too small"@,
            ErrorCode::MathOverflow => "Math overflow detected"@,
            ErrorCode::InvalidTokenAccountOwner => "Invalid token account owner for source"@,
            ErrorCode::RecipientAccountNotWritable => "Recipient account must be writable"@,
            ErrorCode::IncorrectAccountCount => "Incorrect number of remaining accounts"@,
            ErrorCode::MintMismatch => "Mint mismatch across accounts"@,
            ErrorCode::DuplicateRecipientAccount => "Duplicate recipient token account detected"@,
            ErrorCode::TotalAmountTooSmall => "Total amount must be > 0"@,
            ErrorCode::TotalAmountMismatch => "Total amount must equal the sum of recipient amounts"@,
        }
    }

    /// The text that explains the error.
    pub fn message(self) -> (text: &'static str)
        ensures
            text@ == self.spec_message(),
    {
        match self {
            ErrorCode::InvalidTokenProgram => "Invalid token program",
            ErrorCode::InvalidRecipientCount => "Invalid number of recipients",
            ErrorCode::InsufficientBalance => "Insufficient balance for total_amount",
            ErrorCode::RecipientAmountTooSmall => "Per-recipient transfer amount too small",
            ErrorCode::MathOverflow => "Math overflow detected",
            ErrorCode::InvalidTokenAccountOwner => "Invalid token account owner for source",
            ErrorCode::RecipientAccountNotWritable => "Recipient account must be writable",
            ErrorCode::IncorrectAccountCount => "Incorrect number of remaining accounts",
            ErrorCode::MintMismatch => "Mint mismatch across accounts",
            ErrorCode::DuplicateRecipientAccount => "Duplicate recipient token account detected",
            ErrorCode::TotalAmountTooSmall => "Total amount must be > 0",
            ErrorCode::TotalAmountMismatch => "Total amount must equal the sum of recipient amounts",
        }
    }

    /// The error that reports a fault of the source.
    pub open spec fn of_source_fault(fault: SourceFault) -> ErrorCode {
        match fault {
            SourceFault::NothingToPay => ErrorCode::TotalAmountTooSmall,
            SourceFault::TokenProgram => ErrorCode::InvalidTokenProgram,
            SourceFault::Owner => ErrorCode::InvalidTokenAccountOwner,
            SourceFault::Mint => ErrorCode::MintMismatch,
            SourceFault::Balance => ErrorCode::InsufficientBalance,
        }
    }

    /// Reports a fault of the source.
    pub fn from_source_fault(fault: SourceFault) -> (code: ErrorCode)
        ensures
            code == ErrorCode::of_source_fault(fault),
    {
        match fault {
            SourceFault::NothingToPay => ErrorCode::TotalAmountTooSmall,
            SourceFault::TokenProgram => ErrorCode::InvalidTokenProgram,
            SourceFault::Owner => ErrorCode::InvalidTokenAccountOwner,
            SourceFault::Mint => ErrorCode::MintMismatch,
            SourceFault::Balance => ErrorCode::InsufficientBalance,
        }
    }

    /// The error that reports a fault of a payout.
    pub open spec fn of_bulk_fault(fault: BulkFault) -> ErrorCode {
        match fault {
            BulkFault::RecipientCount => ErrorCode::InvalidRecipientCount,
            BulkFault::Source(source) => ErrorCode::of_source_fault(source),
            BulkFault::AccountCount => ErrorCode::IncorrectAccountCount,
            BulkFault::AmountTooSmall => ErrorCode::RecipientAmountTooSmall,
            BulkFault::AmountSum => ErrorCode::TotalAmountMismatch,
            BulkFault::NotWritable => ErrorCode::RecipientAccountNotWritable,
            BulkFault::Duplicate => ErrorCode::DuplicateRecipientAccount,
        }
    }

    /// Reports a fault of a payout.
    pub fn from_bulk_fault(fault: BulkFault) -> (code: ErrorCode)
        ensures
            code == ErrorCode::of_bulk_fault(fault),
    {
        match fault {
            BulkFault::RecipientCount => ErrorCode::InvalidRecipientCount,
            BulkFault::Source(source) => ErrorCode::from_source_fault(source),
            BulkFault::AccountCount => ErrorCode::IncorrectAccountCount,
            BulkFault::AmountTooSmall => ErrorCode::RecipientAmountTooSmall,
            BulkFault::AmountSum => ErrorCode::TotalAmountMismatch,
            BulkFault::NotWritable => ErrorCode::RecipientAccountNotWritable,
            BulkFault::Duplicate => ErrorCode::DuplicateRecipientAccount,
        }
    }
}

/// Pays each recipient an exact amount, `total_amount` in all; no fee is taken.
///
/// `remaining_accounts` holds the recipients' token accounts, one for each amount. At most
/// `max_recipients` are paid, and none gets less than `min_transfer_amount`. The result is the
/// accepted payout, with no transfer ordered yet.
pub fn bulk_payout(
    accounts: &BulkPayout,
    remaining_accounts: Vec<AccountMeta>,
    amounts: Vec<u64>,
    max_recipients: u16,
    min_transfer_amount: u64,
    total_amount: u64,
) -> (r: Result<BulkRun, ErrorCode>)
    ensures
        ({
            let request = BulkState {
                accounts: *accounts,
                remaining_accounts: remaining_accounts@,
                amounts: amounts@,
                min_transfer_amount,
                total_amount,
                next: 0,
            };
            match request.request_fault(max_recipients) {
                None => r matches Ok(run) && run@ == request,
                Some(fault) => r matches Err(code) && code == ErrorCode::of_bulk_fault(fault),
            }
        }),
{
    match start_payout(
        accounts,
        remaining_accounts,
        amounts,
        max_recipients,
        min_transfer_amount,
        total_amount,
    ) {
        Ok(run) => Ok(run),
        Err(fault) => Err(ErrorCode::from_bulk_fault(fault)),
    }
}

} // verus!
