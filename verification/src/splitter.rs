//! The splitter program: payments split by percentages, with a platform fee, and bulk payouts.

use crate::accounts::{PaymentAccounts, SourceFault, TransferChecked};
use crate::amounts;
use crate::amounts::{portion, MAX_BPS};
use crate::bulk::{start_payout, BulkFault, BulkRun, BulkState};
use crate::pubkey::Pubkey;
use crate::token;
use crate::token::{AccountMeta, AccountState, AccountStateView, TokenAccount};
use vstd::prelude::*;

pub use crate::bulk::BulkSummary;

verus! {

/// The accounts that both instructions of the program name.
pub type SplitPayment = PaymentAccounts;

/// The highest platform fee, in basis points: one tenth.
pub const MAX_PLATFORM_FEE_BPS: u16 = 1_000;

/// The event that reports a collected platform fee.
#[derive(Clone, Copy, Debug, PartialEq, Eq)]
pub struct PlatformFeeCollected {
    pub sender: Pubkey,
    pub amount: u64,
    pub platform_fee_basis_points: u16,
}

/// Why the program refuses an instruction.
#[derive(Clone, Copy, Debug, PartialEq, Eq, Structural)]
pub enum ErrorCode {
    InvalidTokenProgram,
    InvalidRecipientCount,
    InvalidPercentageSum,
    ZeroPercentage,
    InsufficientBalance,
    RecipientAmountTooSmall,
    MathOverflow,
    ExcessiveFee,
    InvalidTokenAccountOwner,
    RecipientAccountNotWritable,
    FeeWalletNotWritable,
    IncorrectAccountCount,
    MintMismatch,
    DuplicateRecipientAccount,
    TotalAmountTooSmall,
}

impl ErrorCode {
    /// The number by which clients know the error: errors count up from 6000.
    pub open spec fn spec_number(self) -> u32 {
        match self {
            ErrorCode::InvalidTokenProgram => 6000,
            ErrorCode::InvalidRecipientCount => 6001,
            ErrorCode::InvalidPercentageSum => 6002,
            ErrorCode::ZeroPercentage => 6003,
            ErrorCode::InsufficientBalance => 6004,
            ErrorCode::RecipientAmountTooSmall => 6005,
            ErrorCode::MathOverflow => 6006,
            ErrorCode::ExcessiveFee => 6007,
            ErrorCode::InvalidTokenAccountOwner => 6008,
            ErrorCode::RecipientAccountNotWritable => 6009,
            ErrorCode::FeeWalletNotWritable => 6010,
            ErrorCode::IncorrectAccountCount => 6011,
            ErrorCode::MintMismatch => 6012,
            ErrorCode::DuplicateRecipientAccount => 6013,
            ErrorCode::TotalAmountTooSmall => 6014,
        }
    }

    /// The number by which clients know the error.
    pub fn number(self) -> (number: u32)
        ensures
            number == self.spec_number(),
    {
        match self {
            ErrorCode::InvalidTokenProgram => 6000,
            ErrorCode::InvalidRecipientCount => 6001,
            ErrorCode::InvalidPercentageSum => 6002,
            ErrorCode::ZeroPercentage => 6003,
            ErrorCode::InsufficientBalance => 6004,
            ErrorCode::RecipientAmountTooSmall => 6005,
            ErrorCode::MathOverflow => 6006,
            ErrorCode::ExcessiveFee => 6007,
            ErrorCode::InvalidTokenAccountOwner => 6008,
            ErrorCode::RecipientAccountNotWritable => 6009,
            ErrorCode::FeeWalletNotWritable => 6010,
            ErrorCode::IncorrectAccountCount => 6011,
            ErrorCode::MintMismatch => 6012,
            ErrorCode::DuplicateRecipientAccount => 6013,
            ErrorCode::TotalAmountTooSmall => 6014,
        }
    }

    /// The text that explains the error.
    pub open spec fn spec_message(self) -> Seq<char> {
        match self {
            ErrorCode::InvalidTokenProgram => "Invalid token program"@,
            ErrorCode::InvalidRecipientCount => "Invalid number of recipients"@,
            ErrorCode::InvalidPercentageSum => "Percentages must sum to exactly 10000 bps"@,
            ErrorCode::ZeroPercentage => "Percentage cannot be zero"@,
            ErrorCode::InsufficientBalance => "Insufficient balance for total_amount"@,
            ErrorCode::RecipientAmountTooSmall => "Per-recipient transfer amount too small"@,
            ErrorCode::MathOverflow => "Math overflow detected"@,
            ErrorCode::ExcessiveFee => "Total fee exceeds maximum allowed cap"@,
            ErrorCode::InvalidTokenAccountOwner => "Invalid token account owner for source"@,
            ErrorCode::RecipientAccountNotWritable => "Recipient account must be writable"@,
            ErrorCode::FeeWalletNotWritable => "Fee wallet must be writable"@,
            ErrorCode::IncorrectAccountCount => "Incorrect number of remaining accounts"@,
            ErrorCode::MintMismatch => "Mint mismatch across accounts"@,
            ErrorCode::DuplicateRecipientAccount => "Duplicate recipient token account detected"@,
            ErrorCode::TotalAmountTooSmall => "Total amount must be > 0"@,
        }
    }

    /// The text that explains the error.
    pub fn message(self) -> (text: &'static str)
        ensures
            text@ == self.spec_message(),
    {
        match self {
            ErrorCode::InvalidTokenProgram => "Invalid token program",
            ErrorCode::InvalidRecipientCount => "Invalid number of recipients",
            ErrorCode::InvalidPercentageSum => "Percentages must sum to exactly 10000 bps",
            ErrorCode::ZeroPercentage => "Percentage cannot be zero",
            ErrorCode::InsufficientBalance => "Insufficient balance for total_amount",
            ErrorCode::RecipientAmountTooSmall => "Per-recipient transfer amount too small",
            ErrorCode::MathOverflow => "Math overflow detected",
            ErrorCode::ExcessiveFee => "Total fee exceeds maximum allowed cap",
            ErrorCode::InvalidTokenAccountOwner => "Invalid token account owner for source",
            ErrorCode::RecipientAccountNotWritable => "Recipient account must be writable",
            ErrorCode::FeeWalletNotWritable => "Fee wallet must be writable",
            ErrorCode::IncorrectAccountCount => "Incorrect number of remaining accounts",
            ErrorCode::MintMismatch => "Mint mismatch across accounts",
            ErrorCode::DuplicateRecipientAccount => "Duplicate recipient token account detected",
            ErrorCode::TotalAmountTooSmall => "Total amount must be > 0",
        }
    }

    /// The error that reports a fault of the source.
    pub open spec fn of_source_fault(fault: SourceFault) -> ErrorCode {
        match fault {
            SourceFault::NothingToPay => ErrorCode::TotalAmountTooSmall,
            SourceFault::TokenProgram => ErrorCode::InvalidTokenProgram,
            SourceFault::Owner => ErrorCode::InvalidTokenAccountOwner,
            SourceFault::Mint => ErrorCode::MintMismatch,
            SourceFault::Balance => ErrorCode::InsufficientBalance,
        }
    }

    /// Reports a fault of the source.
    pub fn from_source_fault(fault: SourceFault) -> (code: ErrorCode)
        ensures
            code == ErrorCode::of_source_fault(fault),
    {
        match fault {
            SourceFault::NothingToPay => ErrorCode::TotalAmountTooSmall,
            SourceFault::TokenProgram => ErrorCode::InvalidTokenProgram,
            SourceFault::Owner => ErrorCode::InvalidTokenAccountOwner,
            SourceFault::Mint => ErrorCode::MintMismatch,
            SourceFault::Balance => ErrorCode::InsufficientBalance,
        }
    }

    /// The error that reports a fault of a payout.
    pub open spec fn of_bulk_fault(fault: BulkFault) -> ErrorCode {
        match fault {
            BulkFault::RecipientCount => ErrorCode::InvalidRecipientCount,
            BulkFault::Source(source) => ErrorCode::of_source_fault(source),
            BulkFault::AccountCount => ErrorCode::IncorrectAccountCount,
            BulkFault::AmountTooSmall => ErrorCode::RecipientAmountTooSmall,
            BulkFault::AmountSum => ErrorCode::MathOverflow,
            BulkFault::NotWritable => ErrorCode::RecipientAccountNotWritable,
            BulkFault::Duplicate => ErrorCode::DuplicateRecipientAccount,
        }
    }

    /// Reports a fault of a payout.
    pub fn from_bulk_fault(fault: BulkFault) -> (code: ErrorCode)
        ensures
            code == ErrorCode::of_bulk_fault(fault),
    {
        match fault {
            BulkFault::RecipientCount => ErrorCode::InvalidRecipientCount,
            BulkFault::Source(source) => ErrorCode::from_source_fault(source),
            BulkFault::AccountCount => ErrorCode::IncorrectAccountCount,
            BulkFault::AmountTooSmall => ErrorCode::RecipientAmountTooSmall,
            BulkFault::AmountSum => ErrorCode::MathOverflow,
            BulkFault::NotWritable => ErrorCode::RecipientAccountNotWritable,
            BulkFault::Duplicate => ErrorCode::DuplicateRecipientAccount,
        }
    }
}

/// Reads a token account from the bytes of an account, whoever owns it.
pub fn read_token_account(account: &AccountState) -> (r: Result<TokenAccount, ErrorCode>)
    ensures
        match r {
            Ok(read) => token::unpack_error(account.data@) is None && read.is_packed_as(
                account.data@,
            ),
            Err(code) => token::unpack_error(account.data@) is Some
                && code == ErrorCode::InvalidTokenAccountOwner,
        },
{
    match token::try_deserialize_unchecked(account.data) {
        Ok(read) => Ok(read),
        Err(_) => Err(ErrorCode::InvalidTokenAccountOwner),
    }
}

/// The first fault that a reader of the percentages from left to right meets: a percentage of
/// zero, or a sum that no longer fits in 16 bits.
pub open spec fn percentages_fault(bps: Seq<u16>) -> Option<ErrorCode>
    decreases bps.len(),
{
    if bps.len() == 0 {
        None
    } else if percentages_fault(bps.drop_last()) is Some {
        percentages_fault(bps.drop_last())
    } else if bps.last() == 0 {
        Some(ErrorCode::ZeroPercentage)
    } else if amounts::sum_bps(bps) > u16::MAX {
        Some(ErrorCode::MathOverflow)
    } else {
        None
    }
}

/// A fault among the first percentages is the fault of the whole list.
proof fn lemma_fault_of_prefix(bps: Seq<u16>, count: int)
    requires
        0 <= count <= bps.len(),
        percentages_fault(bps.take(count)) is Some,
    ensures
        percentages_fault(bps) == percentages_fault(bps.take(count)),
    decreases bps.len(),
{
    if count == bps.len() {
        assert(bps.take(count) =~= bps);
    } else {
        assert(bps.drop_last().take(count) =~= bps.take(count));
        lemma_fault_of_prefix(bps.drop_last(), count);
    }
}

/// Adds up the percentages.
fn check_percentages(bps: &Vec<u16>) -> (r: Result<u16, ErrorCode>)
    ensures
        match r {
            Ok(sum) => percentages_fault(bps@) is None && sum == amounts::sum_bps(bps@),
            Err(code) => percentages_fault(bps@) == Some(code),
        },
{
    let mut sum: u16 = 0;
    let mut i: usize = 0;
    assert(bps@.take(0) =~= Seq::<u16>::empty());
    while i < bps.len()
        invariant
            i <= bps@.len(),
            sum == amounts::sum_bps(bps@.take(i as int)),
            percentages_fault(bps@.take(i as int)) is None,
        decreases bps@.len() - i,
    {
        let ghost prefix = bps@.take(i + 1);
        assert(prefix.drop_last() =~= bps@.take(i as int));
        proof {
            if percentages_fault(prefix) is Some {
                lemma_fault_of_prefix(bps@, i + 1);
            }
        }
        if bps[i] == 0 {
            return Err(ErrorCode::ZeroPercentage);
        }
        match sum.checked_add(bps[i]) {
            Some(next) => {
                sum = next;
            },
            None => {
                return Err(ErrorCode::MathOverflow);
            },
        }
        i += 1;
    }
    assert(bps@.take(i as int) =~= bps@);
    Ok(sum)
}

/// A request to split a payment, and how far it has been carried out.
pub struct SplitState {
    pub accounts: SplitPayment,
    pub remaining_accounts: Seq<AccountMeta>,
    pub percentages_bps: Seq<u16>,
    pub platform_fee_basis_points: u16,
    pub min_transfer_amount: u64,
    pub total_amount: u64,
    /// How many of the transfers have been ordered.
    pub next: nat,
}

impl SplitState {
    /// The platform's part of the payment.
    pub open spec fn fee_amount(self) -> int {
        amounts::portion_of(self.total_amount as int, self.platform_fee_basis_points as int)
    }

    /// The recipients' part of the payment.
    pub open spec fn distributable(self) -> int {
        self.total_amount - self.fee_amount()
    }

    /// How many accounts follow: one for each recipient, and one for a fee.
    pub open spec fn expected_accounts(self) -> nat {
        self.percentages_bps.len() + if self.fee_amount() > 0 { 1nat } else { 0nat }
    }

    /// What transfer `i` moves: a recipient's share, or after those the fee.
    pub open spec fn amount_of(self, i: nat) -> int {
        if i < self.percentages_bps.len() {
            amounts::share_of(self.distributable(), self.percentages_bps, i)
        } else {
            self.fee_amount()
        }
    }

    /// The first reason, in the order of the checks, to refuse the request.
    ///
    /// The number of recipients is compared with the cap as a 16-bit number.
    pub open spec fn request_fault(self, max_recipients: u16) -> Option<ErrorCode> {
        let n = self.percentages_bps.len();
        if n == 0 || n % 0x1_0000 > max_recipients {
            Some(ErrorCode::InvalidRecipientCount)
        } else if self.accounts.source_fault(self.total_amount) is Some {
            Some(ErrorCode::of_source_fault(self.accounts.source_fault(self.total_amount)->0))
        } else if percentages_fault(self.percentages_bps) is Some {
            percentages_fault(self.percentages_bps)
        } else if amounts::sum_bps(self.percentages_bps) != MAX_BPS {
            Some(ErrorCode::InvalidPercentageSum)
        } else if self.platform_fee_basis_points > MAX_PLATFORM_FEE_BPS {
            Some(ErrorCode::ExcessiveFee)
        } else if self.remaining_accounts.len() != self.expected_accounts() {
            Some(ErrorCode::IncorrectAccountCount)
        } else {
            None
        }
    }

    /// The next transfer, given the state of the account it goes to, or the reason to stop.
    pub open spec fn step(self, account: AccountStateView) -> Result<TransferChecked, ErrorCode> {
        let to = self.remaining_accounts[self.next as int];
        let amount = self.amount_of(self.next);
        let to_recipient = self.next < self.percentages_bps.len();
        if !to.is_writable {
            if to_recipient {
                Err(ErrorCode::RecipientAccountNotWritable)
            } else {
                Err(ErrorCode::FeeWalletNotWritable)
            }
        } else if token::unpack_error(account.data) is Some {
            Err(ErrorCode::InvalidTokenAccountOwner)
        } else if token::packed_mint(account.data) != self.accounts.mint.key@ {
            Err(ErrorCode::MintMismatch)
        } else if to_recipient && amount < self.min_transfer_amount {
            Err(ErrorCode::RecipientAmountTooSmall)
        } else {
            Ok(self.accounts.transfer_to(to.key, amount as u64))
        }
    }

    /// The state once the next transfer has been ordered.
    pub open spec fn advanced(self) -> SplitState {
        SplitState { next: self.next + 1, ..self }
    }

    /// The event that closes the payment: one if there is a fee.
    pub open spec fn event(self) -> Option<PlatformFeeCollected> {
        if self.fee_amount() > 0 {
            Some(
                PlatformFeeCollected {
                    sender: self.accounts.sender,
                    amount: self.fee_amount() as u64,
                    platform_fee_basis_points: self.platform_fee_basis_points,
                },
            )
        } else {
            None
        }
    }

    /// What holds of every payment that was not refused.
    pub open spec fn is_accepted(self) -> bool {
        &&& self.percentages_bps.len() > 0
        &&& amounts::is_whole(self.percentages_bps)
        &&& self.platform_fee_basis_points <= MAX_PLATFORM_FEE_BPS
        &&& self.accounts.source_fault(self.total_amount) is None
        &&& self.remaining_accounts.len() == self.expected_accounts()
        &&& self.next <= self.remaining_accounts.len()
    }
}

/// How far a payment has been carried out.
#[derive(Clone, Copy, Debug)]
struct Progress {
    /// How many of the transfers have been ordered.
    next: usize,
    /// What the recipients before the last one have been paid.
    total_distributed: u64,
}

/// A split payment that was accepted and is being carried out, one transfer at a time.
///
/// The token program is asked outside of this type: [`SplitRun::next_transfer`] says what to ask,
/// and is called again once the transfer has gone through.
#[derive(Debug)]
pub struct SplitRun {
    accounts: SplitPayment,
    remaining_accounts: Vec<AccountMeta>,
    percentages_bps: Vec<u16>,
    platform_fee_basis_points: u16,
    min_transfer_amount: u64,
    total_amount: u64,
    fee_amount: u64,
    distributable: u64,
    progress: Progress,
}

impl View for SplitRun {
    type V = SplitState;

    closed spec fn view(&self) -> SplitState {
        SplitState {
            accounts: self.accounts,
            remaining_accounts: self.remaining_accounts@,
            percentages_bps: self.percentages_bps@,
            platform_fee_basis_points: self.platform_fee_basis_points,
            min_transfer_amount: self.min_transfer_amount,
            total_amount: self.total_amount,
            next: self.progress.next as nat,
        }
    }
}

/// The number of recipients that are paid a rounded portion among the first `next` transfers.
spec fn portions_paid(next: nat, n: nat) -> nat {
    if next < n {
        next
    } else {
        (n - 1) as nat
    }
}

/// Splits `total_amount` by percentages: the platform fee comes off first, each recipient gets a
/// rounded portion of the rest, and the last one the remainder.
///
/// `remaining_accounts` holds the recipients' token accounts, then, if there is a fee, the token
/// account that collects it. The result is the accepted payment, with no transfer ordered yet.
pub fn split_payment(
    accounts: &SplitPayment,
    remaining_accounts: Vec<AccountMeta>,
    percentages_bps: Vec<u16>,
    platform_fee_basis_points: u16,
    max_recipients: u16,
    min_transfer_amount: u64,
    total_amount: u64,
) -> (r: Result<SplitRun, ErrorCode>)
    ensures
        ({
            let request = SplitState {
                accounts: *accounts,
                remaining_accounts: remaining_accounts@,
                percentages_bps: percentages_bps@,
                platform_fee_basis_points,
                min_transfer_amount,
                total_amount,
                next: 0,
            };
            match r {
                Ok(run) => request.request_fault(max_recipients) is None && run@ == request,
                Err(code) => request.request_fault(max_recipients) == Some(code),
            }
        }),
{
    let n: usize = percentages_bps.len();
    if n == 0 || n % 0x1_0000 > max_recipients as usize {
        return Err(ErrorCode::InvalidRecipientCount);
    }
    if let Some(fault) = accounts.check_source(total_amount) {
        return Err(ErrorCode::from_source_fault(fault));
    }
    match check_percentages(&percentages_bps) {
        Ok(sum) => {
            if sum != MAX_BPS {
                return Err(ErrorCode::InvalidPercentageSum);
            }
        },
        Err(code) => {
            return Err(code);
        },
    }
    if platform_fee_basis_points > MAX_PLATFORM_FEE_BPS {
        return Err(ErrorCode::ExcessiveFee);
    }
    let fee_amount: u64 = portion(total_amount, platform_fee_basis_points);
    let distributable: u64 = total_amount - fee_amount;
    proof {
        lemma_whole(percentages_bps@);
        lemma_whole_is_short(percentages_bps@);
    }
    let expected: usize = if fee_amount > 0 { n + 1 } else { n };
    if remaining_accounts.len() != expected {
        return Err(ErrorCode::IncorrectAccountCount);
    }
    Ok(
        SplitRun {
            accounts: *accounts,
            remaining_accounts,
            percentages_bps,
            platform_fee_basis_points,
            min_transfer_amount,
            total_amount,
            fee_amount,
            distributable,
            progress: Progress { next: 0, total_distributed: 0 },
        },
    )
}

impl SplitRun {
    #[verifier::type_invariant]
    spec fn well_formed(self) -> bool {
        &&& self@.is_accepted()
        &&& self.fee_amount == self@.fee_amount()
        &&& self.distributable == self@.distributable()
        &&& self.progress.total_distributed == amounts::sum_portions(
            self.distributable as int,
            self.percentages_bps@,
            portions_paid(self.progress.next as nat, self.percentages_bps@.len()),
        )
    }

    /// Whether a transfer is left to order.
    pub fn is_pending(&self) -> (pending: bool)
        ensures
            pending == (self@.next < self@.remaining_accounts.len()),
    {
        self.progress.next < self.remaining_accounts.len()
    }

    /// Orders the next transfer. `account` is the state of the account that it goes to, the one
    /// at position `next` of the remaining accounts.
    ///
    /// An error ends the payment, and leaves the run as it was.
    pub fn next_transfer(&mut self, account: &AccountState) -> (r: Result<
        TransferChecked,
        ErrorCode,
    >)
        requires
            old(self)@.next < old(self)@.remaining_accounts.len(),
        ensures
            r matches Ok(transfer) ==> {
                &&& transfer.from == old(self)@.accounts.sender_token_account.key
                &&& transfer.mint == old(self)@.accounts.mint.key
                &&& transfer.to == old(self)@.remaining_accounts[old(self)@.next as int].key
                &&& transfer.authority == old(self)@.accounts.sender
                &&& transfer.amount == old(self)@.amount_of(old(self)@.next)
                &&& transfer.decimals == old(self)@.accounts.mint.decimals
            },
            r == old(self)@.step(account@),
            final(self)@ == if r is Ok {
                old(self)@.advanced()
            } else {
                old(self)@
            },
    {
        proof {
            use_type_invariant(&*self);
            lemma_whole_is_short(self.percentages_bps@);
        }
        let Progress { next, total_distributed } = self.progress;
        let n: usize = self.percentages_bps.len();
        let to: AccountMeta = self.remaining_accounts[next];
        if next >= n {
            if !to.is_writable {
                return Err(ErrorCode::FeeWalletNotWritable);
            }
            let fee_account = match read_token_account(account) {
                Ok(read) => read,
                Err(code) => {
                    return Err(code);
                },
            };
            if fee_account.mint != self.accounts.mint.key {
                return Err(ErrorCode::MintMismatch);
            }
            self.progress = Progress { next: next + 1, total_distributed };
            return Ok(self.accounts.order_transfer(to.key, self.fee_amount));
        }
        if !to.is_writable {
            return Err(ErrorCode::RecipientAccountNotWritable);
        }
        let recipient = match read_token_account(account) {
            Ok(read) => read,
            Err(code) => {
                return Err(code);
            },
        };
        if recipient.mint != self.accounts.mint.key {
            return Err(ErrorCode::MintMismatch);
        }
        proof {
            amounts::lemma_bps_le_sum(self.percentages_bps@, next as int);
            lemma_distributed_fits(self.distributable as int, self.percentages_bps@, next as nat);
        }
        let last: bool = next == n - 1;
        let amount: u64 = if last {
            self.distributable - total_distributed
        } else {
            portion(self.distributable, self.percentages_bps[next])
        };
        if amount < self.min_transfer_amount {
            return Err(ErrorCode::RecipientAmountTooSmall);
        }
        proof {
            if !last {
                lemma_distributed_fits(
                    self.distributable as int,
                    self.percentages_bps@,
                    (next + 1) as nat,
                );
            }
        }
        let paid: u64 = if last {
            total_distributed
        } else {
            total_distributed + amount
        };
        self.progress = Progress { next: next + 1, total_distributed: paid };
        Ok(self.accounts.order_transfer(to.key, amount))
    }

    /// Closes a payment whose transfers have all gone through, and reports the fee, if there is
    /// one.
    pub fn finish(&self) -> (event: Option<PlatformFeeCollected>)
        requires
            self@.next == self@.remaining_accounts.len(),
        ensures
            event is Some <==> self@.total_amount * self@.platform_fee_basis_points >= 10_000,
            event matches Some(fee) ==> {
                &&& fee.sender == self@.accounts.sender
                &&& fee.platform_fee_basis_points == self@.platform_fee_basis_points
                &&& fee.amount * 10_000 <= self@.total_amount * self@.platform_fee_basis_points < (
                fee.amount + 1) * 10_000
            },
            event == self@.event(),
    {
        proof {
            use_type_invariant(self);
        }
        if self.fee_amount > 0 {
            Some(
                PlatformFeeCollected {
                    sender: self.accounts.sender,
                    amount: self.fee_amount,
                    platform_fee_basis_points: self.platform_fee_basis_points,
                },
            )
        } else {
            None
        }
    }
}

/// Pays each recipient an exact amount, `total_amount` in all; no fee is taken.
///
/// `remaining_accounts` holds the recipients' token accounts, one for each amount. At most
/// `max_recipients` are paid, and none gets less than `min_transfer_amount`. The result is the
/// accepted payout, with no transfer ordered yet.
pub fn bulk_payout(
    accounts: &SplitPayment,
    remaining_accounts: Vec<AccountMeta>,
    amounts: Vec<u64>,
    max_recipients: u16,
    min_transfer_amount: u64,
    total_amount: u64,
) -> (r: Result<BulkRun, ErrorCode>)
    ensures
        ({
            let request = BulkState {
                accounts: *accounts,
                remaining_accounts: remaining_accounts@,
                amounts: amounts@,
                min_transfer_amount,
                total_amount,
                next: 0,
            };
            match request.request_fault(max_recipients) {
                None => r matches Ok(run) && run@ == request,
                Some(fault) => r matches Err(code) && code == ErrorCode::of_bulk_fault(fault),
            }
        }),
{
    match start_payout(
        accounts,
        remaining_accounts,
        amounts,
        max_recipients,
        min_transfer_amount,
        total_amount,
    ) {
        Ok(run) => Ok(run),
        Err(fault) => Err(ErrorCode::from_bulk_fault(fault)),
    }
}

/// Percentages without a fault are all positive.
proof fn lemma_no_zero(bps: Seq<u16>)
    requires
        percentages_fault(bps) is None,
    ensures
        forall|i: int| 0 <= i < bps.len() ==> bps[i] > 0,
    decreases bps.len(),
{
    if bps.len() > 0 {
        lemma_no_zero(bps.drop_last());
        assert forall|i: int| 0 <= i < bps.len() implies bps[i] > 0 by {
            if i < bps.len() - 1 {
                assert(bps[i] == bps.drop_last()[i]);
            }
        }
    }
}

/// Percentages pass the checks exactly if they are positive and make up the whole.
pub proof fn lemma_whole(bps: Seq<u16>)
    ensures
        amounts::is_whole(bps) <==> percentages_fault(bps) is None && amounts::sum_bps(bps)
            == MAX_BPS,
{
    if percentages_fault(bps) is None {
        lemma_no_zero(bps);
    }
    if amounts::is_whole(bps) {
        lemma_whole_has_no_fault(bps, bps.len());
        assert(bps.take(bps.len() as int) =~= bps);
    }
}

/// No prefix of percentages that make up the whole has a fault.
proof fn lemma_whole_has_no_fault(bps: Seq<u16>, count: nat)
    requires
        amounts::is_whole(bps),
        count <= bps.len(),
    ensures
        percentages_fault(bps.take(count as int)) is None,
    decreases count,
{
    if count > 0 {
        lemma_whole_has_no_fault(bps, (count - 1) as nat);
        assert(bps.take(count as int).drop_last() =~= bps.take(count - 1));
        amounts::lemma_sum_bps_take(bps, count);
    }
}

/// There are no more percentages than basis points in the whole.
pub proof fn lemma_whole_is_short(bps: Seq<u16>)
    requires
        amounts::is_whole(bps),
    ensures
        bps.len() <= MAX_BPS,
{
    amounts::lemma_positive_sum(bps);
}

/// What the first recipients are paid is no more than there is to distribute.
proof fn lemma_distributed_fits(distributable: int, bps: Seq<u16>, count: nat)
    requires
        0 <= distributable,
        amounts::is_whole(bps),
        count <= bps.len(),
    ensures
        0 <= amounts::sum_portions(distributable, bps, count) <= distributable,
{
    amounts::lemma_sum_portions_bounds(distributable, bps, count);
    let s = amounts::sum_bps(bps.take(count as int));
    assert(distributable * s <= distributable * 10_000) by (nonlinear_arith)
        requires
            0 <= distributable,
            s <= 10_000,
    ;
}

} // verus!
