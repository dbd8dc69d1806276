//! Bulk payouts: an exact amount for each recipient.

use crate::accounts::{PaymentAccounts, SourceFault, TransferChecked};
use crate::amounts;
use crate::key_set::KeySet;
use crate::pubkey::Pubkey;
use crate::token;
use crate::token::{AccountMeta, AccountState, AccountStateView};
use vstd::prelude::*;

verus! {

/// The event that reports a payout.
#[derive(Clone, Copy, Debug, PartialEq, Eq)]
pub struct BulkSummary {
    pub sender: Pubkey,
    pub total_recipients: u16,
    pub total_amount: u64,
}

/// Why a payout is refused.
#[derive(Clone, Copy, Debug, PartialEq, Eq, Structural)]
pub enum BulkFault {
    /// There is no recipient, or more than the cap.
    RecipientCount,
    /// The total cannot be taken from the source.
    Source(SourceFault),
    /// There is not one account for each amount.
    AccountCount,
    /// An amount is below the floor.
    AmountTooSmall,
    /// The amounts do not sum to the total.
    AmountSum,
    /// A recipient's account is not writable.
    NotWritable,
    /// A recipient's account occurs twice.
    Duplicate,
}

/// Why a transfer of an accepted payout cannot be ordered.
#[derive(Clone, Copy, Debug, PartialEq, Eq, Structural)]
pub enum TransferFault {
    /// The account does not load as a token account; the runtime's number of the error.
    Account(u64),
    /// The account holds tokens of another mint.
    MintMismatch,
}

/// The account at `i` occurs among those before it.
pub open spec fn occurs_before(accounts: Seq<AccountMeta>, i: int) -> bool {
    exists|j: int| 0 <= j < i && (#[trigger] accounts[j]).key@ == accounts[i].key@
}

/// The first fault that a reader of the recipients' accounts from left to right meets.
pub open spec fn recipients_fault(accounts: Seq<AccountMeta>) -> Option<BulkFault>
    decreases accounts.len(),
{
    if accounts.len() == 0 {
        None
    } else if recipients_fault(accounts.drop_last()) is Some {
        recipients_fault(accounts.drop_last())
    } else if !accounts.last().is_writable {
        Some(BulkFault::NotWritable)
    } else if occurs_before(accounts, accounts.len() - 1) {
        Some(BulkFault::Duplicate)
    } else {
        None
    }
}

/// A fault among the first accounts is the fault of the whole list.
pub proof fn lemma_fault_of_prefix(accounts: Seq<AccountMeta>, count: int)
    requires
        0 <= count <= accounts.len(),
        recipients_fault(accounts.take(count)) is Some,
    ensures
        recipients_fault(accounts) == recipients_fault(accounts.take(count)),
    decreases accounts.len(),
{
    if count == accounts.len() {
        assert(accounts.take(count) =~= accounts);
    } else {
        assert(accounts.drop_last().take(count) =~= accounts.take(count));
        lemma_fault_of_prefix(accounts.drop_last(), count);
    }
}

/// All accounts are writable, and no two are the same.
pub open spec fn are_writable_and_different(accounts: Seq<AccountMeta>) -> bool {
    &&& forall|i: int| 0 <= i < accounts.len() ==> (#[trigger] accounts[i]).is_writable
    &&& forall|i: int, j: int|
        0 <= i < j < accounts.len() ==> (#[trigger] accounts[i]).key@ != (
        #[trigger] accounts[j]).key@
}

/// The recipients' accounts pass the checks exactly if all are writable and no two are the same.
pub proof fn lemma_recipients(accounts: Seq<AccountMeta>)
    ensures
        recipients_fault(accounts) is None <==> are_writable_and_different(accounts),
    decreases accounts.len(),
{
    if accounts.len() > 0 {
        let rest = accounts.drop_last();
        let last = accounts.len() - 1;
        lemma_recipients(rest);
        assert forall|i: int| 0 <= i < last implies rest[i] == accounts[i] by {}
        if recipients_fault(accounts) is None {
            assert forall|i: int| 0 <= i < accounts.len() implies (
            #[trigger] accounts[i]).is_writable by {
                if i < last {
                    assert(rest[i].is_writable);
                }
            }
            assert forall|i: int, j: int| 0 <= i < j < accounts.len() implies (
            #[trigger] accounts[i]).key@ != (#[trigger] accounts[j]).key@ by {
                if j < last {
                    assert(rest[i].key@ != rest[j].key@);
                }
            }
        } else if recipients_fault(rest) is None {
            if occurs_before(accounts, last) {
                let j = choose|j: int|
                    0 <= j < last && (#[trigger] accounts[j]).key@ == accounts[last].key@;
                assert(accounts[j].key@ == accounts[last].key@);
            } else {
                assert(!accounts[last].is_writable);
            }
        } else {
            if forall|i: int| 0 <= i < accounts.len() ==> (#[trigger] accounts[i]).is_writable {
                assert forall|i: int| 0 <= i < rest.len() implies (
                #[trigger] rest[i]).is_writable by {
                    assert(accounts[i].is_writable);
                }
                let (i, j) = choose|i: int, j: int|
                    0 <= i < j < rest.len() && (#[trigger] rest[i]).key@ == (
                    #[trigger] rest[j]).key@;
                assert(accounts[i].key@ == accounts[j].key@);
            }
        }
    }
}

/// Checks the recipients' accounts.
fn check_recipients(accounts: &Vec<AccountMeta>) -> (fault: Option<BulkFault>)
    ensures
        fault == recipients_fault(accounts@),
{
    let mut seen: KeySet = KeySet::new();
    let mut i: usize = 0;
    assert(accounts@.take(0) =~= Seq::<AccountMeta>::empty());
    while i < accounts.len()
        invariant
            i <= accounts@.len(),
            recipients_fault(accounts@.take(i as int)) is None,
            forall|key: Pubkey| #[trigger]
                seen.holds(key) <==> exists|j: int|
                    0 <= j < i && (#[trigger] accounts@[j]).key@ == key@,
        decreases accounts@.len() - i,
    {
        let ghost prefix = accounts@.take(i + 1);
        let account: AccountMeta = accounts[i];
        proof {
            assert(prefix.drop_last() =~= accounts@.take(i as int));
            assert(prefix.last() == account);
            assert(forall|j: int| 0 <= j <= i ==> prefix[j] == accounts@[j]);
            assert(occurs_before(prefix, i as int) <==> seen.holds(account.key)) by {
                if occurs_before(prefix, i as int) {
                    let j = choose|j: int|
                        0 <= j < i && (#[trigger] prefix[j]).key@ == prefix[i as int].key@;
                    assert(accounts@[j].key@ == account.key@);
                }
                if seen.holds(account.key) {
                    let j = choose|j: int|
                        0 <= j < i && (#[trigger] accounts@[j]).key@ == account.key@;
                    assert(prefix[j].key@ == prefix[i as int].key@);
                }
            }
            if recipients_fault(prefix) is Some {
                lemma_fault_of_prefix(accounts@, i + 1);
            }
        }
        if !account.is_writable {
            return Some(BulkFault::NotWritable);
        }
        let ghost before = seen;
        let is_new: bool = seen.insert(account.key);
        if !is_new {
            return Some(BulkFault::Duplicate);
        }
        assert forall|key: Pubkey| #[trigger]
            seen.holds(key) <==> exists|j: int|
                0 <= j < i + 1 && (#[trigger] accounts@[j]).key@ == key@ by {
            if before.holds(key) {
                let j = choose|j: int| 0 <= j < i && (#[trigger] accounts@[j]).key@ == key@;
                assert(accounts@[j].key@ == key@);
            }
            if key@ == account.key@ {
                assert(accounts@[i as int].key@ == key@);
            }
        }
        i += 1;
    }
    assert(accounts@.take(i as int) =~= accounts@);
    None
}

/// A request for a bulk payout, and how far it has been carried out.
pub struct BulkState {
    pub accounts: PaymentAccounts,
    pub remaining_accounts: Seq<AccountMeta>,
    pub amounts: Seq<u64>,
    pub min_transfer_amount: u64,
    pub total_amount: u64,
    /// How many of the transfers have been ordered.
    pub next: nat,
}

impl BulkState {
    /// The first reason, in the order of the checks, to refuse the request.
    pub open spec fn request_fault(self, max_recipients: u16) -> Option<BulkFault> {
        let n = self.amounts.len();
        if n == 0 || n > max_recipients {
            Some(BulkFault::RecipientCount)
        } else if self.accounts.source_fault(self.total_amount) is Some {
            Some(BulkFault::Source(self.accounts.source_fault(self.total_amount)->0))
        } else if self.remaining_accounts.len() != n {
            Some(BulkFault::AccountCount)
        } else if exists|i: int|
            0 <= i < n && #[trigger] self.amounts[i] < self.min_transfer_amount {
            Some(BulkFault::AmountTooSmall)
        } else if amounts::sum_amounts(self.amounts) != self.total_amount {
            Some(BulkFault::AmountSum)
        } else {
            recipients_fault(self.remaining_accounts)
        }
    }

    /// The next transfer, given the state of the account it goes to, or the reason to stop.
    pub open spec fn step(self, account: AccountStateView) -> Result<
        TransferChecked,
        TransferFault,
    > {
        if token::load_error(account) is Some {
            Err(TransferFault::Account(token::load_error(account)->0))
        } else if token::packed_mint(account.data) != self.accounts.mint.key@ {
            Err(TransferFault::MintMismatch)
        } else {
            Ok(
                self.accounts.transfer_to(
                    self.remaining_accounts[self.next as int].key,
                    self.amounts[self.next as int],
                ),
            )
        }
    }

    /// The state once the next transfer has been ordered.
    pub open spec fn advanced(self) -> BulkState {
        BulkState { next: self.next + 1, ..self }
    }

    /// The event that closes the payout.
    pub open spec fn summary(self) -> BulkSummary {
        BulkSummary {
            sender: self.accounts.sender,
            total_recipients: self.amounts.len() as u16,
            total_amount: self.total_amount,
        }
    }

    /// What holds of every payout that was not refused.
    pub open spec fn is_accepted(self) -> bool {
        &&& 0 < self.amounts.len() <= u16::MAX
        &&& self.accounts.source_fault(self.total_amount) is None
        &&& self.remaining_accounts.len() == self.amounts.len()
        &&& forall|i: int|
            0 <= i < self.amounts.len() ==> self.amounts[i] >= self.min_transfer_amount
        &&& amounts::sum_amounts(self.amounts) == self.total_amount
        &&& are_writable_and_different(self.remaining_accounts)
        &&& self.next <= self.amounts.len()
    }
}

/// A bulk payout that was accepted and is being carried out, one transfer at a time.
///
/// The token program is asked outside of this type: [`BulkRun::next_transfer`] says what to ask,
/// and is called again once the transfer has gone through.
#[derive(Debug)]
pub struct BulkRun {
    accounts: PaymentAccounts,
    remaining_accounts: Vec<AccountMeta>,
    amounts: Vec<u64>,
    min_transfer_amount: u64,
    total_amount: u64,
    next: usize,
}

impl View for BulkRun {
    type V = BulkState;

    closed spec fn view(&self) -> BulkState {
        BulkState {
            accounts: self.accounts,
            remaining_accounts: self.remaining_accounts@,
            amounts: self.amounts@,
            min_transfer_amount: self.min_transfer_amount,
            total_amount: self.total_amount,
            next: self.next as nat,
        }
    }
}

/// Adds up the amounts, unless one is below the floor.
fn sum_above_floor(amounts: &Vec<u64>, min_transfer_amount: u64) -> (sum: Option<u128>)
    ensures
        match sum {
            Some(sum) => sum == amounts::sum_amounts(amounts@) && forall|i: int|
                0 <= i < amounts@.len() ==> amounts@[i] >= min_transfer_amount,
            None => exists|i: int|
                0 <= i < amounts@.len() && #[trigger] amounts@[i] < min_transfer_amount,
        },
{
    let mut sum: u128 = 0;
    let mut i: usize = 0;
    assert(amounts@.take(0) =~= Seq::<u64>::empty());
    while i < amounts.len()
        invariant
            i <= amounts@.len(),
            sum == amounts::sum_amounts(amounts@.take(i as int)),
            sum <= i * u64::MAX,
            forall|j: int| 0 <= j < i ==> amounts@[j] >= min_transfer_amount,
        decreases amounts@.len() - i,
    {
        assert(amounts@.take(i + 1).drop_last() =~= amounts@.take(i as int));
        let amount: u64 = amounts[i];
        if amount < min_transfer_amount {
            return None;
        }
        sum = sum + amount as u128;
        i += 1;
    }
    assert(amounts@.take(i as int) =~= amounts@);
    Some(sum)
}

/// Pays each recipient an exact amount, `total_amount` in all.
///
/// `remaining_accounts` holds the recipients' token accounts, one for each amount. At most
/// `max_recipients` are paid, and none gets less than `min_transfer_amount`. The result is the
/// accepted payout, with no transfer ordered yet.
pub fn start_payout(
    accounts: &PaymentAccounts,
    remaining_accounts: Vec<AccountMeta>,
    amounts: Vec<u64>,
    max_recipients: u16,
    min_transfer_amount: u64,
    total_amount: u64,
) -> (r: Result<BulkRun, BulkFault>)
    ensures
        ({
            let request = BulkState {
                accounts: *accounts,
                remaining_accounts: remaining_accounts@,
                amounts: amounts@,
                min_transfer_amount,
                total_amount,
                next: 0,
            };
            match r {
                Ok(run) => request.request_fault(max_recipients) is None && run@ == request,
                Err(fault) => request.request_fault(max_recipients) == Some(fault),
            }
        }),
{
    let n: usize = amounts.len();
    if n == 0 || n > max_recipients as usize {
        return Err(BulkFault::RecipientCount);
    }
    if let Some(fault) = accounts.check_source(total_amount) {
        return Err(BulkFault::Source(fault));
    }
    if remaining_accounts.len() != n {
        return Err(BulkFault::AccountCount);
    }
    match sum_above_floor(&amounts, min_transfer_amount) {
        None => {
            return Err(BulkFault::AmountTooSmall);
        },
        Some(sum) => {
            if sum != total_amount as u128 {
                return Err(BulkFault::AmountSum);
            }
        },
    }
    if let Some(fault) = check_recipients(&remaining_accounts) {
        return Err(fault);
    }
    proof {
        lemma_recipients(remaining_accounts@);
    }
    Ok(
        BulkRun {
            accounts: *accounts,
            remaining_accounts,
            amounts,
            min_transfer_amount,
            total_amount,
            next: 0,
        },
    )
}

impl BulkRun {
    #[verifier::type_invariant]
    spec fn well_formed(self) -> bool {
        self@.is_accepted()
    }

    /// Whether a transfer is left to order.
    pub fn is_pending(&self) -> (pending: bool)
        ensures
            pending == (self@.next < self@.remaining_accounts.len()),
    {
        self.next < self.remaining_accounts.len()
    }

    /// Orders the next transfer. `account` is the state of the account that it goes to, the one
    /// at position `next` of the remaining accounts.
    ///
    /// An error ends the payout, and leaves the run as it was.
    pub fn next_transfer(&mut self, account: &AccountState) -> (r: Result<
        TransferChecked,
        TransferFault,
    >)
        requires
            old(self)@.next < old(self)@.remaining_accounts.len(),
        ensures
            r matches Ok(transfer) ==> {
                &&& transfer.from == old(self)@.accounts.sender_token_account.key
                &&& transfer.mint == old(self)@.accounts.mint.key
                &&& transfer.to == old(self)@.remaining_accounts[old(self)@.next as int].key
                &&& transfer.authority == old(self)@.accounts.sender
                &&& transfer.amount == old(self)@.amounts[old(self)@.next as int]
                &&& transfer.decimals == old(self)@.accounts.mint.decimals
            },
            r == old(self)@.step(account@),
            final(self)@ == if r is Ok {
                old(self)@.advanced()
            } else {
                old(self)@
            },
    {
        proof {
            use_type_invariant(&*self);
        }
        let recipient = match token::try_load(account) {
            Ok(loaded) => loaded,
            Err(number) => {
                return Err(TransferFault::Account(number));
            },
        };
        if recipient.mint != self.accounts.mint.key {
            return Err(TransferFault::MintMismatch);
        }
        let to: AccountMeta = self.remaining_accounts[self.next];
        let amount: u64 = self.amounts[self.next];
        self.next = self.next + 1;
        Ok(self.accounts.order_transfer(to.key, amount))
    }

    /// Closes a payout whose transfers have all gone through, and reports it.
    pub fn finish(&self) -> (event: BulkSummary)
        requires
            self@.next == self@.remaining_accounts.len(),
        ensures
            event.sender == self@.accounts.sender,
            event.total_recipients == self@.amounts.len(),
            event.total_amount == self@.total_amount,
            event == self@.summary(),
    {
        proof {
            use_type_invariant(self);
        }
        BulkSummary {
            sender: self.accounts.sender,
            total_recipients: self.amounts.len() as u16,
            total_amount: self.total_amount,
        }
    }
}

} // verus!
