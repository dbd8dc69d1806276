//! What the single rules of a payment mean, stated over their inputs and results alone.

use crate::accounts::{PaymentAccounts, SourceFault, TransferChecked};
use crate::amounts;
use crate::bulk;
use crate::bulk::{BulkFault, BulkState, TransferFault};
use crate::laws;
use crate::payout;
use crate::pubkey::Pubkey;
use crate::splitter;
use crate::splitter::{ErrorCode, SplitState};
use crate::token;
use crate::token::{AccountMeta, AccountStateView, TokenAccount};
use vstd::bytes;
use vstd::prelude::*;
use vstd::std_specs::cmp::PartialEqSpec;

verus! {

/// The sum of percentages is the plain sum: nothing for no percentage, each further one adds
/// itself, and lists that are joined add up.
pub proof fn law_sum_bps_is_plain(bps: Seq<u16>, b: u16, more: Seq<u16>)
    ensures
        amounts::sum_bps(Seq::<u16>::empty()) == 0,
        amounts::sum_bps(bps.push(b)) == amounts::sum_bps(bps) + b,
        amounts::sum_bps(bps + more) == amounts::sum_bps(bps) + amounts::sum_bps(more),
    decreases more.len(),
{
    assert(bps.push(b).drop_last() =~= bps);
    if more.len() == 0 {
        assert(bps + more =~= bps);
    } else {
        law_sum_bps_is_plain(bps, b, more.drop_last());
        assert((bps + more).drop_last() =~= bps + more.drop_last());
    }
}

/// The sum of amounts is the plain sum: nothing for no amount, each further one adds itself, and
/// lists that are joined add up.
pub proof fn law_sum_amounts_is_plain(list: Seq<u64>, a: u64, more: Seq<u64>)
    ensures
        amounts::sum_amounts(Seq::<u64>::empty()) == 0,
        amounts::sum_amounts(list.push(a)) == amounts::sum_amounts(list) + a,
        amounts::sum_amounts(list + more) == amounts::sum_amounts(list) + amounts::sum_amounts(
            more,
        ),
    decreases more.len(),
{
    assert(list.push(a).drop_last() =~= list);
    if more.len() == 0 {
        assert(list + more =~= list);
    } else {
        law_sum_amounts_is_plain(list, a, more.drop_last());
        assert((list + more).drop_last() =~= list + more.drop_last());
    }
}

/// A portion is the exact part of the amount in ten-thousandths, rounded down.
pub proof fn law_portion_is_rounded_down(amount: int, bps: int)
    ensures
        amounts::portion_of(amount, bps) * 10_000 <= amount * bps < (amounts::portion_of(
            amount,
            bps,
        ) + 1) * 10_000,
{
}

/// Percentages make up the whole exactly if each is positive and their plain sum is 10000.
pub proof fn law_whole_means_positive_and_10000(bps: Seq<u16>)
    ensures
        amounts::is_whole(bps) <==> {
            &&& forall|i: int| 0 <= i < bps.len() ==> #[trigger] bps[i] > 0
            &&& amounts::sum_bps(bps) == 10_000
        },
{
}

/// A share depends on the place in the list: all recipients but the last get their exact part
/// rounded down, and the last gets what is left once the others have been paid.
pub proof fn law_share_is_part_or_rest(amount: int, bps: Seq<u16>, i: nat)
    requires
        i < bps.len(),
    ensures
        i < bps.len() - 1 ==> amounts::share_of(amount, bps, i) * 10_000 <= amount * bps[i as int]
            < (amounts::share_of(amount, bps, i) + 1) * 10_000,
        i == bps.len() - 1 ==> amounts::share_of(amount, bps, i) + amounts::sum_shares(
            amount,
            bps,
            i,
        ) == amount,
        amounts::sum_shares(amount, bps, 0) == 0,
        amounts::sum_shares(amount, bps, i + 1) == amounts::sum_shares(amount, bps, i)
            + amounts::share_of(amount, bps, i),
{
    lemma_shares_before_last(amount, bps, i);
}

/// Before the last recipient, the sum of the shares is the sum of the portions.
proof fn lemma_shares_before_last(amount: int, bps: Seq<u16>, count: nat)
    requires
        count < bps.len(),
    ensures
        amounts::sum_shares(amount, bps, count) == amounts::sum_portions(amount, bps, count),
    decreases count,
{
    if count > 0 {
        lemma_shares_before_last(amount, bps, (count - 1) as nat);
    }
}

/// The source has no fault exactly if there is something to pay, the token program is the token
/// program, the account is the sender's, it holds tokens of the mint, and it holds enough. Each
/// fault means that its own condition fails and those before it hold.
pub proof fn law_source_faults(accounts: PaymentAccounts, total_amount: u64)
    ensures
        ({
            let fault = accounts.source_fault(total_amount);
            let source = accounts.sender_token_account.account;
            let pays = total_amount > 0;
            let program = accounts.token_program@ == token::token_program_address();
            let owner = source.owner@ == accounts.sender@;
            let mint = source.mint@ == accounts.mint.key@;
            let balance = source.amount >= total_amount;
            &&& fault is None <==> pays && program && owner && mint && balance
            &&& fault == Some(SourceFault::NothingToPay) <==> !pays
            &&& fault == Some(SourceFault::TokenProgram) <==> pays && !program
            &&& fault == Some(SourceFault::Owner) <==> pays && program && !owner
            &&& fault == Some(SourceFault::Mint) <==> pays && program && owner && !mint
            &&& fault == Some(SourceFault::Balance) <==> pays && program && owner && mint
                && !balance
        }),
{
}

/// An order names the sender's token account, the mint with its decimals, the account it is made
/// out to, the sender, and the amount.
pub proof fn law_order_names_its_parties(accounts: PaymentAccounts, to: Pubkey, amount: u64)
    ensures
        accounts.transfer_to(to, amount).from == accounts.sender_token_account.key,
        accounts.transfer_to(to, amount).mint == accounts.mint.key,
        accounts.transfer_to(to, amount).to == to,
        accounts.transfer_to(to, amount).authority == accounts.sender,
        accounts.transfer_to(to, amount).amount == amount,
        accounts.transfer_to(to, amount).decimals == accounts.mint.decimals,
{
}

/// Two addresses are equal exactly if they have the same bytes at every place.
pub proof fn law_equal_addresses_have_equal_bytes(a: Pubkey, b: Pubkey)
    ensures
        a.eq_spec(&b) <==> forall|i: int| 0 <= i < 32 ==> a.bytes@[i] == b.bytes@[i],
{
    if forall|i: int| 0 <= i < 32 ==> a.bytes@[i] == b.bytes@[i] {
        assert(a@ =~= b@);
    }
}

/// At `k` stands the first percentage of zero, and the sum up to there fits in 16 bits.
pub open spec fn is_first_zero(bps: Seq<u16>, k: int) -> bool {
    &&& 0 <= k < bps.len()
    &&& bps[k] == 0
    &&& forall|j: int| 0 <= j < k ==> #[trigger] bps[j] > 0
    &&& amounts::sum_bps(bps.take(k)) <= 65_535
}

/// With the percentage at `k` the sum first exceeds 16 bits, and none up to there is zero.
pub open spec fn is_first_overflow(bps: Seq<u16>, k: int) -> bool {
    &&& 0 <= k < bps.len()
    &&& forall|j: int| 0 <= j <= k ==> #[trigger] bps[j] > 0
    &&& amounts::sum_bps(bps.take(k)) <= 65_535
    &&& amounts::sum_bps(bps.take(k)) + bps[k] > 65_535
}

/// Percentages have no fault exactly if all are positive and their sum fits in 16 bits. Otherwise
/// the fault is the one that comes first: a percentage of zero, or the one with which the sum no
/// longer fits.
pub proof fn law_percentage_faults(bps: Seq<u16>)
    ensures
        splitter::percentages_fault(bps) is None <==> {
            &&& forall|i: int| 0 <= i < bps.len() ==> #[trigger] bps[i] > 0
            &&& amounts::sum_bps(bps) <= 65_535
        },
        splitter::percentages_fault(bps) == Some(ErrorCode::ZeroPercentage) <==> exists|k: int|
            is_first_zero(bps, k),
        splitter::percentages_fault(bps) == Some(ErrorCode::MathOverflow) <==> exists|k: int|
            is_first_overflow(bps, k),
    decreases bps.len(),
{
    if bps.len() > 0 {
        let rest = bps.drop_last();
        let last = bps.len() - 1;
        law_percentage_faults(rest);
        amounts::lemma_sum_bps_take(bps, last as nat);
        assert(bps.take(last) =~= rest);
        assert forall|k: int| 0 <= k < last implies (is_first_zero(bps, k) <==> is_first_zero(
            rest,
            k,
        )) && (is_first_overflow(bps, k) <==> is_first_overflow(rest, k)) by {
            assert(rest.take(k) =~= bps.take(k));
            assert(rest[k] == bps[k]);
            if is_first_zero(bps, k) {
                assert forall|j: int| 0 <= j < k implies #[trigger] rest[j] > 0 by {
                    assert(bps[j] > 0);
                }
            }
            if is_first_zero(rest, k) {
                assert forall|j: int| 0 <= j < k implies #[trigger] bps[j] > 0 by {
                    assert(rest[j] > 0);
                }
            }
            if is_first_overflow(bps, k) {
                assert forall|j: int| 0 <= j <= k implies #[trigger] rest[j] > 0 by {
                    assert(bps[j] > 0);
                }
            }
            if is_first_overflow(rest, k) {
                assert forall|j: int| 0 <= j <= k implies #[trigger] bps[j] > 0 by {
                    assert(rest[j] > 0);
                }
            }
        }
        if splitter::percentages_fault(rest) is None {
            assert forall|j: int| 0 <= j < last implies #[trigger] bps[j] > 0 by {
                assert(rest[j] > 0);
            }
            if bps[last] == 0 {
                assert(is_first_zero(bps, last));
            } else if amounts::sum_bps(bps) > 65_535 {
                assert(is_first_overflow(bps, last));
            }
            assert forall|k: int| is_first_zero(bps, k) implies k == last by {
                if k < last {
                    assert(is_first_zero(rest, k));
                }
            }
            assert forall|k: int| is_first_overflow(bps, k) implies k == last by {
                if k < last {
                    assert(is_first_overflow(rest, k));
                }
            }
        } else {
            lemma_one_first_fault(bps);
            if exists|k: int| is_first_zero(rest, k) {
                let k = choose|k: int| is_first_zero(rest, k);
                assert(is_first_zero(bps, k));
            }
            if exists|k: int| is_first_overflow(rest, k) {
                let k = choose|k: int| is_first_overflow(rest, k);
                assert(is_first_overflow(bps, k));
            }
            lemma_fault_kinds(rest);
        }
    } else {
        assert(forall|k: int| !is_first_zero(bps, k) && !is_first_overflow(bps, k));
    }
}

/// Only a zero and an overflow are faults of percentages.
proof fn lemma_fault_kinds(bps: Seq<u16>)
    ensures
        splitter::percentages_fault(bps) is None || splitter::percentages_fault(bps) == Some(
            ErrorCode::ZeroPercentage,
        ) || splitter::percentages_fault(bps) == Some(ErrorCode::MathOverflow),
    decreases bps.len(),
{
    if bps.len() > 0 {
        lemma_fault_kinds(bps.drop_last());
    }
}

/// There is at most one first fault.
proof fn lemma_one_first_fault(bps: Seq<u16>)
    ensures
        forall|j: int, k: int|
            is_first_zero(bps, j) && is_first_overflow(bps, k) ==> false,
        forall|k: int|
            is_first_zero(bps, k) || is_first_overflow(bps, k) ==> !((forall|i: int|
                0 <= i < bps.len() ==> #[trigger] bps[i] > 0) && amounts::sum_bps(bps) <= 65_535),
{
    assert forall|j: int, k: int| is_first_zero(bps, j) && is_first_overflow(bps, k) implies false by {
        if j <= k {
            assert(bps[j] > 0);
        } else {
            lemma_prefix_with(bps.take(j), k);
            assert(bps.take(j).take(k) =~= bps.take(k));
        }
    }
    assert forall|k: int| is_first_zero(bps, k) || is_first_overflow(bps, k) implies !((forall|
        i: int,
    |
        0 <= i < bps.len() ==> #[trigger] bps[i] > 0) && amounts::sum_bps(bps) <= 65_535) by {
        if is_first_overflow(bps, k) {
            lemma_prefix_with(bps, k);
        } else {
            assert(bps[k] == 0);
        }
    }
}

/// A prefix and the percentage behind it sum to no more than the whole list.
proof fn lemma_prefix_with(bps: Seq<u16>, k: int)
    requires
        0 <= k < bps.len(),
    ensures
        amounts::sum_bps(bps.take(k)) + bps[k] <= amounts::sum_bps(bps),
{
    amounts::lemma_sum_bps_take(bps, (k + 1) as nat);
    assert(bps.take(k + 1).drop_last() =~= bps.take(k));
}

/// The platform fee is exactly the stated basis points of the total, rounded down, and the
/// recipients share the rest. A further account is expected exactly if the fee is not nothing.
pub proof fn law_fee_is_exact(state: SplitState)
    ensures
        state.fee_amount() * 10_000 <= state.total_amount * state.platform_fee_basis_points < (
        state.fee_amount() + 1) * 10_000,
        state.distributable() + state.fee_amount() == state.total_amount,
        state.fee_amount() > 0 <==> state.total_amount * state.platform_fee_basis_points >= 10_000,
        state.total_amount * state.platform_fee_basis_points >= 10_000 ==> state.expected_accounts()
            == state.percentages_bps.len() + 1,
        state.total_amount * state.platform_fee_basis_points < 10_000 ==> state.expected_accounts()
            == state.percentages_bps.len(),
{
    law_portion_is_rounded_down(
        state.total_amount as int,
        state.platform_fee_basis_points as int,
    );
    let product = state.total_amount * state.platform_fee_basis_points;
    assert(product >= 0) by (nonlinear_arith)
        requires
            product == state.total_amount * state.platform_fee_basis_points,
            state.total_amount >= 0,
            state.platform_fee_basis_points >= 0,
    ;
}

/// Transfer `i` of an accepted split payment moves the recipient's exact part of what is left
/// after the fee, rounded down; the last recipient's moves what the others leave of it; and the one
/// behind the recipients' moves the fee.
pub proof fn law_split_amounts(state: SplitState, i: nat)
    requires
        state.is_accepted(),
        i < state.remaining_accounts.len(),
    ensures
        ({
            let n = state.percentages_bps.len();
            let amount = state.amount_of(i);
            let rest = state.total_amount - state.fee_amount();
            &&& 0 <= amount <= state.total_amount
            &&& i < n - 1 ==> amount * 10_000 <= rest * state.percentages_bps[i as int] < (amount
                + 1) * 10_000
            &&& i == n - 1 ==> amount + amounts::sum_shares(rest, state.percentages_bps, i) == rest
            &&& i < n - 1 ==> amounts::sum_shares(rest, state.percentages_bps, i + 1)
                == amounts::sum_shares(rest, state.percentages_bps, i) + amount
            &&& i >= n ==> amount * 10_000 <= state.total_amount * state.platform_fee_basis_points < (
            amount + 1) * 10_000
        }),
{
    law_fee_is_exact(state);
    laws::law_fee_is_capped(state);
    if i < state.percentages_bps.len() {
        law_share_is_part_or_rest(state.distributable(), state.percentages_bps, i);
        laws::law_shares_follow_percentages(state.distributable(), state.percentages_bps, i);
    }
}

/// A request to split a payment is refused for the first of these that holds: a bad number of
/// recipients, a fault of the source, a fault of the percentages, percentages that do not sum to
/// 10000, a fee above 1000 basis points, a wrong number of accounts. It is accepted if none holds.
pub proof fn law_split_refusals(request: SplitState, max_recipients: u16)
    ensures
        ({
            let fault = request.request_fault(max_recipients);
            let accounts = request.accounts;
            let source = accounts.sender_token_account.account;
            let bps = request.percentages_bps;
            let n = bps.len();
            let count = n > 0 && n % 65_536 <= max_recipients;
            let pays = count && request.total_amount > 0;
            let program = pays && accounts.token_program@ == token::token_program_address();
            let owner = program && source.owner@ == accounts.sender@;
            let mint = owner && source.mint@ == accounts.mint.key@;
            let balance = mint && source.amount >= request.total_amount;
            let positive = balance && forall|i: int| 0 <= i < n ==> #[trigger] bps[i] > 0;
            let sum = positive && amounts::sum_bps(bps) == 10_000;
            let fee = sum && request.platform_fee_basis_points <= 1_000;
            let takes_fee = request.total_amount * request.platform_fee_basis_points >= 10_000;
            let expected = if takes_fee {
                n + 1
            } else {
                n
            };
            &&& fault == Some(ErrorCode::InvalidRecipientCount) <==> !count
            &&& fault == Some(ErrorCode::TotalAmountTooSmall) <==> count && !pays
            &&& fault == Some(ErrorCode::InvalidTokenProgram) <==> pays && !program
            &&& fault == Some(ErrorCode::InvalidTokenAccountOwner) <==> program && !owner
            &&& fault == Some(ErrorCode::MintMismatch) <==> owner && !mint
            &&& fault == Some(ErrorCode::InsufficientBalance) <==> mint && !balance
            &&& fault == Some(ErrorCode::ZeroPercentage) <==> balance && exists|k: int|
                is_first_zero(bps, k)
            &&& fault == Some(ErrorCode::MathOverflow) <==> balance && exists|k: int|
                is_first_overflow(bps, k)
            &&& fault == Some(ErrorCode::InvalidPercentageSum) <==> positive && amounts::sum_bps(
                bps,
            ) <= 65_535 && !sum
            &&& fault == Some(ErrorCode::ExcessiveFee) <==> sum && !fee
            &&& fault == Some(ErrorCode::IncorrectAccountCount) <==> fee
                && request.remaining_accounts.len() != expected
            &&& fault is None <==> fee && request.remaining_accounts.len() == expected
        }),
{
    law_source_faults(request.accounts, request.total_amount);
    law_percentage_faults(request.percentages_bps);
    lemma_fault_kinds(request.percentages_bps);
    law_fee_is_exact(request);
}

/// What it means that a split payment is accepted.
pub proof fn law_accepted_split(state: SplitState)
    ensures
        state.is_accepted() <==> {
            let accounts = state.accounts;
            let source = accounts.sender_token_account.account;
            let bps = state.percentages_bps;
            let takes_fee = state.total_amount * state.platform_fee_basis_points >= 10_000;
            &&& bps.len() > 0
            &&& forall|i: int| 0 <= i < bps.len() ==> #[trigger] bps[i] > 0
            &&& amounts::sum_bps(bps) == 10_000
            &&& state.platform_fee_basis_points <= 1_000
            &&& state.total_amount > 0
            &&& accounts.token_program@ == token::token_program_address()
            &&& source.owner@ == accounts.sender@
            &&& source.mint@ == accounts.mint.key@
            &&& source.amount >= state.total_amount
            &&& takes_fee ==> state.remaining_accounts.len() == bps.len() + 1
            &&& !takes_fee ==> state.remaining_accounts.len() == bps.len()
            &&& state.next <= state.remaining_accounts.len()
        },
{
    law_fee_is_exact(state);
    law_source_faults(state.accounts, state.total_amount);
}

/// The next transfer of an accepted split payment goes from the sender's token account to the next
/// remaining account, by right of the sender, in tokens of the mint. It is ordered exactly if that
/// account is writable, its data is a packed token account of the mint, and a recipient gets no
/// less than the floor; otherwise the error is the first of these that fails.
pub proof fn law_split_step(state: SplitState, account: AccountStateView)
    requires
        state.is_accepted(),
        state.next < state.remaining_accounts.len(),
    ensures
        ({
            let r = state.step(account);
            let to = state.remaining_accounts[state.next as int];
            let recipient = state.next < state.percentages_bps.len();
            let packed = to.is_writable && token::unpack_error(account.data) is None;
            let mint = packed && account.data.subrange(0, 32) == state.accounts.mint.key@;
            let enough = mint && (recipient ==> state.amount_of(state.next)
                >= state.min_transfer_amount);
            &&& r == Err::<TransferChecked, ErrorCode>(ErrorCode::RecipientAccountNotWritable) <==> recipient
                && !to.is_writable
            &&& r == Err::<TransferChecked, ErrorCode>(ErrorCode::FeeWalletNotWritable) <==> !recipient
                && !to.is_writable
            &&& r == Err::<TransferChecked, ErrorCode>(ErrorCode::InvalidTokenAccountOwner) <==> to.is_writable
                && !packed
            &&& r == Err::<TransferChecked, ErrorCode>(ErrorCode::MintMismatch) <==> packed && !mint
            &&& r == Err::<TransferChecked, ErrorCode>(ErrorCode::RecipientAmountTooSmall) <==> mint && !enough
            &&& r is Ok <==> enough
            &&& r matches Ok(transfer) ==> {
                &&& transfer.from == state.accounts.sender_token_account.key
                &&& transfer.mint == state.accounts.mint.key
                &&& transfer.to == to.key
                &&& transfer.authority == state.accounts.sender
                &&& transfer.amount == state.amount_of(state.next)
                &&& transfer.decimals == state.accounts.mint.decimals
            }
        }),
{
    law_split_amounts(state, state.next);
}

/// Ordering a transfer moves a split payment on by one, and changes nothing of the request.
pub proof fn law_split_moves_on(state: SplitState)
    ensures
        state.advanced().next == state.next + 1,
        state.advanced().accounts == state.accounts,
        state.advanced().remaining_accounts == state.remaining_accounts,
        state.advanced().percentages_bps == state.percentages_bps,
        state.advanced().platform_fee_basis_points == state.platform_fee_basis_points,
        state.advanced().min_transfer_amount == state.min_transfer_amount,
        state.advanced().total_amount == state.total_amount,
{
}

/// A split payment reports a fee exactly if the fee is not nothing, and reports it as it is.
pub proof fn law_split_event(state: SplitState)
    requires
        state.is_accepted(),
    ensures
        state.event() is Some <==> state.total_amount * state.platform_fee_basis_points >= 10_000,
        state.event() matches Some(event) ==> {
            &&& event.sender == state.accounts.sender
            &&& event.platform_fee_basis_points == state.platform_fee_basis_points
            &&& event.amount * 10_000 <= state.total_amount * state.platform_fee_basis_points < (
            event.amount + 1) * 10_000
        },
{
    law_fee_is_exact(state);
    laws::law_fee_is_capped(state);
}

/// The first `count` accounts are writable, and no two of them are the same.
pub open spec fn are_good_up_to(accounts: Seq<AccountMeta>, count: int) -> bool {
    &&& forall|i: int| 0 <= i < count ==> (#[trigger] accounts[i]).is_writable
    &&& forall|i: int, j: int|
        0 <= i < j < count ==> (#[trigger] accounts[i]).key@ != (#[trigger] accounts[j]).key@
}

/// At `k` stands the first account that is not writable, and no account before it occurs twice.
pub open spec fn is_first_unwritable(accounts: Seq<AccountMeta>, k: int) -> bool {
    &&& 0 <= k < accounts.len()
    &&& are_good_up_to(accounts, k)
    &&& !accounts[k].is_writable
}

/// At `k` stands the first account that occurs before, and all up to it are writable.
pub open spec fn is_first_repeat(accounts: Seq<AccountMeta>, k: int) -> bool {
    &&& 0 <= k < accounts.len()
    &&& are_good_up_to(accounts, k)
    &&& accounts[k].is_writable
    &&& exists|j: int| 0 <= j < k && (#[trigger] accounts[j]).key@ == accounts[k].key@
}

/// The recipients' accounts have no fault exactly if all are writable and no two are the same.
/// Otherwise the fault is the one that comes first: an account that is not writable, or one that
/// occurs before.
pub proof fn law_recipient_faults(accounts: Seq<AccountMeta>)
    ensures
        bulk::recipients_fault(accounts) is None <==> are_good_up_to(
            accounts,
            accounts.len() as int,
        ),
        bulk::recipients_fault(accounts) == Some(BulkFault::NotWritable) <==> exists|k: int|
            is_first_unwritable(accounts, k),
        bulk::recipients_fault(accounts) == Some(BulkFault::Duplicate) <==> exists|k: int|
            is_first_repeat(accounts, k),
{
    bulk::lemma_recipients(accounts);
    lemma_first_recipient_fault(accounts);
    assert forall|k: int| is_first_unwritable(accounts, k) implies bulk::recipients_fault(accounts)
        == Some(BulkFault::NotWritable) by {
        lemma_recipient_fault_at(accounts, k);
    }
    assert forall|k: int| is_first_repeat(accounts, k) implies bulk::recipients_fault(accounts)
        == Some(BulkFault::Duplicate) by {
        lemma_recipient_fault_at(accounts, k);
    }
}

/// If there is a fault, some account is the first one to have it.
proof fn lemma_first_recipient_fault(accounts: Seq<AccountMeta>)
    ensures
        bulk::recipients_fault(accounts) == Some(BulkFault::NotWritable) ==> exists|k: int|
            is_first_unwritable(accounts, k),
        bulk::recipients_fault(accounts) == Some(BulkFault::Duplicate) ==> exists|k: int|
            is_first_repeat(accounts, k),
    decreases accounts.len(),
{
    if accounts.len() > 0 {
        let rest = accounts.drop_last();
        let last = accounts.len() - 1;
        lemma_first_recipient_fault(rest);
        assert(forall|i: int| 0 <= i < last ==> rest[i] == accounts[i]);
        if bulk::recipients_fault(rest) is None {
            bulk::lemma_recipients(rest);
            lemma_good_prefix(rest, accounts, last);
            if !accounts[last].is_writable {
                assert(is_first_unwritable(accounts, last));
            } else if bulk::occurs_before(accounts, last) {
                assert(is_first_repeat(accounts, last));
            }
        } else {
            if exists|k: int| is_first_unwritable(rest, k) {
                let k = choose|k: int| is_first_unwritable(rest, k);
                lemma_good_prefix(rest, accounts, k);
                assert(is_first_unwritable(accounts, k));
            }
            if exists|k: int| is_first_repeat(rest, k) {
                let k = choose|k: int| is_first_repeat(rest, k);
                lemma_good_prefix(rest, accounts, k);
                let j = choose|j: int| 0 <= j < k && (#[trigger] rest[j]).key@ == rest[k].key@;
                assert(accounts[j].key@ == accounts[k].key@);
                assert(is_first_repeat(accounts, k));
            }
        }
    }
}

/// Lists that agree up to `count` are good up to there together.
proof fn lemma_good_prefix(a: Seq<AccountMeta>, b: Seq<AccountMeta>, count: int)
    requires
        count <= a.len(),
        count <= b.len(),
        forall|i: int| 0 <= i < count ==> a[i] == b[i],
        are_good_up_to(a, count),
    ensures
        are_good_up_to(b, count),
{
    assert forall|i: int| 0 <= i < count implies (#[trigger] b[i]).is_writable by {
        assert(a[i].is_writable);
    }
    assert forall|i: int, j: int| 0 <= i < j < count implies (#[trigger] b[i]).key@ != (
    #[trigger] b[j]).key@ by {
        assert(a[i].key@ != a[j].key@);
    }
}

/// The first account with a fault gives the fault of the whole list.
proof fn lemma_recipient_fault_at(accounts: Seq<AccountMeta>, k: int)
    requires
        0 <= k < accounts.len(),
        are_good_up_to(accounts, k),
    ensures
        !accounts[k].is_writable ==> bulk::recipients_fault(accounts) == Some(
            BulkFault::NotWritable,
        ),
        accounts[k].is_writable && (exists|j: int|
            0 <= j < k && (#[trigger] accounts[j]).key@ == accounts[k].key@)
            ==> bulk::recipients_fault(accounts) == Some(BulkFault::Duplicate),
{
    let before = accounts.take(k);
    let prefix = accounts.take(k + 1);
    lemma_good_prefix(accounts, before, k);
    bulk::lemma_recipients(before);
    assert(bulk::are_writable_and_different(before));
    assert(prefix.drop_last() =~= before);
    assert(prefix.last() == accounts[k]);
    if exists|j: int| 0 <= j < k && (#[trigger] accounts[j]).key@ == accounts[k].key@ {
        let j = choose|j: int| 0 <= j < k && (#[trigger] accounts[j]).key@ == accounts[k].key@;
        assert(prefix[j].key@ == prefix[k].key@);
        assert(bulk::occurs_before(prefix, k));
    }
    if bulk::recipients_fault(prefix) is Some {
        bulk::lemma_fault_of_prefix(accounts, k + 1);
    }
}

/// A request for a bulk payout is refused for the first of these that holds: a bad number of
/// recipients, a fault of the source, a wrong number of accounts, an amount below the floor, amounts
/// that do not sum to the total, a fault of the recipients' accounts. It is accepted if none holds.
pub proof fn law_bulk_refusals(request: BulkState, max_recipients: u16)
    ensures
        ({
            let fault = request.request_fault(max_recipients);
            let accounts = request.accounts;
            let source = accounts.sender_token_account.account;
            let n = request.amounts.len();
            let metas = request.remaining_accounts;
            let count = 0 < n <= max_recipients;
            let pays = count && request.total_amount > 0;
            let program = pays && accounts.token_program@ == token::token_program_address();
            let owner = program && source.owner@ == accounts.sender@;
            let mint = owner && source.mint@ == accounts.mint.key@;
            let balance = mint && source.amount >= request.total_amount;
            let places = balance && metas.len() == n;
            let floor = places && forall|i: int|
                0 <= i < n ==> #[trigger] request.amounts[i] >= request.min_transfer_amount;
            let sum = floor && amounts::sum_amounts(request.amounts) == request.total_amount;
            &&& fault == Some(BulkFault::RecipientCount) <==> !count
            &&& fault == Some(BulkFault::Source(SourceFault::NothingToPay)) <==> count && !pays
            &&& fault == Some(BulkFault::Source(SourceFault::TokenProgram)) <==> pays && !program
            &&& fault == Some(BulkFault::Source(SourceFault::Owner)) <==> program && !owner
            &&& fault == Some(BulkFault::Source(SourceFault::Mint)) <==> owner && !mint
            &&& fault == Some(BulkFault::Source(SourceFault::Balance)) <==> mint && !balance
            &&& fault == Some(BulkFault::AccountCount) <==> balance && !places
            &&& fault == Some(BulkFault::AmountTooSmall) <==> places && !floor
            &&& fault == Some(BulkFault::AmountSum) <==> floor && !sum
            &&& fault == Some(BulkFault::NotWritable) <==> sum && exists|k: int|
                is_first_unwritable(metas, k)
            &&& fault == Some(BulkFault::Duplicate) <==> sum && exists|k: int|
                is_first_repeat(metas, k)
            &&& fault is None <==> sum && are_good_up_to(metas, metas.len() as int)
        }),
{
    law_source_faults(request.accounts, request.total_amount);
    law_recipient_faults(request.remaining_accounts);
    lemma_recipient_fault_kinds(request.remaining_accounts);
    let n = request.amounts.len();
    if exists|i: int| 0 <= i < n && #[trigger] request.amounts[i] < request.min_transfer_amount {
        let i = choose|i: int|
            0 <= i < n && #[trigger] request.amounts[i] < request.min_transfer_amount;
        assert(!(request.amounts[i] >= request.min_transfer_amount));
    }
}

/// Only an account that is not writable and a repeated one are faults of recipients.
proof fn lemma_recipient_fault_kinds(accounts: Seq<AccountMeta>)
    ensures
        bulk::recipients_fault(accounts) is None || bulk::recipients_fault(accounts) == Some(
            BulkFault::NotWritable,
        ) || bulk::recipients_fault(accounts) == Some(BulkFault::Duplicate),
    decreases accounts.len(),
{
    if accounts.len() > 0 {
        lemma_recipient_fault_kinds(accounts.drop_last());
    }
}

/// What it means that a bulk payout is accepted.
pub proof fn law_accepted_bulk(state: BulkState)
    ensures
        state.is_accepted() <==> {
            let accounts = state.accounts;
            let source = accounts.sender_token_account.account;
            &&& 0 < state.amounts.len() <= 65_535
            &&& state.total_amount > 0
            &&& accounts.token_program@ == token::token_program_address()
            &&& source.owner@ == accounts.sender@
            &&& source.mint@ == accounts.mint.key@
            &&& source.amount >= state.total_amount
            &&& state.remaining_accounts.len() == state.amounts.len()
            &&& forall|i: int|
                0 <= i < state.amounts.len() ==> #[trigger] state.amounts[i]
                    >= state.min_transfer_amount
            &&& amounts::sum_amounts(state.amounts) == state.total_amount
            &&& are_good_up_to(state.remaining_accounts, state.remaining_accounts.len() as int)
            &&& state.next <= state.amounts.len()
        },
{
    law_source_faults(state.accounts, state.total_amount);
}

/// The next transfer of a bulk payout goes from the sender's token account to the next remaining
/// account, by right of the sender, and moves that recipient's amount in tokens of the mint. It is
/// ordered exactly if the account loads as a token account and holds tokens of the mint; otherwise
/// the error is the first of these that fails.
pub proof fn law_bulk_step(state: BulkState, account: AccountStateView)
    requires
        state.next < state.remaining_accounts.len(),
    ensures
        ({
            let r = state.step(account);
            let mint = account.data.subrange(0, 32) == state.accounts.mint.key@;
            let error = token::load_error(account);
            &&& error matches Some(number) ==> r == Err::<TransferChecked, TransferFault>(
                TransferFault::Account(number),
            )
            &&& error is None && !mint <==> r == Err::<TransferChecked, TransferFault>(
                TransferFault::MintMismatch,
            )
            &&& error is None && mint <==> r is Ok
            &&& r matches Ok(transfer) ==> {
                &&& transfer.from == state.accounts.sender_token_account.key
                &&& transfer.mint == state.accounts.mint.key
                &&& transfer.to == state.remaining_accounts[state.next as int].key
                &&& transfer.authority == state.accounts.sender
                &&& transfer.amount == state.amounts[state.next as int]
                &&& transfer.decimals == state.accounts.mint.decimals
            }
        }),
{
}

/// Ordering a transfer moves a bulk payout on by one, and changes nothing of the request.
pub proof fn law_bulk_moves_on(state: BulkState)
    ensures
        state.advanced().next == state.next + 1,
        state.advanced().accounts == state.accounts,
        state.advanced().remaining_accounts == state.remaining_accounts,
        state.advanced().amounts == state.amounts,
        state.advanced().min_transfer_amount == state.min_transfer_amount,
        state.advanced().total_amount == state.total_amount,
{
}

/// The summary of an accepted payout names the sender, the number of recipients and the sum of
/// their amounts.
pub proof fn law_bulk_summary(state: BulkState)
    requires
        state.is_accepted(),
    ensures
        state.summary().sender == state.accounts.sender,
        state.summary().total_recipients == state.remaining_accounts.len(),
        state.summary().total_recipients == state.amounts.len(),
        state.summary().total_amount == amounts::sum_amounts(state.amounts),
{
}

/// The bytes from `at` on mark an optional value as absent or present.
pub open spec fn marks_option(data: Seq<u8>, at: int) -> bool {
    (data[at] == 0 || data[at] == 1) && forall|i: int| at < i < at + 4 ==> data[i] == 0
}

/// Bytes are a packed token account exactly if there are 165 of them, the three optional values
/// are marked as absent or present, and the state is initialized or frozen. If only the state is
/// uninitialized the error is number 10 of the runtime's own, else it is number 4.
pub proof fn law_packed_token_accounts(data: Seq<u8>)
    ensures
        ({
            let error = token::unpack_error(data);
            let laid_out = data.len() == 165 && marks_option(data, 72) && marks_option(data, 109)
                && marks_option(data, 129);
            &&& error is None <==> laid_out && (data[108] == 1 || data[108] == 2)
            &&& error == Some(42_949_672_960u64) <==> laid_out && data[108] == 0
            &&& error == Some(17_179_869_184u64) <==> !laid_out || data[108] > 2
        }),
{
    assert forall|at: int| #[trigger] token::has_option_tag(data, at) <==> marks_option(data, at) by {
        if marks_option(data, at) {
            assert(data[at + 1] == 0 && data[at + 2] == 0 && data[at + 3] == 0);
        }
        if token::has_option_tag(data, at) {
            assert forall|i: int| at < i < at + 4 implies data[i] == 0 by {
                assert(i == at + 1 || i == at + 2 || i == at + 3);
            }
        }
    }
    assert(token::has_option_tag(data, 72) <==> marks_option(data, 72));
    assert(token::has_option_tag(data, 109) <==> marks_option(data, 109));
    assert(token::has_option_tag(data, 129) <==> marks_option(data, 129));
}

/// A token account is packed with its mint in the first 32 bytes, its owner in the next 32, and its
/// amount, least byte first, in the 8 behind those.
pub proof fn law_packed_fields(account: TokenAccount, data: Seq<u8>)
    requires
        data.len() == 165,
    ensures
        token::packed_mint(data).len() == 32,
        forall|i: int| 0 <= i < 32 ==> #[trigger] token::packed_mint(data)[i] == data[i],
        account.is_packed_as(data) <==> {
            &&& forall|i: int| 0 <= i < 32 ==> #[trigger] account.mint.bytes@[i] == data[i]
            &&& forall|i: int| 0 <= i < 32 ==> #[trigger] account.owner.bytes@[i] == data[32 + i]
            &&& bytes::spec_u64_to_le_bytes(account.amount) == data.subrange(64, 72)
        },
{
    bytes::lemma_auto_spec_u64_to_from_le_bytes();
    let amount = data.subrange(64, 72);
    assert(bytes::spec_u64_to_le_bytes(bytes::spec_u64_from_le_bytes(amount)) == amount);
    assert(bytes::spec_u64_from_le_bytes(bytes::spec_u64_to_le_bytes(account.amount))
        == account.amount);
    if forall|i: int| 0 <= i < 32 ==> #[trigger] account.mint.bytes@[i] == data[i] {
        assert(account.mint@ =~= data.subrange(0, 32));
    }
    if forall|i: int| 0 <= i < 32 ==> #[trigger] account.owner.bytes@[i] == data[32 + i] {
        assert(account.owner@ =~= data.subrange(32, 64));
    }
    if account.is_packed_as(data) {
        assert forall|i: int| 0 <= i < 32 implies #[trigger] account.mint.bytes@[i] == data[i] by {
            assert(account.mint@[i] == data.subrange(0, 32)[i]);
        }
        assert forall|i: int| 0 <= i < 32 implies #[trigger] account.owner.bytes@[i] == data[32
            + i] by {
            assert(account.owner@[i] == data.subrange(32, 64)[i]);
        }
    }
}

/// An account loads as a token account exactly if the token program owns it and its data is a
/// packed token account. An account of the system program, whose address is all zeros, without
/// lamports fails with number 3012, any other of another program with number 3007.
pub proof fn law_loading(account: AccountStateView)
    requires
        account.owner.len() == 32,
    ensures
        ({
            let error = token::load_error(account);
            let system = forall|i: int| 0 <= i < 32 ==> #[trigger] account.owner[i] == 0;
            let owned = account.owner == token::token_program_address();
            &&& error is None <==> owned && token::unpack_error(account.data) is None
            &&& error == Some(3_012u64) <==> system && account.lamports == 0
            &&& error == Some(3_007u64) <==> !owned && !(system && account.lamports == 0)
            &&& owned ==> error == token::unpack_error(account.data)
        }),
{
    if forall|i: int| 0 <= i < 32 ==> #[trigger] account.owner[i] == 0 {
        assert(account.owner =~= token::system_program_address());
    }
    assert(token::token_program_address()[0] == 6);
}

/// Each error of the splitter program has its number and its text: the number tells the error, and
/// the text is the one that clients are shown.
pub proof fn law_splitter_error_table(code: ErrorCode)
    ensures
        code.spec_number() == 6000 <==> code == ErrorCode::InvalidTokenProgram,
        code.spec_number() == 6001 <==> code == ErrorCode::InvalidRecipientCount,
        code.spec_number() == 6002 <==> code == ErrorCode::InvalidPercentageSum,
        code.spec_number() == 6003 <==> code == ErrorCode::ZeroPercentage,
        code.spec_number() == 6004 <==> code == ErrorCode::InsufficientBalance,
        code.spec_number() == 6005 <==> code == ErrorCode::RecipientAmountTooSmall,
        code.spec_number() == 6006 <==> code == ErrorCode::MathOverflow,
        code.spec_number() == 6007 <==> code == ErrorCode::ExcessiveFee,
        code.spec_number() == 6008 <==> code == ErrorCode::InvalidTokenAccountOwner,
        code.spec_number() == 6009 <==> code == ErrorCode::RecipientAccountNotWritable,
        code.spec_number() == 6010 <==> code == ErrorCode::FeeWalletNotWritable,
        code.spec_number() == 6011 <==> code == ErrorCode::IncorrectAccountCount,
        code.spec_number() == 6012 <==> code == ErrorCode::MintMismatch,
        code.spec_number() == 6013 <==> code == ErrorCode::DuplicateRecipientAccount,
        code.spec_number() == 6014 <==> code == ErrorCode::TotalAmountTooSmall,
        code == ErrorCode::InvalidTokenProgram ==> code.spec_message() == "Invalid token program"@,
        code == ErrorCode::InvalidRecipientCount ==> code.spec_message() == "Invalid number of recipients"@,
        code == ErrorCode::InvalidPercentageSum ==> code.spec_message() == "Percentages must sum to exactly 10000 bps"@,
        code == ErrorCode::ZeroPercentage ==> code.spec_message() == "Percentage cannot be zero"@,
        code == ErrorCode::InsufficientBalance ==> code.spec_message() == "Insufficient balance for total_amount"@,
        code == ErrorCode::RecipientAmountTooSmall ==> code.spec_message() == "Per-recipient transfer amount too small"@,
        code == ErrorCode::MathOverflow ==> code.spec_message() == "Math overflow detected"@,
        code == ErrorCode::ExcessiveFee ==> code.spec_message() == "Total fee exceeds maximum allowed cap"@,
        code == ErrorCode::InvalidTokenAccountOwner ==> code.spec_message() == "Invalid token account owner for source"@,
        code == ErrorCode::RecipientAccountNotWritable ==> code.spec_message() == "Recipient account must be writable"@,
        code == ErrorCode::FeeWalletNotWritable ==> code.spec_message() == "Fee wallet must be writable"@,
        code == ErrorCode::IncorrectAccountCount ==> code.spec_message() == "Incorrect number of remaining accounts"@,
        code == ErrorCode::MintMismatch ==> code.spec_message() == "Mint mismatch across accounts"@,
        code == ErrorCode::DuplicateRecipientAccount ==> code.spec_message() == "Duplicate recipient token account detected"@,
        code == ErrorCode::TotalAmountTooSmall ==> code.spec_message() == "Total amount must be > 0"@,
{
}

/// The splitter program reports different faults by different errors, each by its own.
pub proof fn law_splitter_reports_faults(source: SourceFault, fault: BulkFault)
    ensures
        ErrorCode::of_source_fault(source) == ErrorCode::TotalAmountTooSmall <==> source == SourceFault::NothingToPay,
        ErrorCode::of_source_fault(source) == ErrorCode::InvalidTokenProgram <==> source == SourceFault::TokenProgram,
        ErrorCode::of_source_fault(source) == ErrorCode::InvalidTokenAccountOwner <==> source == SourceFault::Owner,
        ErrorCode::of_source_fault(source) == ErrorCode::MintMismatch <==> source == SourceFault::Mint,
        ErrorCode::of_source_fault(source) == ErrorCode::InsufficientBalance <==> source == SourceFault::Balance,
        ErrorCode::of_bulk_fault(fault) == ErrorCode::TotalAmountTooSmall <==> fault
            == BulkFault::Source(SourceFault::NothingToPay),
        ErrorCode::of_bulk_fault(fault) == ErrorCode::InvalidTokenProgram <==> fault
            == BulkFault::Source(SourceFault::TokenProgram),
        ErrorCode::of_bulk_fault(fault) == ErrorCode::InvalidTokenAccountOwner <==> fault
            == BulkFault::Source(SourceFault::Owner),
        ErrorCode::of_bulk_fault(fault) == ErrorCode::MintMismatch <==> fault
            == BulkFault::Source(SourceFault::Mint),
        ErrorCode::of_bulk_fault(fault) == ErrorCode::InsufficientBalance <==> fault
            == BulkFault::Source(SourceFault::Balance),
        ErrorCode::of_bulk_fault(fault) == ErrorCode::InvalidRecipientCount <==> fault
            == BulkFault::RecipientCount,
        ErrorCode::of_bulk_fault(fault) == ErrorCode::IncorrectAccountCount <==> fault
            == BulkFault::AccountCount,
        ErrorCode::of_bulk_fault(fault) == ErrorCode::RecipientAmountTooSmall <==> fault
            == BulkFault::AmountTooSmall,
        ErrorCode::of_bulk_fault(fault) == ErrorCode::MathOverflow <==> fault
            == BulkFault::AmountSum,
        ErrorCode::of_bulk_fault(fault) == ErrorCode::RecipientAccountNotWritable <==> fault
            == BulkFault::NotWritable,
        ErrorCode::of_bulk_fault(fault) == ErrorCode::DuplicateRecipientAccount <==> fault
            == BulkFault::Duplicate,
{
}

/// Each error of the payout program has its number and its text: the number tells the error, and
/// the text is the one that clients are shown.
pub proof fn law_payout_error_table(code: payout::ErrorCode)
    ensures
        code.spec_number() == 6000 <==> code == payout::ErrorCode::InvalidTokenProgram,
        code.spec_number() == 6001 <==> code == payout::ErrorCode::InvalidRecipientCount,
        code.spec_number() == 6002 <==> code == payout::ErrorCode::InsufficientBalance,
        code.spec_number() == 6003 <==> code == payout::ErrorCode::RecipientAmountTooSmall,
        code.spec_number() == 6004 <==> code == payout::ErrorCode::MathOverflow,
        code.spec_number() == 6005 <==> code == payout::ErrorCode::InvalidTokenAccountOwner,
        code.spec_number() == 6006 <==> code == payout::ErrorCode::RecipientAccountNotWritable,
        code.spec_number() == 6007 <==> code == payout::ErrorCode::IncorrectAccountCount,
        code.spec_number() == 6008 <==> code == payout::ErrorCode::MintMismatch,
        code.spec_number() == 6009 <==> code == payout::ErrorCode::DuplicateRecipientAccount,
        code.spec_number() == 6010 <==> code == payout::ErrorCode::TotalAmountTooSmall,
        code.spec_number() == 6011 <==> code == payout::ErrorCode::TotalAmountMismatch,
        code == payout::ErrorCode::InvalidTokenProgram ==> code.spec_message() == "Invalid token program"@,
        code == payout::ErrorCode::InvalidRecipientCount ==> code.spec_message() == "Invalid number of recipients"@,
        code == payout::ErrorCode::InsufficientBalance ==> code.spec_message() == "Insufficient balance for total_amount"@,
        code == payout::ErrorCode::RecipientAmountTooSmall ==> code.spec_message() == "Per-recipient transfer amount too small"@,
        code == payout::ErrorCode::MathOverflow ==> code.spec_message() == "Math overflow detected"@,
        code == payout::ErrorCode::InvalidTokenAccountOwner ==> code.spec_message() == "Invalid token account owner for source"@,
        code == payout::ErrorCode::RecipientAccountNotWritable ==> code.spec_message() == "Recipient account must be writable"@,
        code == payout::ErrorCode::IncorrectAccountCount ==> code.spec_message() == "Incorrect number of remaining accounts"@,
        code == payout::ErrorCode::MintMismatch ==> code.spec_message() == "Mint mismatch across accounts"@,
        code == payout::ErrorCode::DuplicateRecipientAccount ==> code.spec_message() == "Duplicate recipient token account detected"@,
        code == payout::ErrorCode::TotalAmountTooSmall ==> code.spec_message() == "Total amount must be > 0"@,
        code == payout::ErrorCode::TotalAmountMismatch ==> code.spec_message() == "Total amount must equal the sum of recipient amounts"@,
{
}

/// The payout program reports different faults by different errors, each by its own.
pub proof fn law_payout_reports_faults(source: SourceFault, fault: BulkFault)
    ensures
        payout::ErrorCode::of_source_fault(source) == payout::ErrorCode::TotalAmountTooSmall <==> source == SourceFault::NothingToPay,
        payout::ErrorCode::of_source_fault(source) == payout::ErrorCode::InvalidTokenProgram <==> source == SourceFault::TokenProgram,
        payout::ErrorCode::of_source_fault(source) == payout::ErrorCode::InvalidTokenAccountOwner <==> source == SourceFault::Owner,
        payout::ErrorCode::of_source_fault(source) == payout::ErrorCode::MintMismatch <==> source == SourceFault::Mint,
        payout::ErrorCode::of_source_fault(source) == payout::ErrorCode::InsufficientBalance <==> source == SourceFault::Balance,
        payout::ErrorCode::of_bulk_fault(fault) == payout::ErrorCode::TotalAmountTooSmall <==> fault
            == BulkFault::Source(SourceFault::NothingToPay),
        payout::ErrorCode::of_bulk_fault(fault) == payout::ErrorCode::InvalidTokenProgram <==> fault
            == BulkFault::Source(SourceFault::TokenProgram),
        payout::ErrorCode::of_bulk_fault(fault) == payout::ErrorCode::InvalidTokenAccountOwner <==> fault
            == BulkFault::Source(SourceFault::Owner),
        payout::ErrorCode::of_bulk_fault(fault) == payout::ErrorCode::MintMismatch <==> fault
            == BulkFault::Source(SourceFault::Mint),
        payout::ErrorCode::of_bulk_fault(fault) == payout::ErrorCode::InsufficientBalance <==> fault
            == BulkFault::Source(SourceFault::Balance),
        payout::ErrorCode::of_bulk_fault(fault) == payout::ErrorCode::InvalidRecipientCount <==> fault
            == BulkFault::RecipientCount,
        payout::ErrorCode::of_bulk_fault(fault) == payout::ErrorCode::IncorrectAccountCount <==> fault
            == BulkFault::AccountCount,
        payout::ErrorCode::of_bulk_fault(fault) == payout::ErrorCode::RecipientAmountTooSmall <==> fault
            == BulkFault::AmountTooSmall,
        payout::ErrorCode::of_bulk_fault(fault) == payout::ErrorCode::TotalAmountMismatch <==> fault
            == BulkFault::AmountSum,
        payout::ErrorCode::of_bulk_fault(fault) == payout::ErrorCode::RecipientAccountNotWritable <==> fault
            == BulkFault::NotWritable,
        payout::ErrorCode::of_bulk_fault(fault) == payout::ErrorCode::DuplicateRecipientAccount <==> fault
            == BulkFault::Duplicate,
{
}

} // verus!
