//! What holds of payments as a whole.

use crate::accounts::TransferChecked;
use crate::amounts;
use crate::amounts::MAX_BPS;
use crate::bulk;
use crate::bulk::{BulkState, TransferFault};
use crate::payout;
use crate::splitter;
use crate::splitter::{ErrorCode, SplitState, MAX_PLATFORM_FEE_BPS};
use crate::token;
use crate::token::AccountStateView;
use vstd::prelude::*;

verus! {

/// What a list of transfers moves in all.
pub open spec fn sum_transfers(transfers: Seq<TransferChecked>) -> int
    decreases transfers.len(),
{
    if transfers.len() == 0 {
        0
    } else {
        transfers.first().amount + sum_transfers(transfers.drop_first())
    }
}

/// The transfers that a split payment orders from `state` on, up to the first error.
/// `accounts[i]` is the state of remaining account `i` at the time when its turn comes.
pub open spec fn split_transfers(state: SplitState, accounts: Seq<AccountStateView>) -> Seq<
    TransferChecked,
>
    decreases state.remaining_accounts.len() - state.next,
{
    if state.next >= state.remaining_accounts.len() {
        Seq::empty()
    } else {
        match state.step(accounts[state.next as int]) {
            Ok(transfer) => seq![transfer] + split_transfers(state.advanced(), accounts),
            Err(_) => Seq::empty(),
        }
    }
}

/// The error that stops a split payment from `state` on, if there is one.
pub open spec fn split_error(state: SplitState, accounts: Seq<AccountStateView>) -> Option<
    ErrorCode,
>
    decreases state.remaining_accounts.len() - state.next,
{
    if state.next >= state.remaining_accounts.len() {
        None
    } else {
        match state.step(accounts[state.next as int]) {
            Ok(_) => split_error(state.advanced(), accounts),
            Err(code) => Some(code),
        }
    }
}

/// The transfers that a bulk payout orders from `state` on, up to the first error.
/// `accounts[i]` is the state of remaining account `i` at the time when its turn comes.
pub open spec fn bulk_transfers(state: BulkState, accounts: Seq<AccountStateView>) -> Seq<
    TransferChecked,
>
    decreases state.remaining_accounts.len() - state.next,
{
    if state.next >= state.remaining_accounts.len() {
        Seq::empty()
    } else {
        match state.step(accounts[state.next as int]) {
            Ok(transfer) => seq![transfer] + bulk_transfers(state.advanced(), accounts),
            Err(_) => Seq::empty(),
        }
    }
}

/// The error that stops a bulk payout from `state` on, if there is one.
pub open spec fn bulk_error(state: BulkState, accounts: Seq<AccountStateView>) -> Option<
    TransferFault,
>
    decreases state.remaining_accounts.len() - state.next,
{
    if state.next >= state.remaining_accounts.len() {
        None
    } else {
        match state.step(accounts[state.next as int]) {
            Ok(_) => bulk_error(state.advanced(), accounts),
            Err(fault) => Some(fault),
        }
    }
}

/// The platform fee is at most a tenth of the payment, and what is left is for the recipients.
pub proof fn law_fee_is_capped(state: SplitState)
    requires
        state.platform_fee_basis_points <= MAX_PLATFORM_FEE_BPS,
    ensures
        0 <= state.fee_amount(),
        10 * state.fee_amount() <= state.total_amount,
        state.fee_amount() + state.distributable() == state.total_amount,
        state.platform_fee_basis_points == 0 ==> state.fee_amount() == 0,
{
    let total = state.total_amount as int;
    let fee = state.platform_fee_basis_points as int;
    amounts::lemma_portion_bounds(total, fee);
    assert(total * fee <= total * 1_000) by (nonlinear_arith)
        requires
            0 <= total,
            fee <= 1_000,
    ;
    if fee == 0 {
        assert(total * fee == 0) by (nonlinear_arith)
            requires
                fee == 0,
        ;
    }
}

/// The shares of the recipients sum to exactly what is there to distribute: rounding loses
/// nothing.
pub proof fn law_shares_sum_to_whole(amount: int, bps: Seq<u16>)
    requires
        0 <= amount,
        bps.len() > 0,
        amounts::is_whole(bps),
    ensures
        amounts::sum_shares(amount, bps, bps.len()) == amount,
{
    let last = (bps.len() - 1) as nat;
    lemma_shares_are_portions(amount, bps, last);
}

/// Before the last recipient, shares are portions.
proof fn lemma_shares_are_portions(amount: int, bps: Seq<u16>, count: nat)
    requires
        count < bps.len(),
    ensures
        amounts::sum_shares(amount, bps, count) == amounts::sum_portions(amount, bps, count),
    decreases count,
{
    if count > 0 {
        lemma_shares_are_portions(amount, bps, (count - 1) as nat);
    }
}

/// Every share is what the percentage says, but for rounding: all recipients but the last get
/// their exact part rounded down, and the last gets at least its exact part, with less than one
/// unit more for each of the others.
pub proof fn law_shares_follow_percentages(amount: int, bps: Seq<u16>, i: nat)
    requires
        0 <= amount,
        i < bps.len(),
        amounts::is_whole(bps),
    ensures
        0 <= amounts::share_of(amount, bps, i) <= amount,
        i < bps.len() - 1 ==> amounts::share_of(amount, bps, i) * MAX_BPS <= amount * bps[i as int]
            < (amounts::share_of(amount, bps, i) + 1) * MAX_BPS,
        i == bps.len() - 1 ==> amount * bps[i as int] <= amounts::share_of(amount, bps, i) * MAX_BPS,
        bps.len() == 1 ==> amounts::share_of(amount, bps, i) == amount,
        i == bps.len() - 1 && bps.len() > 1 ==> amounts::share_of(amount, bps, i) * MAX_BPS
            < amount * bps[i as int] + (bps.len() - 1) * MAX_BPS,
{
    let b = bps[i as int] as int;
    amounts::lemma_bps_le_sum(bps, i as int);
    amounts::lemma_portion_bounds(amount, b);
    if i == bps.len() - 1 {
        amounts::lemma_sum_portions_bounds(amount, bps, i);
        let s = amounts::sum_bps(bps.take(i as int));
        assert(bps.take(i as int) =~= bps.drop_last());
        assert(s + b == 10_000);
        assert(amount * s + amount * b == amount * 10_000) by (nonlinear_arith)
            requires
                s + b == 10_000,
        ;
    }
}

/// A request to split a payment is accepted exactly if there is a recipient, and no more than the
/// cap, the percentages are positive and make up the whole, the fee is at most a tenth, the source
/// can pay, and the right number of accounts follow.
///
/// Counts of 65536 recipients and more, which only meet the cap as 16-bit numbers, are never
/// accepted, since the percentages are positive.
pub proof fn law_split_acceptance(request: SplitState, max_recipients: u16)
    requires
        request.next == 0,
    ensures
        request.request_fault(max_recipients) is None <==> request.is_accepted()
            && request.percentages_bps.len() <= max_recipients,
{
    let n = request.percentages_bps.len();
    splitter::lemma_whole(request.percentages_bps);
    if amounts::is_whole(request.percentages_bps) {
        splitter::lemma_whole_is_short(request.percentages_bps);
        assert(n % 0x1_0000 == n);
    }
}

/// A transfer keeps an accepted payment accepted.
pub proof fn law_split_stays_accepted(state: SplitState, account: AccountStateView)
    requires
        state.is_accepted(),
        state.next < state.remaining_accounts.len(),
        state.step(account) is Ok,
    ensures
        state.advanced().is_accepted(),
{
}

/// What the first `count` transfers of a split payment move.
pub open spec fn split_paid(state: SplitState, count: nat) -> int
    decreases count,
{
    if count == 0 {
        0
    } else {
        split_paid(state, (count - 1) as nat) + state.amount_of((count - 1) as nat)
    }
}

/// Every amount of an accepted payment lies between nothing and the total.
proof fn lemma_split_amount_fits(state: SplitState, i: nat)
    requires
        state.is_accepted(),
        i < state.remaining_accounts.len(),
    ensures
        0 <= state.amount_of(i) <= state.total_amount,
{
    law_fee_is_capped(state);
    if i < state.percentages_bps.len() {
        law_shares_follow_percentages(state.distributable(), state.percentages_bps, i);
    }
}

/// The first recipients are paid their shares.
proof fn lemma_split_paid_is_shares(state: SplitState, count: nat)
    requires
        count <= state.percentages_bps.len(),
    ensures
        split_paid(state, count) == amounts::sum_shares(
            state.distributable(),
            state.percentages_bps,
            count,
        ),
    decreases count,
{
    if count > 0 {
        lemma_split_paid_is_shares(state, (count - 1) as nat);
    }
}

/// All transfers of an accepted payment together move its total.
proof fn lemma_split_paid_in_full(state: SplitState)
    requires
        state.is_accepted(),
    ensures
        split_paid(state, state.remaining_accounts.len()) == state.total_amount,
{
    let n = state.percentages_bps.len();
    law_fee_is_capped(state);
    lemma_split_paid_is_shares(state, n);
    law_shares_sum_to_whole(state.distributable(), state.percentages_bps);
}

/// Fewer transfers move no more.
proof fn lemma_split_paid_monotone(state: SplitState, count: nat)
    requires
        state.is_accepted(),
        count <= state.remaining_accounts.len(),
    ensures
        split_paid(state, count) <= state.total_amount,
    decreases state.remaining_accounts.len() - count,
{
    if count == state.remaining_accounts.len() {
        lemma_split_paid_in_full(state);
    } else {
        lemma_split_paid_monotone(state, count + 1);
        lemma_split_amount_fits(state, count);
    }
}

/// The amounts of a payment do not depend on how far it has been carried out.
proof fn lemma_split_paid_ignores_next(state: SplitState, count: nat)
    ensures
        split_paid(state.advanced(), count) == split_paid(state, count),
    decreases count,
{
    if count > 0 {
        lemma_split_paid_ignores_next(state, (count - 1) as nat);
    }
}

/// `transfer` is the one that a split payment owes to its remaining account `i`: it moves that
/// account's amount of the mint from the sender's account, by right of the sender, and a recipient
/// gets no less than the floor. The account is writable and, in the state `account`, holds tokens
/// of the mint.
pub open spec fn is_split_transfer(
    state: SplitState,
    i: int,
    account: AccountStateView,
    transfer: TransferChecked,
) -> bool {
    let to = state.remaining_accounts[i];
    &&& transfer.amount == state.amount_of(i as nat)
    &&& transfer.from == state.accounts.sender_token_account.key
    &&& transfer.mint == state.accounts.mint.key
    &&& transfer.to == to.key
    &&& transfer.authority == state.accounts.sender
    &&& transfer.decimals == state.accounts.mint.decimals
    &&& to.is_writable
    &&& token::unpack_error(account.data) is None
    &&& token::packed_mint(account.data) == state.accounts.mint.key@
    &&& i < state.percentages_bps.len() ==> transfer.amount >= state.min_transfer_amount
}

/// What a payment orders from `state` on: the transfers continue the amounts where they stand, and
/// go on to the end unless an error stops them.
proof fn lemma_split_run(state: SplitState, accounts: Seq<AccountStateView>)
    requires
        state.is_accepted(),
        accounts.len() == state.remaining_accounts.len(),
    ensures
        ({
            let transfers = split_transfers(state, accounts);
            let reached = state.next + transfers.len();
            &&& reached <= state.remaining_accounts.len()
            &&& split_paid(state, state.next) + sum_transfers(transfers) == split_paid(
                state,
                reached,
            )
            &&& split_error(state, accounts) is None <==> reached == state.remaining_accounts.len()
            &&& forall|k: int|
                0 <= k < transfers.len() ==> is_split_transfer(
                    state,
                    state.next + k,
                    accounts[state.next + k],
                    #[trigger] transfers[k],
                )
        }),
    decreases state.remaining_accounts.len() - state.next,
{
    if state.next < state.remaining_accounts.len() {
        lemma_split_amount_fits(state, state.next);
        match state.step(accounts[state.next as int]) {
            Ok(transfer) => {
                let after = state.advanced();
                let rest = split_transfers(after, accounts);
                let transfers = split_transfers(state, accounts);
                lemma_split_run(after, accounts);
                lemma_split_paid_ignores_next(state, after.next);
                lemma_split_paid_ignores_next(state, after.next + rest.len());
                assert(transfers.drop_first() =~= rest);
                assert(forall|i: nat| #[trigger] after.amount_of(i) == state.amount_of(i));
                assert forall|k: int| 0 <= k < transfers.len() implies is_split_transfer(
                    state,
                    state.next + k,
                    accounts[state.next + k],
                    #[trigger] transfers[k],
                ) by {
                    if k > 0 {
                        assert(transfers[k] == rest[k - 1]);
                        assert(is_split_transfer(
                            after,
                            after.next + (k - 1),
                            accounts[after.next + (k - 1)],
                            rest[k - 1],
                        ));
                    }
                }
            },
            Err(_) => {},
        }
    }
}

/// A split payment never spends more than its total, nor more than the source held, and one that
/// no error stops spends exactly its total.
pub proof fn law_split_spends_total(request: SplitState, accounts: Seq<AccountStateView>)
    requires
        request.next == 0,
        request.is_accepted(),
        accounts.len() == request.remaining_accounts.len(),
    ensures
        ({
            let spent = sum_transfers(split_transfers(request, accounts));
            &&& 0 <= spent <= request.total_amount
            &&& spent <= request.accounts.sender_token_account.account.amount
            &&& split_error(request, accounts) is None ==> spent == request.total_amount
        }),
{
    lemma_split_run(request, accounts);
    let transfers = split_transfers(request, accounts);
    lemma_split_paid_monotone(request, transfers.len());
    lemma_split_paid_in_full(request);
    lemma_sum_transfers_positive(transfers);
}

/// Transfers move no negative amount.
proof fn lemma_sum_transfers_positive(transfers: Seq<TransferChecked>)
    ensures
        0 <= sum_transfers(transfers),
    decreases transfers.len(),
{
    if transfers.len() > 0 {
        lemma_sum_transfers_positive(transfers.drop_first());
    }
}

/// The transfers of a split payment go, in order, to the remaining accounts: to each recipient its
/// share, not below the floor, and then to the fee account the fee. Each takes tokens of the mint
/// from the sender's account, by right of the sender, and goes to a writable account that holds
/// tokens of the mint. Without an error every account gets its transfer.
pub proof fn law_split_orders_each_share(request: SplitState, accounts: Seq<AccountStateView>)
    requires
        request.next == 0,
        request.is_accepted(),
        accounts.len() == request.remaining_accounts.len(),
    ensures
        ({
            let transfers = split_transfers(request, accounts);
            &&& transfers.len() <= request.remaining_accounts.len()
            &&& split_error(request, accounts) is None <==> transfers.len()
                == request.remaining_accounts.len()
            &&& forall|k: int|
                0 <= k < transfers.len() ==> is_split_transfer(
                    request,
                    k,
                    accounts[k],
                    #[trigger] transfers[k],
                )
        }),
{
    lemma_split_run(request, accounts);
}

/// Remaining account `i` of a split payment, in the state `account`, can take its transfer.
pub open spec fn can_take_share(state: SplitState, i: int, account: AccountStateView) -> bool {
    &&& state.remaining_accounts[i].is_writable
    &&& token::unpack_error(account.data) is None
    &&& token::packed_mint(account.data) == state.accounts.mint.key@
    &&& i < state.percentages_bps.len() ==> state.amount_of(i as nat) >= state.min_transfer_amount
}

/// A split payment goes through exactly if every remaining account can take its transfer.
pub proof fn law_split_goes_through(request: SplitState, accounts: Seq<AccountStateView>)
    requires
        request.next <= request.remaining_accounts.len(),
        accounts.len() == request.remaining_accounts.len(),
    ensures
        split_error(request, accounts) is None <==> forall|i: int|
            request.next <= i < accounts.len() ==> can_take_share(
                request,
                i,
                #[trigger] accounts[i],
            ),
    decreases request.remaining_accounts.len() - request.next,
{
    let next = request.next as int;
    if next < request.remaining_accounts.len() {
        let after = request.advanced();
        law_split_goes_through(after, accounts);
        assert(forall|i: nat| #[trigger] after.amount_of(i) == request.amount_of(i));
        assert(forall|i: int|
            can_take_share(after, i, #[trigger] accounts[i]) == can_take_share(
                request,
                i,
                accounts[i],
            ));
        assert(request.step(accounts[next]) is Ok <==> can_take_share(
            request,
            next,
            accounts[next],
        ));
    }
}

/// A split payment that goes through reports a fee exactly if its last transfer was one for the
/// fee, and reports the amount that this transfer moved.
pub proof fn law_fee_is_reported(request: SplitState, accounts: Seq<AccountStateView>)
    requires
        request.next == 0,
        request.is_accepted(),
        accounts.len() == request.remaining_accounts.len(),
        split_error(request, accounts) is None,
    ensures
        ({
            let transfers = split_transfers(request, accounts);
            match request.event() {
                Some(event) => {
                    &&& transfers.len() == request.percentages_bps.len() + 1
                    &&& transfers.last().amount == event.amount
                    &&& event.amount > 0
                    &&& event.sender == request.accounts.sender
                    &&& event.platform_fee_basis_points == request.platform_fee_basis_points
                },
                None => transfers.len() == request.percentages_bps.len(),
            }
        }),
{
    lemma_split_run(request, accounts);
    law_fee_is_capped(request);
    let transfers = split_transfers(request, accounts);
    if transfers.len() > 0 {
        let k = transfers.len() - 1;
        assert(is_split_transfer(request, k, accounts[k], transfers[k]));
    }
}

/// A request for a bulk payout is accepted exactly if there is a recipient, and no more than the
/// cap, one writable account follows for each amount, none of them twice, no amount is below the
/// floor, the amounts sum to the total, and the source can pay it.
pub proof fn law_bulk_acceptance(request: BulkState, max_recipients: u16)
    requires
        request.next == 0,
    ensures
        request.request_fault(max_recipients) is None <==> request.is_accepted()
            && request.amounts.len() <= max_recipients,
{
    bulk::lemma_recipients(request.remaining_accounts);
    if request.request_fault(max_recipients) is None {
        assert forall|i: int| 0 <= i < request.amounts.len() implies request.amounts[i]
            >= request.min_transfer_amount by {}
    }
}

/// The recipients of an accepted payout are all writable and all different.
pub proof fn law_bulk_recipients_differ(state: BulkState, i: int, j: int)
    requires
        state.is_accepted(),
        0 <= i < state.remaining_accounts.len(),
        0 <= j < state.remaining_accounts.len(),
    ensures
        state.remaining_accounts[i].is_writable,
        i != j ==> state.remaining_accounts[i].key@ != state.remaining_accounts[j].key@,
{
}

/// A transfer keeps an accepted payout accepted.
pub proof fn law_bulk_stays_accepted(state: BulkState, account: AccountStateView)
    requires
        state.is_accepted(),
        state.next < state.remaining_accounts.len(),
        state.step(account) is Ok,
    ensures
        state.advanced().is_accepted(),
{
}

/// `transfer` is the one that a bulk payout owes to its remaining account `i`: it moves that
/// recipient's amount of the mint from the sender's account, by right of the sender, and no less
/// than the floor. In the state `account` the recipient's account loads as a token account that
/// holds tokens of the mint.
pub open spec fn is_bulk_transfer(
    state: BulkState,
    i: int,
    account: AccountStateView,
    transfer: TransferChecked,
) -> bool {
    &&& transfer.amount == state.amounts[i]
    &&& transfer.from == state.accounts.sender_token_account.key
    &&& transfer.mint == state.accounts.mint.key
    &&& transfer.to == state.remaining_accounts[i].key
    &&& transfer.authority == state.accounts.sender
    &&& transfer.decimals == state.accounts.mint.decimals
    &&& transfer.amount >= state.min_transfer_amount
    &&& token::load_error(account) is None
    &&& token::packed_mint(account.data) == state.accounts.mint.key@
}

/// What a payout orders from `state` on: the transfers continue the amounts where they stand, and
/// go on to the end unless an error stops them.
proof fn lemma_bulk_run(state: BulkState, accounts: Seq<AccountStateView>)
    requires
        state.is_accepted(),
        accounts.len() == state.remaining_accounts.len(),
    ensures
        ({
            let transfers = bulk_transfers(state, accounts);
            let reached = state.next + transfers.len();
            &&& reached <= state.amounts.len()
            &&& amounts::sum_amounts(state.amounts.take(state.next as int)) + sum_transfers(
                transfers,
            ) == amounts::sum_amounts(state.amounts.take(reached as int))
            &&& bulk_error(state, accounts) is None <==> reached == state.amounts.len()
            &&& forall|k: int|
                0 <= k < transfers.len() ==> is_bulk_transfer(
                    state,
                    state.next + k,
                    accounts[state.next + k],
                    #[trigger] transfers[k],
                )
        }),
    decreases state.remaining_accounts.len() - state.next,
{
    if state.next < state.remaining_accounts.len() {
        match state.step(accounts[state.next as int]) {
            Ok(transfer) => {
                let after = state.advanced();
                let rest = bulk_transfers(after, accounts);
                let transfers = bulk_transfers(state, accounts);
                lemma_bulk_run(after, accounts);
                assert(transfers.drop_first() =~= rest);
                let paid = state.amounts.take(after.next as int);
                assert(paid.drop_last() =~= state.amounts.take(state.next as int));
                assert(paid.last() == transfer.amount);
                assert forall|k: int| 0 <= k < transfers.len() implies is_bulk_transfer(
                    state,
                    state.next + k,
                    accounts[state.next + k],
                    #[trigger] transfers[k],
                ) by {
                    if k > 0 {
                        assert(transfers[k] == rest[k - 1]);
                        assert(is_bulk_transfer(
                            after,
                            after.next + (k - 1),
                            accounts[after.next + (k - 1)],
                            rest[k - 1],
                        ));
                    }
                }
            },
            Err(_) => {},
        }
    }
}

/// A bulk payout never spends more than its total, nor more than the source held, and one that no
/// error stops spends exactly its total.
pub proof fn law_bulk_spends_total(request: BulkState, accounts: Seq<AccountStateView>)
    requires
        request.next == 0,
        request.is_accepted(),
        accounts.len() == request.remaining_accounts.len(),
    ensures
        ({
            let spent = sum_transfers(bulk_transfers(request, accounts));
            &&& 0 <= spent <= request.total_amount
            &&& spent <= request.accounts.sender_token_account.account.amount
            &&& bulk_error(request, accounts) is None ==> spent == request.total_amount
        }),
{
    lemma_bulk_run(request, accounts);
    let transfers = bulk_transfers(request, accounts);
    assert(request.amounts.take(0) =~= Seq::<u64>::empty());
    amounts::lemma_sum_amounts_take(request.amounts, transfers.len());
    assert(request.amounts.take(request.amounts.len() as int) =~= request.amounts);
    lemma_sum_transfers_positive(transfers);
}

/// The transfers of a bulk payout go, in order, to the remaining accounts, to each its exact
/// amount. Without an error every account gets its transfer.
pub proof fn law_bulk_orders_each_amount(request: BulkState, accounts: Seq<AccountStateView>)
    requires
        request.next == 0,
        request.is_accepted(),
        accounts.len() == request.remaining_accounts.len(),
    ensures
        ({
            let transfers = bulk_transfers(request, accounts);
            &&& transfers.len() <= request.remaining_accounts.len()
            &&& bulk_error(request, accounts) is None <==> transfers.len()
                == request.remaining_accounts.len()
            &&& forall|k: int|
                0 <= k < transfers.len() ==> is_bulk_transfer(
                    request,
                    k,
                    accounts[k],
                    #[trigger] transfers[k],
                )
        }),
{
    lemma_bulk_run(request, accounts);
}

/// A bulk payout goes through exactly if every remaining account loads as a token account of the
/// mint.
pub proof fn law_bulk_goes_through(request: BulkState, accounts: Seq<AccountStateView>)
    requires
        request.next <= request.remaining_accounts.len(),
        accounts.len() == request.remaining_accounts.len(),
    ensures
        bulk_error(request, accounts) is None <==> forall|i: int|
            request.next <= i < accounts.len() ==> {
                &&& token::load_error(#[trigger] accounts[i]) is None
                &&& token::packed_mint(accounts[i].data) == request.accounts.mint.key@
            },
    decreases request.remaining_accounts.len() - request.next,
{
    let next = request.next as int;
    if next < request.remaining_accounts.len() {
        law_bulk_goes_through(request.advanced(), accounts);
        assert(request.step(accounts[next]) is Ok <==> {
            &&& token::load_error(accounts[next]) is None
            &&& token::packed_mint(accounts[next].data) == request.accounts.mint.key@
        });
    }
}

/// What transfers move in all is the plain sum of their amounts.
pub proof fn law_sum_transfers_is_plain(transfers: Seq<TransferChecked>, transfer: TransferChecked)
    ensures
        sum_transfers(Seq::<TransferChecked>::empty()) == 0,
        sum_transfers(transfers.push(transfer)) == sum_transfers(transfers) + transfer.amount,
    decreases transfers.len(),
{
    let pushed = transfers.push(transfer);
    if transfers.len() == 0 {
        assert(pushed.drop_first() =~= Seq::<TransferChecked>::empty());
    } else {
        law_sum_transfers_is_plain(transfers.drop_first(), transfer);
        assert(pushed.drop_first() =~= transfers.drop_first().push(transfer));
    }
}

/// The summary of a bulk payout that no error stops agrees with its transfers: it counts them, and
/// names the sum that they moved and the sender who paid it.
pub proof fn law_bulk_is_reported(request: BulkState, accounts: Seq<AccountStateView>)
    requires
        request.next == 0,
        request.is_accepted(),
        accounts.len() == request.remaining_accounts.len(),
        bulk_error(request, accounts) is None,
    ensures
        ({
            let transfers = bulk_transfers(request, accounts);
            let summary = request.summary();
            &&& summary.total_recipients == transfers.len()
            &&& summary.total_amount == sum_transfers(transfers)
            &&& summary.total_amount == request.total_amount
            &&& summary.sender == request.accounts.sender
        }),
{
    law_bulk_orders_each_amount(request, accounts);
    law_bulk_spends_total(request, accounts);
}

/// An account that loads as a token account can also be read without regard to its owner.
pub proof fn law_loadable_is_readable(account: AccountStateView)
    requires
        token::load_error(account) is None,
    ensures
        token::unpack_error(account.data) is None,
        account.owner == token::token_program_address(),
{
}

/// Different errors of the splitter program have different numbers.
pub proof fn law_splitter_numbers_differ(a: ErrorCode, b: ErrorCode)
    ensures
        a.spec_number() == b.spec_number() <==> a == b,
{
}

/// Different errors of the payout program have different numbers.
pub proof fn law_payout_numbers_differ(a: payout::ErrorCode, b: payout::ErrorCode)
    ensures
        a.spec_number() == b.spec_number() <==> a == b,
{
}

} // verus!
