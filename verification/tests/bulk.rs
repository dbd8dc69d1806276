use payment_splitter::accounts::{MintAccount, SenderTokenAccount, TransferChecked};
use payment_splitter::bulk::{BulkRun, TransferFault};
use payment_splitter::key_set::KeySet;
use payment_splitter::payout;
use payment_splitter::payout::{BulkPayout, BulkSummary};
use payment_splitter::pubkey::Pubkey;
use payment_splitter::splitter;
use payment_splitter::token::{
    AccountMeta, AccountState, TokenAccount, ACCOUNT_NOT_INITIALIZED,
    ACCOUNT_OWNED_BY_WRONG_PROGRAM, INVALID_ACCOUNT_DATA, UNINITIALIZED_ACCOUNT,
};

fn key(n: u8) -> Pubkey {
    Pubkey { bytes: [n; 32] }
}

fn token_program() -> Pubkey {
    Pubkey { bytes: anchor_spl::token::ID.to_bytes() }
}

fn accounts(balance: u64) -> BulkPayout {
    BulkPayout {
        sender: key(1),
        sender_token_account: SenderTokenAccount {
            key: key(2),
            account: TokenAccount { mint: key(3), owner: key(1), amount: balance },
        },
        mint: MintAccount { key: key(3), decimals: 9 },
        token_program: token_program(),
        system_program: key(0),
    }
}

fn packed(mint: Pubkey) -> Vec<u8> {
    let mut data = vec![0u8; 165];
    data[0..32].copy_from_slice(&mint.bytes);
    data[108] = 1;
    data
}

fn recipients(count: u8) -> Vec<AccountMeta> {
    (0..count).map(|i| AccountMeta { key: key(100 + i), is_writable: true }).collect()
}

fn order(to: Pubkey, amount: u64) -> TransferChecked {
    TransferChecked { from: key(2), mint: key(3), to, authority: key(1), amount, decimals: 9 }
}

fn run_to_end(run: &mut BulkRun) -> Result<Vec<TransferChecked>, TransferFault> {
    let data = packed(key(3));
    let account = AccountState { owner: token_program(), lamports: 1, data: &data };
    let mut orders = Vec::new();
    while run.is_pending() {
        orders.push(run.next_transfer(&account)?);
    }
    Ok(orders)
}

/// Asks both programs for the same payout.
fn both(
    accounts: &BulkPayout,
    metas: Vec<AccountMeta>,
    amounts: Vec<u64>,
    max: u16,
    min: u64,
    total: u64,
) -> (Result<BulkRun, splitter::ErrorCode>, Result<BulkRun, payout::ErrorCode>) {
    (
        splitter::bulk_payout(accounts, metas.clone(), amounts.clone(), max, min, total),
        payout::bulk_payout(accounts, metas, amounts, max, min, total),
    )
}

#[test]
fn pays_exact_amounts() {
    let (a, b) = both(&accounts(60), recipients(3), vec![10, 20, 30], 3, 10, 60);
    for mut run in [a.unwrap(), b.unwrap()] {
        assert_eq!(
            run_to_end(&mut run),
            Ok(vec![order(key(100), 10), order(key(101), 20), order(key(102), 30)])
        );
        assert_eq!(
            run.finish(),
            BulkSummary { sender: key(1), total_recipients: 3, total_amount: 60 }
        );
    }
}

#[test]
fn allows_empty_amounts_without_a_floor() {
    let (a, b) = both(&accounts(5), recipients(2), vec![0, 5], 2, 0, 5);
    for mut run in [a.unwrap(), b.unwrap()] {
        assert_eq!(run_to_end(&mut run), Ok(vec![order(key(100), 0), order(key(101), 5)]));
    }
}

fn refusals(
    accounts: &BulkPayout,
    metas: Vec<AccountMeta>,
    amounts: Vec<u64>,
    max: u16,
    min: u64,
    total: u64,
) -> (splitter::ErrorCode, payout::ErrorCode) {
    let (a, b) = both(accounts, metas, amounts, max, min, total);
    (a.unwrap_err(), b.unwrap_err())
}

#[test]
fn payout_refuses_recipient_counts() {
    let expected = (
        splitter::ErrorCode::InvalidRecipientCount,
        payout::ErrorCode::InvalidRecipientCount,
    );
    assert_eq!(refusals(&accounts(9), recipients(0), vec![], 9, 0, 9), expected);
    assert_eq!(refusals(&accounts(9), recipients(2), vec![4, 5], 1, 0, 9), expected);
    assert_eq!(refusals(&accounts(9), recipients(0), vec![0; 65_537], 1, 0, 9), expected);
}

#[test]
fn payout_refuses_sources() {
    let good = accounts(9);
    assert_eq!(
        refusals(&good, recipients(1), vec![0], 1, 0, 0),
        (splitter::ErrorCode::TotalAmountTooSmall, payout::ErrorCode::TotalAmountTooSmall)
    );
    let mut a = good;
    a.token_program = key(0);
    assert_eq!(
        refusals(&a, recipients(1), vec![9], 1, 0, 9),
        (splitter::ErrorCode::InvalidTokenProgram, payout::ErrorCode::InvalidTokenProgram)
    );
    let mut a = good;
    a.sender = key(8);
    assert_eq!(
        refusals(&a, recipients(1), vec![9], 1, 0, 9),
        (
            splitter::ErrorCode::InvalidTokenAccountOwner,
            payout::ErrorCode::InvalidTokenAccountOwner
        )
    );
    let mut a = good;
    a.mint.key = key(8);
    assert_eq!(
        refusals(&a, recipients(1), vec![9], 1, 0, 9),
        (splitter::ErrorCode::MintMismatch, payout::ErrorCode::MintMismatch)
    );
    assert_eq!(
        refusals(&good, recipients(1), vec![10], 1, 0, 10),
        (splitter::ErrorCode::InsufficientBalance, payout::ErrorCode::InsufficientBalance)
    );
}

#[test]
fn payout_refuses_account_counts() {
    assert_eq!(
        refusals(&accounts(9), recipients(2), vec![9], 2, 0, 9),
        (splitter::ErrorCode::IncorrectAccountCount, payout::ErrorCode::IncorrectAccountCount)
    );
}

#[test]
fn payout_refuses_amounts() {
    assert_eq!(
        refusals(&accounts(9), recipients(2), vec![5, 4], 2, 5, 9),
        (splitter::ErrorCode::RecipientAmountTooSmall, payout::ErrorCode::RecipientAmountTooSmall)
    );
    let mismatch = (splitter::ErrorCode::MathOverflow, payout::ErrorCode::TotalAmountMismatch);
    assert_eq!(refusals(&accounts(9), recipients(2), vec![5, 5], 2, 5, 9), mismatch);
    // The sum is compared in full, not its low 64 bits.
    assert_eq!(refusals(&accounts(9), recipients(2), vec![u64::MAX, 10], 2, 5, 9), mismatch);
}

#[test]
fn payout_refuses_accounts() {
    let mut metas = recipients(3);
    metas[2] = metas[0];
    assert_eq!(
        refusals(&accounts(9), metas.clone(), vec![3, 3, 3], 3, 0, 9),
        (
            splitter::ErrorCode::DuplicateRecipientAccount,
            payout::ErrorCode::DuplicateRecipientAccount
        )
    );
    let unwritable = (
        splitter::ErrorCode::RecipientAccountNotWritable,
        payout::ErrorCode::RecipientAccountNotWritable,
    );
    metas[1].is_writable = false;
    assert_eq!(refusals(&accounts(9), metas.clone(), vec![3, 3, 3], 3, 0, 9), unwritable);
    // At one account, the flag is looked at before the address.
    metas[1].is_writable = true;
    metas[2].is_writable = false;
    assert_eq!(refusals(&accounts(9), metas, vec![3, 3, 3], 3, 0, 9), unwritable);
}

fn transfer_fault(owner: Pubkey, lamports: u64, data: &[u8]) -> TransferFault {
    let mut run =
        payout::bulk_payout(&accounts(9), recipients(1), vec![9], 1, 0, 9).unwrap();
    let account = AccountState { owner, lamports, data };
    let fault = run.next_transfer(&account).unwrap_err();
    assert!(run.is_pending());
    fault
}

#[test]
fn payout_stops_at_accounts_that_do_not_load() {
    let good = packed(key(3));
    assert_eq!(
        transfer_fault(key(0), 0, &good),
        TransferFault::Account(ACCOUNT_NOT_INITIALIZED)
    );
    assert_eq!(
        transfer_fault(key(0), 1, &good),
        TransferFault::Account(ACCOUNT_OWNED_BY_WRONG_PROGRAM)
    );
    assert_eq!(
        transfer_fault(key(8), 0, &good),
        TransferFault::Account(ACCOUNT_OWNED_BY_WRONG_PROGRAM)
    );
    assert_eq!(
        transfer_fault(token_program(), 1, &good[1..]),
        TransferFault::Account(INVALID_ACCOUNT_DATA)
    );
    for at in [72, 75, 109, 112, 129, 132] {
        let mut bad = good.clone();
        bad[at] = 2;
        assert_eq!(
            transfer_fault(token_program(), 1, &bad),
            TransferFault::Account(INVALID_ACCOUNT_DATA)
        );
    }
    let mut bad = good.clone();
    bad[108] = 3;
    assert_eq!(
        transfer_fault(token_program(), 1, &bad),
        TransferFault::Account(INVALID_ACCOUNT_DATA)
    );
    bad[108] = 0;
    assert_eq!(
        transfer_fault(token_program(), 0, &bad),
        TransferFault::Account(UNINITIALIZED_ACCOUNT)
    );
    bad[72] = 2;
    assert_eq!(
        transfer_fault(token_program(), 0, &bad),
        TransferFault::Account(INVALID_ACCOUNT_DATA)
    );
}

#[test]
fn payout_loads_present_options_and_frozen_accounts() {
    let mut data = packed(key(3));
    data[72] = 1;
    data[109] = 1;
    data[129] = 1;
    data[108] = 2;
    let mut run = payout::bulk_payout(&accounts(9), recipients(1), vec![9], 1, 0, 9).unwrap();
    let account = AccountState { owner: token_program(), lamports: 0, data: &data };
    assert_eq!(run.next_transfer(&account), Ok(order(key(100), 9)));
}

#[test]
fn loadable_accounts_can_be_read() {
    let data = packed(key(3));
    let account = AccountState { owner: token_program(), lamports: 1, data: &data };
    let mut run = payout::bulk_payout(&accounts(9), recipients(1), vec![9], 1, 0, 9).unwrap();
    assert!(run.next_transfer(&account).is_ok());
    assert_eq!(
        splitter::read_token_account(&account),
        Ok(TokenAccount { mint: key(3), owner: key(0), amount: 0 })
    );
}

#[test]
fn payout_stops_at_accounts_of_another_mint() {
    assert_eq!(
        transfer_fault(token_program(), 1, &packed(key(4))),
        TransferFault::MintMismatch
    );
}

#[test]
fn payout_errors_have_numbers_and_messages() {
    assert_eq!(payout::ErrorCode::InvalidTokenProgram.number(), 6_000);
    assert_eq!(payout::ErrorCode::MintMismatch.number(), 6_008);
    assert_eq!(payout::ErrorCode::TotalAmountMismatch.number(), 6_011);
    assert_eq!(
        payout::ErrorCode::TotalAmountMismatch.message(),
        "Total amount must equal the sum of recipient amounts"
    );
}

#[test]
fn key_sets_tell_addresses_apart() {
    let mut set = KeySet::new();
    let mut low = key(5);
    low.bytes[0] = 6;
    let mut high = key(5);
    high.bytes[31] = 6;
    assert!(set.insert(key(5)));
    assert!(set.insert(low));
    assert!(set.insert(high));
    assert!(!set.insert(low));
    assert!(key(5) == key(5));
    assert!(low != high);
}
