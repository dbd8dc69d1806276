use payment_splitter::accounts::{MintAccount, SenderTokenAccount, TransferChecked};
use payment_splitter::amounts::portion;
use payment_splitter::pubkey::Pubkey;
use payment_splitter::splitter::{
    read_token_account, split_payment, ErrorCode, PlatformFeeCollected, SplitPayment, SplitRun,
};
use payment_splitter::token::{AccountMeta, AccountState, TokenAccount};

fn key(n: u8) -> Pubkey {
    Pubkey { bytes: [n; 32] }
}

const SENDER: u8 = 1;
const SOURCE: u8 = 2;
const MINT: u8 = 3;
const OTHER_MINT: u8 = 4;

fn token_program() -> Pubkey {
    Pubkey { bytes: anchor_spl::token::ID.to_bytes() }
}

fn accounts(balance: u64) -> SplitPayment {
    SplitPayment {
        sender: key(SENDER),
        sender_token_account: SenderTokenAccount {
            key: key(SOURCE),
            account: TokenAccount { mint: key(MINT), owner: key(SENDER), amount: balance },
        },
        mint: MintAccount { key: key(MINT), decimals: 6 },
        token_program: token_program(),
        system_program: key(0),
    }
}

/// A packed, initialized token account without delegate, native reserve and close authority.
fn packed(mint: Pubkey, owner: Pubkey, amount: u64) -> Vec<u8> {
    let mut data = vec![0u8; 165];
    data[0..32].copy_from_slice(&mint.bytes);
    data[32..64].copy_from_slice(&owner.bytes);
    data[64..72].copy_from_slice(&amount.to_le_bytes());
    data[108] = 1;
    data
}

fn recipients(count: u8) -> Vec<AccountMeta> {
    (0..count).map(|i| AccountMeta { key: key(100 + i), is_writable: true }).collect()
}

fn state(data: &[u8]) -> AccountState<'_> {
    AccountState { owner: token_program(), lamports: 1, data }
}

fn order(to: Pubkey, amount: u64) -> TransferChecked {
    TransferChecked {
        from: key(SOURCE),
        mint: key(MINT),
        to,
        authority: key(SENDER),
        amount,
        decimals: 6,
    }
}

/// Carries a payment out, with every account a token account of the mint.
fn run_to_end(run: &mut SplitRun) -> Result<Vec<TransferChecked>, ErrorCode> {
    let data = packed(key(MINT), key(9), 0);
    let mut orders = Vec::new();
    while run.is_pending() {
        orders.push(run.next_transfer(&state(&data))?);
    }
    Ok(orders)
}

#[test]
fn splits_with_fee_and_remainder() {
    let mut run =
        split_payment(&accounts(5_000), recipients(4), vec![3_333, 3_333, 3_334], 250, 3, 1, 1_001)
            .unwrap();
    let orders = run_to_end(&mut run).unwrap();
    // The fee is 1001 * 250 / 10000 = 25, and 976 are left: 325, 325 and the remainder 326.
    assert_eq!(
        orders,
        vec![
            order(key(100), 325),
            order(key(101), 325),
            order(key(102), 326),
            order(key(103), 25),
        ]
    );
    let total: u64 = orders.iter().map(|o| o.amount).sum();
    assert_eq!(total, 1_001);
    assert_eq!(
        run.finish(),
        Some(PlatformFeeCollected {
            sender: key(SENDER),
            amount: 25,
            platform_fee_basis_points: 250,
        })
    );
}

#[test]
fn splits_without_fee() {
    let mut run =
        split_payment(&accounts(100), recipients(2), vec![5_000, 5_000], 0, 2, 0, 99).unwrap();
    assert_eq!(run_to_end(&mut run), Ok(vec![order(key(100), 49), order(key(101), 50)]));
    assert_eq!(run.finish(), None);
}

#[test]
fn fee_that_rounds_to_nothing_needs_no_account() {
    let mut run = split_payment(&accounts(9), recipients(1), vec![10_000], 1_000, 1, 0, 9).unwrap();
    assert_eq!(run_to_end(&mut run), Ok(vec![order(key(100), 9)]));
    assert_eq!(run.finish(), None);
}

#[test]
fn splits_the_largest_amount() {
    let mut run = split_payment(
        &accounts(u64::MAX),
        recipients(3),
        vec![9_999, 1],
        1_000,
        2,
        0,
        u64::MAX,
    )
    .unwrap();
    let orders = run_to_end(&mut run).unwrap();
    assert_eq!(orders[2].amount, 1_844_674_407_370_955_161);
    assert_eq!(orders[0].amount, 16_600_409_459_371_962_594);
    assert_eq!(orders[1].amount, 1_660_206_966_633_860);
    let total: u128 = orders.iter().map(|o| o.amount as u128).sum();
    assert_eq!(total, u64::MAX as u128);
}

#[test]
fn last_share_is_at_least_its_part() {
    let mut run = split_payment(
        &accounts(100),
        recipients(6),
        vec![1_667, 1_667, 1_667, 1_667, 1_666, 1_666],
        0,
        6,
        0,
        10,
    )
    .unwrap();
    let amounts: Vec<u64> = run_to_end(&mut run).unwrap().iter().map(|o| o.amount).collect();
    assert_eq!(amounts, vec![1, 1, 1, 1, 1, 5]);
}

#[test]
fn pays_one_account_twice() {
    let twice = vec![recipients(1)[0], recipients(1)[0]];
    let mut run = split_payment(&accounts(10), twice, vec![4_000, 6_000], 0, 2, 0, 10).unwrap();
    assert_eq!(run_to_end(&mut run), Ok(vec![order(key(100), 4), order(key(100), 6)]));
}

#[test]
fn portions_round_down() {
    assert_eq!(portion(10_000, 1), 1);
    assert_eq!(portion(9_999, 1), 0);
    assert_eq!(portion(19_999, 5_000), 9_999);
    assert_eq!(portion(u64::MAX, 10_000), u64::MAX);
}

fn refusal(
    accounts: &SplitPayment,
    count: u8,
    bps: Vec<u16>,
    fee: u16,
    max: u16,
    total: u64,
) -> ErrorCode {
    split_payment(accounts, recipients(count), bps, fee, max, 0, total).unwrap_err()
}

#[test]
fn refuses_recipient_counts() {
    let a = accounts(100);
    assert_eq!(refusal(&a, 0, vec![], 0, 5, 100), ErrorCode::InvalidRecipientCount);
    assert_eq!(refusal(&a, 2, vec![5_000, 5_000], 0, 1, 100), ErrorCode::InvalidRecipientCount);
}

#[test]
fn compares_the_count_as_a_16_bit_number() {
    let a = accounts(100);
    assert_eq!(refusal(&a, 0, vec![1; 65_536], 0, 0, 100), ErrorCode::MathOverflow);
    assert_eq!(refusal(&a, 0, vec![1; 65_538], 0, 1, 100), ErrorCode::InvalidRecipientCount);
}

#[test]
fn refuses_sources() {
    let good = accounts(100);
    assert_eq!(refusal(&good, 1, vec![10_000], 0, 1, 0), ErrorCode::TotalAmountTooSmall);
    let mut a = good;
    a.token_program = key(7);
    assert_eq!(refusal(&a, 1, vec![10_000], 0, 1, 100), ErrorCode::InvalidTokenProgram);
    let mut a = good;
    a.sender_token_account.account.owner = key(7);
    assert_eq!(refusal(&a, 1, vec![10_000], 0, 1, 100), ErrorCode::InvalidTokenAccountOwner);
    let mut a = good;
    a.sender_token_account.account.mint = key(OTHER_MINT);
    assert_eq!(refusal(&a, 1, vec![10_000], 0, 1, 100), ErrorCode::MintMismatch);
    assert_eq!(refusal(&good, 1, vec![10_000], 0, 1, 101), ErrorCode::InsufficientBalance);
}

#[test]
fn refuses_percentages() {
    let a = accounts(100);
    assert_eq!(refusal(&a, 2, vec![10_000, 0], 0, 2, 100), ErrorCode::ZeroPercentage);
    assert_eq!(refusal(&a, 2, vec![5_000, 4_999], 0, 2, 100), ErrorCode::InvalidPercentageSum);
    assert_eq!(refusal(&a, 2, vec![5_000, 5_001], 0, 2, 100), ErrorCode::InvalidPercentageSum);
    assert_eq!(refusal(&a, 3, vec![65_535, 1, 0], 0, 3, 100), ErrorCode::MathOverflow);
    assert_eq!(refusal(&a, 3, vec![65_535, 0, 1], 0, 3, 100), ErrorCode::ZeroPercentage);
}

#[test]
fn refuses_fees_above_a_tenth() {
    let a = accounts(100);
    assert_eq!(refusal(&a, 2, vec![10_000], 1_001, 1, 100), ErrorCode::ExcessiveFee);
    assert!(split_payment(&a, recipients(2), vec![10_000], 1_000, 1, 0, 100).is_ok());
}

#[test]
fn refuses_account_counts() {
    let a = accounts(100);
    assert_eq!(refusal(&a, 1, vec![10_000], 1_000, 1, 100), ErrorCode::IncorrectAccountCount);
    assert_eq!(refusal(&a, 2, vec![10_000], 0, 1, 100), ErrorCode::IncorrectAccountCount);
}

fn one_recipient_and_fee(min: u64) -> SplitRun {
    split_payment(&accounts(100), recipients(2), vec![10_000], 1_000, 1, min, 100).unwrap()
}

#[test]
fn stops_at_unwritable_accounts() {
    let data = packed(key(MINT), key(9), 0);
    let mut metas = recipients(2);
    metas[0].is_writable = false;
    let mut run = split_payment(&accounts(100), metas, vec![10_000], 1_000, 1, 0, 100).unwrap();
    assert_eq!(run.next_transfer(&state(&[])), Err(ErrorCode::RecipientAccountNotWritable));

    let mut metas = recipients(2);
    metas[1].is_writable = false;
    let mut run = split_payment(&accounts(100), metas, vec![10_000], 1_000, 1, 0, 100).unwrap();
    assert_eq!(run.next_transfer(&state(&data)), Ok(order(key(100), 90)));
    assert_eq!(run.next_transfer(&state(&data)), Err(ErrorCode::FeeWalletNotWritable));
    assert!(run.is_pending());
}

#[test]
fn stops_at_accounts_that_hold_no_token_account() {
    let good = packed(key(MINT), key(9), 0);
    let mut run = one_recipient_and_fee(0);
    assert_eq!(run.next_transfer(&state(&good[..164])), Err(ErrorCode::InvalidTokenAccountOwner));
    // The error leaves the run where it was.
    assert_eq!(run.next_transfer(&state(&good)), Ok(order(key(100), 90)));
    assert_eq!(run.next_transfer(&state(&[])), Err(ErrorCode::InvalidTokenAccountOwner));
}

#[test]
fn stops_at_accounts_of_another_mint() {
    let good = packed(key(MINT), key(9), 0);
    let other = packed(key(OTHER_MINT), key(9), 0);
    let mut run = one_recipient_and_fee(0);
    assert_eq!(run.next_transfer(&state(&other)), Err(ErrorCode::MintMismatch));
    assert_eq!(run.next_transfer(&state(&good)), Ok(order(key(100), 90)));
    assert_eq!(run.next_transfer(&state(&other)), Err(ErrorCode::MintMismatch));
}

#[test]
fn stops_at_shares_below_the_floor() {
    let good = packed(key(MINT), key(9), 0);
    let mut run = one_recipient_and_fee(91);
    assert_eq!(run.next_transfer(&state(&good)), Err(ErrorCode::RecipientAmountTooSmall));
    // The floor does not hold for the fee.
    let mut run = one_recipient_and_fee(90);
    assert_eq!(run_to_end(&mut run), Ok(vec![order(key(100), 90), order(key(101), 10)]));
}

#[test]
fn reads_token_accounts_of_any_owner() {
    let data = packed(key(MINT), key(9), 0x0102_0304_0506_0708);
    let account = AccountState { owner: key(77), lamports: 0, data: &data };
    assert_eq!(
        read_token_account(&account),
        Ok(TokenAccount { mint: key(MINT), owner: key(9), amount: 0x0102_0304_0506_0708 })
    );
}

#[test]
fn splitter_errors_have_numbers_and_messages() {
    assert_eq!(ErrorCode::InvalidTokenProgram.number(), 6_000);
    assert_eq!(ErrorCode::MathOverflow.number(), 6_006);
    assert_eq!(ErrorCode::TotalAmountTooSmall.number(), 6_014);
    assert_eq!(
        ErrorCode::InvalidPercentageSum.message(),
        "Percentages must sum to exactly 10000 bps"
    );
    assert_eq!(ErrorCode::TotalAmountTooSmall.message(), "Total amount must be > 0");
}
