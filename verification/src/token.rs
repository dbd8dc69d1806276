//! Token accounts as the token program lays them out, and the calls that read them.

use crate::pubkey::Pubkey;
use anchor_lang::solana_program::account_info::AccountInfo;
use anchor_lang::solana_program::program_error::ProgramError;
use anchor_lang::AccountDeserialize;
use vstd::bytes;
use vstd::prelude::*;

verus! {

/// What a payment reads of a token account.
#[derive(Clone, Copy, Debug, PartialEq, Eq)]
pub struct TokenAccount {
    /// The mint whose tokens the account holds.
    pub mint: Pubkey,
    /// Who may spend from the account.
    pub owner: Pubkey,
    /// How many base units the account holds.
    pub amount: u64,
}

/// An account that the caller of an instruction passed along.
#[derive(Clone, Copy, Debug, PartialEq, Eq)]
pub struct AccountMeta {
    pub key: Pubkey,
    pub is_writable: bool,
}

/// The part of an account that instructions change, as it stands at one moment.
#[derive(Clone, Copy, Debug)]
pub struct AccountState<'a> {
    /// The program that owns the account.
    pub owner: Pubkey,
    pub lamports: u64,
    pub data: &'a [u8],
}

/// The mathematical value of an [`AccountState`].
pub struct AccountStateView {
    pub owner: Seq<u8>,
    pub lamports: u64,
    pub data: Seq<u8>,
}

impl<'a> View for AccountState<'a> {
    type V = AccountStateView;

    open spec fn view(&self) -> AccountStateView {
        AccountStateView { owner: self.owner@, lamports: self.lamports, data: self.data@ }
    }
}

/// The runtime's number for "invalid account data".
pub const INVALID_ACCOUNT_DATA: u64 = 0x4_0000_0000;

/// The runtime's number for "uninitialized account".
pub const UNINITIALIZED_ACCOUNT: u64 = 0xa_0000_0000;

/// The number of the framework's error "account owned by wrong program".
pub const ACCOUNT_OWNED_BY_WRONG_PROGRAM: u64 = 3007;

/// The number of the framework's error "account not initialized".
pub const ACCOUNT_NOT_INITIALIZED: u64 = 3012;

/// The address of the token program,
/// `TokenkegQfeZyiNwAJbNbGKPFXCWuBvf9Ss623VQ5DA`.
pub open spec fn token_program_address() -> Seq<u8> {
    seq![
        6u8, 221, 246, 225, 215, 101, 161, 147, 217, 203, 225, 70, 206, 235, 121, 172,
        28, 180, 133, 237, 95, 91, 55, 145, 58, 140, 245, 133, 126, 255, 0, 169,
    ]
}

/// The address of the system program: 32 zero bytes.
pub open spec fn system_program_address() -> Seq<u8> {
    Seq::new(32, |i: int| 0u8)
}

/// At `at` stands the four-byte mark of an absent (0) or a present (1) optional value.
pub open spec fn has_option_tag(data: Seq<u8>, at: int) -> bool {
    data[at] <= 1 && data[at + 1] == 0 && data[at + 2] == 0 && data[at + 3] == 0
}

/// The error for which `data` is no packed token account, if there is one.
///
/// A packed account has 165 bytes: mint (32), owner (32), amount (8), optional delegate (4 + 32),
/// state (1), optional native reserve (4 + 8), delegated amount (8) and optional close
/// authority (4 + 32). The state is 0 for uninitialized, 1 for initialized, 2 for frozen.
pub open spec fn unpack_error(data: Seq<u8>) -> Option<u64> {
    if data.len() != 165 || !has_option_tag(data, 72) || data[108] > 2
        || !has_option_tag(data, 109) || !has_option_tag(data, 129) {
        Some(INVALID_ACCOUNT_DATA)
    } else if data[108] == 0 {
        Some(UNINITIALIZED_ACCOUNT)
    } else {
        None
    }
}

/// The mint that a packed token account names.
pub open spec fn packed_mint(data: Seq<u8>) -> Seq<u8> {
    data.subrange(0, 32)
}

impl TokenAccount {
    /// The account holds what `data` says in packed form.
    pub open spec fn is_packed_as(self, data: Seq<u8>) -> bool {
        &&& self.mint@ == packed_mint(data)
        &&& self.owner@ == data.subrange(32, 64)
        &&& self.amount == bytes::spec_u64_from_le_bytes(data.subrange(64, 72))
    }
}

/// The error for which an account cannot be loaded as a token account, if there is one.
pub open spec fn load_error(account: AccountStateView) -> Option<u64> {
    if account.owner == system_program_address() && account.lamports == 0 {
        Some(ACCOUNT_NOT_INITIALIZED)
    } else if account.owner != token_program_address() {
        Some(ACCOUNT_OWNED_BY_WRONG_PROGRAM)
    } else {
        unpack_error(account.data)
    }
}

/// The constant `anchor_spl::token::ID`, claimed to be the address of the token program.
#[verifier::external_body]
pub(crate) fn token_program_id() -> (id: Pubkey)
    ensures
        id@ == token_program_address(),
{
    Pubkey { bytes: anchor_spl::token::ID.to_bytes() }
}

/// Calls `anchor_spl::token::TokenAccount::try_deserialize_unchecked`.
///
/// Claimed: it unpacks exactly the packed token accounts that are not uninitialized, gives back
/// their mint, owner and amount, and on other bytes fails with the error whose number, which
/// `ProgramError` converts it to, [`unpack_error`] gives.
#[verifier::external_body]
pub(crate) fn try_deserialize_unchecked(data: &[u8]) -> (r: Result<TokenAccount, u64>)
    ensures
        match unpack_error(data@) {
            Some(number) => r == Err::<TokenAccount, u64>(number),
            None => r matches Ok(account) && account.is_packed_as(data@),
        },
{
    let mut slice: &[u8] = data;
    match anchor_spl::token::TokenAccount::try_deserialize_unchecked(&mut slice) {
        Ok(account) => Ok(TokenAccount {
            mint: Pubkey { bytes: account.mint.to_bytes() },
            owner: Pubkey { bytes: account.owner.to_bytes() },
            amount: account.amount,
        }),
        Err(error) => Err(u64::from(ProgramError::from(error))),
    }
}

/// Calls `anchor_lang::accounts::account::Account::<anchor_spl::token::TokenAccount>::try_from`
/// on an account in the given state.
///
/// Claimed: it refuses an account of the system program without lamports, then one that another
/// program than the token program owns, then one whose data is no packed token account, with the
/// error whose number, which `ProgramError` converts it to, [`load_error`] gives; of any other
/// account it gives back the mint, owner and amount that the data holds.
#[verifier::external_body]
pub(crate) fn try_load(account: &AccountState) -> (r: Result<TokenAccount, u64>)
    ensures
        match load_error(account@) {
            Some(number) => r == Err::<TokenAccount, u64>(number),
            None => r matches Ok(loaded) && loaded.is_packed_as(account.data@),
        },
{
    let key = anchor_lang::prelude::Pubkey::default();
    let owner = anchor_lang::prelude::Pubkey::new_from_array(account.owner.bytes);
    let (mut lamports, mut data) = (account.lamports, account.data.to_vec());
    let info = AccountInfo::new(&key, false, true, &mut lamports, &mut data, &owner, false, 0);
    match anchor_lang::prelude::Account::<anchor_spl::token::TokenAccount>::try_from(&info) {
        Ok(loaded) => Ok(TokenAccount {
            mint: Pubkey { bytes: loaded.mint.to_bytes() },
            owner: Pubkey { bytes: loaded.owner.to_bytes() },
            amount: loaded.amount,
        }),
        Err(error) => Err(u64::from(ProgramError::from(error))),
    }
}

} // verus!
