//! The accounts of a payment, the checks on its source, and the transfers it orders.

use crate::pubkey::Pubkey;
use crate::token;
use crate::token::TokenAccount;
use vstd::prelude::*;

verus! {

/// The token account that a payment is taken from.
#[derive(Clone, Copy, Debug, PartialEq, Eq)]
pub struct SenderTokenAccount {
    pub key: Pubkey,
    pub account: TokenAccount,
}

/// The mint of the tokens that are paid.
#[derive(Clone, Copy, Debug, PartialEq, Eq)]
pub struct MintAccount {
    pub key: Pubkey,
    pub decimals: u8,
}

/// The accounts that an instruction names, before those of the recipients.
#[derive(Clone, Copy, Debug, PartialEq, Eq)]
pub struct PaymentAccounts {
    /// Who pays, and signed the instruction.
    pub sender: Pubkey,
    pub sender_token_account: SenderTokenAccount,
    pub mint: MintAccount,
    pub token_program: Pubkey,
    pub system_program: Pubkey,
}

/// An order to the token program: move `amount` base units of `mint`, which has `decimals`
/// decimals, from one token account to another, by right of `authority`.
#[derive(Clone, Copy, Debug, PartialEq, Eq)]
pub struct TransferChecked {
    pub from: Pubkey,
    pub mint: Pubkey,
    pub to: Pubkey,
    pub authority: Pubkey,
    pub amount: u64,
    pub decimals: u8,
}

/// Why a payment cannot be taken from the sender's account.
#[derive(Clone, Copy, Debug, PartialEq, Eq, Structural)]
pub enum SourceFault {
    /// There is nothing to pay.
    NothingToPay,
    /// The token program is not the one that holds the tokens.
    TokenProgram,
    /// The source account is not the sender's.
    Owner,
    /// The source account holds tokens of another mint.
    Mint,
    /// The source account holds less than is to be paid.
    Balance,
}

impl PaymentAccounts {
    /// The first reason, in the order of the checks, why `total_amount` cannot be taken from the
    /// sender's account.
    pub open spec fn source_fault(self, total_amount: u64) -> Option<SourceFault> {
        if total_amount == 0 {
            Some(SourceFault::NothingToPay)
        } else if self.token_program@ != token::token_program_address() {
            Some(SourceFault::TokenProgram)
        } else if self.sender_token_account.account.owner@ != self.sender@ {
            Some(SourceFault::Owner)
        } else if self.sender_token_account.account.mint@ != self.mint.key@ {
            Some(SourceFault::Mint)
        } else if self.sender_token_account.account.amount < total_amount {
            Some(SourceFault::Balance)
        } else {
            None
        }
    }

    /// Checks that `total_amount` can be taken from the sender's account.
    pub fn check_source(&self, total_amount: u64) -> (fault: Option<SourceFault>)
        ensures
            fault is None <==> {
                &&& total_amount > 0
                &&& self.token_program@ == token::token_program_address()
                &&& self.sender_token_account.account.owner@ == self.sender@
                &&& self.sender_token_account.account.mint@ == self.mint.key@
                &&& self.sender_token_account.account.amount >= total_amount
            },
            fault == self.source_fault(total_amount),
    {
        let source = &self.sender_token_account.account;
        if total_amount == 0 {
            Some(SourceFault::NothingToPay)
        } else if self.token_program != token::token_program_id() {
            Some(SourceFault::TokenProgram)
        } else if source.owner != self.sender {
            Some(SourceFault::Owner)
        } else if source.mint != self.mint.key {
            Some(SourceFault::Mint)
        } else if source.amount < total_amount {
            Some(SourceFault::Balance)
        } else {
            None
        }
    }

    /// The order to pay `amount` from the sender's account to `to`.
    pub open spec fn transfer_to(self, to: Pubkey, amount: u64) -> TransferChecked {
        TransferChecked {
            from: self.sender_token_account.key,
            mint: self.mint.key,
            to,
            authority: self.sender,
            amount,
            decimals: self.mint.decimals,
        }
    }

    /// Writes the order to pay `amount` from the sender's account to `to`.
    pub fn order_transfer(&self, to: Pubkey, amount: u64) -> (order: TransferChecked)
        ensures
            order.from == self.sender_token_account.key,
            order.mint == self.mint.key,
            order.to == to,
            order.authority == self.sender,
            order.amount == amount,
            order.decimals == self.mint.decimals,
            order == self.transfer_to(to, amount),
    {
        TransferChecked {
            from: self.sender_token_account.key,
            mint: self.mint.key,
            to,
            authority: self.sender,
            amount,
            decimals: self.mint.decimals,
        }
    }
}

} // verus!
