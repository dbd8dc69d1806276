//! Token payments, split between recipients or paid out in bulk.
//!
//! [`splitter`] and [`payout`] are two on-chain programs, reduced to what they decide. Each
//! instruction takes the accounts and arguments of a payment as plain values. It either refuses
//! the payment, with an error, or gives back a run, which orders the transfers one at a time and
//! ends with an event. Asking the token program to carry a transfer out is left to the caller.
//!
//! [`laws`] states what holds of payments as a whole, and [`rules`] what each single rule means.

pub mod accounts;
pub mod amounts;
pub mod bulk;
pub mod key_set;
pub mod laws;
pub mod payout;
pub mod pubkey;
pub mod rules;
pub mod splitter;
pub mod token;
