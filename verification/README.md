# payment_splitter

Token payments on Solana, split between recipients by percentages or paid out in bulk, with the
rules verified by Verus.

- `src/` is the verified library. `splitter` (split payments and bulk payouts) and `payout` (bulk
  payouts alone) are the two programs; `bulk`, `accounts`, `amounts`, `token`, `pubkey` and
  `key_set` are what they are made of; `laws` states what holds of payments as a whole, such as
  that a payment that goes through spends exactly its total.
- `app/` is the on-chain side: account validation, calls to the token program, events.
- `tests/` runs the library on concrete payments.

An instruction either refuses a payment with an error or starts a run. The caller hands the run
the state of the next account, carries out the transfer that the run orders, and goes on until no
transfer is pending; the run then gives the event to emit.

Three functions in `src/token.rs` are trusted, not verified: they read the token program's address
and unpack token accounts through `anchor_spl` and `anchor_lang`. Their doc comments say what is
claimed of each.
