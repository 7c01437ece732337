# myla_program

An over/under prediction-pool program for Solana: a pool is opened on a match
statistic and a strike level, bettors stake lamports on Over or Under before a
deadline, an oracle resolves the pool after the deadline, the winners share the
pool minus a commission, and stakes are refunded when a pool is one-sided or is
not resolved within a day of its deadline.

- `src/` is the verified library (Verus): the pool and bet records, every
  instruction's checks and arithmetic as functions with exact contracts, and
  the laws that tie them together (`src/laws.rs`), among them that the
  commission and all winners' payouts never exceed the stakes in the pool.
- `app/` is the on-chain program around it: the framework's account structs
  and derives, the lamport transfers, the stake transfer into the vault, and
  logging.
- `tests/` runs the library on concrete values.
