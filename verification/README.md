# transactions

Reads a CSV feed of transactions (`deposit`, `withdrawal`, `dispute`,
`resolve`, `chargeback`), applies them in input order to per-client accounts
kept in a key-value store, and prints each client's balances.

## Layout

- `src/` — the library, verified with Verus:
  - `record/` — input amounts (kept to four decimal places, truncated toward
    zero, never negative) and input records turned into transactions;
  - `convert.rs` — the store command a transaction stands for;
  - `db/layout.rs` — big-endian encoding of the stored integers;
  - `db/mod.rs`, `db/sled.rs`, `db/rocks.rs` — the stored record layout and
    the rules of each store: what a command writes given the records it reads;
  - `db/laws.rs` — the whole store as a model and the laws that every command
    keeps (records stay well formed, frozen accounts stay frozen, a resolve
    undoes a dispute and is final, held funds are exactly the disputed
    amounts, ...);
  - `engine.rs` — what the engine does with each input row, runs of commands
    in input order, and the laws that hold of every store a run reaches;
  - `report.rs` — the report lines.
- `app/` — the program: arguments, CSV reading, the RocksDB and sled stores
  (read the records, let the library decide, write in one batch or
  transaction) and the report output.
- `tests/` — tests of the library.

Money is counted in ten-thousandths in 128-bit integers. Every input amount
fits; a command whose resulting available, held or total amount would leave
the range of a 128-bit counter is refused.
