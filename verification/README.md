# doorcash

Rules and bookkeeping of an on-chain door game: entry fees, a committed seed,
settlement with winners, refund rounds without one, and recovery of vaults.

- `src/` is the library. Every instruction is a function from the accounts that it
  is given to their new contents, the transfers to make and the event to announce;
  its contract says for which inputs it is refused and why. `laws.rs` and
  `batch_laws.rs` state what holds across instructions: no lamport is lost, nobody
  is paid twice, and a settlement or a refund round changes the vault of a mode by
  as much as what is owed out of it. Of the payments of a refund round the last
  holds only while no more entries are paid than are eligible. A repair gives
  participants entries without raising that count, so a repaired round can pay
  refunds out of the carry.
- `app/` is the program around the library: accounts, clock, transfers, events.
- `tests/` runs the library on concrete values.
