# escrow

A verified core for milestone rental escrow with staked-juror disputes.

A renter and a host agree on an ordered list of milestones and an asset. The
renter deposits the full amount; each milestone is then released by the renter's
confirmation, by its timeout, by both parties unwinding the escrow, or by the
settlement of a dispute. Disputes are decided by the votes of staked jurors; a
dispute on which votes are still missing when the voting deadline has passed can
be split evenly instead.

## Layout

- `src/` is the library, verified with Verus.
  - `state.rs` holds the contract's state: `EscrowContract` in executable form
    and `State`, its mathematical model.
  - `lifecycle.rs`, `release.rs`, `disputes.rs`, `resolution.rs`,
    `incentives.rs`, `jurors.rs`, `payout.rs`, `admin.rs` and `queries.rs` hold
    the calls. Each call has an operation on `State` that says exactly what it
    returns and changes, and an executable method proved to do just that.
  - `restore.rs` puts stored records back, with their soundness tested.
  - `laws/` states and proves what holds across calls: that the records fit
    together, that the contract can always pay what it owes, which call may move
    which funds, what the admin cannot do, and so on.
- `tests/` runs the library with a toy token ledger.
- `app/` is the contract on Soroban: storage, signatures, token transfers and
  events around the library.

## How a call works

A call never talks to the ledger. It takes the time as an argument, reads and
changes `EscrowContract`, and appends to `EscrowContract::effects` what it asks
of its surroundings: signatures to demand, tokens to move, events to publish. A
call that fails changes nothing and leaves behind only the signatures it
demanded. `Failure::Refused` carries a documented error; `Failure::Aborted`
means that an amount or a time went out of range.
