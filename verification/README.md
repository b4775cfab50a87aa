# betfair_ocm

The state that a Betfair execution client keeps about its orders while it reads
the order change message (OCM) stream, with its behaviour proved in Verus.

- `src/state.rs`: `OcmState` and its operations.
- `src/model.rs`: `OcmModel`, the mathematical view of the state, and what each
  operation does to it. The contracts in `state.rs` are stated over it.
- `src/laws.rs`: what holds across calls, for every state.
- `src/histories.rs`: what a history of calls leads to, for each part of the
  state.
- `src/types.rs`, `src/decimal.rs`: the plain values that the state holds.
- `src/collections.rs`: the `ahash` collections, with the contracts that are
  taken on trust.
- `app/`: the state together with a fill tracker and the reference formats.

The state does not own a fill tracker. `mark_terminal_order` and
`sync_from_orders` return the commands for it, in the order in which they are to
be carried out. A `ClientOrderId` carries the customer order references that
were derived from it.
