# tulong_scholar

A verified model of the TulongScholar scholarship-disbursement contract.

- `src/types.rs`: addresses, enrollment status, scholar records, storage keys,
  refusals, and the slot of the per-cycle guard: one slot per pair of scholar
  id and cycle id.
- `src/model.rs`: the contract's storage as mathematical values and each
  operation as a function from that state to the next state (or a refusal).
- `src/contract.rs`: the executable contract over the entries a call works on,
  each operation proved to do what `model.rs` states.
- `src/history.rs`: sequences of calls, the payments they make, and what they
  leave behind.
- `src/laws.rs`: properties of the contract as a whole, proved over the model,
  for single calls and for any sequence of calls.
- `app/`: the Soroban contract that moves entries between the ledger and the
  library, asks for authorization, makes the token transfers and publishes events.
