# insurance

A verified registry of insurance policies, the logic of a Soroban contract.

- `src/` is the library, verified with Verus.  `state.rs` states the
  contract's state by value, its invariant, and for every operation the
  error it answers with and the state it leaves; `contract.rs` implements the
  operations and proves them against those statements; `laws.rs` proves the
  properties that span operations (the active list is exactly the set of
  active policies, a created policy reads back, a deactivated policy can no
  longer be paid, only the owner manages policies, and so on), including laws
  over any sequence of calls, modelled by `state::Op` and `ContractView::run`.
- `app/` is the contract shell: it authorizes callers, reads and writes
  ledger storage, reads the ledger time, publishes events and turns the
  library's errors into contract errors.
- `tests/` runs the library on concrete scenarios.
