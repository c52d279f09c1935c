# escrow

A milestone escrow for Soroban, with its decisions and its bookkeeping verified
by Verus.

- `src/types.rs`: records, statuses, errors, events, and the facts of a call.
- `src/host.rs`: what is taken from `soroban_sdk` on trust.
- `src/store.rs`: keyed storage with one entry under each key.
- `src/accounts.rs`: sums over milestones and the books of one contract.
- `src/state.rs`: the stored state and its invariant.
- `src/lifecycle.rs`: opening, funding, approving, releasing, cancelling.
- `src/release.rs`: releases on behalf of a caller, one or several at once.
- `src/migration.rs`: handing the client's side over.
- `src/governance.rs`: administrator, protocol fee, readiness checklist.
- `src/laws.rs`: what holds over any number of calls.
- `app/`: the Soroban contract around the library: storage, signatures, events.

An entry point takes the state as `Escrow` and the call as `Invocation`.  Its
contract names the reason for which the call is refused, if there is one, and
the state that it leaves; a refused call leaves the state as it was.

Where a call that is not refused could take a stored number beyond its type, the
entry point requires that it does not.  The entry point of the same name with
`_checked` requires nothing of the kind: it answers `None`, and leaves the state
as it was, exactly where the number does not fit.
