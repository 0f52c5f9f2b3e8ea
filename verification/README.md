# quorum_credit

Microloans backed by stake: vouchers lock tokens for a borrower, the borrower
can borrow once the locked stake reaches a threshold, vouchers earn a 2% yield
when the loan is repaid and lose half their stake when it defaults.

The library (`src/`) is verified with Verus. It holds the contract logic as
functions from the contract's storage, seen as plain values, and the call's
arguments to the new storage and the token transfers to make, or to the reason
the invocation aborts. Each function's contract states that outcome exactly.

- `lib.rs`: the loan contract (`QuorumCreditContract`): initialize, vouch,
  request_loan, repay, slash, withdraw_vouch and its views.
- `lifecycle.rs`: proved properties across calls of the loan contract.
- `types.rs`, `helpers.rs`, `admin.rs`, `vouch.rs`: the multi-admin protocol:
  its storage, admin approval, admin operations and vouching operations.
- `protocol_laws.rs`: proved properties across calls of the protocol.
- `table.rs`, `stakes.rs`, `addresses.rs`, `amounts.rs`: storage tables keyed by
  address, lists of stakes, lists of addresses, basis-point arithmetic.
- `errors.rs`, `transfers.rs`: why an invocation aborts; the token transfers.

`app/` wraps the library in Soroban contracts: it checks authorisation, loads
the storage entries a call touches, performs the token transfers, writes the
entries back and publishes events.
