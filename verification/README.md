# zicket

Verified core of the Zicket ticketing contracts, written in Verus.

- `src/payments/` — the payments contract: escrowed ticket payments with
  nonces, per-user and supply limits, partial refunds, organizer and
  administrator withdrawals with a platform fee, multi-token payouts and
  time-based escrow release. `model.rs` states the contract as functions on
  `PaymentsView`; `contract.rs` implements every entry point against it;
  `laws.rs` proves properties that span calls.
- `src/factory.rs` — the factory's registry of deployed event contracts.
- `src/ticket.rs` — the ticket contract's store.
- `src/versioning.rs` — storage versions and the migration step shared by
  the three contracts.
- `src/table.rs` — a small verified association table.

Accounts, tokens and events are plain integers in the library. Every state
change is a verified transition; token transfers and published events are
queued in the state and handed to the host with `take_transfers` and
`take_notices`.

`app/` is the host on Soroban: it numbers addresses and symbols, asks for
authorisation, carries out the queued transfers through the token client and
publishes the queued notices as contract events.
