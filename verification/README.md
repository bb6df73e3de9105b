# token_migration

A verified library for a token migration contract. Users swap a legacy token for a newly
minted one at a fixed ratio until a deadline; afterwards the admin can recover the legacy
tokens that are left. Every user who has migrated has a versioned record, and the admin
brings the records from the first schema to the second in batches.

The library decides, the host acts. An operation works on a `Ledger`: the entries of the
contract's storage that the invocation has taken in, and the list of what it asks of the
host (authorisation checks, token calls, writes, events), oldest first.

| Module | What it holds |
| --- | --- |
| `types`, `error` | the stored data, the keys, the reasons for a refusal |
| `address` | addresses as bytes: a kind, then 256 bits |
| `table`, `ledger` | the working copy of the storage and the host actions |
| `rules` | the rules, stated over the contents of the storage |
| `contract` | the operations, proved to follow the rules |
| `plan` | which entries an operation reads |
| `laws` | what every operation keeps, and what batches and pages promise |
| `execution` | carrying out the actions gives the storage that the rules say; what an operation depends on |
| `history` | what holds over any history of invocations, from a fresh contract on |
| `merkle` | roots of Merkle proofs over SHA-256 |

That the bytes of `address` are those that the host serialises an address to is not proved;
`tests/address.rs` shows it on an account and on a contract.

`app/` is the contract on a Soroban host: it reads and writes the ledger entries, calls the
tokens, checks authorisations and publishes events. It type-checks against the SDK, but does
not link for wasm as it stands: the library uses the standard library, whose panic handler
meets the SDK's there.

Trusted: the SHA-256 of the Soroban host (`merkle::hash_pair`).
