# utility_contracts

A prepaid, streaming utility-metering contract for the Soroban ledger, with its
logic verified by Verus.

Users register meters that consume a token at a fixed rate per second and top
them up; providers claim what the meters have run up, within the balance and
an hourly cap. Parent accounts can pay for groups of meters, and users can ask
for low-balance alerts.

## Layout

- `src/` is the verified library.
  - `address.rs`: ledger addresses as plain data, and their XDR form.
  - `types.rs`: meters, billing groups, webhook settings, events, transfers.
  - `metering.rs`: the arithmetic of one meter: claims, the hourly cap,
    funded hours, depletion, heartbeats.
  - `model.rs`: the contract's state as mathematics, and what each call does
    to it.
  - `contract.rs`: `UtilityContract`, the executable state; each call is
    proved to do what `model.rs` says.
  - `laws.rs`: properties that hold across calls.
- `app/` is the Soroban contract itself: it loads the state from instance
  storage, lets the library decide, and then performs the authorization, the
  token transfer, the storage writes and the event that the library returns.
- `tests/` runs the library on concrete scenarios.
