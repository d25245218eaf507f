# stellar_lend

A verified core of the StellarLend lending protocol modules, written in Verus.

- `src/insurance.rs` — the self-funded insurance pool: fee contributions with an
  emergency-fund share, dynamically priced premiums, claims limited per asset and
  paid only from the non-emergency part of the pool, analytics.
- `src/treasury.rs` — treasury address, fee configuration and protocol reserves.
- `src/multi_collateral.rs` — per-asset collateral records and their total value
  under oracle prices and collateral factors.
- `src/multisig.rs` — the checks on multisig configurations and on proposals to
  change the minimum collateral ratio.
- `src/reentrancy.rs` — reentrancy locks.
- `src/flash_receivers.rs` — flash-loan callback receivers used to exercise the lender.
- `src/address.rs`, `src/arith.rs` — addresses, address-keyed tables and `i128`
  arithmetic shared by the modules.

Every state type has an abstract view, and every operation is specified over it
(for the insurance pool, by an error function and a successor function per
operation). The laws that relate several operations are public proof functions
at the end of `insurance.rs`, `treasury.rs`, `multi_collateral.rs` and
`reentrancy.rs`; the other modules state what they do in their functions'
contracts alone.

Operations that need a signature say whose, and after which checks, through
the `*_signer` methods of `InsurancePool` and `Treasury`; `app/` asks that
address to authorize before it runs the operation.

`app/` is the Soroban contract glue: it keeps each state in contract storage in
its stored form, converts host addresses and vectors, calls the library, and
performs authorisation, event publication and token transfers.
