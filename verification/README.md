# idavoll_asset

A verified asset ledger for a DAO: asset classes are created with a fixed
issuer and supply, units move between accounts, the issuer mints and burns
them, and an account can lock part of its balance and unlock it again.

- `src/types.rs`: balances, asset details, events, errors and call origins.
- `src/holdings.rs`: the sum of what all accounts hold of an asset, and how it
  changes when one account's holding is replaced.
- `src/account_store.rs`: the per-account balances, a list of entries with
  unique keys seen as a map.
- `src/ledger.rs`: the abstract ledger, what each operation does to it, and
  the laws the operations keep (the supply of every asset is what all
  accounts hold of it; lock/unlock, mint/burn and transfer there-and-back
  undo each other).
- `src/module.rs`: the executable ledger, proved against `src/ledger.rs`.
- `app/`: the stored values and events in their SCALE-encodable form.
