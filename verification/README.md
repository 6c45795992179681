# token_factory

The rules of a token factory on Soroban, proved with Verus: who may ask for
what, what it costs and who is paid, what is recorded, and which calls on token
contracts follow.

- `src/` is the library. `Factory` decides each call; it changes its records and
  returns the calls (`Action`) that the host then makes on token contracts.
  Creating tokens takes two steps: an accepted order (`Creation`) holds the lock
  while it is paid and deployed, and `finish_creation` or `cancel_creation`
  closes it. Accounts and contracts are named by number. What holds across calls
  is stated by the proof functions whose names begin with `law_`.
- `app/` is the contract around it: storage, authorisation, deployment and calls
  on token contracts.
- `tests/` runs the library against a Soroban test host.

The entries of a fee split and a creator's tokens are kept in collections of
`soroban_sdk`. What the library believes of these stands in `split.rs` and
`token_list.rs`, next to each call.
