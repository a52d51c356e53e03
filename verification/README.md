# geev_core

Escrowed giveaways and mutual-aid crowdfunding for the Soroban ledger, with
their rules verified by Verus.

- `src/` is the verified library: a state machine over plain values
  (`store::Storage` and its view `StorageView`, with the invariant
  `StorageView::wf`). Each operation of `giveaway`, `mutual_aid` and `admin`
  takes the state and the values it needs from the host (the time, a random
  seed, reputations), returns the exact outcome stated in its contract
  (including the token transfers the host must make) and leaves the state
  unchanged when it fails. `shares` holds the prize-splitting arithmetic,
  `selection` the winner selection (random probing, first come, manual,
  merit), `laws` the properties that relate several operations.
- `app/` is the Soroban contract around the library: authorisation, ledger
  storage, the clock and PRNG, token transfers and events.
- `tests/` runs the library on concrete scenarios.
