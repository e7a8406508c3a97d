# proof_of_heart

A crowdfunding platform for learning, verified with Verus: campaigns are
created, verified by the admin or by a token-weighted community vote, funded
within per-contributor caps, withdrawn with a platform fee and a vesting
reserve, refunded when cancelled or failed, and can share later revenue with
their contributors.

## Layout

- `src/` — the verified library. The whole platform is one value
  (`ProofOfHeart`) whose view is a mathematical `Model`; every operation is a
  method with an exact contract: when it is refused (and with which error, the
  state then unchanged), and otherwise the next state, the authorization it
  rests on, the token movements it asks for and the events it publishes.
  - `types.rs`, `constants.rs` — the data of campaigns, requests, errors, events.
  - `state.rs` — the state, its model and its well-formedness invariant.
  - `admin.rs`, `campaigns.rs`, `funds.rs`, `voting.rs`, `queries.rs`,
    `creators.rs` — the operations.
  - `limits.rs` — executable checks of the arithmetic ranges some operations need.
  - `laws.rs` — properties of the platform as a whole, proved over the model.
- `tests/` — scenarios run against the compiled library; most drive it through a
  small in-memory host that moves token balances and records events.
- `app/` — the Soroban contract around the library: address book, token probe
  and balances, authorization, token transfers and event publishing.
