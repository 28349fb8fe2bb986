# engine

A rules engine for the card game *Terraforming Mars: Ares Expedition*,
verified with Verus: the game state and its invariant, the five phases and
the round, card effects, triggers and actions, payments, scoring, the audit
of the rules' invariants, whole games and series of games, and the probes
that report what building a card or using an action changes.

Layout:

- `src/` — the verified library.
  - `cards`, `effects`: the card and corporation records and the effect
    vocabulary cards are encoded in.
  - `state`: the player and game state and the invariant `inv`.
  - `flow`: costs, discounts, requirements, selector bonuses, scoring.
  - `turn`: drawing, paying, global parameters, resources on cards,
    effects, triggers, building, card actions.
  - `phases`: the five phases, the end step and the round.
  - `setup`: the setting up of a game.
  - `sim`: the audit, the fingerprint of a final state, whole games and
    series of games.
  - `probe`: the probes of a sequence of cards and of an action.
  - `agents`: what the players built on the engine share (seed mixer,
    reshuffles, the first-option policy, label reading).
  - `policy`: the decision interface and the uniform random policy.
  - `rng`, `arith`: the random draws (from `rand`) and bounded arithmetic.
- `tests/` — tests run against the compiled library.
- `app/` — the unverified edge: loading cards from JSON, timing and averages
  of a simulation, JSON reports.
