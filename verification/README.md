# osarena

A deterministic, headless engine for two-player Old School Magic: The
Gathering, written in Verus: every operation carries a contract over a
mathematical model of the game, and Verus proves each one.

## Layout

- `src/state.rs` — the game's data and its model (`GameView`), ids and
  zones; `src/ids.rs`, `src/card.rs` — identifiers and the card catalog.
- `src/characteristics.rs` — what a permanent is right now: keywords,
  power and toughness, colours, protection, targeting.
- `src/damage.rs`, `src/battlefield.rs`, `src/exile.rs` — damage, life,
  destruction and regeneration, undying, zone changes.
- `src/combat.rs`, `src/banding.rs`, `src/combat_steps.rs`,
  `src/damage_delivery.rs` — declaring attackers, bands and blockers,
  first-strike and regular damage steps, damage assignment.
- `src/rules.rs` — state-based actions.
- `src/loyalty.rs`, `src/crime.rs` — planeswalker loyalty abilities and
  crimes; `src/card_runtime.rs` — what card resolution code is handed.
- `src/mana.rs`, `src/mana_payments.rs` — mana from lands, flexible mana
  symbols and locked payments.
- `src/casting.rs` — casting spells from hand: which casts are offered,
  paying their costs from lands, and what a spell does as it resolves.
- `src/companion.rs` — companion eligibility, selection and the special
  action of taking one.
- `src/turn.rs`, `src/engine.rs` — priority, the order of steps, legal
  actions and taking an action.
- `src/laws.rs` — properties of the whole engine, proved once for every
  input.
- `src/continuous_state.rs`, `src/decision_state.rs` — durations of
  continuous effects; the phases of Balance.
- `src/decisions.rs` — pending decisions, their choices and their answers.
- `src/trigger_conditions.rs` — intervening conditions of triggered
  abilities.
- `app/` — serde wire types for clients.

## Scope

The engine models the cards of its catalog (`src/card.rs`). Spells are
Lightning Bolt, Fireball (X, any number of targets at {1} each beyond the
first, damage divided evenly and rounded down) and the permanent spells of
the catalog, paid from basic lands; Lurrus's hybrid cost is not modelled.
Pending decisions are the companion question and the cleanup discard down
to seven cards (`src/decisions.rs`). Triggered abilities other than
undying, continuous-effect layers, tokens, damage prevention and
redirection, and the decisions that cards outside the catalog ask for are
not part of it; nor are mulligans beyond keeping the opening hand, a mana
pool (and so mana burn), or a random number generator. Blocking restrictions and requirements are modelled as
rules a permanent carries; nothing in the catalog grants them.
