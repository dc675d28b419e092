# drill

The rules of a card-battle game, written in Verus and proved against their
contracts.

- `src/` is the verified library: piles of cards and the moves made on them
  (`board`), the magnetic pull of a card on its neighbours, the phases of a
  battle turn and drawing cards (`game_flow`), elemental reactions
  (`effects`), rarity and name picks for generated cards (`deck`), turn order
  by speed (`states`), target gathering and filtering (`grid_abilities_backend`)
  and the plain data of actions, abilities and creatures. Random draws go
  through three trusted wrappers in `rng`, over `bevy_prng::WyRand` and
  `rand`.
- `tests/` runs the library on concrete values.
- `app/` runs battles headless in a `bevy_ecs` world: it holds the piles and
  cards as components, and its systems ask the library what each phase does.
  The ordering of battle ticks and the screen positions and timings of card
  moves, which the game computes in floating point, live there too.
