# termcraft world model

The world of a side-on terminal sandbox game: blocks, items, inventories,
crafting recipes, chunk storage, the world simulation (fluids, redstone,
pistons, falling blocks, farming, leaves and grass, support breaks), the
chunk request pipeline, and the structures placed into generated chunks.
The library under `src/` states its behaviour in `requires` / `ensures`
contracts that Verus proves.

Layout:

- `src/world/block.rs`, `item.rs`, `inventory.rs`, `recipe.rs`,
  `recipe_book.rs`: blocks and items with their properties, inventories and
  the recipe list with crafting.
- `src/world/chunk.rs`: a 32 by 128 chunk with its chest inventories,
  activity counts and revision, and the framed, compressed save format
  (compression through `flate2`).
- `src/world/simulation.rs`: the `World`, its loaded chunks and every
  simulation pass, modelled as functions on the world's cells; the chunk
  request bookkeeping (`requests.rs`) and redstone rules (`redstone.rs`).
- `src/world/caves.rs`, `cave_dressing.rs`, `vegetation.rs`, `end.rs`,
  `nether.rs`, `stronghold.rs`, `fortress.rs`, `structures.rs`: what
  terrain generation builds once the noise has spoken: cave refinement,
  cave floors, pools and exposed ores, plants and trees, the End's towers
  and portal, nether cavern features, strongholds, nether fortresses,
  route landmarks, dungeons, village huts and loot. The noise-driven
  choices come in as plain values (per-column rolls and per-cell plans).
- `src/world/rules.rs`, `decimal.rs`: timing patterns of the world's rules,
  and number formatting.
- `app/`: what surrounds the library: save files, terrain generation from
  Perlin noise, the background chunk workers, timing and explosions.
- `tests/`: tests run against the compiled library.
