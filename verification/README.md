# copper_sim

Copper Island is a small data-driven economy: commodities, recipes, facility
archetypes and regions are read from canonical JSON files, validated, and run
by a deterministic tick simulation. This crate holds the parts whose rules can
be stated exactly, verified with Verus.

## Layout

- `src/` — the verified library.
  - `catalog`, `order`: records kept sorted by id (byte order of the id text),
    with read-after-write contracts.
  - `ids`, `qty`: identifiers, and `f64` quantities carried by their bit
    patterns (compared with zero, one and the tolerance exactly as `f64` does).
  - `recipe`, `graph`, `facility`, `logistics`, `world`: the recipe book and
    its dependency links, facility progress and a facility's tick, transport
    edges and the order in which a transport order is checked, the clock and
    the tick events.
  - `data`, `validate`: the canonical records and their validation; an
    economy passes exactly when it is sound.
  - `scenario`, `scenario_check`, `scenario_report`, `recipe_report`:
    scenarios, their checks against the economy (and the economy and its
    scenarios validated together), and the scenario and recipe reports
    (quantities arrive already written with one decimal).
  - `event_text`: the debug panel's line for each tick event.
  - `inspect`: the inspector's command line and its map, commodity and
    scenario-list reports.
  - `island`: the island layout, build commands (the lowest pressed digit
    counts) and their placement, routes home added once, the status log, the
    recipe-graph selection and the run controls.
  - `text`: appending texts and decimal numbers.
- `app/` — the `economy_inspect` program: reading the data directory (serde
  forms of the records), and the `f64` arithmetic of inventories, ledgers and
  the simulation tick.
- `tests/` — tests of the library.
