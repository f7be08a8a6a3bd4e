# openttdrs_core

The simulation core of an OpenTTD-style transport game, written in Verus:
orders and timetables, vehicle reliability and servicing, train consists and
their poses, train crashes, towns (ratings, growth, council actions, layout
rules), the game calendar and timers, and the binary town-blob decoder. Every
function in `src/` carries a contract that Verus proves.

Layout:

- `src/` — the verified library, one module per subject (`order`,
  `order_execution`, `order_destination`, `timetable`, `vehicle`,
  `train_consist`, `train_pose`, `train_controller`, `train_collision`,
  `train_movement`, `town`, `town_action`, `town_expand`, `town_growth`,
  `town_newgrf`, `operational_status`, `calendar`, `timer`, `random`,
  `engine`, `tnbp_decode`, `common`).
- `tests/` — executable tests of the library.
- `app/` — serde forms of the library's save types and the JSON rendering
  of decoded blobs, kept outside the verified code.

Where the logic needs facts about the map (which tiles hold depots or
houses, where an order leads), the caller passes them in as plain values
(`OrderMapFacts`, tile lists, `StopFacts`, `TownStation`); the decisions
taken on them are verified.

Not modelled here, and left to the game around the library: the map
itself and building on it (roads, houses, clearing tiles), vehicle movement
and acceleration physics, the engine table with weights and power, cargo
packets and town cargo production, NewGRF action-2 variable contexts, and
town-name generation. Where the verified logic needs their answers, they
come in as plain inputs.
