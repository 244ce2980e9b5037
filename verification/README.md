# slitherss

A Slither.io game server. The game's rules, its spatial bookkeeping and its
wire format form a library verified with Verus (`src/`); the networking,
the command line and everything that computes in floating point (positions,
headings, circle overlap) form the server program around it (`app/`).

- `src/config.rs`: world constants and the server configuration.
- `src/food.rs`: food pellets.
- `src/sector.rs`: the grid of sectors, the food and snakes in each, the
  food a snake eats, and the sectors that a snake's bounding box and its
  client's viewport overlap.
- `src/snake.rs`: a snake's timers, speed, boost, change flags and the
  growing and shrinking of its body.
- `src/world.rs`: snakes by id, dead and changed snakes, the clock, the
  frames (which snakes move, by how much, and which of them changed) and
  the scattering of food.
- `src/packet.rs`: the byte layout of every packet the server sends.
- `src/server.rs`: what the server makes of a client's packet.
- `tests/`: tests of the library.
