# catan

Board geometry and game rules for a hexagonal settlers-style board game,
verified with Verus.

- `src/board.rs`: axial hex coordinates, their neighbours, corners and sides,
  and the standard radius-two board.
- `src/board_counts.rs`: the standard board has 54 corners and 72 sides,
  proved by listing them.
- `src/hex_laws.rs`: proved facts about the coordinate system (adjacent hexes
  share two corners and one side; a corner belongs to at most three hexes, a
  side to at most two; adjacency is symmetric).
- `src/resource.rs`, `src/rules.rs`, `src/player.rs`: resource counts, costs,
  affordability and paying.
- `src/development_card.rs`: the shuffled development-card deck, and what
  repeated draws leave.
- `src/input.rs`: the viewer's answer to key presses.
- `app/`: the command-line entry point and the wgpu/winit renderer.
