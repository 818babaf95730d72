# smart_road

Autonomous vehicle intersection management: vehicles arrive on four arms of
a six-lane crossroads, each on a lane fixed by where it turns, and adapt
their speed to a forward hitbox and to the vehicle ahead in their lane.

## Layout

- `src/` — the library, written and proved with Verus:
  - `config.rs`: the grid, speeds, hitbox lengths, distances and cooldowns;
  - `path.rs`: the waypoint path of every arm and turn, with its geometry laws;
  - `speed.rs`: the speed decision (hitbox ladder, same-lane following);
  - `vehicle.rs`: arms, turns, phases, a vehicle's non-positional state and
    the source of vehicle identifiers;
  - `stats.rs`: session statistics;
  - `world.rs`: spawning, the per-frame speed decision with its cooldown,
    phase changes, retirement of finished vehicles, crash and close-call
    counting;
  - `controls.rs`: the keyboard state machine;
  - `renderer.rs`, `scanline.rs`: font choice, palette, lane markings, the
    layout of the heads-up display and polygon filling.
- `tests/` — tests of the library on concrete values.
- `app/` — the SDL2 program: window, events, drawing, and the
  floating-point geometry (positions, headings, hitbox boxes, distances)
  whose results the library's rules take as integers and booleans.

In the program, arrows spawn vehicles travelling in the
arrow's direction, `R` spawns randomly, `M` switches to manual spawning,
`Esc` shows the statistics and quits.
