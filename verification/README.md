# handmade

A small game engine in the style of a hand-made game: a tile and chunk
world with stored entities, pair collision rules, a maze generator, bitmap
loading and rectangle drawing, controller and keyboard input, and sound
output through a ring buffer. The library under `src/` is written in Verus
and each function's contract is proved.

Layout:

- `src/common`: input buttons and controllers, buffers, size units.
- `src/ffi`: platform constants and record layouts, SDL event decoding.
- `src/game`: memory arena, tile map, world chunks and entity blocks,
  vector math, graphics, entities, maze, collision rules.
- `src/linux.rs`: SDL input handling, file times, controllers, the sound
  ring buffer.
- `src/win32.rs`: XInput and keyboard message handling, replay states,
  sound write regions, mouse input.
- `app/`: a headless driver that runs the game for some frames; it holds
  the floating point parts (positions in meters, motion, blending).
- `tests/`: tests of the library.
