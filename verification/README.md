# minicrust

A tiny voxel renderer for a single 16 × 64 × 16 chunk, drawn by casting one
fixed-point ray per pixel.

- `src/` is the verified library (Verus):
  - `constants.rs`: chunk dimensions, `Color`, `BlockType` and its ids, the
    block color table, the flat terrain template;
  - `world.rs`: the chunk's column store, block lookup, the flat generator;
  - `player.rs`: the player's position and world;
  - `input.rs`: what a key does to the player;
  - `renderer.rs`: the frame clock and framerate counter, and the ray marcher
    (digital differential analyser) with its laws.
- `app/` is the window front end: winit event loop, softbuffer surface, the
  floating-point view angles and ray directions, row-parallel drawing with
  rayon.
- `tests/` runs the library on concrete worlds and rays.
