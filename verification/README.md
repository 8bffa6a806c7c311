# hex_world

The hex-grid world of a small OpenGL demo (a Bézier surface with grass and
falling spheres), as a Verus-verified library with the program around it.

- `src/` — the verified library:
  - `world::hex`: cube/axial hex coordinates, their arithmetic, directions,
    distances and the listing of all hexes within a radius, with the laws
    that tie them together (the two distances agree, the range is exactly the
    disc of hexes within the radius, each once, `3n(n + 1) + 1` of them).
  - `world::offset_coords`: conversions between hexes and offset tile
    coordinates, with their round trips.
  - `world::tile`: a map tile packed in one byte.
  - `world::world_camera`: a camera offset that wraps around the world.
  - `rendering::text`: fixed-width decimal formatting, on-screen text and
    the vertex ranges that texts take.
  - `util`: shader source decoding, and what each key event does to the
    movement input (WASD) and the pressed keys.
  - `bezier_surface`: the control-point indices of the bicubic surface.
- `app/` — the program: window, event loop, rendering, physics and the other
  floating-point geometry, calling the library.
- `tests/` — tests of the library on concrete values.
