# cosmic_raster

A terminal renderer for a small solar-system scene.

- `src/` is the verified library (Verus): pixel colours and the inside test
  on edge signs (`graphics/triangle.rs`), the frame buffer
  (`graphics/rasterizer.rs`), terminal-size and printer-mode decisions
  (`graphics/pipeline.rs`), the triangle topology of a latitude/longitude
  sphere and the planets' day bookkeeping (`physics/cosmic_body.rs`).
- `app/` holds the floating-point geometry (glam), the terminal queries
  (crossterm) and the program's main loop.
- `tests/` runs the library on concrete values.
