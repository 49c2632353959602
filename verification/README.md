# geng

The logic of the geng game engine, verified with Verus.

- `src/` is the verified library: the shader `#include` preprocessor
  (`shader_lib`, over the line and word helpers of `text`), the glyphs a
  font file provides (read through ttf-parser behind a trusted wrapper)
  and the glyph atlas packer (`font`), the triangle layout of thick polylines (`draw_2d`), the
  state stack (`state`), keyboard/mouse input and cursor locking (`window`),
  the touch simulator (`touch_simulator`), pointer routing, per-frame widget
  state, buttons, the widget walk and pointer routing through it (`ui`), the debug overlay switches and console,
  command-line overrides, asset load counting and hot reloading, network
  traffic counting, and the audio volume update counter.
- `tests/` runs the library on concrete values.
- `app/` is ordinary Rust around it: argument parsing (clap), logging (log),
  message serialization (bincode, flate2), asset threads, and the
  floating-point parts: glyph sizing, timing, hit testing, chain geometry
  and widget layout.
