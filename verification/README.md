# gpui_taffy

A verified layout engine: styles become styles in whole device pixels, nodes are
kept in a tree with cached layout results, and laid-out boxes are snapped to the
grid of device pixels.

- `src/` is the library. Its contracts are stated over an `Arithmetic`, so they
  hold whatever the arithmetic of single-precision numbers is.
- `app/` supplies that arithmetic and runs the layout algorithms of `taffy` over
  the nodes.
- `tests/` runs the library, alone and under the layout algorithms.

`src/laws.rs`, `src/snapping.rs` and `src/style_laws.rs` hold what is proved across
calls: that edges close, that whole boxes keep their size wherever they are, that
the order of questions does not matter, that bounds are fresh once layout is
computed again, and what a style for layout depends on.
