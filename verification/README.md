# sysview

The core of a terminal system monitor, with its rules stated as contracts
and proved with Verus.

- `src/` is the verified library: display-width text handling, the shared
  dinosaur scoreboard (tags, merging, ranking), layout arithmetic, focus
  navigation, themes and colour depth, the help window's contents and
  layout, the mascots and logo, the watermark placement, the widgets'
  plans (hints, panel frames, gauges, waffles, composition bars, chips),
  the explain window's sections, the plain-text snapshot, the locked
  administrator page, its storage and GPU tables, the process and filesystem
  tables' plans, the GPU panels and the header's health badge.
  Calls into `unicode-width` and `ratatui`'s layout solver go through small
  trusted wrappers whose contracts say only what those crates' sources
  show.
- `app/` is ordinary Rust around it: files and the environment, drawing into
  ratatui buffers, and what computes in floating point (unit formatting,
  graph scaling, the tail curl, the game's physics).
- `tests/` exercise the library from outside.
