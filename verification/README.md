# doodlai

A Doodle Jump playground in which neural networks learn to play. This crate
holds its verified core, checked with Verus:

- `render_log`: per-frame render statistics, their sum and difference;
- `render`: the renderer's queue of drawing requests, and drawing a layer
  and a frame against the texture storage: what is counted, which textures
  are looked up (and so loaded or generated) and in what order;
- `stats`: the render part of the frame statistics overlay, as text;
- `assets`: asset identifiers, asset paths, the resolver from identifiers to
  paths and the bookkeeping of the texture storage (what is loaded, being
  loaded or missing, and what a lookup answers);
- `ui::anchor`: where an anchored element's centre lies;
- `game`: the decisions of the front ends (facing, network output to action,
  player sprite, network input slots, when a training game is scored).

`app/` holds the programs around it: the bevy simulation and its network
player, the trainer (the program `app/main.rs` runs), file and resolver
loading, and the pixel placement of anchored elements.

The ggez display program (window, event loop, sprite batches, text and mesh
drawing, frame timers, widgets and animations) is not part of this crate:
ggez cannot be had here (its sources exceed the size allowed), the helper
crates it relies on (`math`, `time`, `stp`, `logger`, `ring`) are not
published, and its render-request, colour, widget, GUI and configuration
modules are not available. What that
program decides is in the library: the texture storage and what a lookup
answers, the renderer's counts and lookups per layer and frame, the
statistics overlay's text, anchoring, and the player's move and sprite.
