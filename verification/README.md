# arenae

A falling-sand simulation. The library in `src/` holds the verified core:

- `grid` — the grid of cells (`Empty` or `Sand`) with a parallel grid of
  particle metadata, reads and writes of single cells, clearing, and the
  circular brush that adds or removes sand.
- `simulation` — the gravity step: grains fall straight down, else slide
  diagonally, sweeping rows bottom-up in alternating directions; each grain's
  metadata travels with it and its stationary counter is kept. Laws proved
  here: a step conserves the number of grains, keeps the grid's shape, never
  lifts a grain off the floor row and never invents a creation frame.
- `colors` — particle metadata and the exact (integer) colormap position of a
  particle in each colouring mode.
- `colormap_editor` — the editor's rules for deleting colour stops and moving
  the selection.
- `arrays` — the `ndarray` arrays behind the grid, with the contracts that the
  verified code relies on.

`app/` is the egui/eframe program around it: window, mouse input, rendering,
colormap loading and the colormap editor widgets.
