# worldgen

River and water-mask mapping of a generated world, verified with Verus.

- `src/river_mapping/`: the river generator's bookkeeping (`types`), a spec
  model of what mapping one river and a list of rivers does to the layers
  (`model`), the mapping itself (`mapping_ops`), run-time checks of its
  preconditions (`checks`) and proved laws (`laws`).
- `src/watermask_mapping.rs`: which cells can hold water, where the next
  flood fill starts, and what a filled region writes into the water mask.
- `src/layers.rs`, `src/coords.rs`, `src/world_constants.rs`: the layer
  model (one vector per mask, row-major cells), indexing and codes.
- `src/struct_ops.rs`, `src/colors_topography.rs`: the game's start-up state
  and the topography colour table.
- `app/`: file reading, TOML decoding, unpacking the bit-packed world layers
  into the layer model and back, the floating-point conversion of raw
  layer values to absolute ones, and the flood fill itself.
