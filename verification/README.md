# kva_hex_core

Hexagonal grid coordinates with spiral indexing, verified with Verus.

Tiles of a hexagonal grid are numbered in a spiral: tile 0 is the origin, then the
six tiles of layer 1, the twelve of layer 2, and so on. The library converts between
axial hexagon coordinates and spiral indices, and proves that the two conversions
undo each other.

Layout of `src/`:

- `hex.rs`: axial coordinates `Hex<T>`, their cube coordinate, layer and arithmetic.
- `direction.rs`: the table of the six neighbour and six diagonal directions.
- `spiral.rs`: spiral positions and indices, with the round-trip laws.
- `grid.rs`: a grid of tiles with one height each, its neighbours and neighbouring grids.
- `origin.rs`: where a grid lies in a grid of grids, and how neighbouring grids meet.
- `sample.rs`: sampling tile heights from a raw image.
- `mesh.rs`: integer layout of hexagon meshes.

`app/` is the Godot extension around the library: the floating point geometry and the
Godot classes.
