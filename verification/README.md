# Bismuth

Bismuth represents a 3D world as an oct-tree of cubes that can be changed in
real time. Each leaf is a cube whose geometry can be deformed by moving the
ends of its edges along each axis.

The library in `src/` is written in Verus and proved:

- `space`, `clamp`, `math`: logarithmic widths, aligned partitions, boxes,
  and locating points in the tree.
- `tree`, `edit`, `split`, `geometry`: the oct-tree, its cubes, editing at a
  point or through a cursor, splitting buffers of cubes by position or load,
  and the deformable geometry of leaves.
- `mesh`: primitives (lines, triangles, quads), their decomposition and
  subdivision, generators for cube and sphere meshes, and point indexing.
- `event`, `input`: events, and the live and snapshot states of the keyboard
  and the mouse.
- `framework`: activities on a stack, the harness that runs them frame by
  frame, and a fixed-step time model.

`app/` is the program around it: reading events, floating-point geometry
(camera, rays, vertex positions), threads and random colors.
