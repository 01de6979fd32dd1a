# cloth_net

Verified index logic of a GPU mass-spring net dropped onto a sphere.

- `src/grid.rs`: the square grid of particles, row-major numbering, the
  particle count (through `num_traits::pow`, re-exported by `cgmath`).
- `src/springs.rs`: the structural, shear and bend spring lists, with the
  laws that every spring ends on the grid or at the sentinel, never wraps
  across a row, and has its reverse in the same list.
- `src/dispatch.rs`: the number of compute workgroups per pass.
- `app/main.rs`: the window, GPU resources and floating-point scene set-up.
