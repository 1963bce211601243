# spline_viz

An interactive editor for Bézier, piecewise Bézier, Hermite and B-spline
curves, built on nannou.

- `src/` is the verified library (Verus): splitting control points into cubic
  segments (`bezier`), the exact clamped knot vector of a cubic B-spline
  (`bspline`), the sampling schedule of a piecewise Hermite curve (`hermite`),
  the C/G continuity decision over a chain of segments (`continuity`) and the
  editor's input state machine (`model`). Each module states its contracts and
  proves the laws that hold across calls.
- `app/` is the nannou program: window, input, drawing, and all
  floating-point geometry (curve evaluation, basis functions, hit tests,
  measurements at junctions). It hands the library plain values and carries
  out what the library decides.
- `tests/` exercises the library on concrete values.
