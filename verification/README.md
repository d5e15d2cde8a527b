# rtrs

3D underwater acoustic ray / Gaussian beam tracing with arbitrary Cartesian
receiver coordinates.

- `src/` is the verified library (Verus). It holds every real-valued input as
  the bit pattern of its `f32` (`binary32::Binary32`) and proves, against the
  IEEE 754 order of those patterns:
  - `input::config`: the configuration schema and its validation (errors,
    depth-correction warnings, defaults);
  - `grid`, `ssp`, `bty`: cell search on the grid axes and the cursors that
    track the current sound-speed and bathymetry cells, the bathymetry field
    and its bottom model;
  - `influence`: receiver layout of the pressure field, row-major receiver
    indexing, caustic detection and the earliest-arrival records with their
    merge;
  - `reflect`: which boundary reflects a ray;
  - `engine`: ray enumeration order and the split of rays into work chunks.
- `app/` is the command-line program and the Python bindings: JSON I/O,
  the floating-point ray integration, interpolation, reflection
  coefficients and beam influence, and the thread pool.
- `tests/` exercises the library.
