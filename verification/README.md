# interstellar_rust

Earth–Moon trajectory search with particle swarm optimisation, and a 3D viewer of
the search history.

- `src/` is the verified library (Verus): decimation of trajectories for drawing,
  the swarm's starting grid, which projected points are joined by lines, and the
  viewer's cursor-lock and playback-speed controls, each with its contract and
  the laws that hold between them.
- `app/` is the program: configuration and history files, the floating-point
  physics (RK4 propagation, Moon ephemeris, cost function), the swarm's update
  step, and rendering with macroquad. It calls the library for the decisions above.
- `tests/` runs the library on concrete values.
