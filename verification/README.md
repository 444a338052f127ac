# roxide

The verified core of a small model-rocketry toolkit: a simulator window
(`roxide`), the `timescale` table and logging macros, and the `preflight`
avionics harness.

- `src/` is the library, verified with Verus:
  - `decimal`: decimal text of motor numbers, written and read back;
  - `application`: the decisions of the simulator window (the motor
    selector's entries and what a selection does, and the guard that keeps
    the timestep and frequency inputs from updating each other in a loop);
  - `interpolated_data`: the analysis behind the `InterpolatedData` derive
    and the table of the structs it accepted;
  - `timescale_data`: what the `timescale_data` attribute serializes;
  - `avionics`: the checks and choices of the `avionics_harness` attribute;
  - `timescale`: the resolution of interpolated table lookups;
  - `force_generator`: the rocket motors the simulator knows.
- `app/` holds what Verus does not check: reading syntax trees with `syn`,
  writing tokens with `quote`, floating-point interpolation, and the `gtk`
  window.
- `tests/` runs the library on concrete values.
