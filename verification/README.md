# ironpath

The verified core of a small autonomous ground-robot simulator.

`src/` is the library, checked by Verus:

- `robot`: the robot's operating states, their telemetry names, the
  low-battery rule applied after each motion step, and when a mission ends.
- `navigation`: progress along a route of waypoints (`RouteProgress`).
- `mission`: the decisions of one control tick: the new state, the manoeuvre,
  and the count of obstacle-avoidance episodes.
- `sensors`: the seeded linear congruential generator behind the sensors' noise.
- `telemetry`: latency samples (`Duration`), their average and their value at
  a given rank of the sorted samples (percentiles).
- `lib.rs`: the simulation's error type.

`app/` is the simulator program: vector geometry, PID control, robot physics,
sensor readings, the multithreaded control loop and CSV telemetry, all of which
work on floating-point values, plus file and channel I/O.
