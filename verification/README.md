# rift

The decision-making core of a macOS tiling window manager's actors, verified
with Verus.

- `src/system.rs`: the reactor's system events: menu depth and
  focus-follows-mouse, re-registering window notifications after wake-up,
  raise-manager messages and the controller channel.
- `src/mission_control.rs`: the mission-control overlay as a state machine
  from events to effects.
- `src/stack_line.rs`: the stack-line indicators: which groups get an
  indicator, when one is cleared, clicks and cursor hysteresis.
- `app/`: the macOS side (run-loop sources, windows, cursor, and the
  floating-point indicator geometry) that carries out the effects.
