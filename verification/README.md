# carbide_scout

The decisions behind a fleet controller's command runner, its scout agents and
its state history, verified with Verus.

- `src/` is the library. `exec`, `run` and `backoff` decide how commands are
  run, timed out and tried again; `registry`, with its `connections` and
  `flow_tables`, `scout` and `relay` decide where the messages between the
  controller and its agents go; the `log_*` modules
  decide what a viewer of the logs is sent; the `*_state_history` modules and
  `ib_membership_cleanup_intent` say what is stored. What an outside crate
  computes is behind a small function with a stated contract.
- `app/` performs the steps that the library asks for: it starts processes,
  sleeps, sends messages and runs statements, and reports back what came of
  each.
- `tests/` runs the library on given values.

A conversation with the outside that takes several steps is a machine: a step
says what to do next, the event that comes of it leads to the next step, and
the laws beside the machine hold of every sequence of events.
