# weight_throwing

Huang's weight-throwing termination detection, verified with Verus.

A controlling agent starts with the whole weight.  An active process that
sends a computation message gives part of its weight to it (rule 1); a
process that receives one adds the weight and becomes active (rule 2); a
process that goes idle returns all its weight to the controlling agent in a
control message (rule 3), which the agent adds to its own (rule 4).  When the
controlling agent holds the whole weight again, the computation is over.

Weights are exact fixed-point quantities: `WEIGHT_UNITS` units make a weight
of one, and fractions are taken in parts per million, rounded down.  With
exact weights the conservation of weight holds without rounding error, and
Verus proves it.

Layout:

- `src/weight.rs` – the constants and the splitting of a weight.
- `src/message.rs` – messages, events and the activity state.
- `src/process.rs` – the rules of one process as spec functions, and the
  executable process that follows them; a round takes its random draws
  either as arguments or from `rand`'s thread-local generator.
- `src/randomness.rs` – the calls into `rand`.
- `src/monitor.rs` – detection of termination from what the controlling
  agent publishes.
- `src/sums.rs`, `src/system.rs` – the laws: every round and every run of
  rounds conserves weight, every round keeps the shape of the whole system
  started fresh; when the controlling agent holds the whole weight, every
  other process is idle and nothing is in transit; when it holds the whole
  weight up to the monitor's tolerance, every other process is idle and only
  control messages, carrying less than the tolerance, may be in transit.
- `app/main.rs` – the simulation: threads, channels, a dispatcher standing
  for the network, and the monitoring loop.
