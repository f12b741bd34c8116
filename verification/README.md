# wavelet

A single-threaded, graph-based stream-processing runtime. Nodes form a
dependency graph; each cycle runs the nodes that events (notifications,
yields, timers, I/O readiness) or upstream changes asked for, shallowest
first, each at most once per cycle.

## Layout

- `src/` — the verified library (Verus):
  - `scheduler`, `graph`, `dispatch`: depth-ordered queues, the node graph
    (over `petgraph`) and the once-per-epoch scheduling rule;
  - `executor`: the cycle as steps (`begin_cycle`, `schedule_io`,
    `next_node`, `complete_node`, `end_cycle`, or `stop_cycle` after a
    node asked to terminate) for an embedding loop that runs the nodes'
    code;
  - `event_driver` (with `timer_driver`, `yield_driver`): notifications,
    yields and timers, and how long a cycle may wait for I/O;
  - `clock`: cycle times, the test, historical and precision clocks;
  - `channel`, `queue`: the bounded channel into a node;
  - `parents`, `wsnl`, `runtime`, `context`, `garbage_collector`: node
    parents and depth, the standard nodes' decisions, runtime building.
- `app/` — plain Rust around it: nodes with data and closures, the `mio`
  I/O driver and notifiers, runtime loops, senders and receivers, the
  standard node factories, and the error types with `Display`.
- `tests/` — tests of the library.
