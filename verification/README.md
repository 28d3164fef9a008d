# faultline

Repeatable network faults: loss, bursts of loss, delay, jitter, reordering,
duplication, bandwidth limits and outages for chosen flows, as one-off sessions
or as experiments that are planned, run, recorded and compared.

`src/` is the library. Verus proves every function in it against its contract,
except for a few small wrappers around `std`, `ipnet` and `serde_json`, in
`text`, `net`, `json` and `builder`: what these say of the functions they call
is believed, and stands in their doc comments.

- `common`, `packet`, `classifier`: what happens to a packet, from its bytes and
  the words shared between processors to its fate, its timestamp and the
  counters.
- `net`, `text`, `words`, `duration`, `json`: addresses, texts, times and
  encoded messages.
- `protocol`, `rule`, `rule_table`, `rule_store`, `options`, `scenario`,
  `control`, `socket`, `stats`, `pacing`, `attachment`: the engine that puts
  rules in force and reports on them.
- `agent`, `session`, `container`, `preparation`, `invocation`: where a session
  runs and what it starts and owns.
- `workload_spec`, `experiment_spec`, `selection`, `plan`, `rerun`,
  `publishing`, `environment`, `execution`, `sameness`, `comparison`:
  experiments, their plans and what came of them.
- `driver`, `playback`, `recorder`, `observed`, `traffic`: how a plan is carried
  out.
- `console`, `screen`, `builder`, `editing`, `launcher`: the frontend.
- `lab`: a small server and clients to watch faults with.

`app/` holds what touches the system: the kernel program and its maps, sockets,
processes, files, floating point and the terminal. `tests/` runs the library.
