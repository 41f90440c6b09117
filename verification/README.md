# flare

A sampling profiler for the JVM, in three parts: an agent inside the JVM
that takes stack samples of every thread, a collector that stores the
samples of a session on disk, and an analysis side that turns them into call
trees, flame-graph frames and CPU-time charts.

`src/` is the verified library:

- `endian`, `text`, `arith`, `errors`, `value_type`, `clock`: byte order,
  decimal text, truncating division, error values, the value types of the
  store.
- `file_utils`, `timeseries`, `tuple_indexed`: the on-disk formats of the
  sample store (headers, time series of CPU time, tuple-indexed files of
  stack samples and method names). File contents come in as bytes and the
  writes to make go out as `FileWrite` lists.
- `protocol`: the RESP values the agent and the collector exchange, and
  their encoding.
- `agent`: the agent's bookkeeping of event handlers and capabilities, the
  JVM as traits (`JVMF`, `JVMTI`, `JNI`), its options and start-up
  decisions, the stack traces of all threads, the sampler that turns them
  into records and answers the server's requests, and the bounded sample
  queue.
- `client`: the per-thread call trees merged from stack samples, their text
  and display-tree forms, and the client's thread table.
- `server`: the collector's thread table and dashboard, the merged and the
  time-ordered call trees, collapsed stacks, flame-graph frames, chart
  ranges, and the grouping of slow method calls.

`tests/` exercises the library on concrete values.

`app/` is the profiler program around the library: sessions, files,
sockets, JSON and the agent's TOML configuration file.
