# gtest

Test runs of messages through programs, without a node, verified with Verus.

- `src/` is the library. `manager` routes messages between actors, runs mocks and keeps what
  programs ask for. `state` says what the manager holds and what each event does to it, and `laws`
  what holds of it whatever happens. `sandbox` runs WebAssembly code by itself, for benchmarks.
- `tests/` runs the library.
- `app/` is a system around the library. It reads the clock, owns the loop of a run, and hands
  WebAssembly programs to whatever runs them.
