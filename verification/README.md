# pointer_horror

The verified core of an interactive tour of memory safety: C, Rust and
TypeScript demos of array access, pointer lifetimes and the cost of memory
management, started from a terminal launcher.

- `src/` — the library, verified with Verus:
  - `arrays` — slicing, bounds-checked indexing, `get` and summing a slice;
  - `ownership` — returning owned values, searching with `Option`;
  - `latency` — benchmark batches, their checksum, the percentile summary
    of batch times, bars, the progress meter and the spinner;
  - `launcher` — the demo registry, the menu drawn from it, key events,
    the decision for each key, and the demo directories;
  - `menu` — trimming and reading a line typed at a demo menu;
  - `style` — terminal colours and the frames around code listings.
- `app/` — the programs themselves: terminal I/O, raw mode, signals,
  building and running the demos, timing. `app` with no argument runs the
  launcher; `part1`, `part2` and `part3` run the Rust demos.
- `tests/` — tests of the library on concrete values.
