# udisk_inspector

A USB flash drive inspector: it detects fake-capacity drives by writing
numbered pseudo-random 1 MiB blocks and reading them back, benchmarks
sequential and random speed, scans for bad blocks, runs a sustained-write
thermal test, scores the drive out of 100 and writes an HTML report.

## Layout

- `src/` — the verified library (Verus). Every function carries a contract
  proved by Verus:
  - `prng`, `block` — the xorshift64 pattern generator, test-block
    generation and the block verdict (a block read back at the wrong place
    is reported as a wrong mapping).
  - `capacity`, `badblock` — the bookkeeping of the capacity and bad-block
    scans (every block accounted for, bad blocks listed in order and once,
    real capacity never above the claimed one).
  - `speed` — the chunk plan of the sequential test and the offsets of the
    random 4 KiB transfers.
  - `score`, `thermal` — how the score parts are bounded, combined and
    graded, and the thermal risk classes.
  - `plan`, `cli`, `types` — test selection, the order a run performs its
    tests in, and the tally of what the block tests found.
  - `text`, `wmic`, `wmi`, `plist` — parsers for the output of `wmic`, `df`,
    WMI and `diskutil`.
  - `report` — the HTML report.
- `tests/` — tests of the library on concrete values.
- `app/` — the command-line program: argument parsing, the platform tools,
  the file I/O of the tests, timing and floating-point statistics, the
  SQLite report store and the printed output.
