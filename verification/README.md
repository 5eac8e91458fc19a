# native_high_performance

A verified core for a small native data-plane, with the I/O around it.

- `src/metrics.rs` — the metrics ring watcher as a state machine: the address
  of the slot to read, what to do with the frame read there (the total to
  publish, the frame to write back), the next slot.
- `src/counter.rs` — publishing a packet total to the shared atomic counter.
- `src/scraper.rs` — scraping one database page into the descriptor ring:
  which descriptors go to which slots, how the head moves, when the ring
  saturates.
- `src/telemetry.rs`, `src/text.rs` — bytes written to a disk, read from the
  kernel's disk statistics (whitespace fields, unsigned decimal numbers).
- `src/response.rs` — the HTTP/JSON telemetry response, byte for byte.
- `src/routing.rs` — the choice of engine from the command line.
- `app/` — the programs: volatile memory access, files, threads, sockets,
  timers and printing.
