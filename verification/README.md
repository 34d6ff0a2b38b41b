# speedtest_exporter

A Prometheus exporter for the Ookla Speedtest command-line tool, with its decision
logic verified by Verus.

- `src/` — the verified library: settings validation (`config`), unsigned decimal
  reading and writing (`decimal`), the speedtest command line and the meaning of the
  tool's exit status and output (`runner`), and the server-information label
  bookkeeping (`metrics`).
- `app/` — the program: environment access, starting the tool, JSON decoding of its
  floating-point results, the Prometheus gauges, the schedule and the HTTP server.
- `tests/` — tests of the library.
