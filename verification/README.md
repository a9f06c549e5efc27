# qnx_gdb_dap

A Debug Adapter Protocol (DAP) server for QNX targets debugged through
`GNU gdb 6.8 qnx-nto (rev. 506)` and its Machine Interface (MI).

The library under `src/` is verified with Verus:

- `gdb_mi/` — MI values and records, the record parser (proved equal to a
  functional grammar in `parser_spec.rs`), command encoding and the command
  constructors, the decisions of the GDB channel (startup synchronization,
  token matching) and of a session (initialization stages, breakpoint
  results, and `breakpoint_update.rs`, the step-by-step replacement of a
  source's breakpoints: delete the previous ones, then insert per line).
  Breakpoints are recorded per file, keyed by `path_key.rs`: spellings of
  one path that differ only in repeated separators, `.` segments or a
  trailing separator name one file, as they do for `Path`.
  `quoting.rs` proves that a quoted command argument reads back as an MI C
  string and as a console, target or log stream line.
- `dap/` — DAP messages and the framing of the transport: header lines are
  read through `HeaderState`, and messages written one after the other read
  back one by one, then the end of input.
- `adapter/` — launch, breakpoint and disconnect arguments, breakpoints in
  DAP form, the messages the adapter sends, and `AdapterCore`, the adapter's
  state machine: each request and each GDB event becomes the exact messages
  to send, numbered consecutively, and the next state. `run.rs` models a
  whole run; every request handler, and each begin/finish pair of the
  requests that wait on GDB, is proved to give exactly that model's step,
  and `run.rs` proves that over any run of requests and GDB polls the
  numbering has no gap and each request gets exactly one response, in order.

The program under `app/` runs the loop around the library: it reads and
writes framed JSON on standard input and output, starts GDB, carries out
the steps the adapter asks for and reports their outcome back.
