# tcping

Probes a TCP target (`host:port`) at an interval and reports each connection
attempt and the statistics of the session: counts, streaks, packet loss,
round-trip times, uptime and downtime. Reports go to the console (with
colors), to JSON, to CSV files or to an SQLite database.

## Layout

- `src/` is the verified library (Verus): reading the command line into a
  configuration, what a probe's address lookup and connection attempt come
  to, the retry policy, the session's statistics and the decisions of the
  probing loop, and the text of every report line and record.
  Times are microseconds on the session clock; round-trip times are
  microseconds too.
- `app/` is the program around it: command-line parsing (clap), the network
  operations, the clock, signal handling (tokio), colors (colored), JSON
  serialization (serde), and writing CSV files (csv) and the database
  (rusqlite).
- `tests/` exercises the library.
