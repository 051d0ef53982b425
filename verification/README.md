# rnav

A terminal viewer for log files. It merges the lines of several files in the
order of their timestamps (RFC 2822 or RFC 3339), and lets the user scroll,
mark lines, filter them in or out by regular expression, highlight matches
and search.

- `src/` is the library, verified with Verus: the merged lines and the view on
  them (`app_state`), the command line (`command`, `mode::command`), the
  filters (`filter`, `mode::filter`), the search prompt (`mode::search`), log
  files, lines, levels and timestamps (`log`, `log_file`, `log_line`,
  `logline`, `time`), and the plain values the terminal front end draws
  (`style`, `input`). Regular expressions run on the `regex` crate
  (`pattern`), timestamps on `chrono`.
- `app/` is the program: argument handling, reading and unpacking the files,
  the terminal loop, and drawing with `ratatui`.
- `tests/` runs the library on concrete values.
