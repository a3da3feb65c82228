# imbh-tui

A terminal explorer for metrics, traces and logs, built around a verified library.

- `src/` is the library. It holds the session's state and every rule about it: what a key does, which
  requests are started and which answers still count, what the panes show and where they stand. Every
  function carries a contract, and what holds of the library as a whole is stated in the public proof
  functions whose names begin with `law_`.
- `tests/` runs the library on concrete sessions and screens.
- `app/` is ordinary Rust around it: the command's entry point, the terminal, the event loop, the
  sources that queries are sent to, the painting of panes, and what is computed in floating point.

The library reads no clock, no input and no data source. It takes the time, the keys and the answers as
values, and hands back the requests to start and the panes to paint.
