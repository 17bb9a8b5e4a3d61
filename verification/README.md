# wf_echo

A terminal viewer for the traffic that a WraithFlow proxy writes to its
capture log (one JSON record per line). The viewer lists the captured flows
newest first, filters them by pipeline name or content, follows live traffic
or keeps a chosen flow selected while browsing, and shows a flow in full.

- `src/` is the library, verified with Verus: the flow model and its stable
  newest-first sort (`flow`), the viewer state and its operations (`app`),
  key handling per mode (`input`), what the screen shows (`ui`), locating the
  capture log (`config`), colours from the CYBERGRID palette (`theme`),
  capture timestamps (`time`), text helpers (`text`) and properties over
  several operations (`laws`).
- `app/` is the program: command line, file and terminal I/O, JSON parsing,
  and rendering with ratatui.
- `tests/` exercises the library on concrete values.
