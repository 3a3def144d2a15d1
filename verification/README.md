# tui4kas

A terminal dashboard for Kaspa nodes, written in Verus.

- `src/` is the verified library: command-line editing, the screens' state
  and what keys and clicks do to it, settings and their rules, protocol
  detection, block summaries from chain updates, the analytics engine with
  its time buckets, mining tallies, the help overlay's text, the rules for
  following an integrated node's log file (this program starts no node, so
  it does not use them), and the number and text formats the screens use.
  Every function carries a contract that Verus proves; the `law_*` proof
  functions state the properties that hold across calls.
- `tests/` runs the library on concrete values.
- `app/` is the program around it: terminal and event loop (crossterm,
  ratatui), the node connection (Kaspa wRPC), market prices (reqwest),
  settings and cache files (serde, toml, bincode), and the values that need
  floating point.
