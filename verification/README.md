# tuxscale

A desktop front end for the `tailscale` CLI. The library in `src/` holds the
app's logic, verified with Verus:

- `app` — the app's state and its state machine: `App::update` takes a
  message (user input, or the answer to earlier work) and returns the next
  piece of work as an `Action`; `step` states what each message does.
- `laws` — properties of `step` across messages and sequences of messages.
- `tailscale` — the CLI's reports as plain data, and what is computed from
  them: a node's address and short name, the exit-node listing, ping
  summaries, the arguments of `tailscale set`.
- `order` — a verified stable insertion sort over any strict weak order, and
  the uniqueness of its result.
- `peers` — the order of the peer list (online first, then by host name).
- `ping_log` — the last ping result of each address.
- `ui` — the decisions the window shows: labels, which button does what, the
  closest regions of a netcheck.
- `text` — line, word and order handling on `char` sequences, matching `str`'s
  `lines`, `split_whitespace`, `trim`, `contains` and `String`'s order.

`app/` is the program around it: the iced window, the tray icon, running the
CLI with tokio and reading its JSON with serde.
