# driver_rust

A driver for the elevator hardware (or its simulator), spoken to over TCP
with packets of four bytes.

- `src/` is the verified library: the message and event types, the wire
  protocol (`elevio::sock`), the dispatch of messages to packets and the
  change detection that turns polled readings into events
  (`elevio::interact`), the text of events (`elevio::elev`), and the rule
  of the demo controller (`control`).
- `app/` is the program around it: the TCP connection, the channels to the
  user, the polling thread, and a small demo in `main`.
- `tests/` runs the library on concrete values.
