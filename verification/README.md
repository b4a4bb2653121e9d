# protoflow (ZeroMQ transport, verified core)

`src/` is a Verus library: port identifiers and states, the events that
ports exchange and their topics on the wire, the framing of a message event
as a ZeroMQ message, the table of a transport's ports with every decision the
transport takes on it, and the worker that numbers the messages of a
connection. `src/laws.rs`, `src/event.rs` and `src/worker.rs` hold the
properties proved across operations.

`app/` holds what runs around it: the sockets, channels and background tasks
of the transport, the stderr-writing block, and the serialisable form of
block configurations.
