# vtcp

The receiving half of a TCP socket, verified with Verus.

A socket keeps its state in components: connection management, reliable and ordered delivery,
flow control and congestion control. A segment that the socket takes is turned into events, and
each component changes by its events only.

- `src/socket.rs`: the socket: which segments it takes, how it judges an acknowledgement, how it
  answers, how it takes in data.
- `src/socket/delivery.rs`: the mathematical model of the receiving side.
- `src/socket/stream.rs`: what the model guarantees: the stream comes out as it was sent, in
  whatever order its pieces arrive.
- `src/socket/laws.rs`: what holds of sockets as a whole.
- `src/socket/state.rs`, `events.rs`, `timer.rs`, `rtt.rs`, `congestion.rs`: the components.
- `src/storage`: the ring buffer and the assembler that tracks what arrived out of order.
- `src/wire`, `src/time.rs`: sequence numbers, segments, IP headers, instants and durations.

The one thing that is trusted is the reading of the system's clock, in `src/time.rs`.
