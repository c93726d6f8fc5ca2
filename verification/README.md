# udp_chat

A small UDP chat: a server that keeps the table of joined peers, and clients
that join it under a name, send lines, and answer the server's heartbeats.

- `src/` is the verified library, checked by Verus.
  - `common/`: the messages (`ToServer`, `FromServer`), socket addresses as
    plain values, the trimming of typed names, and the buffered `Connection`.
  - `server/`: the table of peers (`Processor`), the model it is proved
    against (`model.rs`), the actions it asks for, and its laws (`laws.rs`).
  - `client/`: what a client does about each event (`session.rs`) and its laws.
- `app/` is the program around it: sockets, channels, timers, the command
  line and the wire format. Run `udp_chat server [-a ADDRESS]` or
  `udp_chat client -a ADDRESS -p PORT`.
- `tests/` runs the library on concrete values.
