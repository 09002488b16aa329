# mqtt

An MQTT 5 library whose wire formats are verified with Verus, and a small
broker program around it.

- `src/codec/`: the codec over `bytes` buffers. Every packet type has a
  decoder and an encoder whose contracts are stated over spec functions from
  bytes to models; the `*_laws.rs` files prove that what the encoders write
  the decoders read back (property lists, fixed headers, variable headers and
  whole packets), and `parse_laws.rs` that parsing a packet of any type reads
  what the reader of its own type reads; `write.rs` writes a packet of any
  type, and `fixed_header_ready` tells when a buffer holds one whole frame.
- `src/borrowed/`: a reader over byte slices whose packets borrow their
  strings and binary data from the input.
- `src/connect_defaults/`: readers of a fixed header with expected flags, of
  property lists keyed by one-byte identifiers, and of CONNECT packets with
  the defaults of absent properties filled in.
- `src/raft/`: the decisions of a Raft node: which messages it accepts, the
  quorum size, what each role (candidate, follower, leader) does with a
  message or a tick, how a node starts and starts a campaign, the index a
  quorum of logs reaches, which entries a commit applies, and the driver that
  feeds a user's state machine and answers clients (notices, queries waiting
  for votes, aborts). Each decision returns what to do; the log and the
  channels stay with the caller.
- `src/broker.rs`: the broker's configuration, per-channel state, and how it
  answers the packets it receives and an idle channel.
- `app/`: the broker program (configuration file, TCP listener, the read and
  write loop of each connection) and a pinging client.
- `tests/`: tests of the library on concrete packets, messages and
  instructions.
