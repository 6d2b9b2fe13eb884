# shroom

A verified library for the Shroom game protocol, its WZ data files and its
tick-based server.

- `src/` is the library, checked by Verus. Every public function states in
  its contract what it returns or changes, with two limits: of the current
  time, which the clock decides, only how reading it fails; and of a failed
  decode, only whether it ran out of bytes (`DecodePacket::decode` names no
  other error, and `try_decode` hands on whatever error it gave). The laws of
  the library (encodings read back what was written, masks undo themselves,
  rooms shut down only when nobody joined, ...) are proof functions next to
  the code they speak of.
  - `reader`, `writer`, `pkt`, `proto`, `util`, `analyzer`: the packet codec.
  - `wz`: string masks, compressed integers, string headers, checksums, canvas
    geometry and RGBA conversion, string tables, image lists, path traversal, the archive header.
  - `srv`: game time, the delay queue, tick intervals, message draining, room
    shutdown, the directory of open rooms, session bookkeeping.
- `app/` is plain Rust around it: the tokio runtime pieces (clock, actors,
  rooms, sessions), `std::io` readers and writers of WZ data, and conversions to
  the types of `bytes`, `either`, `chrono` and `nt-time`.
- `tests/` runs the library on concrete values.
