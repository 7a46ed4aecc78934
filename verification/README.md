# mc_networking

The Minecraft network protocol as a Verus library: wire data
types, packet framing with compression and encryption, the packets a server
reads and writes, and the state machine of a client connection, each with a
contract proved by Verus.

## Layout

- `src/data_types/`: the primitive codecs (`encoder/`: fixed-width integers,
  VarInt, VarLong, strings, with the read-after-write laws in
  `encoder/roundtrip.rs`), positions, poses, particles, identifiers, slots
  (whose NBT data is checked by the walk in `nbt_scan.rs` before `nbt`
  reads it), entity metadata, bit sets, packed bit buffers and the command
  graph.
- `src/packets/`: frames (`RawPacket`, compressed with `flate2`), the packets
  the client sends (`server_bound.rs`, each decoder stated against a reading
  of its fields) and those the server sends (`client_bound.rs`, each encoder
  stated by its bytes).
- `src/client/`: the connection's decisions (`protocol.rs`), what a failed
  connection answers (`failure.rs`), keep-alive rounds, the login key and the AES/CFB8 stream ciphers (`crypto.rs`, over
  `openssl`), and the byte streams in and out (`stream.rs`).
- `src/entity/`, `src/chunk_pool.rs`: network ids, chunk locations and the
  chunks an observer or a player of a chunk pool keeps loaded, and the
  chunk pool's record of the chunk each player was last synced at.
- `src/commands.rs`, `src/summon.rs`: the `fly`, `gamemode` and `summon`
  chat commands.
- `src/nbt_map.rs`: the registry format sent at login.
- `src/handlers.rs`: a server's decisions on logins (admission and entity
  ids) and on creative-mode inventory changes.
- `src/events.rs`: the event and event handler traits.
- `app/`: the tokio tasks that read and write a client's socket and perform
  what the connection decides, and the event manager.
- `tests/`: tests on concrete values, run against the compiled library.
