# theshy

A small SOCKS5 front for a tunnelling proxy. Browser connections talk
SOCKS5 to the listening side; once the target is known, the first payload goes into a
frame (host length, host, line id, payload), shuffled with `sni_shuffle`,
over a pooled connection to the remote proxy, whose side opens the frame
again.

Layout:

- `src/` — the verified library (Verus):
  - `head.rs` line types and log tags;
  - `line.rs` a connection's state and queue;
  - `fox.rs` the SOCKS5 exchange and the outgoing frame;
  - `operator.rs` opening a received frame, and the round-trip law;
  - `sni.rs` the shuffle, big-endian ids and the clear frame;
  - `hub.rs` the table of lines, pairing, event handling;
  - `pool.rs` the caller pool check and the sweep of dead lines;
  - `ini.rs`, `config.rs` the settings file (through `configparser`);
  - `log.rs` the log file layout; `text.rs` decimal text.
- `app/` — sockets (`mio`), the poll loop, log files, the settings file,
  the clock and the panic hook.
- `tests/` — tests of the library.
