# easy-usb-core

The core of USB/IP over TCP: the wire format, the handshake, sessions, and the registry of
devices. The library is written in Verus, and its contracts say what each function does.

- `src/protocol`: messages as values (`wire`) and as bytes (`codec`), cutting them out of a
  stream (`framing`), asking for a device (`handshake`), serving one (`server`), and using one
  (`session`). `laws` and `exchange` state what holds of the codec and between the two ends of a
  connection. `buffer` says what is relied on of the `bytes` and `byteorder` crates.
- `src/engine`: the registry of devices and what always holds of it.
- `src/port`: the values and errors that the surroundings of the engine exchange with it.
- `app`: sockets, tasks and channels around the library. It does the reading, writing and
  waiting, and leaves every decision to the library.
- `tests`: the library on concrete values.
