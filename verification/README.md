# rytm-rs

Typed, lossless models of Elektron Analog Rytm MKII `SysEx` objects, written in Verus and
proved against their contracts.

- `src/sysex.rs`: object types, `SysEx` metadata, the checks a response passes before and after
  `libanalogrytm` decodes it, and `RawSysexObject`, which keeps a validated response byte for byte.
- `src/object/kit/`: the Scene and Performance macro definitions of a Kit, over the 48 shared
  four-byte lock records of each table.
- `src/object/pattern/plock.rs`: a pattern's parameter-lock pool.
- `src/object/song.rs`, `src/object/song_table.rs`: the Song object, its name, rows and pattern
  positions.
- `src/util.rs`: the standard-library text functions the Song name goes through.
- `app/`: what runs `libanalogrytm` (the `rytm-sys` crate) or needs `serde`: decoding and encoding
  messages, the pool's conversion to the codec's layout, and serializable forms of the types.

Not modelled: the per-machine sound parameters and their dispatch over the machine types. The
machine definitions and the project type that links a sound's parameter locks to a pattern's
pool are not in this crate, and that dispatch reads and writes the codec's raw sound layout and
takes floating-point values.
