# lx16a

A driver for LX-16A serial bus servos, verified with Verus.

- `src/packet.rs`: the packet format, its checksum, forming request packets
  and checking response packets, with the laws that tie the two together.
- `src/codec.rs`: the parameter bytes of each servo command and how the
  bytes of a response are decoded, with their round-trip laws.
- `src/byte_order.rs`: little-endian 16-bit fields, through `byteorder`.
- `src/servo.rs`: `Lx16aBus` and `Lx16a`, one method per servo command, over
  a `Port` that carries the bytes.
- `src/error.rs`: `Lx16aError`.
- `app/lib.rs`: a `Port` over any `Read + Write` device, and the conversion
  of `Lx16aError` into `std::io::Error`.
