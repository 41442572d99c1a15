# proxy_core

The verified core of a Minecraft proxy that lets Bedrock clients play on Java
servers and converts newer Java protocols to 1.8.

- `src/` is the library, verified with Verus: the Bedrock wire codecs
  (VarInts, strings, vectors, MovePlayer and Text packets), the Java-to-Bedrock
  chunk and block translation, the decisions of the translation loop, the
  Bedrock login header and JWT payload, the Java packet-id and conversion
  tables with the conversions that rearrange fields, the plugin call protocol
  and the listener's MOTD line. Byte buffers are `bytes::BytesMut`, seen
  through the sequence of bytes they hold; base64 decoding is the `base64`
  crate's.
- `tests/` runs the library on concrete packets.
- `app/` holds what stays outside the verified library: the RakNet listener
  and login, the serde forms of the library's types, the floating-point
  conversions, and the exports of the mock WebAssembly plugin.
