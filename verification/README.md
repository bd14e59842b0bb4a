# omni

A verified library (Verus) with two parts:

* **Omni containers** – LEB128 varints (`varint`, `varint_order`), blocks made of
  `[length][type][payload]` (`block`), the magic number, framed data
  (`omni_data`, `omni_frame`) and the error type (`error`). Encoders and
  decoders are proved against a mathematical model of the byte format, with
  round-trip laws (`law_decode_encode`, `law_block_type_roundtrip`,
  `law_block_roundtrip`, ...).
* **Command lines** – arguments with prefixes, separators and delimiters, rendered
  to text or argv tokens (`command`), and builders for `flatpak` invocations
  (`flatpak`), including the parser for `flatpak list` output.

`app/` holds what stays outside verification: the demonstration `main`, reading
and writing blocks through `std::io`, and running commands with `std::process`.
