# qpack

A verified implementation of QPACK, the field compression of HTTP/3 (RFC 9204), with
its prefix integers and Huffman code (RFC 7541), written in Verus.

- `src/` is the library. Every function in it carries a contract that Verus proves: the
  static and dynamic tables, the encoder and decoder instructions, field-section encoding
  and decoding, the encoder's planning of each section, and conversions to and from the
  `http` crate's types. The laws that relate several functions (what a decoder reads back
  of what the encoder wrote, replaying the encoder stream on the peer's table, the
  canonical Huffman and integer forms) stand there as proof functions.
- `tests/` runs the library on concrete values.
- `app/` holds what Verus does not check: the async encoder and decoder streams, and the
  observer whose floating-point averages decide which header pairs count as hot.
