# monad-peer-discovery

Name records for peer discovery, verified with Verus. A name record says at which address and on
which ports a node is reached, which capabilities it has, and which sequence number the record has.
It is written as RLP and signed by the node that it belongs to.

- `src/rlp.rs` defines the wire format; `src/codec.rs` holds the calls into `alloy_rlp` with what is
  taken for granted of them.
- `src/encoding.rs`, `src/port.rs`, `src/record.rs` and `src/signed.rs` write and read lists, ports,
  records and signed records. Every decoder says for every input what it gives and what it leaves.
- `src/laws.rs` proves what holds across them: records are read back as they were written, no two
  records have the same encoding, a record with a repeated or missing port is refused, and a signed
  record recovers to its signer if the scheme recovers the signer of its own signatures.
- `src/discovery.rs` holds the events, commands and traits of peer discovery algorithms.
- `app/` connects the records to `alloy_rlp`'s traits and to `std::net`.
