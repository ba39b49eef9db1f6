# fiber_types

The wire types of a payment-channel protocol on CKB, with their molecule
encoding, verified with Verus.

- `src/molecule.rs`: the header-and-offsets layout of molecule tables and
  dynamic vectors, with the proof that encoding and splitting undo each other.
- `src/schema.rs`: the field types of the schema and the order in which a
  message is checked: layout first, then the conversion of each field.
- `src/fields.rs`: numbers, byte vectors, vectors of byte vectors and
  optional scripts as fields.
- `src/messages.rs`: the messages, the union `FiberMessage`, and the laws that
  decoding an encoding gives the message back and that a decoded message
  encodes back to its bytes.
- `src/keys.rs`: secp256k1 keys and signatures and musig2 values, held as
  their bytes; what only secp256k1 and musig2 compute stands behind small
  wrappers whose contracts say what those crates do.
- `src/ckb.rs`: `Since` values of ckb-sdk, and scripts and transactions that
  ckb-types checks.
- `src/lock_time.rs`, `src/hash.rs`: lock times and 32-byte hashes with their
  byte and text forms.
- `app/lib.rs`: the shared secp256k1 context, conversions to the types of the
  outside crates, and the serde and `Display` forms.
