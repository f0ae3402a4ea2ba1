# bevy_solana

A Verus-verified core for generating Bevy components and Solana instruction
builders from an Anchor IDL.

- `src/idl.rs` — the IDL model and the depth-first flattening of account groups.
- `src/ident.rs` — which names are identifiers (XID rules).
- `src/naming.rs` — the type names derived from instruction names.
- `src/types.rs` — how IDL type names map to Rust types and serializers.
- `src/plan.rs` — what the generator emits for an IDL (components, builders).
- `src/encode.rs` — the instruction-data encoding that builders perform, with
  its layout and read-back laws.
- `src/builder.rs` — building an instruction from a plan, keys and arguments.
- `src/account.rs` — reading a component's fields back from on-chain account
  data, with its read-back law.
- `src/pubkey.rs`, `src/wire.rs` — the key type, base58 program ids and the
  base64 transaction payload, each stated in full.
- `app/` — the I/O around the library: reading and parsing the IDL file,
  writing tokens, loading the wallet, signing and packaging a transaction.
