# hybrid_chain

A small ledger whose blocks are produced either by proof of work (blocks
moving more than 1000 tokens) or by proof of authority (the rest), with
users whose Ed25519 private keys are sealed under a password-derived key.

- `src/` is the library, verified with Verus.
  - `block.rs`: users, transactions, blocks, and the header text a block's
    hash covers.
  - `blockchain.rs`: the chain, adding blocks, and the well-linked invariant.
  - `consensus/`: proof of work, proof of authority, and the hybrid.
  - `user.rs`: the user list and how transfers move balances.
  - `utils.rs`: key material, signing and checking transactions.
  - `encoding.rs`, `text.rs`: hexadecimal and decimal text.
  - `crypto.rs`: the calls into the hashing, key-derivation, signature,
    encryption, randomness and clock crates, with their contracts.
- `app/` is the interactive program around it (standard input and output,
  saving the chain as JSON).
- `tests/` exercises the library on concrete values.
