# lightspark_crypto_ruby

The verified core of the `LightsparkCrypto` Ruby extension.

- `src/` (Verus): decoding of the Ruby network codes, the errors raised to
  Ruby and their messages, splitting a mnemonic phrase into words and joining
  words back into a phrase (with the round-trip laws proved), and the records
  handed to Ruby (key pairs, invoice signatures, funds recovery responses).
- `app/lib.rs`: the Ruby extension itself (magnus), which reads Ruby values,
  calls the Lightspark crypto library and hands its results to the core.
- `tests/`: tests of the core.
