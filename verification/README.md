# nitro_attestation

Verified core of the AWS Nitro Enclave attestation tooling, written in Verus.

- `src/hex_codec.rs`: `0x`-prefixed lowercase hex text of byte strings and its
  decoding (through the `hex` and `alloy-primitives` crates), with the proof
  that decoding the text of a byte string gives it back.
- `src/journal.rs`: the verifier journals and their mathematical values.
- `src/wrapper.rs`: the text forms of the journals handed to a JavaScript
  frontend; conversions both ways, with exact contracts and round-trip proofs.
- `src/program_build.rs`: the build mode read from `REPRODUCIBLE_BUILD`, the
  step taken per target, and the cargo lines that wire the ELFs.
- `src/prover.rs`: the Pico and RISC Zero programs, their identifiers, the
  on-chain form of a Pico proof, and the checks behind a Boundless request.
- `src/cli.rs`: the choice of prover from command-line arguments.
- `app/`: the I/O around the library: WASM bindings, clap arguments, the
  build-script driver and the zkVM SDK calls.
