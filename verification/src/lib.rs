//! Verified core of the AWS Nitro Enclave attestation tooling: the wrapper
//! types that carry verifier journals across a JSON boundary, the choice of
//! a zkVM prover from command-line arguments, and the build-mode logic of the
//! zkVM program builds.
pub mod hex_codec;
pub mod journal;
pub mod wrapper;
pub mod program_build;
pub mod prover;
pub mod cli;
