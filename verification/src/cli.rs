//! The command-line settings of the attestation tool: which zkVM proves, with
//! what settings, and which verifier contract is used.
use vstd::prelude::*;

use crate::prover::{BoundlessProofType, PicoProverConfig};

verus! {

/// Proof type for Boundless proving, as given on the command line.
#[derive(Clone, Copy, Debug, PartialEq, Eq, Structural)]
pub enum BoundlessProofTypeCli {
    Groth16,
    Merkle,
}

impl Default for BoundlessProofTypeCli {
    fn default() -> (t: Self)
        ensures
            t == BoundlessProofTypeCli::Groth16,
    {
        BoundlessProofTypeCli::Groth16
    }
}

/// Settings of the zero-knowledge proof system; only one of `risc0`, `sp1`
/// and `pico` may be chosen.
#[derive(Clone, Debug)]
pub struct ProverArgs {
    /// Use the RISC0 zkVM
    pub risc0: bool,
    /// Use the SP1 zkVM
    pub sp1: bool,
    /// Use the Pico zkVM
    pub pico: bool,
    /// Development mode for mock proofs
    pub dev: bool,
    /// Private key for the SP1 network prover
    pub sp1_private_key: Option<String>,
    /// RPC URL of the SP1 network
    pub sp1_rpc_url: Option<String>,
    /// Boundless RPC URL for RISC0 proving
    pub risc0_rpc_url: Option<String>,
    /// Boundless wallet private key (hex)
    pub risc0_private_key: Option<String>,
    /// URL of a pre-uploaded verifier ELF
    pub risc0_verifier_program_url: Option<String>,
    /// URL of a pre-uploaded aggregator ELF
    pub risc0_aggregator_program_url: Option<String>,
    /// Groth16 or Merkle
    pub risc0_proof_type: BoundlessProofTypeCli,
    /// Minimum price in wei per cycle
    pub risc0_min_price: Option<u128>,
    /// Maximum price in wei per cycle
    pub risc0_max_price: Option<u128>,
    /// Timeout in seconds
    pub risc0_timeout: Option<u32>,
    /// Ramp-up period in seconds
    pub risc0_ramp_up_period: Option<u32>,
}

/// Settings of the SP1 network prover.
#[derive(Clone, Debug, PartialEq, Eq)]
pub struct Sp1ProverConfig {
    pub private_key: Option<String>,
    pub rpc_url: Option<String>,
}

/// Settings of RISC0 proving on Boundless, for the verifier and the
/// aggregator programs.
#[derive(Clone, Debug, PartialEq, Eq)]
pub struct Risc0ProverSettings {
    pub rpc_url: Option<String>,
    pub private_key: Option<String>,
    pub verifier_program_url: Option<String>,
    pub aggregator_program_url: Option<String>,
    pub proof_type: BoundlessProofType,
    pub min_price: Option<u128>,
    pub max_price: Option<u128>,
    pub timeout: Option<u32>,
    pub ramp_up_period: Option<u32>,
}

/// The chosen proof system with its settings.
#[derive(Clone, Debug)]
pub enum ProverConfig {
    Sp1(Sp1ProverConfig),
    Risc0(Risc0ProverSettings),
    Pico(PicoProverConfig),
}

/// Why no prover could be chosen.
#[derive(Clone, Copy, Debug, PartialEq, Eq)]
pub enum ProverArgsError {
    /// More than one of `--risc0`, `--sp1` and `--pico`.
    MultipleProvers,
    /// None of them.
    NoProver,
}

pub open spec fn proof_type_of(t: BoundlessProofTypeCli) -> BoundlessProofType {
    match t {
        BoundlessProofTypeCli::Merkle => BoundlessProofType::Merkle,
        BoundlessProofTypeCli::Groth16 => BoundlessProofType::Groth16,
    }
}

/// The proof type given on the command line is the one asked of Boundless:
/// Groth16 stays Groth16 and Merkle stays Merkle.
pub proof fn lemma_proof_type_carried(t: BoundlessProofTypeCli)
    ensures
        t == BoundlessProofTypeCli::Groth16 ==> proof_type_of(t) == BoundlessProofType::Groth16,
        t == BoundlessProofTypeCli::Merkle ==> proof_type_of(t) == BoundlessProofType::Merkle,
{
}

/// How many proof systems the arguments choose.
pub open spec fn prover_count(a: ProverArgs) -> int {
    (if a.risc0 {
        1int
    } else {
        0int
    }) + (if a.sp1 {
        1int
    } else {
        0int
    }) + (if a.pico {
        1int
    } else {
        0int
    })
}

/// The settings of RISC0 proving that the arguments give.
pub open spec fn risc0_settings_of(a: ProverArgs) -> Risc0ProverSettings {
    Risc0ProverSettings {
        rpc_url: a.risc0_rpc_url,
        private_key: a.risc0_private_key,
        verifier_program_url: a.risc0_verifier_program_url,
        aggregator_program_url: a.risc0_aggregator_program_url,
        proof_type: proof_type_of(a.risc0_proof_type),
        min_price: a.risc0_min_price,
        max_price: a.risc0_max_price,
        timeout: a.risc0_timeout,
        ramp_up_period: a.risc0_ramp_up_period,
    }
}

impl ProverArgs {
    /// The prover configuration that the arguments choose: an error when more
    /// than one proof system is chosen or none is; otherwise that system, with
    /// the settings given for it.
    pub fn prover_config(&self) -> (r: Result<ProverConfig, ProverArgsError>)
        ensures
            prover_count(*self) > 1 ==> r == Err::<ProverConfig, ProverArgsError>(
                ProverArgsError::MultipleProvers,
            ),
            prover_count(*self) == 0 ==> r == Err::<ProverConfig, ProverArgsError>(
                ProverArgsError::NoProver,
            ),
            prover_count(*self) == 1 && self.sp1 ==> (r matches Ok(ProverConfig::Sp1(c)) && c
                == (Sp1ProverConfig {
                private_key: self.sp1_private_key,
                rpc_url: self.sp1_rpc_url,
            })),
            prover_count(*self) == 1 && self.risc0 ==> (r matches Ok(ProverConfig::Risc0(c)) && c
                == risc0_settings_of(*self)),
            prover_count(*self) == 1 && self.risc0 && self.risc0_proof_type
                == BoundlessProofTypeCli::Groth16 ==> (r matches Ok(ProverConfig::Risc0(c))
                && c.proof_type == BoundlessProofType::Groth16),
            prover_count(*self) == 1 && self.risc0 && self.risc0_proof_type
                == BoundlessProofTypeCli::Merkle ==> (r matches Ok(ProverConfig::Risc0(c))
                && c.proof_type == BoundlessProofType::Merkle),
            prover_count(*self) == 1 && self.pico ==> r matches Ok(ProverConfig::Pico(_)),
    {
        proof {
            lemma_proof_type_carried(self.risc0_proof_type);
        }
        let mut count: u8 = 0;
        if self.risc0 {
            count += 1;
        }
        if self.sp1 {
            count += 1;
        }
        if self.pico {
            count += 1;
        }
        if count > 1 {
            return Err(ProverArgsError::MultipleProvers);
        }
        if self.sp1 {
            return Ok(
                ProverConfig::Sp1(
                    Sp1ProverConfig {
                        private_key: self.sp1_private_key.clone(),
                        rpc_url: self.sp1_rpc_url.clone(),
                    },
                ),
            );
        }
        if self.risc0 {
            let proof_type = match self.risc0_proof_type {
                BoundlessProofTypeCli::Merkle => BoundlessProofType::Merkle,
                BoundlessProofTypeCli::Groth16 => BoundlessProofType::Groth16,
            };
            return Ok(
                ProverConfig::Risc0(
                    Risc0ProverSettings {
                        rpc_url: self.risc0_rpc_url.clone(),
                        private_key: self.risc0_private_key.clone(),
                        verifier_program_url: self.risc0_verifier_program_url.clone(),
                        aggregator_program_url: self.risc0_aggregator_program_url.clone(),
                        proof_type,
                        min_price: self.risc0_min_price,
                        max_price: self.risc0_max_price,
                        timeout: self.risc0_timeout,
                        ramp_up_period: self.risc0_ramp_up_period,
                    },
                ),
            );
        }
        if self.pico {
            return Ok(ProverConfig::Pico(PicoProverConfig::default()));
        }
        Err(ProverArgsError::NoProver)
    }
}

/// Settings of the Nitro Enclave verifier contract.
#[derive(Clone, Debug)]
pub struct ContractArgs {
    /// Address of the verifier contract
    pub contract: Option<[u8; 20]>,
    /// RPC URL of the Ethereum network
    pub rpc_url: Option<String>,
}

impl ContractArgs {
    /// Whether the contract settings are incomplete.
    pub fn empty(&self) -> (b: bool)
        ensures
            b == (self.contract is None || self.rpc_url is None),
    {
        self.contract.is_none() || self.rpc_url.is_none()
    }

    /// The address and RPC URL to reach the contract at, when both are set.
    pub fn stub_target(&self) -> (t: Option<([u8; 20], String)>)
        ensures
            match t {
                None => self.contract is None || self.rpc_url is None,
                Some((address, url)) => self.contract == Some(address) && self.rpc_url == Some(url),
            },
    {
        if self.empty() {
            return None;
        }
        match (&self.contract, &self.rpc_url) {
            (Some(address), Some(url)) => Some((*address, url.clone())),
            _ => None,
        }
    }
}

/// The arguments of the program-id command.
#[derive(Clone, Debug)]
pub struct ProgramIdCli {
    pub prover: ProverArgs,
}

/// Whether every zkVM in use had its ELFs built reproducibly; one that was
/// not makes the whole binary non-reproducible.
pub fn check_reproducible_build(flags: &[bool]) -> (r: bool)
    ensures
        r == (forall|i: int| 0 <= i < flags@.len() ==> flags@[i]),
{
    let mut reproducible = true;
    let mut i: usize = 0;
    while i < flags.len()
        invariant
            i <= flags@.len(),
            reproducible == (forall|k: int| 0 <= k < i ==> flags@[k]),
        decreases flags@.len() - i,
    {
        reproducible = reproducible && flags[i];
        i += 1;
    }
    reproducible
}

} // verus!
