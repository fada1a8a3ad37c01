use nitro_attestation::cli::{
    check_reproducible_build, BoundlessProofTypeCli, ContractArgs, ProgramIdCli, ProverArgs,
    ProverArgsError, ProverConfig,
};
use nitro_attestation::prover::BoundlessProofType;

fn args() -> ProverArgs {
    ProverArgs {
        risc0: false,
        sp1: false,
        pico: false,
        dev: false,
        sp1_private_key: Some("sp1-key".into()),
        sp1_rpc_url: None,
        risc0_rpc_url: Some("http://boundless".into()),
        risc0_private_key: Some("0x01".into()),
        risc0_verifier_program_url: None,
        risc0_aggregator_program_url: Some("ipfs://agg".into()),
        risc0_proof_type: BoundlessProofTypeCli::default(),
        risc0_min_price: Some(1),
        risc0_max_price: Some(2),
        risc0_timeout: None,
        risc0_ramp_up_period: Some(30),
    }
}

#[test]
fn no_prover_is_an_error() {
    assert!(matches!(args().prover_config(), Err(ProverArgsError::NoProver)));
}

#[test]
fn two_provers_are_an_error() {
    let mut a = args();
    a.risc0 = true;
    a.pico = true;
    assert!(matches!(a.prover_config(), Err(ProverArgsError::MultipleProvers)));
    a.sp1 = true;
    assert!(matches!(a.prover_config(), Err(ProverArgsError::MultipleProvers)));
}

#[test]
fn each_prover_gets_its_settings() {
    let mut a = args();
    a.sp1 = true;
    match a.prover_config() {
        Ok(ProverConfig::Sp1(c)) => {
            assert_eq!(c.private_key.as_deref(), Some("sp1-key"));
            assert_eq!(c.rpc_url, None);
        }
        _ => panic!("expected sp1"),
    }
    let mut a = args();
    a.risc0 = true;
    a.risc0_proof_type = BoundlessProofTypeCli::Merkle;
    match a.prover_config() {
        Ok(ProverConfig::Risc0(c)) => {
            assert_eq!(c.rpc_url.as_deref(), Some("http://boundless"));
            assert_eq!(c.aggregator_program_url.as_deref(), Some("ipfs://agg"));
            assert_eq!(c.verifier_program_url, None);
            assert_eq!(c.proof_type, BoundlessProofType::Merkle);
            assert_eq!(c.min_price, Some(1));
            assert_eq!(c.max_price, Some(2));
            assert_eq!(c.ramp_up_period, Some(30));
        }
        _ => panic!("expected risc0"),
    }
    let mut a = args();
    a.pico = true;
    assert!(matches!(a.prover_config(), Ok(ProverConfig::Pico(_))));
    let cli = ProgramIdCli { prover: a };
    assert!(cli.prover.pico);
}

#[test]
fn contract_args_need_both_parts() {
    let full = ContractArgs { contract: Some([7u8; 20]), rpc_url: Some("http://localhost:8545".into()) };
    assert!(!full.empty());
    assert_eq!(full.stub_target(), Some(([7u8; 20], "http://localhost:8545".to_string())));
    let no_address = ContractArgs { contract: None, rpc_url: Some("http://localhost:8545".into()) };
    assert!(no_address.empty());
    assert_eq!(no_address.stub_target(), None);
    let no_url = ContractArgs { contract: Some([1u8; 20]), rpc_url: None };
    assert!(no_url.empty());
    assert_eq!(no_url.stub_target(), None);
}

#[test]
fn reproducible_only_if_all_are() {
    assert!(check_reproducible_build(&[]));
    assert!(check_reproducible_build(&[true, true]));
    assert!(!check_reproducible_build(&[true, false]));
}
