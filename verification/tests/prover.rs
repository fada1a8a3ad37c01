use nitro_attestation::hex_codec::HexError;
use nitro_attestation::prover::{
    boundless_offer, decode_private_key, decode_public_values, dev_mode_enabled, evm_proof_bytes,
    words_to_le_bytes, BoundlessProofType, PicoProverConfig, ProgramPico, ProgramRisc0, ProgramSource, ProverError,
    RiscZeroProverConfig,
};

static ELF: [u8; 4] = [0x7f, b'E', b'L', b'F'];

#[test]
fn programs_keep_their_elf_and_image_id() {
    let pico: ProgramPico<(), ()> = ProgramPico::new(&ELF);
    assert_eq!(pico.elf(), &ELF[..]);
    assert_eq!(pico.version(), "v1.1.6");
    let risc0: ProgramRisc0<(), ()> = ProgramRisc0::new(&ELF, [1, 2, 3, 4, 5, 6, 7, 8]);
    assert_eq!(risc0.elf(), &ELF[..]);
    assert_eq!(risc0.image_id(), [1, 2, 3, 4, 5, 6, 7, 8]);
}

#[test]
fn risc0_program_id_is_little_endian_words() {
    let risc0: ProgramRisc0<(), ()> = ProgramRisc0::new(&ELF, [0x04030201, 0, 0, 0, 0, 0, 0, 0xffeeddcc]);
    let id = risc0.program_id();
    assert_eq!(&id[..4], &[1, 2, 3, 4]);
    assert_eq!(&id[28..], &[0xcc, 0xdd, 0xee, 0xff]);
    assert_eq!(risc0.verify_proof_id(), id);
}

#[test]
fn words_to_le_bytes_matches_std() {
    let words = [0x11223344u32, 1, 0x80000000, 7, 8, 9, 10, 0xdeadbeef];
    let mut expected = Vec::new();
    for w in words {
        expected.extend_from_slice(&w.to_le_bytes());
    }
    assert_eq!(words_to_le_bytes(words).to_vec(), expected);
    assert_eq!(ProgramPico::<(), ()>::verify_proof_id_from_digest(words).to_vec(), expected);
}

#[test]
fn pico_program_id_prepends_zero() {
    let digest: Vec<u8> = (1..=31).collect();
    let id = ProgramPico::<(), ()>::program_id_from_digest(&digest);
    assert_eq!(id[0], 0);
    assert_eq!(&id[1..], &digest[..]);
}

#[test]
fn pico_onchain_proof_pads_the_last_chunk() {
    let pico: ProgramPico<(), ()> = ProgramPico::new(&ELF);
    let proof: Vec<u8> = (0..225u32).map(|i| (i % 251) as u8).collect();
    let encoded = pico.onchain_proof(&proof).unwrap();
    assert_eq!(encoded.len(), 256);
    assert_eq!(&encoded[..224], &proof[..224]);
    assert_eq!(&encoded[224..255], &[0u8; 31]);
    assert_eq!(encoded[255], proof[224]);
}

#[test]
fn pico_onchain_proof_takes_eight_chunks() {
    let pico: ProgramPico<(), ()> = ProgramPico::new(&ELF);
    let proof: Vec<u8> = (0..300u32).map(|i| (i % 256) as u8).collect();
    assert_eq!(pico.onchain_proof(&proof).unwrap(), proof[..256].to_vec());
    assert_eq!(
        pico.onchain_proof(&proof[..224]),
        Err(ProverError::ExpectedEightProofElements)
    );
    assert_eq!(pico.upload_image(), Err(ProverError::RemoteProverUnsupported));
}

#[test]
fn boundless_request_checks_settings() {
    let risc0: ProgramRisc0<(), ()> = ProgramRisc0::new(&ELF, [0; 8]);
    let cfg = RiscZeroProverConfig::from_env_values(None, Some("0x01".into()), None);
    assert_eq!(cfg.proof_type, BoundlessProofType::Groth16);
    assert_eq!(risc0.boundless_request(&cfg, &[1, 2, 3]).unwrap_err(), ProverError::MissingRpcUrl);
    let cfg = RiscZeroProverConfig::from_env_values(Some("http://rpc".into()), None, None);
    assert_eq!(risc0.boundless_request(&cfg, &[1, 2, 3]).unwrap_err(), ProverError::MissingPrivateKey);
    let mut cfg = RiscZeroProverConfig::from_env_values(
        Some("http://rpc".into()),
        Some("0xab".into()),
        Some("ipfs://elf".into()),
    );
    cfg.proof_type = BoundlessProofType::Merkle;
    cfg.min_price = Some(5);
    let req = risc0.boundless_request(&cfg, &[1, 2, 3]).unwrap();
    assert_eq!(req.rpc_url, "http://rpc");
    assert_eq!(req.private_key_hex, "0xab");
    assert_eq!(req.program, ProgramSource::Url { url: "ipfs://elf".into() });
    assert!(!req.groth16);
    assert_eq!(req.min_price, Some(5));
    assert_eq!(req.max_price, None);
    cfg.program_url = None;
    cfg.proof_type = BoundlessProofType::Groth16;
    let req = risc0.boundless_request(&cfg, &[1, 2, 3]).unwrap();
    assert_eq!(req.program, ProgramSource::Elf { elf: ELF.to_vec() });
    assert!(req.groth16);
    assert_eq!(req.stdin, vec![1, 2, 3]);
    assert_eq!(req.offer, boundless_offer());
}

#[test]
fn dev_mode_only_for_one() {
    assert!(dev_mode_enabled(Some("1")));
    assert!(!dev_mode_enabled(Some("true")));
    assert!(!dev_mode_enabled(Some(" 1")));
    assert!(!dev_mode_enabled(None));
}

#[test]
fn private_key_decoding() {
    assert_eq!(decode_private_key("0x0xA1b2").unwrap(), vec![0xa1, 0xb2]);
    assert_eq!(decode_private_key("0Xff").unwrap(), vec![0xff]);
    assert_eq!(
        decode_private_key("0xabc"),
        Err(ProverError::InvalidPrivateKey { cause: HexError::OddLength })
    );
    assert_eq!(
        decode_private_key("zz"),
        Err(ProverError::InvalidPrivateKey {
            cause: HexError::InvalidHexCharacter { c: 'z', index: 0 }
        })
    );
}

#[test]
fn public_values_and_evm_proof() {
    assert_eq!(decode_public_values("0a0B").unwrap(), vec![0x0a, 0x0b]);
    assert_eq!(decode_public_values("0x0a").unwrap(), vec![0x0a]);
    assert_eq!(decode_public_values("0a0"), Err(HexError::OddLength));
    let data: Vec<String> = (0..9).map(|i| format!("0x{:02x}{:02x}", i, i + 1)).collect();
    let bytes = evm_proof_bytes(&data);
    assert_eq!(bytes.len(), 16);
    assert_eq!(&bytes[..4], &[0, 1, 1, 2]);
    assert_eq!(&bytes[14..], &[7, 8]);
}

#[test]
fn pico_config_default_exists() {
    let _ = PicoProverConfig::default();
    assert_eq!(BoundlessProofType::default(), BoundlessProofType::Groth16);
}

#[test]
fn boundless_offer_amounts_in_wei() {
    let offer = boundless_offer();
    assert_eq!(offer.lock_collateral, 10_000_000_000_000_000_000);
    assert_eq!(offer.min_price_per_cycle, 100_000);
    assert_eq!(offer.max_price_per_cycle, 1_000_000);
}
