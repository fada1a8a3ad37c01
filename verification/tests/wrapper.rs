use nitro_attestation::hex_codec::HexError;
use nitro_attestation::journal::{
    BatchVerifierJournal, Bytes48, Pcr, VerificationResult, VerifierJournal,
};
use nitro_attestation::wrapper::{
    BatchVerifierJournalWrapper, HexField, PcrWrapper, VerifierJournalWrapper, WrapperError,
};

// Helper to compare VerificationResult variants
fn result_matches(a: &VerificationResult, b: &VerificationResult) -> bool {
    matches!(
        (a, b),
        (VerificationResult::Success, VerificationResult::Success)
            | (
                VerificationResult::RootCertNotTrusted,
                VerificationResult::RootCertNotTrusted
            )
            | (
                VerificationResult::IntermediateCertsNotTrusted,
                VerificationResult::IntermediateCertsNotTrusted
            )
            | (
                VerificationResult::InvalidTimestamp,
                VerificationResult::InvalidTimestamp
            )
    )
}

fn sample_journal() -> VerifierJournal {
    VerifierJournal {
        result: VerificationResult::Success,
        trustedCertsPrefixLen: 2,
        timestamp: 1234567890000,
        certs: vec![[1u8; 32], [2u8; 32]],
        userData: vec![0xaa, 0xbb, 0xcc],
        nonce: vec![0x11, 0x22, 0x33],
        publicKey: vec![0x04; 65],
        pcrs: vec![Pcr {
            index: 0,
            value: Bytes48 { first: [1u8; 32], second: [2u8; 16] },
        }],
        moduleId: "test-module-id".to_string(),
    }
}

#[test]
fn test_pcr_roundtrip() {
    let pcr = Pcr {
        index: 0,
        value: Bytes48 { first: [1u8; 32], second: [2u8; 16] },
    };

    let wrapper: PcrWrapper = PcrWrapper::from(pcr.clone());
    let roundtrip: Pcr = Pcr::try_from(wrapper).expect("roundtrip failed");

    assert_eq!(pcr.index, roundtrip.index);
    assert_eq!(pcr.value.first, roundtrip.value.first);
    assert_eq!(pcr.value.second, roundtrip.value.second);
}

#[test]
fn test_verifier_journal_roundtrip() {
    let journal = sample_journal();

    let wrapper: VerifierJournalWrapper = VerifierJournalWrapper::from(journal.clone());
    let roundtrip: VerifierJournal = VerifierJournal::try_from(wrapper).expect("roundtrip failed");

    assert!(result_matches(&journal.result, &roundtrip.result));
    assert_eq!(journal.trustedCertsPrefixLen, roundtrip.trustedCertsPrefixLen);
    assert_eq!(journal.timestamp, roundtrip.timestamp);
    assert_eq!(journal.certs, roundtrip.certs);
    assert_eq!(journal.userData, roundtrip.userData);
    assert_eq!(journal.nonce, roundtrip.nonce);
    assert_eq!(journal.publicKey, roundtrip.publicKey);
    assert_eq!(journal.pcrs.len(), roundtrip.pcrs.len());
    assert_eq!(journal.moduleId, roundtrip.moduleId);
}

#[test]
fn test_batch_verifier_journal_roundtrip() {
    let batch = BatchVerifierJournal {
        verifierVk: [0xab; 32],
        outputs: vec![VerifierJournal {
            result: VerificationResult::Success,
            trustedCertsPrefixLen: 1,
            timestamp: 1234567890000,
            certs: vec![[1u8; 32]],
            userData: vec![],
            nonce: vec![],
            publicKey: vec![],
            pcrs: vec![],
            moduleId: "test".to_string(),
        }],
    };

    let wrapper: BatchVerifierJournalWrapper = BatchVerifierJournalWrapper::from(batch.clone());
    let roundtrip: BatchVerifierJournal =
        BatchVerifierJournal::try_from(wrapper).expect("roundtrip failed");

    assert_eq!(batch.verifierVk, roundtrip.verifierVk);
    assert_eq!(batch.outputs.len(), roundtrip.outputs.len());
}

#[test]
fn pcr_wrapper_text_is_prefixed_lowercase_hex() {
    let pcr = Pcr {
        index: 7,
        value: Bytes48 { first: [0xAB; 32], second: [0x01; 16] },
    };
    let wrapper = PcrWrapper::from(pcr);
    assert_eq!(wrapper.index, 7);
    let expected = format!("0x{}{}", "ab".repeat(32), "01".repeat(16));
    assert_eq!(wrapper.value, expected);
}

#[test]
fn journal_wrapper_fields() {
    let wrapper = VerifierJournalWrapper::from(sample_journal());
    assert_eq!(wrapper.result, "Success");
    assert_eq!(wrapper.trusted_certs_prefix_len, 2);
    assert_eq!(wrapper.timestamp, 1234567890000);
    assert_eq!(wrapper.certs[0], format!("0x{}", "01".repeat(32)));
    assert_eq!(wrapper.user_data, "0xaabbcc");
    assert_eq!(wrapper.nonce, "0x112233");
    assert_eq!(wrapper.public_key.len(), 2 + 130);
    assert_eq!(wrapper.pcrs.len(), 1);
    assert_eq!(wrapper.module_id, "test-module-id");
}

#[test]
fn result_names_roundtrip() {
    for (result, name) in [
        (VerificationResult::Success, "Success"),
        (VerificationResult::RootCertNotTrusted, "RootCertNotTrusted"),
        (VerificationResult::IntermediateCertsNotTrusted, "IntermediateCertsNotTrusted"),
        (VerificationResult::InvalidTimestamp, "InvalidTimestamp"),
    ] {
        let mut journal = sample_journal();
        journal.result = result;
        let wrapper = VerifierJournalWrapper::from(journal);
        assert_eq!(wrapper.result, name);
        let back = VerifierJournal::try_from(wrapper).unwrap();
        assert_eq!(back.result, result);
    }
}

#[test]
fn pcr_accepts_uppercase_and_repeated_prefix() {
    let value = format!("0x0x{}{}", "AB".repeat(32), "Cd".repeat(16));
    let pcr = Pcr::try_from(PcrWrapper { index: 3, value }).unwrap();
    assert_eq!(pcr.index, 3);
    assert_eq!(pcr.value.first, [0xab; 32]);
    assert_eq!(pcr.value.second, [0xcd; 16]);
    let plain = format!("{}", "00".repeat(48));
    assert!(Pcr::try_from(PcrWrapper { index: 0, value: plain }).is_ok());
}

#[test]
fn pcr_wrong_length_is_rejected() {
    let err = Pcr::try_from(PcrWrapper { index: 0, value: "0x0102".to_string() }).unwrap_err();
    assert_eq!(
        err,
        WrapperError::InvalidLength { field: HexField::PcrValue, expected: 48, got: 2 }
    );
}

#[test]
fn pcr_bad_hex_is_rejected() {
    let err = Pcr::try_from(PcrWrapper { index: 0, value: "0x123".to_string() }).unwrap_err();
    assert_eq!(
        err,
        WrapperError::InvalidHex { field: HexField::PcrValue, cause: HexError::OddLength }
    );
    let err = Pcr::try_from(PcrWrapper { index: 0, value: "0x12zz".to_string() }).unwrap_err();
    assert_eq!(
        err,
        WrapperError::InvalidHex {
            field: HexField::PcrValue,
            cause: HexError::InvalidHexCharacter { c: 'z', index: 2 },
        }
    );
}

#[test]
fn journal_unknown_result_is_rejected() {
    let mut wrapper = VerifierJournalWrapper::from(sample_journal());
    wrapper.result = "success".to_string();
    let err = VerifierJournal::try_from(wrapper).unwrap_err();
    assert_eq!(err, WrapperError::UnknownResult { value: "success".to_string() });
}

#[test]
fn journal_errors_come_in_field_order() {
    let mut wrapper = VerifierJournalWrapper::from(sample_journal());
    wrapper.certs[1] = "0x01".to_string();
    wrapper.user_data = "0xg".to_string();
    let err = VerifierJournal::try_from(wrapper.clone()).unwrap_err();
    assert_eq!(
        err,
        WrapperError::InvalidLength { field: HexField::CertHash, expected: 32, got: 1 }
    );
    wrapper.certs[1] = format!("0x{}", "02".repeat(32));
    let err = VerifierJournal::try_from(wrapper.clone()).unwrap_err();
    assert_eq!(
        err,
        WrapperError::InvalidHex { field: HexField::UserData, cause: HexError::OddLength }
    );
    wrapper.user_data = "0x".to_string();
    wrapper.public_key = "xyz0".to_string();
    let err = VerifierJournal::try_from(wrapper).unwrap_err();
    assert_eq!(
        err,
        WrapperError::InvalidHex {
            field: HexField::PublicKey,
            cause: HexError::InvalidHexCharacter { c: 'x', index: 0 },
        }
    );
}

#[test]
fn batch_bad_key_and_bad_output() {
    let batch = BatchVerifierJournal { verifierVk: [0x01; 32], outputs: vec![sample_journal()] };
    let mut wrapper = BatchVerifierJournalWrapper::from(batch);
    assert_eq!(wrapper.verifier_vk, format!("0x{}", "01".repeat(32)));
    wrapper.outputs[0].pcrs[0].value = "0x00".to_string();
    let err = BatchVerifierJournal::try_from(wrapper.clone()).unwrap_err();
    assert_eq!(
        err,
        WrapperError::InvalidLength { field: HexField::PcrValue, expected: 48, got: 1 }
    );
    wrapper.verifier_vk = "0xabcd".to_string();
    let err = BatchVerifierJournal::try_from(wrapper).unwrap_err();
    assert_eq!(
        err,
        WrapperError::InvalidLength { field: HexField::VerifierVk, expected: 32, got: 2 }
    );
}

#[test]
fn full_journal_roundtrip_is_identity() {
    let journal = sample_journal();
    let back = VerifierJournal::try_from(VerifierJournalWrapper::from(journal.clone())).unwrap();
    assert_eq!(journal, back);
    let batch = BatchVerifierJournal { verifierVk: [9; 32], outputs: vec![journal.clone(), journal] };
    let back = BatchVerifierJournal::try_from(BatchVerifierJournalWrapper::from(batch.clone())).unwrap();
    assert_eq!(batch, back);
}

#[test]
fn unknown_result_is_named_unknown_and_refused() {
    let mut journal = sample_journal();
    journal.result = VerificationResult::Invalid;
    let wrapper = VerifierJournalWrapper::from(journal.clone());
    assert_eq!(wrapper.result, "Unknown");
    assert_eq!(
        VerifierJournal::try_from(wrapper).unwrap_err(),
        WrapperError::UnknownResult { value: "Unknown".to_string() }
    );
    let batch = BatchVerifierJournal { verifierVk: [0; 32], outputs: vec![journal] };
    assert_eq!(BatchVerifierJournalWrapper::from(batch).outputs[0].result, "Unknown");
}
