//! The verifier journals: what a zkVM verifier program commits after checking
//! an attestation report, and what the aggregator commits for a batch.
use vstd::prelude::*;

verus! {

/// A 48-byte PCR measurement (SHA-384), held as its first 32 and last 16 bytes.
#[derive(Clone, Copy, Debug, PartialEq, Eq)]
pub struct Bytes48 {
    pub first: [u8; 32],
    pub second: [u8; 16],
}

/// A Platform Configuration Register entry of an enclave.
#[derive(Clone, Copy, Debug, PartialEq, Eq)]
pub struct Pcr {
    pub index: u64,
    pub value: Bytes48,
}

/// The outcome of verifying an attestation report.
#[derive(Clone, Copy, Debug, PartialEq, Eq)]
pub enum VerificationResult {
    Success,
    RootCertNotTrusted,
    IntermediateCertsNotTrusted,
    InvalidTimestamp,
    /// A value outside the four known ones, as an ABI decoding may give.
    Invalid,
}

/// The journal of one verified attestation report.
#[allow(non_snake_case)]
#[derive(Clone, Debug, PartialEq, Eq)]
pub struct VerifierJournal {
    pub result: VerificationResult,
    pub trustedCertsPrefixLen: u8,
    pub timestamp: u64,
    pub certs: Vec<[u8; 32]>,
    pub userData: Vec<u8>,
    pub nonce: Vec<u8>,
    pub publicKey: Vec<u8>,
    pub pcrs: Vec<Pcr>,
    pub moduleId: String,
}

/// The journal of a batch of verified reports, with the verifying key used.
#[allow(non_snake_case)]
#[derive(Clone, Debug, PartialEq, Eq)]
pub struct BatchVerifierJournal {
    pub verifierVk: [u8; 32],
    pub outputs: Vec<VerifierJournal>,
}

/// The mathematical value of a [`Pcr`].
pub struct PcrView {
    pub index: u64,
    pub first: Seq<u8>,
    pub second: Seq<u8>,
}

/// The mathematical value of a [`VerifierJournal`].
pub struct JournalView {
    pub result: VerificationResult,
    pub trusted_certs_prefix_len: u8,
    pub timestamp: u64,
    pub certs: Seq<Seq<u8>>,
    pub user_data: Seq<u8>,
    pub nonce: Seq<u8>,
    pub public_key: Seq<u8>,
    pub pcrs: Seq<PcrView>,
    pub module_id: Seq<char>,
}

/// The mathematical value of a [`BatchVerifierJournal`].
pub struct BatchJournalView {
    pub verifier_vk: Seq<u8>,
    pub outputs: Seq<JournalView>,
}

impl View for Pcr {
    type V = PcrView;

    open spec fn view(&self) -> PcrView {
        PcrView { index: self.index, first: self.value.first@, second: self.value.second@ }
    }
}

impl View for VerifierJournal {
    type V = JournalView;

    open spec fn view(&self) -> JournalView {
        JournalView {
            result: self.result,
            trusted_certs_prefix_len: self.trustedCertsPrefixLen,
            timestamp: self.timestamp,
            certs: self.certs@.map_values(|c: [u8; 32]| c@),
            user_data: self.userData@,
            nonce: self.nonce@,
            public_key: self.publicKey@,
            pcrs: self.pcrs@.map_values(|p: Pcr| p@),
            module_id: self.moduleId@,
        }
    }
}

impl View for BatchVerifierJournal {
    type V = BatchJournalView;

    open spec fn view(&self) -> BatchJournalView {
        BatchJournalView {
            verifier_vk: self.verifierVk@,
            outputs: self.outputs@.map_values(|j: VerifierJournal| j@),
        }
    }
}

/// A PCR value whose parts have the sizes of a [`Bytes48`].
pub open spec fn pcr_view_valid(p: PcrView) -> bool {
    p.first.len() == 32 && p.second.len() == 16
}

/// A journal whose fixed-size parts have their sizes.
pub open spec fn journal_view_valid(j: JournalView) -> bool {
    &&& forall|i: int| 0 <= i < j.certs.len() ==> (#[trigger] j.certs[i]).len() == 32
    &&& forall|i: int| 0 <= i < j.pcrs.len() ==> pcr_view_valid(#[trigger] j.pcrs[i])
}

/// A batch journal whose fixed-size parts have their sizes.
pub open spec fn batch_view_valid(b: BatchJournalView) -> bool {
    &&& b.verifier_vk.len() == 32
    &&& forall|i: int| 0 <= i < b.outputs.len() ==> journal_view_valid(#[trigger] b.outputs[i])
}

/// Every journal value has the sizes that its types fix.
pub proof fn lemma_journal_view_valid(j: VerifierJournal)
    ensures
        journal_view_valid(j@),
{
    assert forall|i: int| 0 <= i < j@.certs.len() implies (#[trigger] j@.certs[i]).len() == 32 by {
        assert(j@.certs[i] == j.certs@[i]@);
    }
    assert forall|i: int| 0 <= i < j@.pcrs.len() implies pcr_view_valid(#[trigger] j@.pcrs[i]) by {
        assert(j@.pcrs[i] == j.pcrs@[i]@);
    }
}

/// Every batch journal value has the sizes that its types fix.
pub proof fn lemma_batch_view_valid(b: BatchVerifierJournal)
    ensures
        batch_view_valid(b@),
{
    assert forall|i: int| 0 <= i < b@.outputs.len() implies journal_view_valid(
        #[trigger] b@.outputs[i],
    ) by {
        assert(b@.outputs[i] == b.outputs@[i]@);
        lemma_journal_view_valid(b.outputs@[i]);
    }
}

} // verus!
