//! Text forms of the verifier journals, as handed to a JavaScript frontend:
//! every byte string becomes `0x`-prefixed lowercase hex, and the verification
//! result becomes its name.  Each form converts to text and back.
use vstd::prelude::*;

use crate::hex_codec::{
    lemma_prefixed_hex_roundtrip, decode_prefixed_hex, decode_prefixed_hex_spec, encode_prefixed_hex, prefixed_hex, HexError,
};
use crate::journal::{
    batch_view_valid, journal_view_valid, lemma_batch_view_valid, lemma_journal_view_valid,
    pcr_view_valid, BatchJournalView, BatchVerifierJournal, Bytes48, JournalView, Pcr, PcrView,
    VerificationResult, VerifierJournal,
};

verus! {

/// Which hex field of a wrapper could not be decoded.
#[derive(Clone, Copy, Debug, PartialEq, Eq)]
pub enum HexField {
    PcrValue,
    CertHash,
    UserData,
    Nonce,
    PublicKey,
    VerifierVk,
}

/// Why a wrapper does not describe a journal.
#[derive(Clone, Debug, PartialEq, Eq)]
pub enum WrapperError {
    /// The field is not hex text.
    InvalidHex { field: HexField, cause: HexError },
    /// The field decodes to `got` bytes where `expected` are needed.
    InvalidLength { field: HexField, expected: usize, got: usize },
    /// The result name is none of the known ones.
    UnknownResult { value: String },
}

/// The mathematical value of a [`WrapperError`].
pub enum WrapperErrorView {
    InvalidHex { field: HexField, cause: HexError },
    InvalidLength { field: HexField, expected: nat, got: nat },
    UnknownResult { value: Seq<char> },
}

impl View for WrapperError {
    type V = WrapperErrorView;

    open spec fn view(&self) -> WrapperErrorView {
        match self {
            WrapperError::InvalidHex { field, cause } => WrapperErrorView::InvalidHex {
                field: *field,
                cause: *cause,
            },
            WrapperError::InvalidLength { field, expected, got } => WrapperErrorView::InvalidLength {
                field: *field,
                expected: *expected as nat,
                got: *got as nat,
            },
            WrapperError::UnknownResult { value } => WrapperErrorView::UnknownResult {
                value: value@,
            },
        }
    }
}

/// The mathematical value of a fallible conversion.
pub open spec fn result_view<T: View>(r: Result<T, WrapperError>) -> Result<
    T::V,
    WrapperErrorView,
> {
    match r {
        Ok(v) => Ok(v@),
        Err(e) => Err(e@),
    }
}

/// Text form of a PCR entry.
#[derive(Clone, Debug, PartialEq, Eq)]
pub struct PcrWrapper {
    /// PCR index (0-23 for AWS Nitro Enclaves)
    pub index: u64,
    /// The 48-byte measurement, `0x`-prefixed hex
    pub value: String,
}

/// Text form of a [`VerifierJournal`].
#[derive(Clone, Debug, PartialEq, Eq)]
pub struct VerifierJournalWrapper {
    /// "Success", "RootCertNotTrusted", "IntermediateCertsNotTrusted" or "InvalidTimestamp"
    pub result: String,
    pub trusted_certs_prefix_len: u8,
    /// Unix timestamp in milliseconds
    pub timestamp: u64,
    /// Certificate hashes, each `0x`-prefixed hex
    pub certs: Vec<String>,
    pub user_data: String,
    pub nonce: String,
    pub public_key: String,
    pub pcrs: Vec<PcrWrapper>,
    pub module_id: String,
}

/// Text form of a [`BatchVerifierJournal`].
#[derive(Clone, Debug, PartialEq, Eq)]
pub struct BatchVerifierJournalWrapper {
    /// The verifying key, `0x`-prefixed hex
    pub verifier_vk: String,
    pub outputs: Vec<VerifierJournalWrapper>,
}

pub struct PcrWrapperView {
    pub index: u64,
    pub value: Seq<char>,
}

pub struct JournalWrapperView {
    pub result: Seq<char>,
    pub trusted_certs_prefix_len: u8,
    pub timestamp: u64,
    pub certs: Seq<Seq<char>>,
    pub user_data: Seq<char>,
    pub nonce: Seq<char>,
    pub public_key: Seq<char>,
    pub pcrs: Seq<PcrWrapperView>,
    pub module_id: Seq<char>,
}

pub struct BatchWrapperView {
    pub verifier_vk: Seq<char>,
    pub outputs: Seq<JournalWrapperView>,
}

impl View for PcrWrapper {
    type V = PcrWrapperView;

    open spec fn view(&self) -> PcrWrapperView {
        PcrWrapperView { index: self.index, value: self.value@ }
    }
}

impl View for VerifierJournalWrapper {
    type V = JournalWrapperView;

    open spec fn view(&self) -> JournalWrapperView {
        JournalWrapperView {
            result: self.result@,
            trusted_certs_prefix_len: self.trusted_certs_prefix_len,
            timestamp: self.timestamp,
            certs: self.certs@.map_values(|s: String| s@),
            user_data: self.user_data@,
            nonce: self.nonce@,
            public_key: self.public_key@,
            pcrs: self.pcrs@.map_values(|p: PcrWrapper| p@),
            module_id: self.module_id@,
        }
    }
}

impl View for BatchVerifierJournalWrapper {
    type V = BatchWrapperView;

    open spec fn view(&self) -> BatchWrapperView {
        BatchWrapperView {
            verifier_vk: self.verifier_vk@,
            outputs: self.outputs@.map_values(|j: VerifierJournalWrapper| j@),
        }
    }
}

// ---------------------------------------------------------------------------
// The conversions, stated over the views.
/// The name of a verification result.
pub open spec fn result_name(r: VerificationResult) -> Seq<char> {
    match r {
        VerificationResult::Success => "Success"@,
        VerificationResult::RootCertNotTrusted => "RootCertNotTrusted"@,
        VerificationResult::IntermediateCertsNotTrusted => "IntermediateCertsNotTrusted"@,
        VerificationResult::InvalidTimestamp => "InvalidTimestamp"@,
        VerificationResult::Invalid => "Unknown"@,
    }
}

/// The verification result of a name, if it is one of the four names.
pub open spec fn result_from_name(s: Seq<char>) -> Option<VerificationResult> {
    if s == "Success"@ {
        Some(VerificationResult::Success)
    } else if s == "RootCertNotTrusted"@ {
        Some(VerificationResult::RootCertNotTrusted)
    } else if s == "IntermediateCertsNotTrusted"@ {
        Some(VerificationResult::IntermediateCertsNotTrusted)
    } else if s == "InvalidTimestamp"@ {
        Some(VerificationResult::InvalidTimestamp)
    } else {
        None
    }
}

pub open spec fn pcr_to_wrapper_spec(p: PcrView) -> PcrWrapperView {
    PcrWrapperView { index: p.index, value: prefixed_hex(p.first + p.second) }
}

pub open spec fn journal_to_wrapper_spec(j: JournalView) -> JournalWrapperView {
    JournalWrapperView {
        result: result_name(j.result),
        trusted_certs_prefix_len: j.trusted_certs_prefix_len,
        timestamp: j.timestamp,
        certs: j.certs.map_values(|c: Seq<u8>| prefixed_hex(c)),
        user_data: prefixed_hex(j.user_data),
        nonce: prefixed_hex(j.nonce),
        public_key: prefixed_hex(j.public_key),
        pcrs: j.pcrs.map_values(|p: PcrView| pcr_to_wrapper_spec(p)),
        module_id: j.module_id,
    }
}

pub open spec fn batch_to_wrapper_spec(b: BatchJournalView) -> BatchWrapperView {
    BatchWrapperView {
        verifier_vk: prefixed_hex(b.verifier_vk),
        outputs: b.outputs.map_values(|j: JournalView| journal_to_wrapper_spec(j)),
    }
}

/// Decoding of a hex field, naming the field on failure.
pub open spec fn hex_field_spec(text: Seq<char>, field: HexField) -> Result<
    Seq<u8>,
    WrapperErrorView,
> {
    match decode_prefixed_hex_spec(text) {
        Ok(b) => Ok(b),
        Err(e) => Err(WrapperErrorView::InvalidHex { field, cause: e }),
    }
}

/// Decoding of a hex field that must hold exactly `size` bytes.
pub open spec fn sized_hex_field_spec(text: Seq<char>, field: HexField, size: nat) -> Result<
    Seq<u8>,
    WrapperErrorView,
> {
    match hex_field_spec(text, field) {
        Err(e) => Err(e),
        Ok(b) => if b.len() == size {
            Ok(b)
        } else {
            Err(WrapperErrorView::InvalidLength { field, expected: size, got: b.len() })
        },
    }
}

/// Converts each item in order; the first failure is the result.
pub open spec fn collect_all<A, B>(
    xs: Seq<A>,
    f: spec_fn(A) -> Result<B, WrapperErrorView>,
) -> Result<Seq<B>, WrapperErrorView>
    decreases xs.len(),
{
    if xs.len() == 0 {
        Ok(Seq::empty())
    } else {
        match collect_all(xs.drop_last(), f) {
            Err(e) => Err(e),
            Ok(prev) => match f(xs.last()) {
                Err(e) => Err(e),
                Ok(y) => Ok(prev.push(y)),
            },
        }
    }
}

pub open spec fn pcr_from_wrapper_spec(w: PcrWrapperView) -> Result<PcrView, WrapperErrorView> {
    match sized_hex_field_spec(w.value, HexField::PcrValue, 48) {
        Err(e) => Err(e),
        Ok(b) => Ok(PcrView { index: w.index, first: b.take(32), second: b.skip(32) }),
    }
}

pub open spec fn cert_parser() -> spec_fn(Seq<char>) -> Result<Seq<u8>, WrapperErrorView> {
    |s: Seq<char>| sized_hex_field_spec(s, HexField::CertHash, 32)
}

pub open spec fn pcr_parser() -> spec_fn(PcrWrapperView) -> Result<PcrView, WrapperErrorView> {
    |w: PcrWrapperView| pcr_from_wrapper_spec(w)
}

#[verifier::opaque]
pub open spec fn journal_from_wrapper_spec(w: JournalWrapperView) -> Result<
    JournalView,
    WrapperErrorView,
> {
    match result_from_name(w.result) {
        None => Err(WrapperErrorView::UnknownResult { value: w.result }),
        Some(result) => match collect_all(w.certs, cert_parser()) {
            Err(e) => Err(e),
            Ok(certs) => match hex_field_spec(w.user_data, HexField::UserData) {
                Err(e) => Err(e),
                Ok(user_data) => match hex_field_spec(w.nonce, HexField::Nonce) {
                    Err(e) => Err(e),
                    Ok(nonce) => match hex_field_spec(w.public_key, HexField::PublicKey) {
                        Err(e) => Err(e),
                        Ok(public_key) => match collect_all(w.pcrs, pcr_parser()) {
                            Err(e) => Err(e),
                            Ok(pcrs) => Ok(
                                JournalView {
                                    result,
                                    trusted_certs_prefix_len: w.trusted_certs_prefix_len,
                                    timestamp: w.timestamp,
                                    certs,
                                    user_data,
                                    nonce,
                                    public_key,
                                    pcrs,
                                    module_id: w.module_id,
                                },
                            ),
                        },
                    },
                },
            },
        },
    }
}

pub open spec fn journal_parser() -> spec_fn(JournalWrapperView) -> Result<
    JournalView,
    WrapperErrorView,
> {
    |w: JournalWrapperView| journal_from_wrapper_spec(w)
}

pub open spec fn batch_from_wrapper_spec(w: BatchWrapperView) -> Result<
    BatchJournalView,
    WrapperErrorView,
> {
    match sized_hex_field_spec(w.verifier_vk, HexField::VerifierVk, 32) {
        Err(e) => Err(e),
        Ok(vk) => match collect_all(w.outputs, journal_parser()) {
            Err(e) => Err(e),
            Ok(outputs) => Ok(BatchJournalView { verifier_vk: vk, outputs }),
        },
    }
}

// ---------------------------------------------------------------------------
// Lemmas on `collect_all`.
/// One more item: the prefix result, extended by that item's result.
pub proof fn lemma_collect_step<A, B>(
    xs: Seq<A>,
    f: spec_fn(A) -> Result<B, WrapperErrorView>,
    i: int,
)
    requires
        0 <= i < xs.len(),
    ensures
        collect_all(xs.take(i + 1), f) == (match collect_all(xs.take(i), f) {
            Err(e) => Err(e),
            Ok(prev) => match f(xs[i]) {
                Err(e) => Err(e),
                Ok(y) => Ok(prev.push(y)),
            },
        }),
{
    assert(xs.take(i + 1).drop_last() =~= xs.take(i));
    assert(xs.take(i + 1).last() == xs[i]);
}

/// A failing prefix makes the whole conversion fail with the same error.
pub proof fn lemma_collect_err_prefix<A, B>(
    xs: Seq<A>,
    f: spec_fn(A) -> Result<B, WrapperErrorView>,
    i: int,
)
    requires
        0 <= i <= xs.len(),
        collect_all(xs.take(i), f) is Err,
    ensures
        collect_all(xs, f) == collect_all(xs.take(i), f),
    decreases xs.len() - i,
{
    if i == xs.len() {
        assert(xs.take(i) =~= xs);
    } else {
        lemma_collect_step(xs, f, i);
        lemma_collect_err_prefix(xs, f, i + 1);
    }
}

/// When every item converts, the conversion succeeds with the items' results.
pub proof fn lemma_collect_all_ok<A, B>(
    xs: Seq<A>,
    ys: Seq<B>,
    f: spec_fn(A) -> Result<B, WrapperErrorView>,
)
    requires
        xs.len() == ys.len(),
        forall|i: int| 0 <= i < xs.len() ==> f(#[trigger] xs[i]) == Ok::<B, WrapperErrorView>(ys[i]),
    ensures
        collect_all(xs, f) == Ok::<Seq<B>, WrapperErrorView>(ys),
    decreases xs.len(),
{
    if xs.len() > 0 {
        let n = xs.len() - 1;
        assert(f(xs[n]) == Ok::<B, WrapperErrorView>(ys[n]));
        lemma_collect_all_ok(xs.drop_last(), ys.drop_last(), f);
        assert(ys.drop_last().push(ys.last()) =~= ys);
    } else {
        assert(ys =~= Seq::<B>::empty());
    }
}

// ---------------------------------------------------------------------------
// Executable conversions.
/// The bytes `v[start..start + N]` as an array.
fn array_from_range<const N: usize>(v: &[u8], start: usize) -> (a: [u8; N])
    requires
        start + N <= v@.len(),
    ensures
        a@ == v@.subrange(start as int, start + N),
{
    let mut a: [u8; N] = vstd::array::array_fill_for_copy_types(0u8);
    let len = v.len();
    let mut i: usize = 0;
    while i < N
        invariant
            i <= N,
            len == v@.len(),
            start + N <= v@.len(),
            a@.len() == N,
            forall|k: int| 0 <= k < i ==> a@[k] == v@[start + k],
        decreases N - i,
    {
        a[i] = v[start + i];
        i += 1;
    }
    assert(a@ =~= v@.subrange(start as int, start + N));
    a
}

/// The bytes of `a` followed by those of `b`.
fn concat_bytes(a: &[u8], b: &[u8]) -> (out: Vec<u8>)
    requires
        a@.len() + b@.len() <= usize::MAX,
    ensures
        out@ == a@ + b@,
{
    let mut out: Vec<u8> = Vec::with_capacity(a.len() + b.len());
    let mut i: usize = 0;
    while i < a.len()
        invariant
            i <= a@.len(),
            out@ == a@.take(i as int),
        decreases a@.len() - i,
    {
        out.push(a[i]);
        i += 1;
        assert(out@ =~= a@.take(i as int));
    }
    let mut j: usize = 0;
    while j < b.len()
        invariant
            j <= b@.len(),
            out@ == a@ + b@.take(j as int),
        decreases b@.len() - j,
    {
        out.push(b[j]);
        j += 1;
        assert(out@ =~= a@ + b@.take(j as int));
    }
    assert(b@.take(b@.len() as int) =~= b@);
    out
}

fn result_name_string(r: VerificationResult) -> (s: String)
    ensures
        s@ == result_name(r),
{
    match r {
        VerificationResult::Success => String::from_str("Success"),
        VerificationResult::RootCertNotTrusted => String::from_str("RootCertNotTrusted"),
        VerificationResult::IntermediateCertsNotTrusted => String::from_str(
            "IntermediateCertsNotTrusted",
        ),
        VerificationResult::InvalidTimestamp => String::from_str("InvalidTimestamp"),
        VerificationResult::Invalid => String::from_str("Unknown"),
    }
}

fn parse_result_name(s: &String) -> (r: Option<VerificationResult>)
    ensures
        r == result_from_name(s@),
{
    let success = String::from_str("Success");
    let root = String::from_str("RootCertNotTrusted");
    let intermediate = String::from_str("IntermediateCertsNotTrusted");
    let timestamp = String::from_str("InvalidTimestamp");
    if *s == success {
        Some(VerificationResult::Success)
    } else if *s == root {
        Some(VerificationResult::RootCertNotTrusted)
    } else if *s == intermediate {
        Some(VerificationResult::IntermediateCertsNotTrusted)
    } else if *s == timestamp {
        Some(VerificationResult::InvalidTimestamp)
    } else {
        None
    }
}

fn hex_field(text: &String, field: HexField) -> (r: Result<Vec<u8>, WrapperError>)
    ensures
        result_view(r) == hex_field_spec(text@, field),
{
    match decode_prefixed_hex(text.as_str()) {
        Ok(b) => Ok(b),
        Err(e) => Err(WrapperError::InvalidHex { field, cause: e }),
    }
}

fn sized_hex_field(text: &String, field: HexField, size: usize) -> (r: Result<
    Vec<u8>,
    WrapperError,
>)
    ensures
        result_view(r) == sized_hex_field_spec(text@, field, size as nat),
        r matches Ok(b) ==> b@.len() == size,
{
    let b = hex_field(text, field)?;
    if b.len() == size {
        Ok(b)
    } else {
        Err(WrapperError::InvalidLength { field, expected: size, got: b.len() })
    }
}

impl PcrWrapper {
    /// The text form of a PCR entry: its index, and its 48 bytes as hex.
    pub fn from(pcr: Pcr) -> (w: PcrWrapper)
        ensures
            w@ == pcr_to_wrapper_spec(pcr@),
            pcr_text_of(pcr@, w@),
    {
        let bytes = concat_bytes(pcr.value.first.as_slice(), pcr.value.second.as_slice());
        let w = PcrWrapper { index: pcr.index, value: encode_prefixed_hex(bytes.as_slice()) };
        proof {
            lemma_pcr_text(pcr@);
        }
        w
    }
}

fn pcr_from_wrapper_ref(wrapper: &PcrWrapper) -> (r: Result<Pcr, WrapperError>)
    ensures
        result_view(r) == pcr_from_wrapper_spec(wrapper@),
{
    let bytes = sized_hex_field(&wrapper.value, HexField::PcrValue, 48)?;
    let first: [u8; 32] = array_from_range(bytes.as_slice(), 0);
    let second: [u8; 16] = array_from_range(bytes.as_slice(), 32);
    proof {
        assert(bytes@.subrange(0, 32) =~= bytes@.take(32));
        assert(bytes@.subrange(32, 48) =~= bytes@.skip(32));
    }
    Ok(Pcr { index: wrapper.index, value: Bytes48 { first, second } })
}

impl Pcr {
    /// The PCR entry of a text form: the value must be hex (after any `0x`
    /// prefixes) of exactly 48 bytes.
    pub fn try_from(wrapper: PcrWrapper) -> (r: Result<Pcr, WrapperError>)
        ensures
            result_view(r) == pcr_from_wrapper_spec(wrapper@),
            r matches Ok(p) ==> pcr_read_from(wrapper@, p@),
    {
        proof {
            lemma_pcr_read(wrapper@);
        }
        pcr_from_wrapper_ref(&wrapper)
    }
}

impl VerifierJournalWrapper {
    /// The text form of a journal.
    pub fn from(journal: VerifierJournal) -> (w: VerifierJournalWrapper)
        ensures
            w@ == journal_to_wrapper_spec(journal@),
            journal_text_of(journal@, w@),
    {
        proof {
            lemma_journal_text(journal@);
        }
        let result = result_name_string(journal.result);
        let mut certs: Vec<String> = Vec::new();
        let mut i: usize = 0;
        while i < journal.certs.len()
            invariant
                i <= journal.certs@.len(),
                certs@.len() == i,
                forall|k: int| 0 <= k < i ==> (#[trigger] certs@[k])@ == prefixed_hex(journal.certs@[k]@),
            decreases journal.certs@.len() - i,
        {
            certs.push(encode_prefixed_hex(journal.certs[i].as_slice()));
            i += 1;
        }
        let user_data = encode_prefixed_hex(journal.userData.as_slice());
        let nonce = encode_prefixed_hex(journal.nonce.as_slice());
        let public_key = encode_prefixed_hex(journal.publicKey.as_slice());
        let mut pcrs: Vec<PcrWrapper> = Vec::new();
        let mut j: usize = 0;
        while j < journal.pcrs.len()
            invariant
                j <= journal.pcrs@.len(),
                pcrs@.len() == j,
                forall|k: int| 0 <= k < j ==> (#[trigger] pcrs@[k])@ == pcr_to_wrapper_spec(journal.pcrs@[k]@),
            decreases journal.pcrs@.len() - j,
        {
            pcrs.push(PcrWrapper::from(journal.pcrs[j]));
            j += 1;
        }
        let w = VerifierJournalWrapper {
            result,
            trusted_certs_prefix_len: journal.trustedCertsPrefixLen,
            timestamp: journal.timestamp,
            certs,
            user_data,
            nonce,
            public_key,
            pcrs,
            module_id: journal.moduleId,
        };
        assert(w@.certs =~= journal_to_wrapper_spec(journal@).certs);
        assert(w@.pcrs =~= journal_to_wrapper_spec(journal@).pcrs);
        w
    }
}

#[verifier::loop_isolation(false)]
fn journal_from_wrapper_ref(wrapper: &VerifierJournalWrapper) -> (r: Result<
    VerifierJournal,
    WrapperError,
>)
    ensures
        result_view(r) == journal_from_wrapper_spec(wrapper@),
{
    reveal(journal_from_wrapper_spec);
    let ghost w = wrapper@;
    let result = match parse_result_name(&wrapper.result) {
        Some(r) => r,
        None => {
            return Err(WrapperError::UnknownResult { value: wrapper.result.clone() });
        },
    };
    let mut certs: Vec<[u8; 32]> = Vec::new();
    let mut i: usize = 0;
    proof {
        assert(w.certs.take(0) =~= Seq::<Seq<char>>::empty());
        assert(certs@.map_values(|c: [u8; 32]| c@) =~= Seq::<Seq<u8>>::empty());
    }
    while i < wrapper.certs.len()
        invariant
            w == wrapper@,
            i <= wrapper.certs@.len(),
            collect_all(w.certs.take(i as int), cert_parser()) == Ok::<
                Seq<Seq<u8>>,
                WrapperErrorView,
            >(certs@.map_values(|c: [u8; 32]| c@)),
        decreases wrapper.certs@.len() - i,
    {
        proof {
            lemma_collect_step(w.certs, cert_parser(), i as int);
        }
        match sized_hex_field(&wrapper.certs[i], HexField::CertHash, 32) {
            Ok(b) => {
                let ghost prev = certs@.map_values(|c: [u8; 32]| c@);
                let c: [u8; 32] = array_from_range(b.as_slice(), 0);
                certs.push(c);
                proof {
                    assert(b@.subrange(0, 32) =~= b@);
                    assert(certs@.map_values(|c: [u8; 32]| c@) =~= prev.push(b@));
                }
            },
            Err(e) => {
                proof {
                    lemma_collect_err_prefix(w.certs, cert_parser(), i + 1);
                }
                return Err(e);
            },
        }
        i += 1;
    }
    proof {
        assert(w.certs.take(i as int) =~= w.certs);
    }
    let user_data = match hex_field(&wrapper.user_data, HexField::UserData) {
        Ok(b) => b,
        Err(e) => {
            return Err(e);
        },
    };
    let nonce = match hex_field(&wrapper.nonce, HexField::Nonce) {
        Ok(b) => b,
        Err(e) => {
            return Err(e);
        },
    };
    let public_key = match hex_field(&wrapper.public_key, HexField::PublicKey) {
        Ok(b) => b,
        Err(e) => {
            return Err(e);
        },
    };
    let mut pcrs: Vec<Pcr> = Vec::new();
    let mut j: usize = 0;
    proof {
        assert(w.pcrs.take(0) =~= Seq::<PcrWrapperView>::empty());
        assert(pcrs@.map_values(|p: Pcr| p@) =~= Seq::<PcrView>::empty());
    }
    while j < wrapper.pcrs.len()
        invariant
            w == wrapper@,
            j <= wrapper.pcrs@.len(),
            collect_all(w.pcrs.take(j as int), pcr_parser()) == Ok::<
                Seq<PcrView>,
                WrapperErrorView,
            >(pcrs@.map_values(|p: Pcr| p@)),
        decreases wrapper.pcrs@.len() - j,
    {
        proof {
            lemma_collect_step(w.pcrs, pcr_parser(), j as int);
        }
        match pcr_from_wrapper_ref(&wrapper.pcrs[j]) {
            Ok(p) => {
                let ghost prev = pcrs@.map_values(|p: Pcr| p@);
                pcrs.push(p);
                proof {
                    assert(pcrs@.map_values(|p: Pcr| p@) =~= prev.push(p@));
                }
            },
            Err(e) => {
                proof {
                    lemma_collect_err_prefix(w.pcrs, pcr_parser(), j + 1);
                }
                return Err(e);
            },
        }
        j += 1;
    }
    proof {
        assert(w.pcrs.take(j as int) =~= w.pcrs);
    }
    Ok(
        VerifierJournal {
            result,
            trustedCertsPrefixLen: wrapper.trusted_certs_prefix_len,
            timestamp: wrapper.timestamp,
            certs,
            userData: user_data,
            nonce,
            publicKey: public_key,
            pcrs,
            moduleId: wrapper.module_id.clone(),
        },
    )
}

impl VerifierJournal {
    /// The journal of a text form.  The result name must be one of the four
    /// names; every cert hash must be hex of 32 bytes; user data, nonce and
    /// public key must be hex; every PCR must convert.  The first failure, in
    /// that order, is the error.
    pub fn try_from(wrapper: VerifierJournalWrapper) -> (r: Result<VerifierJournal, WrapperError>)
        ensures
            result_view(r) == journal_from_wrapper_spec(wrapper@),
            r matches Ok(j) ==> journal_read_from(wrapper@, j@),
    {
        proof {
            lemma_journal_read(wrapper@);
        }
        journal_from_wrapper_ref(&wrapper)
    }
}

impl BatchVerifierJournalWrapper {
    /// The text form of a batch journal.
    pub fn from(batch: BatchVerifierJournal) -> (w: BatchVerifierJournalWrapper)
        ensures
            w@ == batch_to_wrapper_spec(batch@),
            batch_text_of(batch@, w@),
    {
        proof {
            lemma_batch_text(batch@);
        }
        let verifier_vk = encode_prefixed_hex(batch.verifierVk.as_slice());
        let mut outputs: Vec<VerifierJournalWrapper> = Vec::new();
        let ghost src = batch.outputs@;
        let total = batch.outputs.len();
        let mut rest = batch.outputs;
        let mut i: usize = 0;
        while rest.len() > 0
            invariant
                total == src.len(),
                i + rest@.len() == src.len(),
                rest@ == src.skip(i as int),
                outputs@.len() == i,
                forall|k: int| 0 <= k < i ==> (#[trigger] outputs@[k])@ == journal_to_wrapper_spec(src[k]@),
            decreases rest@.len(),
        {
            let journal = rest.remove(0);
            assert(journal == src[i as int]);
            outputs.push(VerifierJournalWrapper::from(journal));
            i += 1;
            assert(rest@ =~= src.skip(i as int));
        }
        let w = BatchVerifierJournalWrapper { verifier_vk, outputs };
        assert(w@.outputs =~= batch_to_wrapper_spec(batch@).outputs);
        w
    }
}

impl BatchVerifierJournal {
    /// The batch journal of a text form: the verifying key must be hex of 32
    /// bytes, then every journal must convert, in order.
    #[verifier::loop_isolation(false)]
    pub fn try_from(wrapper: BatchVerifierJournalWrapper) -> (r: Result<
        BatchVerifierJournal,
        WrapperError,
    >)
        ensures
            result_view(r) == batch_from_wrapper_spec(wrapper@),
            r matches Ok(b) ==> batch_read_from(wrapper@, b@),
    {
        proof {
            lemma_batch_read(wrapper@);
        }
        let ghost w = wrapper@;
        let vk_bytes = sized_hex_field(&wrapper.verifier_vk, HexField::VerifierVk, 32)?;
        let verifier_vk: [u8; 32] = array_from_range(vk_bytes.as_slice(), 0);
        proof {
            assert(vk_bytes@.subrange(0, 32) =~= vk_bytes@);
        }
        let mut outputs: Vec<VerifierJournal> = Vec::new();
        let mut i: usize = 0;
        proof {
            assert(w.outputs.take(0) =~= Seq::<JournalWrapperView>::empty());
            assert(outputs@.map_values(|j: VerifierJournal| j@) =~= Seq::<JournalView>::empty());
        }
        while i < wrapper.outputs.len()
            invariant
                w == wrapper@,
                i <= wrapper.outputs@.len(),
                collect_all(w.outputs.take(i as int), journal_parser()) == Ok::<
                    Seq<JournalView>,
                    WrapperErrorView,
                >(outputs@.map_values(|j: VerifierJournal| j@)),
            decreases wrapper.outputs@.len() - i,
        {
            proof {
                lemma_collect_step(w.outputs, journal_parser(), i as int);
            }
            match journal_from_wrapper_ref(&wrapper.outputs[i]) {
                Ok(j) => {
                    let ghost prev = outputs@.map_values(|j: VerifierJournal| j@);
                    outputs.push(j);
                    proof {
                        assert(outputs@.map_values(|j: VerifierJournal| j@) =~= prev.push(j@));
                    }
                },
                Err(e) => {
                    proof {
                        lemma_collect_err_prefix(w.outputs, journal_parser(), i + 1);
                    }
                    return Err(e);
                },
            }
            i += 1;
        }
        proof {
            assert(w.outputs.take(i as int) =~= w.outputs);
        }
        Ok(BatchVerifierJournal { verifierVk: verifier_vk, outputs })
    }
}

// ---------------------------------------------------------------------------
// Round trips.
/// Every journal of the batch has one of the four known results.
pub open spec fn batch_results_known(b: BatchJournalView) -> bool {
    forall|i: int| 0 <= i < b.outputs.len() ==> (#[trigger] b.outputs[i]).result
        != VerificationResult::Invalid
}

/// An unknown result is named "Unknown", and that name is refused on the
/// way back.
pub proof fn lemma_unknown_result_refused(j: JournalView)
    requires
        j.result == VerificationResult::Invalid,
    ensures
        journal_to_wrapper_spec(j).result == "Unknown"@,
        journal_from_wrapper_spec(journal_to_wrapper_spec(j)) == Err::<JournalView, WrapperErrorView>(
            WrapperErrorView::UnknownResult { value: "Unknown"@ },
        ),
{
    reveal(journal_from_wrapper_spec);
    reveal_strlit("Unknown");
    reveal_strlit("Success");
    reveal_strlit("RootCertNotTrusted");
    reveal_strlit("IntermediateCertsNotTrusted");
    reveal_strlit("InvalidTimestamp");
    assert("Unknown"@.len() == 7);
    assert("Unknown"@[0] != "Success"@[0]);
    assert("RootCertNotTrusted"@.len() == 18);
    assert("IntermediateCertsNotTrusted"@.len() == 27);
    assert("InvalidTimestamp"@.len() == 16);
}
proof fn lemma_result_name_roundtrip(r: VerificationResult)
    requires
        r != VerificationResult::Invalid,
    ensures
        result_from_name(result_name(r)) == Some(r),
{
    reveal_strlit("Success");
    reveal_strlit("RootCertNotTrusted");
    reveal_strlit("IntermediateCertsNotTrusted");
    reveal_strlit("InvalidTimestamp");
    assert("Success"@.len() == 7);
    assert("RootCertNotTrusted"@.len() == 18);
    assert("IntermediateCertsNotTrusted"@.len() == 27);
    assert("InvalidTimestamp"@.len() == 16);
}

proof fn lemma_pcr_view_roundtrip(p: PcrView)
    requires
        pcr_view_valid(p),
    ensures
        pcr_from_wrapper_spec(pcr_to_wrapper_spec(p)) == Ok::<PcrView, WrapperErrorView>(p),
{
    lemma_prefixed_hex_roundtrip(p.first + p.second);
    assert((p.first + p.second).take(32) =~= p.first);
    assert((p.first + p.second).skip(32) =~= p.second);
}

proof fn lemma_journal_view_roundtrip(j: JournalView)
    requires
        journal_view_valid(j),
        j.result != VerificationResult::Invalid,
    ensures
        journal_from_wrapper_spec(journal_to_wrapper_spec(j)) == Ok::<JournalView, WrapperErrorView>(j),
{
    reveal(journal_from_wrapper_spec);
    let w = journal_to_wrapper_spec(j);
    lemma_result_name_roundtrip(j.result);
    assert forall|i: int| 0 <= i < w.certs.len() implies (cert_parser())(#[trigger] w.certs[i])
        == Ok::<Seq<u8>, WrapperErrorView>(j.certs[i]) by {
        lemma_prefixed_hex_roundtrip(j.certs[i]);
    }
    lemma_collect_all_ok(w.certs, j.certs, cert_parser());
    lemma_prefixed_hex_roundtrip(j.user_data);
    lemma_prefixed_hex_roundtrip(j.nonce);
    lemma_prefixed_hex_roundtrip(j.public_key);
    assert forall|i: int| 0 <= i < w.pcrs.len() implies (pcr_parser())(#[trigger] w.pcrs[i])
        == Ok::<PcrView, WrapperErrorView>(j.pcrs[i]) by {
        lemma_pcr_view_roundtrip(j.pcrs[i]);
    }
    lemma_collect_all_ok(w.pcrs, j.pcrs, pcr_parser());
}

proof fn lemma_batch_view_roundtrip(b: BatchJournalView)
    requires
        batch_view_valid(b),
        batch_results_known(b),
    ensures
        batch_from_wrapper_spec(batch_to_wrapper_spec(b)) == Ok::<BatchJournalView, WrapperErrorView>(b),
{
    let w = batch_to_wrapper_spec(b);
    lemma_prefixed_hex_roundtrip(b.verifier_vk);
    assert forall|i: int| 0 <= i < w.outputs.len() implies (journal_parser())(#[trigger] w.outputs[i])
        == Ok::<JournalView, WrapperErrorView>(b.outputs[i]) by {
        lemma_journal_view_roundtrip(b.outputs[i]);
    }
    lemma_collect_all_ok(w.outputs, b.outputs, journal_parser());
}

/// A PCR entry turned into its text form and back is the same entry.
pub proof fn lemma_pcr_roundtrip(pcr: Pcr)
    ensures
        pcr_from_wrapper_spec(pcr_to_wrapper_spec(pcr@)) == Ok::<PcrView, WrapperErrorView>(pcr@),
{
    lemma_pcr_view_roundtrip(pcr@);
}

/// A journal turned into its text form and back is the same journal, when
/// its result is one of the four known ones (an unknown result is named
/// "Unknown", which is refused on the way back).
pub proof fn lemma_journal_roundtrip(journal: VerifierJournal)
    requires
        journal.result != VerificationResult::Invalid,
    ensures
        journal_from_wrapper_spec(journal_to_wrapper_spec(journal@)) == Ok::<
            JournalView,
            WrapperErrorView,
        >(journal@),
{
    lemma_journal_view_valid(journal);
    lemma_journal_view_roundtrip(journal@);
}

/// A batch journal turned into its text form and back is the same batch,
/// when every result in it is one of the four known ones.
pub proof fn lemma_batch_roundtrip(batch: BatchVerifierJournal)
    requires
        batch_results_known(batch@),
    ensures
        batch_from_wrapper_spec(batch_to_wrapper_spec(batch@)) == Ok::<
            BatchJournalView,
            WrapperErrorView,
        >(batch@),
{
    lemma_batch_view_valid(batch);
    lemma_batch_view_roundtrip(batch@);
}

// ---------------------------------------------------------------------------
// Field-by-field statements of the conversions.
/// The text of a PCR entry: the same index, and `0x` followed by the
/// lowercase hex of its 32 + 16 bytes, in order.
pub open spec fn pcr_text_of(p: PcrView, w: PcrWrapperView) -> bool {
    &&& w.index == p.index
    &&& w.value == prefixed_hex(p.first + p.second)
}

/// The name a result takes in text, per result.
pub open spec fn result_named(r: VerificationResult, name: Seq<char>) -> bool {
    &&& r == VerificationResult::Success ==> name == "Success"@
    &&& r == VerificationResult::RootCertNotTrusted ==> name == "RootCertNotTrusted"@
    &&& r == VerificationResult::IntermediateCertsNotTrusted ==> name
        == "IntermediateCertsNotTrusted"@
    &&& r == VerificationResult::InvalidTimestamp ==> name == "InvalidTimestamp"@
    &&& r == VerificationResult::Invalid ==> name == "Unknown"@
}

/// The text of a journal, field by field: the result's name; the prefix
/// length, timestamp and module id unchanged; each byte string as `0x` and its
/// lowercase hex; the i-th cert hash and the i-th PCR as the text of the i-th.
pub open spec fn journal_text_of(j: JournalView, w: JournalWrapperView) -> bool {
    &&& result_named(j.result, w.result)
    &&& w.trusted_certs_prefix_len == j.trusted_certs_prefix_len
    &&& w.timestamp == j.timestamp
    &&& w.certs.len() == j.certs.len()
    &&& forall|i: int| 0 <= i < j.certs.len() ==> #[trigger] w.certs[i] == prefixed_hex(j.certs[i])
    &&& w.user_data == prefixed_hex(j.user_data)
    &&& w.nonce == prefixed_hex(j.nonce)
    &&& w.public_key == prefixed_hex(j.public_key)
    &&& w.pcrs.len() == j.pcrs.len()
    &&& forall|i: int| 0 <= i < j.pcrs.len() ==> pcr_text_of(j.pcrs[i], #[trigger] w.pcrs[i])
    &&& w.module_id == j.module_id
}

/// The text of a batch: the key as `0x` and its hex, and the i-th output as
/// the text of the batch's i-th journal.
pub open spec fn batch_text_of(b: BatchJournalView, w: BatchWrapperView) -> bool {
    &&& w.verifier_vk == prefixed_hex(b.verifier_vk)
    &&& w.outputs.len() == b.outputs.len()
    &&& forall|i: int| 0 <= i < b.outputs.len() ==> journal_text_of(b.outputs[i], #[trigger] w.outputs[i])
}

/// A PCR entry read from text: the same index, and its 32 + 16 bytes, in
/// order, are what the value's hex decodes to.
pub open spec fn pcr_read_from(w: PcrWrapperView, p: PcrView) -> bool {
    &&& p.index == w.index
    &&& decode_prefixed_hex_spec(w.value) == Ok::<Seq<u8>, HexError>(p.first + p.second)
}

/// A journal read from text, field by field: the result is the one named; the
/// prefix length, timestamp and module id unchanged; each byte string is what
/// its hex decodes to; the i-th cert hash and the i-th PCR come from the i-th
/// text.
pub open spec fn journal_read_from(w: JournalWrapperView, j: JournalView) -> bool {
    &&& j.result != VerificationResult::Invalid
    &&& result_named(j.result, w.result)
    &&& j.trusted_certs_prefix_len == w.trusted_certs_prefix_len
    &&& j.timestamp == w.timestamp
    &&& j.certs.len() == w.certs.len()
    &&& forall|i: int|
        0 <= i < w.certs.len() ==> decode_prefixed_hex_spec(#[trigger] w.certs[i]) == Ok::<
            Seq<u8>,
            HexError,
        >(j.certs[i])
    &&& decode_prefixed_hex_spec(w.user_data) == Ok::<Seq<u8>, HexError>(j.user_data)
    &&& decode_prefixed_hex_spec(w.nonce) == Ok::<Seq<u8>, HexError>(j.nonce)
    &&& decode_prefixed_hex_spec(w.public_key) == Ok::<Seq<u8>, HexError>(j.public_key)
    &&& j.pcrs.len() == w.pcrs.len()
    &&& forall|i: int| 0 <= i < w.pcrs.len() ==> pcr_read_from(#[trigger] w.pcrs[i], j.pcrs[i])
    &&& j.module_id == w.module_id
}

/// A batch read from text: the key is what its hex decodes to, and the i-th
/// journal is read from the i-th text output.
pub open spec fn batch_read_from(w: BatchWrapperView, b: BatchJournalView) -> bool {
    &&& decode_prefixed_hex_spec(w.verifier_vk) == Ok::<Seq<u8>, HexError>(b.verifier_vk)
    &&& b.outputs.len() == w.outputs.len()
    &&& forall|i: int| 0 <= i < w.outputs.len() ==> journal_read_from(#[trigger] w.outputs[i], b.outputs[i])
}

/// A successful conversion of every item gives one result per item, the i-th
/// from the i-th.
pub proof fn lemma_collect_all_positions<A, B>(
    xs: Seq<A>,
    f: spec_fn(A) -> Result<B, WrapperErrorView>,
)
    ensures
        collect_all(xs, f) matches Ok(ys) ==> {
            &&& ys.len() == xs.len()
            &&& forall|i: int| 0 <= i < xs.len() ==> f(#[trigger] xs[i]) == Ok::<B, WrapperErrorView>(ys[i])
        },
    decreases xs.len(),
{
    if xs.len() > 0 {
        lemma_collect_all_positions(xs.drop_last(), f);
        if let Ok(ys) = collect_all(xs, f) {
            let prev = collect_all(xs.drop_last(), f)->Ok_0;
            assert forall|i: int| 0 <= i < xs.len() implies f(#[trigger] xs[i]) == Ok::<
                B,
                WrapperErrorView,
            >(ys[i]) by {
                if i < xs.len() - 1 {
                    assert(xs.drop_last()[i] == xs[i]);
                    assert(ys[i] == prev[i]);
                }
            }
        }
    }
}

/// The text form of a PCR entry is its index and the hex of its bytes.
pub proof fn lemma_pcr_text(p: PcrView)
    ensures
        pcr_text_of(p, pcr_to_wrapper_spec(p)),
{
}

/// The text form of a journal holds each field as stated by `journal_text_of`.
pub proof fn lemma_journal_text(j: JournalView)
    ensures
        journal_text_of(j, journal_to_wrapper_spec(j)),
{
    let w = journal_to_wrapper_spec(j);
    assert forall|i: int| 0 <= i < j.pcrs.len() implies pcr_text_of(j.pcrs[i], #[trigger] w.pcrs[i]) by {
        lemma_pcr_text(j.pcrs[i]);
    }
}

/// The text form of a batch keeps its outputs in order.
pub proof fn lemma_batch_text(b: BatchJournalView)
    ensures
        batch_text_of(b, batch_to_wrapper_spec(b)),
{
    let w = batch_to_wrapper_spec(b);
    assert forall|i: int| 0 <= i < b.outputs.len() implies journal_text_of(
        b.outputs[i],
        #[trigger] w.outputs[i],
    ) by {
        lemma_journal_text(b.outputs[i]);
    }
}

/// A PCR entry read from text holds the decoded bytes, in order.
pub proof fn lemma_pcr_read(w: PcrWrapperView)
    ensures
        pcr_from_wrapper_spec(w) matches Ok(p) ==> pcr_read_from(w, p),
{
    if let Ok(p) = pcr_from_wrapper_spec(w) {
        let b = decode_prefixed_hex_spec(w.value)->Ok_0;
        assert(b.take(32) + b.skip(32) =~= b);
    }
}

/// A journal read from text holds each field as stated by `journal_read_from`.
pub proof fn lemma_journal_read(w: JournalWrapperView)
    ensures
        journal_from_wrapper_spec(w) matches Ok(j) ==> journal_read_from(w, j),
{
    reveal(journal_from_wrapper_spec);
    lemma_collect_all_positions(w.certs, cert_parser());
    lemma_collect_all_positions(w.pcrs, pcr_parser());
    if let Ok(j) = journal_from_wrapper_spec(w) {
        assert forall|i: int| 0 <= i < w.pcrs.len() implies pcr_read_from(
            #[trigger] w.pcrs[i],
            j.pcrs[i],
        ) by {
            assert((pcr_parser())(w.pcrs[i]) == Ok::<PcrView, WrapperErrorView>(j.pcrs[i]));
            lemma_pcr_read(w.pcrs[i]);
        }
        assert forall|i: int| 0 <= i < w.certs.len() implies decode_prefixed_hex_spec(
            #[trigger] w.certs[i],
        ) == Ok::<Seq<u8>, HexError>(j.certs[i]) by {
            assert((cert_parser())(w.certs[i]) == Ok::<Seq<u8>, WrapperErrorView>(j.certs[i]));
        }
    }
}

/// A batch read from text keeps its outputs in order.
pub proof fn lemma_batch_read(w: BatchWrapperView)
    ensures
        batch_from_wrapper_spec(w) matches Ok(b) ==> batch_read_from(w, b),
{
    lemma_collect_all_positions(w.outputs, journal_parser());
    if let Ok(b) = batch_from_wrapper_spec(w) {
        assert forall|i: int| 0 <= i < w.outputs.len() implies journal_read_from(
            #[trigger] w.outputs[i],
            b.outputs[i],
        ) by {
            assert((journal_parser())(w.outputs[i]) == Ok::<JournalView, WrapperErrorView>(
                b.outputs[i],
            ));
            lemma_journal_read(w.outputs[i]);
        }
    }
}

} // verus!
