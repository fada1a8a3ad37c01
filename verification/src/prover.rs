//! The zkVM programs (Pico and RISC Zero) and the parts of proving that do
//! not need the zkVM itself: identifiers from digests, the on-chain form of a
//! proof, and what a Boundless proof request is made of.
use alloy_sol_types::SolValue;
use core::marker::PhantomData;
use vstd::prelude::*;
use vstd::string::*;
use vstd::utf8::encode_utf8;

use crate::hex_codec::{alloy_hex_decode, alloy_hex_decode_spec, strip_hex_prefix, strip_hex_prefix_spec, HexError};

verus! {

broadcast use vstd::string::group_string_axioms;

/// Why a proving step failed.
#[derive(Clone, Copy, Debug, PartialEq, Eq)]
pub enum ProverError {
    /// A Pico proof that does not hold the 8 elements of a Groth16 proof.
    ExpectedEightProofElements,
    /// The Pico zkVM has no remote prover.
    RemoteProverUnsupported,
    /// No Boundless RPC URL was configured.
    MissingRpcUrl,
    /// No Boundless wallet key was configured.
    MissingPrivateKey,
    /// The Boundless wallet key is not hex.
    InvalidPrivateKey { cause: HexError },
}

/// Proof type for Boundless network proving.
#[derive(Clone, Copy, Debug, PartialEq, Eq, Structural)]
pub enum BoundlessProofType {
    /// Groth16 proof, verifiable on chain.
    Groth16,
    /// Merkle proof.
    Merkle,
}

impl Default for BoundlessProofType {
    fn default() -> (t: Self)
        ensures
            t == BoundlessProofType::Groth16,
    {
        BoundlessProofType::Groth16
    }
}

/// Settings of the Pico prover; there are none yet.
#[derive(Clone, Debug)]
pub struct PicoProverConfig {}

impl Default for PicoProverConfig {
    fn default() -> (c: Self) {
        PicoProverConfig {  }
    }
}

/// Settings of RISC Zero proving on the Boundless network.
#[derive(Clone, Debug)]
pub struct RiscZeroProverConfig {
    /// Boundless RPC URL (env: BOUNDLESS_RPC_URL)
    pub rpc_url: Option<String>,
    /// Wallet private key hex (env: BOUNDLESS_PRIVATE_KEY)
    pub private_key: Option<String>,
    /// Program URL of a pre-uploaded ELF (env: BOUNDLESS_PROGRAM_URL)
    pub program_url: Option<String>,
    /// Groth16 or Merkle (default: Groth16)
    pub proof_type: BoundlessProofType,
    /// Minimum price in wei per cycle
    pub min_price: Option<u128>,
    /// Maximum price in wei per cycle
    pub max_price: Option<u128>,
    /// Timeout in seconds
    pub timeout: Option<u32>,
    /// Ramp-up period in seconds
    pub ramp_up_period: Option<u32>,
}

impl RiscZeroProverConfig {
    /// The default settings, given the values of `BOUNDLESS_RPC_URL`,
    /// `BOUNDLESS_PRIVATE_KEY` and `BOUNDLESS_PROGRAM_URL`: a Groth16 proof, and
    /// no price, timeout or ramp-up bounds.
    pub fn from_env_values(
        rpc_url: Option<String>,
        private_key: Option<String>,
        program_url: Option<String>,
    ) -> (c: Self)
        ensures
            c.rpc_url == rpc_url,
            c.private_key == private_key,
            c.program_url == program_url,
            c.proof_type == BoundlessProofType::Groth16,
            c.min_price is None,
            c.max_price is None,
            c.timeout is None,
            c.ramp_up_period is None,
    {
        RiscZeroProverConfig {
            rpc_url,
            private_key,
            program_url,
            proof_type: BoundlessProofType::default(),
            min_price: None,
            max_price: None,
            timeout: None,
            ramp_up_period: None,
        }
    }
}

/// Byte `k` (0 is the lowest) of a 32-bit word.
pub open spec fn word_byte(w: u32, k: int) -> u8 {
    if k == 0 {
        (w & 0xff) as u8
    } else if k == 1 {
        ((w >> 8u32) & 0xff) as u8
    } else if k == 2 {
        ((w >> 16u32) & 0xff) as u8
    } else {
        ((w >> 24u32) & 0xff) as u8
    }
}

/// The words laid out in memory on a little-endian machine, word after word.
pub open spec fn le_bytes_of_words(words: Seq<u32>) -> Seq<u8> {
    Seq::new(4 * words.len(), |i: int| word_byte(words[i / 4], i % 4))
}

/// The 32 bytes of eight words, each least significant byte first.
pub fn words_to_le_bytes(words: [u32; 8]) -> (bytes: [u8; 32])
    ensures
        bytes@ == le_bytes_of_words(words@),
{
    let mut bytes: [u8; 32] = [0u8; 32];
    let mut i: usize = 0;
    while i < 8
        invariant
            i <= 8,
            bytes@.len() == 32,
            forall|k: int| 0 <= k < 4 * i ==> bytes@[k] == word_byte(words@[k / 4], k % 4),
        decreases 8 - i,
    {
        let w = words[i];
        bytes[4 * i] = (w & 0xff) as u8;
        bytes[4 * i + 1] = ((w >> 8u32) & 0xff) as u8;
        bytes[4 * i + 2] = ((w >> 16u32) & 0xff) as u8;
        bytes[4 * i + 3] = ((w >> 24u32) & 0xff) as u8;
        proof {
            assert forall|k: int| 4 * i <= k < 4 * i + 4 implies bytes@[k] == word_byte(
                words@[k / 4],
                k % 4,
            ) by {
                assert(k / 4 == i);
            }
        }
        i += 1;
    }
    assert(bytes@ =~= le_bytes_of_words(words@));
    bytes
}

/// A chunk of at most 32 bytes as a big-endian 256-bit word: zeros first.
pub open spec fn left_pad32(chunk: Seq<u8>) -> Seq<u8> {
    Seq::new(
        32,
        |j: int|
            if j < 32 - chunk.len() {
                0u8
            } else {
                chunk[j - (32 - chunk.len())]
            },
    )
}

/// Chunk `k` of a proof cut into 32-byte chunks (the last may be shorter).
pub open spec fn proof_chunk(proof: Seq<u8>, k: int) -> Seq<u8> {
    let end = if 32 * k + 32 <= proof.len() {
        32 * k + 32
    } else {
        proof.len() as int
    };
    proof.subrange(32 * k, end)
}

/// Eight 32-byte words, one after another.
pub open spec fn concat_words(words: Seq<Seq<u8>>) -> Seq<u8> {
    Seq::new(256, |i: int| words[i / 32][i % 32])
}

/// The on-chain form of a Pico Groth16 proof: the first eight 32-byte chunks,
/// each as a 256-bit big-endian word, ABI-encoded as `uint256[8]`.  A proof of
/// at most 224 bytes has fewer than eight chunks and has no such form.
pub open spec fn pico_onchain_proof_spec(proof: Seq<u8>) -> Option<Seq<u8>> {
    if proof.len() <= 224 {
        None
    } else {
        Some(concat_words(Seq::new(8, |k: int| left_pad32(proof_chunk(proof, k)))))
    }
}

/// Calls `alloy_primitives::U256::from_be_slice` on a chunk of at most 32 bytes
/// and gives the word's 32 big-endian bytes: the chunk, with zeros before it.
#[verifier::external_body]
fn u256_word_from_be_slice(chunk: &[u8]) -> (word: [u8; 32])
    requires
        chunk@.len() <= 32,
    ensures
        word@ == left_pad32(chunk@),
{
    alloy_primitives::U256::from_be_slice(chunk).to_be_bytes::<32>()
}

/// Calls `alloy_sol_types::SolValue::abi_encode` on a `[U256; 8]` made of the
/// eight big-endian words: a static array is encoded in place, so the result is
/// the 256 bytes of the words, one after another.
#[verifier::external_body]
fn abi_encode_u256_array8(words: &Vec<[u8; 32]>) -> (encoded: Vec<u8>)
    requires
        words@.len() == 8,
    ensures
        encoded@ == concat_words(words@.map_values(|w: [u8; 32]| w@)),
{
    let array: [alloy_primitives::U256; 8] = core::array::from_fn(
        |i| alloy_primitives::U256::from_be_bytes(words[i]),
    );
    array.abi_encode()
}

/// The Pico zkVM program with its ELF.
pub struct ProgramPico<Input, Output> {
    elf: &'static [u8],
    _marker: PhantomData<(Input, Output)>,
}

impl<Input, Output> Clone for ProgramPico<Input, Output> {
    fn clone(&self) -> (c: Self)
        ensures
            c.spec_elf() == self.spec_elf(),
    {
        ProgramPico { elf: self.elf, _marker: PhantomData }
    }
}

impl<Input, Output> ProgramPico<Input, Output> {
    pub closed spec fn spec_elf(&self) -> Seq<u8> {
        self.elf@
    }

    pub fn new(elf: &'static [u8]) -> (p: Self)
        ensures
            p.spec_elf() == elf@,
    {
        ProgramPico { elf, _marker: PhantomData }
    }

    pub fn elf(&self) -> (elf: &'static [u8])
        ensures
            elf@ == self.spec_elf(),
    {
        self.elf
    }

    /// The Pico SDK version the program is proved with.
    pub fn version(&self) -> (v: &'static str)
        ensures
            v@ == "v1.1.6"@,
    {
        "v1.1.6"
    }

    /// The on-chain form of a proof, given the proof bytes of a Groth16 proof:
    /// see [`pico_onchain_proof_spec`].
    pub fn onchain_proof(&self, proof: &[u8]) -> (r: Result<Vec<u8>, ProverError>)
        ensures
            match r {
                Ok(v) => pico_onchain_proof_spec(proof@) == Some(v@),
                Err(e) => pico_onchain_proof_spec(proof@) is None
                    && e == ProverError::ExpectedEightProofElements,
            },
    {
        let n = proof.len();
        if n <= 224 {
            return Err(ProverError::ExpectedEightProofElements);
        }
        let mut words: Vec<[u8; 32]> = Vec::new();
        let mut k: usize = 0;
        while k < 8
            invariant
                n == proof@.len(),
                224 < n,
                k <= 8,
                words@.len() == k,
                forall|j: int| 0 <= j < k ==> (#[trigger] words@[j])@ == left_pad32(proof_chunk(proof@, j)),
            decreases 8 - k,
        {
            let start = 32 * k;
            let end = if start + 32 <= n {
                start + 32
            } else {
                n
            };
            let chunk = vstd::slice::slice_subrange(proof, start, end);
            let word = u256_word_from_be_slice(chunk);
            words.push(word);
            k += 1;
        }
        let encoded = abi_encode_u256_array8(&words);
        proof {
            let ws = Seq::new(8, |j: int| left_pad32(proof_chunk(proof@, j)));
            assert(words@.map_values(|w: [u8; 32]| w@) =~= ws);
        }
        Ok(encoded)
    }

    /// Pico has no remote prover, so there is no image to upload.
    pub fn upload_image(&self) -> (r: Result<(), ProverError>)
        ensures
            r == Err::<(), ProverError>(ProverError::RemoteProverUnsupported),
    {
        Err(ProverError::RemoteProverUnsupported)
    }

    /// The program id from the 31 big-endian bytes of the verifying key's
    /// BN254 digest: a zero byte, then the digest.
    pub fn program_id_from_digest(vk_digest_be: &[u8]) -> (id: [u8; 32])
        requires
            vk_digest_be@.len() == 31,
        ensures
            id@ == seq![0u8] + vk_digest_be@,
    {
        let mut id: [u8; 32] = [0u8; 32];
        let mut i: usize = 0;
        while i < 31
            invariant
                i <= 31,
                vk_digest_be@.len() == 31,
                id@.len() == 32,
                id@[0] == 0,
                forall|k: int| 0 <= k < i ==> id@[k + 1] == vk_digest_be@[k],
            decreases 31 - i,
        {
            id[i + 1] = vk_digest_be[i];
            i += 1;
        }
        assert(id@ =~= seq![0u8] + vk_digest_be@);
        id
    }

    /// The id that proofs are checked against: the eight words of the
    /// verifying key's digest, laid out little-endian.
    pub fn verify_proof_id_from_digest(vk_digest: [u32; 8]) -> (id: [u8; 32])
        ensures
            id@ == le_bytes_of_words(vk_digest@),
    {
        words_to_le_bytes(vk_digest)
    }
}

/// Hex text without its leading `0x` prefixes, decoded by
/// `alloy_primitives::hex`.
pub open spec fn stripped_alloy_hex_spec(text: Seq<char>) -> Result<Seq<u8>, HexError> {
    alloy_hex_decode_spec(encode_utf8(strip_hex_prefix_spec(text)))
}

/// Where a Boundless request takes the program from.
#[derive(Clone, Debug, PartialEq, Eq)]
pub enum ProgramSource {
    /// A pre-uploaded ELF at this URL.
    Url { url: String },
    /// The program's own ELF, uploaded with the request.
    Elf { elf: Vec<u8> },
}

/// The offer settings fixed for every Boundless request, in wei.
#[derive(Clone, Copy, Debug, PartialEq, Eq)]
pub struct BoundlessOffer {
    /// Collateral the prover locks: 10 ether.
    pub lock_collateral: u128,
    /// Lowest price per cycle: 0.0001 gwei.
    pub min_price_per_cycle: u128,
    /// Highest price per cycle: 0.001 gwei.
    pub max_price_per_cycle: u128,
}

/// The fixed offer settings of a Boundless request: 10 ether of lock
/// collateral, and a price per cycle between 0.0001 and 0.001 gwei.
pub fn boundless_offer() -> (o: BoundlessOffer)
    ensures
        o.lock_collateral == 10_000_000_000_000_000_000u128,
        o.min_price_per_cycle == 100_000u128,
        o.max_price_per_cycle == 1_000_000u128,
{
    BoundlessOffer {
        lock_collateral: 10_000_000_000_000_000_000u128,
        min_price_per_cycle: 100_000u128,
        max_price_per_cycle: 1_000_000u128,
    }
}

/// What a Boundless proof request is made of, once the settings are checked.
#[derive(Clone, Debug)]
pub struct BoundlessRequest {
    pub rpc_url: String,
    pub private_key_hex: String,
    /// The input handed to the program.
    pub stdin: Vec<u8>,
    pub program: ProgramSource,
    /// Collateral and per-cycle price bounds of the offer.
    pub offer: BoundlessOffer,
    /// Whether a Groth16 proof is asked for (otherwise a Merkle proof).
    pub groth16: bool,
    pub min_price: Option<u128>,
    pub max_price: Option<u128>,
    pub timeout: Option<u32>,
    pub ramp_up_period: Option<u32>,
}

/// The RISC Zero zkVM program with its ELF and image id.
pub struct ProgramRisc0<Input, Output> {
    elf: &'static [u8],
    image_id: [u32; 8],
    _marker: PhantomData<(Input, Output)>,
}

impl<Input, Output> Clone for ProgramRisc0<Input, Output> {
    fn clone(&self) -> (c: Self)
        ensures
            c.spec_elf() == self.spec_elf(),
            c.spec_image_id() == self.spec_image_id(),
    {
        ProgramRisc0 { elf: self.elf, image_id: self.image_id, _marker: PhantomData }
    }
}

impl<Input, Output> ProgramRisc0<Input, Output> {
    pub closed spec fn spec_elf(&self) -> Seq<u8> {
        self.elf@
    }

    pub closed spec fn spec_image_id(&self) -> Seq<u32> {
        self.image_id@
    }

    pub fn new(elf: &'static [u8], image_id: [u32; 8]) -> (p: Self)
        ensures
            p.spec_elf() == elf@,
            p.spec_image_id() == image_id@,
    {
        ProgramRisc0 { elf, image_id, _marker: PhantomData }
    }

    pub fn elf(&self) -> (elf: &'static [u8])
        ensures
            elf@ == self.spec_elf(),
    {
        self.elf
    }

    pub fn image_id(&self) -> (id: [u32; 8])
        ensures
            id@ == self.spec_image_id(),
    {
        self.image_id
    }

    /// The program id: the image id's digest bytes, each word little-endian.
    pub fn program_id(&self) -> (id: [u8; 32])
        ensures
            id@ == le_bytes_of_words(self.spec_image_id()),
    {
        words_to_le_bytes(self.image_id)
    }

    /// The id proofs are checked against, which for RISC Zero is the program id.
    pub fn verify_proof_id(&self) -> (id: [u8; 32])
        ensures
            id@ == le_bytes_of_words(self.spec_image_id()),
    {
        self.program_id()
    }

    /// The request for a proof on Boundless: an RPC URL and a wallet key are
    /// required; the program is the pre-uploaded URL when one is set and the
    /// ELF otherwise; a Groth16 proof is asked for when that is the proof type;
    /// the input is handed to the program as is, and the offer takes the fixed
    /// collateral and price bounds with the configured limits.
    pub fn boundless_request(&self, cfg: &RiscZeroProverConfig, input_bytes: &[u8]) -> (r: Result<
        BoundlessRequest,
        ProverError,
    >)
        ensures
            cfg.rpc_url is None ==> r == Err::<BoundlessRequest, ProverError>(
                ProverError::MissingRpcUrl,
            ),
            cfg.rpc_url is Some && cfg.private_key is None ==> r == Err::<
                BoundlessRequest,
                ProverError,
            >(ProverError::MissingPrivateKey),
            cfg.rpc_url is Some && cfg.private_key is Some ==> (r matches Ok(req) && {
                &&& Some(req.rpc_url) == cfg.rpc_url
                &&& Some(req.private_key_hex) == cfg.private_key
                &&& req.stdin@ == input_bytes@
                &&& match cfg.program_url {
                    Some(url) => req.program == ProgramSource::Url { url },
                    None => req.program matches ProgramSource::Elf { elf } && elf@
                        == self.spec_elf(),
                }
                &&& req.offer.lock_collateral == 10_000_000_000_000_000_000u128
                &&& req.offer.min_price_per_cycle == 100_000u128
                &&& req.offer.max_price_per_cycle == 1_000_000u128
                &&& req.groth16 == (cfg.proof_type == BoundlessProofType::Groth16)
                &&& req.min_price == cfg.min_price
                &&& req.max_price == cfg.max_price
                &&& req.timeout == cfg.timeout
                &&& req.ramp_up_period == cfg.ramp_up_period
            }),
    {
        let rpc_url = match &cfg.rpc_url {
            Some(u) => u.clone(),
            None => {
                return Err(ProverError::MissingRpcUrl);
            },
        };
        let private_key_hex = match &cfg.private_key {
            Some(k) => k.clone(),
            None => {
                return Err(ProverError::MissingPrivateKey);
            },
        };
        let program = match &cfg.program_url {
            Some(url) => ProgramSource::Url { url: url.clone() },
            None => ProgramSource::Elf { elf: vstd::slice::slice_to_vec(self.elf) },
        };
        let groth16 = match cfg.proof_type {
            BoundlessProofType::Groth16 => true,
            BoundlessProofType::Merkle => false,
        };
        Ok(
            BoundlessRequest {
                rpc_url,
                private_key_hex,
                stdin: vstd::slice::slice_to_vec(input_bytes),
                program,
                offer: boundless_offer(),
                groth16,
                min_price: cfg.min_price,
                max_price: cfg.max_price,
                timeout: cfg.timeout,
                ramp_up_period: cfg.ramp_up_period,
            },
        )
    }
}

/// Whether the value of `RISC0_DEV_MODE` asks for dev mode: exactly `1`.
pub fn dev_mode_enabled(value: Option<&str>) -> (b: bool)
    ensures
        b == (value matches Some(v) && v@ == "1"@),
{
    proof {
        reveal_strlit("1");
    }
    match value {
        None => false,
        Some(v) => {
            if v.unicode_len() == 1 && v.get_char(0) == '1' {
                assert(v@ =~= "1"@);
                true
            } else {
                false
            }
        },
    }
}

/// Hex text with its leading `0x` prefixes removed, decoded as
/// `alloy_primitives::hex` decodes.
pub fn decode_stripped_hex(text: &str) -> (r: Result<Vec<u8>, HexError>)
    ensures
        match r {
            Ok(v) => stripped_alloy_hex_spec(text@) == Ok::<Seq<u8>, HexError>(v@),
            Err(e) => stripped_alloy_hex_spec(text@) == Err::<Seq<u8>, HexError>(e),
        },
{
    let digits = strip_hex_prefix(text);
    alloy_hex_decode(digits.as_bytes())
}

/// The wallet key of a Boundless request: its hex text without the leading
/// `0x` prefixes, decoded.
pub fn decode_private_key(text: &str) -> (r: Result<Vec<u8>, ProverError>)
    ensures
        match r {
            Ok(k) => stripped_alloy_hex_spec(text@) == Ok::<Seq<u8>, HexError>(k@),
            Err(e) => stripped_alloy_hex_spec(text@) matches Err(cause) && e
                == (ProverError::InvalidPrivateKey { cause }),
        },
{
    match decode_stripped_hex(text) {
        Ok(k) => Ok(k),
        Err(cause) => Err(ProverError::InvalidPrivateKey { cause }),
    }
}

/// The public values of a Pico EVM proof, from the hex text of its file.
pub fn decode_public_values(text: &str) -> (r: Result<Vec<u8>, HexError>)
    ensures
        match r {
            Ok(v) => alloy_hex_decode_spec(text.spec_bytes()) == Ok::<Seq<u8>, HexError>(v@),
            Err(e) => alloy_hex_decode_spec(text.spec_bytes()) == Err::<Seq<u8>, HexError>(e),
        },
{
    alloy_hex_decode(text.as_bytes())
}

/// The bytes of one element of a Pico EVM proof file.
pub open spec fn evm_proof_element(text: Seq<char>) -> Seq<u8> {
    stripped_alloy_hex_spec(text)->Ok_0
}

/// The bytes that one hex element of a proof file decodes to, after its
/// leading `0x` prefixes.
pub open spec fn evm_decoded(text: Seq<char>) -> Seq<u8> {
    match stripped_alloy_hex_spec(text) {
        Ok(b) => b,
        Err(_) => Seq::empty(),
    }
}

/// The proof bytes are the first eight elements decoded, in file order:
/// element 0's bytes first, then element 1's, and so on up to element 7.
pub proof fn lemma_evm_proof_in_file_order(elements: Seq<Seq<char>>)
    requires
        elements.len() >= 8,
        forall|i: int| 0 <= i < 8 ==> stripped_alloy_hex_spec(#[trigger] elements[i]) is Ok,
    ensures
        evm_proof_prefix(elements, 8) == evm_decoded(elements[0]) + evm_decoded(elements[1])
            + evm_decoded(elements[2]) + evm_decoded(elements[3]) + evm_decoded(elements[4])
            + evm_decoded(elements[5]) + evm_decoded(elements[6]) + evm_decoded(elements[7]),
{
    assert forall|i: int| 0 <= i < 8 implies evm_proof_element(#[trigger] elements[i]) == evm_decoded(
        elements[i],
    ) by {
        assert(stripped_alloy_hex_spec(elements[i]) is Ok);
    }
    reveal_with_fuel(evm_proof_prefix, 9);
    assert(evm_proof_element(elements[0]) == evm_decoded(elements[0]));
    assert(evm_proof_element(elements[1]) == evm_decoded(elements[1]));
    assert(evm_proof_element(elements[2]) == evm_decoded(elements[2]));
    assert(evm_proof_element(elements[3]) == evm_decoded(elements[3]));
    assert(evm_proof_element(elements[4]) == evm_decoded(elements[4]));
    assert(evm_proof_element(elements[5]) == evm_decoded(elements[5]));
    assert(evm_proof_element(elements[6]) == evm_decoded(elements[6]));
    assert(evm_proof_element(elements[7]) == evm_decoded(elements[7]));
    assert(evm_proof_prefix(elements, 0) =~= Seq::<u8>::empty());
    assert(evm_proof_prefix(elements, 8) =~= evm_decoded(elements[0]) + evm_decoded(elements[1])
        + evm_decoded(elements[2]) + evm_decoded(elements[3]) + evm_decoded(elements[4])
        + evm_decoded(elements[5]) + evm_decoded(elements[6]) + evm_decoded(elements[7]));
}

/// The bytes of the first `n` elements, one after another.
pub open spec fn evm_proof_prefix(elements: Seq<Seq<char>>, n: int) -> Seq<u8>
    decreases n,
{
    if n <= 0 {
        Seq::empty()
    } else {
        evm_proof_prefix(elements, n - 1) + evm_proof_element(elements[n - 1])
    }
}

/// The proof bytes of a Pico EVM proof file: its first eight elements, each
/// hex text (leading `0x` prefixes dropped), decoded and joined.
pub fn evm_proof_bytes(proof_data: &Vec<String>) -> (bytes: Vec<u8>)
    requires
        proof_data@.len() >= 8,
        forall|i: int|
            0 <= i < 8 ==> stripped_alloy_hex_spec((#[trigger] proof_data@[i])@) is Ok,
    ensures
        bytes@ == evm_proof_prefix(proof_data@.map_values(|s: String| s@), 8),
        bytes@ == evm_decoded(proof_data@[0]@) + evm_decoded(proof_data@[1]@) + evm_decoded(
            proof_data@[2]@,
        ) + evm_decoded(proof_data@[3]@) + evm_decoded(proof_data@[4]@) + evm_decoded(
            proof_data@[5]@,
        ) + evm_decoded(proof_data@[6]@) + evm_decoded(proof_data@[7]@),
{
    proof {
        lemma_evm_proof_in_file_order(proof_data@.map_values(|s: String| s@));
    }
    let ghost texts = proof_data@.map_values(|s: String| s@);
    let mut bytes: Vec<u8> = Vec::new();
    let mut i: usize = 0;
    while i < 8
        invariant
            i <= 8,
            proof_data@.len() >= 8,
            texts == proof_data@.map_values(|s: String| s@),
            forall|j: int| 0 <= j < 8 ==> stripped_alloy_hex_spec((#[trigger] proof_data@[j])@) is Ok,
            bytes@ == evm_proof_prefix(texts, i as int),
        decreases 8 - i,
    {
        let element = decode_stripped_hex(proof_data[i].as_str());
        assert(stripped_alloy_hex_spec(proof_data@[i as int]@) is Ok);
        match element {
            Ok(e) => {
                let mut k: usize = 0;
                let ghost before = bytes@;
                while k < e.len()
                    invariant
                        k <= e@.len(),
                        bytes@ == before + e@.take(k as int),
                    decreases e@.len() - k,
                {
                    bytes.push(e[k]);
                    k += 1;
                    assert(bytes@ =~= before + e@.take(k as int));
                }
                assert(e@.take(e@.len() as int) =~= e@);
                assert(texts[i as int] == proof_data@[i as int]@);
            },
            Err(_) => {
                assert(false);
            },
        }
        i += 1;
    }
    bytes
}

} // verus!
