//! Hex text for byte strings: lowercase encoding with a `0x` prefix, and the
//! decoding of such text back into bytes.
use vstd::prelude::*;
use vstd::string::*;
use vstd::utf8::*;

verus! {

broadcast use vstd::string::group_string_axioms;

/// The hex digit for a nibble, lowercase.
pub open spec fn hex_digit(n: u8) -> char {
    seq!['0', '1', '2', '3', '4', '5', '6', '7', '8', '9', 'a', 'b', 'c', 'd', 'e', 'f'][n as int]
}

/// Lowercase hex text of a byte string: two digits per byte, high nibble first.
pub open spec fn hex_lower(bytes: Seq<u8>) -> Seq<char> {
    Seq::new(
        2 * bytes.len(),
        |i: int|
            if i % 2 == 0 {
                hex_digit(bytes[i / 2] / 16)
            } else {
                hex_digit(bytes[i / 2] % 16)
            },
    )
}

/// `0x` followed by the lowercase hex text of `bytes`.
pub open spec fn prefixed_hex(bytes: Seq<u8>) -> Seq<char> {
    seq!['0', 'x'] + hex_lower(bytes)
}

/// The value of one ASCII hex digit (either case), if `b` is one.
pub open spec fn hex_byte_value(b: u8) -> Option<u8> {
    if 48 <= b <= 57 {
        Some((b - 48) as u8)
    } else if 97 <= b <= 102 {
        Some((b - 87) as u8)
    } else if 65 <= b <= 70 {
        Some((b - 55) as u8)
    } else {
        None
    }
}

pub open spec fn is_hex_byte(b: u8) -> bool {
    hex_byte_value(b) is Some
}

/// Every byte before position `i` is a hex digit and the one at `i` is not.
pub open spec fn is_first_non_hex(bs: Seq<u8>, i: int) -> bool {
    &&& 0 <= i < bs.len()
    &&& !is_hex_byte(bs[i])
    &&& forall|j: int| 0 <= j < i ==> is_hex_byte(#[trigger] bs[j])
}

/// Why a text is not hex.
#[derive(Clone, Copy, Debug, PartialEq, Eq)]
pub enum HexError {
    /// The byte `c` at byte position `index` is not a hex digit.
    InvalidHexCharacter { c: char, index: usize },
    /// The text has an odd number of bytes.
    OddLength,
    /// The text does not fit the fixed size asked for.
    InvalidStringLength,
}

/// Decoding of hex text, given as its bytes: an odd length is refused first,
/// then the first byte that is not a hex digit; otherwise each pair of digits
/// gives one byte.
pub open spec fn hex_decode_spec(bs: Seq<u8>) -> Result<Seq<u8>, HexError> {
    if bs.len() % 2 == 1 {
        Err(HexError::OddLength)
    } else if exists|i: int| is_first_non_hex(bs, i) {
        let i = choose|i: int| is_first_non_hex(bs, i);
        Err(HexError::InvalidHexCharacter { c: bs[i] as char, index: i as usize })
    } else {
        Ok(
            Seq::new(
                bs.len() / 2,
                |k: int|
                    (hex_byte_value(bs[2 * k]).unwrap() * 16 + hex_byte_value(
                        bs[2 * k + 1],
                    ).unwrap()) as u8,
            ),
        )
    }
}

/// The text after every leading `0x` has been removed, one pair after another.
pub open spec fn strip_hex_prefix_spec(s: Seq<char>) -> Seq<char>
    decreases s.len(),
{
    if s.len() >= 2 && s[0] == '0' && s[1] == 'x' {
        strip_hex_prefix_spec(s.skip(2))
    } else {
        s
    }
}

/// What decoding a `0x`-prefixed hex field gives: the prefixes are removed and
/// the UTF-8 bytes of the rest are decoded.
pub open spec fn decode_prefixed_hex_spec(s: Seq<char>) -> Result<Seq<u8>, HexError> {
    hex_decode_spec(encode_utf8(strip_hex_prefix_spec(s)))
}

/// The bytes without one leading `0x` or `0X`.
pub open spec fn strip_one_0x(bs: Seq<u8>) -> Seq<u8> {
    if bs.len() >= 2 && bs[0] == 48 && (bs[1] == 120 || bs[1] == 88) {
        bs.skip(2)
    } else {
        bs
    }
}

/// Decoding by `alloy_primitives::hex`: an odd length is refused first; then
/// one leading `0x` or `0X` is dropped and the rest is decoded as above, with
/// positions counted in that rest.
pub open spec fn alloy_hex_decode_spec(bs: Seq<u8>) -> Result<Seq<u8>, HexError> {
    if bs.len() % 2 == 1 {
        Err(HexError::OddLength)
    } else {
        hex_decode_spec(strip_one_0x(bs))
    }
}

/// Calls `hex::encode`: the lowercase hex text of `data`, high nibble first.
#[verifier::external_body]
fn hex_encode(data: &[u8]) -> (text: String)
    ensures
        text@ == hex_lower(data@),
{
    hex::encode(data)
}

/// Calls `hex::decode` on the bytes of a text: an odd length gives `OddLength`,
/// otherwise the first byte that is not a hex digit (either case) gives
/// `InvalidHexCharacter` with that byte and its position, otherwise each pair
/// of digits gives one byte.
#[verifier::external_body]
fn hex_decode(data: &[u8]) -> (res: Result<Vec<u8>, HexError>)
    ensures
        match res {
            Ok(v) => hex_decode_spec(data@) == Ok::<Seq<u8>, HexError>(v@),
            Err(e) => hex_decode_spec(data@) == Err::<Seq<u8>, HexError>(e),
        },
{
    match hex::decode(data) {
        Ok(v) => Ok(v),
        Err(hex::FromHexError::InvalidHexCharacter { c, index }) => Err(
            HexError::InvalidHexCharacter { c, index },
        ),
        Err(hex::FromHexError::OddLength) => Err(HexError::OddLength),
        Err(hex::FromHexError::InvalidStringLength) => Err(HexError::InvalidStringLength),
    }
}

/// Calls `alloy_primitives::hex::decode` (the `const-hex` crate) on the bytes
/// of a text: an odd length gives `OddLength`; otherwise one leading `0x` or
/// `0X` is dropped, and the rest decodes as `hex::decode` does, positions being
/// counted in that rest.
#[verifier::external_body]
pub(crate) fn alloy_hex_decode(data: &[u8]) -> (res: Result<Vec<u8>, HexError>)
    ensures
        match res {
            Ok(v) => alloy_hex_decode_spec(data@) == Ok::<Seq<u8>, HexError>(v@),
            Err(e) => alloy_hex_decode_spec(data@) == Err::<Seq<u8>, HexError>(e),
        },
{
    match alloy_primitives::hex::decode(data) {
        Ok(v) => Ok(v),
        Err(alloy_primitives::hex::FromHexError::InvalidHexCharacter { c, index }) => Err(
            HexError::InvalidHexCharacter { c, index },
        ),
        Err(alloy_primitives::hex::FromHexError::OddLength) => Err(HexError::OddLength),
        Err(alloy_primitives::hex::FromHexError::InvalidStringLength) => Err(
            HexError::InvalidStringLength,
        ),
    }
}

/// Removes every leading `0x` of `s`, as `str::trim_start_matches("0x")` does.
pub fn strip_hex_prefix(s: &str) -> (rest: &str)
    ensures
        rest@ == strip_hex_prefix_spec(s@),
{
    let mut cur = s;
    let mut n = cur.unicode_len();
    while n >= 2 && cur.get_char(0) == '0' && cur.get_char(1) == 'x'
        invariant
            n == cur@.len(),
            strip_hex_prefix_spec(cur@) == strip_hex_prefix_spec(s@),
        decreases n,
    {
        cur = cur.substring_char(2, n);
        n = n - 2;
    }
    cur
}

/// `0x` followed by the lowercase hex text of `data`.
pub fn encode_prefixed_hex(data: &[u8]) -> (text: String)
    ensures
        text@ == prefixed_hex(data@),
{
    let digits = hex_encode(data);
    let mut text = String::from_str("0x");
    proof {
        reveal_strlit("0x");
    }
    text.append(digits.as_str());
    text
}

/// Decodes a hex field that may carry `0x` prefixes.
pub fn decode_prefixed_hex(text: &str) -> (res: Result<Vec<u8>, HexError>)
    ensures
        match res {
            Ok(v) => decode_prefixed_hex_spec(text@) == Ok::<Seq<u8>, HexError>(v@),
            Err(e) => decode_prefixed_hex_spec(text@) == Err::<Seq<u8>, HexError>(e),
        },
{
    let digits = strip_hex_prefix(text);
    hex_decode(digits.as_bytes())
}

/// Decoding the `0x`-prefixed lowercase hex text of a byte string gives the
/// byte string back.
pub proof fn lemma_prefixed_hex_roundtrip(bytes: Seq<u8>)
    ensures
        decode_prefixed_hex_spec(prefixed_hex(bytes)) == Ok::<Seq<u8>, HexError>(bytes),
{
    let h = hex_lower(bytes);
    assert(strip_hex_prefix_spec(h) == h) by {
        if h.len() >= 2 {
            assert(h[1] == hex_digit(bytes[0] % 16));
        }
    }
    assert(prefixed_hex(bytes).skip(2) =~= h);
    assert(strip_hex_prefix_spec(prefixed_hex(bytes)) == h);
    assert(is_ascii_chars(h));
    is_ascii_chars_encode_utf8(h);
    let bs = encode_utf8(h);
    assert(bs.len() == 2 * bytes.len());
    assert forall|i: int| 0 <= i < bs.len() implies is_hex_byte(#[trigger] bs[i]) by {
        assert(bs[i] == h[i] as u8);
    }
    assert(!exists|i: int| is_first_non_hex(bs, i));
    let decoded = Seq::new(
        bs.len() / 2,
        |k: int|
            (hex_byte_value(bs[2 * k]).unwrap() * 16 + hex_byte_value(bs[2 * k + 1]).unwrap()) as u8,
    );
    assert forall|k: int| 0 <= k < bytes.len() implies decoded[k] == bytes[k] by {
        assert(bs[2 * k] == h[2 * k] as u8);
        assert(bs[2 * k + 1] == h[2 * k + 1] as u8);
        assert((2 * k) / 2 == k);
        assert((2 * k + 1) / 2 == k);
        assert((2 * k) % 2 == 0);
        assert((2 * k + 1) % 2 == 1);
    }
    assert(decoded =~= bytes);
}

} // verus!
