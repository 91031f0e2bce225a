//! The text forms in which bytes travel to and from the pool: hexadecimal for
//! nonces, Base58 for hashes and account addresses.

use vstd::prelude::*;

verus! {

/// The error of `hex::decode`.
#[verifier::external_type_specification]
#[verifier::external_body]
pub struct ExFromHexError(hex::FromHexError);

/// The error of `bs58::decode`.
#[verifier::external_type_specification]
#[verifier::external_body]
pub struct ExBase58Error(bs58::decode::Error);

/// The error of parsing an account address.
#[verifier::external_type_specification]
#[verifier::external_body]
pub struct ExParsePubkeyError(solana_sdk::pubkey::ParsePubkeyError);

/// The lower-case hexadecimal digit of a value below 16.
pub open spec fn hex_digit(value: int) -> char {
    if value < 10 {
        ((0x30 + value) as u8) as char
    } else {
        ((0x57 + value) as u8) as char
    }
}

/// The value of a hexadecimal digit of either case, if `c` is one.
pub open spec fn hex_value(c: char) -> Option<int> {
    let code = c as u32 as int;
    if 0x30 <= code <= 0x39 {
        Some(code - 0x30)
    } else if 0x61 <= code <= 0x66 {
        Some(code - 0x57)
    } else if 0x41 <= code <= 0x46 {
        Some(code - 0x37)
    } else {
        None
    }
}

/// The hexadecimal text of `bytes`: two lower-case digits for each byte, the
/// high half first.
pub open spec fn hex_text(bytes: Seq<u8>) -> Seq<char> {
    Seq::new(
        2 * bytes.len(),
        |i: int|
            if i % 2 == 0 {
                hex_digit(bytes[i / 2] as int / 16)
            } else {
                hex_digit(bytes[i / 2] as int % 16)
            },
    )
}

/// Whether `text` is hexadecimal text: an even number of hexadecimal digits.
pub open spec fn is_hex_text(text: Seq<char>) -> bool {
    &&& text.len() % 2 == 0
    &&& forall|i: int| 0 <= i < text.len() ==> (#[trigger] hex_value(text[i])) is Some
}

/// The bytes that hexadecimal text stands for.
pub open spec fn hex_bytes(text: Seq<char>) -> Seq<u8> {
    Seq::new(
        text.len() / 2,
        |i: int| (hex_value(text[2 * i])->0 * 16 + hex_value(text[2 * i + 1])->0) as u8,
    )
}

/// Whether `c` belongs to the Base58 alphabet: the digits and letters
/// without `0`, `O`, `I` and `l`.
pub open spec fn is_base58_char(c: char) -> bool {
    let code = c as u32 as int;
    ||| 0x31 <= code <= 0x39
    ||| (0x41 <= code <= 0x5a && code != 0x49 && code != 0x4f)
    ||| (0x61 <= code <= 0x7a && code != 0x6c)
}

/// Whether every character of `text` belongs to the Base58 alphabet.
pub open spec fn is_base58_text(text: Seq<char>) -> bool {
    forall|i: int| 0 <= i < text.len() ==> #[trigger] is_base58_char(text[i])
}

/// The Base58 text of `bytes`, as `bs58` encodes them.
pub uninterp spec fn base58_text(bytes: Seq<u8>) -> Seq<char>;

/// The bytes that Base58 text stands for, as `bs58` decodes it.
pub uninterp spec fn base58_bytes(text: Seq<char>) -> Seq<u8>;

/// The 32 bytes of an account address written as text, if `text` is one.
pub uninterp spec fn address_bytes(text: Seq<char>) -> Option<Seq<u8>>;

/// Decoding the hexadecimal text of bytes gives the bytes back.
pub proof fn lemma_hex_round_trip(bytes: Seq<u8>)
    ensures
        is_hex_text(hex_text(bytes)),
        hex_bytes(hex_text(bytes)) == bytes,
{
    let text = hex_text(bytes);
    assert forall|v: int| 0 <= v < 16 implies hex_value(#[trigger] hex_digit(v)) == Some(v) by {
        let code = if v < 10 {
            0x30 + v
        } else {
            0x57 + v
        };
        assert(((code as u8) as char) as u32 == code);
    }
    assert forall|i: int| 0 <= i < text.len() implies (#[trigger] hex_value(text[i])) is Some by {
        let b = bytes[i / 2] as int;
        assert(0 <= b / 16 < 16 && 0 <= b % 16 < 16);
    }
    assert forall|k: int| 0 <= k < bytes.len() implies hex_bytes(text)[k] == bytes[k] by {
        let b = bytes[k] as int;
        assert(0 <= b / 16 < 16 && 0 <= b % 16 < 16);
        assert((2 * k) % 2 == 0 && (2 * k) / 2 == k);
        assert((2 * k + 1) % 2 == 1 && (2 * k + 1) / 2 == k);
        assert(text[2 * k] == hex_digit(b / 16));
        assert(text[2 * k + 1] == hex_digit(b % 16));
        assert((b / 16) * 16 + b % 16 == b);
    }
    assert(hex_bytes(text) =~= bytes);
}

/// `hex::encode`: two lower-case digits for each byte.
#[verifier::external_body]
pub(crate) fn hex_encode(bytes: &[u8]) -> (text: String)
    ensures
        text@ == hex_text(bytes@),
{
    hex::encode(bytes)
}

/// `hex::decode`: succeeds on an even number of hexadecimal digits of either
/// case, and on nothing else; each pair of digits gives one byte.
#[verifier::external_body]
pub(crate) fn hex_decode(text: &str) -> (res: Result<Vec<u8>, hex::FromHexError>)
    ensures
        res is Ok <==> is_hex_text(text@),
        res matches Ok(bytes) ==> bytes@ == hex_bytes(text@),
{
    hex::decode(text)
}

/// `bs58::encode(..).into_string()`: the text is made of the Base58 alphabet,
/// and `bs58::decode` turns it back into the bytes it was made from.
#[verifier::external_body]
pub(crate) fn base58_encode(bytes: &[u8]) -> (text: String)
    ensures
        text@ == base58_text(bytes@),
        is_base58_text(text@),
        base58_bytes(text@) == bytes@,
{
    bs58::encode(bytes).into_string()
}

/// `bs58::decode(..).into_vec()`: succeeds on text made of the Base58
/// alphabet, and on nothing else.
#[verifier::external_body]
pub(crate) fn base58_decode(text: &str) -> (res: Result<Vec<u8>, bs58::decode::Error>)
    ensures
        res is Ok <==> is_base58_text(text@),
        res matches Ok(bytes) ==> bytes@ == base58_bytes(text@),
{
    bs58::decode(text).into_vec()
}

/// `Pubkey::try_from` on text: the 32 bytes of the address, or the reason why
/// the text is none.
#[verifier::external_body]
pub(crate) fn parse_address(text: &str) -> (res: Result<[u8; 32], solana_sdk::pubkey::ParsePubkeyError>)
    ensures
        res matches Ok(key) ==> address_bytes(text@) == Some(key@),
        res is Err ==> address_bytes(text@) is None,
{
    match solana_sdk::pubkey::Pubkey::try_from(text) {
        Ok(key) => Ok(key.to_bytes()),
        Err(e) => Err(e),
    }
}

/// The `to_string` of a `hex::FromHexError`: what was wrong with the text,
/// in words; every kind of error has some.
#[verifier::external_body]
pub(crate) fn hex_reason(e: &hex::FromHexError) -> (reason: String)
    ensures
        reason@.len() > 0,
{
    e.to_string()
}

/// The `to_string` of a `bs58::decode::Error`: what was wrong with the text,
/// in words; every kind of error has some.
#[verifier::external_body]
pub(crate) fn base58_reason(e: &bs58::decode::Error) -> (reason: String)
    ensures
        reason@.len() > 0,
{
    e.to_string()
}

/// The `to_string` of a `ParsePubkeyError`: what was wrong with the text, in
/// words; both kinds of error have some.
#[verifier::external_body]
pub(crate) fn address_reason(e: &solana_sdk::pubkey::ParsePubkeyError) -> (reason: String)
    ensures
        reason@.len() > 0,
{
    e.to_string()
}

/// The hexadecimal text of a nonce's eight bytes.
pub fn encode_nonce(nonce: &[u8; 8]) -> (text: String)
    ensures
        text@ == hex_text(nonce@),
        is_hex_text(text@),
        hex_bytes(text@) == nonce@,
{
    proof {
        lemma_hex_round_trip(nonce@);
    }
    hex_encode(nonce.as_slice())
}

/// The Base58 text of a hash; decoding it gives the hash back.
pub fn encode_hash(hash: &[u8; 32]) -> (text: String)
    ensures
        text@ == base58_text(hash@),
        is_base58_text(text@),
        base58_bytes(text@) == hash@,
{
    base58_encode(hash.as_slice())
}

/// The bytes of a nonce sent as hexadecimal text, or the reason why the text
/// is none.
pub fn decode_nonce(text: &str) -> (res: Result<Vec<u8>, String>)
    ensures
        res is Ok <==> is_hex_text(text@),
        res matches Ok(bytes) ==> bytes@ == hex_bytes(text@),
        res matches Err(reason) ==> reason@.len() > 0,
{
    match hex_decode(text) {
        Ok(bytes) => Ok(bytes),
        Err(e) => Err(hex_reason(&e)),
    }
}

/// The bytes of a hash sent as Base58 text, or the reason why the text is
/// none.
pub fn decode_hash(text: &str) -> (res: Result<Vec<u8>, String>)
    ensures
        res is Ok <==> is_base58_text(text@),
        res matches Ok(bytes) ==> bytes@ == base58_bytes(text@),
        res matches Err(reason) ==> reason@.len() > 0,
{
    match base58_decode(text) {
        Ok(bytes) => Ok(bytes),
        Err(e) => Err(base58_reason(&e)),
    }
}

/// The 32 bytes of an account address sent as text, or the reason why the
/// text is none.
pub fn decode_address(text: &str) -> (res: Result<[u8; 32], String>)
    ensures
        res matches Ok(key) ==> address_bytes(text@) == Some(key@),
        res is Err ==> address_bytes(text@) is None,
        res matches Err(reason) ==> reason@.len() > 0,
{
    match parse_address(text) {
        Ok(key) => Ok(key),
        Err(e) => Err(address_reason(&e)),
    }
}

} // verus!
