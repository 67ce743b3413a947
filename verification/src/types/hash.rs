//! Content hashes: the SHA-256 digest of a file's text, and its hex form.

use sha2::{Digest, Sha256};
use vstd::prelude::*;
use vstd::utf8::*;

verus! {

/// The SHA-256 digest of a byte string, as `sha2` computes it.
pub uninterp spec fn sha256(data: Seq<u8>) -> Seq<u8>;

/// The lowercase hex digit for a value below 16.
pub open spec fn hex_digit(n: int) -> char {
    seq!['0', '1', '2', '3', '4', '5', '6', '7', '8', '9', 'a', 'b', 'c', 'd', 'e', 'f'][n]
}

/// Two lowercase hex digits for each byte, the high half first.
pub open spec fn hex_encoding(data: Seq<u8>) -> Seq<char> {
    Seq::new(
        2 * data.len(),
        |i: int|
            if i % 2 == 0 {
                hex_digit(data[i / 2] as int / 16)
            } else {
                hex_digit(data[i / 2] as int % 16)
            },
    )
}

/// The value of a hex digit given as an ASCII byte, in either case.
pub open spec fn hex_value(b: u8) -> Option<int> {
    if 0x30 <= b <= 0x39 {
        Some(b - 0x30)
    } else if 0x61 <= b <= 0x66 {
        Some(b - 0x61 + 10)
    } else if 0x41 <= b <= 0x46 {
        Some(b - 0x41 + 10)
    } else {
        None
    }
}

/// The bytes are an even number of hex digits.
pub open spec fn is_hex(text: Seq<u8>) -> bool {
    &&& text.len() % 2 == 0
    &&& forall|i: int| 0 <= i < text.len() ==> hex_value(#[trigger] text[i]) is Some
}

/// The bytes that a string of hex digits stands for.
pub open spec fn hex_decoding(text: Seq<u8>) -> Seq<u8> {
    Seq::new(
        text.len() / 2,
        |i: int| (16 * hex_value(text[2 * i])->0 + hex_value(text[2 * i + 1])->0) as u8,
    )
}

/// The error of `hex::decode`. Nothing is read from it.
#[verifier::external_type_specification]
#[verifier::external_body]
pub struct ExFromHexError(hex::FromHexError);

/// Calls `sha2::Sha256::digest`, which hashes the bytes in one go; the
/// result is the digest that the name `sha256` stands for.
#[verifier::external_body]
fn sha256_digest(data: &[u8]) -> (r: [u8; 32])
    ensures
        r@ == sha256(data@),
{
    Sha256::digest(data).into()
}

/// Calls `hex::encode`, which writes each byte as two lowercase hex
/// digits, the high half first.
#[verifier::external_body]
fn hex_encode(data: &[u8]) -> (r: String)
    ensures
        r@ == hex_encoding(data@),
{
    hex::encode(data)
}

/// Calls `hex::decode`, which fails on an odd number of bytes and on a
/// byte that is no hex digit, and else gives one byte for two digits.
#[verifier::external_body]
fn hex_decode(text: &str) -> (r: Result<Vec<u8>, hex::FromHexError>)
    ensures
        r is Ok <==> is_hex(encode_utf8(text@)),
        r matches Ok(v) ==> v@ == hex_decoding(encode_utf8(text@)),
{
    hex::decode(text)
}

/// A SHA-256 digest.
#[derive(Clone, Copy, Debug)]
pub struct Hash(pub [u8; 32]);

/// Why a string is not the hex form of a hash.
#[derive(Debug)]
pub enum HashError {
    /// The string is not an even number of hex digits; it is handed back.
    InvalidHex(String),
    /// The string stands for this many bytes, not 32.
    InvalidLength(u32),
}

impl View for Hash {
    type V = Seq<u8>;

    open spec fn view(&self) -> Seq<u8> {
        self.0@
    }
}

impl Hash {
    /// The hash of a text: the SHA-256 digest of its UTF-8 bytes.
    pub fn digest(input: String) -> (r: Hash)
        ensures
            r@ == sha256(encode_utf8(input@)),
            r@.len() == 32,
    {
        Hash(sha256_digest(input.as_str().as_bytes()))
    }

    /// The 64 lowercase hex digits of the hash.
    pub fn to_hex(&self) -> (r: String)
        ensures
            r@ == hex_encoding(self@),
            r@.len() == 64,
    {
        hex_encode(self.0.as_slice())
    }

    /// Whether two hashes are the same digest.
    pub fn same_as(&self, other: &Hash) -> (r: bool)
        ensures
            r == (self@ == other@),
    {
        crate::text::bytes_eq(self.0.as_slice(), other.0.as_slice())
    }

    /// Reads a hash from its hex form, in either case. The string must
    /// be 64 hex digits.
    pub fn try_from(value: String) -> (r: Result<Hash, HashError>)
        requires
            is_hex(encode_utf8(value@)) ==> encode_utf8(value@).len() / 2 <= u32::MAX,
        ensures
            match r {
                Ok(h) => is_hex(encode_utf8(value@)) && encode_utf8(value@).len() == 64 && h@
                    == hex_decoding(encode_utf8(value@)),
                Err(HashError::InvalidHex(s)) => !is_hex(encode_utf8(value@)) && s@ == value@,
                Err(HashError::InvalidLength(n)) => is_hex(encode_utf8(value@)) && n != 32 && n
                    == encode_utf8(value@).len() / 2,
            },
    {
        let decoded = hex_decode(value.as_str());
        match decoded {
            Err(_) => Err(HashError::InvalidHex(value)),
            Ok(bytes) => {
                if bytes.len() != 32 {
                    return Err(HashError::InvalidLength(bytes.len() as u32));
                }
                let mut array = [0u8;32];
                let mut i: usize = 0;
                while i < 32
                    invariant
                        i <= 32,
                        bytes@.len() == 32,
                        forall|k: int| 0 <= k < i ==> array@[k] == bytes@[k],
                    decreases 32 - i,
                {
                    array[i] = bytes[i];
                    i += 1;
                }
                assert(array@ =~= bytes@);
                Ok(Hash(array))
            },
        }
    }
}

/// The hex form of a hash is read back as the same hash: it is 64 hex
/// digits, and they stand for the bytes of the hash.
pub proof fn lemma_hash_hex_round_trip(hash: Hash)
    ensures
        is_hex(encode_utf8(hex_encoding(hash@))),
        encode_utf8(hex_encoding(hash@)).len() == 64,
        hex_decoding(encode_utf8(hex_encoding(hash@))) == hash@,
{
    lemma_hex_text(hash@);
    lemma_hex_round_trip(hash@);
}

/// The UTF-8 bytes of the hex form of a byte string are its hex digits
/// as ASCII bytes.
pub proof fn lemma_hex_text(data: Seq<u8>)
    ensures
        encode_utf8(hex_encoding(data)) == hex_bytes(data),
{
    let text = hex_encoding(data);
    assert forall|i: int| 0 <= i < text.len() implies '\0' <= #[trigger] text[i] <= '\u{7f}' by {
        lemma_hex_digit(data[i / 2] as int / 16);
        lemma_hex_digit(data[i / 2] as int % 16);
    }
    is_ascii_chars_encode_utf8(text);
    assert(encode_utf8(text) =~= hex_bytes(data));
}

/// Decoding the hex form of a byte string gives the byte string again.
pub proof fn lemma_hex_round_trip(data: Seq<u8>)
    ensures
        hex_decoding(hex_bytes(data)) == data,
        is_hex(hex_bytes(data)),
{
    let text = hex_bytes(data);
    assert forall|i: int| 0 <= i < text.len() implies hex_value(#[trigger] text[i]) is Some by {
        lemma_hex_digit(data[i / 2] as int / 16);
        lemma_hex_digit(data[i / 2] as int % 16);
    }
    assert forall|i: int| 0 <= i < data.len() implies hex_decoding(text)[i] == data[i] by {
        lemma_hex_digit(data[i] as int / 16);
        lemma_hex_digit(data[i] as int % 16);
        assert((2 * i) / 2 == i && (2 * i) % 2 == 0);
        assert((2 * i + 1) / 2 == i && (2 * i + 1) % 2 == 1);
    }
    assert(hex_decoding(text) =~= data);
}

/// The ASCII bytes of the hex form of a byte string.
pub open spec fn hex_bytes(data: Seq<u8>) -> Seq<u8> {
    Seq::new(
        2 * data.len(),
        |i: int|
            if i % 2 == 0 {
                hex_digit(data[i / 2] as int / 16) as u8
            } else {
                hex_digit(data[i / 2] as int % 16) as u8
            },
    )
}

proof fn lemma_hex_digit(n: int)
    requires
        0 <= n < 16,
    ensures
        hex_value(hex_digit(n) as u8) == Some(n),
        '\0' <= hex_digit(n) <= '\u{7f}',
{
    let digits = seq![
        '0',
        '1',
        '2',
        '3',
        '4',
        '5',
        '6',
        '7',
        '8',
        '9',
        'a',
        'b',
        'c',
        'd',
        'e',
        'f',
    ];
    assert(digits[0] == '0' && digits[1] == '1' && digits[2] == '2' && digits[3] == '3');
    assert(digits[4] == '4' && digits[5] == '5' && digits[6] == '6' && digits[7] == '7');
    assert(digits[8] == '8' && digits[9] == '9' && digits[10] == 'a' && digits[11] == 'b');
    assert(digits[12] == 'c' && digits[13] == 'd' && digits[14] == 'e' && digits[15] == 'f');
}

} // verus!
