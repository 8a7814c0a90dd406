//! Hashing, hex encoding and AES-256-GCM, as the credential store and the
//! archive use them.

use aes_gcm::aead::{Aead, AeadCore, KeyInit};
use sha2::Digest;
use vstd::prelude::*;
use vstd::utf8::{decode_utf8, valid_utf8};

verus! {

/// The lower-case hex digit of a value below 16.
pub open spec fn hex_digit(v: u8) -> char {
    if v < 10 {
        (('0' as u8) + v) as char
    } else {
        (('a' as u8) + v - 10) as char
    }
}

/// Lower-case hex text of bytes: two digits per byte, high nibble first.
pub open spec fn hex_encoded(b: Seq<u8>) -> Seq<char>
    decreases b.len(),
{
    if b.len() == 0 {
        Seq::empty()
    } else {
        hex_encoded(b.drop_last()) + seq![hex_digit(b.last() / 16), hex_digit(b.last() % 16)]
    }
}

/// Value of a hex digit of either case, if `c` is one.
pub open spec fn hex_value(c: char) -> Option<u8> {
    if '0' <= c && c <= '9' {
        Some(((c as u32) - ('0' as u32)) as u8)
    } else if 'a' <= c && c <= 'f' {
        Some(((c as u32) - ('a' as u32) + 10) as u8)
    } else if 'A' <= c && c <= 'F' {
        Some(((c as u32) - ('A' as u32) + 10) as u8)
    } else {
        None
    }
}

/// The bytes hex text stands for: it must have an even length and hold only
/// hex digits (of either case).
pub open spec fn hex_decoded(s: Seq<char>) -> Option<Seq<u8>>
    decreases s.len(),
{
    if s.len() == 0 {
        Some(Seq::empty())
    } else if s.len() % 2 == 1 {
        None
    } else {
        match (hex_decoded(s.take(s.len() - 2)), hex_value(s[s.len() - 2]), hex_value(s[s.len() - 1])) {
            (Some(p), Some(hi), Some(lo)) => Some(p.push((hi * 16 + lo) as u8)),
            _ => None,
        }
    }
}

/// Calls `hex::encode`: two lower-case hex digits per byte.
#[verifier::external_body]
pub(crate) fn hex_encode(data: &[u8]) -> (r: String)
    ensures
        r@ == hex_encoded(data@),
{
    hex::encode(data)
}

/// Name for the message of the error `hex::decode` gives on text that is
/// not hex of even length.
pub uninterp spec fn hex_error_text(s: Seq<char>) -> Seq<char>;

/// Calls `hex::decode`: `Ok` exactly for text of even length made of hex
/// digits of either case, with the bytes it stands for; otherwise the
/// crate's error message, named `hex_error_text`.
#[verifier::external_body]
pub(crate) fn hex_decode(s: &str) -> (r: Result<Vec<u8>, String>)
    ensures
        match r {
            Ok(v) => hex_decoded(s@) == Some(v@),
            Err(e) => hex_decoded(s@) is None && e@ == hex_error_text(s@),
        },
{
    hex::decode(s).map_err(|e| e.to_string())
}

/// Every hex digit is a digit or a lower-case letter below `g`.
pub proof fn lemma_hex_digit(v: u8)
    requires
        v < 16,
    ensures
        hex_value(hex_digit(v)) == Some(v),
        hex_digit(v) != ':',
{
}

/// Hex text has two digits per byte, none of them a colon.
pub proof fn lemma_hex_encoded_shape(b: Seq<u8>)
    ensures
        hex_encoded(b).len() == 2 * b.len(),
        !hex_encoded(b).contains(':'),
    decreases b.len(),
{
    if b.len() > 0 {
        lemma_hex_encoded_shape(b.drop_last());
        lemma_hex_digit(b.last() / 16);
        lemma_hex_digit(b.last() % 16);
        let p = hex_encoded(b.drop_last());
        let t = seq![hex_digit(b.last() / 16), hex_digit(b.last() % 16)];
        assert forall|i: int| 0 <= i < (p + t).len() implies (p + t)[i] != ':' by {
            if i < p.len() {
                assert(p[i] == (p + t)[i]);
            }
        }
    }
}

/// Decoding hex text gives back the bytes it was made from.
pub proof fn lemma_hex_roundtrip(b: Seq<u8>)
    ensures
        hex_decoded(hex_encoded(b)) == Some(b),
    decreases b.len(),
{
    if b.len() > 0 {
        lemma_hex_roundtrip(b.drop_last());
        lemma_hex_encoded_shape(b.drop_last());
        lemma_hex_encoded_shape(b);
        lemma_hex_digit(b.last() / 16);
        lemma_hex_digit(b.last() % 16);
        let s = hex_encoded(b);
        assert(s.take(s.len() - 2) =~= hex_encoded(b.drop_last()));
        assert(b.drop_last().push(((b.last() / 16) * 16 + b.last() % 16) as u8) =~= b);
    }
}

/// Name for the SHA-256 digest of bytes.
pub uninterp spec fn sha256(data: Seq<u8>) -> Seq<u8>;

/// Calls the `sha2` crate's `Sha256` on `data`; the digest is named `sha256`
/// and has 32 bytes.
#[verifier::external_body]
pub(crate) fn sha256_digest(data: &[u8]) -> (r: Vec<u8>)
    ensures
        r@ == sha256(data@),
        r@.len() == 32,
{
    sha2::Sha256::digest(data).to_vec()
}

/// Largest plaintext AES-GCM accepts (2^36 bytes).
pub open spec fn aes_gcm_max_plaintext() -> nat {
    68719476736
}

/// Name for the AES-256-GCM ciphertext (with its tag) of a plaintext under a
/// key and a 96-bit nonce, with no associated data.
pub uninterp spec fn aes_gcm_seal(key: Seq<u8>, nonce: Seq<u8>, plaintext: Seq<u8>) -> Seq<u8>;

/// Name for what AES-256-GCM decryption of a ciphertext gives under a key and
/// a nonce: the plaintext, or nothing when the tag does not verify.
pub uninterp spec fn aes_gcm_open(key: Seq<u8>, nonce: Seq<u8>, ciphertext: Seq<u8>) -> Option<Seq<u8>>;

/// Calls `Aes256Gcm::encrypt` (no associated data). It fails exactly for
/// plaintexts longer than 2^36 bytes, with the `aead::Error` message;
/// otherwise the ciphertext is named `aes_gcm_seal`.
#[verifier::external_body]
pub(crate) fn aes_gcm_encrypt(key: &[u8; 32], nonce: &Vec<u8>, plaintext: &[u8]) -> (r: Result<Vec<u8>, String>)
    requires
        nonce@.len() == 12,
    ensures
        r is Ok <==> plaintext@.len() <= aes_gcm_max_plaintext(),
        match r {
            Ok(c) => c@ == aes_gcm_seal(key@, nonce@, plaintext@),
            Err(e) => e@ == "aead::Error"@,
        },
{
    let cipher = aes_gcm::Aes256Gcm::new(aes_gcm::Key::<aes_gcm::Aes256Gcm>::from_slice(key));
    cipher.encrypt(aes_gcm::Nonce::from_slice(nonce), plaintext).map_err(|e| e.to_string())
}

/// Calls `Aes256Gcm::decrypt`; the plaintext, or its absence when the tag
/// does not verify, is named `aes_gcm_open`, and the error message is
/// `aead::Error`. As for any AEAD, what was sealed under a key and nonce
/// opens to the plaintext.
#[verifier::external_body]
pub(crate) fn aes_gcm_decrypt(key: &[u8; 32], nonce: &Vec<u8>, ciphertext: &Vec<u8>) -> (r: Result<Vec<u8>, String>)
    requires
        nonce@.len() == 12,
    ensures
        match r {
            Ok(p) => aes_gcm_open(key@, nonce@, ciphertext@) == Some(p@),
            Err(e) => aes_gcm_open(key@, nonce@, ciphertext@) is None && e@ == "aead::Error"@,
        },
        forall|p: Seq<u8>|
            p.len() <= aes_gcm_max_plaintext() && ciphertext@ == aes_gcm_seal(key@, nonce@, p) ==> r is Ok
                && r->Ok_0@ == p,
{
    let cipher = aes_gcm::Aes256Gcm::new(aes_gcm::Key::<aes_gcm::Aes256Gcm>::from_slice(key));
    cipher.decrypt(aes_gcm::Nonce::from_slice(nonce), ciphertext.as_slice()).map_err(|e| e.to_string())
}

/// Calls `Aes256Gcm::generate_key` with the operating system's random
/// source. The key is random, so nothing is stated of it but its type (32
/// bytes).
#[verifier::external_body]
pub(crate) fn random_key() -> (r: [u8; 32]) {
    aes_gcm::Aes256Gcm::generate_key(&mut aes_gcm::aead::OsRng).into()
}

/// Calls `Aes256Gcm::generate_nonce` with the operating system's random
/// source. Nothing but its length (12 bytes) is stated.
#[verifier::external_body]
pub(crate) fn random_nonce() -> (r: Vec<u8>)
    ensures
        r@.len() == 12,
{
    aes_gcm::Aes256Gcm::generate_nonce(&mut aes_gcm::aead::OsRng).to_vec()
}

/// Name for the message of the error `String::from_utf8` gives on bytes
/// that are not UTF-8.
pub uninterp spec fn utf8_error_text(bytes: Seq<u8>) -> Seq<char>;

/// Calls `String::from_utf8`: a string exactly for valid UTF-8, otherwise the
/// error's message, named `utf8_error_text`.
#[verifier::external_body]
pub(crate) fn string_from_utf8(bytes: Vec<u8>) -> (r: Result<String, String>)
    ensures
        match r {
            Ok(s) => valid_utf8(bytes@) && s@ == decode_utf8(bytes@),
            Err(e) => !valid_utf8(bytes@) && e@ == utf8_error_text(bytes@),
        },
{
    String::from_utf8(bytes).map_err(|e| e.to_string())
}

/// The bytes of a 32-byte vector as an array.
pub fn key_array(v: &Vec<u8>) -> (r: [u8; 32])
    requires
        v@.len() == 32,
    ensures
        r@ == v@,
{
    let mut k = [0u8; 32];
    let mut i: usize = 0;
    while i < 32
        invariant
            i <= 32,
            v@.len() == 32,
            k@.len() == 32,
            forall|j: int| 0 <= j < i ==> k@[j] == v@[j],
        decreases 32 - i,
    {
        k[i] = v[i];
        i += 1;
    }
    assert(k@ =~= v@);
    k
}

} // verus!
