//! Hashing, hex encoding and signature verification. The outside calls
//! (sha2, hex, ed25519_dalek, chrono) stand behind trusted wrappers; the hex
//! alphabet itself is specified exactly.
use vstd::prelude::*;
use ed25519_dalek::Verifier;
use sha2::Digest;

verus! {

/// The lowercase hex digit character for `d` (0 to 15).
pub open spec fn hex_digit(d: int) -> char {
    if d == 0 {
        '0'
    } else if d == 1 {
        '1'
    } else if d == 2 {
        '2'
    } else if d == 3 {
        '3'
    } else if d == 4 {
        '4'
    } else if d == 5 {
        '5'
    } else if d == 6 {
        '6'
    } else if d == 7 {
        '7'
    } else if d == 8 {
        '8'
    } else if d == 9 {
        '9'
    } else if d == 10 {
        'a'
    } else if d == 11 {
        'b'
    } else if d == 12 {
        'c'
    } else if d == 13 {
        'd'
    } else if d == 14 {
        'e'
    } else {
        'f'
    }
}

/// Lowercase hex encoding: two digits per byte, high nibble first.
pub open spec fn hex_of(b: Seq<u8>) -> Seq<char>
    decreases b.len(),
{
    if b.len() == 0 {
        Seq::empty()
    } else {
        hex_of(b.drop_last()) + seq![
            hex_digit(b.last() as int / 16),
            hex_digit(b.last() as int % 16),
        ]
    }
}

/// The value of a hex digit character, or -1 for any other character.
/// Both cases are accepted, as hex decoding does.
pub open spec fn hex_val(c: char) -> int {
    if '0' <= c && c <= '9' {
        c as int - '0' as int
    } else if 'a' <= c && c <= 'f' {
        c as int - 'a' as int + 10
    } else if 'A' <= c && c <= 'F' {
        c as int - 'A' as int + 10
    } else {
        -1
    }
}

/// A string that hex decoding accepts: even length, hex digits only.
pub open spec fn spec_is_hex(s: Seq<char>) -> bool {
    s.len() % 2 == 0 && (forall|i: int| 0 <= i < s.len() ==> hex_val(s[i]) >= 0)
}

/// The bytes denoted by a hex string (meaningful when `spec_is_hex` holds).
pub open spec fn spec_hex_decode(s: Seq<char>) -> Seq<u8>
    decreases s.len(),
{
    if s.len() < 2 {
        Seq::empty()
    } else {
        seq![(hex_val(s[0]) * 16 + hex_val(s[1])) as u8] + spec_hex_decode(s.skip(2))
    }
}

/// Two characters per byte: the length of a hex encoding.
pub proof fn lemma_hex_of_len(b: Seq<u8>)
    ensures
        hex_of(b).len() == 2 * b.len(),
    decreases b.len(),
{
    if b.len() > 0 {
        lemma_hex_of_len(b.drop_last());
    }
}

/// The SHA-256 digest of a string's UTF-8 bytes, as a value determined by
/// the character sequence alone.
pub uninterp spec fn sha256_of(s: Seq<char>) -> Seq<u8>;

/// Whether a 64-byte Ed25519 signature verifies for a message under a
/// 32-byte public key; determined by the three byte strings alone.
pub uninterp spec fn ed_verify(pk: Seq<u8>, msg: Seq<u8>, sig: Seq<u8>) -> bool;

/// Relies on sha2's `Sha256`: the digest of the string's UTF-8 bytes is a
/// 32-byte value that depends on the string alone.
#[verifier::external_body]
pub(crate) fn sha256_str(s: &str) -> (r: Vec<u8>)
    ensures
        r@ == sha256_of(s@),
        r@.len() == 32,
{
    let mut hasher = sha2::Sha256::new();
    hasher.update(s.as_bytes());
    hasher.finalize().to_vec()
}

/// Relies on hex::encode: two lowercase hex digits per byte, in order.
#[verifier::external_body]
pub(crate) fn hex_encode(b: &[u8]) -> (r: String)
    ensures
        r@ == hex_of(b@),
{
    hex::encode(b)
}

/// Relies on hex::decode: it succeeds exactly on even-length strings of hex
/// digits (either case) and returns the bytes those digits denote.
#[verifier::external_body]
pub(crate) fn hex_decode(s: &str) -> (r: Option<Vec<u8>>)
    ensures
        r is Some <==> spec_is_hex(s@),
        r is Some ==> r->0@ == spec_hex_decode(s@),
{
    match hex::decode(s) {
        Ok(v) => Some(v),
        Err(_) => None,
    }
}

/// Relies on ed25519_dalek's `VerifyingKey::from_bytes` and `verify`:
/// whether the signature verifies is a function of key, message and
/// signature bytes alone; a key that does not decode verifies nothing.
#[verifier::external_body]
pub(crate) fn ed25519_verify(pk: &[u8], msg: &[u8], sig: &[u8]) -> (r: bool)
    requires
        pk@.len() == 32,
        sig@.len() == 64,
    ensures
        r == ed_verify(pk@, msg@, sig@),
{
    let pk_arr: [u8; 32] = match pk.try_into() {
        Ok(a) => a,
        Err(_) => return false,
    };
    let sig_arr: [u8; 64] = match sig.try_into() {
        Ok(a) => a,
        Err(_) => return false,
    };
    let vk = match ed25519_dalek::VerifyingKey::from_bytes(&pk_arr) {
        Ok(k) => k,
        Err(_) => return false,
    };
    let s = ed25519_dalek::Signature::from_bytes(&sig_arr);
    vk.verify(msg, &s).is_ok()
}

/// Relies on chrono's `Utc::now().timestamp()`: the wall clock, in seconds
/// since the epoch. Nothing is assumed of its value.
#[verifier::external_body]
pub(crate) fn now_timestamp() -> i64 {
    chrono::Utc::now().timestamp()
}

} // verus!
