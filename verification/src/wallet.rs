//! The keypair facility: key generation, address derivation, signing and
//! signature verification. Keys are opaque outside values; only the
//! verification decision reaches the consensus logic, through a name.
use vstd::prelude::*;
use rand::RngCore;
use ed25519_dalek::Signer;
use crate::crypto::{spec_is_hex, spec_hex_decode, ed_verify, ed25519_verify, hex_decode};

verus! {

#[verifier::external_type_specification]
#[verifier::external_body]
pub struct ExSigningKey(ed25519_dalek::SigningKey);

#[verifier::external_type_specification]
#[verifier::external_body]
pub struct ExVerifyingKey(ed25519_dalek::VerifyingKey);

/// An Ed25519 keypair. The address is the hex of the 32-byte public key.
pub struct Wallet {
    pub signing_key: ed25519_dalek::SigningKey,
    pub verifying_key: ed25519_dalek::VerifyingKey,
}

/// Whether `sig` verifies for `msg` under the public key that the hex
/// address `pk_hex` encodes: the address must be valid hex for 32 bytes,
/// and the signature must pass Ed25519 verification.
pub open spec fn spec_wallet_verify(pk_hex: Seq<char>, msg: Seq<u8>, sig: Seq<u8>) -> bool {
    &&& spec_is_hex(pk_hex)
    &&& spec_hex_decode(pk_hex).len() == 32
    &&& ed_verify(spec_hex_decode(pk_hex), msg, sig)
}

impl Wallet {
    /// Relies on rand's `OsRng` and ed25519_dalek's `SigningKey::from_bytes`
    /// and `verifying_key`: a keypair from 32 random secret bytes. Nothing
    /// is assumed of its value.
    #[verifier::external_body]
    pub fn new() -> Wallet {
        let mut csprng = rand::rngs::OsRng;
        let mut secret_bytes = [0u8; ed25519_dalek::SECRET_KEY_LENGTH];
        csprng.fill_bytes(&mut secret_bytes);
        let signing_key = ed25519_dalek::SigningKey::from_bytes(&secret_bytes);
        let verifying_key = signing_key.verifying_key();
        Wallet { signing_key, verifying_key }
    }

    /// Relies on `VerifyingKey::as_bytes` and hex::encode: the address is
    /// the hex of the 32-byte public key, so 64 lowercase hex digits. That
    /// it denotes this wallet's key cannot be stated: the key is opaque.
    #[verifier::external_body]
    pub fn address(&self) -> (a: String)
        ensures
            a@.len() == 64,
            forall|i: int|
                0 <= i < a@.len() ==> (('0' <= a@[i] && a@[i] <= '9') || ('a' <= a@[i] && a@[i]
                    <= 'f')),
    {
        hex::encode(self.verifying_key.as_bytes())
    }

    /// Relies on ed25519_dalek's `Signer::sign`: a 64-byte Ed25519
    /// signature over the message by this wallet's key. Nothing more is
    /// assumed of its value.
    #[verifier::external_body]
    pub fn sign(&self, message: &[u8]) -> (sig: Vec<u8>)
        ensures
            sig@.len() == 64,
    {
        self.signing_key.sign(message).to_bytes().to_vec()
    }

    /// Verify a detached signature under a hex-encoded public key.
    pub fn verify(public_key_hex: &str, message: &[u8], signature: &[u8]) -> (r: bool)
        requires
            signature@.len() == 64,
        ensures
            r == spec_wallet_verify(public_key_hex@, message@, signature@),
    {
        match hex_decode(public_key_hex) {
            None => false,
            Some(pk_bytes) => {
                if pk_bytes.len() != 32 {
                    false
                } else {
                    ed25519_verify(pk_bytes.as_slice(), message, signature)
                }
            },
        }
    }
}

} // verus!
