//! Value-transfer transactions: canonical encoding, deterministic hashing,
//! and cryptographic validity.
use vstd::prelude::*;
use vstd::string::StringExecFns;
use crate::crypto::{
    sha256_of, spec_is_hex, spec_hex_decode, hex_of, sha256_str, hex_decode, hex_encode,
};
use crate::strutil::{spec_dec, u64_to_dec, str_eq};
use crate::wallet::{Wallet, spec_wallet_verify};

verus! {

/// A value transfer. `from` and `to` are addresses (hex of an Ed25519
/// public key, or the reserved `COINBASE` sentinel for issuance);
/// `signature` is the hex of a detached 64-byte signature over `hash()`.
pub struct Transaction {
    pub from: String,
    pub to: String,
    pub amount: u64,
    pub fee: u64,
    pub nonce: u64,
    pub signature: Option<String>,
}

/// The mathematical content of a transaction.
pub struct TxView {
    pub from: Seq<char>,
    pub to: Seq<char>,
    pub amount: u64,
    pub fee: u64,
    pub nonce: u64,
    pub signature: Option<Seq<char>>,
}

impl View for Transaction {
    type V = TxView;

    open spec fn view(&self) -> TxView {
        TxView {
            from: self.from@,
            to: self.to@,
            amount: self.amount,
            fee: self.fee,
            nonce: self.nonce,
            signature: match self.signature {
                Some(s) => Some(s@),
                None => None,
            },
        }
    }
}

impl DeepView for Transaction {
    type V = TxView;

    open spec fn deep_view(&self) -> TxView {
        self.view()
    }
}

/// The reserved sender address that denotes creation of new coin supply.
pub open spec fn spec_coinbase_addr() -> Seq<char> {
    "COINBASE"@
}

/// The canonical delimited encoding that is hashed and signed:
/// `from|to|amount|fee|nonce` with decimal numbers.
pub open spec fn spec_tx_canon(t: TxView) -> Seq<char> {
    t.from + seq!['|'] + t.to + seq!['|'] + spec_dec(t.amount as int) + seq!['|'] + spec_dec(
        t.fee as int,
    ) + seq!['|'] + spec_dec(t.nonce as int)
}

/// The transaction digest: SHA-256 of the canonical encoding.
pub open spec fn spec_tx_hash(t: TxView) -> Seq<u8> {
    sha256_of(spec_tx_canon(t))
}

/// Cryptographic validity. A coinbase transaction carries no signature and
/// no fee; any other transaction carries a hex signature of 64 bytes that
/// verifies over the transaction hash under the key its `from` address
/// encodes.
pub open spec fn spec_tx_crypto_valid(t: TxView) -> bool {
    if t.from == spec_coinbase_addr() {
        t.signature is None && t.fee == 0
    } else {
        &&& t.signature is Some
        &&& spec_is_hex(t.signature->0)
        &&& spec_hex_decode(t.signature->0).len() == 64
        &&& spec_wallet_verify(t.from, spec_tx_hash(t), spec_hex_decode(t.signature->0))
    }
}

impl Transaction {
    /// Create an unsigned transaction.
    pub fn new(from: String, to: String, amount: u64, fee: u64, nonce: u64) -> (t: Transaction)
        ensures
            t@ == (TxView {
                from: from@,
                to: to@,
                amount,
                fee,
                nonce,
                signature: None,
            }),
    {
        Transaction { from, to, amount, fee, nonce, signature: None }
    }

    /// The canonical string `from|to|amount|fee|nonce`.
    pub fn canonical_string(&self) -> (s: String)
        ensures
            s@ == spec_tx_canon(self@),
    {
        proof {
            reveal_strlit("|");
        }
        let mut s = self.from.as_str().to_owned();
        s.append("|");
        s.append(self.to.as_str());
        s.append("|");
        let a = u64_to_dec(self.amount);
        s.append(a.as_str());
        s.append("|");
        let f = u64_to_dec(self.fee);
        s.append(f.as_str());
        s.append("|");
        let n = u64_to_dec(self.nonce);
        s.append(n.as_str());
        proof {
            assert(s@ =~= spec_tx_canon(self@));
        }
        s
    }

    /// Deterministic transaction hash over the canonical encoding.
    pub fn hash(&self) -> (r: Vec<u8>)
        ensures
            r@ == spec_tx_hash(self@),
            r@.len() == 32,
    {
        let s = self.canonical_string();
        sha256_str(s.as_str())
    }

    /// Attach a detached signature, stored hex-encoded.
    pub fn sign(&mut self, signature: &[u8])
        ensures
            final(self)@ == (TxView { signature: Some(hex_of(signature@)), ..old(self)@ }),
    {
        self.signature = Some(hex_encode(signature));
    }

    /// Cryptographic validity check; see `spec_tx_crypto_valid`.
    pub fn is_valid(&self) -> (r: bool)
        ensures
            r == spec_tx_crypto_valid(self@),
    {
        if str_eq(self.from.as_str(), "COINBASE") {
            return self.signature.is_none() && self.fee == 0;
        }
        match &self.signature {
            None => false,
            Some(sig_hex) => {
                match hex_decode(sig_hex.as_str()) {
                    None => false,
                    Some(sig_bytes) => {
                        if sig_bytes.len() != 64 {
                            false
                        } else {
                            let h = self.hash();
                            Wallet::verify(self.from.as_str(), h.as_slice(), sig_bytes.as_slice())
                        }
                    },
                }
            },
        }
    }
}

impl Clone for Transaction {
    /// A clone carries the same content (the same view).
    fn clone(&self) -> (t: Self)
        ensures
            t@ == self@,
    {
        Transaction {
            from: self.from.clone(),
            to: self.to.clone(),
            amount: self.amount,
            fee: self.fee,
            nonce: self.nonce,
            signature: match &self.signature {
                Some(s) => Some(s.clone()),
                None => None,
            },
        }
    }
}

} // verus!
