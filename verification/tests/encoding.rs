use toki_chain::strutil::{u64_to_dec, i64_to_dec, str_eq, has_zero_prefix};
use toki_chain::transaction::Transaction;
use toki_chain::wallet::Wallet;

#[test]
fn decimal_rendering_exact() {
    assert_eq!(u64_to_dec(0), "0");
    assert_eq!(u64_to_dec(7), "7");
    assert_eq!(u64_to_dec(1234), "1234");
    assert_eq!(u64_to_dec(u64::MAX), "18446744073709551615");
    assert_eq!(i64_to_dec(0), "0");
    assert_eq!(i64_to_dec(-5), "-5");
    assert_eq!(i64_to_dec(i64::MIN), "-9223372036854775808");
    assert_eq!(i64_to_dec(1700000000), "1700000000");
}

#[test]
fn string_helpers() {
    assert!(str_eq("abc", "abc"));
    assert!(!str_eq("abc", "abd"));
    assert!(!str_eq("abc", "ab"));
    assert!(has_zero_prefix("000a", 3));
    assert!(!has_zero_prefix("00a", 3));
    assert!(!has_zero_prefix("0", 2));
    assert!(has_zero_prefix("anything", 0));
}

#[test]
fn canonical_transaction_string_exact() {
    let t = Transaction::new("a".to_string(), "b".to_string(), 1, 2, 3);
    assert_eq!(t.canonical_string(), "a|b|1|2|3");
}

#[test]
fn transaction_hash_is_digest_of_canonical_form() {
    let t = Transaction::new("x".to_string(), "y".to_string(), 10, 1, 0);
    let h = t.hash();
    // a SHA-256 digest, not the input handed back
    assert_eq!(h.len(), 32);
    let mut t2 = Transaction::new("x".to_string(), "y".to_string(), 10, 1, 1);
    assert_ne!(t2.hash(), h);
    t2.nonce = 0;
    assert_eq!(t2.hash(), h);
}

#[test]
fn signature_is_hex_encoded() {
    let w = Wallet::new();
    let mut t = Transaction::new(w.address(), "b".to_string(), 1, 0, 0);
    let h = t.hash();
    let sig = w.sign(&h);
    assert_eq!(sig.len(), 64);
    t.sign(&sig);
    let stored = t.signature.clone().unwrap();
    assert_eq!(stored.len(), 128);
    assert!(stored.chars().all(|c| c.is_ascii_hexdigit()));
    // and it must agree with the encoder of the hex crate
    assert_eq!(stored, hex::encode(&sig));
}

#[test]
fn signed_transaction_is_valid_and_tampering_breaks_it() {
    let w = Wallet::new();
    let mut t = Transaction::new(w.address(), "b".to_string(), 10, 1, 0);
    let h = t.hash();
    let sig = w.sign(&h);
    t.sign(&sig);
    assert!(t.is_valid());

    // tampering with the amount invalidates the signature
    let mut bad = t.clone();
    bad.amount = 11;
    assert!(!bad.is_valid());

    // a signature that is not hex is rejected
    let mut bad2 = t.clone();
    bad2.signature = Some("zz".repeat(64));
    assert!(!bad2.is_valid());

    // a signature of the wrong width is rejected
    let mut bad3 = t.clone();
    bad3.signature = Some("ab".repeat(32));
    assert!(!bad3.is_valid());

    // a missing signature is rejected
    let mut bad4 = t.clone();
    bad4.signature = None;
    assert!(!bad4.is_valid());
}

#[test]
fn coinbase_validity_rules() {
    // unsigned, no fee: valid
    let c = Transaction::new("COINBASE".to_string(), "miner".to_string(), 50, 0, 0);
    assert!(c.is_valid());
    // a coinbase with a fee is invalid
    let c2 = Transaction::new("COINBASE".to_string(), "miner".to_string(), 50, 1, 0);
    assert!(!c2.is_valid());
    // a coinbase with a signature is invalid
    let mut c3 = Transaction::new("COINBASE".to_string(), "miner".to_string(), 50, 0, 0);
    c3.signature = Some("00".repeat(64));
    assert!(!c3.is_valid());
}

#[test]
fn wallet_verify_rejects_bad_keys() {
    let w = Wallet::new();
    let msg = vec![1u8, 2, 3];
    let sig = w.sign(&msg);
    assert!(Wallet::verify(&w.address(), &msg, &sig));
    // wrong message
    assert!(!Wallet::verify(&w.address(), &[9u8, 9, 9], &sig));
    // address that is not hex
    assert!(!Wallet::verify("not-hex!", &msg, &sig));
    // address of the wrong length
    assert!(!Wallet::verify("abcd", &msg, &sig));
    // another wallet's key
    let w2 = Wallet::new();
    assert!(!Wallet::verify(&w2.address(), &msg, &sig));
}

#[test]
fn wallet_address_shape() {
    let w = Wallet::new();
    let a = w.address();
    assert_eq!(a.len(), 64);
    assert!(a.chars().all(|c| c.is_ascii_hexdigit()));
}
