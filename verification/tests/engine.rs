use toki_chain::blockchain::Blockchain;
use toki_chain::state::StateMap;
use toki_chain::strutil::has_zero_prefix;
use toki_chain::transaction::Transaction;
use toki_chain::wallet::Wallet;

fn signed_transfer(w: &Wallet, to: &str, amount: u64, fee: u64, nonce: u64) -> Transaction {
    let mut t = Transaction::new(w.address(), to.to_string(), amount, fee, nonce);
    let h = t.hash();
    let sig = w.sign(&h);
    t.sign(&sig);
    t
}

fn mine(bc: &mut Blockchain, miner: &str) {
    assert!(bc.can_mine(miner));
    assert!(bc.mine_pending_transactions(miner.to_string()));
}

#[test]
fn genesis_only_chain() {
    let bc = Blockchain::new(1);
    assert!(bc.is_chain_valid());
    assert_eq!(bc.latest_block().index, 0);
    assert_eq!(bc.latest_block().previous_hash, "0");
    assert_eq!(bc.chain().len(), 1);
    assert_eq!(bc.mempool_len(), 0);
    assert_eq!(bc.balance("anyone"), 0);
}

#[test]
fn sealed_blocks_carry_their_hash_and_proof_of_work() {
    let mut bc = Blockchain::new(1);
    let w = Wallet::new();
    mine(&mut bc, &w.address());
    let tip = bc.latest_block();
    assert_eq!(tip.hash, tip.calculate_hash());
    assert!(has_zero_prefix(&tip.hash, 1));
    assert!(bc.is_chain_valid());
}

#[test]
fn single_transfer() {
    let mut bc = Blockchain::new(1);
    let a = Wallet::new();
    let b = Wallet::new();
    let c = Wallet::new();
    mine(&mut bc, &a.address());
    assert_eq!(bc.balance(&a.address()), 50);

    let tx = signed_transfer(&a, &b.address(), 10, 1, 0);
    assert!(bc.add_transaction(tx));
    mine(&mut bc, &c.address());

    assert_eq!(bc.balance(&a.address()), 39);
    assert_eq!(bc.balance(&b.address()), 10);
    assert_eq!(bc.balance(&c.address()), 51);
    assert!(bc.is_chain_valid());
}

#[test]
fn overspend_rejected() {
    let mut bc = Blockchain::new(1);
    let a = Wallet::new();
    let b = Wallet::new();
    mine(&mut bc, &a.address());
    let before = bc.mempool_len();
    let tx = signed_transfer(&a, &b.address(), 60, 0, 0);
    assert!(!bc.add_transaction(tx));
    assert_eq!(bc.mempool_len(), before);
}

#[test]
fn double_spend_in_mempool_rejected() {
    let mut bc = Blockchain::new(1);
    let a = Wallet::new();
    let b = Wallet::new();
    let c = Wallet::new();
    mine(&mut bc, &a.address());
    let t1 = signed_transfer(&a, &b.address(), 30, 0, 0);
    let t2 = signed_transfer(&a, &c.address(), 30, 0, 1);
    assert!(bc.add_transaction(t1));
    // projected balance is 20 < 30
    assert!(!bc.add_transaction(t2));
    assert_eq!(bc.mempool_len(), 1);
}

#[test]
fn coinbase_forgery_rejected() {
    let mut bc = Blockchain::new(1);
    let w = Wallet::new();
    mine(&mut bc, &w.address());
    let forged = Transaction::new("COINBASE".to_string(), w.address(), 1000, 0, 0);
    assert!(!bc.add_transaction(forged));
    assert_eq!(bc.mempool_len(), 0);
}

#[test]
fn chain_replacement() {
    let mut n = Blockchain::new(1);
    let mut m = Blockchain::new(1);
    let wn = Wallet::new();
    let wm = Wallet::new();
    mine(&mut n, &wn.address());
    mine(&mut n, &wn.address());
    assert_eq!(n.chain().len(), 3);
    mine(&mut m, &wm.address());
    mine(&mut m, &wm.address());
    mine(&mut m, &wm.address());
    mine(&mut m, &wm.address());
    assert_eq!(m.chain().len(), 5);

    // a pending transaction of n is dropped on replacement
    let tx = signed_transfer(&wn, &wm.address(), 10, 0, 0);
    assert!(n.add_transaction(tx));
    assert_eq!(n.mempool_len(), 1);

    assert!(n.try_replace_chain(m.chain().clone()));
    assert_eq!(n.chain().len(), 5);
    assert_eq!(n.mempool_len(), 0);
    // the ledger was rebuilt from the new chain
    assert_eq!(n.balance(&wm.address()), 200);
    assert_eq!(n.balance(&wn.address()), 0);

    // an equally long candidate is rejected
    let mut p = Blockchain::new(1);
    let wp = Wallet::new();
    for _ in 0..4 {
        mine(&mut p, &wp.address());
    }
    assert_eq!(p.chain().len(), 5);
    assert!(!n.try_replace_chain(p.chain().clone()));
    assert_eq!(n.balance(&wm.address()), 200);
}

#[test]
fn replacing_with_own_chain_rejected() {
    let mut n = Blockchain::new(1);
    let w = Wallet::new();
    mine(&mut n, &w.address());
    let own = n.chain().clone();
    assert!(!n.try_replace_chain(own));
    // judging the same chain twice gives the same verdict
    let v1 = n.is_chain_valid();
    let v2 = n.is_chain_valid();
    assert_eq!(v1, v2);
    assert!(v1);
}

#[test]
fn conservation_with_issuance() {
    let mut bc = Blockchain::new(1);
    let a = Wallet::new();
    let b = Wallet::new();
    let c = Wallet::new();
    mine(&mut bc, &a.address());
    mine(&mut bc, &a.address());
    let tx = signed_transfer(&a, &b.address(), 25, 3, 0);
    assert!(bc.add_transaction(tx));
    mine(&mut bc, &c.address());
    let total = bc.balance(&a.address()) + bc.balance(&b.address()) + bc.balance(&c.address());
    let blocks_mined = (bc.chain().len() - 1) as u64;
    assert_eq!(total, blocks_mined * 50);
}

#[test]
fn difficulty_enforcement() {
    // a chain mined honestly from difficulty 0: retargeting raises the
    // requirement as blocks arrive quickly
    let mut bc = Blockchain::new(0);
    let w = Wallet::new();
    for _ in 0..9 {
        mine(&mut bc, &w.address());
    }
    let mut chain = bc.chain().clone();
    assert_eq!(chain.len(), 10);
    assert!(Blockchain::is_chain_valid_from(&chain, 0));

    // forge block 6: keep its hash consistent with its content but break
    // the proof-of-work it owes to its retargeted difficulty
    loop {
        chain[6].nonce = chain[6].nonce.wrapping_add(1);
        let h = chain[6].calculate_hash();
        if !h.starts_with('0') {
            chain[6].hash = h;
            break;
        }
    }
    assert!(!Blockchain::is_chain_valid_from(&chain, 0));
}

#[test]
fn incoming_block_is_arbitrated_like_a_chain() {
    let mut n = Blockchain::new(1);
    let wm = Wallet::new();
    // a peer mines a block on top of n's tip and advertises it
    let coinbase = Transaction::new("COINBASE".to_string(), wm.address(), 50, 0, 0);
    let mut b = toki_chain::block::Block::new(1, vec![coinbase], n.latest_block().hash.clone());
    assert!(b.mine(1));
    assert!(n.handle_new_block(b.clone()));
    assert_eq!(n.chain().len(), 2);
    assert_eq!(n.balance(&wm.address()), 50);
    // replaying it cannot extend the chain again
    assert!(!n.handle_new_block(b));
    assert_eq!(n.chain().len(), 2);
}

#[test]
fn adjust_difficulty_stays_put_on_short_chains() {
    let bc = Blockchain::new(4);
    assert_eq!(bc.adjust_difficulty(), 4);
    let mut bc2 = Blockchain::new(1);
    let w = Wallet::new();
    mine(&mut bc2, &w.address());
    mine(&mut bc2, &w.address());
    // still under the adjustment interval
    assert_eq!(bc2.adjust_difficulty(), 1);
}

#[test]
fn tampered_ledger_entry_invalidates_chain() {
    let mut bc = Blockchain::new(1);
    let a = Wallet::new();
    let b = Wallet::new();
    mine(&mut bc, &a.address());
    let tx = signed_transfer(&a, &b.address(), 10, 0, 0);
    assert!(bc.add_transaction(tx));
    mine(&mut bc, &a.address());

    // inflate the transfer after sealing: hash integrity breaks
    let mut chain = bc.chain().clone();
    chain[2].transactions[1].amount = 40;
    assert!(!Blockchain::is_chain_valid_from(&chain, 1));

    // recompute the hash to hide it: the signature check breaks instead
    let h = chain[2].calculate_hash();
    chain[2].hash = h;
    assert!(!Blockchain::is_chain_valid_from(&chain, 1));
}

#[test]
fn forged_coinbase_amount_invalidates_chain() {
    let mut bc = Blockchain::new(0);
    let w = Wallet::new();
    mine(&mut bc, &w.address());
    let mut chain = bc.chain().clone();
    chain[1].transactions[0].amount = 51;
    let h = chain[1].calculate_hash();
    chain[1].hash = h;
    assert!(!Blockchain::is_chain_valid_from(&chain, 0));
}

#[test]
fn state_helpers_and_overflow_rejection() {
    let mut s = StateMap::new();
    assert_eq!(s.get_balance("a"), 0);

    let cb = Transaction::new("COINBASE".to_string(), "a".to_string(), 50, 0, 0);
    assert!(Blockchain::is_tx_valid_against_state(&s, &cb));
    Blockchain::apply_transaction(&mut s, &cb);
    assert_eq!(s.get_balance("a"), 50);

    let t = Transaction::new("a".to_string(), "b".to_string(), 30, 5, 0);
    assert!(Blockchain::is_tx_valid_against_state(&s, &t));
    Blockchain::apply_transaction(&mut s, &t);
    assert_eq!(s.get_balance("a"), 15);
    assert_eq!(s.get_balance("b"), 30);

    // insufficient balance
    let over = Transaction::new("a".to_string(), "b".to_string(), 16, 0, 0);
    assert!(!Blockchain::is_tx_valid_against_state(&s, &over));
    // amount + fee overflows u64
    let wrap = Transaction::new("a".to_string(), "b".to_string(), u64::MAX, 1, 0);
    assert!(!Blockchain::is_tx_valid_against_state(&s, &wrap));
    // crediting the recipient would overflow u64
    let huge = Transaction::new("COINBASE".to_string(), "c".to_string(), u64::MAX, 0, 0);
    assert!(Blockchain::is_tx_valid_against_state(&s, &huge));
    Blockchain::apply_transaction(&mut s, &huge);
    let more = Transaction::new("COINBASE".to_string(), "c".to_string(), 1, 0, 0);
    assert!(!Blockchain::is_tx_valid_against_state(&s, &more));
}
