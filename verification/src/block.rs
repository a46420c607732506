//! Blocks: a sealed batch of transactions with a content hash and a
//! proof-of-work nonce. The hash is the hex of SHA-256 over a canonical
//! length-delimited encoding of the block's contents.
use vstd::prelude::*;
use vstd::string::StringExecFns;
use crate::crypto::{sha256_of, hex_of, sha256_str, hex_encode, lemma_hex_of_len};
use crate::strutil::{
    spec_dec, spec_dec_i64, spec_zero_prefix, u64_to_dec, i64_to_dec, has_zero_prefix,
};
use crate::transaction::{Transaction, TxView, spec_tx_canon};

verus! {

/// A block of the chain. `hash` is the hex digest of the canonical
/// encoding of the other five fields; `previous_hash` is the predecessor's
/// `hash`, or `"0"` for genesis.
pub struct Block {
    pub index: u64,
    pub timestamp: i64,
    pub transactions: Vec<Transaction>,
    pub previous_hash: String,
    pub nonce: u64,
    pub hash: String,
}

/// The mathematical content of a block.
pub struct BlockView {
    pub index: u64,
    pub timestamp: i64,
    pub transactions: Seq<TxView>,
    pub previous_hash: Seq<char>,
    pub nonce: u64,
    pub hash: Seq<char>,
}

impl View for Block {
    type V = BlockView;

    open spec fn view(&self) -> BlockView {
        BlockView {
            index: self.index,
            timestamp: self.timestamp,
            transactions: self.transactions.deep_view(),
            previous_hash: self.previous_hash@,
            nonce: self.nonce,
            hash: self.hash@,
        }
    }
}

impl DeepView for Block {
    type V = BlockView;

    open spec fn deep_view(&self) -> BlockView {
        self.view()
    }
}

/// One transaction's slot in the block encoding: the canonical transaction
/// string, then the signature hex (or `-` when unsigned), `|`-delimited and
/// closed with `;`.
pub open spec fn spec_tx_entry(t: TxView) -> Seq<char> {
    spec_tx_canon(t) + seq!['|'] + (match t.signature {
        Some(s) => s,
        None => seq!['-'],
    }) + seq![';']
}

/// The concatenation of all transaction entries, in order.
pub open spec fn spec_txs_canon(txs: Seq<TxView>) -> Seq<char>
    decreases txs.len(),
{
    if txs.len() == 0 {
        Seq::empty()
    } else {
        spec_txs_canon(txs.drop_last()) + spec_tx_entry(txs.last())
    }
}

/// The canonical block encoding:
/// `index|timestamp|transactions|previous_hash|nonce`.
pub open spec fn spec_block_canon(b: BlockView) -> Seq<char> {
    spec_dec(b.index as int) + seq!['|'] + spec_dec_i64(b.timestamp as int) + seq!['|']
        + spec_txs_canon(b.transactions) + seq!['|'] + b.previous_hash + seq!['|'] + spec_dec(
        b.nonce as int,
    )
}

/// The block hash: hex of SHA-256 over the canonical encoding. The `hash`
/// field itself is not part of the encoding.
pub open spec fn spec_block_hash(b: BlockView) -> Seq<char> {
    hex_of(sha256_of(spec_block_canon(b)))
}

/// Whether the nonce `n` seals the block content `b` at `difficulty`: the
/// hash of `b` with its nonce set to `n` carries the required zero prefix.
/// The stored `hash` field has no influence.
pub open spec fn spec_nonce_seals(b: BlockView, n: u64, difficulty: int) -> bool {
    spec_zero_prefix(spec_block_hash(BlockView { nonce: n, ..b }), difficulty)
}

fn tx_entry_string(t: &Transaction) -> (s: String)
    ensures
        s@ == spec_tx_entry(t@),
{
    proof {
        reveal_strlit("|");
        reveal_strlit("-");
        reveal_strlit(";");
    }
    let mut s = t.canonical_string();
    s.append("|");
    match &t.signature {
        Some(sig) => s.append(sig.as_str()),
        None => s.append("-"),
    }
    s.append(";");
    proof {
        assert(s@ =~= spec_tx_entry(t@));
    }
    s
}

impl Block {
    /// Compute the hash of this block's contents.
    pub fn calculate_hash(&self) -> (r: String)
        ensures
            r@ == spec_block_hash(self@),
            r@.len() == 64,
    {
        proof {
            reveal_strlit("|");
        }
        let mut s = u64_to_dec(self.index);
        s.append("|");
        let ts = i64_to_dec(self.timestamp);
        s.append(ts.as_str());
        s.append("|");
        let n = self.transactions.len();
        let mut j: usize = 0;
        while j < n
            invariant
                n == self.transactions.len(),
                j <= n,
                s@ == spec_dec(self.index as int) + seq!['|'] + spec_dec_i64(
                    self.timestamp as int,
                ) + seq!['|'] + spec_txs_canon(self.transactions.deep_view().take(j as int)),
            decreases n - j,
        {
            let e = tx_entry_string(&self.transactions[j]);
            s.append(e.as_str());
            proof {
                let txs = self.transactions.deep_view();
                assert(txs.take(j + 1).drop_last() =~= txs.take(j as int));
                assert(txs.take(j + 1).last() == txs[j as int]);
            }
            j = j + 1;
        }
        s.append("|");
        s.append(self.previous_hash.as_str());
        s.append("|");
        let nc = u64_to_dec(self.nonce);
        s.append(nc.as_str());
        proof {
            assert(self.transactions.deep_view().take(n as int) =~= self.transactions.deep_view());
            assert(s@ =~= spec_block_canon(self@));
        }
        let digest = sha256_str(s.as_str());
        proof {
            lemma_hex_of_len(digest@);
        }
        hex_encode(digest.as_slice())
    }

    /// Create a new block at the current wall-clock time, with its hash
    /// computed and the proof-of-work nonce still 0.
    pub fn new(index: u64, transactions: Vec<Transaction>, previous_hash: String) -> (b: Block)
        ensures
            b.index == index,
            b.transactions.deep_view() == transactions.deep_view(),
            b.previous_hash@ == previous_hash@,
            b.nonce == 0,
            b.hash@ == spec_block_hash(b@),
    {
        let timestamp = crate::crypto::now_timestamp();
        let mut block = Block {
            index,
            timestamp,
            transactions,
            previous_hash,
            nonce: 0,
            hash: String::new(),
        };
        let h = block.calculate_hash();
        block.hash = h;
        block
    }

    /// Proof-of-work sealing: raise the nonce monotonically, recomputing
    /// the hash, until the hash carries `difficulty` leading `'0'`
    /// characters. Only the nonce and the hash change. Returns whether a
    /// sealing nonce was found; failure is owed only once every nonce from
    /// the starting one up provably fails to seal (with any practical
    /// difficulty a sealing nonce is found).
    pub fn mine(&mut self, difficulty: usize) -> (sealed: bool)
        requires
            old(self).hash@ == spec_block_hash(old(self)@),
        ensures
            final(self).index == old(self).index,
            final(self).timestamp == old(self).timestamp,
            final(self).transactions.deep_view() == old(self).transactions.deep_view(),
            final(self).previous_hash@ == old(self).previous_hash@,
            final(self).nonce >= old(self).nonce,
            final(self).hash@ == spec_block_hash(final(self)@),
            sealed ==> spec_zero_prefix(final(self).hash@, difficulty as int),
            !sealed ==> final(self).nonce == u64::MAX,
            !sealed ==> forall|n: u64|
                old(self).nonce <= n ==> !spec_nonce_seals(old(self)@, n, difficulty as int),
    {
        let mut done = has_zero_prefix(self.hash.as_str(), difficulty);
        while !done
            invariant
                self.index == old(self).index,
                self.timestamp == old(self).timestamp,
                self.transactions.deep_view() == old(self).transactions.deep_view(),
                self.previous_hash@ == old(self).previous_hash@,
                self.nonce >= old(self).nonce,
                self.hash@ == spec_block_hash(self@),
                done ==> spec_zero_prefix(self.hash@, difficulty as int),
                !done ==> !spec_zero_prefix(self.hash@, difficulty as int),
                forall|n: u64|
                    old(self).nonce <= n < self.nonce ==> !spec_nonce_seals(
                        old(self)@,
                        n,
                        difficulty as int,
                    ),
            decreases u64::MAX - self.nonce,
        {
            proof {
                assert(spec_block_canon(BlockView { nonce: self.nonce, ..old(self)@ })
                    == spec_block_canon(self@));
                assert(!spec_nonce_seals(old(self)@, self.nonce, difficulty as int));
            }
            if self.nonce == u64::MAX {
                return false;
            }
            self.nonce = self.nonce + 1;
            let h = self.calculate_hash();
            self.hash = h;
            done = has_zero_prefix(self.hash.as_str(), difficulty);
        }
        true
    }
}

impl Clone for Block {
    /// A clone carries the same content (the same view).
    fn clone(&self) -> (b: Self)
        ensures
            b@ == self@,
    {
        let n = self.transactions.len();
        let mut txs: Vec<Transaction> = Vec::new();
        let mut i: usize = 0;
        while i < n
            invariant
                n == self.transactions.len(),
                i <= n,
                txs@.len() == i,
                forall|k: int| 0 <= k < i ==> txs@[k]@ == self.transactions@[k]@,
            decreases n - i,
        {
            txs.push(self.transactions[i].clone());
            i = i + 1;
        }
        let b = Block {
            index: self.index,
            timestamp: self.timestamp,
            transactions: txs,
            previous_hash: self.previous_hash.clone(),
            nonce: self.nonce,
            hash: self.hash.clone(),
        };
        proof {
            assert(b.transactions.deep_view() =~= self.transactions.deep_view());
        }
        b
    }
}

} // verus!
