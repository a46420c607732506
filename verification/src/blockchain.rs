//! The consensus engine: transaction admission, block assembly and mining,
//! full-chain validation with retroactive difficulty, and
//! longest-valid-chain replacement.
use vstd::prelude::*;
use crate::block::{Block, BlockView, spec_block_hash, spec_nonce_seals};
use crate::state::{StateMap, balance_of};
use crate::strutil::{spec_zero_prefix, has_zero_prefix, str_eq};
use crate::transaction::{Transaction, TxView, spec_coinbase_addr, spec_tx_crypto_valid};

verus! {

/// New supply issued to the miner of each block.
pub const BLOCK_REWARD: u64 = 50;

/// The target spacing of blocks, in seconds.
pub const TARGET_BLOCK_TIME: i64 = 10;

/// How many blocks lie between difficulty retargets.
pub const DIFFICULTY_ADJUSTMENT_INTERVAL: usize = 5;

/// Whether applying `t` to the balances `m` stays within `u64` range: a
/// coinbase only credits its recipient; any other sender must cover
/// `amount + fee`, and the credit to the recipient must not overflow.
pub open spec fn spec_tx_ok(m: Map<Seq<char>, u64>, t: TxView) -> bool {
    if t.from == spec_coinbase_addr() {
        balance_of(m, t.to) + t.amount <= u64::MAX
    } else {
        let debit = t.amount + t.fee;
        &&& debit <= u64::MAX
        &&& balance_of(m, t.from) >= debit
        &&& (if t.to == t.from {
            balance_of(m, t.from) - debit
        } else {
            balance_of(m, t.to) as int
        }) + t.amount <= u64::MAX
    }
}

/// The balances after applying `t`: debit `amount + fee` from the sender
/// (unless coinbase), then credit `amount` to the recipient.
pub open spec fn spec_apply_tx(m: Map<Seq<char>, u64>, t: TxView) -> Map<Seq<char>, u64> {
    let m1 = if t.from != spec_coinbase_addr() {
        m.insert(t.from, (balance_of(m, t.from) - t.amount - t.fee) as u64)
    } else {
        m
    };
    m1.insert(t.to, (balance_of(m1, t.to) + t.amount) as u64)
}

/// What applying `t` does to the sum of all balances: a coinbase adds its
/// amount; any other transaction burns its fee here (the fee reappears in
/// the coinbase of the block that includes it).
pub open spec fn spec_tx_delta(t: TxView) -> int {
    if t.from == spec_coinbase_addr() {
        t.amount as int
    } else {
        -(t.fee as int)
    }
}

/// The balances after applying `txs` in order.
pub open spec fn spec_apply_txs(m: Map<Seq<char>, u64>, txs: Seq<TxView>) -> Map<Seq<char>, u64>
    decreases txs.len(),
{
    if txs.len() == 0 {
        m
    } else {
        spec_apply_tx(spec_apply_txs(m, txs.drop_last()), txs.last())
    }
}

/// Every transaction of `txs` is within range against the balances left by
/// its predecessors.
pub open spec fn spec_txs_ok(m: Map<Seq<char>, u64>, txs: Seq<TxView>) -> bool
    decreases txs.len(),
{
    if txs.len() == 0 {
        true
    } else {
        spec_txs_ok(m, txs.drop_last()) && spec_tx_ok(
            spec_apply_txs(m, txs.drop_last()),
            txs.last(),
        )
    }
}

/// The sum of the fees of `txs`.
pub open spec fn spec_fee_sum(txs: Seq<TxView>) -> int
    decreases txs.len(),
{
    if txs.len() == 0 {
        0
    } else {
        spec_fee_sum(txs.drop_last()) + txs.last().fee
    }
}

/// The total change of the sum of all balances from applying `txs`.
pub open spec fn spec_deltas(txs: Seq<TxView>) -> int
    decreases txs.len(),
{
    if txs.len() == 0 {
        0
    } else {
        spec_deltas(txs.drop_last()) + spec_tx_delta(txs.last())
    }
}

/// The ledger derived from a chain: the fold of every transaction of every
/// non-genesis block, in order, over the empty map.
pub open spec fn spec_chain_state(chain: Seq<BlockView>) -> Map<Seq<char>, u64>
    decreases chain.len(),
{
    if chain.len() <= 1 {
        Map::empty()
    } else {
        spec_apply_txs(spec_chain_state(chain.drop_last()), chain.last().transactions)
    }
}

/// The retargeted difficulty for the chain's next block: unchanged until
/// the chain holds more than `DIFFICULTY_ADJUSTMENT_INTERVAL` blocks, then
/// one step up when the last interval took less than half the expected
/// time, one step down (stopping at 0) when more than double.
pub open spec fn spec_adjust(chain: Seq<BlockView>, d0: usize) -> usize {
    if chain.len() < DIFFICULTY_ADJUSTMENT_INTERVAL + 1 {
        d0
    } else {
        let actual = chain.last().timestamp - chain[chain.len() - 1
            - DIFFICULTY_ADJUSTMENT_INTERVAL as int].timestamp;
        let expected = (TARGET_BLOCK_TIME as int) * (DIFFICULTY_ADJUSTMENT_INTERVAL as int);
        if actual < expected / 2 {
            if d0 == usize::MAX {
                d0
            } else {
                (d0 + 1) as usize
            }
        } else if actual > expected * 2 {
            if d0 == 0 {
                0
            } else {
                (d0 - 1) as usize
            }
        } else {
            d0
        }
    }
}

/// A well-formed block body: non-empty, opening with the one coinbase of
/// the block, whose amount is the block reward plus the fees of the other
/// transactions.
pub open spec fn spec_coinbase_ok(txs: Seq<TxView>) -> bool {
    &&& txs.len() > 0
    &&& txs[0].from == spec_coinbase_addr()
    &&& txs[0].fee == 0
    &&& txs[0].amount == BLOCK_REWARD + spec_fee_sum(txs.skip(1))
    &&& forall|j: int| 1 <= j < txs.len() ==> txs[j].from != spec_coinbase_addr()
}

/// Every transaction of `txs` is cryptographically valid.
pub open spec fn spec_txs_crypto_ok(txs: Seq<TxView>) -> bool {
    forall|j: int| 0 <= j < txs.len() ==> spec_tx_crypto_valid(txs[j])
}

/// All that validation asks of block `i` of a chain: hash integrity,
/// linkage, proof-of-work at the difficulty retargeted from the prefix,
/// a well-formed body, and transactions that are cryptographically valid
/// and within range against the ledger derived from the prefix.
pub open spec fn spec_block_ok(chain: Seq<BlockView>, i: int, d0: usize) -> bool {
    &&& chain[i].hash == spec_block_hash(chain[i])
    &&& chain[i].previous_hash == chain[i - 1].hash
    &&& spec_zero_prefix(chain[i].hash, spec_adjust(chain.take(i), d0) as int)
    &&& spec_coinbase_ok(chain[i].transactions)
    &&& spec_txs_crypto_ok(chain[i].transactions)
    &&& spec_txs_ok(spec_chain_state(chain.take(i)), chain[i].transactions)
}

/// Full-chain validity: every non-genesis block passes `spec_block_ok`.
pub open spec fn spec_chain_valid(chain: Seq<BlockView>, d0: usize) -> bool {
    forall|i: int| 1 <= i < chain.len() ==> spec_block_ok(chain, i, d0)
}

/// A mempool coherent with the ledger: its transactions can be applied in
/// order within range, and none claims to be a coinbase.
pub open spec fn spec_mempool_ok(m: Map<Seq<char>, u64>, txs: Seq<TxView>) -> bool {
    &&& spec_txs_ok(m, txs)
    &&& forall|j: int| 0 <= j < txs.len() ==> txs[j].from != spec_coinbase_addr()
}

/// What admission requires of a transaction: cryptographic validity, not a
/// coinbase, and within range against the ledger with the whole mempool
/// already applied.
pub open spec fn spec_admit(m: Map<Seq<char>, u64>, mempool: Seq<TxView>, t: TxView) -> bool {
    &&& spec_tx_crypto_valid(t)
    &&& t.from != spec_coinbase_addr()
    &&& spec_tx_ok(spec_apply_txs(m, mempool), t)
}

/// The coinbase transaction a miner synthesizes.
pub open spec fn spec_coinbase_tx(to: Seq<char>, amount: u64) -> TxView {
    TxView { from: spec_coinbase_addr(), to, amount, fee: 0, nonce: 0, signature: None }
}

proof fn lemma_txs_ok_at(m: Map<Seq<char>, u64>, txs: Seq<TxView>, j: int)
    requires
        spec_txs_ok(m, txs),
        0 <= j < txs.len(),
    ensures
        spec_tx_ok(spec_apply_txs(m, txs.take(j)), txs[j]),
    decreases txs.len(),
{
    if j == txs.len() - 1 {
        assert(txs.take(j) =~= txs.drop_last());
    } else {
        lemma_txs_ok_at(m, txs.drop_last(), j);
        assert(txs.drop_last().take(j) =~= txs.take(j));
    }
}

proof fn lemma_fee_sum_take(txs: Seq<TxView>, j: int)
    requires
        0 <= j <= txs.len(),
    ensures
        spec_fee_sum(txs.take(j)) <= spec_fee_sum(txs),
    decreases txs.len() - j,
{
    if j == txs.len() {
        assert(txs.take(j) =~= txs);
    } else {
        lemma_fee_sum_take(txs, j + 1);
        assert(txs.take(j + 1).drop_last() =~= txs.take(j));
        assert(txs.take(j + 1).last() == txs[j]);
    }
}

proof fn lemma_deltas_concat(s1: Seq<TxView>, s2: Seq<TxView>)
    ensures
        spec_deltas(s1 + s2) == spec_deltas(s1) + spec_deltas(s2),
    decreases s2.len(),
{
    if s2.len() == 0 {
        assert(s1 + s2 =~= s1);
    } else {
        lemma_deltas_concat(s1, s2.drop_last());
        assert((s1 + s2).drop_last() =~= s1 + s2.drop_last());
        assert((s1 + s2).last() == s2.last());
    }
}

proof fn lemma_deltas_non_coinbase(txs: Seq<TxView>)
    requires
        forall|j: int| 0 <= j < txs.len() ==> txs[j].from != spec_coinbase_addr(),
    ensures
        spec_deltas(txs) == -spec_fee_sum(txs),
    decreases txs.len(),
{
    if txs.len() > 0 {
        lemma_deltas_non_coinbase(txs.drop_last());
    }
}

/// Law: a well-formed block body moves the sum of all balances up by
/// exactly the block reward — the coinbase credits reward plus fees, and
/// each fee is burnt again by the member transaction it came from. This is
/// the inductive step behind conservation of supply.
pub proof fn lemma_block_delta(txs: Seq<TxView>)
    requires
        spec_coinbase_ok(txs),
    ensures
        spec_deltas(txs) == BLOCK_REWARD,
{
    let head = seq![txs[0]];
    let rest = txs.skip(1);
    assert(txs =~= head + rest);
    lemma_deltas_concat(head, rest);
    assert(head.drop_last() =~= Seq::<TxView>::empty());
    assert(spec_deltas(Seq::<TxView>::empty()) == 0);
    assert(head.last() == txs[0]);
    assert(spec_deltas(head) == spec_deltas(head.drop_last()) + spec_tx_delta(head.last()));
    assert(spec_deltas(head) == spec_tx_delta(txs[0]));
    assert(forall|j: int|
        0 <= j < rest.len() ==> rest[j].from != spec_coinbase_addr()) by {
        assert(forall|j: int| 0 <= j < rest.len() ==> rest[j] == txs[j + 1]);
    }
    lemma_deltas_non_coinbase(rest);
}

/// The proof-of-work blockchain node: a canonical chain, the ledger
/// derived from it, the mempool of admitted transactions, and the current
/// mining difficulty.
pub struct Blockchain {
    chain: Vec<Block>,
    state: StateMap,
    mempool: Vec<Transaction>,
    difficulty: usize,
}

impl Blockchain {
    /// The chain, as block contents.
    pub closed spec fn spec_chain(self) -> Seq<BlockView> {
        self.chain.deep_view()
    }

    /// The ledger, as a map from address to balance.
    pub closed spec fn spec_state(self) -> Map<Seq<char>, u64> {
        self.state@
    }

    /// The mempool, as transaction contents in admission order.
    pub closed spec fn spec_mempool(self) -> Seq<TxView> {
        self.mempool.deep_view()
    }

    /// The current difficulty.
    pub closed spec fn spec_difficulty(self) -> usize {
        self.difficulty
    }

    /// The sum of all balances of the ledger.
    pub closed spec fn spec_total(self) -> int {
        self.state.spec_total()
    }

    /// Well-formedness: every value the constructor and the mutating
    /// methods produce satisfies it. The chain is non-empty, the ledger is
    /// exactly the fold of the chain, the mempool applies within range,
    /// and the sum of all balances is the issuance of the mined blocks.
    pub closed spec fn wf(self) -> bool {
        &&& self.chain@.len() >= 1
        &&& self.state.wf()
        &&& self.state@ == spec_chain_state(self.chain.deep_view())
        &&& spec_mempool_ok(self.state@, self.mempool.deep_view())
        &&& self.state.spec_total() == (self.chain@.len() - 1) * (BLOCK_REWARD as int)
    }

    /// The fixed first block: index 0, no transactions, predecessor `"0"`.
    pub fn genesis_block() -> (b: Block)
        ensures
            b.index == 0,
            b.transactions.deep_view() == Seq::<TxView>::empty(),
            b.previous_hash@ == "0"@,
            b.nonce == 0,
            b.hash@ == spec_block_hash(b@),
    {
        let b = Block::new(0, Vec::new(), ("0").to_owned());
        proof {
            assert(b.transactions.deep_view() =~= Seq::<TxView>::empty());
        }
        b
    }

    /// A fresh engine holding only the genesis block, an empty ledger and
    /// an empty mempool.
    pub fn new(difficulty: usize) -> (bc: Blockchain)
        ensures
            bc.wf(),
            bc.spec_chain().len() == 1,
            bc.spec_chain()[0].index == 0,
            bc.spec_chain()[0].transactions.len() == 0,
            bc.spec_chain()[0].previous_hash == "0"@,
            bc.spec_chain()[0].hash == spec_block_hash(bc.spec_chain()[0]),
            bc.spec_state() == Map::<Seq<char>, u64>::empty(),
            bc.spec_mempool().len() == 0,
            bc.spec_difficulty() == difficulty,
            bc.spec_total() == 0,
    {
        let mut chain: Vec<Block> = Vec::new();
        chain.push(Self::genesis_block());
        let bc = Blockchain { chain, state: StateMap::new(), mempool: Vec::new(), difficulty };
        proof {
            assert(bc.mempool.deep_view() =~= Seq::<TxView>::empty());
        }
        bc
    }

    /// The tip of the chain.
    pub fn latest_block(&self) -> (b: &Block)
        requires
            self.wf(),
        ensures
            b@ == self.spec_chain().last(),
    {
        &self.chain[self.chain.len() - 1]
    }

    /// The chain itself, for snapshots.
    pub fn chain(&self) -> (c: &Vec<Block>)
        requires
            self.wf(),
        ensures
            c.deep_view() == self.spec_chain(),
            c@.len() >= 1,
    {
        &self.chain
    }

    /// The number of admitted, not yet mined transactions.
    pub fn mempool_len(&self) -> (n: usize)
        ensures
            n == self.spec_mempool().len(),
    {
        self.mempool.len()
    }

    /// The current difficulty.
    pub fn difficulty(&self) -> (d: usize)
        ensures
            d == self.spec_difficulty(),
    {
        self.difficulty
    }

    /// The confirmed balance of an address (0 when absent).
    pub fn balance(&self, a: &str) -> (r: u64)
        requires
            self.wf(),
        ensures
            r == balance_of(self.spec_state(), a@),
    {
        self.state.get_balance(a)
    }

    /// Whether applying `tx` to `state` stays in range; see `spec_tx_ok`.
    pub fn is_tx_valid_against_state(state: &StateMap, tx: &Transaction) -> (r: bool)
        requires
            state.wf(),
        ensures
            r == spec_tx_ok(state@, tx@),
    {
        if str_eq(tx.from.as_str(), "COINBASE") {
            let b = state.get_balance(tx.to.as_str());
            return b.checked_add(tx.amount).is_some();
        }
        match tx.amount.checked_add(tx.fee) {
            None => false,
            Some(debit) => {
                let bf = state.get_balance(tx.from.as_str());
                if bf < debit {
                    false
                } else {
                    let bt = if str_eq(tx.to.as_str(), tx.from.as_str()) {
                        bf - debit
                    } else {
                        state.get_balance(tx.to.as_str())
                    };
                    bt.checked_add(tx.amount).is_some()
                }
            },
        }
    }

    /// Apply `tx` to `state`; the caller has checked `spec_tx_ok`.
    pub fn apply_transaction(state: &mut StateMap, tx: &Transaction)
        requires
            old(state).wf(),
            spec_tx_ok(old(state)@, tx@),
        ensures
            final(state).wf(),
            final(state)@ == spec_apply_tx(old(state)@, tx@),
            final(state).spec_total() == old(state).spec_total() + spec_tx_delta(tx@),
    {
        if !str_eq(tx.from.as_str(), "COINBASE") {
            let bf = state.get_balance(tx.from.as_str());
            state.set_balance(tx.from.as_str(), bf - (tx.amount + tx.fee));
        }
        let bt = state.get_balance(tx.to.as_str());
        state.set_balance(tx.to.as_str(), bt + tx.amount);
    }

    /// Apply all of `txs` in order; the caller has checked `spec_txs_ok`.
    fn apply_all(state: &mut StateMap, txs: &Vec<Transaction>)
        requires
            old(state).wf(),
            spec_txs_ok(old(state)@, txs.deep_view()),
        ensures
            final(state).wf(),
            final(state)@ == spec_apply_txs(old(state)@, txs.deep_view()),
            final(state).spec_total() == old(state).spec_total() + spec_deltas(txs.deep_view()),
    {
        let ghost s = txs.deep_view();
        let n = txs.len();
        let mut j: usize = 0;
        while j < n
            invariant
                n == txs.len(),
                j <= n,
                s == txs.deep_view(),
                spec_txs_ok(old(state)@, s),
                state.wf(),
                state@ == spec_apply_txs(old(state)@, s.take(j as int)),
                state.spec_total() == old(state).spec_total() + spec_deltas(s.take(j as int)),
            decreases n - j,
        {
            proof {
                lemma_txs_ok_at(old(state)@, s, j as int);
                assert(s.take(j + 1).drop_last() =~= s.take(j as int));
                assert(s.take(j + 1).last() == s[j as int]);
            }
            Self::apply_transaction(state, &txs[j]);
            j = j + 1;
        }
        proof {
            assert(s.take(n as int) =~= s);
        }
    }

    /// Check each of `txs` against the evolving balances, applying as it
    /// goes; `r` says whether the whole sequence stays in range.
    fn check_and_apply_all(state: &mut StateMap, txs: &Vec<Transaction>) -> (r: bool)
        requires
            old(state).wf(),
        ensures
            final(state).wf(),
            r == spec_txs_ok(old(state)@, txs.deep_view()),
            r ==> final(state)@ == spec_apply_txs(old(state)@, txs.deep_view()),
    {
        let ghost s = txs.deep_view();
        let n = txs.len();
        let mut j: usize = 0;
        while j < n
            invariant
                n == txs.len(),
                j <= n,
                s == txs.deep_view(),
                state.wf(),
                spec_txs_ok(old(state)@, s.take(j as int)),
                state@ == spec_apply_txs(old(state)@, s.take(j as int)),
            decreases n - j,
        {
            proof {
                assert(s.take(j + 1).drop_last() =~= s.take(j as int));
                assert(s.take(j + 1).last() == s[j as int]);
            }
            if !Self::is_tx_valid_against_state(state, &txs[j]) {
                proof {
                    if spec_txs_ok(old(state)@, s) {
                        lemma_txs_ok_at(old(state)@, s, j as int);
                    }
                }
                return false;
            }
            Self::apply_transaction(state, &txs[j]);
            j = j + 1;
        }
        proof {
            assert(s.take(n as int) =~= s);
        }
        true
    }

    /// The sum of the fees of `txs[start..]`, or `None` on `u64` overflow.
    fn fee_sum_from(txs: &Vec<Transaction>, start: usize) -> (r: Option<u64>)
        requires
            start <= txs.len(),
        ensures
            match r {
                Some(v) => v == spec_fee_sum(txs.deep_view().skip(start as int)),
                None => spec_fee_sum(txs.deep_view().skip(start as int)) > u64::MAX,
            },
    {
        let ghost rest = txs.deep_view().skip(start as int);
        let n = txs.len();
        let mut acc: u64 = 0;
        let mut j: usize = start;
        while j < n
            invariant
                n == txs.len(),
                start <= j <= n,
                rest == txs.deep_view().skip(start as int),
                acc == spec_fee_sum(rest.take(j - start)),
            decreases n - j,
        {
            proof {
                assert(rest.take(j - start + 1).drop_last() =~= rest.take(j - start));
                assert(rest.take(j - start + 1).last() == rest[j - start]);
                assert(rest[j - start] == txs.deep_view()[j as int]);
            }
            match acc.checked_add(txs[j].fee) {
                None => {
                    proof {
                        lemma_fee_sum_take(rest, j - start + 1);
                    }
                    return None;
                },
                Some(next) => {
                    acc = next;
                },
            }
            j = j + 1;
        }
        proof {
            assert(rest.take(n - start) =~= rest);
        }
        Some(acc)
    }

    /// Admit a transaction into the mempool; see `spec_admit`. Nothing but
    /// the mempool changes, and it only by appending the admitted
    /// transaction.
    pub fn add_transaction(&mut self, tx: Transaction) -> (r: bool)
        requires
            old(self).wf(),
        ensures
            final(self).wf(),
            r == spec_admit(old(self).spec_state(), old(self).spec_mempool(), tx@),
            r ==> final(self).spec_mempool() == old(self).spec_mempool().push(tx@),
            !r ==> final(self).spec_mempool() == old(self).spec_mempool(),
            final(self).spec_chain() == old(self).spec_chain(),
            final(self).spec_state() == old(self).spec_state(),
            final(self).spec_difficulty() == old(self).spec_difficulty(),
            final(self).spec_state() == spec_chain_state(final(self).spec_chain()),
            spec_mempool_ok(final(self).spec_state(), final(self).spec_mempool()),
    {
        if !tx.is_valid() {
            return false;
        }
        if str_eq(tx.from.as_str(), "COINBASE") {
            return false;
        }
        let mut temp_state = self.state.duplicate();
        Self::apply_all(&mut temp_state, &self.mempool);
        if !Self::is_tx_valid_against_state(&temp_state, &tx) {
            return false;
        }
        let ghost old_mp = self.mempool.deep_view();
        self.mempool.push(tx);
        proof {
            assert(self.mempool.deep_view() =~= old_mp.push(self.mempool.deep_view().last()));
            assert(self.mempool.deep_view().drop_last() =~= old_mp);
        }
        true
    }

    fn adjust_difficulty_at(chain: &Vec<Block>, upto: usize, d0: usize) -> (r: usize)
        requires
            upto <= chain@.len(),
        ensures
            r == spec_adjust(chain.deep_view().take(upto as int), d0),
    {
        if upto < DIFFICULTY_ADJUSTMENT_INTERVAL + 1 {
            return d0;
        }
        let last = &chain[upto - 1];
        let prev = &chain[upto - 1 - DIFFICULTY_ADJUSTMENT_INTERVAL];
        let actual: i128 = last.timestamp as i128 - prev.timestamp as i128;
        let expected: i128 = (TARGET_BLOCK_TIME as i128) * (DIFFICULTY_ADJUSTMENT_INTERVAL
            as i128);
        proof {
            let pre = chain.deep_view().take(upto as int);
            assert(pre.last() == chain.deep_view()[upto - 1]);
            assert(pre[upto - 1 - DIFFICULTY_ADJUSTMENT_INTERVAL as int] == chain.deep_view()[upto
                - 1 - DIFFICULTY_ADJUSTMENT_INTERVAL as int]);
        }
        if actual < expected / 2 {
            if d0 == usize::MAX {
                d0
            } else {
                d0 + 1
            }
        } else if actual > expected * 2 {
            if d0 == 0 {
                0
            } else {
                d0 - 1
            }
        } else {
            d0
        }
    }

    /// The difficulty retargeted against the whole current chain; see
    /// `spec_adjust`.
    pub fn adjust_difficulty(&self) -> (r: usize)
        ensures
            r == spec_adjust(self.spec_chain(), self.spec_difficulty()),
    {
        let r = Self::adjust_difficulty_at(&self.chain, self.chain.len(), self.difficulty);
        proof {
            assert(self.chain.deep_view().take(self.chain@.len() as int)
                =~= self.chain.deep_view());
        }
        r
    }

    /// Validate a whole chain under initial difficulty `d0`; see
    /// `spec_chain_valid`. The genesis block is fixed by construction and
    /// not inspected.
    pub fn is_chain_valid_from(chain: &Vec<Block>, d0: usize) -> (r: bool)
        ensures
            r == spec_chain_valid(chain.deep_view(), d0),
    {
        let ghost dv = chain.deep_view();
        let n = chain.len();
        if n == 0 {
            return true;
        }
        let mut temp_state = StateMap::new();
        proof {
            assert(dv.take(1).len() == 1);
        }
        let mut i: usize = 1;
        while i < n
            invariant
                n == chain@.len(),
                1 <= i <= n,
                dv == chain.deep_view(),
                temp_state.wf(),
                temp_state@ == spec_chain_state(dv.take(i as int)),
                forall|k: int| 1 <= k < i ==> spec_block_ok(dv, k, d0),
            decreases n - i,
        {
            let computed = chain[i].calculate_hash();
            if !str_eq(chain[i].hash.as_str(), computed.as_str()) {
                assert(!spec_block_ok(dv, i as int, d0));
                return false;
            }
            if !str_eq(chain[i].previous_hash.as_str(), chain[i - 1].hash.as_str()) {
                assert(!spec_block_ok(dv, i as int, d0));
                return false;
            }
            let expected = Self::adjust_difficulty_at(chain, i, d0);
            if !has_zero_prefix(chain[i].hash.as_str(), expected) {
                assert(!spec_block_ok(dv, i as int, d0));
                return false;
            }
            if !Self::block_body_ok(&chain[i]) {
                assert(!spec_block_ok(dv, i as int, d0));
                return false;
            }
            if !Self::check_and_apply_all(&mut temp_state, &chain[i].transactions) {
                assert(!spec_block_ok(dv, i as int, d0));
                return false;
            }
            proof {
                assert(dv.take(i + 1).drop_last() =~= dv.take(i as int));
                assert(dv.take(i + 1).last() == dv[i as int]);
            }
            i = i + 1;
        }
        true
    }

    /// Structural checks on a block body: non-empty, a well-formed leading
    /// coinbase, no other coinbase, every transaction cryptographically
    /// valid; see `spec_coinbase_ok` and `spec_txs_crypto_ok`.
    fn block_body_ok(b: &Block) -> (r: bool)
        ensures
            r == (spec_coinbase_ok(b@.transactions) && spec_txs_crypto_ok(b@.transactions)),
    {
        let ghost txs = b@.transactions;
        let n = b.transactions.len();
        if n == 0 {
            return false;
        }
        if !str_eq(b.transactions[0].from.as_str(), "COINBASE") {
            return false;
        }
        if b.transactions[0].fee != 0 {
            return false;
        }
        match Self::fee_sum_from(&b.transactions, 1) {
            None => {
                return false;
            },
            Some(fees) => {
                match BLOCK_REWARD.checked_add(fees) {
                    None => {
                        return false;
                    },
                    Some(expected) => {
                        if b.transactions[0].amount != expected {
                            return false;
                        }
                    },
                }
            },
        }
        let mut j: usize = 0;
        while j < n
            invariant
                n == b.transactions.len(),
                j <= n,
                txs == b@.transactions,
                forall|k: int| 0 <= k < j ==> spec_tx_crypto_valid(txs[k]),
                forall|k: int| 1 <= k < j ==> txs[k].from != spec_coinbase_addr(),
            decreases n - j,
        {
            proof {
                assert(txs[j as int] == b.transactions@[j as int]@);
            }
            if !b.transactions[j].is_valid() {
                assert(!spec_txs_crypto_ok(txs));
                return false;
            }
            if j > 0 {
                if str_eq(b.transactions[j].from.as_str(), "COINBASE") {
                    assert(!spec_coinbase_ok(txs));
                    return false;
                }
            }
            j = j + 1;
        }
        true
    }

    /// Validate this engine's own chain under its current difficulty.
    pub fn is_chain_valid(&self) -> (r: bool)
        ensures
            r == spec_chain_valid(self.spec_chain(), self.spec_difficulty()),
    {
        Self::is_chain_valid_from(&self.chain, self.difficulty)
    }

    /// Whether mining can proceed within `u64` range: the tip index can
    /// grow, reward plus fees fits, and the whole block-to-be applies
    /// within range.
    pub open spec fn spec_can_mine(self, miner: Seq<char>) -> bool {
        &&& self.spec_chain().len() >= 1
        &&& self.spec_chain().last().index < u64::MAX
        &&& spec_fee_sum(self.spec_mempool()) + BLOCK_REWARD <= u64::MAX
        &&& spec_txs_ok(
            self.spec_state(),
            seq![
                spec_coinbase_tx(
                    miner,
                    (BLOCK_REWARD + spec_fee_sum(self.spec_mempool())) as u64,
                ),
            ] + self.spec_mempool(),
        )
    }

    /// Runtime check for `spec_can_mine`; `mine_pending_transactions`
    /// requires it.
    pub fn can_mine(&self, miner_address: &str) -> (r: bool)
        requires
            self.wf(),
        ensures
            r == self.spec_can_mine(miner_address@),
    {
        let ghost mp = self.mempool.deep_view();
        proof {
            assert(mp.skip(0) =~= mp);
        }
        if !(self.chain[self.chain.len() - 1].index < u64::MAX) {
            return false;
        }
        let fees = match Self::fee_sum_from(&self.mempool, 0) {
            None => {
                return false;
            },
            Some(f) => f,
        };
        let amount = match fees.checked_add(BLOCK_REWARD) {
            None => {
                return false;
            },
            Some(a) => a,
        };
        let combined = self.build_block_txs(miner_address.to_owned(), amount);
        let mut temp_state = self.state.duplicate();
        Self::check_and_apply_all(&mut temp_state, &combined)
    }

    /// The body of the next block: the synthesized coinbase, then the
    /// mempool in admission order.
    fn build_block_txs(&self, miner_address: String, amount: u64) -> (txs: Vec<Transaction>)
        ensures
            txs.deep_view() == seq![spec_coinbase_tx(miner_address@, amount)]
                + self.spec_mempool(),
    {
        let ghost mp = self.mempool.deep_view();
        let coinbase = Transaction {
            from: ("COINBASE").to_owned(),
            to: miner_address,
            amount,
            fee: 0,
            nonce: 0,
            signature: None,
        };
        let ghost cbv = coinbase@;
        proof {
            assert(cbv == spec_coinbase_tx(cbv.to, amount));
        }
        let mut combined: Vec<Transaction> = Vec::new();
        combined.push(coinbase);
        let n = self.mempool.len();
        let mut j: usize = 0;
        while j < n
            invariant
                n == self.mempool.len(),
                mp == self.mempool.deep_view(),
                j <= n,
                combined@.len() == j + 1,
                combined@[0]@ == cbv,
                forall|k: int| 1 <= k < j + 1 ==> combined@[k]@ == mp[k - 1],
            decreases n - j,
        {
            combined.push(self.mempool[j].clone());
            j = j + 1;
        }
        proof {
            assert(combined.deep_view() =~= seq![cbv] + mp);
        }
        combined
    }

    /// Assemble, mine and append the next block: a coinbase paying the
    /// block reward plus all mempool fees to the miner, then the mempool
    /// in order. The block is sealed at the retargeted difficulty, its
    /// transactions are folded into the ledger, the mempool is drained and
    /// the difficulty updated. Returns whether a sealing nonce was found;
    /// when not, nothing changes.
    pub fn mine_pending_transactions(&mut self, miner_address: String) -> (mined: bool)
        requires
            old(self).wf(),
            old(self).spec_can_mine(miner_address@),
        ensures
            final(self).wf(),
            final(self).spec_difficulty() == if mined {
                spec_adjust(old(self).spec_chain(), old(self).spec_difficulty())
            } else {
                old(self).spec_difficulty()
            },
            !mined ==> final(self).spec_chain() == old(self).spec_chain(),
            !mined ==> final(self).spec_state() == old(self).spec_state(),
            !mined ==> final(self).spec_mempool() == old(self).spec_mempool(),
            !mined ==> (exists|b: BlockView|
                {
                    &&& b.index == old(self).spec_chain().last().index + 1
                    &&& b.previous_hash == old(self).spec_chain().last().hash
                    &&& b.transactions == seq![
                        spec_coinbase_tx(
                            miner_address@,
                            (BLOCK_REWARD + spec_fee_sum(old(self).spec_mempool())) as u64,
                        ),
                    ] + old(self).spec_mempool()
                    &&& forall|n: u64|
                        !spec_nonce_seals(
                            b,
                            n,
                            spec_adjust(
                                old(self).spec_chain(),
                                old(self).spec_difficulty(),
                            ) as int,
                        )
                }),
            mined ==> final(self).spec_mempool().len() == 0,
            mined ==> final(self).spec_chain().len() == old(self).spec_chain().len() + 1,
            mined ==> final(self).spec_chain().drop_last() == old(self).spec_chain(),
            mined ==> ({
                let b = final(self).spec_chain().last();
                &&& b.index == old(self).spec_chain().last().index + 1
                &&& b.previous_hash == old(self).spec_chain().last().hash
                &&& b.transactions == seq![
                    spec_coinbase_tx(
                        miner_address@,
                        (BLOCK_REWARD + spec_fee_sum(old(self).spec_mempool())) as u64,
                    ),
                ] + old(self).spec_mempool()
                &&& b.hash == spec_block_hash(b)
                &&& spec_zero_prefix(
                    b.hash,
                    spec_adjust(old(self).spec_chain(), old(self).spec_difficulty()) as int,
                )
            }),
            mined ==> final(self).spec_state() == spec_chain_state(final(self).spec_chain()),
            mined ==> final(self).spec_total() == (final(self).spec_chain().len() - 1) * (
            BLOCK_REWARD as int),
    {
        let ghost mp = self.mempool.deep_view();
        proof {
            assert(mp.skip(0) =~= mp);
        }
        let fees = match Self::fee_sum_from(&self.mempool, 0) {
            None => {
                proof {
                    assert(false);
                }
                return false;
            },
            Some(f) => f,
        };
        let amount = fees + BLOCK_REWARD;
        let block_txs = self.build_block_txs(miner_address, amount);
        let tip = self.chain.len() - 1;
        let prev_index = self.chain[tip].index;
        let prev_hash = self.chain[tip].hash.clone();
        let adjusted = self.adjust_difficulty();
        let mut block = Block::new(prev_index + 1, block_txs, prev_hash);
        let ghost b0 = block@;
        let sealed = block.mine(adjusted);
        if !sealed {
            proof {
                assert(forall|n: u64| !spec_nonce_seals(b0, n, adjusted as int));
            }
            return false;
        }
        Self::apply_all(&mut self.state, &block.transactions);
        self.mempool = Vec::new();
        let ghost bv = block@;
        let ghost old_dv = old(self).chain.deep_view();
        self.chain.push(block);
        self.difficulty = adjusted;
        proof {
            let dv = self.chain.deep_view();
            assert(dv =~= old_dv.push(bv));
            assert(dv.drop_last() =~= old_dv);
            assert(self.mempool.deep_view() =~= Seq::<TxView>::empty());
            assert(bv.transactions == seq![
                spec_coinbase_tx(
                    miner_address@,
                    (BLOCK_REWARD + spec_fee_sum(old(self).spec_mempool())) as u64,
                ),
            ] + mp);
            assert(spec_coinbase_ok(bv.transactions)) by {
                assert(bv.transactions.skip(1) =~= mp);
                assert(bv.transactions[0] == spec_coinbase_tx(
                    miner_address@,
                    (BLOCK_REWARD + spec_fee_sum(mp)) as u64,
                ));
                assert(forall|j: int|
                    1 <= j < bv.transactions.len() ==> bv.transactions[j] == mp[j - 1]);
            }
            lemma_block_delta(bv.transactions);
        }
        true
    }

    /// Whether a candidate chain would replace the current one: strictly
    /// longer, and valid under the engine's current difficulty.
    pub open spec fn spec_replace_accepts(cur_len: int, cand: Seq<BlockView>, d0: usize) -> bool {
        cand.len() > cur_len && spec_chain_valid(cand, d0)
    }

    /// Longest-valid-chain arbitration: a strictly longer, fully valid
    /// candidate replaces the chain; the ledger is rebuilt from scratch by
    /// folding the candidate, and the mempool is cleared. Anything else is
    /// rejected and nothing changes. The difficulty setting is untouched.
    pub fn try_replace_chain(&mut self, new_chain: Vec<Block>) -> (r: bool)
        requires
            old(self).wf(),
        ensures
            final(self).wf(),
            r == Self::spec_replace_accepts(
                old(self).spec_chain().len() as int,
                new_chain.deep_view(),
                old(self).spec_difficulty(),
            ),
            r ==> final(self).spec_chain() == new_chain.deep_view(),
            r ==> final(self).spec_state() == spec_chain_state(new_chain.deep_view()),
            r ==> final(self).spec_mempool().len() == 0,
            !r ==> final(self).spec_chain() == old(self).spec_chain(),
            !r ==> final(self).spec_state() == old(self).spec_state(),
            !r ==> final(self).spec_mempool() == old(self).spec_mempool(),
            final(self).spec_difficulty() == old(self).spec_difficulty(),
            final(self).spec_state() == spec_chain_state(final(self).spec_chain()),
            final(self).spec_total() == (final(self).spec_chain().len() - 1) * (
            BLOCK_REWARD as int),
    {
        if new_chain.len() <= self.chain.len() {
            return false;
        }
        let d0 = self.difficulty;
        if !Self::is_chain_valid_from(&new_chain, d0) {
            return false;
        }
        let ghost dv = new_chain.deep_view();
        let n = new_chain.len();
        let mut new_state = StateMap::new();
        proof {
            assert(dv.take(1).len() == 1);
        }
        let mut i: usize = 1;
        while i < n
            invariant
                n == new_chain@.len(),
                n >= 1,
                1 <= i <= n,
                dv == new_chain.deep_view(),
                spec_chain_valid(dv, d0),
                new_state.wf(),
                new_state@ == spec_chain_state(dv.take(i as int)),
                new_state.spec_total() == (i - 1) * (BLOCK_REWARD as int),
            decreases n - i,
        {
            proof {
                assert(spec_block_ok(dv, i as int, d0));
                assert(new_chain@[i as int]@.transactions == dv[i as int].transactions);
            }
            Self::apply_all(&mut new_state, &new_chain[i].transactions);
            proof {
                assert(dv.take(i + 1).drop_last() =~= dv.take(i as int));
                assert(dv.take(i + 1).last() == dv[i as int]);
                lemma_block_delta(dv[i as int].transactions);
            }
            i = i + 1;
        }
        proof {
            assert(dv.take(n as int) =~= dv);
        }
        self.chain = new_chain;
        self.state = new_state;
        self.mempool = Vec::new();
        proof {
            assert(self.mempool.deep_view() =~= Seq::<TxView>::empty());
        }
        true
    }

    /// Handle a single advertised block: append it to a copy of the
    /// current chain and arbitrate with `try_replace_chain`, so that every
    /// check (linkage, difficulty, body) applies uniformly.
    pub fn handle_new_block(&mut self, block: Block) -> (r: bool)
        requires
            old(self).wf(),
        ensures
            final(self).wf(),
            r == Self::spec_replace_accepts(
                old(self).spec_chain().len() as int,
                old(self).spec_chain().push(block@),
                old(self).spec_difficulty(),
            ),
            r ==> final(self).spec_chain() == old(self).spec_chain().push(block@),
            r ==> final(self).spec_state() == spec_chain_state(old(self).spec_chain().push(block@)),
            r ==> final(self).spec_mempool().len() == 0,
            !r ==> final(self).spec_chain() == old(self).spec_chain(),
            !r ==> final(self).spec_state() == old(self).spec_state(),
            !r ==> final(self).spec_mempool() == old(self).spec_mempool(),
            final(self).spec_difficulty() == old(self).spec_difficulty(),
    {
        let n = self.chain.len();
        let mut candidate: Vec<Block> = Vec::new();
        let mut i: usize = 0;
        while i < n
            invariant
                n == self.chain@.len(),
                i <= n,
                candidate@.len() == i,
                forall|k: int| 0 <= k < i ==> candidate@[k]@ == self.chain@[k]@,
            decreases n - i,
        {
            candidate.push(self.chain[i].clone());
            i = i + 1;
        }
        candidate.push(block);
        proof {
            assert(candidate.deep_view() =~= self.chain.deep_view().push(
                candidate@[n as int]@,
            ));
        }
        self.try_replace_chain(candidate)
    }
}

/// Laws of every reachable engine state (each constructor and mutating
/// method establishes `wf`): the ledger equals the fold of all non-genesis
/// transactions of the chain; the mempool applies to the ledger in order
/// within range, with no coinbase in it; and the sum of all balances is
/// exactly the number of mined blocks times the block reward.
pub proof fn lemma_engine_invariants(bc: Blockchain)
    requires
        bc.wf(),
    ensures
        bc.spec_chain().len() >= 1,
        bc.spec_state() == spec_chain_state(bc.spec_chain()),
        spec_mempool_ok(bc.spec_state(), bc.spec_mempool()),
        bc.spec_total() == (bc.spec_chain().len() - 1) * (BLOCK_REWARD as int),
{
}

/// Law: conservation with issuance, in terms of the tip's index. On a
/// chain whose tip carries its position as its index (every chain the
/// engine itself builds does; a replacement chain's indices are not what
/// validation inspects), the sum of all balances is the tip index times
/// the block reward: each fee is debited from a sender and credited back
/// through the coinbase of the block that collects it.
pub proof fn lemma_conservation_with_issuance(bc: Blockchain)
    requires
        bc.wf(),
        bc.spec_chain().last().index == bc.spec_chain().len() - 1,
    ensures
        bc.spec_total() == bc.spec_chain().last().index * (BLOCK_REWARD as int),
{
}

/// Law: a candidate no longer than the current chain — in particular the
/// current chain itself — is never accepted, and chain validity is a pure
/// function of the chain and the starting difficulty, so judging the same
/// chain twice yields the same verdict.
pub proof fn lemma_replace_not_longer_rejected(
    cur_len: int,
    cand: Seq<BlockView>,
    d0: usize,
)
    requires
        cand.len() <= cur_len,
    ensures
        !Blockchain::spec_replace_accepts(cur_len, cand, d0),
{
}

/// Law: acceptance of a candidate chain implies it is strictly longer than
/// the chain it replaces and fully valid.
pub proof fn lemma_accepted_chain_longer_and_valid(
    cur_len: int,
    cand: Seq<BlockView>,
    d0: usize,
)
    requires
        Blockchain::spec_replace_accepts(cur_len, cand, d0),
    ensures
        cand.len() > cur_len,
        spec_chain_valid(cand, d0),
{
}

} // verus!
