//! The ledger: a chain of blocks, each linked to its predecessor by
//! fingerprint, and the pool of transactions that the next block will seal.

use vstd::prelude::*;
use std::hash::BuildHasher;
use crate::clock::{now, Timestamp};
use crate::pow::{least_solution, solves};

verus! {

/// A transfer of `amount` from `sender` to `recipient`.
#[derive(Debug, Hash)]
pub struct Transaction {
    pub sender: String,
    pub recipient: String,
    pub amount: i64,
}

impl Transaction {
    /// A copy of this transaction.
    pub fn duplicate(&self) -> (r: Transaction)
        ensures
            r@ == self@,
    {
        Transaction {
            sender: self.sender.clone(),
            recipient: self.recipient.clone(),
            amount: self.amount,
        }
    }
}

pub struct TransactionView {
    pub sender: Seq<char>,
    pub recipient: Seq<char>,
    pub amount: i64,
}

impl View for Transaction {
    type V = TransactionView;

    open spec fn view(&self) -> TransactionView {
        TransactionView { sender: self.sender@, recipient: self.recipient@, amount: self.amount }
    }
}

/// A sealed batch of transactions.
#[derive(Debug, Hash)]
pub struct Block {
    pub index: usize,
    pub timestamp: Timestamp,
    pub transactions: Vec<Transaction>,
    pub proof: u64,
    pub previous_hash: u64,
}

impl Block {
    /// A copy of this block.
    pub fn duplicate(&self) -> (r: Block)
        ensures
            r@ == self@,
    {
        let mut transactions: Vec<Transaction> = Vec::new();
        let mut i: usize = 0;
        while i < self.transactions.len()
            invariant
                i <= self.transactions@.len(),
                transactions@.len() == i,
                forall|j: int| 0 <= j < i ==> #[trigger] transactions@[j]@ == self.transactions@[j]@,
            decreases self.transactions@.len() - i,
        {
            transactions.push(self.transactions[i].duplicate());
            i = i + 1;
        }
        assert(transactions@.map_values(|t: Transaction| t@) =~= self.transactions@.map_values(
            |t: Transaction| t@,
        ));
        Block {
            index: self.index,
            timestamp: self.timestamp,
            transactions: transactions,
            proof: self.proof,
            previous_hash: self.previous_hash,
        }
    }
}

pub struct BlockView {
    pub index: nat,
    pub timestamp: Timestamp,
    pub transactions: Seq<TransactionView>,
    pub proof: u64,
    pub previous_hash: u64,
}

impl View for Block {
    type V = BlockView;

    open spec fn view(&self) -> BlockView {
        BlockView {
            index: self.index as nat,
            timestamp: self.timestamp,
            transactions: self.transactions@.map_values(|t: Transaction| t@),
            proof: self.proof,
            previous_hash: self.previous_hash,
        }
    }
}

/// What the std default hasher yields for a block's fields.
pub uninterp spec fn fingerprint_of(b: BlockView) -> u64;

/// Relies on std's `DefaultHasher`, fed by the derived `Hash` of `Block`: it
/// is built with fixed keys, so within a given build its output depends on
/// the block's fields alone.
#[verifier::external_body]
fn fingerprint(b: &Block) -> (r: u64)
    ensures
        r == fingerprint_of(b@),
{
    std::hash::BuildHasherDefault::<std::collections::hash_map::DefaultHasher>::default().hash_one(b)
}

/// A chain is well linked when it is not empty, its indices count up from 1,
/// and every block after the first names the fingerprint of its predecessor.
pub open spec fn well_linked(chain: Seq<BlockView>) -> bool {
    &&& chain.len() >= 1
    &&& forall|i: int| 0 <= i < chain.len() ==> #[trigger] chain[i].index == i + 1
    &&& forall|i: int|
        0 < i < chain.len() ==> #[trigger] chain[i].previous_hash == fingerprint_of(chain[i - 1])
}

/// The block that every chain starts with: index 1, no transactions, the
/// genesis proof and previous-hash.
pub open spec fn is_genesis(b: BlockView) -> bool {
    &&& b.index == 1
    &&& b.transactions.len() == 0
    &&& b.proof == GENESIS_PROOF
    &&& b.previous_hash == GENESIS_PREVIOUS_HASH
}

pub struct LedgerView {
    pub chain: Seq<BlockView>,
    pub pending: Seq<TransactionView>,
}

impl LedgerView {
    /// The chain is well linked.
    pub open spec fn wf(self) -> bool {
        well_linked(self.chain)
    }

    /// The ledger that results from submitting `t`: the chain is unchanged
    /// and `t` joins the end of the pool.
    pub open spec fn submit(self, t: TransactionView) -> LedgerView {
        LedgerView { chain: self.chain, pending: self.pending.push(t) }
    }

    /// `self` after each of `ts` was submitted, in order.
    pub open spec fn submit_all(self, ts: Seq<TransactionView>) -> LedgerView
        decreases ts.len(),
    {
        if ts.len() == 0 {
            self
        } else {
            self.submit_all(ts.drop_last()).submit(ts.last())
        }
    }

    /// Whether `post` is what sealing a block with `proof` makes of `self`:
    /// the block takes the next index, the whole pool in order, and the
    /// fingerprint of the block before it; the pool is left empty.
    pub open spec fn seals(self, post: LedgerView, proof: u64) -> bool {
        &&& self.chain.len() >= 1
        &&& post.pending.len() == 0
        &&& post.chain.len() == self.chain.len() + 1
        &&& post.chain.drop_last() == self.chain
        &&& post.chain.last().index == self.chain.len() + 1
        &&& post.chain.last().transactions == self.pending
        &&& post.chain.last().proof == proof
        &&& post.chain.last().previous_hash == fingerprint_of(self.chain.last())
    }
}


/// The chain of sealed blocks and the pool of pending transactions.
#[derive(Debug)]
pub struct Blockchain {
    chain: Vec<Block>,
    current_transactions: Vec<Transaction>,
}

impl View for Blockchain {
    type V = LedgerView;

    closed spec fn view(&self) -> LedgerView {
        LedgerView {
            chain: self.chain@.map_values(|b: Block| b@),
            pending: self.current_transactions@.map_values(|t: Transaction| t@),
        }
    }
}

impl Default for Blockchain {
    /// A ledger with no blocks and an empty pool; not yet well formed.
    fn default() -> (r: Blockchain)
        ensures
            r@.chain.len() == 0,
            r@.pending.len() == 0,
    {
        Blockchain { chain: Vec::new(), current_transactions: Vec::new() }
    }
}

/// The proof that seeds the genesis block.
pub const GENESIS_PROOF: u64 = 100;

/// The previous-hash that the genesis block holds in place of a predecessor.
pub const GENESIS_PREVIOUS_HASH: u64 = 1;

/// A ledger whose chain holds only the genesis block: index 1, no
/// transactions, the genesis proof and previous-hash; the pool is empty.
pub fn new_blockchain() -> (r: Blockchain)
    ensures
        r@.wf(),
        r@.chain.len() == 1,
        r@.chain[0].index == 1,
        r@.chain[0].transactions.len() == 0,
        r@.chain[0].proof == GENESIS_PROOF,
        r@.chain[0].previous_hash == GENESIS_PREVIOUS_HASH,
        r@.pending.len() == 0,
{
    let mut bc = Blockchain::default();
    bc.new_block(GENESIS_PROOF, Some(GENESIS_PREVIOUS_HASH));
    bc
}

impl Blockchain {
    /// The sealed blocks, oldest first.
    pub fn chain(&self) -> (r: &Vec<Block>)
        ensures
            r@.map_values(|b: Block| b@) == self@.chain,
    {
        &self.chain
    }

    /// The transactions that the next block will seal, in submission order.
    pub fn current_transactions(&self) -> (r: &Vec<Transaction>)
        ensures
            r@.map_values(|t: Transaction| t@) == self@.pending,
    {
        &self.current_transactions
    }

    /// Seals the whole pool into a new block with the next index, the
    /// current time and `proof`, and empties the pool. The block records
    /// `previous_hash` where it is given, which only the first block of a
    /// chain may do, and otherwise the fingerprint of the block that is last
    /// at this moment.
    pub fn new_block(&mut self, proof: u64, previous_hash: Option<u64>)
        requires
            old(self)@.chain.len() < usize::MAX,
            match previous_hash {
                Some(_) => old(self)@.chain.len() == 0,
                None => old(self)@.wf(),
            },
        ensures
            final(self)@.pending.len() == 0,
            final(self)@.chain.len() == old(self)@.chain.len() + 1,
            final(self)@.chain.drop_last() == old(self)@.chain,
            final(self)@.chain.last().index == old(self)@.chain.len() + 1,
            final(self)@.chain.last().transactions == old(self)@.pending,
            final(self)@.chain.last().proof == proof,
            final(self)@.chain.last().previous_hash == match previous_hash {
                Some(h) => h,
                None => fingerprint_of(old(self)@.chain.last()),
            },
            previous_hash is None ==> old(self)@.seals(final(self)@, proof),
            final(self)@.wf(),
    {
        let previous_hash = match previous_hash {
            Some(h) => h,
            None => Blockchain::hash(self.last_block()),
        };
        let mut taken: Vec<Transaction> = Vec::new();
        std::mem::swap(&mut self.current_transactions, &mut taken);
        let block = Block {
            index: self.chain.len() + 1,
            timestamp: now(),
            transactions: taken,
            proof: proof,
            previous_hash: previous_hash,
        };
        self.chain.push(block);
        assert(self@.chain.drop_last() =~= old(self)@.chain);
        assert(self@.pending =~= Seq::<TransactionView>::empty());
        proof {
            if old(self)@.chain.len() == 0 {
                assert(self@.chain.len() == 1);
                assert(self@.chain[0].index == 1);
            } else {
                lemma_seal_preserves_wf(old(self)@, self@, proof);
            }
        }
    }

    /// Seals the pool into a new block carrying `proof`, unless the chain
    /// would then hold `usize::MAX` blocks; returns a copy of the new block.
    pub fn try_seal(&mut self, proof: u64) -> (r: Option<Block>)
        requires
            old(self)@.wf(),
            old(self)@.chain.len() < usize::MAX,
        ensures
            r is None <==> old(self)@.chain.len() == usize::MAX - 1,
            r is None ==> final(self)@ == old(self)@,
            r matches Some(b) ==> old(self)@.seals(final(self)@, proof)
                && b@ == final(self)@.chain.last(),
            final(self)@.wf(),
            final(self)@.chain.len() < usize::MAX,
            final(self)@.chain[0] == old(self)@.chain[0],
    {
        if self.chain.len() == usize::MAX - 1 {
            return None;
        }
        self.new_block(proof, None);
        assert(self@.chain[0] == self@.chain.drop_last()[0]);
        Some(self.last_block().duplicate())
    }

    /// Adds `transaction` to the end of the pool and returns the index of the
    /// block that will seal it.
    pub fn new_transaction(&mut self, transaction: Transaction) -> (r: usize)
        requires
            old(self)@.wf(),
            old(self)@.chain.len() < usize::MAX,
        ensures
            final(self)@ == old(self)@.submit(transaction@),
            r == old(self)@.chain.len() + 1,
            final(self)@.wf(),
    {
        let ghost t = transaction@;
        self.current_transactions.push(transaction);
        assert(self@.pending =~= old(self)@.pending.push(t));
        assert(self@.chain.last().index == self@.chain.len());
        self.last_block().index + 1
    }

    /// The fingerprint of `block` that its successor records.
    pub fn hash(block: &Block) -> (r: u64)
        ensures
            r == fingerprint_of(block@),
    {
        fingerprint(block)
    }

    /// The most recently sealed block.
    pub fn last_block(&self) -> (r: &Block)
        requires
            self@.wf(),
        ensures
            r@ == self@.chain.last(),
    {
        &self.chain[self.chain.len() - 1]
    }

    /// Searches for the least proof that solves the puzzle for the last
    /// block's proof and seals the pool with it. Returns `false`, changing
    /// nothing, only when no 64-bit proof solves it.
    pub fn mine(&mut self) -> (r: bool)
        requires
            old(self)@.wf(),
            old(self)@.chain.len() < usize::MAX,
        ensures
            r == exists|p: u64| solves(old(self)@.chain.last().proof, p),
            r ==> old(self)@.seals(final(self)@, final(self)@.chain.last().proof),
            r ==> least_solution(old(self)@.chain.last().proof, final(self)@.chain.last().proof),
            !r ==> final(self)@ == old(self)@,
            final(self)@.wf(),
    {
        let last_proof = self.last_block().proof;
        assert(last_proof == old(self)@.chain.last().proof);
        match Blockchain::proof_of_work(last_proof) {
            Some(p) => {
                assert(solves(last_proof, p));
                self.new_block(p, None);
                true
            },
            None => {
                assert(!exists|p: u64| solves(last_proof, p));
                false
            },
        }
    }
}

/// Sealing a block keeps the ledger well formed.
pub proof fn lemma_seal_preserves_wf(pre: LedgerView, post: LedgerView, proof: u64)
    requires
        pre.wf(),
        pre.seals(post, proof),
    ensures
        post.wf(),
{
    assert forall|i: int| 0 <= i < post.chain.len() implies #[trigger] post.chain[i].index == i
        + 1 by {
        if i < pre.chain.len() {
            assert(post.chain[i] == post.chain.drop_last()[i]);
        }
    }
    assert forall|i: int| 0 < i < post.chain.len() implies #[trigger] post.chain[i].previous_hash
        == fingerprint_of(post.chain[i - 1]) by {
        assert(post.chain[i - 1] == post.chain.drop_last()[i - 1]);
        if i < pre.chain.len() {
            assert(post.chain[i] == post.chain.drop_last()[i]);
        }
    }
}

/// In a well-formed ledger every block after the first holds the fingerprint
/// of the block before it.
pub proof fn lemma_linked(l: LedgerView, i: int)
    requires
        l.wf(),
        0 < i < l.chain.len(),
    ensures
        l.chain[i].previous_hash == fingerprint_of(l.chain[i - 1]),
{
}

/// Submitting transactions leaves the chain alone and appends them to the
/// pool in the order given.
pub proof fn lemma_submit_all(l: LedgerView, ts: Seq<TransactionView>)
    ensures
        l.submit_all(ts).chain == l.chain,
        l.submit_all(ts).pending == l.pending + ts,
    decreases ts.len(),
{
    if ts.len() > 0 {
        lemma_submit_all(l, ts.drop_last());
        assert(l.pending + ts =~= (l.pending + ts.drop_last()).push(ts.last()));
    } else {
        assert(l.pending + ts =~= l.pending);
    }
}

/// Starting from an empty pool, transactions submitted one by one and then
/// sealed all land in the new block, in submission order, and the pool is
/// empty again.
pub proof fn lemma_sealed_in_submission_order(
    l: LedgerView,
    ts: Seq<TransactionView>,
    post: LedgerView,
    proof: u64,
)
    requires
        l.pending.len() == 0,
        l.submit_all(ts).seals(post, proof),
    ensures
        post.pending.len() == 0,
        post.chain.last().transactions == ts,
{
    lemma_submit_all(l, ts);
    assert(l.pending + ts =~= ts);
}

/// Sealing with an empty pool still appends a block: it holds no
/// transactions, names the fingerprint of the former last block, and the
/// ledger stays well formed.
pub proof fn lemma_seal_empty_pool(pre: LedgerView, post: LedgerView, proof: u64)
    requires
        pre.wf(),
        pre.pending.len() == 0,
        pre.seals(post, proof),
    ensures
        post.chain.len() == pre.chain.len() + 1,
        post.chain.last().transactions.len() == 0,
        post.chain.last().previous_hash == fingerprint_of(pre.chain.last()),
        post.wf(),
{
    lemma_seal_preserves_wf(pre, post, proof);
}

/// Two seals one after the other, as the lock orders two miners: each new
/// block links to the block that was last at its own seal, so the two record
/// the fingerprints of different blocks, and the ledger stays well formed.
pub proof fn lemma_two_seals_in_order(
    pre: LedgerView,
    mid: LedgerView,
    post: LedgerView,
    first: u64,
    second: u64,
)
    requires
        pre.wf(),
        pre.seals(mid, first),
        mid.seals(post, second),
    ensures
        post.chain.len() == pre.chain.len() + 2,
        post.chain[pre.chain.len() as int].previous_hash == fingerprint_of(pre.chain.last()),
        post.chain[pre.chain.len() + 1int].previous_hash == fingerprint_of(
            post.chain[pre.chain.len() as int],
        ),
        post.wf(),
{
    lemma_seal_preserves_wf(pre, mid, first);
    lemma_seal_preserves_wf(mid, post, second);
    assert(post.chain[pre.chain.len() as int] == post.chain.drop_last()[pre.chain.len() as int]);
}

} // verus!
