//! Shared access to one ledger from many request handlers: readers share the
//! lock, writers hold it alone, and the ledger it guards is well linked in
//! every state that a handler can observe.

use vstd::prelude::*;
use vstd::rwlock::{RwLock, RwLockPredicate};
use crate::ledger::{is_genesis, new_blockchain, well_linked, Block, Blockchain, Transaction};
use crate::pow::{least_solution, solves};

verus! {

/// What the lock keeps true of the ledger between critical sections.
pub struct WellFormedLedger;

impl RwLockPredicate<Blockchain> for WellFormedLedger {
    open spec fn inv(self, v: Blockchain) -> bool {
        &&& v@.wf()
        &&& v@.chain.len() < usize::MAX
        &&& is_genesis(v@.chain[0])
    }
}

/// A reader/writer lock around a ledger that starts at genesis.
pub struct Coordinator {
    lock: RwLock<Blockchain, WellFormedLedger>,
}

impl Coordinator {
    /// The lock guards a well-formed ledger.
    pub closed spec fn wf(&self) -> bool {
        self.lock.pred() == WellFormedLedger
    }

    /// A coordinator around a fresh ledger holding only the genesis block.
    pub fn new() -> (r: Coordinator)
        ensures
            r.wf(),
    {
        Coordinator { lock: RwLock::new(new_blockchain(), Ghost(WellFormedLedger)) }
    }

    /// A copy of the chain, taken under shared access; it is well linked and
    /// starts with the genesis block.
    pub fn inspect_chain(&self) -> (r: Vec<Block>)
        requires
            self.wf(),
        ensures
            well_linked(r@.map_values(|b: Block| b@)),
            is_genesis(r@[0]@),
    {
        let handle = self.lock.acquire_read();
        let bc = handle.borrow();
        let chain = bc.chain();
        let mut out: Vec<Block> = Vec::new();
        let mut i: usize = 0;
        while i < chain.len()
            invariant
                i <= chain@.len(),
                bc@.wf(),
                chain@.map_values(|b: Block| b@) == bc@.chain,
                out@.len() == i,
                forall|j: int| 0 <= j < i ==> #[trigger] out@[j]@ == chain@[j]@,
            decreases chain@.len() - i,
        {
            out.push(chain[i].duplicate());
            i = i + 1;
        }
        assert(out@.map_values(|b: Block| b@) =~= bc@.chain);
        assert(out@[0]@ == bc@.chain[0]);
        handle.release_read();
        out
    }

    /// The proof of the last block, read under shared access.
    pub fn last_proof(&self) -> (r: u64)
        requires
            self.wf(),
    {
        let handle = self.lock.acquire_read();
        let p = handle.borrow().last_block().proof;
        handle.release_read();
        p
    }

    /// Appends `transaction` to the pool under exclusive access. Returns the
    /// index of the block that will seal it, which is at least 2, and a copy
    /// of the pool, which ends with it.
    pub fn submit_transaction(&self, transaction: Transaction) -> (r: (usize, Vec<Transaction>))
        requires
            self.wf(),
        ensures
            r.0 >= 2,
            r.1@.len() >= 1,
            r.1@.last()@ == transaction@,
    {
        let ghost t = transaction@;
        let (mut bc, handle) = self.lock.acquire_write();
        let index = bc.new_transaction(transaction);
        let pending = bc.current_transactions();
        let mut pool: Vec<Transaction> = Vec::new();
        let mut i: usize = 0;
        while i < pending.len()
            invariant
                i <= pending@.len(),
                pending@.map_values(|x: Transaction| x@) == bc@.pending,
                pool@.len() == i,
                forall|j: int| 0 <= j < i ==> #[trigger] pool@[j]@ == pending@[j]@,
            decreases pending@.len() - i,
        {
            pool.push(pending[i].duplicate());
            i = i + 1;
        }
        assert(pending@[pending@.len() - 1]@ == bc@.pending.last());
        handle.release_write(bc);
        (index, pool)
    }

    /// Seals the pool into a block carrying `proof`, under exclusive access,
    /// linked to the block that is last at that moment, and returns a copy of
    /// it. This is `Blockchain::try_seal` on the shared ledger: `None`,
    /// changing nothing, only when the chain holds `usize::MAX - 1` blocks.
    pub fn seal(&self, proof: u64) -> (r: Option<Block>)
        requires
            self.wf(),
        ensures
            r matches Some(b) ==> b@.proof == proof && b@.index >= 2,
    {
        let (mut bc, handle) = self.lock.acquire_write();
        let r = bc.try_seal(proof);
        handle.release_write(bc);
        r
    }

    /// Mines a block: reads the last proof under shared access, searches for
    /// the least solution with no lock held, then seals under exclusive
    /// access. A block sealed meanwhile by another handler is what the new
    /// block links to.
    pub fn mine(&self) -> (r: Result<Block, MineError>)
        requires
            self.wf(),
        ensures
            r matches Ok(b) ==> (b@.index >= 2 && exists|last: u64|
                #[trigger] least_solution(last, b@.proof)),
            r matches Err(MineError::NoProof(last)) ==> forall|q: u64| !solves(last, q),
    {
        let last = self.last_proof();
        match Blockchain::proof_of_work(last) {
            Some(p) => {
                match self.seal(p) {
                    Some(b) => {
                        assert(least_solution(last, b@.proof));
                        let r: Result<Block, MineError> = Ok(b);
                        assert(r matches Ok(x) && x@.index >= 2);
                        r
                    },
                    None => Err(MineError::ChainFull),
                }
            },
            None => Err(MineError::NoProof(last)),
        }
    }
}

/// Why mining sealed no block.
#[derive(Clone, Copy, Debug, PartialEq, Eq)]
pub enum MineError {
    /// No 64-bit proof solves the puzzle for this last proof.
    NoProof(u64),
    /// The chain already holds as many blocks as the ledger can index.
    ChainFull,
}

} // verus!
