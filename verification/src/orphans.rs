//! The orphan pool: blocks whose parent is not yet known, kept in
//! arrival order up to a bound; when full, the oldest orphan is
//! evicted. Children of a newly connected block leave the pool
//! together, in arrival order.

use vstd::prelude::*;

use crate::block::{Block, BlockV};
use crate::primitives::Id;

verus! {

/// A buffered block's content is internally consistent: its header
/// commits to its transactions.
pub open spec fn spec_orphan_wf(b: BlockV) -> bool {
    b.header.body_root == crate::block::spec_body_root(b.transactions)
}

#[derive(Debug, Clone, Copy, PartialEq, Eq, Structural)]
pub enum OrphanAddError {
    BlockAlreadyInOrphanList,
}

/// Buffered blocks waiting for their parent, oldest first.
pub struct OrphanBlocksPool {
    pub blocks: Vec<Block>,
    pub max_orphans: usize,
}

impl OrphanBlocksPool {
    /// The buffered blocks' content, oldest first.
    pub open spec fn view(self) -> Seq<BlockV> {
        self.blocks@.map_values(|b: Block| b@)
    }

    pub open spec fn wf(self) -> bool {
        &&& self.blocks@.len() <= self.max_orphans
        &&& (forall|i: int| 0 <= i < self@.len() ==> spec_orphan_wf(#[trigger] self@[i]))
    }

    pub fn new(max_orphans: usize) -> (r: OrphanBlocksPool)
        ensures
            r.wf(),
            r@ =~= Seq::<BlockV>::empty(),
            r.max_orphans == max_orphans,
    {
        OrphanBlocksPool { blocks: Vec::new(), max_orphans }
    }

    pub fn len(&self) -> (r: usize)
        ensures
            r == self@.len(),
    {
        self.blocks.len()
    }

    /// Whether a block with this id is already buffered.
    pub fn is_already_an_orphan(&self, block_id: &Id) -> (r: bool)
        ensures
            r == exists|i: int| 0 <= i < self@.len() && crate::block::header_id(#[trigger] self@[i].header) == *block_id,
    {
        let n = self.blocks.len();
        let mut i: usize = 0;
        while i < n
            invariant
                i <= n,
                n == self@.len(),
                forall|j: int| 0 <= j < i ==> crate::block::header_id(#[trigger] self@[j].header) != *block_id,
            decreases n - i,
        {
            let id = self.blocks[i].get_id();
            if id.value == block_id.value {
                proof {
                    assert(self@[i as int].header == self.blocks@[i as int].header@);
                }
                return true;
            }
            i = i + 1;
        }
        false
    }

    /// Buffer a block. Re-announcing a buffered block is rejected;
    /// when the pool is full the oldest orphan is evicted first.
    pub fn add_block(&mut self, block: Block) -> (r: Result<(), OrphanAddError>)
        requires
            old(self).wf(),
            old(self).max_orphans >= 1,
            block.wf(),
        ensures
            final(self).wf(),
            final(self).max_orphans == old(self).max_orphans,
            (exists|i: int| 0 <= i < old(self)@.len()
                && crate::block::header_id(#[trigger] old(self)@[i].header) == block.spec_id()) ==> (
                r == Result::<(), OrphanAddError>::Err(OrphanAddError::BlockAlreadyInOrphanList)
                && final(self)@ == old(self)@
            ),
            !(exists|i: int| 0 <= i < old(self)@.len()
                && crate::block::header_id(#[trigger] old(self)@[i].header) == block.spec_id()) ==> (
                r is Ok
                && final(self)@ == (if old(self)@.len() < old(self).max_orphans {
                    old(self)@
                } else {
                    old(self)@.drop_first()
                }).push(block@)
            ),
    {
        let id = block.get_id();
        if self.is_already_an_orphan(&id) {
            return Err(OrphanAddError::BlockAlreadyInOrphanList);
        }
        if self.blocks.len() >= self.max_orphans {
            self.blocks.remove(0);
            proof {
                assert(self@ =~= old(self)@.drop_first());
            }
        }
        let ghost mid = self@;
        self.blocks.push(block);
        proof {
            assert(self@ =~= mid.push(block@));
        }
        Ok(())
    }

    /// Remove and return, oldest first, every buffered block whose
    /// declared parent is `prev_id`.
    pub fn take_all_children_of(&mut self, prev_id: &Id) -> (r: Vec<Block>)
        requires
            old(self).wf(),
        ensures
            final(self).wf(),
            final(self).max_orphans == old(self).max_orphans,
            r@.map_values(|b: Block| b@)
                == old(self)@.filter(|b: BlockV| b.header.prev_block_id == *prev_id),
            final(self)@ == old(self)@.filter(|b: BlockV| b.header.prev_block_id != *prev_id),
            forall|i: int| 0 <= i < r@.len() ==> (#[trigger] r@[i]).wf(),
            final(self)@.len() + r@.len() == old(self)@.len(),
    {
        let mut taken: Vec<Block> = Vec::new();
        let mut kept: Vec<Block> = Vec::new();
        let n = self.blocks.len();
        let mut i: usize = 0;
        while i < n
            invariant
                i <= n,
                n == self.blocks@.len(),
                self.blocks@.len() == old(self).blocks@.len(),
                self@ == old(self)@,
                taken@.map_values(|b: Block| b@)
                    =~= self@.take(i as int).filter(|b: BlockV| b.header.prev_block_id == *prev_id),
                kept@.map_values(|b: Block| b@)
                    =~= self@.take(i as int).filter(|b: BlockV| b.header.prev_block_id != *prev_id),
                taken@.len() + kept@.len() == i,
                forall|k: int| 0 <= k < self@.len() ==> spec_orphan_wf(#[trigger] self@[k]),
                forall|k: int| 0 <= k < taken@.len() ==> (#[trigger] taken@[k]).wf(),
                forall|k: int| 0 <= k < kept@.len() ==> (#[trigger] kept@[k]).wf(),
            decreases n - i,
        {
            proof {
                reveal(Seq::filter);
                assert(self@.take(i + 1).drop_last() =~= self@.take(i as int));
                assert(self@.take(i + 1).last() == self@[i as int]);
                assert(self@[i as int] == self.blocks@[i as int]@);
            }
            let ghost taken0 = taken@;
            let ghost kept0 = kept@;
            let b = self.blocks[i].duplicate();
            proof {
                assert(spec_orphan_wf(self@[i as int]));
                assert(b@ == self@[i as int]);
                assert(b.wf());
            }
            if b.header.prev_block_id.value == prev_id.value {
                taken.push(b);
                proof {
                    reveal(Seq::filter);
                    assert(taken@.map_values(|b: Block| b@)
                        =~= taken0.map_values(|b: Block| b@).push(self@[i as int]));
                    assert(taken@.map_values(|b: Block| b@)
                        =~= self@.take(i + 1).filter(|b: BlockV| b.header.prev_block_id == *prev_id));
                    assert(kept@.map_values(|b: Block| b@)
                        =~= self@.take(i + 1).filter(|b: BlockV| b.header.prev_block_id != *prev_id));
                }
            } else {
                kept.push(b);
                proof {
                    reveal(Seq::filter);
                    assert(kept@.map_values(|b: Block| b@)
                        =~= kept0.map_values(|b: Block| b@).push(self@[i as int]));
                    assert(taken@.map_values(|b: Block| b@)
                        =~= self@.take(i + 1).filter(|b: BlockV| b.header.prev_block_id == *prev_id));
                    assert(kept@.map_values(|b: Block| b@)
                        =~= self@.take(i + 1).filter(|b: BlockV| b.header.prev_block_id != *prev_id));
                }
            }
            i = i + 1;
        }
        proof {
            reveal(Seq::filter);
            assert(self@.take(n as int) =~= self@);
            crate::orphans::lemma_filter_len(self@, |b: BlockV| b.header.prev_block_id != *prev_id);
        }
        self.blocks = kept;
        taken
    }
}

/// Filtering splits a sequence: the kept and dropped parts together
/// count its length.
pub proof fn lemma_filter_partition<T>(s: Seq<T>, p: spec_fn(T) -> bool, q: spec_fn(T) -> bool)
    requires
        forall|x: T| #[trigger] p(x) == !q(x),
    ensures
        s.filter(p).len() + s.filter(q).len() == s.len(),
    decreases s.len(),
{
    reveal(Seq::filter);
    if s.len() > 0 {
        lemma_filter_partition(s.drop_last(), p, q);
        assert(p(s.last()) == !q(s.last()));
    }
}

/// Filtering never lengthens a sequence.
pub proof fn lemma_filter_len<T>(s: Seq<T>, p: spec_fn(T) -> bool)
    ensures
        s.filter(p).len() <= s.len(),
    decreases s.len(),
{
    reveal(Seq::filter);
    if s.len() > 0 {
        lemma_filter_len(s.drop_last(), p);
    }
}

} // verus!
